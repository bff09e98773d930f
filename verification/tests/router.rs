use draugr::layout::{LayoutElement, LayoutPane};
use draugr::router::{
    handle_script_event, handle_telnet_event, handle_tui_event, RouterAction, TuiEvent, TuiRequest,
};
use draugr::script::{ScriptEngineEvent, ScriptEngineRequest};
use draugr::telnet::{ProtocolEvent, TelnetEvent, TelnetRequest};

#[test]
fn quit_shuts_both_actors_down_before_exit() {
    let (actions, quit) = handle_tui_event(TuiEvent::Quit);
    assert!(quit);
    assert_eq!(actions.len(), 2);
    assert!(matches!(actions[0], RouterAction::ToConnection(TelnetRequest::Shutdown)));
    assert!(matches!(actions[1], RouterAction::ToScript(ScriptEngineRequest::Shutdown)));
}

#[test]
fn remote_data_reaches_transcript_and_automation() {
    let actions = handle_telnet_event(TelnetEvent::Data("a goblin arrives".to_string()));
    assert_eq!(actions.len(), 2);
    match &actions[0] {
        RouterAction::ToTui(TuiRequest::Print(m, pane)) => {
            assert_eq!(m, "a goblin arrives");
            assert_eq!(*pane, 1);
        },
        _ => panic!("expected a transcript print"),
    }
    match &actions[1] {
        RouterAction::ToScript(ScriptEngineRequest::Output(m)) => {
            assert_eq!(m, "a goblin arrives");
        },
        _ => panic!("expected an automation output notification"),
    }
}

#[test]
fn severities_are_kept() {
    let actions = handle_telnet_event(TelnetEvent::Info("hi".to_string()));
    assert!(matches!(&actions[0], RouterAction::ToTui(TuiRequest::PrintInfo(m, 1)) if m == "hi"));
    let actions = handle_telnet_event(TelnetEvent::Warning("uh".to_string()));
    assert!(
        matches!(&actions[0], RouterAction::ToTui(TuiRequest::PrintWarning(m, 1)) if m == "uh")
    );
}

#[test]
fn connection_errors_are_annotated() {
    let actions = handle_telnet_event(TelnetEvent::Error("broken pipe".to_string()));
    assert_eq!(actions.len(), 1);
    match &actions[0] {
        RouterAction::ToTui(TuiRequest::PrintError(m, 1)) => {
            assert_eq!(m, "Connection error: broken pipe");
        },
        _ => panic!("expected an error display"),
    }
}

#[test]
fn unhandled_events_are_described() {
    let actions = handle_telnet_event(TelnetEvent::Unhandled(ProtocolEvent::UnknownIac(7)));
    match &actions[0] {
        RouterAction::ToTui(TuiRequest::PrintWarning(m, 1)) => {
            assert_eq!(m, "Unhandled telnet event: IAC 7");
        },
        _ => panic!("expected a warning display"),
    }
}

#[test]
fn submitted_lines_are_sent_and_echoed() {
    let (actions, quit) = handle_tui_event(TuiEvent::Send("kill rat".to_string()));
    assert!(!quit);
    assert_eq!(actions.len(), 2);
    assert!(
        matches!(&actions[0], RouterAction::ToConnection(TelnetRequest::Send(m)) if m == "kill rat")
    );
    assert!(
        matches!(&actions[1], RouterAction::ToTui(TuiRequest::PrintUserInput(m, 1)) if m == "kill rat")
    );
}

#[test]
fn secrets_are_sent_but_echoed_masked() {
    let (actions, quit) = handle_tui_event(TuiEvent::SendSecret("hunter2".to_string()));
    assert!(!quit);
    assert_eq!(actions.len(), 2);
    assert!(
        matches!(&actions[0], RouterAction::ToConnection(TelnetRequest::Send(m)) if m == "hunter2")
    );
    assert!(
        matches!(&actions[1], RouterAction::ToTui(TuiRequest::PrintUserInput(m, 1)) if m == "*****")
    );
}

#[test]
fn script_capabilities_mirror_user_actions() {
    let actions = handle_script_event(ScriptEngineEvent::Connect("mud.example".to_string(), 23));
    assert_eq!(actions.len(), 1);
    assert!(matches!(
        &actions[0],
        RouterAction::ToConnection(TelnetRequest::Connect(host, 23)) if host == "mud.example"
    ));

    let actions = handle_script_event(ScriptEngineEvent::Send("n".to_string()));
    assert_eq!(actions.len(), 2);
    assert!(matches!(&actions[0], RouterAction::ToConnection(TelnetRequest::Send(m)) if m == "n"));
    assert!(
        matches!(&actions[1], RouterAction::ToTui(TuiRequest::PrintUserInput(m, 1)) if m == "n")
    );

    let actions = handle_script_event(ScriptEngineEvent::SendSecret("pw".to_string()));
    assert!(matches!(&actions[0], RouterAction::ToConnection(TelnetRequest::Send(m)) if m == "pw"));
    assert!(
        matches!(&actions[1], RouterAction::ToTui(TuiRequest::PrintUserInput(m, 1)) if m == "*****")
    );
}

#[test]
fn script_errors_are_annotated() {
    let actions = handle_script_event(ScriptEngineEvent::Error("bad script".to_string()));
    assert_eq!(actions.len(), 1);
    match &actions[0] {
        RouterAction::ToTui(TuiRequest::PrintError(m, 1)) => {
            assert_eq!(m, "Script error: bad script");
        },
        _ => panic!("expected an error display"),
    }
}

#[test]
fn layout_replacements_are_forwarded() {
    let layout = LayoutElement::Pane(LayoutPane::Input);
    let actions = handle_script_event(ScriptEngineEvent::SetLayout(layout));
    assert_eq!(actions.len(), 1);
    assert!(matches!(
        &actions[0],
        RouterAction::ToTui(TuiRequest::SetLayout(LayoutElement::Pane(LayoutPane::Input)))
    ));
}
