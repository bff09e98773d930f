//! The event router: the composition root.
//!
//! The router owns no domain state beyond its channel endpoints.  Each
//! event arriving from the connection actor, the presentation layer or the
//! automation actor is translated, synchronously and one at a time, into
//! the requests listed here, which the surrounding loop then sends in
//! order.  On a quit event both other actors receive their shutdown
//! request before the loop is allowed to exit.

use vstd::prelude::*;

use crate::layout::{LayoutElement, DEFAULT_PANE_ID};
use crate::script::{ScriptEngineEvent, ScriptEngineRequest};
use crate::telnet::{event_text, TelnetEvent, TelnetRequest};

verus! {

/// Requests toward the presentation layer.  The `usize` names the
/// transcript pane addressed.
pub enum TuiRequest {
    /// Append remote output to the transcript.
    Print(String, usize),
    /// Echo a submitted input line.
    PrintUserInput(String, usize),
    PrintInfo(String, usize),
    PrintWarning(String, usize),
    PrintError(String, usize),
    /// Replace the active layout.
    SetLayout(LayoutElement),
}

/// Events arriving from the presentation layer.
pub enum TuiEvent {
    /// Submit an input line.
    Send(String),
    /// Submit an input line as a secret: it is echoed masked.
    SendSecret(String),
    /// Stop the program.
    Quit,
}

/// One request the router issues to a collaborator.
pub enum RouterAction {
    ToTui(TuiRequest),
    ToConnection(TelnetRequest),
    ToScript(ScriptEngineRequest),
}

/// The fixed mask echoed in place of secret input.
pub open spec fn secret_mask() -> Seq<char> {
    "*****"@
}

/// The fixed mask echoed in place of secret input.
fn mask_text() -> (r: String)
    ensures
        r@ == secret_mask(),
{
    String::from_str("*****")
}

/// Routes one event from the connection actor: remote output goes to the
/// transcript and, unconditionally and with the same payload, to the
/// automation actor; informational and warning events are displayed with
/// their severity; errors are displayed annotated with their source;
/// unhandled protocol events are displayed as a warning carrying their
/// description.
pub fn handle_telnet_event(ev: TelnetEvent) -> (actions: Vec<RouterAction>)
    ensures
        match ev {
            TelnetEvent::Data(d) => {
                &&& actions@.len() == 2
                &&& (actions@[0] matches RouterAction::ToTui(TuiRequest::Print(m, p)) && m@ == d@
                    && p == DEFAULT_PANE_ID)
                &&& (actions@[1] matches RouterAction::ToScript(ScriptEngineRequest::Output(m))
                    && m@ == d@)
            },
            TelnetEvent::Unhandled(e) => {
                &&& actions@.len() == 1
                &&& (actions@[0] matches RouterAction::ToTui(TuiRequest::PrintWarning(m, p)) && m@
                    == "Unhandled telnet event: "@ + event_text(e) && p == DEFAULT_PANE_ID)
            },
            TelnetEvent::Info(d) => {
                &&& actions@.len() == 1
                &&& (actions@[0] matches RouterAction::ToTui(TuiRequest::PrintInfo(m, p)) && m@
                    == d@ && p == DEFAULT_PANE_ID)
            },
            TelnetEvent::Warning(d) => {
                &&& actions@.len() == 1
                &&& (actions@[0] matches RouterAction::ToTui(TuiRequest::PrintWarning(m, p)) && m@
                    == d@ && p == DEFAULT_PANE_ID)
            },
            TelnetEvent::Error(e) => {
                &&& actions@.len() == 1
                &&& (actions@[0] matches RouterAction::ToTui(TuiRequest::PrintError(m, p)) && m@
                    == "Connection error: "@ + e@ && p == DEFAULT_PANE_ID)
            },
        },
{
    let mut actions: Vec<RouterAction> = Vec::new();
    match ev {
        TelnetEvent::Data(d) => {
            actions.push(RouterAction::ToTui(TuiRequest::Print(d.clone(), DEFAULT_PANE_ID)));
            actions.push(RouterAction::ToScript(ScriptEngineRequest::Output(d)));
        },
        TelnetEvent::Unhandled(e) => {
            let mut m = String::from_str("Unhandled telnet event: ");
            let desc = e.describe();
            m.append(desc.as_str());
            actions.push(RouterAction::ToTui(TuiRequest::PrintWarning(m, DEFAULT_PANE_ID)));
        },
        TelnetEvent::Info(d) => {
            actions.push(RouterAction::ToTui(TuiRequest::PrintInfo(d, DEFAULT_PANE_ID)));
        },
        TelnetEvent::Warning(d) => {
            actions.push(RouterAction::ToTui(TuiRequest::PrintWarning(d, DEFAULT_PANE_ID)));
        },
        TelnetEvent::Error(e) => {
            let mut m = String::from_str("Connection error: ");
            m.append(e.as_str());
            actions.push(RouterAction::ToTui(TuiRequest::PrintError(m, DEFAULT_PANE_ID)));
        },
    }
    actions
}

/// Routes one event from the presentation layer.  A submitted line becomes
/// a connection send request plus a transcript echo (the secret variant
/// echoes the fixed mask instead of the text).  A quit event yields the
/// connection shutdown request and the automation shutdown request — both,
/// always — and only then reports that the router loop may exit.
pub fn handle_tui_event(ev: TuiEvent) -> (r: (Vec<RouterAction>, bool))
    ensures
        match ev {
            TuiEvent::Send(d) => {
                &&& r.0@.len() == 2
                &&& (r.0@[0] matches RouterAction::ToConnection(TelnetRequest::Send(m)) && m@
                    == d@)
                &&& (r.0@[1] matches RouterAction::ToTui(TuiRequest::PrintUserInput(m, p)) && m@
                    == d@ && p == DEFAULT_PANE_ID)
                &&& r.1 == false
            },
            TuiEvent::SendSecret(d) => {
                &&& r.0@.len() == 2
                &&& (r.0@[0] matches RouterAction::ToConnection(TelnetRequest::Send(m)) && m@
                    == d@)
                &&& (r.0@[1] matches RouterAction::ToTui(TuiRequest::PrintUserInput(m, p)) && m@
                    == secret_mask() && p == DEFAULT_PANE_ID)
                &&& r.1 == false
            },
            TuiEvent::Quit => {
                &&& r.0@.len() == 2
                &&& (r.0@[0] matches RouterAction::ToConnection(TelnetRequest::Shutdown))
                &&& (r.0@[1] matches RouterAction::ToScript(ScriptEngineRequest::Shutdown))
                &&& r.1 == true
            },
        },
{
    let mut actions: Vec<RouterAction> = Vec::new();
    match ev {
        TuiEvent::Send(d) => {
            actions.push(RouterAction::ToConnection(TelnetRequest::Send(d.clone())));
            actions.push(RouterAction::ToTui(TuiRequest::PrintUserInput(d, DEFAULT_PANE_ID)));
            (actions, false)
        },
        TuiEvent::SendSecret(d) => {
            actions.push(RouterAction::ToConnection(TelnetRequest::Send(d)));
            actions.push(
                RouterAction::ToTui(TuiRequest::PrintUserInput(mask_text(), DEFAULT_PANE_ID)),
            );
            (actions, false)
        },
        TuiEvent::Quit => {
            actions.push(RouterAction::ToConnection(TelnetRequest::Shutdown));
            actions.push(RouterAction::ToScript(ScriptEngineRequest::Shutdown));
            (actions, true)
        },
    }
}

/// Routes one event from the automation actor: capability calls have the
/// same effect as their presentation-originated equivalents — sends are
/// echoed to the transcript, secrets masked — a layout replacement goes to
/// the presentation layer, and a script error is displayed annotated with
/// its source.
pub fn handle_script_event(ev: ScriptEngineEvent) -> (actions: Vec<RouterAction>)
    ensures
        match ev {
            ScriptEngineEvent::Connect(a, p) => {
                &&& actions@.len() == 1
                &&& (actions@[0] matches RouterAction::ToConnection(TelnetRequest::Connect(a2, p2))
                    && a2@ == a@ && p2 == p)
            },
            ScriptEngineEvent::Send(d) => {
                &&& actions@.len() == 2
                &&& (actions@[0] matches RouterAction::ToConnection(TelnetRequest::Send(m)) && m@
                    == d@)
                &&& (actions@[1] matches RouterAction::ToTui(TuiRequest::PrintUserInput(m, p))
                    && m@ == d@ && p == DEFAULT_PANE_ID)
            },
            ScriptEngineEvent::SendSecret(d) => {
                &&& actions@.len() == 2
                &&& (actions@[0] matches RouterAction::ToConnection(TelnetRequest::Send(m)) && m@
                    == d@)
                &&& (actions@[1] matches RouterAction::ToTui(TuiRequest::PrintUserInput(m, p))
                    && m@ == secret_mask() && p == DEFAULT_PANE_ID)
            },
            ScriptEngineEvent::SetLayout(l) => {
                &&& actions@.len() == 1
                &&& (actions@[0] matches RouterAction::ToTui(TuiRequest::SetLayout(l2)) && l2 == l)
            },
            ScriptEngineEvent::Error(e) => {
                &&& actions@.len() == 1
                &&& (actions@[0] matches RouterAction::ToTui(TuiRequest::PrintError(m, p)) && m@
                    == "Script error: "@ + e@ && p == DEFAULT_PANE_ID)
            },
        },
{
    let mut actions: Vec<RouterAction> = Vec::new();
    match ev {
        ScriptEngineEvent::Connect(a, p) => {
            actions.push(RouterAction::ToConnection(TelnetRequest::Connect(a, p)));
        },
        ScriptEngineEvent::Send(d) => {
            actions.push(RouterAction::ToConnection(TelnetRequest::Send(d.clone())));
            actions.push(RouterAction::ToTui(TuiRequest::PrintUserInput(d, DEFAULT_PANE_ID)));
        },
        ScriptEngineEvent::SendSecret(d) => {
            actions.push(RouterAction::ToConnection(TelnetRequest::Send(d)));
            actions.push(
                RouterAction::ToTui(TuiRequest::PrintUserInput(mask_text(), DEFAULT_PANE_ID)),
            );
        },
        ScriptEngineEvent::SetLayout(l) => {
            actions.push(RouterAction::ToTui(TuiRequest::SetLayout(l)));
        },
        ScriptEngineEvent::Error(e) => {
            let mut m = String::from_str("Script error: ");
            m.append(e.as_str());
            actions.push(RouterAction::ToTui(TuiRequest::PrintError(m, DEFAULT_PANE_ID)));
        },
    }
    actions
}

} // verus!
