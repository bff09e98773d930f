use draugr::layout::{LayoutElement, LayoutError, LayoutPane, ScriptValue};
use draugr::script::{handle_set_layout, WaiterTable};

fn entry(key: &str, value: ScriptValue) -> (String, ScriptValue) {
    (key.to_string(), value)
}

fn text(s: &str) -> ScriptValue {
    ScriptValue::Str(s.to_string())
}

fn constraint(kind: &str, value: i64) -> ScriptValue {
    ScriptValue::Array(vec![text(kind), ScriptValue::Int(value)])
}

fn scroll_pane(id: i64) -> ScriptValue {
    ScriptValue::Object(vec![entry("type", text("scroll")), entry("id", ScriptValue::Int(id))])
}

fn input_pane() -> ScriptValue {
    ScriptValue::Object(vec![entry("type", text("input"))])
}

fn vstack(children: Vec<ScriptValue>, constraints: Vec<ScriptValue>) -> ScriptValue {
    ScriptValue::Object(vec![
        entry("type", text("vstack")),
        entry("children", ScriptValue::Array(children)),
        entry("constraints", ScriptValue::Array(constraints)),
    ])
}

#[test]
fn tickets_are_handed_out_in_order() {
    let mut t = WaiterTable::new();
    assert_eq!(t.len(), 0);
    assert_eq!(t.register("ab".to_string()), Ok(0));
    assert_eq!(t.register("cd".to_string()), Ok(1));
    assert_eq!(t.len(), 2);
}

#[test]
fn invalid_patterns_are_refused() {
    let mut t = WaiterTable::new();
    let r = t.register("(".to_string());
    assert_eq!(r, Err("Invalid pattern: (".to_string()));
    assert_eq!(t.len(), 0);
    // A refusal burns no ticket.
    assert_eq!(t.register("ok".to_string()), Ok(0));
}

#[test]
fn overlapping_waiters_resolve_from_one_line_exactly_once() {
    let mut t = WaiterTable::new();
    let a = t.register("abc".to_string()).unwrap();
    let b = t.register("a.c".to_string()).unwrap();
    let resolved = t.match_line(&"xxabcyy".to_string());
    assert_eq!(resolved, vec![a, b]);
    assert_eq!(t.len(), 0);
    // Both were removed: the same line resolves nothing a second time.
    let resolved = t.match_line(&"xxabcyy".to_string());
    assert!(resolved.is_empty());
}

#[test]
fn unmatched_waiters_persist() {
    let mut t = WaiterTable::new();
    let quiet = t.register("^prompt>".to_string()).unwrap();
    let loud = t.register("gold".to_string()).unwrap();
    let resolved = t.match_line(&"a pile of gold coins".to_string());
    assert_eq!(resolved, vec![loud]);
    assert_eq!(t.len(), 1);
    let resolved = t.match_line(&"prompt> ".to_string());
    assert_eq!(resolved, vec![quiet]);
    assert_eq!(t.len(), 0);
}

#[test]
fn anchored_patterns_match_as_written() {
    let mut t = WaiterTable::new();
    let id = t.register("^You die\\.$".to_string()).unwrap();
    assert!(t.match_line(&"You die. Sorry.".to_string()).is_empty());
    assert_eq!(t.match_line(&"You die.".to_string()), vec![id]);
}

#[test]
fn usable_layout_is_accepted() {
    let spec = vstack(
        vec![scroll_pane(1), input_pane()],
        vec![constraint("max", 9999), constraint("min", 2)],
    );
    let layout = handle_set_layout(&spec).unwrap();
    match layout {
        LayoutElement::VerticalStack { children, constraints } => {
            assert_eq!(children.len(), 2);
            assert!(matches!(children[0], LayoutElement::Pane(LayoutPane::Scroll { id: Some(1) })));
            assert!(matches!(children[1], LayoutElement::Pane(LayoutPane::Input)));
            assert_eq!(constraints.len(), 2);
        },
        _ => panic!("expected a vertical stack"),
    }
}

#[test]
fn layout_without_input_is_rejected() {
    let spec = vstack(vec![scroll_pane(1)], vec![constraint("min", 2)]);
    assert!(matches!(handle_set_layout(&spec), Err(LayoutError::MissingInput)));
}

#[test]
fn layout_with_two_inputs_is_rejected() {
    let spec = vstack(
        vec![scroll_pane(1), input_pane(), input_pane()],
        vec![constraint("min", 2), constraint("min", 2), constraint("min", 2)],
    );
    assert!(matches!(handle_set_layout(&spec), Err(LayoutError::MultipleInputs)));
}

#[test]
fn layout_without_default_pane_is_rejected() {
    let spec = vstack(
        vec![scroll_pane(2), input_pane()],
        vec![constraint("max", 9999), constraint("min", 2)],
    );
    assert!(matches!(handle_set_layout(&spec), Err(LayoutError::MissingDefaultPane)));
}

#[test]
fn parse_errors_pass_through_set_layout() {
    let spec = ScriptValue::Object(vec![entry("type", text("grid"))]);
    assert!(matches!(handle_set_layout(&spec), Err(LayoutError::UnknownElementType)));
}
