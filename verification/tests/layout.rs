use draugr::layout::{LayoutElement, LayoutError, LayoutPane, ScriptValue, SizeConstraint};

fn entry(key: &str, value: ScriptValue) -> (String, ScriptValue) {
    (key.to_string(), value)
}

fn text(s: &str) -> ScriptValue {
    ScriptValue::Str(s.to_string())
}

fn object(entries: Vec<(String, ScriptValue)>) -> ScriptValue {
    ScriptValue::Object(entries)
}

#[test]
fn parses_a_nested_layout() {
    let spec = object(vec![
        entry("type", text("hstack")),
        entry(
            "children",
            ScriptValue::Array(vec![
                object(vec![entry("type", text("scroll")), entry("id", ScriptValue::Int(7))]),
                object(vec![
                    entry("type", text("vstack")),
                    entry(
                        "children",
                        ScriptValue::Array(vec![
                            object(vec![entry("type", text("scroll"))]),
                            object(vec![entry("type", text("input"))]),
                        ]),
                    ),
                    entry(
                        "constraints",
                        ScriptValue::Array(vec![
                            ScriptValue::Array(vec![text("percentage"), ScriptValue::Int(80)]),
                            ScriptValue::Array(vec![text("min"), ScriptValue::Int(2)]),
                        ]),
                    ),
                ]),
            ]),
        ),
        entry(
            "constraints",
            ScriptValue::Array(vec![
                ScriptValue::Array(vec![text("max"), ScriptValue::Int(40)]),
                ScriptValue::Array(vec![text("percentage"), ScriptValue::Int(60)]),
            ]),
        ),
    ]);
    let layout = LayoutElement::from(&spec).unwrap();
    match layout {
        LayoutElement::HorizontalStack { children, constraints } => {
            assert_eq!(constraints, vec![SizeConstraint::Max(40), SizeConstraint::Percentage(60)]);
            assert_eq!(children.len(), 2);
            assert!(matches!(children[0], LayoutElement::Pane(LayoutPane::Scroll { id: Some(7) })));
            match &children[1] {
                LayoutElement::VerticalStack { children, constraints } => {
                    assert_eq!(
                        *constraints,
                        vec![SizeConstraint::Percentage(80), SizeConstraint::Min(2)]
                    );
                    assert!(matches!(children[0], LayoutElement::Pane(LayoutPane::Scroll { id: None })));
                    assert!(matches!(children[1], LayoutElement::Pane(LayoutPane::Input)));
                },
                _ => panic!("expected a nested vertical stack"),
            }
        },
        _ => panic!("expected a horizontal stack"),
    }
}

#[test]
fn non_map_values_are_rejected() {
    assert!(matches!(LayoutElement::from(&ScriptValue::Int(3)), Err(LayoutError::NotAMap)));
    assert!(matches!(LayoutElement::from(&text("vstack")), Err(LayoutError::NotAMap)));
}

#[test]
fn missing_or_non_text_type_is_rejected() {
    let no_type = object(vec![entry("id", ScriptValue::Int(1))]);
    assert!(matches!(LayoutElement::from(&no_type), Err(LayoutError::MissingType)));
    let numeric_type = object(vec![entry("type", ScriptValue::Int(1))]);
    assert!(matches!(LayoutElement::from(&numeric_type), Err(LayoutError::MissingType)));
}

#[test]
fn unknown_element_type_is_rejected() {
    let spec = object(vec![entry("type", text("grid"))]);
    assert!(matches!(LayoutElement::from(&spec), Err(LayoutError::UnknownElementType)));
}

#[test]
fn stack_without_children_or_constraints_is_rejected() {
    let no_children = object(vec![
        entry("type", text("vstack")),
        entry("constraints", ScriptValue::Array(vec![])),
    ]);
    assert!(matches!(LayoutElement::from(&no_children), Err(LayoutError::MissingChildren)));
    let no_constraints = object(vec![
        entry("type", text("vstack")),
        entry("children", ScriptValue::Array(vec![])),
    ]);
    assert!(matches!(LayoutElement::from(&no_constraints), Err(LayoutError::MissingConstraints)));
}

#[test]
fn child_errors_propagate() {
    let spec = object(vec![
        entry("type", text("vstack")),
        entry("children", ScriptValue::Array(vec![ScriptValue::Int(1)])),
        entry("constraints", ScriptValue::Array(vec![])),
    ]);
    assert!(matches!(LayoutElement::from(&spec), Err(LayoutError::NotAMap)));
}

#[test]
fn bad_constraints_are_rejected() {
    let stack = |c: ScriptValue| {
        object(vec![
            entry("type", text("vstack")),
            entry("children", ScriptValue::Array(vec![])),
            entry("constraints", ScriptValue::Array(vec![c])),
        ])
    };
    let unknown = stack(ScriptValue::Array(vec![text("exact"), ScriptValue::Int(1)]));
    assert!(matches!(LayoutElement::from(&unknown), Err(LayoutError::UnknownConstraintType)));
    let no_value = stack(ScriptValue::Array(vec![text("max")]));
    assert!(matches!(LayoutElement::from(&no_value), Err(LayoutError::BadConstraint)));
    let not_array = stack(text("max"));
    assert!(matches!(LayoutElement::from(&not_array), Err(LayoutError::BadConstraint)));
    let too_large = stack(ScriptValue::Array(vec![text("max"), ScriptValue::Int(70000)]));
    assert!(matches!(LayoutElement::from(&too_large), Err(LayoutError::ConstraintOutOfRange)));
    let negative = stack(ScriptValue::Array(vec![text("min"), ScriptValue::Int(-1)]));
    assert!(matches!(LayoutElement::from(&negative), Err(LayoutError::ConstraintOutOfRange)));
}

#[test]
fn map_form_constraints_are_accepted() {
    let spec = object(vec![
        entry("type", text("vstack")),
        entry("children", ScriptValue::Array(vec![])),
        entry(
            "constraints",
            ScriptValue::Array(vec![
                object(vec![entry("max", ScriptValue::Int(9999))]),
                object(vec![entry("min", ScriptValue::Int(2))]),
                object(vec![entry("percentage", ScriptValue::Int(50))]),
            ]),
        ),
    ]);
    match LayoutElement::from(&spec).unwrap() {
        LayoutElement::VerticalStack { constraints, .. } => {
            assert_eq!(
                constraints,
                vec![
                    SizeConstraint::Max(9999),
                    SizeConstraint::Min(2),
                    SizeConstraint::Percentage(50),
                ]
            );
        },
        _ => panic!("expected a vertical stack"),
    }
}

#[test]
fn map_form_constraints_are_checked_too() {
    let stack = |c: ScriptValue| {
        object(vec![
            entry("type", text("vstack")),
            entry("children", ScriptValue::Array(vec![])),
            entry("constraints", ScriptValue::Array(vec![c])),
        ])
    };
    let unknown = stack(object(vec![entry("exact", ScriptValue::Int(1))]));
    assert!(matches!(LayoutElement::from(&unknown), Err(LayoutError::UnknownConstraintType)));
    let too_large = stack(object(vec![entry("max", ScriptValue::Int(70000))]));
    assert!(matches!(LayoutElement::from(&too_large), Err(LayoutError::ConstraintOutOfRange)));
    let not_a_number = stack(object(vec![entry("min", text("two"))]));
    assert!(matches!(LayoutElement::from(&not_a_number), Err(LayoutError::BadConstraint)));
}

#[test]
fn scroll_ids_must_be_usable_numbers() {
    let no_id = object(vec![entry("type", text("scroll"))]);
    assert!(matches!(
        LayoutElement::from(&no_id),
        Ok(LayoutElement::Pane(LayoutPane::Scroll { id: None }))
    ));
    let text_id = object(vec![entry("type", text("scroll")), entry("id", text("one"))]);
    assert!(matches!(LayoutElement::from(&text_id), Err(LayoutError::BadId)));
    let negative = object(vec![entry("type", text("scroll")), entry("id", ScriptValue::Int(-1))]);
    assert!(matches!(LayoutElement::from(&negative), Err(LayoutError::IdOutOfRange)));
}

#[test]
fn validation_checks_input_and_default_pane() {
    let ok = LayoutElement::VerticalStack {
        children: vec![
            LayoutElement::Pane(LayoutPane::Scroll { id: Some(1) }),
            LayoutElement::Pane(LayoutPane::Input),
        ],
        constraints: vec![SizeConstraint::Max(9999), SizeConstraint::Min(2)],
    };
    assert!(ok.validate().is_ok());
    assert!(ok.contains_scroll_pane(1));
    assert!(!ok.contains_scroll_pane(2));

    let no_input = LayoutElement::Pane(LayoutPane::Scroll { id: Some(1) });
    assert!(matches!(no_input.validate(), Err(LayoutError::MissingInput)));

    let no_default = LayoutElement::VerticalStack {
        children: vec![
            LayoutElement::Pane(LayoutPane::Scroll { id: None }),
            LayoutElement::Pane(LayoutPane::Input),
        ],
        constraints: vec![],
    };
    assert!(matches!(no_default.validate(), Err(LayoutError::MissingDefaultPane)));

    let nested_inputs = LayoutElement::HorizontalStack {
        children: vec![
            LayoutElement::Pane(LayoutPane::Input),
            LayoutElement::VerticalStack {
                children: vec![
                    LayoutElement::Pane(LayoutPane::Scroll { id: Some(1) }),
                    LayoutElement::Pane(LayoutPane::Input),
                ],
                constraints: vec![],
            },
        ],
        constraints: vec![],
    };
    assert!(matches!(nested_inputs.validate(), Err(LayoutError::MultipleInputs)));
}
