use quill::{detect_next_element_type, next_element_type, ElementType};

#[test]
fn test_next_element_type_order() {
    assert_eq!(
        next_element_type(ElementType::Action),
        ElementType::SceneHeading
    );
    assert_eq!(
        next_element_type(ElementType::SceneHeading),
        ElementType::Character
    );
    assert_eq!(
        next_element_type(ElementType::Character),
        ElementType::Dialogue
    );
    assert_eq!(
        next_element_type(ElementType::Dialogue),
        ElementType::Parenthetical
    );
    assert_eq!(
        next_element_type(ElementType::Parenthetical),
        ElementType::Transition
    );
    assert_eq!(
        next_element_type(ElementType::Transition),
        ElementType::Action
    );
}

#[test]
fn test_next_element_type_cycles_with_period_six() {
    let all = [
        ElementType::SceneHeading,
        ElementType::Action,
        ElementType::Character,
        ElementType::Dialogue,
        ElementType::Parenthetical,
        ElementType::Transition,
    ];
    for start in all {
        let mut t = start;
        let mut seen = vec![t];
        for _ in 0..6 {
            t = next_element_type(t);
            seen.push(t);
        }
        assert_eq!(t, start);
        for expected in all {
            assert!(seen[0..6].contains(&expected));
        }
    }
}

#[test]
fn test_detect_after_action() {
    assert_eq!(
        detect_next_element_type(ElementType::Action, "JOHN"),
        ElementType::Character
    );
    assert_eq!(
        detect_next_element_type(ElementType::Action, "INT. HOUSE"),
        ElementType::Action
    );
    assert_eq!(
        detect_next_element_type(ElementType::Action, "EXT. GARDEN"),
        ElementType::Action
    );
    assert_eq!(
        detect_next_element_type(ElementType::Action, "John"),
        ElementType::Action
    );
    assert_eq!(
        detect_next_element_type(ElementType::Action, ""),
        ElementType::Character
    );
    assert_eq!(
        detect_next_element_type(ElementType::Action, "FADE IN: 42!"),
        ElementType::Character
    );
}

#[test]
fn test_detect_after_other_types() {
    assert_eq!(
        detect_next_element_type(ElementType::SceneHeading, "whatever"),
        ElementType::Action
    );
    assert_eq!(
        detect_next_element_type(ElementType::Character, "JOHN"),
        ElementType::Dialogue
    );
    assert_eq!(
        detect_next_element_type(ElementType::Dialogue, "Hello."),
        ElementType::Action
    );
    assert_eq!(
        detect_next_element_type(ElementType::Parenthetical, "(beat)"),
        ElementType::Dialogue
    );
    assert_eq!(
        detect_next_element_type(ElementType::Transition, "CUT TO:"),
        ElementType::SceneHeading
    );
}

#[test]
fn test_as_str_names() {
    assert_eq!(ElementType::SceneHeading.as_str(), "Scene Heading");
    assert_eq!(ElementType::Action.as_str(), "Action");
    assert_eq!(ElementType::Character.as_str(), "Character");
    assert_eq!(ElementType::Dialogue.as_str(), "Dialogue");
    assert_eq!(ElementType::Parenthetical.as_str(), "Parenthetical");
    assert_eq!(ElementType::Transition.as_str(), "Transition");
    assert_eq!(ElementType::default(), ElementType::Action);
}
