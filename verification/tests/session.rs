use quill::{App, ElementType, Message, Screenplay, ScreenplayEditor, ScreenplayError};

fn type_text(app: &mut App, text: &str) {
    for c in text.chars() {
        app.update(Message::CharacterTyped(c));
    }
}

#[test]
fn test_default_session() {
    let app = App::default();
    assert_eq!(app.screenplay.title, "Untitled");
    assert_eq!(app.screenplay.element_count(), 1);
    assert_eq!(app.current_element_type, ElementType::Action);
    assert_eq!(app.cursor_position, 0);
    assert_eq!(app.cursor_offset, 0);
    assert!(app.cursor_visible);
}

#[test]
fn test_typing_fills_current_element() {
    let mut app = App::default();
    type_text(&mut app, "John walks in.");
    assert_eq!(
        app.screenplay.get_element(0).unwrap().content_string(),
        "John walks in."
    );
    assert_eq!(app.cursor_offset, 14);
    assert!(app.screenplay.modified);
}

#[test]
fn test_enter_after_caps_action_creates_character_cue() {
    let mut app = App::default();
    type_text(&mut app, "JOHN");
    app.update(Message::EnterPressed);
    assert_eq!(app.current_element_type, ElementType::Character);
    assert_eq!(app.cursor_position, 1);
    assert_eq!(app.cursor_offset, 0);
    assert_eq!(app.screenplay.element_count(), 2);
    assert_eq!(
        app.screenplay.get_element(1).unwrap().element_type,
        ElementType::Character
    );
    assert_eq!(app.screenplay.get_element(1).unwrap().content_string(), "");
}

#[test]
fn test_enter_after_scene_prefix_stays_action() {
    let mut app = App::default();
    type_text(&mut app, "INT. LAB - NIGHT");
    app.update(Message::EnterPressed);
    assert_eq!(app.current_element_type, ElementType::Action);
    assert_eq!(
        app.screenplay.get_element(1).unwrap().element_type,
        ElementType::Action
    );
}

#[test]
fn test_enter_leaves_finalized_element_untouched() {
    let mut app = App::default();
    type_text(&mut app, "JOHN");
    app.update(Message::EnterPressed);
    let first = app.screenplay.get_element(0).unwrap();
    assert_eq!(first.element_type, ElementType::Action);
    assert_eq!(first.content_string(), "JOHN");
}

#[test]
fn test_tab_retypes_element_in_place() {
    let mut app = App::default();
    type_text(&mut app, "hello");
    app.update(Message::TabPressed);
    assert_eq!(app.current_element_type, ElementType::SceneHeading);
    let element = app.screenplay.get_element(0).unwrap();
    assert_eq!(element.element_type, ElementType::SceneHeading);
    assert_eq!(element.content_string(), "hello");
}

#[test]
fn test_tick_toggles_blink_only() {
    let mut app = App::default();
    type_text(&mut app, "x");
    let before_count = app.screenplay.element_count();
    app.update(Message::Tick);
    assert!(!app.cursor_visible);
    app.update(Message::Tick);
    assert!(app.cursor_visible);
    assert_eq!(app.screenplay.element_count(), before_count);
    assert_eq!(app.screenplay.get_element(0).unwrap().content_string(), "x");
}

#[test]
fn test_arrows_drive_cursor_through_session() {
    let mut app = App::default();
    type_text(&mut app, "ab");
    app.update(Message::EnterPressed);
    type_text(&mut app, "wxyz");
    app.update(Message::ArrowUp);
    assert_eq!(app.cursor_position, 0);
    assert_eq!(app.cursor_offset, 2);
    assert_eq!(app.desired_cursor_offset, 4);
    app.update(Message::ArrowDown);
    assert_eq!(app.cursor_position, 1);
    assert_eq!(app.cursor_offset, 4);
    app.update(Message::ArrowLeft);
    assert_eq!(app.cursor_offset, 3);
    app.update(Message::ArrowRight);
    assert_eq!(app.cursor_offset, 4);
    app.update(Message::ArrowRight);
    assert_eq!(app.cursor_offset, 4);
    assert_eq!(app.cursor_position, 1);
}

#[test]
fn test_backspace_through_session_merges() {
    let mut app = App::default();
    type_text(&mut app, "ab");
    app.update(Message::EnterPressed);
    app.update(Message::BackspacePressed);
    assert_eq!(app.screenplay.element_count(), 1);
    assert_eq!(app.cursor_position, 0);
    assert_eq!(app.cursor_offset, 2);
    assert_eq!(app.current_element_type, ElementType::Action);
}

#[test]
fn test_delete_through_session() {
    let mut app = App::default();
    type_text(&mut app, "abc");
    app.update(Message::ArrowLeft);
    app.update(Message::ArrowLeft);
    app.update(Message::DeletePressed);
    assert_eq!(app.screenplay.get_element(0).unwrap().content_string(), "ac");
    assert_eq!(app.cursor_offset, 1);
}

#[test]
fn test_screenplay_editor_snapshot() {
    let mut screenplay = Screenplay::empty();
    screenplay.add_element(quill::Element::new(
        ElementType::Action,
        "shot".to_string(),
    ));
    let editor = ScreenplayEditor::new(screenplay.elements.clone(), 0, 2);
    assert_eq!(editor.elements.len(), 1);
    assert_eq!(editor.cursor_position, 0);
    assert_eq!(editor.cursor_offset, 2);
}

#[test]
fn test_json_round_trip_with_contact_and_escapes() {
    let mut screenplay = Screenplay::new("A \"quoted\" title\\with specials".to_string());
    screenplay.author = Some("Anne Author".to_string());
    screenplay.contact = Some("line one\nline two\ttabbed".to_string());
    screenplay.add_element(quill::Element::new(
        ElementType::Dialogue,
        "He said \"hi\"\u{1F3AC} caf\u{e9}".to_string(),
    ));
    screenplay.add_element(quill::Element::new(ElementType::Transition, "CUT TO:".to_string()));

    let json = screenplay.to_json().unwrap();
    let back = Screenplay::from_json(&json).unwrap();
    assert_eq!(back.title, screenplay.title);
    assert_eq!(back.author, screenplay.author);
    assert_eq!(back.contact, screenplay.contact);
    assert_eq!(back.element_count(), 2);
    assert_eq!(
        back.get_element(0).unwrap().content_string(),
        "He said \"hi\"\u{1F3AC} caf\u{e9}"
    );
    assert_eq!(
        back.get_element(1).unwrap().element_type,
        ElementType::Transition
    );
    assert!(!back.modified);
    assert!(back.file_path.is_none());
}

#[test]
fn test_json_round_trip_empty_document() {
    let screenplay = Screenplay::new("Bare".to_string());
    let json = screenplay.to_json().unwrap();
    assert_eq!(
        json,
        "{\"title\":\"Bare\",\"author\":null,\"contact\":null,\"elements\":[]}"
    );
    let back = Screenplay::from_json(&json).unwrap();
    assert_eq!(back.title, "Bare");
    assert!(back.author.is_none());
    assert!(back.is_empty());
}

#[test]
fn test_from_json_rejects_malformed_input() {
    for bad in [
        "",
        "{",
        "not json at all",
        "{\"title\":\"x\"}",
        "{\"title\":\"x\",\"author\":null,\"contact\":null,\"elements\":[}",
        "{\"title\":\"x\",\"author\":null,\"contact\":null,\"elements\":[]} trailing",
        "{\"title\":\"x\",\"author\":null,\"contact\":null,\"elements\":[{\"element_type\":\"Nope\",\"content\":\"y\"}]}",
    ] {
        let result = Screenplay::from_json(bad);
        assert!(matches!(result, Err(ScreenplayError::JsonParse(_))));
    }
}
