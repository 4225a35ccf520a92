use quill::{Element, ElementType, Screenplay};

#[test]
fn test_element_creation() {
    let element = Element::new(ElementType::Action, "Test".to_string());
    assert_eq!(element.element_type, ElementType::Action);
    assert_eq!(element.content_string(), "Test");
}

#[test]
fn test_uppercase_detection() {
    assert!(ElementType::SceneHeading.is_uppercase());
    assert!(!ElementType::Action.is_uppercase());
}

#[test]
fn test_screenplay_creation() {
    let screenplay = Screenplay::new("Test".to_string());
    assert_eq!(screenplay.title, "Test");
    assert!(screenplay.is_empty());
}

#[test]
fn test_element_is_empty() {
    let empty = Element::empty(ElementType::Action);
    assert!(empty.is_empty());

    let whitespace = Element::new(ElementType::Action, "   ".to_string());
    assert!(whitespace.is_empty());

    let content = Element::new(ElementType::Action, "Text".to_string());
    assert!(!content.is_empty());
}

#[test]
fn test_formatted_content() {
    let scene = Element::new(
        ElementType::SceneHeading,
        "int. coffee shop - day".to_string(),
    );
    assert_eq!(scene.formatted_content(), "INT. COFFEE SHOP - DAY");

    let action = Element::new(ElementType::Action, "John walks in.".to_string());
    assert_eq!(action.formatted_content(), "John walks in.");
}

#[test]
fn test_screenplay_add_element() {
    let mut screenplay = Screenplay::empty();
    let element = Element::new(ElementType::Action, "Test".to_string());

    screenplay.add_element(element);
    assert_eq!(screenplay.element_count(), 1);
    assert!(screenplay.modified);
}

#[test]
fn test_screenplay_insert_remove() {
    let mut screenplay = Screenplay::empty();
    let elem1 = Element::new(ElementType::Action, "First".to_string());
    let elem2 = Element::new(ElementType::Action, "Second".to_string());

    screenplay.add_element(elem1);
    screenplay.insert_element(0, elem2);

    assert_eq!(screenplay.element_count(), 2);
    assert_eq!(screenplay.get_element(0).unwrap().content_string(), "Second");

    let removed = screenplay.remove_element(0);
    assert!(removed.is_some());
    assert_eq!(screenplay.element_count(), 1);
}

#[test]
fn test_json_serialization() {
    let mut screenplay = Screenplay::new("Test Script".to_string());
    screenplay.author = Some("Test Author".to_string());
    screenplay.add_element(Element::new(
        ElementType::SceneHeading,
        "INT. TEST - DAY".to_string(),
    ));

    let json = screenplay.to_json().unwrap();
    let deserialized = Screenplay::from_json(&json).unwrap();

    assert_eq!(deserialized.title, "Test Script");
    assert_eq!(deserialized.author, Some("Test Author".to_string()));
    assert_eq!(deserialized.element_count(), 1);
}

#[test]
fn test_insert_remove_order() {
    let mut screenplay = Screenplay::empty();
    screenplay.add_element(Element::new(ElementType::Action, "A".to_string()));
    screenplay.insert_element(0, Element::new(ElementType::Dialogue, "B".to_string()));

    assert_eq!(screenplay.get_element(0).unwrap().content_string(), "B");
    assert_eq!(screenplay.get_element(1).unwrap().content_string(), "A");

    let removed = screenplay.remove_element(0).unwrap();
    assert_eq!(removed.content_string(), "B");
    assert_eq!(removed.element_type, ElementType::Dialogue);
    assert_eq!(screenplay.element_count(), 1);
    assert_eq!(screenplay.get_element(0).unwrap().content_string(), "A");
}

#[test]
fn test_insert_out_of_bounds_is_noop() {
    let mut screenplay = Screenplay::empty();
    screenplay.insert_element(3, Element::empty(ElementType::Action));
    assert_eq!(screenplay.element_count(), 0);
    assert!(!screenplay.modified);
    assert!(screenplay.remove_element(0).is_none());
}

#[test]
fn test_get_element_mut_marks_modified() {
    let mut screenplay = Screenplay::empty();
    screenplay.add_element(Element::new(ElementType::Action, "x".to_string()));
    screenplay.mark_saved();
    assert!(!screenplay.modified);

    let element = screenplay.get_element_mut(0).unwrap();
    element.element_type = ElementType::Character;
    assert!(screenplay.modified);
    assert_eq!(
        screenplay.get_element(0).unwrap().element_type,
        ElementType::Character
    );
    assert!(screenplay.get_element_mut(5).is_none());
}

#[test]
fn test_display_name() {
    let mut screenplay = Screenplay::new("My Script".to_string());
    assert_eq!(screenplay.display_name(), "My Script");

    screenplay.file_path = Some("/home/writer/drafts/opus.fountain".to_string());
    assert_eq!(screenplay.display_name(), "opus.fountain");

    screenplay.file_path = Some("/home/writer/drafts/".to_string());
    assert_eq!(screenplay.display_name(), "My Script");

    screenplay.file_path = Some("relative.json".to_string());
    assert_eq!(screenplay.display_name(), "relative.json");

    screenplay.file_path = Some("/home/writer/..".to_string());
    assert_eq!(screenplay.display_name(), "My Script");
}

#[test]
fn test_mark_saved_clears_modified() {
    let mut screenplay = Screenplay::empty();
    screenplay.add_element(Element::empty(ElementType::Action));
    assert!(screenplay.modified);
    screenplay.mark_saved();
    assert!(!screenplay.modified);
    screenplay.mark_modified();
    assert!(screenplay.modified);
}
