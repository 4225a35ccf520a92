use quill::{CursorState, Element, ElementType, Screenplay};

fn doc_with(lines: &[(&str, ElementType)]) -> Screenplay {
    let mut screenplay = Screenplay::empty();
    for (text, t) in lines {
        screenplay.add_element(Element::new(*t, (*text).to_string()));
    }
    screenplay
}

fn cursor_at(position: usize, offset: usize, element_type: ElementType) -> CursorState {
    CursorState {
        position,
        offset,
        desired_offset: offset,
        element_type,
    }
}

#[test]
fn test_move_right_at_document_end_is_noop() {
    let screenplay = doc_with(&[("One", ElementType::Action), ("Two", ElementType::Action)]);
    let mut cursor = cursor_at(1, 3, ElementType::Action);
    cursor.move_right(&screenplay);
    assert_eq!(cursor.position, 1);
    assert_eq!(cursor.offset, 3);
    assert_eq!(cursor.desired_offset, 3);
}

#[test]
fn test_move_right_within_and_across_elements() {
    let screenplay = doc_with(&[("ab", ElementType::Action), ("cd", ElementType::Dialogue)]);
    let mut cursor = cursor_at(0, 1, ElementType::Action);
    cursor.move_right(&screenplay);
    assert_eq!((cursor.position, cursor.offset), (0, 2));
    cursor.move_right(&screenplay);
    assert_eq!((cursor.position, cursor.offset), (1, 0));
    assert_eq!(cursor.element_type, ElementType::Dialogue);
    assert_eq!(cursor.desired_offset, 0);
}

#[test]
fn test_move_left_does_not_wrap() {
    let mut cursor = cursor_at(1, 1, ElementType::Action);
    cursor.move_left();
    assert_eq!((cursor.position, cursor.offset), (1, 0));
    cursor.move_left();
    assert_eq!((cursor.position, cursor.offset), (1, 0));
}

#[test]
fn test_backspace_merges_without_deleting_nonempty() {
    let mut screenplay = doc_with(&[("Hello", ElementType::Action), ("World", ElementType::Dialogue)]);
    let mut cursor = cursor_at(1, 0, ElementType::Dialogue);
    cursor.backspace(&mut screenplay);
    assert_eq!(screenplay.element_count(), 2);
    assert_eq!(cursor.position, 0);
    assert_eq!(cursor.offset, 5);
    assert_eq!(cursor.desired_offset, 5);
    assert_eq!(cursor.element_type, ElementType::Action);
    assert_eq!(screenplay.get_element(1).unwrap().content_string(), "World");
}

#[test]
fn test_backspace_deletes_blank_element() {
    let mut screenplay = doc_with(&[("Hello", ElementType::Action), ("   ", ElementType::Action)]);
    let mut cursor = cursor_at(1, 0, ElementType::Action);
    cursor.backspace(&mut screenplay);
    assert_eq!(screenplay.element_count(), 1);
    assert_eq!(cursor.position, 0);
    assert_eq!(cursor.offset, 5);
    assert_eq!(screenplay.get_element(0).unwrap().content_string(), "Hello");
}

#[test]
fn test_backspace_at_document_start_is_noop() {
    let mut screenplay = doc_with(&[("Hello", ElementType::Action)]);
    let mut cursor = cursor_at(0, 0, ElementType::Action);
    cursor.backspace(&mut screenplay);
    assert_eq!(screenplay.element_count(), 1);
    assert_eq!((cursor.position, cursor.offset), (0, 0));
    assert_eq!(screenplay.get_element(0).unwrap().content_string(), "Hello");
}

#[test]
fn test_backspace_removes_character() {
    let mut screenplay = doc_with(&[("abc", ElementType::Action)]);
    let mut cursor = cursor_at(0, 2, ElementType::Action);
    cursor.backspace(&mut screenplay);
    assert_eq!(screenplay.get_element(0).unwrap().content_string(), "ac");
    assert_eq!(cursor.offset, 1);
}

#[test]
fn test_delete_removes_at_cursor_and_never_merges() {
    let mut screenplay = doc_with(&[("abc", ElementType::Action), ("def", ElementType::Action)]);
    let mut cursor = cursor_at(0, 1, ElementType::Action);
    cursor.delete(&mut screenplay);
    assert_eq!(screenplay.get_element(0).unwrap().content_string(), "ac");
    assert_eq!(cursor.offset, 1);

    let mut end_cursor = cursor_at(0, 2, ElementType::Action);
    end_cursor.delete(&mut screenplay);
    assert_eq!(screenplay.element_count(), 2);
    assert_eq!(screenplay.get_element(0).unwrap().content_string(), "ac");
    assert_eq!(end_cursor.offset, 2);
}

#[test]
fn test_insert_char_advances_cursor() {
    let mut screenplay = doc_with(&[("ac", ElementType::Action)]);
    let mut cursor = cursor_at(0, 1, ElementType::Action);
    cursor.insert_char(&mut screenplay, 'b');
    assert_eq!(screenplay.get_element(0).unwrap().content_string(), "abc");
    assert_eq!(cursor.offset, 2);
    assert_eq!(cursor.desired_offset, 2);
    assert!(screenplay.modified);
}

#[test]
fn test_insert_char_appends_element_past_end() {
    let mut screenplay = Screenplay::empty();
    let mut cursor = cursor_at(0, 0, ElementType::Character);
    cursor.insert_char(&mut screenplay, 'J');
    assert_eq!(screenplay.element_count(), 1);
    assert_eq!(screenplay.get_element(0).unwrap().content_string(), "J");
    assert_eq!(
        screenplay.get_element(0).unwrap().element_type,
        ElementType::Character
    );
    assert_eq!(cursor.offset, 1);
}

#[test]
fn test_vertical_moves_keep_desired_offset() {
    let screenplay = doc_with(&[
        ("a long first line", ElementType::Action),
        ("mid", ElementType::Action),
        ("another long line", ElementType::Action),
    ]);
    let mut cursor = cursor_at(2, 10, ElementType::Action);
    cursor.move_up(&screenplay);
    assert_eq!(cursor.position, 1);
    assert_eq!(cursor.offset, 3);
    assert_eq!(cursor.desired_offset, 10);
    cursor.move_up(&screenplay);
    assert_eq!(cursor.position, 0);
    assert_eq!(cursor.offset, 10);
    assert_eq!(cursor.desired_offset, 10);
    cursor.move_down(&screenplay);
    cursor.move_down(&screenplay);
    assert_eq!(cursor.position, 2);
    assert_eq!(cursor.offset, 10);
    assert_eq!(cursor.desired_offset, 10);
}

#[test]
fn test_move_up_at_top_and_down_at_bottom_are_noops() {
    let screenplay = doc_with(&[("ab", ElementType::Action), ("cd", ElementType::Action)]);
    let mut top = cursor_at(0, 1, ElementType::Action);
    top.move_up(&screenplay);
    assert_eq!((top.position, top.offset), (0, 1));

    let mut bottom = cursor_at(1, 1, ElementType::Action);
    bottom.move_down(&screenplay);
    assert_eq!((bottom.position, bottom.offset), (1, 1));

    let empty = Screenplay::empty();
    let mut lone = cursor_at(0, 0, ElementType::Action);
    lone.move_down(&empty);
    assert_eq!((lone.position, lone.offset), (0, 0));
}
