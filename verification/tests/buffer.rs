use rustpass::buffer::{SecureBuffer, ZeroizingString};

fn buffer_of(text: &str) -> SecureBuffer {
    let mut buffer = SecureBuffer::default();
    for c in text.chars() {
        buffer.push(c);
    }
    buffer
}

#[test]
fn new_buffer_is_empty() {
    let buffer = SecureBuffer::default();
    assert!(buffer.is_empty());
    assert_eq!(buffer.len(), 0);
    assert_eq!(buffer.as_str(), "");
}

#[test]
fn push_appends_characters_of_every_width() {
    let buffer = buffer_of("aß€😀");
    assert_eq!(buffer.as_str(), "aß€😀");
    assert_eq!(buffer.len(), 1 + 2 + 3 + 4);
    assert!(!buffer.is_empty());
}

#[test]
fn push_takes_the_bounds_of_each_width() {
    let text = "\u{0}\u{7f}\u{80}\u{7ff}\u{800}\u{d7ff}\u{e000}\u{ffff}\u{10000}\u{10ffff}";
    assert_eq!(buffer_of(text).as_str(), text);
}

#[test]
fn pop_removes_one_character() {
    let mut buffer = buffer_of("aß€😀");
    assert!(buffer.pop());
    assert_eq!(buffer.as_str(), "aß€");
    assert!(buffer.pop());
    assert_eq!(buffer.as_str(), "aß");
    assert!(buffer.pop());
    assert_eq!(buffer.as_str(), "a");
    assert!(buffer.pop());
    assert_eq!(buffer.as_str(), "");
    assert!(!buffer.pop());
    assert_eq!(buffer.as_str(), "");
}

#[test]
fn pop_undoes_push() {
    let mut buffer = buffer_of("pässword");
    buffer.push('ö');
    assert!(buffer.pop());
    assert_eq!(buffer.as_str(), "pässword");
}

#[test]
fn clearing_leaves_nothing() {
    let mut buffer = buffer_of("secret");
    buffer.clear_secure();
    assert!(buffer.is_empty());
    buffer.push('x');
    assert_eq!(buffer.as_str(), "x");
}

#[test]
fn buffer_grows_beyond_its_first_allocation() {
    let text = "€".repeat(300);
    let buffer = buffer_of(&text);
    assert_eq!(buffer.len(), 900);
    assert_eq!(buffer.as_str(), text);
}

#[test]
fn assign_replaces_the_contents() {
    let mut buffer = buffer_of("before");
    buffer.assign("næxt");
    assert_eq!(buffer.as_str(), "næxt");
    buffer.assign("");
    assert!(buffer.is_empty());
}

#[test]
fn same_text_compares_contents() {
    assert!(buffer_of("aé").same_text(&buffer_of("aé")));
    assert!(!buffer_of("aé").same_text(&buffer_of("aè")));
    assert!(!buffer_of("a").same_text(&buffer_of("aa")));
    assert!(SecureBuffer::default().same_text(&SecureBuffer::default()));
}

#[test]
fn bridge_carries_an_edit_back() {
    let mut buffer = buffer_of("old");
    let mut bridge = ZeroizingString::from_secure(&buffer);
    assert_eq!(bridge.as_str(), "old");
    bridge.as_mut_string().push_str("er ☃");
    assert_eq!(bridge.as_str(), "older ☃");
    assert_eq!(buffer.as_str(), "old");
    buffer.assign(bridge.as_str());
    assert_eq!(buffer.as_str(), "older ☃");
}
