use vex_browser::forms::{
    build_submission_url, char_edit, encode_form_data, key_edit, percent_encode, FieldKind, FormEdit, FormHandler,
    FormKey, FormMethod,
};
use vex_browser::node::VexId;

#[test]
fn form_method_from_attr() {
    assert_eq!(FormMethod::from_attr("get"), FormMethod::Get);
    assert_eq!(FormMethod::from_attr("GET"), FormMethod::Get);
    assert_eq!(FormMethod::from_attr("post"), FormMethod::Post);
    assert_eq!(FormMethod::from_attr("POST"), FormMethod::Post);
    assert_eq!(FormMethod::from_attr("anything"), FormMethod::Get);
}

#[test]
fn percent_encode_simple() {
    assert_eq!(percent_encode("hello"), "hello");
    assert_eq!(percent_encode("hello world"), "hello+world");
    assert_eq!(percent_encode("a&b=c"), "a%26b%3dc");
}

#[test]
fn encode_form_data_pairs() {
    let pairs = vec![
        ("name".to_string(), "John Doe".to_string()),
        ("age".to_string(), "30".to_string()),
    ];
    let encoded = encode_form_data(&pairs);
    assert_eq!(encoded, "name=John+Doe&age=30");
}

#[test]
fn encode_empty_pairs() {
    let pairs: Vec<(String, String)> = vec![];
    assert_eq!(encode_form_data(&pairs), "");
}

#[test]
fn percent_encode_multibyte_and_unreserved() {
    assert_eq!(percent_encode("é"), "%c3%a9");
    assert_eq!(percent_encode("A-z_0.9~"), "A-z_0.9~");
    assert_eq!(percent_encode("/?"), "%2f%3f");
    assert_eq!(percent_encode(""), "");
}

#[test]
fn method_attr_mixed_case() {
    assert_eq!(FormMethod::from_attr("PoSt"), FormMethod::Post);
    assert_eq!(FormMethod::from_attr(" post"), FormMethod::Get);
}

#[test]
fn build_get_submission_url() {
    let pairs = vec![("q".to_string(), "rust".to_string())];
    let url = build_submission_url("/search", "https://example.com/page", FormMethod::Get, &pairs);
    assert_eq!(url.as_deref(), Some("https://example.com/search?q=rust"));
}

#[test]
fn build_post_submission_url() {
    let pairs = vec![("q".to_string(), "rust".to_string())];
    let url = build_submission_url("/submit", "https://example.com/page", FormMethod::Post, &pairs);
    assert_eq!(url.as_deref(), Some("https://example.com/submit"));
}

#[test]
fn get_submission_without_pairs_keeps_url() {
    let pairs: Vec<(String, String)> = vec![];
    let url = build_submission_url("other?x=1", "https://example.com/dir/page", FormMethod::Get, &pairs);
    assert_eq!(url.as_deref(), Some("https://example.com/dir/other?x=1"));
}

#[test]
fn submission_url_with_bad_base_is_none() {
    let pairs: Vec<(String, String)> = vec![];
    assert_eq!(build_submission_url("/x", "not a url", FormMethod::Post, &pairs), None);
}

#[test]
fn focus_follows_calls() {
    let mut h = FormHandler::new();
    assert_eq!(h.focused(), None);
    h.set_focus(VexId::new(4));
    assert_eq!(h.focused(), Some(VexId::new(4)));
    h.clear_focus();
    assert_eq!(h.focused(), None);
}

#[test]
fn typed_characters_edit_text_fields_only() {
    assert_eq!(char_edit(Some(FieldKind::TextLike), 'a'), FormEdit::Insert('a'));
    assert_eq!(char_edit(Some(FieldKind::TextLike), '\r'), FormEdit::Submit);
    assert_eq!(char_edit(Some(FieldKind::TextLike), '\n'), FormEdit::Submit);
    assert_eq!(char_edit(Some(FieldKind::TextLike), '\t'), FormEdit::Nothing);
    assert_eq!(char_edit(Some(FieldKind::Checkbox), 'a'), FormEdit::Nothing);
    assert_eq!(char_edit(None, 'a'), FormEdit::Nothing);
    assert_eq!(key_edit(Some(FieldKind::TextLike), FormKey::Backspace), FormEdit::DeleteBackward);
    assert_eq!(key_edit(Some(FieldKind::TextLike), FormKey::Space), FormEdit::Insert(' '));
    assert_eq!(key_edit(Some(FieldKind::Checkbox), FormKey::Space), FormEdit::ToggleChecked);
    assert_eq!(key_edit(Some(FieldKind::Checkbox), FormKey::Left), FormEdit::Nothing);
    assert_eq!(key_edit(Some(FieldKind::Other), FormKey::Space), FormEdit::Nothing);
    assert_eq!(key_edit(None, FormKey::End), FormEdit::Nothing);
}
