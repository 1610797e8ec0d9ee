use boatctl::cursor::ServiceCursor;

#[test]
fn cursor_hands_out_its_token_only_between_pages() {
    let initial: ServiceCursor<String> = ServiceCursor::Initial;
    let next = ServiceCursor::Next("abc".to_string());
    let end: ServiceCursor<String> = ServiceCursor::End;
    assert_eq!(initial.as_request_cursor_ref(), None);
    assert_eq!(next.as_request_cursor_ref(), Some(&"abc".to_string()));
    assert_eq!(end.as_request_cursor_ref(), None);
}
