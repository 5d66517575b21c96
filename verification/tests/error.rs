use cursor_element::error::CursorError;

#[test]
fn each_error_has_its_own_message() {
    assert_eq!(CursorError::ThemeNotFound.message(), "cursor 'left_ptr' not found in any theme");
    assert_eq!(CursorError::IconReadError.message(), "failed to read cursor file");
    assert_eq!(CursorError::ParseError.message(), "failed to parse cursor file");
    assert_eq!(CursorError::ImportError.message(), "failed to import cursor texture");
    assert_eq!(
        CursorError::FrameLookupMiss.message(),
        "no cursor texture found for the current delay"
    );
}

#[test]
fn errors_compare_by_variant() {
    assert_eq!(CursorError::ParseError, CursorError::ParseError);
    assert_ne!(CursorError::ParseError, CursorError::ImportError);
    let copy = CursorError::ThemeNotFound;
    assert_eq!(copy, CursorError::ThemeNotFound);
}
