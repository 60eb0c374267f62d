use ytclip::trim_parser;

#[test]
fn splits_at_comma() {
    assert_eq!(
        trim_parser("0:00,1:30"),
        Ok(("0:00".to_string(), "1:30".to_string()))
    );
}

#[test]
fn rejects_token_without_comma() {
    let r = trim_parser("0:00-1:30");
    assert_eq!(
        r,
        Err("Invalid formatting. For example: 0 to 10 seconds is \"0:00,0:10\"".to_string())
    );
}

#[test]
fn splits_at_first_comma_only() {
    assert_eq!(
        trim_parser("a,b,c"),
        Ok(("a".to_string(), "b,c".to_string()))
    );
}

#[test]
fn empty_halves_are_kept() {
    assert_eq!(trim_parser(","), Ok(("".to_string(), "".to_string())));
    assert_eq!(trim_parser(",x"), Ok(("".to_string(), "x".to_string())));
    assert_eq!(trim_parser("x,"), Ok(("x".to_string(), "".to_string())));
}

#[test]
fn rejects_empty_token() {
    assert!(trim_parser("").is_err());
}
