use sitebuild::content::{parse, Error};

#[test]
fn no_front_matter() {
    let input = r"
Hello world!;
";

    assert_eq!(Ok((None, 0, input)), parse(input));
}

#[test]
fn only_front_matter() {
    let input = r#"
+++
title = "Hello World!"

Hello.
"#;

    assert_eq!(Err(Error::Eof), parse(input));
}

#[test]
fn invalid_start_marker_wrong_characters() {
    let input = r#"
+a+
title = "Hello World!"
+a+
Hello.
"#;

    assert_eq!(Err(Error::InvalidStartMarker), parse(input));
}

#[test]
fn invalid_start_marker_not_enough_chars() {
    let input = r#"
++
title = "Hello World!"
++
Hello.
"#;

    assert_eq!(Err(Error::InvalidStartMarker), parse(input));
}

#[test]
fn empty_front_matter() {
    let input = r"
+++
+++
Hello.";

    assert_eq!(Ok((Some(r""), 9, "Hello.")), parse(input));
}

#[test]
fn simple_front_matter() {
    let input = r#"
+++
title = "Hello World!"
+++
Hello."#;

    assert_eq!(
        Ok((Some(r#"title = "Hello World!""#), 32, "Hello.")),
        parse(input)
    );
}

#[test]
fn no_markers_returns_input_unchanged() {
    let input = "no markers here";
    assert_eq!(Ok((None, 0, input)), parse(input));
}

#[test]
fn empty_block_then_body() {
    assert_eq!(Ok((Some(""), 8, "Body")), parse("+++\n+++\nBody"));
}

#[test]
fn opened_block_never_closed_is_eof() {
    assert_eq!(Err(Error::Eof), parse("+++\ntitle = 1\n"));
    assert_eq!(Err(Error::Eof), parse("+++\n"));
    assert_eq!(Err(Error::Eof), parse(""));
}

#[test]
fn closing_line_must_match_marker_length() {
    let input = "++++\na = 1\n+++\n++++\nBody";
    assert_eq!(Ok((Some("a = 1\n+++"), 20, "Body")), parse(input));
}

#[test]
fn crlf_line_breaks() {
    assert_eq!(Ok((Some("a = 1\r"), 17, "Body")), parse("+++\r\na = 1\r\n+++\r\nBody"));
}

#[test]
fn non_ascii_front_matter_uses_byte_offsets() {
    let input = "+++\ntitle = \"Café\"\n+++\nÉté";
    let (front_matter, offset, body) = parse(input).unwrap();
    assert_eq!(Some("title = \"Café\""), front_matter);
    assert_eq!(&input[offset..], body);
    assert_eq!("Été", body);
}

#[test]
fn reparsing_the_body_finds_no_front_matter() {
    let input = "+++\ntitle = \"x\"\n+++\n\nBody text\n";
    let (_, _, body) = parse(input).unwrap();
    assert_eq!(Ok((None, 0, body)), parse(body));
}

#[test]
fn marker_after_other_text_does_not_close() {
    assert_eq!(Err(Error::Eof), parse("+++\nx+++\nBody"));
}

#[test]
fn blank_line_inside_empty_block() {
    assert_eq!(Ok((Some(""), 9, "Body")), parse("+++\n\n+++\nBody"));
}

#[test]
fn one_character_body() {
    assert_eq!(Ok((Some("a = 1"), 14, "x")), parse("+++\na = 1\n+++\nx"));
}
