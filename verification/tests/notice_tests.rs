use mc_gateway::notice::{make_json_text, make_nbt_string};

#[test]
fn plain_text_is_kept() {
    assert_eq!(make_json_text("Hello"), "{\"text\": \"Hello\"}");
    assert_eq!(make_json_text(""), "{\"text\": \"\"}");
    assert_eq!(make_json_text("h\u{e9}llo \u{1f600}"), "{\"text\": \"h\u{e9}llo \u{1f600}\"}");
}

#[test]
fn quotes_and_controls_are_escaped() {
    assert_eq!(
        make_json_text("a\"b\\c\nd\re\tf\u{08}g\u{0C}h"),
        "{\"text\": \"a\\\"b\\\\c\\nd\\re\\tf\\bg\\fh\"}"
    );
    assert_eq!(
        make_json_text("\u{00}\u{1f}\u{7f}\u{9f}\u{a0}"),
        "{\"text\": \"\\u0000\\u001f\\u007f\\u009f\u{a0}\"}"
    );
}

#[test]
fn components_read_back() {
    let mut texts: Vec<String> = Vec::new();
    for code in 0..0x500u32 {
        if let Some(c) = char::from_u32(code) {
            texts.push(format!("<{}>", c));
        }
    }
    texts.push("\\u0041 \"quoted\" \u{10ffff}".to_string());
    for text in texts {
        let value: serde_json::Value = serde_json::from_str(&make_json_text(&text)).unwrap();
        assert_eq!(value["text"].as_str(), Some(text.as_str()));
    }
}

#[test]
fn escaped_text_is_printable() {
    let json = make_json_text("\u{01}\u{80}\n");
    assert!(json.chars().all(|c| !c.is_control()));
}

#[test]
fn nbt_strings() {
    assert_eq!(make_nbt_string(""), vec![8, 0, 0]);
    assert_eq!(make_nbt_string("hi"), vec![8, 0, 2, b'h', b'i']);
    assert_eq!(make_nbt_string("\u{e9}"), vec![8, 0, 2, 0xc3, 0xa9]);
    let long = "x".repeat(300);
    let tag = make_nbt_string(&long);
    assert_eq!(&tag[..3], &[8, 1, 44]);
    assert_eq!(tag.len(), 303);
}

#[test]
fn nbt_string_length_keeps_two_bytes() {
    let long = "y".repeat(65536 + 5);
    let tag = make_nbt_string(&long);
    assert_eq!(&tag[..3], &[8, 0, 5]);
    assert_eq!(tag.len(), 65536 + 5 + 3);
    assert_eq!(&tag[3..], long.as_bytes());
}

#[test]
fn components_have_a_fixed_frame() {
    let json = make_json_text("\"a\"\u{e9}");
    let characters: Vec<char> = json.chars().collect();
    let n = characters.len();
    assert_eq!(characters[..10].iter().collect::<String>(), "{\"text\": \"");
    assert_eq!(characters[10..n - 2].iter().collect::<String>(), "\\\"a\\\"\u{e9}");
    assert_eq!(characters[n - 2..].iter().collect::<String>(), "\"}");
}
