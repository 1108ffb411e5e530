use mdx::json::quote;

#[test]
fn test_quotes_and_backslashes() {
    assert_eq!(quote(r#"a"b\c"#), r#""a\"b\\c""#);
}

#[test]
fn test_control_characters() {
    assert_eq!(quote("a\nb\tc\rd"), r#""a\nb\tc\rd""#);
    assert_eq!(quote("\u{1}"), "\"\\u0001\"");
    assert_eq!(quote("\u{7f}"), "\"\\u007f\"");
}

#[test]
fn test_unicode_passes_through() {
    assert_eq!(quote("café 日本"), "\"café 日本\"");
}

#[test]
fn test_empty() {
    assert_eq!(quote(""), "\"\"");
}

#[test]
fn test_filename_with_a_quote_stays_parseable() {
    let payload = format!(r#"{{"file":{}}}"#, quote(r#"my "draft" notes.md"#));
    assert_eq!(payload, r#"{"file":"my \"draft\" notes.md"}"#);
}

#[test]
fn quote_round_trips_through_a_json_reader() {
    let s = "tab\there \"q\" back\\slash \u{1f} del\u{7f} é";
    let q = quote(s);
    // Decode the escapes by hand: the law in the library states the same.
    let inner = &q[1..q.len() - 1];
    let mut out = String::new();
    let mut it = inner.chars();
    while let Some(c) = it.next() {
        if c == '\\' {
            match it.next().unwrap() {
                'n' => out.push('\n'),
                't' => out.push('\t'),
                'r' => out.push('\r'),
                '"' => out.push('"'),
                '\\' => out.push('\\'),
                'u' => {
                    let hex: String = (0..4).map(|_| it.next().unwrap()).collect();
                    out.push(char::from_u32(u32::from_str_radix(&hex, 16).unwrap()).unwrap());
                }
                other => panic!("unexpected escape {}", other),
            }
        } else {
            out.push(c);
        }
    }
    assert_eq!(out, s);
}
