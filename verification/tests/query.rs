use rescribe::query::encode_query_value;

#[test]
fn unreserved_bytes_are_kept() {
    assert_eq!(encode_query_value("AZaz09-._~"), "AZaz09-._~");
}

#[test]
fn delimiters_and_spaces_are_encoded() {
    assert_eq!(encode_query_value("rock&roll"), "rock%26roll");
    assert_eq!(encode_query_value("a b+c=d#e%f/g?"), "a%20b%2Bc%3Dd%23e%25f%2Fg%3F");
}

#[test]
fn non_ascii_text_is_encoded_as_utf8_bytes() {
    assert_eq!(encode_query_value("世界"), "%E4%B8%96%E7%95%8C");
    assert_eq!(encode_query_value("año"), "a%C3%B1o");
}

#[test]
fn empty_text_encodes_to_nothing() {
    assert_eq!(encode_query_value(""), "");
}

fn decode(s: &str) -> String {
    let b = s.as_bytes();
    let mut out = Vec::new();
    let mut i = 0;
    while i < b.len() {
        if b[i] == b'%' {
            out.push(u8::from_str_radix(&s[i + 1..i + 3], 16).unwrap());
            i += 3;
        } else {
            out.push(b[i]);
            i += 1;
        }
    }
    String::from_utf8(out).unwrap()
}

#[test]
fn encoded_value_decodes_back() {
    for text in ["rock&roll", "こんにちは、世界！", "a\r\n\tb", "100% = 1"] {
        assert_eq!(decode(&encode_query_value(text)), text);
    }
}
