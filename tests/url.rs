use white_hole::{after_percent_sign, percent_decode, percent_decode_str};

#[test]
fn test() {
    let url = "https://example.com/path/%E4%B8%AD%E6%96%87/search?q=%23Rust%2F编程%20%26%20解码!";
    let decoded = percent_decode_str(url).decode_utf8_lossy();
    println!("解码 URL: {}", decoded);
    assert_eq!(
        decoded,
        "https://example.com/path/中文/search?q=%23Rust%2F编程%20%26%20解码!"
    );
}

#[test]
fn decode_keeps_reserved_escapes_in_upper_case() {
    let d = percent_decode(b"a%41%2fb");
    assert_eq!(d.decoded(), b"aA%2Fb".to_vec());
    assert_eq!(d.if_any(), Some(b"aA%2Fb".to_vec()));
    assert_eq!(d.into_bytes(), b"aA%2Fb".to_vec());
}

#[test]
fn decode_without_real_escape_returns_input() {
    let d = percent_decode(b"%2f%zz");
    assert_eq!(d.if_any(), None);
    assert_eq!(d.decoded(), b"%2F%25zz".to_vec());
    assert_eq!(d.into_bytes(), b"%2f%zz".to_vec());
}

#[test]
fn decode_prefix_before_first_real_escape_is_kept() {
    let d = percent_decode(b"%2f%41%2f");
    assert_eq!(d.into_bytes(), b"%2fA%2F".to_vec());
}

#[test]
fn decode_utf8_reports_ill_formed_bytes() {
    assert!(percent_decode(b"%FF").decode_utf8().is_err());
    assert_eq!(percent_decode(b"%C3%A9").decode_utf8().unwrap(), "é");
    assert_eq!(percent_decode(b"x%FFy").decode_utf8_lossy(), "x\u{FFFD}y");
}

#[test]
fn after_percent_sign_reads_two_hex_digits() {
    assert_eq!(after_percent_sign(b"%4a", 1), Some(0x4a));
    assert_eq!(after_percent_sign(b"%4", 1), None);
    assert_eq!(after_percent_sign(b"%g1", 1), None);
}
