use redemption_batch::codec::escape_credential_field;
use redemption_batch::codec::unescape_credential_field;

#[test]
fn escape_doubles_escapes_and_guards_delimiters() {
    let input = b"a,b\\c".to_vec();
    let escaped = escape_credential_field(&input);
    assert_eq!(escaped, b"a\\,b\\\\c".to_vec());
}

#[test]
fn unescape_matches_reference_replacement() {
    // the two decoding passes, in order: "\," -> "," then "\\" -> "\"
    let input = b"a\\,b\\\\c".to_vec();
    let unescaped = unescape_credential_field(&input);
    assert_eq!(unescaped, b"a,b\\c".to_vec());
}

#[test]
fn unescape_leaves_plain_bytes_alone() {
    let input = b"{\"plain\":\"json\"}".to_vec();
    let unescaped = unescape_credential_field(&input);
    assert_eq!(unescaped, input);
}

#[test]
fn round_trip_value_with_delimiter_and_escape() {
    // values containing the outer delimiter and the escape character itself
    let cases: Vec<Vec<u8>> = vec![
        b"".to_vec(),
        b",".to_vec(),
        b"\\".to_vec(),
        b"\\,".to_vec(),
        b",\\".to_vec(),
        b"\\\\,".to_vec(),
        b"a,b,c".to_vec(),
        b"json {\"k\":\"v,w\\\\x\"}".to_vec(),
    ];
    for case in cases {
        let escaped = escape_credential_field(&case);
        let back = unescape_credential_field(&escaped);
        assert_eq!(back, case);
    }
}
