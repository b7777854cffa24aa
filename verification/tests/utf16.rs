use netmuxd::utf16::{decode, read_wide, trim_nuls, wide, MAX_WIDE_LEN};

#[test]
fn wide_is_utf16_with_a_nul() {
    assert_eq!(wide(""), vec![0]);
    assert_eq!(wide("ab"), vec![97, 98, 0]);
    assert_eq!(wide("é\u{fffd}"), vec![0xe9, 0xfffd, 0]);
    assert_eq!(wide("𝄞"), vec![0xd834, 0xdd1e, 0]);
    for s in ["", "C:\\Program Files\\x.exe", "naïve 𝄞 \u{10ffff} \u{ffff} \u{d7ff} \u{e000}"] {
        let mut expected: Vec<u16> = s.encode_utf16().collect();
        expected.push(0);
        assert_eq!(wide(s), expected);
    }
}

#[test]
fn decode_agrees_with_the_standard_library() {
    let cases: Vec<Vec<u16>> = vec![
        vec![],
        vec![97, 0, 98],
        vec![0xd834, 0xdd1e],
        vec![0xd834],
        vec![0xdd1e],
        vec![0xdd1e, 0xd834],
        vec![0xd834, 0xd834, 0xdd1e],
        vec![0xd834, 97],
        vec![0xdbff, 0xdfff, 0xd800, 0xdc00],
        vec![0xffff, 0xe000, 0xd7ff],
    ];
    for units in cases {
        assert_eq!(decode(&units), String::from_utf16_lossy(&units));
    }
}

#[test]
fn decode_replaces_unpaired_surrogates() {
    assert_eq!(decode(&[97, 0xd834, 98]), "a\u{fffd}b");
    assert_eq!(decode(&[0xdc00, 0xdc00]), "\u{fffd}\u{fffd}");
}

#[test]
fn decode_inverts_encode() {
    for s in ["", "plain", "𝄞 and é", "\u{0}x"] {
        let units: Vec<u16> = s.encode_utf16().collect();
        assert_eq!(decode(&units), s);
    }
}

#[test]
fn read_wide_stops_at_the_nul() {
    assert_eq!(read_wide(None), None);
    assert_eq!(read_wide(Some(&[])), Some(String::new()));
    assert_eq!(read_wide(Some(&[97, 98, 0, 99])), Some("ab".to_string()));
    assert_eq!(read_wide(Some(&[97, 98])), Some("ab".to_string()));
}

#[test]
fn read_wide_is_bounded() {
    let long = vec![97u16; 40000];
    assert_eq!(MAX_WIDE_LEN, 32768);
    assert_eq!(read_wide(Some(&long)).unwrap().len(), 32768);
}

#[test]
fn read_wide_inverts_wide() {
    let mut buffer = wide("C:\\Apple\\x.exe 𝄞");
    buffer.extend([7, 7, 7]);
    assert_eq!(read_wide(Some(&buffer)), Some("C:\\Apple\\x.exe 𝄞".to_string()));
}

#[test]
fn encoding_joins() {
    let mut joined = wide("a𝄞");
    joined.pop();
    joined.extend(wide("é"));
    assert_eq!(wide("a𝄞é"), joined);
}

#[test]
fn read_text_begins_as_the_buffer() {
    let mut buffer = wide("a𝄞");
    buffer.pop();
    buffer.extend([0xd800, 98, 0, 99]);
    assert_eq!(read_wide(Some(&buffer)), Some("a𝄞\u{fffd}b".to_string()));
}

#[test]
fn read_text_has_no_nul() {
    let text = read_wide(Some(&[0xd800, 97, 0, 0])).unwrap();
    assert!(!text.contains('\0'));
}

#[test]
fn trim_nuls_drops_only_the_end() {
    assert_eq!(trim_nuls(vec![0, 97, 0, 98, 0, 0]), vec![0, 97, 0, 98]);
    assert_eq!(trim_nuls(vec![0, 0]), Vec::<u16>::new());
    assert_eq!(trim_nuls(vec![97]), vec![97]);
}
