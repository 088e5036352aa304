//! Tests of the metadata JSON grammar through the public parser.

use ncmdump::json::parse_meta;

#[test]
fn parses_the_reference_record() {
    let s = br#"{"musicName":"T","musicId":1,"album":"","artist":[["A",1]],"bitrate":320000,"duration":180000,"format":"mp3"}"#;
    let m = parse_meta(s).unwrap();
    assert_eq!(m.name, b"T".to_vec());
    assert_eq!(m.id, 1);
    assert_eq!(m.album, Vec::<u8>::new());
    assert_eq!(m.artist, vec![(b"A".to_vec(), 1u64)]);
    assert_eq!(m.bitrate, 320000);
    assert_eq!(m.duration, 180000);
    assert_eq!(m.format, b"mp3".to_vec());
    assert_eq!(m.mv, None);
    assert_eq!(m.alias, None);
}

#[test]
fn field_order_does_not_matter() {
    let s = br#"{"format":"mp3","duration":2,"bitrate":1,"artist":[],"album":"x","musicId":5,"musicName":"n"}"#;
    let m = parse_meta(s).unwrap();
    assert_eq!(m.name, b"n".to_vec());
    assert_eq!(m.id, 5);
    assert_eq!(m.artist, Vec::<(Vec<u8>, u64)>::new());
}

#[test]
fn duplicate_known_field_is_rejected() {
    let s = br#"{"musicName":"a","musicName":"b","musicId":1,"album":"","artist":[],"bitrate":1,"duration":1,"format":"mp3"}"#;
    assert!(parse_meta(s).is_none());
}

#[test]
fn missing_required_field_is_rejected() {
    let s = br#"{"musicName":"a","album":"","artist":[],"bitrate":1,"duration":1,"format":"mp3"}"#;
    assert!(parse_meta(s).is_none());
    assert!(parse_meta(b"{}").is_none());
}

#[test]
fn trailing_garbage_is_rejected() {
    let s = br#"{"musicName":"T","musicId":1,"album":"","artist":[],"bitrate":1,"duration":1,"format":"mp3"} x"#;
    assert!(parse_meta(s).is_none());
    let ok = br#" {"musicName":"T","musicId":1,"album":"","artist":[],"bitrate":1,"duration":1,"format":"mp3"}  "#;
    assert!(parse_meta(ok).is_some());
}

#[test]
fn numbers_must_be_plain_unsigned_integers() {
    for bad in [
        &br#"{"musicName":"T","musicId":1.5,"album":"","artist":[],"bitrate":1,"duration":1,"format":"m"}"#[..],
        &br#"{"musicName":"T","musicId":-1,"album":"","artist":[],"bitrate":1,"duration":1,"format":"m"}"#[..],
        &br#"{"musicName":"T","musicId":1e3,"album":"","artist":[],"bitrate":1,"duration":1,"format":"m"}"#[..],
        &br#"{"musicName":"T","musicId":01,"album":"","artist":[],"bitrate":1,"duration":1,"format":"m"}"#[..],
        &br#"{"musicName":"T","musicId":18446744073709551616,"album":"","artist":[],"bitrate":1,"duration":1,"format":"m"}"#[..],
    ] {
        assert!(parse_meta(bad).is_none());
    }
    let max = br#"{"musicName":"T","musicId":18446744073709551615,"album":"","artist":[],"bitrate":0,"duration":1,"format":"m"}"#;
    assert_eq!(parse_meta(max).unwrap().id, u64::MAX);
}

#[test]
fn string_escapes_are_decoded() {
    let s = br#"{"musicName":"a\"b\\c\/d\n\tA\u00e9\ud83d\ude00","musicId":1,"album":"","artist":[],"bitrate":1,"duration":1,"format":"m"}"#;
    let m = parse_meta(s).unwrap();
    let mut expect = b"a\"b\\c/d\n\tA".to_vec();
    expect.extend_from_slice("\u{00e9}\u{1f600}".as_bytes());
    assert_eq!(m.name, expect);
}

#[test]
fn lone_surrogate_is_rejected() {
    let s = br#"{"musicName":"\ud83d","musicId":1,"album":"","artist":[],"bitrate":1,"duration":1,"format":"m"}"#;
    assert!(parse_meta(s).is_none());
    let s2 = br#"{"musicName":"\ude00","musicId":1,"album":"","artist":[],"bitrate":1,"duration":1,"format":"m"}"#;
    assert!(parse_meta(s2).is_none());
}

#[test]
fn raw_control_characters_are_rejected() {
    let s = b"{\"musicName\":\"a\x01b\",\"musicId\":1,\"album\":\"\",\"artist\":[],\"bitrate\":1,\"duration\":1,\"format\":\"m\"}";
    assert!(parse_meta(s).is_none());
}

#[test]
fn mv_and_alias_accept_null() {
    let s = br#"{"musicName":"T","musicId":1,"album":"","artist":[],"bitrate":1,"duration":1,"format":"m","mvId":null,"alias":null}"#;
    let m = parse_meta(s).unwrap();
    assert_eq!(m.mv, None);
    assert_eq!(m.alias, None);
    let s2 = br#"{"musicName":"T","musicId":1,"album":"","artist":[],"bitrate":1,"duration":1,"format":"m","mvId":77,"alias":[]}"#;
    let m2 = parse_meta(s2).unwrap();
    assert_eq!(m2.mv, Some(77));
    assert_eq!(m2.alias, Some(Vec::new()));
}

#[test]
fn artist_pairs_must_be_exact() {
    let bad = br#"{"musicName":"T","musicId":1,"album":"","artist":[["A"]],"bitrate":1,"duration":1,"format":"m"}"#;
    assert!(parse_meta(bad).is_none());
    let bad2 = br#"{"musicName":"T","musicId":1,"album":"","artist":[["A",1,2]],"bitrate":1,"duration":1,"format":"m"}"#;
    assert!(parse_meta(bad2).is_none());
    let ok = br#"{"musicName":"T","musicId":1,"album":"","artist":[ [ "A" , 1 ] , ["B",2] ],"bitrate":1,"duration":1,"format":"m"}"#;
    let m = parse_meta(ok).unwrap();
    assert_eq!(m.artist, vec![(b"A".to_vec(), 1u64), (b"B".to_vec(), 2u64)]);
}

#[test]
fn unknown_fields_are_validated_but_ignored() {
    let ok = br#"{"musicName":"T","musicId":1,"album":"","artist":[],"bitrate":1,"duration":1,"format":"m","x":{"a":[true,false,null,-1.5e3,"s"]}}"#;
    assert!(parse_meta(ok).is_some());
    let bad = br#"{"musicName":"T","musicId":1,"album":"","artist":[],"bitrate":1,"duration":1,"format":"m","x":[truee]}"#;
    assert!(parse_meta(bad).is_none());
    let unbalanced = br#"{"musicName":"T","musicId":1,"album":"","artist":[],"bitrate":1,"duration":1,"format":"m","x":[1,{"a":2]}"#;
    assert!(parse_meta(unbalanced).is_none());
}
