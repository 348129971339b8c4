use deskremote::command::{Command, Payload, Scalar};
use deskremote::parse::parse_frame;

fn parse(s: &str) -> Option<Command> {
    parse_frame(s.as_bytes())
}

#[test]
fn parse_minimal_frame() {
    let c = parse(r#"{"command":"play_pause"}"#).unwrap();
    assert_eq!(c.id, None);
    assert_eq!(c.name, b"play_pause".to_vec());
    assert!(c.data.is_none());
}

#[test]
fn parse_full_frame() {
    let c = parse(r#"{"id":"abc","command":"volume_set","data":{"value":30}}"#).unwrap();
    assert_eq!(c.id, Some(b"abc".to_vec()));
    assert_eq!(c.name, b"volume_set".to_vec());
    assert_eq!(c.get_u64(b"value"), Some(30));
}

#[test]
fn parse_null_id_and_null_data() {
    let c = parse(r#"{"id":null,"command":"x","data":null}"#).unwrap();
    assert_eq!(c.id, None);
    assert!(c.data.is_none());
}

#[test]
fn parse_tolerates_whitespace() {
    let c = parse(" \t\r\n{ \"command\" : \"x\" , \"data\" : { \"a\" : 1 } } \n").unwrap();
    assert_eq!(c.name, b"x".to_vec());
    assert_eq!(c.get_i64(b"a"), Some(1));
}

#[test]
fn parse_ignores_unknown_top_level_keys() {
    let c = parse(r#"{"extra":true,"command":"x","more":{"y":1}}"#).unwrap();
    assert_eq!(c.name, b"x".to_vec());
}

#[test]
fn parse_rejects_duplicate_known_keys() {
    assert!(parse(r#"{"command":"a","command":"b"}"#).is_none());
    assert!(parse(r#"{"id":"1","id":"2","command":"a"}"#).is_none());
    assert!(parse(r#"{"data":{},"data":{},"command":"a"}"#).is_none());
}

#[test]
fn parse_rejects_missing_or_mistyped_command() {
    assert!(parse(r#"{}"#).is_none());
    assert!(parse(r#"{"id":"1"}"#).is_none());
    assert!(parse(r#"{"command":5}"#).is_none());
    assert!(parse(r#"{"command":null}"#).is_none());
}

#[test]
fn parse_rejects_mistyped_id() {
    assert!(parse(r#"{"id":5,"command":"x"}"#).is_none());
    assert!(parse(r#"{"id":{},"command":"x"}"#).is_none());
    assert!(parse(r#"{"id":true,"command":"x"}"#).is_none());
    assert!(parse(r#"{"id":[1],"command":"x"}"#).is_none());
}

#[test]
fn parse_scalar_data_reads_as_no_fields() {
    let c = parse(r#"{"command":"volume_set","data":5}"#).unwrap();
    assert_eq!(c.data, Some(Payload::NonObject));
    assert_eq!(c.get_u64(b"value"), None);
    let c2 = parse(r#"{"command":"volume_set","data":"text"}"#).unwrap();
    assert_eq!(c2.data, Some(Payload::NonObject));
}

#[test]
fn parse_accepts_arbitrary_json_below_the_payload() {
    // a payload field holding an object or array parses as an opaque
    // composite, which no accessor reads anything out of
    let c = parse(r#"{"command":"x","data":{"a":{"b":[1,{"c":null}]},"value":5}}"#).unwrap();
    if let Some(Payload::Object(ms)) = &c.data {
        assert_eq!(ms[0].val, Scalar::Composite);
    } else {
        panic!("expected object data");
    }
    assert_eq!(c.get_u64(b"a"), None);
    assert_eq!(c.get_str(b"a"), None);
    assert_eq!(c.get_u64(b"value"), Some(5));

    // data itself may be an array: it parses, and no field can be read
    let c2 = parse(r#"{"command":"x","data":[1,2,[3],{"k":"v"}]}"#).unwrap();
    assert_eq!(c2.data, Some(Payload::NonObject));

    // unknown top-level fields may hold anything
    let c3 = parse(r#"{"junk":[[]],"command":"x","more":{"deep":{"er":[true]}}}"#).unwrap();
    assert_eq!(c3.name, b"x".to_vec());
}

#[test]
fn parse_rejects_unbalanced_composites() {
    assert!(parse(r#"{"command":"x","data":{"a":[1,2}}"#).is_none());
    assert!(parse(r#"{"command":"x","data":{"a":{"b":1}}"#).is_none());
    assert!(parse(r#"{"command":"x","data":[1,]}"#).is_none());
}

#[test]
fn parse_rejects_trailing_garbage() {
    assert!(parse(r#"{"command":"x"} extra"#).is_none());
    assert!(parse(r#"{"command":"x"}{"#).is_none());
}

#[test]
fn parse_rejects_non_object_frames() {
    assert!(parse("5").is_none());
    assert!(parse("\"hello\"").is_none());
    assert!(parse("").is_none());
    assert!(parse("   ").is_none());
    assert!(parse("{").is_none());
}

#[test]
fn parse_string_escapes() {
    let c = parse(r#"{"command":"text_input","data":{"text":"a\"b\\c\/d\n\t\r\b\f"}}"#).unwrap();
    let t = c.get_str(b"text").unwrap();
    assert_eq!(t, &b"a\"b\\c/d\n\t\r\x08\x0c".to_vec());
}

#[test]
fn parse_unicode_escapes() {
    let c = parse(r#"{"command":"t","data":{"text":"Aé€"}}"#).unwrap();
    let t = c.get_str(b"text").unwrap();
    assert_eq!(String::from_utf8(t.clone()).unwrap(), "Aé€");
}

#[test]
fn parse_surrogate_pairs() {
    let c = parse(r#"{"command":"t","data":{"text":"😀"}}"#).unwrap();
    let t = c.get_str(b"text").unwrap();
    assert_eq!(String::from_utf8(t.clone()).unwrap(), "😀");
}

#[test]
fn parse_rejects_lone_surrogates() {
    assert!(parse(r#"{"command":"t","data":{"text":"\ud83d"}}"#).is_none());
    assert!(parse(r#"{"command":"t","data":{"text":"\ude00"}}"#).is_none());
    assert!(parse(r#"{"command":"t","data":{"text":"\ud83dxx"}}"#).is_none());
}

#[test]
fn parse_raw_utf8_passes_through() {
    let c = parse(r#"{"command":"t","data":{"text":"héllo 😀"}}"#).unwrap();
    let t = c.get_str(b"text").unwrap();
    assert_eq!(String::from_utf8(t.clone()).unwrap(), "héllo 😀");
}

#[test]
fn parse_rejects_raw_control_characters_in_strings() {
    assert!(parse("{\"command\":\"a\nb\"}").is_none());
}

#[test]
fn parse_integers() {
    let c = parse(r#"{"command":"t","data":{"a":42,"b":-17,"c":0,"d":9223372036854775807,"e":-9223372036854775808}}"#)
        .unwrap();
    assert_eq!(c.get_i64(b"a"), Some(42));
    assert_eq!(c.get_i64(b"b"), Some(-17));
    assert_eq!(c.get_i64(b"c"), Some(0));
    assert_eq!(c.get_i64(b"d"), Some(i64::MAX));
    assert_eq!(c.get_i64(b"e"), Some(i64::MIN));
    assert_eq!(c.get_u64(b"b"), None);
}

#[test]
fn parse_non_integer_numbers_read_as_no_value() {
    let c = parse(r#"{"command":"t","data":{"a":1.5,"b":1e3,"c":18446744073709551616,"d":2E+2}}"#)
        .unwrap();
    if let Some(Payload::Object(ms)) = &c.data {
        assert_eq!(ms.len(), 4);
        assert!(ms.iter().all(|m| m.val == Scalar::NonInt));
    } else {
        panic!("expected object data");
    }
    assert_eq!(c.get_i64(b"a"), None);
    assert_eq!(c.get_u64(b"c"), None);
}

#[test]
fn parse_u64_range_integers_keep_their_value() {
    // integers above i64::MAX up to u64::MAX read as unsigned values
    let c = parse(r#"{"command":"t","data":{"a":9223372036854775808,"b":18446744073709551615}}"#)
        .unwrap();
    assert_eq!(c.get_u64(b"a"), Some(9223372036854775808));
    assert_eq!(c.get_u64(b"b"), Some(u64::MAX));
    // they are not signed values
    assert_eq!(c.get_i64(b"a"), None);
    // one past u64::MAX is no longer an integer
    let c2 = parse(r#"{"command":"t","data":{"a":18446744073709551616}}"#).unwrap();
    assert_eq!(c2.get_u64(b"a"), None);
}

#[test]
fn parse_rejects_bad_numbers() {
    assert!(parse(r#"{"command":"t","data":{"a":01}}"#).is_none());
    assert!(parse(r#"{"command":"t","data":{"a":-}}"#).is_none());
    assert!(parse(r#"{"command":"t","data":{"a":1.}}"#).is_none());
    assert!(parse(r#"{"command":"t","data":{"a":1e}}"#).is_none());
    assert!(parse(r#"{"command":"t","data":{"a":+1}}"#).is_none());
}

#[test]
fn parse_literal_words() {
    let c = parse(r#"{"command":"t","data":{"a":true,"b":false,"c":null}}"#).unwrap();
    if let Some(Payload::Object(ms)) = &c.data {
        assert_eq!(ms[0].val, Scalar::Bool(true));
        assert_eq!(ms[1].val, Scalar::Bool(false));
        assert_eq!(ms[2].val, Scalar::Null);
    } else {
        panic!("expected object data");
    }
    assert!(parse(r#"{"command":"t","data":{"a":tru}}"#).is_none());
}

#[test]
fn parse_empty_data_object() {
    let c = parse(r#"{"command":"t","data":{}}"#).unwrap();
    assert_eq!(c.data, Some(Payload::Object(vec![])));
}

#[test]
fn parse_duplicate_data_fields_last_wins() {
    let c = parse(r#"{"command":"t","data":{"a":1,"a":2}}"#).unwrap();
    assert_eq!(c.get_i64(b"a"), Some(2));
}

#[test]
fn parse_duplicate_unknown_keys_are_tolerated() {
    let c = parse(r#"{"x":1,"x":2,"command":"a"}"#).unwrap();
    assert_eq!(c.name, b"a".to_vec());
}
