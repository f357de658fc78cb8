use ipc_client::client::error::Error;
use ipc_client::json::{members_distinct, JsonDoc, KEY_TWICE};
use ipc_client::value::JsonElem;

fn to_string(val: &JsonElem) -> String {
    String::from_utf8(val.serialize().unwrap()).unwrap()
}

#[test]
fn test_json_value() {
    let val = JsonElem::Int32(-1234567890);
    assert_eq!(to_string(&val).as_str(), "-1234567890");

    let val = JsonElem::Uint32(1234567890);
    assert_eq!(to_string(&val).as_str(), "1234567890");

    let val = JsonElem::Int64(-1234567890);
    assert_eq!(to_string(&val).as_str(), "-1234567890");

    let val = JsonElem::Uint64(1234567890);
    assert_eq!(to_string(&val).as_str(), "1234567890");

    let val = JsonElem::Float(123456.7890f64.to_string());
    assert_eq!(to_string(&val).as_str(), "123456.789");

    let val = JsonElem::Bool(true);
    assert_eq!(to_string(&val).as_str(), "true");

    let val = JsonElem::String("the quick brown fox jumps over the lazy dog.".into());
    assert_eq!(
        to_string(&val).as_str(),
        r#""the quick brown fox jumps over the lazy dog.""#
    );

    let val = JsonElem::Vec(vec![
        JsonElem::String("54".into()),
        JsonElem::String("true".into()),
        JsonElem::String("always".into()),
    ]);
    println!("{}", to_string(&val).as_str());
    assert_eq!(to_string(&val).as_str(), r#"["54","true","always"]"#);

    let mut hash = Vec::new();
    hash.push(("test key".into(), JsonElem::String("test val".to_string())));
    let val = JsonElem::HashMap(hash);
    println!("{}", to_string(&val).as_str());
    assert_eq!(to_string(&val).as_str(), r#"{"test key":"test val"}"#);
}

#[test]
fn test_combo() {
    let val = JsonElem::Bool(true);

    println!("{}", to_string(&val).as_str());
    assert_eq!(to_string(&val).as_str(), "true");

    let val = Error::new(JsonElem::Bool(true));

    let written = String::from_utf8(val.serialize().unwrap()).unwrap();
    println!("{}", written.as_str());
    assert_eq!(written.as_str(), r#"{"error":true}"#);
}

#[test]
fn a_value_tree_reads_back_from_its_text() {
    let mut hash = Vec::new();

    hash.push(("process".to_string(), JsonElem::String("process name".to_string())));
    hash.push(("provider".to_string(), JsonElem::String("provider name".to_string())));
    hash.push((
        "authorization_endpoint".to_string(),
        JsonElem::String(
            "https://login.microsoftonline.com/common/oauth2/v2.0/authorize".to_string(),
        ),
    ));
    hash.push((
        "scopes".to_string(),
        JsonElem::Vec(vec![
            JsonElem::String("offline_access".to_string()),
            JsonElem::String("https://outlook.office.com/SMTP.Send".to_string()),
            JsonElem::String("https://outlook.office.com/User.Read".to_string()),
        ]),
    ));
    hash.push(("client_id".to_string(), JsonElem::String("client-id-12345".to_string())));

    let expected = JsonElem::HashMap(hash);
    let result = JsonElem::parse(&expected.serialize().unwrap()).unwrap();

    assert_eq!(expected, result);
}

#[test]
fn integers_are_read_into_the_first_variant_that_holds_them() {
    assert_eq!(JsonElem::parse(b"0"), Some(JsonElem::Int32(0)));
    assert_eq!(JsonElem::parse(b"2147483647"), Some(JsonElem::Int32(i32::MAX)));
    assert_eq!(JsonElem::parse(b"-2147483648"), Some(JsonElem::Int32(i32::MIN)));
    assert_eq!(JsonElem::parse(b"2147483648"), Some(JsonElem::Uint32(2147483648)));
    assert_eq!(JsonElem::parse(b"4294967295"), Some(JsonElem::Uint32(u32::MAX)));
    assert_eq!(JsonElem::parse(b"4294967296"), Some(JsonElem::Int64(4294967296)));
    assert_eq!(JsonElem::parse(b"-2147483649"), Some(JsonElem::Int64(-2147483649)));
    assert_eq!(JsonElem::parse(b"9223372036854775807"), Some(JsonElem::Int64(i64::MAX)));
    assert_eq!(JsonElem::parse(b"-9223372036854775808"), Some(JsonElem::Int64(i64::MIN)));
    assert_eq!(JsonElem::parse(b"9223372036854775808"), Some(JsonElem::Uint64(9223372036854775808)));
    assert_eq!(JsonElem::parse(b"18446744073709551615"), Some(JsonElem::Uint64(u64::MAX)));
}

#[test]
fn other_numbers_are_floats() {
    assert_eq!(JsonElem::parse(b"1.5"), Some(JsonElem::Float("1.5".to_string())));
    assert_eq!(JsonElem::parse(b"1.0"), Some(JsonElem::Float("1.0".to_string())));
    assert_eq!(JsonElem::parse(b"-0.25"), Some(JsonElem::Float("-0.25".to_string())));
    let big = JsonElem::parse(b"18446744073709551616").unwrap();
    assert!(matches!(big, JsonElem::Float(_)));
    assert_eq!(to_string(&JsonElem::Float("2.5e3".to_string())), "2500.0");
}

#[test]
fn a_float_whose_text_is_no_number_is_not_written() {
    assert!(JsonElem::Float("NaN".to_string()).serialize().is_err());
    assert!(JsonElem::Float("1e999".to_string()).serialize().is_err());
    assert!(JsonElem::Float(String::new()).serialize().is_err());
    assert!(JsonElem::Vec(vec![JsonElem::Float("x".to_string())]).serialize().is_err());
    assert!(Error::new(JsonElem::Float("x".to_string())).serialize().is_err());
    assert_eq!(JsonElem::Float("x".to_string()).to_string(), "");
    assert_eq!(to_string(&JsonElem::Float("7".to_string())), "7");
}

#[test]
fn null_is_no_value_tree() {
    assert_eq!(JsonElem::parse(b"null"), None);
    assert_eq!(JsonElem::parse(b"[1,null]"), None);
    assert_eq!(JsonElem::parse(br#"{"a":{"b":null}}"#), None);
    assert_eq!(JsonElem::parse(b"not json"), None);
    assert_eq!(JsonElem::from_doc(&JsonDoc::Null), None);
}

#[test]
fn other_documents_are_value_trees() {
    assert_eq!(JsonElem::parse(b"true"), Some(JsonElem::Bool(true)));
    assert_eq!(JsonElem::parse(br#""x""#), Some(JsonElem::String("x".to_string())));
    assert_eq!(
        JsonElem::parse(br#"[1,"a",[false]]"#),
        Some(JsonElem::Vec(vec![
            JsonElem::Int32(1),
            JsonElem::String("a".to_string()),
            JsonElem::Vec(vec![JsonElem::Bool(false)]),
        ]))
    );
    assert_eq!(
        JsonElem::parse(br#"{"b":1,"a":{"c":2}}"#),
        Some(JsonElem::HashMap(vec![
            ("b".to_string(), JsonElem::Int32(1)),
            ("a".to_string(), JsonElem::HashMap(vec![("c".to_string(), JsonElem::Int32(2))])),
        ]))
    );
}

#[test]
fn a_value_is_written_as_the_document_it_stands_for() {
    assert!(matches!(JsonElem::Int32(-1).to_doc(), JsonDoc::NegInt(-1)));
    assert!(matches!(JsonElem::Int32(1).to_doc(), JsonDoc::PosInt(1)));
    assert!(matches!(JsonElem::Int64(-7).to_doc(), JsonDoc::NegInt(-7)));
    assert!(matches!(JsonElem::Int64(7).to_doc(), JsonDoc::PosInt(7)));
    assert!(matches!(JsonElem::Uint64(u64::MAX).to_doc(), JsonDoc::PosInt(u64::MAX)));
    assert_eq!(to_string(&JsonElem::Uint64(u64::MAX)), "18446744073709551615");
    assert_eq!(to_string(&JsonElem::Int64(i64::MIN)), "-9223372036854775808");
    let doc = JsonElem::HashMap(vec![("k".to_string(), JsonElem::Vec(vec![JsonElem::Bool(true)]))])
        .to_doc();
    assert_eq!(doc.to_string().unwrap(), r#"{"k":[true]}"#);
}

#[test]
fn a_copy_is_equal_to_the_value_it_was_made_of() {
    let value = JsonElem::HashMap(vec![
        ("a".to_string(), JsonElem::Vec(vec![JsonElem::Int32(1), JsonElem::Float("0.5".into())])),
        ("b".to_string(), JsonElem::String("x".to_string())),
    ]);
    assert_eq!(value.clone(), value);
}

#[test]
fn the_text_of_a_value_is_the_string_or_the_json() {
    assert_eq!(JsonElem::String("plain".to_string()).to_string(), "plain");
    assert_eq!(JsonElem::Int32(5).to_string(), "5");
    assert_eq!(JsonElem::Bool(true).to_string(), "true");
    assert_eq!(JsonElem::Vec(vec![JsonElem::String("a".into())]).to_string(), r#"["a"]"#);
    assert_eq!(Error::new(JsonElem::String("exception happend".to_string())).to_string(), "exception happend");
}

#[test]
fn a_value_with_a_key_twice_is_not_written() {
    let value = JsonElem::HashMap(vec![
        ("k".to_string(), JsonElem::Int32(1)),
        ("k".to_string(), JsonElem::Int32(2)),
    ]);
    assert_eq!(value.serialize(), Err("a key occurs twice".to_string()));
    assert_eq!(KEY_TWICE, "a key occurs twice");
    let nested = JsonElem::Vec(vec![JsonElem::HashMap(vec![(
        "outer".to_string(),
        JsonElem::HashMap(vec![
            ("k".to_string(), JsonElem::Bool(true)),
            ("j".to_string(), JsonElem::Bool(true)),
            ("k".to_string(), JsonElem::Bool(false)),
        ]),
    )])]);
    assert_eq!(nested.serialize(), Err("a key occurs twice".to_string()));
    assert_eq!(nested.to_string(), "");
    assert_eq!(
        Error::new(value).serialize(),
        Err(Error::new(JsonElem::String("a key occurs twice".to_string())))
    );
    let apart = JsonElem::Vec(vec![
        JsonElem::HashMap(vec![("k".to_string(), JsonElem::Int32(1))]),
        JsonElem::HashMap(vec![("k".to_string(), JsonElem::Int32(2))]),
    ]);
    assert_eq!(to_string(&apart), r#"[{"k":1},{"k":2}]"#);
}

#[test]
fn a_document_with_a_key_twice_is_no_value_tree() {
    let twice = JsonDoc::Object(vec![
        ("k".to_string(), JsonDoc::Bool(true)),
        ("k".to_string(), JsonDoc::Bool(false)),
    ]);
    assert!(!twice.has_unique_keys());
    assert_eq!(JsonElem::from_doc(&twice), None);
    assert_eq!(twice.to_vec(), Err("a key occurs twice".to_string()));
    assert_eq!(twice.to_string(), Err("a key occurs twice".to_string()));
    let inside = JsonDoc::Array(vec![JsonDoc::Null, twice]);
    assert!(!inside.has_unique_keys());
    assert_eq!(JsonElem::from_doc(&inside), None);
    let once = JsonDoc::Object(vec![
        ("k".to_string(), JsonDoc::Bool(true)),
        ("j".to_string(), JsonDoc::Array(vec![JsonDoc::Object(Vec::new())])),
    ]);
    assert!(once.has_unique_keys());
    assert!(JsonElem::from_doc(&once).is_some());
    assert_eq!(once.to_string(), Ok(r#"{"k":true,"j":[{}]}"#.to_string()));
    assert!(members_distinct(&Vec::new()));
    assert!(JsonDoc::parse(br#"{"k":1,"k":2}"#).unwrap().has_unique_keys());
    assert_eq!(
        JsonElem::parse(br#"{"k":1,"k":2}"#),
        Some(JsonElem::HashMap(vec![("k".to_string(), JsonElem::Int32(2))]))
    );
}
