use codemcp::json::{compact, parse, pretty, take_member, Json};

#[test]
fn values_are_read() {
    let j = parse(r#"{"a": [1, -1, 18446744073709551615, 2.5], "b": "x\n", "c": true, "d": null}"#)
        .unwrap();
    let list = j.get("a").unwrap().as_array().unwrap();
    assert_eq!(list[0].as_u64(), Some(1));
    assert_eq!(list[1].as_u64(), None);
    assert!(matches!(list[1], Json::Integer(-1)));
    assert_eq!(list[2].as_u64(), Some(u64::MAX));
    assert!(matches!(list[3], Json::Float(_)));
    assert_eq!(list[3].as_u64(), None);
    assert_eq!(j.get("b").unwrap().as_str(), Some("x\n"));
    assert_eq!(j.get("c").unwrap().as_bool(), Some(true));
    assert!(matches!(j.get("d"), Some(Json::Null)));
    assert!(j.get("e").is_none());
    assert!(list[0].get("a").is_none());
}

#[test]
fn last_member_of_a_name_counts() {
    let j = parse(r#"{"a": 1, "a": 2}"#).unwrap();
    assert_eq!(j.get("a").unwrap().as_u64(), Some(2));
    let twice = Json::Object(vec![
        ("a".to_string(), Json::Natural(1)),
        ("a".to_string(), Json::Natural(2)),
    ]);
    assert_eq!(twice.get("a").unwrap().as_u64(), Some(2));
    assert_eq!(compact(&twice).unwrap(), r#"{"a":2}"#);
}

#[test]
fn what_is_written_reads_back() {
    let text = r#"{"k":"line\nfeed \u0001 \" é","n":[-9223372036854775808,0,1.5],"o":{}}"#;
    let j = parse(text).unwrap();
    let line = compact(&j).unwrap();
    assert_eq!(line, text);
    assert!(!line.contains('\n'));
    let again = parse(&format!("{line}\n")).unwrap();
    assert_eq!(compact(&again).unwrap(), line);
    let indented = pretty(&j).unwrap();
    assert_eq!(compact(&parse(&indented).unwrap()).unwrap(), line);
}

#[test]
fn deep_nesting_is_refused() {
    let at = |n: usize| format!("{}{}", "[".repeat(n), "]".repeat(n));
    assert!(parse(&at(127)).is_ok());
    assert!(parse(&at(128)).is_err());
}

#[test]
fn broken_text_is_refused_with_the_reason() {
    assert_eq!(parse("nope").unwrap_err(), "expected ident at line 1 column 2");
    assert!(parse("{} x").is_err());
}

#[test]
fn members_can_be_taken_out() {
    let members = vec![
        ("a".to_string(), Json::Natural(1)),
        ("b".to_string(), Json::Natural(2)),
    ];
    let (rest, value) = take_member(members, "a").unwrap();
    assert_eq!(value.as_u64(), Some(1));
    assert_eq!(rest.len(), 1);
    assert!(take_member(rest, "a").is_none());
}
