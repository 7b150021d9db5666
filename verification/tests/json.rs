use mist::json::{integer_of, items_of, parse, text_of, to_text, Json};

fn read_json(text: &str) -> Json {
    match parse(text) {
        Ok(json) => json,
        Err(_) => panic!("no JSON: {}", text),
    }
}

#[test]
fn text_that_is_no_json_is_refused() {
    for text in ["", "{", "nope", "{\"a\":}", "1 2", "[1,]"] {
        assert!(parse(text).is_err());
    }
}

#[test]
fn scalars_are_read() {
    assert!(matches!(read_json("null"), Json::Null));
    assert!(matches!(read_json(" true "), Json::Bool(true)));
    assert!(matches!(read_json("-5"), Json::Number(Some(-5))));
    assert!(matches!(read_json("1.5"), Json::Number(None)));
    assert!(matches!(read_json("1e2"), Json::Number(None)));
    assert!(matches!(read_json("18446744073709551615"), Json::Number(Some(18446744073709551615))));
    match read_json("\"a\\n\\u00e9\"") {
        Json::Text(text) => assert_eq!(text, "a\né"),
        _ => panic!(),
    }
}

#[test]
fn fields_are_found() {
    let json = read_json("{\"a\":1,\"b\":{\"c\":\"x\",\"d\":[1,2]},\"a2\":null}");
    assert_eq!(integer_of(json.get("a")), Some(1));
    assert_eq!(text_of(json.get_inner("b", "c")), Some("x"));
    assert_eq!(items_of(json.get_inner("b", "d")).map(|items| items.len()), Some(2));
    assert!(json.get("z").is_none());
    assert!(json.get_inner("z", "c").is_none());
    assert!(json.get_inner("a", "c").is_none());
    assert!(matches!(json.get("a2"), Some(Json::Null)));
}

#[test]
fn values_of_another_kind_are_passed_over() {
    let json = read_json("{\"a\":1.0,\"b\":\"1\",\"c\":9223372036854775808,\"d\":[]}");
    assert_eq!(integer_of(json.get("a")), None);
    assert_eq!(integer_of(json.get("b")), None);
    assert_eq!(integer_of(json.get("c")), None);
    assert_eq!(integer_of(None), None);
    assert_eq!(text_of(json.get("a")), None);
    assert_eq!(text_of(None), None);
    assert!(items_of(json.get("a")).is_none());
    assert!(items_of(None).is_none());
    assert!(read_json("[1]").get("a").is_none());
}

#[test]
fn the_last_of_equal_keys_counts() {
    assert_eq!(integer_of(read_json("{\"a\":1,\"a\":2}").get("a")), Some(2));
}

#[test]
fn written_values_keep_their_order() {
    let text = "{\"z\":[1,-2,18446744073709551615],\"a\":{\"t\":\"q\\\"\",\"n\":null},\"m\":false}";
    assert_eq!(to_text(&read_json(text)), text);
}

#[test]
fn written_values_read_back() {
    let json = Json::Object(vec![
        ("k".to_string(), Json::Array(vec![Json::Bool(true), Json::Text("\u{1}é".to_string())])),
        ("n".to_string(), Json::Number(Some(i64::MIN as i128))),
    ]);
    let text = to_text(&json);
    assert_eq!(text, "{\"k\":[true,\"\\u0001é\"],\"n\":-9223372036854775808}");
    assert_eq!(to_text(&read_json(&text)), text);
}

#[test]
fn nesting_has_a_limit() {
    let mut json = Json::Null;
    for _ in 0..127 {
        json = Json::Array(vec![json]);
    }
    let text = to_text(&json);
    assert_eq!(to_text(&read_json(&text)), text);
    assert!(parse(&format!("[{}]", text)).is_err());
}
