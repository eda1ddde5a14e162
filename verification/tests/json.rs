use gnos::json::{
    check_strs, get_field, get_i64, get_number, get_str, get_strs, has_value, optional_list, optional_object, optional_str, Json,
    JsonError, JsonNumber,
};

fn s(x: &str) -> String {
    String::from(x)
}

fn num(text: &str, truncated: i64) -> Json {
    Json::Number(JsonNumber { text: s(text), truncated })
}

fn sample() -> Json {
    Json::Object(vec![
        (s("label"), Json::String(s("router"))),
        (s("level"), num("2", 2)),
        (s("value"), num("-3.75", -3)),
        (s("names"), Json::List(vec![Json::String(s("a")), Json::String(s("b"))])),
        (s("mixed"), Json::List(vec![Json::String(s("a")), Json::Null])),
        (s("inner"), Json::Object(vec![])),
        (s("flag"), Json::Bool(true)),
    ])
}

#[test]
fn string_fields() {
    let v = sample();
    assert_eq!(get_str(&v, "label"), Ok(s("router")));
    assert_eq!(get_str(&v, "level"), Err(JsonError::NotAString));
    assert_eq!(get_str(&v, "missing"), Err(JsonError::MissingKey(s("missing"))));
    assert_eq!(get_str(&Json::Null, "label"), Err(JsonError::NotAnObject));
    assert_eq!(optional_str(&v, "label"), Some(s("router")));
    assert_eq!(optional_str(&v, "flag"), None);
    assert_eq!(optional_str(&v, "missing"), None);
}

#[test]
fn list_fields() {
    let v = sample();
    assert_eq!(check_strs(&v, "names"), Ok(()));
    assert_eq!(get_strs(&v, "names"), vec![s("a"), s("b")]);
    assert_eq!(check_strs(&v, "mixed"), Err(JsonError::NotAString));
    assert_eq!(check_strs(&v, "label"), Err(JsonError::NotAList));
    assert_eq!(check_strs(&v, "missing"), Err(JsonError::MissingKey(s("missing"))));
    assert_eq!(check_strs(&Json::Null, "names"), Err(JsonError::NotAnObject));
    assert_eq!(optional_list(&v, "names").map(|l| l.len()), Some(2));
    assert!(optional_list(&v, "label").is_none());
}

#[test]
fn number_fields() {
    let v = sample();
    assert_eq!(get_i64(&v, "level"), Ok(2));
    assert_eq!(get_i64(&v, "value"), Ok(-3));
    assert_eq!(get_i64(&v, "label"), Err(JsonError::NotANumber));
    let n = get_number(&v, "value").unwrap();
    assert_eq!(n.text, "-3.75");
    assert_eq!(n.truncated, -3);
}

#[test]
fn presence_and_objects() {
    let v = sample();
    assert!(has_value(&v, "flag"));
    assert!(!has_value(&v, "missing"));
    assert!(optional_object(&v, "inner").is_some());
    assert!(optional_object(&v, "label").is_none());
    assert!(matches!(get_field(&v, "flag"), Ok(Json::Bool(true))));
}
