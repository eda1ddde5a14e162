use gnos::handlers::put_snmp::handle_update;
use gnos::json::{Json, JsonError, JsonNumber};
use gnos::statements::{Action, Object, Subject};

fn s(x: &str) -> String {
    String::from(x)
}

fn text(x: &str) -> Json {
    Json::String(s(x))
}

fn num(t: &str, n: i64) -> Json {
    Json::Number(JsonNumber { text: s(t), truncated: n })
}

fn obj(fields: Vec<(&str, Json)>) -> Json {
    Json::Object(fields.into_iter().map(|(k, v)| (s(k), v)).collect())
}

#[test]
fn update_starts_with_the_map_statements() {
    let update = handle_update(20, &obj(vec![])).unwrap();
    assert_eq!(update.actions.len(), 2);
    assert!(matches!(&update.actions[0], Action::Replace(Subject::Named(n), p, Object::Now) if n == "gnos:map" && p == "gnos:last_update"));
    assert!(matches!(&update.actions[1], Action::Replace(Subject::Named(n), p, Object::Int(20)) if n == "gnos:map" && p == "gnos:poll_interval"));
    assert!(update.samples.is_empty());
    assert!(update.charts.is_empty());
}

#[test]
fn entities_are_added() {
    let data = obj(vec![
        ("modeler", text("linux.py")),
        ("entities", Json::List(vec![obj(vec![("id", text("r1")), ("label", text("Router")), ("style", text("font-size:large"))])])),
    ]);
    let update = handle_update(5, &data).unwrap();
    assert_eq!(update.actions.len(), 4);
    assert!(matches!(&update.actions[2], Action::PruneModeler(m) if m == "linux.py"));
    match &update.actions[3] {
        Action::Add(Subject::Named(n), entries) => {
            assert_eq!(n, "entities:r1");
            let preds: Vec<&str> = entries.iter().map(|e| e.0.as_str()).collect();
            assert_eq!(preds, vec!["gnos:modeler-subject", "gnos:entity", "gnos:style"]);
            assert!(matches!(&entries[1].1, Object::Str(t, _) if t == "Router"));
        },
        other => panic!("unexpected {:?}", other),
    }
}

#[test]
fn missing_fields_are_errors() {
    let data = obj(vec![("entities", Json::List(vec![obj(vec![("id", text("r1"))])]))]);
    assert_eq!(handle_update(5, &data).err(), Some(JsonError::MissingKey(s("label"))));
}

#[test]
fn samples_are_collected() {
    let data = obj(vec![(
        "samples",
        Json::List(vec![obj(vec![("name", text("eth0-in")), ("value", num("12.5", 12)), ("units", text("kbps"))])]),
    )]);
    let update = handle_update(5, &data).unwrap();
    assert_eq!(update.samples.len(), 1);
    assert_eq!(update.samples[0].name, "eth0-in");
    assert_eq!(update.samples[0].value.text, "12.5");
    assert_eq!(update.samples[0].units, "kbps");
}

#[test]
fn a_non_object_changes_nothing() {
    let update = handle_update(5, &Json::Null).unwrap();
    assert!(update.actions.is_empty());
}
