use gnos::json::{Json, JsonError};
use gnos::statements::{Action, Object, Subject};
use gnos::views::put_snmp::{json_to_store, lookup};

fn s(x: &str) -> String {
    String::from(x)
}

fn text(x: &str) -> Json {
    Json::String(s(x))
}

fn obj(fields: Vec<(&str, Json)>) -> Json {
    Json::Object(fields.into_iter().map(|(k, v)| (s(k), v)).collect())
}

#[test]
fn lookup_defaults() {
    let table = vec![(s("sysName"), text("router")), (s("sysUpTime"), Json::Null)];
    assert_eq!(lookup(&table, "sysName", "unknown"), "router");
    assert_eq!(lookup(&table, "sysUpTime", "unknown"), "unknown");
    assert_eq!(lookup(&table, "sysDescr", ""), "");
}

#[test]
fn store_from_an_empty_table() {
    let actions = json_to_store(&obj(vec![])).unwrap();
    assert_eq!(actions.len(), 2);
    assert!(matches!(&actions[0], Action::Clear));
    match &actions[1] {
        Action::Add(Subject::Named(n), entries) => {
            assert_eq!(n, "gnos:system");
            assert_eq!(entries.len(), 1);
            assert_eq!(entries[0].0, "gnos:last_update");
            assert!(matches!(entries[0].1, Object::Now));
        },
        other => panic!("unexpected {:?}", other),
    }
}

#[test]
fn store_from_a_device() {
    let interface = obj(vec![
        ("ifDescr", text("eth0")),
        ("ipAdEntAddr", text("10.0.0.1")),
        ("ifOperStatus", text("up(1)")),
        ("ifMtu", text("1500")),
    ]);
    let device = obj(vec![("sysName", text("router")), ("interfaces", Json::List(vec![interface]))]);
    let actions = json_to_store(&obj(vec![("10.0.0.1", device)])).unwrap();
    // clear, system, device snmp (2), interface snmp (2), interface (2), device (2)
    assert_eq!(actions.len(), 10);
    assert!(matches!(&actions[2], Action::NewBlank(l) if l == "10.0.0.1-snmp"));
    assert!(matches!(&actions[4], Action::NewBlank(l) if l == "10.0.0.1-eth0-snmp"));
    assert!(matches!(&actions[6], Action::NewBlank(l) if l == "10.0.0.1-eth0"));
    match &actions[7] {
        Action::Add(Subject::Blank(2), entries) => {
            assert_eq!(entries[0].0, "gnos:ifname");
            assert!(entries.iter().any(|e| e.0 == "gnos:enabled" && matches!(e.1, Object::Bool(true))));
            assert!(entries.iter().any(|e| e.0 == "gnos:snmp" && matches!(e.1, Object::Blank(1))));
        },
        other => panic!("unexpected {:?}", other),
    }
    match &actions[9] {
        Action::Add(Subject::Blank(3), entries) => {
            assert!(matches!(&entries[1].1, Object::Str(n, _) if n == "router"));
            assert!(entries.iter().any(|e| e.0 == "gnos:interface" && matches!(e.1, Object::Blank(2))));
        },
        other => panic!("unexpected {:?}", other),
    }
}

#[test]
fn a_device_without_interfaces_is_an_error() {
    let device = obj(vec![("sysName", text("router"))]);
    assert_eq!(json_to_store(&obj(vec![("10.0.0.1", device)])).err(), Some(JsonError::MissingKey(s("interfaces"))));
}
