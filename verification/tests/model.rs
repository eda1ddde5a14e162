use gnos::model::{
    alert_entries, close_alert_query, close_alert, counts_as_error, get_prefixes, get_standard_store_names,
    next_err_count, open_alert_query, open_alert, should_open_alert, Alert, AlertRow, Namespace,
};
use gnos::statements::Object;

fn s(x: &str) -> String {
    String::from(x)
}

fn alert(level: &str) -> Alert {
    Alert {
        target: s("entities:winterfell"),
        id: s("w1"),
        mesg: s("The ocean is rising."),
        resolution: s("Call King Canute."),
        level: s(level),
    }
}

#[test]
fn store_names() {
    assert_eq!(get_standard_store_names(), vec![s("globals"), s("primary")]);
}

#[test]
fn prefixes_skip_the_blank_namespace() {
    let ns = vec![
        Namespace { prefix: s("gnos"), path: s("http://www.gnos.org/2012/schema#") },
        Namespace { prefix: s("_"), path: s("http://blank/") },
        Namespace { prefix: s("map"), path: s("http://127.0.0.1:8080/map/") },
    ];
    assert_eq!(
        get_prefixes(&ns),
        "\tPREFIX gnos: <http://www.gnos.org/2012/schema#>\n\tPREFIX map: <http://127.0.0.1:8080/map/>"
    );
    assert_eq!(get_prefixes(&vec![]), "");
}

#[test]
fn alert_queries() {
    let q = open_alert_query("P", &alert("error"));
    assert_eq!(
        q,
        "\n\tP\n\tSELECT\n\t\t?subject ?end\n\tWHERE\n\t{\n\t\t?subject gnos:target entities:winterfell .\n\t\t?subject gnos:alert \"w1\" .\n\t\tOPTIONAL\n\t\t{\n\t\t\t?subject gnos:end ?end .\n\t\t}\n\t}"
    );
    let q = close_alert_query("P", "gnos:container", "m3");
    assert_eq!(
        q,
        "\n\tP\n\tSELECT\n\t\t?subject ?style ?end\n\tWHERE\n\t{\n\t\t?subject gnos:alert \"m3\" .\n\t\t?subject gnos:target gnos:container .\n\t\t?subject gnos:style ?style .\n\t\tOPTIONAL\n\t\t{\n\t\t\t?subject gnos:end ?end\n\t\t}\n\t}"
    );
}

#[test]
fn alerts_open_only_when_none_is_open() {
    assert!(should_open_alert(&vec![]));
    assert!(should_open_alert(&vec![true, true]));
    assert!(!should_open_alert(&vec![true, false]));
    assert!(open_alert(&alert("error"), &vec![false]).is_none());
}

#[test]
fn open_alert_is_idempotent() {
    // after an alert is opened its row has no end time, so it is not opened again
    let first = open_alert(&alert("error"), &vec![true]);
    assert!(first.is_some());
    let again = open_alert(&alert("error"), &vec![true, false]);
    assert!(again.is_none());
}

#[test]
fn opened_alert_statements() {
    let opening = open_alert(&alert("warning"), &vec![]).unwrap();
    assert!(!opening.counts_error);
    let e = &opening.entries;
    assert_eq!(e.len(), 6);
    assert_eq!(e[0].0, "gnos:target");
    assert!(matches!(&e[0].1, Object::Iri(t) if t == "entities:winterfell"));
    assert!(matches!(&e[1].1, Object::Str(t, l) if t == "w1" && l.is_empty()));
    assert!(matches!(&e[2].1, Object::Now));
    assert!(matches!(&e[3].1, Object::Str(t, _) if t == "The ocean is rising."));
    assert!(matches!(&e[4].1, Object::Str(t, _) if t == "Call King Canute."));
    assert_eq!(e[5].0, "gnos:style");
    assert!(matches!(&e[5].1, Object::Str(t, _) if t == "alert-type:warning"));
    assert!(open_alert(&alert("error"), &vec![]).unwrap().counts_error);
    assert_eq!(alert_entries(&alert("info")).len(), 6);
    assert!(counts_as_error("error"));
    assert!(!counts_as_error("info"));
}

fn row(subject: &str, style: &str, ended: bool) -> AlertRow {
    AlertRow { subject: s(subject), style: s(style), ended }
}

#[test]
fn closing_ends_every_open_row() {
    let rows = vec![
        row("_:alert-1", "alert-type:error", true),
        row("_:alert-2", "alert-type:error", false),
        row("_:alert-3", "alert-type:warning", false),
    ];
    let closing = close_alert(&rows);
    assert_eq!(closing.subjects, vec![s("_:alert-2"), s("_:alert-3")]);
    assert!(closing.error_closed);
    let closing = close_alert(&vec![row("_:alert-4", "alert-type:info", false)]);
    assert_eq!(closing.subjects, vec![s("_:alert-4")]);
    assert!(!closing.error_closed);
    let closing = close_alert(&vec![]);
    assert!(closing.subjects.is_empty());
}

#[test]
fn error_counts() {
    assert_eq!(next_err_count(None, 1), 1);
    assert_eq!(next_err_count(Some(1), 1), 2);
    assert_eq!(next_err_count(Some(2), -1), 1);
    // opening then closing an error alert restores the count
    let opened = next_err_count(Some(5), 1);
    assert_eq!(next_err_count(Some(opened), -1), 5);
    let opened = next_err_count(None, 1);
    assert_eq!(next_err_count(Some(opened), -1), 0);
}

#[test]
fn namespaces_of_a_store() {
    let ns = gnos::model::store_namespaces("primary", "10.0.0.2", 8080);
    let pairs: Vec<(String, String)> = ns.iter().map(|n| (n.prefix.clone(), n.path.clone())).collect();
    assert_eq!(
        pairs,
        vec![
            (String::from("entities"), String::from("http://10.0.0.2:8080/map/primary/entities/")),
            (String::from("store"), String::from("http://10.0.0.2:8080/map/primary/")),
            (String::from("gnos"), String::from("http://www.gnos.org/2012/schema#")),
            (String::from("map"), String::from("http://10.0.0.2:8080/map/")),
        ]
    );
}

/// A stand-in for the alerts of a store: (subject, statements, ended).
type AlertStore = Vec<(String, Vec<(String, Object)>, bool)>;

fn text_of(entries: &[(String, Object)], predicate: &str) -> String {
    match entries.iter().find(|(p, _)| p == predicate) {
        Some((_, Object::Str(s, _))) => s.clone(),
        Some((_, Object::Iri(s))) => s.clone(),
        _ => String::new(),
    }
}

fn matching(store: &AlertStore, target: &str, id: &str) -> Vec<usize> {
    (0..store.len())
        .filter(|&i| text_of(&store[i].1, "gnos:target") == target && text_of(&store[i].1, "gnos:alert") == id)
        .collect()
}

fn store_open(store: &mut AlertStore, a: &Alert) {
    let ended: Vec<bool> = matching(store, &a.target, &a.id).iter().map(|&i| store[i].2).collect();
    if let Some(opening) = open_alert(a, &ended) {
        let subject = format!("_:alert-{}", store.len());
        store.push((subject, opening.entries, false));
    }
}

fn store_close(store: &mut AlertStore, target: &str, id: &str) {
    let rows: Vec<AlertRow> = matching(store, target, id)
        .iter()
        .map(|&i| AlertRow { subject: store[i].0.clone(), style: text_of(&store[i].1, "gnos:style"), ended: store[i].2 })
        .collect();
    let closing = close_alert(&rows);
    for s in closing.subjects {
        for entry in store.iter_mut() {
            if entry.0 == s {
                entry.2 = true;
            }
        }
    }
}

/// The (mesg, closed) pairs, newest first.
fn alert_states(store: &AlertStore) -> Vec<(String, bool)> {
    store.iter().rev().map(|(_, entries, ended)| (text_of(entries, "gnos:mesg"), *ended)).collect()
}

fn foo_alert(id: &str, mesg: &str) -> Alert {
    Alert { target: s("gnos:foo"), id: s(id), level: s("0"), mesg: s(mesg), resolution: s("") }
}

#[test]
fn test_alerts() {
    let mut store: AlertStore = Vec::new();

    // open foo/bar => adds the alert
    store_open(&mut store, &foo_alert("bar", "fie"));
    assert_eq!(alert_states(&store), vec![(s("fie"), false)]);

    // open foo/bar => does nothing
    store_open(&mut store, &foo_alert("bar", "no-op fie"));
    assert_eq!(alert_states(&store), vec![(s("fie"), false)]);

    // open foo/cat => adds alert
    store_open(&mut store, &foo_alert("cat", "meow"));
    assert_eq!(alert_states(&store), vec![(s("meow"), false), (s("fie"), false)]);

    // close foo/bar => closes it
    store_close(&mut store, "gnos:foo", "bar");
    assert_eq!(alert_states(&store), vec![(s("meow"), false), (s("fie"), true)]);

    // close foo/dog => does nothing
    store_close(&mut store, "gnos:foo", "dog");
    assert_eq!(alert_states(&store), vec![(s("meow"), false), (s("fie"), true)]);

    // close foo/bar => does nothing
    store_close(&mut store, "gnos:foo", "bar");
    assert_eq!(alert_states(&store), vec![(s("meow"), false), (s("fie"), true)]);

    // open foo/bar => adds a new alert
    store_open(&mut store, &foo_alert("bar", "fum"));
    assert_eq!(alert_states(&store), vec![(s("fum"), false), (s("meow"), false), (s("fie"), true)]);
}
