use gnos::registry::Registry;

fn s(x: &str) -> String {
    String::from(x)
}

fn registry() -> Registry {
    Registry::new(vec![s("globals"), s("primary")])
}

#[test]
fn registering_on_a_store() {
    let mut r = registry();
    assert_eq!(r.check_store("primary"), Ok(()));
    assert_eq!(r.check_store("foo"), Err(s("foo is not a valid store name")));
    assert!(!r.is_registered("primary", "ttl-query"));
    r.register(s("primary"), s("ttl-query"), vec![s("SELECT ?ttl")], s("[{\"ttl\":\"50\"}]"));
    r.register(s("primary"), s("fwd-query"), vec![s("SELECT ?fwd")], s("[]"));
    r.register(s("globals"), s("g"), vec![s("SELECT ?x")], s("[]"));
    assert!(r.is_registered("primary", "ttl-query"));
    assert!(!r.is_registered("globals", "ttl-query"));
    assert_eq!(
        r.registrations_of("primary"),
        vec![(s("ttl-query"), vec![s("SELECT ?ttl")]), (s("fwd-query"), vec![s("SELECT ?fwd")])]
    );
}

#[test]
fn new_solutions_are_sent_once() {
    let mut r = registry();
    r.register(s("primary"), s("ttl-query"), vec![s("SELECT ?ttl")], s("[{\"ttl\":\"50\"}]"));
    assert!(!r.update_solutions("primary", "ttl-query", s("[{\"ttl\":\"50\"}]")));
    assert!(r.update_solutions("primary", "ttl-query", s("[{\"ttl\":\"75\"}]")));
    assert!(!r.update_solutions("primary", "ttl-query", s("[{\"ttl\":\"75\"}]")));
}

#[test]
fn deregistering_undoes_registering() {
    let mut r = registry();
    r.register(s("primary"), s("a"), vec![s("q")], s("[]"));
    r.register(s("primary"), s("b"), vec![s("q")], s("[]"));
    r.deregister("primary", "a");
    assert!(!r.is_registered("primary", "a"));
    assert!(r.is_registered("primary", "b"));
    assert_eq!(r.registrations_of("primary"), vec![(s("b"), vec![s("q")])]);
    r.deregister("primary", "missing");
    assert_eq!(r.registrations_of("primary").len(), 1);
}

const TTL_QUERY: &str = "\nSELECT\n\t?ttl\nWHERE\n{\n\t?subject gnos:ttl ?ttl\n}";
const FWD_QUERY: &str = "\nSELECT\n\t?fwd\nWHERE\n{\n\t?subject gnos:fwd ?fwd\n}";

// The store evaluates the queries; what is sent to the clients after each
// update of the store is decided by the registry from the solutions.
#[test]
fn test_registration() {
    let mut r = registry();
    // get solutions on registration
    assert_eq!(r.check_store("primary"), Ok(()));
    r.register(s("primary"), s("ttl-query"), vec![s(TTL_QUERY)], s("[]"));
    r.register(s("primary"), s("fwd-query"), vec![s(FWD_QUERY)], s("[]"));

    // and when the query results change
    assert!(r.update_solutions("primary", "ttl-query", s("[{\"ttl\":\"50\"}]")));
    assert!(!r.update_solutions("primary", "fwd-query", s("[]")));

    // no solutions when replacing a triplet with the same triplet
    assert!(!r.update_solutions("primary", "ttl-query", s("[{\"ttl\":\"50\"}]")));
    assert!(!r.update_solutions("primary", "fwd-query", s("[]")));

    // no solutions when adding a triplet the queries don't check
    assert!(!r.update_solutions("primary", "ttl-query", s("[{\"ttl\":\"50\"}]")));
    assert!(!r.update_solutions("primary", "fwd-query", s("[]")));
}

#[test]
fn test_deregistration() {
    let mut r = registry();
    r.register(s("primary"), s("ttl-query"), vec![s(TTL_QUERY)], s("[]"));
    assert!(r.update_solutions("primary", "ttl-query", s("[{\"ttl\":\"50\"}]")));

    // but once we deregister we don't get solutions
    r.deregister("primary", "ttl-query");
    assert!(r.registrations_of("primary").is_empty());
    assert!(!r.is_registered("primary", "ttl-query"));
}

#[test]
fn registering_reports_failed_queries() {
    let mut r = Registry::new(vec![s("globals"), s("primary")]);
    assert_eq!(r.register_outcome(s("primary"), s("q"), vec![s("SELECT ?x")], Err(s("'}' but found 'x'"))), Err(s("Expected '}' but found 'x'")));
    assert!(!r.is_registered("primary", "q"));
    assert_eq!(r.register_outcome(s("primary"), s("q"), vec![s("SELECT ?x")], Ok(s("[]"))), Ok(()));
    assert!(r.is_registered("primary", "q"));
}

#[test]
fn refresh_notifies_changed_registrations_of_the_store() {
    let mut r = Registry::new(vec![s("globals"), s("primary")]);
    r.register(s("primary"), s("a"), vec![s("qa")], s("[1]"));
    r.register(s("globals"), s("g"), vec![s("qg")], s("[1]"));
    r.register(s("primary"), s("b"), vec![s("qb")], s("[2]"));
    let regs = r.registrations_of("primary");
    assert_eq!(regs.len(), 2);
    // a keeps its solutions, b's change: only b is told
    let notes = r.refresh("primary", vec![s("[1]"), s("[3]")]);
    assert_eq!(notes, vec![(s("b"), s("[3]"))]);
    // nothing changed since
    assert!(r.refresh("primary", vec![s("[1]"), s("[3]")]).is_empty());
    // the globals registration was not touched
    assert_eq!(r.refresh("globals", vec![s("[1]")]), vec![]);
    assert_eq!(r.refresh("globals", vec![s("[4]")]), vec![(s("g"), s("[4]"))]);
}
