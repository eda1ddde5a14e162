use gnos::handlers::sse_query::{find_param, get_queries, initial_solutions, query_stream_step, sse_message, StreamAction, StreamEvent};

fn s(x: &str) -> String {
    String::from(x)
}

#[test]
fn queries_from_parameters() {
    let params = vec![
        (s("name"), s("primary")),
        (s("expr3"), s("q3")),
        (s("expr"), s("q1")),
        (s("expr2"), s("q2")),
        (s("expr10"), s("ignored")),
        (s("expr9"), s("q9")),
    ];
    assert_eq!(get_queries(&params), vec![s("q1"), s("q2"), s("q3"), s("q9")]);
    assert_eq!(get_queries(&vec![(s("expr"), s("only"))]), vec![s("only")]);
    assert_eq!(find_param(&params, "name"), Some(&s("primary")));
    assert_eq!(find_param(&params, "owner"), None);
}

#[test]
fn sse_messages() {
    assert_eq!(sse_message("[1]"), "retry: 5000\ndata: [1]\n\n");
}

#[test]
fn stream_pushes_changed_solutions_once() {
    let last = initial_solutions();
    assert_eq!(last, "null");
    let (last, action) = query_stream_step(last, StreamEvent::Solutions(s("[{\"ttl\":\"50\"}]")));
    assert_eq!(action, StreamAction::Push(s("retry: 5000\ndata: [{\"ttl\":\"50\"}]\n\n")));
    let (last, action) = query_stream_step(last, StreamEvent::Solutions(s("[{\"ttl\":\"50\"}]")));
    assert_eq!(action, StreamAction::Wait);
    let (last, action) = query_stream_step(last, StreamEvent::Refresh);
    assert_eq!(action, StreamAction::Push(s("retry: 5000\ndata: [{\"ttl\":\"50\"}]\n\n")));
    let (last, action) = query_stream_step(last, StreamEvent::Failed(s("\"Expected a query\"")));
    assert_eq!(action, StreamAction::Push(s("retry: 5000\ndata: \"Expected a query\"\n\n")));
    let (last, action) = query_stream_step(last, StreamEvent::Solutions(s("[{\"ttl\":\"75\"}]")));
    assert_eq!(action, StreamAction::Push(s("retry: 5000\ndata: [{\"ttl\":\"75\"}]\n\n")));
    let (_, action) = query_stream_step(last, StreamEvent::Close);
    assert_eq!(action, StreamAction::Deregister);
}
