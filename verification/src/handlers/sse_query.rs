//! Server-sent events pushing the solutions of queries each time the store
//! they run on changes.
use vstd::prelude::*;
use crate::text::{append_nat, nat_str, str_eq, texts_of};

verus! {

/// The value of the first request parameter named `key`.
pub open spec fn param_value(params: Seq<(String, String)>, key: Seq<char>) -> Option<Seq<char>>
    decreases params.len(),
{
    if params.len() == 0 {
        None
    } else if params[0].0@ == key {
        Some(params[0].1@)
    } else {
        param_value(params.drop_first(), key)
    }
}

/// The name of the `i`th query parameter ("expr2", "expr3" and so on).
pub open spec fn expr_key(i: nat) -> Seq<char> {
    "expr"@ + nat_str(i)
}

/// The queries of the parameters "expr2" up to (but not including)
/// "expr{n}", in order, leaving out those missing.
pub open spec fn extra_queries(params: Seq<(String, String)>, n: nat) -> Seq<Seq<char>>
    decreases n,
{
    if n <= 2 {
        Seq::empty()
    } else {
        let rest = extra_queries(params, (n - 1) as nat);
        match param_value(params, expr_key((n - 1) as nat)) {
            Some(q) => rest.push(q),
            None => rest,
        }
    }
}

/// The queries a client asked for: the parameter "expr", then those of
/// "expr2" to "expr9" that are present.
pub open spec fn queries_spec(params: Seq<(String, String)>) -> Seq<Seq<char>> {
    seq![param_value(params, "expr"@).unwrap()] + extra_queries(params, 10)
}

/// Looks up a request parameter.
pub fn find_param<'a>(params: &'a Vec<(String, String)>, key: &str) -> (r: Option<&'a String>)
    ensures
        match param_value(params@, key@) {
            Some(v) => r matches Some(s) && s@ == v,
            None => r is None,
        },
{
    let mut i: usize = 0;
    assert(params@.skip(0) =~= params@);
    while i < params.len()
        invariant
            i <= params@.len(),
            param_value(params@, key@) == param_value(params@.skip(i as int), key@),
        decreases params.len() - i,
    {
        proof {
            assert(params@.skip(i as int).drop_first() =~= params@.skip(i + 1));
        }
        if str_eq(params[i].0.as_str(), key) {
            return Some(&params[i].1);
        }
        i = i + 1;
    }
    None
}

/// The queries a client asked for (see `queries_spec`); the request must
/// hold an "expr" parameter.
pub fn get_queries(params: &Vec<(String, String)>) -> (r: Vec<String>)
    requires
        param_value(params@, "expr"@) is Some,
    ensures
        texts_of(r@) == queries_spec(params@),
{
    let mut queries: Vec<String> = Vec::new();
    let first = find_param(params, "expr");
    match first {
        Some(q) => queries.push(String::from_str(q.as_str())),
        None => {},
    }
    let mut i: u64 = 2;
    proof {
        assert(texts_of(queries@) =~= seq![param_value(params@, "expr"@).unwrap()] + extra_queries(params@, 2));
    }
    while i < 10
        invariant
            2 <= i <= 10,
            texts_of(queries@) == seq![param_value(params@, "expr"@).unwrap()] + extra_queries(params@, i as nat),
        decreases 10 - i,
    {
        let mut key = String::from_str("expr");
        append_nat(&mut key, i);
        let ghost before = texts_of(queries@);
        match find_param(params, key.as_str()) {
            Some(q) => {
                queries.push(String::from_str(q.as_str()));
                proof {
                    assert(texts_of(queries@) =~= before.push(q@));
                }
            },
            None => {},
        }
        proof {
            assert(key@ == expr_key(i as nat));
            let n = (i + 1) as nat;
            assert((n - 1) as nat == i as nat);
        }
        i = i + 1;
    }
    queries
}

/// The server-sent event carrying `data`.
pub open spec fn sse_data(data: Seq<char>) -> Seq<char> {
    "retry: 5000\ndata: "@ + data + "\n\n"@
}

/// The server-sent event carrying `data`.
pub fn sse_message(data: &str) -> (r: String)
    ensures
        r@ == sse_data(data@),
{
    let mut r = String::from_str("retry: 5000\ndata: ");
    r.append(data);
    r.append("\n\n");
    r
}

/// What happens to a query stream: the queries' solutions changed (or are
/// reported for the first time), they failed with an error (both as JSON
/// text), the client asked for the current solutions again, or the client
/// went away.
#[derive(Debug)]
pub enum StreamEvent {
    Solutions(String),
    Failed(String),
    Refresh,
    Close,
}

/// What the stream does in answer: push an event to the client, nothing, or
/// deregister its queries and stop.
#[derive(Debug, PartialEq, Eq)]
pub enum StreamAction {
    Push(String),
    Wait,
    Deregister,
}

pub ghost enum StreamActionModel {
    Push(Seq<char>),
    Wait,
    Deregister,
}

impl View for StreamAction {
    type V = StreamActionModel;

    open spec fn view(&self) -> StreamActionModel {
        match self {
            StreamAction::Push(s) => StreamActionModel::Push(s@),
            StreamAction::Wait => StreamActionModel::Wait,
            StreamAction::Deregister => StreamActionModel::Deregister,
        }
    }
}

/// The next state (the solutions last pushed) and the action of a query
/// stream: new solutions are pushed only when they differ from the last
/// ones; errors are always pushed; a refresh pushes the last solutions again.
pub open spec fn stream_step_spec(last: Seq<char>, event: StreamEvent) -> (Seq<char>, StreamActionModel) {
    match event {
        StreamEvent::Solutions(s) => if s@ != last {
            (s@, StreamActionModel::Push(sse_data(s@)))
        } else {
            (last, StreamActionModel::Wait)
        },
        StreamEvent::Failed(e) => (last, StreamActionModel::Push(sse_data(e@))),
        StreamEvent::Refresh => (last, StreamActionModel::Push(sse_data(last))),
        StreamEvent::Close => (last, StreamActionModel::Deregister),
    }
}

/// The solutions a stream starts from: none yet (JSON null).
pub fn initial_solutions() -> (r: String)
    ensures
        r@ == "null"@,
{
    String::from_str("null")
}

/// One step of a query stream (see `stream_step_spec`).
pub fn query_stream_step(last: String, event: StreamEvent) -> (r: (String, StreamAction))
    ensures
        (r.0@, r.1@) == stream_step_spec(last@, event),
{
    match event {
        StreamEvent::Solutions(s) => {
            if !str_eq(s.as_str(), last.as_str()) {
                let m = sse_message(s.as_str());
                (s, StreamAction::Push(m))
            } else {
                (last, StreamAction::Wait)
            }
        },
        StreamEvent::Failed(e) => {
            let m = sse_message(e.as_str());
            (last, StreamAction::Push(m))
        },
        StreamEvent::Refresh => {
            let m = sse_message(last.as_str());
            (last, StreamAction::Push(m))
        },
        StreamEvent::Close => (last, StreamAction::Deregister),
    }
}


/// Solutions are pushed once when they change: the same solutions reported
/// again right after are not pushed, while a refresh pushes them again.
pub proof fn lemma_stream_pushes_once(last: Seq<char>, s: String)
    ensures
        ({
            let next = stream_step_spec(last, StreamEvent::Solutions(s)).0;
            &&& next == s@
            &&& stream_step_spec(next, StreamEvent::Solutions(s)).1 == StreamActionModel::Wait
            &&& stream_step_spec(next, StreamEvent::Refresh).1 == StreamActionModel::Push(sse_data(s@))
        }),
{
}


/// A failure is pushed and changes nothing else: the stream keeps the
/// solutions last pushed, so a refresh afterwards pushes those solutions,
/// and the solutions reported next are pushed exactly when they differ from
/// them, as if the failure had not happened.
pub proof fn lemma_failure_keeps_solutions(last: Seq<char>, e: String, s: String)
    ensures
        stream_step_spec(last, StreamEvent::Failed(e)).0 == last,
        stream_step_spec(last, StreamEvent::Failed(e)).1 == StreamActionModel::Push(sse_data(e@)),
        stream_step_spec(stream_step_spec(last, StreamEvent::Failed(e)).0, StreamEvent::Refresh).1
            == StreamActionModel::Push(sse_data(last)),
        stream_step_spec(stream_step_spec(last, StreamEvent::Failed(e)).0, StreamEvent::Solutions(s))
            == stream_step_spec(last, StreamEvent::Solutions(s)),
        (stream_step_spec(last, StreamEvent::Solutions(s)).1 is Push) <==> s@ != last,
{
}

} // verus!
