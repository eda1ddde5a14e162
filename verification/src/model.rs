//! The state kept about the network: alerts and the queries run on the stores.
use vstd::prelude::*;
use crate::text::{join_str, join_strings, texts_of, append_nat, nat_str};
use crate::statements::{Object, ObjectModel, entries_view};

verus! {

/// Alerts are conditions that hold for a period of time (e.g. a router off line).
///
/// * target - map:auto-fat/entities/10.1.0.1 or gnos:container.
/// * id - is used along with target to identify alerts.
/// * mesg - text that describes the alert (e.g. "offline").
/// * resolution - text that describes how to fix the alert.
/// * level - "error", "warning", or "info".
#[derive(Debug)]
pub struct Alert {
    pub target: String,
    pub id: String,
    pub mesg: String,
    pub resolution: String,
    pub level: String,
}

pub ghost struct AlertModel {
    pub target: Seq<char>,
    pub id: Seq<char>,
    pub mesg: Seq<char>,
    pub resolution: Seq<char>,
    pub level: Seq<char>,
}

impl View for Alert {
    type V = AlertModel;

    open spec fn view(&self) -> AlertModel {
        AlertModel {
            target: self.target@,
            id: self.id@,
            mesg: self.mesg@,
            resolution: self.resolution@,
            level: self.level@,
        }
    }
}


/// The names of the stores the server keeps.
pub fn get_standard_store_names() -> (r: Vec<String>)
    ensures
        texts_of(r@) == seq!["globals"@, "primary"@],
{
    let r = vec![String::from_str("globals"), String::from_str("primary")];
    assert(texts_of(r@) =~= seq!["globals"@, "primary"@]);
    r
}

/// A prefix usable in queries for the IRIs starting with `path`.
#[derive(Clone, Debug)]
pub struct Namespace {
    pub prefix: String,
    pub path: String,
}

/// The address of the server's map: `http://SERVER:PORT/map/`.
pub open spec fn map_url(server: Seq<char>, port: u16) -> Seq<char> {
    "http://"@ + server + ":"@ + nat_str(port as nat) + "/map/"@
}

/// The namespaces of a store (prefix and path), in order: its entities, the
/// store itself, the gnos schema, and the map.
pub open spec fn store_namespaces_spec(store: Seq<char>, server: Seq<char>, port: u16) -> Seq<(Seq<char>, Seq<char>)> {
    seq![
        ("entities"@, map_url(server, port) + store + "/entities/"@),
        ("store"@, map_url(server, port) + store + "/"@),
        ("gnos"@, "http://www.gnos.org/2012/schema#"@),
        ("map"@, map_url(server, port)),
    ]
}

fn map_url_of(server: &str, port: u16) -> (r: String)
    ensures
        r@ == map_url(server@, port),
{
    let mut r = String::from_str("http://");
    r.append(server);
    r.append(":");
    append_nat(&mut r, port as u64);
    r.append("/map/");
    r
}

/// The namespaces of a store served at `server`:`port` (see
/// `store_namespaces_spec`).
pub fn store_namespaces(store: &str, server: &str, port: u16) -> (r: Vec<Namespace>)
    ensures
        r@.map_values(|n: Namespace| (n.prefix@, n.path@)) == store_namespaces_spec(store@, server@, port),
{
    let mut entities = map_url_of(server, port);
    entities.append(store);
    entities.append("/entities/");
    let mut own = map_url_of(server, port);
    own.append(store);
    own.append("/");
    let r = vec![
        Namespace { prefix: String::from_str("entities"), path: entities },
        Namespace { prefix: String::from_str("store"), path: own },
        Namespace { prefix: String::from_str("gnos"), path: String::from_str("http://www.gnos.org/2012/schema#") },
        Namespace { prefix: String::from_str("map"), path: map_url_of(server, port) },
    ];
    assert(r@.map_values(|n: Namespace| (n.prefix@, n.path@)) =~= store_namespaces_spec(store@, server@, port));
    r
}

/// The query line declaring a namespace.
pub open spec fn prefix_line(prefix: Seq<char>, path: Seq<char>) -> Seq<char> {
    "\tPREFIX "@ + prefix + ": <"@ + path + ">"@
}

/// The query lines declaring the namespaces, in order, leaving out those
/// whose prefix is "_".
pub open spec fn prefix_lines(ns: Seq<Namespace>) -> Seq<Seq<char>>
    decreases ns.len(),
{
    if ns.len() == 0 {
        Seq::empty()
    } else {
        let rest = prefix_lines(ns.drop_last());
        if ns.last().prefix@ == "_"@ {
            rest
        } else {
            rest.push(prefix_line(ns.last().prefix@, ns.last().path@))
        }
    }
}

fn concat(a: &str, b: &str) -> (r: String)
    ensures
        r@ == a@ + b@,
{
    let mut r = String::from_str(a);
    r.append(b);
    r
}

/// The PREFIX declarations of a store's namespaces, one per line.
pub fn get_prefixes(namespaces: &Vec<Namespace>) -> (r: String)
    ensures
        r@ == join_str(prefix_lines(namespaces@), "\n"@),
{
    let mut lines: Vec<String> = Vec::new();
    let mut i: usize = 0;
    while i < namespaces.len()
        invariant
            i <= namespaces@.len(),
            texts_of(lines@) == prefix_lines(namespaces@.take(i as int)),
        decreases namespaces.len() - i,
    {
        let ghost before = lines@;
        proof {
            assert(namespaces@.take(i + 1).drop_last() =~= namespaces@.take(i as int));
            assert(namespaces@.take(i + 1).last() == namespaces@[i as int]);
        }
        let ns = &namespaces[i];
        if !crate::text::str_eq(ns.prefix.as_str(), "_") {
            let mut line = concat("\tPREFIX ", ns.prefix.as_str());
            line.append(": <");
            line.append(ns.path.as_str());
            line.append(">");
            lines.push(line);
            proof {
                assert(texts_of(lines@) =~= texts_of(before).push(prefix_line(ns.prefix@, ns.path@)));
            }
        }
        i = i + 1;
    }
    assert(namespaces@.take(namespaces@.len() as int) =~= namespaces@);
    join_strings(&lines, "\n")
}

/// The query finding the alerts about `target` named `id`, with their end
/// times where they have one.
pub open spec fn open_alert_query_spec(prefixes: Seq<char>, target: Seq<char>, id: Seq<char>) -> Seq<char> {
    "\n\t"@ + prefixes + "\n\tSELECT\n\t\t?subject ?end\n\tWHERE\n\t{\n\t\t?subject gnos:target "@ + target
        + " .\n\t\t?subject gnos:alert \""@ + id
        + "\" .\n\t\tOPTIONAL\n\t\t{\n\t\t\t?subject gnos:end ?end .\n\t\t}\n\t}"@
}

/// The query run before an alert is opened (see `open_alert_query_spec`).
pub fn open_alert_query(prefixes: &str, alert: &Alert) -> (r: String)
    ensures
        r@ == open_alert_query_spec(prefixes@, alert.target@, alert.id@),
{
    let mut r = concat("\n\t", prefixes);
    r.append("\n\tSELECT\n\t\t?subject ?end\n\tWHERE\n\t{\n\t\t?subject gnos:target ");
    r.append(alert.target.as_str());
    r.append(" .\n\t\t?subject gnos:alert \"");
    r.append(alert.id.as_str());
    r.append("\" .\n\t\tOPTIONAL\n\t\t{\n\t\t\t?subject gnos:end ?end .\n\t\t}\n\t}");
    r
}

/// The query finding the alerts about `target` named `id`, with their styles
/// and end times.
pub open spec fn close_alert_query_spec(prefixes: Seq<char>, target: Seq<char>, id: Seq<char>) -> Seq<char> {
    "\n\t"@ + prefixes + "\n\tSELECT\n\t\t?subject ?style ?end\n\tWHERE\n\t{\n\t\t?subject gnos:alert \""@ + id
        + "\" .\n\t\t?subject gnos:target "@ + target
        + " .\n\t\t?subject gnos:style ?style .\n\t\tOPTIONAL\n\t\t{\n\t\t\t?subject gnos:end ?end\n\t\t}\n\t}"@
}

/// The query run before alerts are closed (see `close_alert_query_spec`).
pub fn close_alert_query(prefixes: &str, target: &str, id: &str) -> (r: String)
    ensures
        r@ == close_alert_query_spec(prefixes@, target@, id@),
{
    let mut r = concat("\n\t", prefixes);
    r.append("\n\tSELECT\n\t\t?subject ?style ?end\n\tWHERE\n\t{\n\t\t?subject gnos:alert \"");
    r.append(id);
    r.append("\" .\n\t\t?subject gnos:target ");
    r.append(target);
    r.append(" .\n\t\t?subject gnos:style ?style .\n\t\tOPTIONAL\n\t\t{\n\t\t\t?subject gnos:end ?end\n\t\t}\n\t}");
    r
}

/// Whether an alert is opened: only when every alert already found with its
/// target and id has ended (in particular when none was found).
pub open spec fn should_open_spec(ended: Seq<bool>) -> bool {
    forall|i: int| 0 <= i < ended.len() ==> #[trigger] ended[i]
}

/// Decides whether to open an alert from the rows found by
/// `open_alert_query`: `ended[i]` tells whether row `i` has an end time.
pub fn should_open_alert(ended: &Vec<bool>) -> (r: bool)
    ensures
        r == should_open_spec(ended@),
{
    let mut i: usize = 0;
    while i < ended.len()
        invariant
            i <= ended@.len(),
            forall|k: int| 0 <= k < i ==> #[trigger] ended@[k],
        decreases ended.len() - i,
    {
        if !ended[i] {
            return false;
        }
        i = i + 1;
    }
    true
}

/// Whether opening (or closing) an alert of this level changes the count of
/// errors.
pub fn counts_as_error(level: &str) -> (r: bool)
    ensures
        r == (level@ == "error"@),
{
    crate::text::str_eq(level, "error")
}

/// One row found by `close_alert_query`: the alert's subject, its style, and
/// whether it has an end time.
#[derive(Clone, Debug)]
pub struct AlertRow {
    pub subject: String,
    pub style: String,
    pub ended: bool,
}

pub open spec fn ends_with(s: Seq<char>, suffix: Seq<char>) -> bool {
    suffix.len() <= s.len() && s.skip(s.len() - suffix.len()) == suffix
}

/// Whether a row is an open alert whose style marks it as an error.
pub open spec fn open_error(row: AlertRow) -> bool {
    !row.ended && ends_with(row.style@, ":error"@)
}

/// The subjects of the rows still open, in order.
pub open spec fn open_subjects(rows: Seq<AlertRow>) -> Seq<Seq<char>>
    decreases rows.len(),
{
    if rows.len() == 0 {
        Seq::empty()
    } else {
        let rest = open_subjects(rows.drop_last());
        if rows.last().ended {
            rest
        } else {
            rest.push(rows.last().subject@)
        }
    }
}

/// The number of rows that are open errors.
pub open spec fn open_error_count(rows: Seq<AlertRow>) -> nat
    decreases rows.len(),
{
    if rows.len() == 0 {
        0
    } else {
        open_error_count(rows.drop_last()) + if open_error(rows.last()) { 1nat } else { 0nat }
    }
}

/// What closing alerts does: the subjects that get an end time, and whether
/// an error alert was among them.
#[derive(Debug)]
pub struct AlertClosing {
    pub subjects: Vec<String>,
    pub error_closed: bool,
}

fn ends_with_exec(s: &str, suffix: &str) -> (r: bool)
    ensures
        r == ends_with(s@, suffix@),
{
    let x = crate::text::chars_of(s);
    let y = crate::text::chars_of(suffix);
    if y.len() > x.len() {
        return false;
    }
    let start = x.len() - y.len();
    let mut i: usize = 0;
    while i < y.len()
        invariant
            i <= y@.len(),
            y@.len() <= x@.len(),
            x@.len() == x.len(),
            start == x@.len() - y@.len(),
            x@ == s@,
            y@ == suffix@,
            forall|k: int| 0 <= k < i ==> x@[start + k] == y@[k],
        decreases y.len() - i,
    {
        if x[start + i] != y[i] {
            assert(s@.skip(start as int)[i as int] != suffix@[i as int]);
            return false;
        }
        i = i + 1;
    }
    assert(s@.skip(start as int) =~= suffix@);
    true
}

/// Decides which alerts to close from the rows found by `close_alert_query`:
/// every row without an end time gets one. At most one of them may be an
/// error (an alert is opened only when no alert with its target and id is
/// open).
pub fn close_alert(rows: &Vec<AlertRow>) -> (r: AlertClosing)
    requires
        open_error_count(rows@) <= 1,
    ensures
        texts_of(r.subjects@) == open_subjects(rows@),
        r.error_closed == (open_error_count(rows@) == 1),
{
    let mut subjects: Vec<String> = Vec::new();
    let mut errors: usize = 0;
    let mut i: usize = 0;
    while i < rows.len()
        invariant
            i <= rows@.len(),
            texts_of(subjects@) == open_subjects(rows@.take(i as int)),
            errors == open_error_count(rows@.take(i as int)),
            open_error_count(rows@) <= 1,
        decreases rows.len() - i,
    {
        proof {
            assert(rows@.take(i + 1).drop_last() =~= rows@.take(i as int));
            assert(rows@.take(i + 1).last() == rows@[i as int]);
            lemma_open_error_count_prefix(rows@, i + 1);
        }
        let row = &rows[i];
        if !row.ended {
            if ends_with_exec(row.style.as_str(), ":error") {
                errors = errors + 1;
            }
            let ghost before = subjects@;
            subjects.push(String::from_str(row.subject.as_str()));
            proof {
                assert(texts_of(subjects@) =~= texts_of(before).push(row.subject@));
            }
        }
        i = i + 1;
    }
    assert(rows@.take(rows@.len() as int) =~= rows@);
    AlertClosing { subjects, error_closed: errors == 1 }
}

proof fn lemma_open_error_count_prefix(rows: Seq<AlertRow>, i: int)
    requires
        0 <= i <= rows.len(),
    ensures
        open_error_count(rows.take(i)) <= open_error_count(rows),
    decreases rows.len() - i,
{
    if i < rows.len() {
        lemma_open_error_count_prefix(rows, i + 1);
        assert(rows.take(i + 1).drop_last() =~= rows.take(i));
    } else {
        assert(rows.take(i) =~= rows);
    }
}

/// The count of errors after an error alert is opened (`delta` 1) or closed
/// (`delta` -1): a count not yet recorded starts at 1.
pub fn next_err_count(current: Option<i64>, delta: i64) -> (r: i64)
    requires
        current is None ==> delta == 1,
    ensures
        r == match current {
            Some(v) => v.wrapping_add(delta),
            None => 1,
        },
{
    match current {
        Some(v) => v.wrapping_add(delta),
        None => 1,
    }
}


/// The statements recording a newly opened alert (`begin` is the time it
/// was opened).
pub open spec fn alert_entries_spec(a: AlertModel) -> Seq<(Seq<char>, ObjectModel)> {
    seq![
        ("gnos:target"@, ObjectModel::Iri(a.target)),
        ("gnos:alert"@, ObjectModel::Str(a.id, Seq::empty())),
        ("gnos:begin"@, ObjectModel::Now),
        ("gnos:mesg"@, ObjectModel::Str(a.mesg, Seq::empty())),
        ("gnos:resolution"@, ObjectModel::Str(a.resolution, Seq::empty())),
        ("gnos:style"@, ObjectModel::Str("alert-type:"@ + a.level, Seq::empty())),
    ]
}

fn copy_str(s: &String) -> (r: String)
    ensures
        r@ == s@,
{
    String::from_str(s.as_str())
}

/// The statements recording a newly opened alert.
pub fn alert_entries(alert: &Alert) -> (r: Vec<(String, Object)>)
    ensures
        entries_view(r@) == alert_entries_spec(alert@),
{
    let r = vec![
        (String::from_str("gnos:target"), Object::Iri(copy_str(&alert.target))),
        (String::from_str("gnos:alert"), Object::Str(copy_str(&alert.id), String::new())),
        (String::from_str("gnos:begin"), Object::Now),
        (String::from_str("gnos:mesg"), Object::Str(copy_str(&alert.mesg), String::new())),
        (String::from_str("gnos:resolution"), Object::Str(copy_str(&alert.resolution), String::new())),
        (String::from_str("gnos:style"), Object::Str(concat("alert-type:", alert.level.as_str()), String::new())),
    ];
    assert(entries_view(r@) =~= alert_entries_spec(alert@));
    r
}

/// What opening an alert adds: its statements, and whether the count of
/// errors goes up.
#[derive(Debug)]
pub struct AlertOpening {
    pub entries: Vec<(String, Object)>,
    pub counts_error: bool,
}

/// Decides what opening `alert` does, given the rows found by
/// `open_alert_query` (`ended[i]` tells whether row `i` has an end time):
/// nothing while an alert with its target and id is open.
pub fn open_alert(alert: &Alert, ended: &Vec<bool>) -> (r: Option<AlertOpening>)
    ensures
        should_open_spec(ended@) ==> (r matches Some(o) && entries_view(o.entries@) == alert_entries_spec(alert@)
            && o.counts_error == (alert.level@ == "error"@)),
        !should_open_spec(ended@) ==> r is None,
{
    if should_open_alert(ended) {
        Some(AlertOpening { entries: alert_entries(alert), counts_error: counts_as_error(alert.level.as_str()) })
    } else {
        None
    }
}


/// Opening an alert is idempotent: once an alert with a target and id is
/// open (a row without an end time), opening it again adds nothing.
pub proof fn lemma_open_alert_idempotent(ended: Seq<bool>)
    ensures
        !should_open_spec(ended.push(false)),
{
    assert(!ended.push(false)[ended.len() as int]);
}

/// How many of the alerts found for a target and id are open (have no end
/// time); `ended[i]` tells whether alert `i` has one.
pub open spec fn open_count(ended: Seq<bool>) -> nat
    decreases ended.len(),
{
    if ended.len() == 0 {
        0
    } else {
        open_count(ended.drop_last()) + if ended.last() { 0nat } else { 1nat }
    }
}

proof fn lemma_should_open_iff_none_open(ended: Seq<bool>)
    ensures
        should_open_spec(ended) <==> open_count(ended) == 0,
    decreases ended.len(),
{
    if ended.len() > 0 {
        let p = ended.drop_last();
        lemma_should_open_iff_none_open(p);
        if should_open_spec(ended) {
            assert forall|i: int| 0 <= i < p.len() implies #[trigger] p[i] by {
                assert(ended[i]);
            }
            assert(ended[ended.len() - 1]);
        } else if open_count(ended) == 0 {
            assert forall|i: int| 0 <= i < ended.len() implies #[trigger] ended[i] by {
                if i < p.len() {
                    assert(p[i]);
                }
            }
        }
    }
}

/// At most one alert per target and id is open at a time: opening adds an
/// open alert only when none is open (leaving exactly one), does nothing
/// while one is open, and closing ends every open one.
pub proof fn lemma_one_open_alert(ended: Seq<bool>)
    ensures
        should_open_spec(ended) ==> open_count(ended.push(false)) == 1,
        !should_open_spec(ended) ==> open_count(ended) >= 1,
        open_count(Seq::new(ended.len(), |i: int| true)) == 0,
{
    lemma_should_open_iff_none_open(ended);
    assert(ended.push(false).drop_last() =~= ended);
    let closed = Seq::new(ended.len(), |i: int| true);
    assert(should_open_spec(closed));
    lemma_should_open_iff_none_open(closed);
}

/// Closing an error alert undoes the count that opening it added: the count
/// goes back to what it was, 0 where none had been recorded.
pub proof fn lemma_err_count_round_trip(current: Option<i64>)
    ensures
        ({
            let opened: i64 = match current {
                Some(v) => v.wrapping_add(1i64),
                None => 1i64,
            };
            opened.wrapping_add(-1i64) == match current {
                Some(v) => v,
                None => 0,
            }
        }),
{
    match current {
        Some(v) => {
            assert(v.wrapping_add(1i64).wrapping_add(-1i64) == v) by (bit_vector);
        },
        None => {},
    }
}

} // verus!
