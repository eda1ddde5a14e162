//! The store used when the server runs with `--db`: a hard-coded map of
//! Westeros used to exercise the client views.
use vstd::prelude::*;
use crate::json::JsonNumber;
use crate::model::{Alert, AlertModel};
use crate::statements::{Action, ActionModel, Object, ObjectModel, Plan, Subject, SubjectModel, blank_count,
    entries_view, lemma_blank_count_concat, object_refs_ok, plan_view};

verus! {

/// A string statement without a language tag.
pub open spec fn str_entry(pred: Seq<char>, text: Seq<char>) -> (Seq<char>, ObjectModel) {
    (pred, ObjectModel::Str(text, Seq::empty()))
}

fn str_object(text: &str) -> (r: Object)
    ensures
        r@ == ObjectModel::Str(text@, Seq::empty()),
{
    Object::Str(String::from_str(text), String::new())
}

// ---- Globals --------------------------------------------------------------------------
/// The statements about the store itself: how often devices are polled and
/// when the store was last updated.
pub open spec fn globals_action(poll_rate: u16) -> ActionModel {
    ActionModel::Add(
        SubjectModel::Named("map:primary/globals"@),
        seq![("gnos:poll_interval"@, ObjectModel::Int(poll_rate as i64)), ("gnos:last_update"@, ObjectModel::Now)],
    )
}

/// Adds the statements about the store itself.
pub fn add_globals(plan: &mut Plan, poll_rate: u16)
    requires
        old(plan).wf(),
    ensures
        final(plan).wf(),
        final(plan).spec_actions() == old(plan).spec_actions().push(globals_action(poll_rate)),
{
    let entries = vec![
        (String::from_str("gnos:poll_interval"), Object::Int(poll_rate as i64)),
        (String::from_str("gnos:last_update"), Object::Now),
    ];
    let a = Action::Add(Subject::Named(String::from_str("map:primary/globals")), entries);
    assert(a@ == globals_action(poll_rate)) by {
        assert(entries_view(entries@) =~= seq![("gnos:poll_interval"@, ObjectModel::Int(poll_rate as i64)), ("gnos:last_update"@, ObjectModel::Now)]);
    }
    plan.push(a);
}

// ---- Entities -------------------------------------------------------------------------
/// The places on the map: id, name and style.
pub open spec fn entity_table() -> Seq<(Seq<char>, Seq<char>, Seq<char>)> {
    seq![
        ("entities:wall"@, "The Wall"@, "font-weight:bolder frame-blur:5"@),
        ("entities:winterfell"@, "Winterfell"@, "font-size:large font-weight:bolder frame-blur:5 node-mass:3"@),
        ("entities:dreadfort"@, "The Dreadfort"@, "font-weight:bolder frame-blur:5"@),
        ("entities:karhold"@, "Karhold"@, "font-weight:bolder frame-blur:5"@),
        ("entities:hornwood"@, "Hornwood"@, "font-weight:bolder frame-blur:5"@),
        ("entities:white_harbor"@, "White Harbor"@, "font-weight:bolder frame-blur:5"@),
        ("entities:moat_cailin"@, "Moat Cailin"@, "font-weight:bolder frame-blur:5"@),
        ("entities:harenhal"@, "Harenhal"@, "font-weight:bolder frame-blur:5"@),
        ("entities:kings_landing"@, "King's Landing"@, "font-size:x-large font-weight:bolder frame-blur:5 node-mass:5"@),
        ("entities:lannisport"@, "Lannisport"@, "font-weight:bolder frame-blur:5"@),
        ("entities:crakehall"@, "Crakehall"@, "font-weight:bolder frame-blur:5"@),
        ("entities:clegane_hall"@, "Clegane Hall"@, "font-weight:bolder frame-blur:5"@),
        ("entities:highgarden"@, "Highgarden"@, "font-weight:bolder frame-blur:5"@),
        ("entities:oldtown"@, "Oldtown"@, "font-weight:bolder frame-blur:5"@)
    ]
}

/// The statements naming and styling one place.
pub open spec fn entity_action(e: (Seq<char>, Seq<char>, Seq<char>)) -> ActionModel {
    ActionModel::Add(SubjectModel::Named(e.0), seq![str_entry("gnos:entity"@, e.1), str_entry("gnos:style"@, e.2)])
}

pub open spec fn entities_actions(t: Seq<(Seq<char>, Seq<char>, Seq<char>)>) -> Seq<ActionModel> {
    t.map_values(|e: (Seq<char>, Seq<char>, Seq<char>)| entity_action(e))
}

pub open spec fn rows3_view(r: Seq<(&'static str, &'static str, &'static str)>) -> Seq<(Seq<char>, Seq<char>, Seq<char>)> {
    r.map_values(|e: (&'static str, &'static str, &'static str)| (e.0@, e.1@, e.2@))
}

fn entity_rows() -> (r: Vec<(&'static str, &'static str, &'static str)>)
    ensures
        rows3_view(r@) == entity_table(),
{
    let r = vec![
        ("entities:wall", "The Wall", "font-weight:bolder frame-blur:5"),
        ("entities:winterfell", "Winterfell", "font-size:large font-weight:bolder frame-blur:5 node-mass:3"),
        ("entities:dreadfort", "The Dreadfort", "font-weight:bolder frame-blur:5"),
        ("entities:karhold", "Karhold", "font-weight:bolder frame-blur:5"),
        ("entities:hornwood", "Hornwood", "font-weight:bolder frame-blur:5"),
        ("entities:white_harbor", "White Harbor", "font-weight:bolder frame-blur:5"),
        ("entities:moat_cailin", "Moat Cailin", "font-weight:bolder frame-blur:5"),
        ("entities:harenhal", "Harenhal", "font-weight:bolder frame-blur:5"),
        ("entities:kings_landing", "King's Landing", "font-size:x-large font-weight:bolder frame-blur:5 node-mass:5"),
        ("entities:lannisport", "Lannisport", "font-weight:bolder frame-blur:5"),
        ("entities:crakehall", "Crakehall", "font-weight:bolder frame-blur:5"),
        ("entities:clegane_hall", "Clegane Hall", "font-weight:bolder frame-blur:5"),
        ("entities:highgarden", "Highgarden", "font-weight:bolder frame-blur:5"),
        ("entities:oldtown", "Oldtown", "font-weight:bolder frame-blur:5")
    ];
    assert(rows3_view(r@) =~= entity_table());
    r
}

/// Adds the places on the map.
#[verifier::spinoff_prover]
#[verifier::rlimit(30)]
pub fn add_entities(plan: &mut Plan)
    requires
        old(plan).wf(),
    ensures
        final(plan).wf(),
        final(plan).spec_actions() == old(plan).spec_actions() + entities_actions(entity_table()),
{
    let rows = entity_rows();
    let ghost p0 = plan.spec_actions();
    let ghost t = entity_table();
    let mut i: usize = 0;
    assert(entities_actions(t.take(0)) =~= Seq::<ActionModel>::empty());
    while i < rows.len()
        invariant
            plan.wf(),
            i <= rows@.len(),
            rows3_view(rows@) == t,
            t == entity_table(),
            plan.spec_actions() == p0 + entities_actions(t.take(i as int)),
        decreases rows.len() - i,
    {
        let (id, name, style) = rows[i];
        proof {
            assert(rows3_view(rows@)[i as int] == (id@, name@, style@));
        }
        let entries = vec![
            (String::from_str("gnos:entity"), str_object(name)),
            (String::from_str("gnos:style"), str_object(style)),
        ];
        let a = Action::Add(Subject::Named(String::from_str(id)), entries);
        proof {
            assert(entries_view(entries@) =~= seq![str_entry("gnos:entity"@, name@), str_entry("gnos:style"@, style@)]);
            assert(a@ == entity_action(t[i as int]));
        }
        plan.push(a);
        proof {
            assert(entities_actions(t.take(i + 1)) =~= entities_actions(t.take(i as int)).push(entity_action(t[i as int])));
        }
        i = i + 1;
    }
    assert(t.take(t.len() as int) =~= t);
}


// ---- Blank subjects ------------------------------------------------------------------
/// Statements about new blank subjects, one per row: each row makes a blank
/// subject with its label (numbered from `n` on) and adds its statements.
pub open spec fn blank_rows_actions(n: nat, rows: Seq<(Seq<char>, Seq<(Seq<char>, ObjectModel)>)>) -> Seq<ActionModel>
    decreases rows.len(),
{
    if rows.len() == 0 {
        Seq::empty()
    } else {
        blank_rows_actions(n, rows.drop_last()) + seq![
            ActionModel::NewBlank(rows.last().0),
            ActionModel::Add(SubjectModel::Blank((n + rows.len() - 1) as nat), rows.last().1),
        ]
    }
}

proof fn lemma_blank_rows_count(n: nat, rows: Seq<(Seq<char>, Seq<(Seq<char>, ObjectModel)>)>)
    ensures
        blank_count(blank_rows_actions(n, rows)) == rows.len(),
    decreases rows.len(),
{
    if rows.len() > 0 {
        let prev = blank_rows_actions(n, rows.drop_last());
        let two = seq![
            ActionModel::NewBlank(rows.last().0),
            ActionModel::Add(SubjectModel::Blank((n + rows.len() - 1) as nat), rows.last().1),
        ];
        lemma_blank_rows_count(n, rows.drop_last());
        lemma_blank_count_concat(prev, two);
        assert(two.drop_last() =~= seq![ActionModel::NewBlank(rows.last().0)]);
        assert(two.drop_last().drop_last() =~= Seq::<ActionModel>::empty());
        assert(blank_count(two.drop_last().drop_last()) == 0);
        assert(blank_count(two.drop_last()) == 1);
        assert(blank_count(two) == 1);
    }
}

/// Makes a blank subject with the label and adds the statements about it;
/// returns its number.
fn add_blank(plan: &mut Plan, label: &str, entries: Vec<(String, Object)>) -> (k: usize)
    requires
        old(plan).wf(),
        forall|i: int| 0 <= i < entries@.len() ==> object_refs_ok(#[trigger] entries_view(entries@)[i].1, blank_count(old(plan).spec_actions())),
    ensures
        final(plan).wf(),
        k == blank_count(old(plan).spec_actions()),
        final(plan).spec_actions() == old(plan).spec_actions() + seq![
            ActionModel::NewBlank(label@),
            ActionModel::Add(SubjectModel::Blank(k as nat), entries_view(entries@)),
        ],
{
    let ghost p0 = plan.spec_actions();
    let k = plan.new_blank(String::from_str(label));
    let ghost p1 = plan.spec_actions();
    proof {
        assert(p1.drop_last() == p0);
        assert forall|i: int| 0 <= i < entries@.len() implies object_refs_ok(#[trigger] entries_view(entries@)[i].1, blank_count(p1)) by {
            assert(object_refs_ok(entries_view(entries@)[i].1, blank_count(p0)));
        }
    }
    let ghost ev = entries_view(entries@);
    plan.push(Action::Add(Subject::Blank(k), entries));
    proof {
        assert(plan.spec_actions() =~= p0 + seq![ActionModel::NewBlank(label@), ActionModel::Add(SubjectModel::Blank(k as nat), ev)]);
    }
    k
}

proof fn lemma_blank_rows_step(n: nat, rows: Seq<(Seq<char>, Seq<(Seq<char>, ObjectModel)>)>, i: int)
    requires
        0 <= i < rows.len(),
    ensures
        blank_rows_actions(n, rows.take(i + 1)) == blank_rows_actions(n, rows.take(i)) + seq![
            ActionModel::NewBlank(rows[i].0),
            ActionModel::Add(SubjectModel::Blank((n + i) as nat), rows[i].1),
        ],
{
    assert(rows.take(i + 1).drop_last() =~= rows.take(i));
}

// ---- Labels and gauges ------------------------------------------------------------------
/// The labels shown on places: blank label, place, text, level, sort key.
pub open spec fn label_table() -> Seq<(Seq<char>, Seq<char>, Seq<char>, i64, Seq<char>)> {
    seq![
        ("wall-label"@, "entities:wall"@, "guards the realms of men"@, 2i64, "1"@),
        ("winterfell-label"@, "entities:winterfell"@, "House Stark"@, 1i64, "1"@),
        ("winterfell-label"@, "entities:winterfell"@, "constructed by Brandon the Builder"@, 2i64, "2"@),
        ("kings_landing-label"@, "entities:kings_landing"@, "Capitol of Westoros"@, 1i64, "1"@),
    ]
}

pub open spec fn label_row(t: (Seq<char>, Seq<char>, Seq<char>, i64, Seq<char>)) -> (Seq<char>, Seq<(Seq<char>, ObjectModel)>) {
    (t.0, seq![
        ("gnos:target"@, ObjectModel::Iri(t.1)),
        str_entry("gnos:label"@, t.2),
        ("gnos:level"@, ObjectModel::Int(t.3)),
        str_entry("gnos:sort_key"@, t.4),
    ])
}

/// The gauges shown on places: blank label, place, value (as written, and
/// truncated), title, level, sort key and optional style.
pub open spec fn gauge_table() -> Seq<(Seq<char>, Seq<char>, Seq<char>, i64, Seq<char>, i64, Seq<char>, Option<Seq<char>>)> {
    seq![
        ("wall-gauge"@, "entities:wall"@, "1.0"@, 1i64, "m/f ratio"@, 2i64, "3"@, None),
        ("wall-gauge"@, "entities:wall"@, "0.3"@, 0i64, "loyalty"@, 2i64, "4"@, Some("gauge-bar-color:orange"@)),
        ("winterfell-gauge"@, "entities:winterfell"@, "0.7"@, 0i64, "m/f ratio"@, 2i64, "3"@, None),
        ("winterfell-gauge"@, "entities:winterfell"@, "0.8"@, 0i64, "loyalty"@, 2i64, "4"@, Some("gauge-bar-color:lime"@)),
        ("kings_landing-gauge"@, "entities:kings_landing"@, "0.5"@, 0i64, "m/f ratio"@, 2i64, "3"@, None),
        ("kings_landing-gauge"@, "entities:kings_landing"@, "0.9"@, 0i64, "loyalty"@, 2i64, "4"@, Some("gauge-bar-color:lime"@)),
    ]
}

pub open spec fn gauge_row(t: (Seq<char>, Seq<char>, Seq<char>, i64, Seq<char>, i64, Seq<char>, Option<Seq<char>>)) -> (Seq<char>, Seq<(Seq<char>, ObjectModel)>) {
    (t.0, seq![
        ("gnos:target"@, ObjectModel::Iri(t.1)),
        ("gnos:gauge"@, ObjectModel::Float(t.2, t.3)),
        str_entry("gnos:title"@, t.4),
        ("gnos:level"@, ObjectModel::Int(t.5)),
        str_entry("gnos:sort_key"@, t.6),
    ] + match t.7 {
        Some(s) => seq![str_entry("gnos:style"@, s)],
        None => Seq::empty(),
    })
}

/// The statements about the labels and then the gauges, with blank subjects
/// numbered from `n`.
pub open spec fn infos_actions(n: nat) -> Seq<ActionModel> {
    blank_rows_actions(n, label_table().map_values(|t: (Seq<char>, Seq<char>, Seq<char>, i64, Seq<char>)| label_row(t)))
        + blank_rows_actions(n + 4, gauge_table().map_values(
            |t: (Seq<char>, Seq<char>, Seq<char>, i64, Seq<char>, i64, Seq<char>, Option<Seq<char>>)| gauge_row(t),
        ))
}

fn label_rows() -> (r: Vec<(&'static str, &'static str, &'static str, i64, &'static str)>)
    ensures
        r@.map_values(|e: (&'static str, &'static str, &'static str, i64, &'static str)| (e.0@, e.1@, e.2@, e.3, e.4@)) == label_table(),
{
    let r = vec![
        ("wall-label", "entities:wall", "guards the realms of men", 2i64, "1"),
        ("winterfell-label", "entities:winterfell", "House Stark", 1i64, "1"),
        ("winterfell-label", "entities:winterfell", "constructed by Brandon the Builder", 2i64, "2"),
        ("kings_landing-label", "entities:kings_landing", "Capitol of Westoros", 1i64, "1"),
    ];
    assert(r@.map_values(|e: (&'static str, &'static str, &'static str, i64, &'static str)| (e.0@, e.1@, e.2@, e.3, e.4@)) =~= label_table());
    r
}

fn gauge_rows() -> (r: Vec<(&'static str, &'static str, &'static str, i64, &'static str, i64, &'static str, Option<&'static str>)>)
    ensures
        r@.map_values(|e: (&'static str, &'static str, &'static str, i64, &'static str, i64, &'static str, Option<&'static str>)|
            (e.0@, e.1@, e.2@, e.3, e.4@, e.5, e.6@, match e.7 { Some(s) => Some(s@), None => None })) == gauge_table(),
{
    let r = vec![
        ("wall-gauge", "entities:wall", "1.0", 1i64, "m/f ratio", 2i64, "3", None),
        ("wall-gauge", "entities:wall", "0.3", 0i64, "loyalty", 2i64, "4", Some("gauge-bar-color:orange")),
        ("winterfell-gauge", "entities:winterfell", "0.7", 0i64, "m/f ratio", 2i64, "3", None),
        ("winterfell-gauge", "entities:winterfell", "0.8", 0i64, "loyalty", 2i64, "4", Some("gauge-bar-color:lime")),
        ("kings_landing-gauge", "entities:kings_landing", "0.5", 0i64, "m/f ratio", 2i64, "3", None),
        ("kings_landing-gauge", "entities:kings_landing", "0.9", 0i64, "loyalty", 2i64, "4", Some("gauge-bar-color:lime")),
    ];
    assert(r@.map_values(|e: (&'static str, &'static str, &'static str, i64, &'static str, i64, &'static str, Option<&'static str>)|
        (e.0@, e.1@, e.2@, e.3, e.4@, e.5, e.6@, match e.7 { Some(s) => Some(s@), None => None })) =~= gauge_table());
    r
}

/// Adds the labels and gauges of the places; returns the blank subjects of
/// the loyalty gauges of Winterfell and King's Landing, which
/// `loyalty_updates` changes later.
#[verifier::spinoff_prover]
#[verifier::rlimit(30)]
pub fn add_infos(plan: &mut Plan) -> (r: (usize, usize))
    requires
        old(plan).wf(),
        blank_count(old(plan).spec_actions()) + 10 <= usize::MAX,
    ensures
        final(plan).wf(),
        final(plan).spec_actions() == old(plan).spec_actions() + infos_actions(blank_count(old(plan).spec_actions())),
        r.0 == blank_count(old(plan).spec_actions()) + 7,
        r.1 == blank_count(old(plan).spec_actions()) + 9,
{
    let ghost p0 = plan.spec_actions();
    let ghost n = blank_count(p0);
    let labels = label_rows();
    let ghost lt = label_table().map_values(|t: (Seq<char>, Seq<char>, Seq<char>, i64, Seq<char>)| label_row(t));
    let mut i: usize = 0;
    assert(blank_rows_actions(n, lt.take(0)) =~= Seq::<ActionModel>::empty()) by {
        assert(lt.take(0) =~= Seq::<(Seq<char>, Seq<(Seq<char>, ObjectModel)>)>::empty());
    }
    while i < labels.len()
        invariant
            plan.wf(),
            i <= labels@.len(),
            labels@.len() == 4,
            lt.len() == 4,
            labels@.map_values(|e: (&'static str, &'static str, &'static str, i64, &'static str)| (e.0@, e.1@, e.2@, e.3, e.4@)) == label_table(),
            lt == label_table().map_values(|t: (Seq<char>, Seq<char>, Seq<char>, i64, Seq<char>)| label_row(t)),
            plan.spec_actions() == p0 + blank_rows_actions(n, lt.take(i as int)),
            n == blank_count(p0),
        decreases labels.len() - i,
    {
        let (label, target, text, level, sort_key) = labels[i];
        proof {
            let e = labels@[i as int];
            assert(labels@.map_values(|e: (&'static str, &'static str, &'static str, i64, &'static str)| (e.0@, e.1@, e.2@, e.3, e.4@))[i as int]
                == (label@, target@, text@, level, sort_key@));
            lemma_blank_rows_count(n, lt.take(i as int));
            lemma_blank_count_concat(p0, blank_rows_actions(n, lt.take(i as int)));
        }
        let entries = vec![
            (String::from_str("gnos:target"), Object::Iri(String::from_str(target))),
            (String::from_str("gnos:label"), str_object(text)),
            (String::from_str("gnos:level"), Object::Int(level)),
            (String::from_str("gnos:sort_key"), str_object(sort_key)),
        ];
        proof {
            assert(entries_view(entries@) =~= lt[i as int].1);
        }
        add_blank(plan, label, entries);
        proof {
            lemma_blank_rows_step(n, lt, i as int);
        }
        i = i + 1;
    }
    proof {
        assert(lt.take(4) =~= lt);
        lemma_blank_rows_count(n, lt);
        lemma_blank_count_concat(p0, blank_rows_actions(n, lt));
    }
    let ghost p1 = plan.spec_actions();
    let gauges = gauge_rows();
    let ghost gt = gauge_table().map_values(
        |t: (Seq<char>, Seq<char>, Seq<char>, i64, Seq<char>, i64, Seq<char>, Option<Seq<char>>)| gauge_row(t),
    );
    let mut loyalty: (usize, usize) = (0, 0);
    let mut j: usize = 0;
    assert(blank_rows_actions(n + 4, gt.take(0)) =~= Seq::<ActionModel>::empty()) by {
        assert(gt.take(0) =~= Seq::<(Seq<char>, Seq<(Seq<char>, ObjectModel)>)>::empty());
    }
    while j < gauges.len()
        invariant
            plan.wf(),
            j <= gauges@.len(),
            gauges@.len() == 6,
            gt.len() == 6,
            gauges@.map_values(|e: (&'static str, &'static str, &'static str, i64, &'static str, i64, &'static str, Option<&'static str>)|
                (e.0@, e.1@, e.2@, e.3, e.4@, e.5, e.6@, match e.7 { Some(s) => Some(s@), None => None })) == gauge_table(),
            gt == gauge_table().map_values(
                |t: (Seq<char>, Seq<char>, Seq<char>, i64, Seq<char>, i64, Seq<char>, Option<Seq<char>>)| gauge_row(t),
            ),
            plan.spec_actions() == p1 + blank_rows_actions(n + 4, gt.take(j as int)),
            blank_count(p1) == n + 4,
            n + 10 <= usize::MAX,
            j > 3 ==> loyalty.0 == n + 7,
            j > 5 ==> loyalty.1 == n + 9,
        decreases gauges.len() - j,
    {
        let (label, target, value, truncated, title, level, sort_key, style) = gauges[j];
        proof {
            assert(gauges@.map_values(|e: (&'static str, &'static str, &'static str, i64, &'static str, i64, &'static str, Option<&'static str>)|
                (e.0@, e.1@, e.2@, e.3, e.4@, e.5, e.6@, match e.7 { Some(s) => Some(s@), None => None }))[j as int]
                == (label@, target@, value@, truncated, title@, level, sort_key@, match style { Some(s) => Some(s@), None => None }));
            lemma_blank_rows_count(n + 4, gt.take(j as int));
            lemma_blank_count_concat(p1, blank_rows_actions(n + 4, gt.take(j as int)));
        }
        let mut entries = vec![
            (String::from_str("gnos:target"), Object::Iri(String::from_str(target))),
            (String::from_str("gnos:gauge"), Object::Float(JsonNumber { text: String::from_str(value), truncated })),
            (String::from_str("gnos:title"), str_object(title)),
            (String::from_str("gnos:level"), Object::Int(level)),
            (String::from_str("gnos:sort_key"), str_object(sort_key)),
        ];
        match style {
            Some(s) => entries.push((String::from_str("gnos:style"), str_object(s))),
            None => {},
        }
        proof {
            assert(entries_view(entries@) =~= gt[j as int].1);
        }
        let k = add_blank(plan, label, entries);
        if j == 3 {
            loyalty.0 = k;
        } else if j == 5 {
            loyalty.1 = k;
        }
        proof {
            lemma_blank_rows_step(n + 4, gt, j as int);
        }
        j = j + 1;
    }
    proof {
        assert(gt.take(6) =~= gt);
        assert(plan.spec_actions() =~= p0 + infos_actions(n));
    }
    loyalty
}


// ---- Details --------------------------------------------------------------------------
/// The details shown about places: blank label, place, title, text
/// (markdown or a JSON table), when it is open, sort key and key.
pub open spec fn detail_table() -> Seq<(Seq<char>, Seq<char>, Seq<char>, Seq<char>, Seq<char>, Seq<char>, Seq<char>)> {
    seq![
        ("wall-detail"@, "entities:wall"@, "Vows"@, "*Night gathers, and now my watch begins. It shall not end until my death. I shall take no wife, hold no lands, father no children. I shall wear no crowns and win no glory. I shall live and die at my post. I am the sword in the darkness. I am the watcher on the walls. I am the fire that burns against the cold, the light that brings the dawn, the horn that wakes the sleepers, the shield that guards the realms of men. I pledge my life and honor to the Night's Watch, for this night and all nights to come.*"@, "always"@, "1"@, "w1"@),
        ("kings_landing-detail"@, "entities:kings_landing"@, "King's Landing Description"@, "King's Landing is the capital of the Seven Kingdoms, located on the east coast of Westeros, overlooking Blackwater Bay. It is the site of the Iron Throne and the Red Keep, the seat of the King. The main city is surrounded by a wall, manned by the City Watch of King's Landing, also known as the Gold Cloaks. Poorer smallfolk build shanty settlements outside the city. King's Landing is extremely populous, but rather unsightly and dirty compared to other cities. The stench of the city's waste can be smelled far beyond its walls. It is the principal harbor of the Seven Kingdoms, rivaled only by Oldtown."@, "yes"@, "1"@, "a1"@),
        ("kings_landing-detail"@, "entities:kings_landing"@, "King's Landing Places"@, "- **Red Keep** The royal castle located on top of Aegon's Hill.\\n- **Great Sept of Baelor** Where the Most Devout convene with the High Septon. It is the holiest sept of the Seven. It is located on Visenya's Hill.\\n- **Dragonpit** A huge dome, now collapsed, that used to hold the Targaryen dragons. Its bronze doors have not been opened for more than a century. It is found on Rhaenys's Hill. The Street of Sisters runs between it and the Great Sept of Baelor.\\n- **Alchemist's Guildhall** Beneath Rhaenys's Hill, stretching right to the foot of Visenya's Hill, along the Street of Sisters. Beneath it is where the Alchemists create and store the wildfire.\\n- **Flea Bottom** Slum area of King's Landing, a downtrodden area of town. It has pot-shops along the alleys where one can get a `bowl o' brown.` It has a stench of pigsties and stables, tanner's sheds mixed in the smell of winesinks and whorehouses."@, "no"@, "2"@, "a2"@),
        ("winterfell-detail"@, "entities:winterfell"@, "People"@, "{
	\"style\": \"plain\",
	\"header\": [\"Name\", \"Nickname\", \"Wolf\"],
	\"rows\": [
		[\"Jon\", \"Lord\", \"Ghost\"],
		[\"Arya\", \"Underfoot\", \"Nymeria\"],
		[\"Sansa\", \"\", \"Lady\"]
	]
}"@, "always"@, "1"@, "w1"@)
    ]
}

pub open spec fn detail_row(t: (Seq<char>, Seq<char>, Seq<char>, Seq<char>, Seq<char>, Seq<char>, Seq<char>)) -> (Seq<char>, Seq<(Seq<char>, ObjectModel)>) {
    (t.0, seq![
        ("gnos:target"@, ObjectModel::Iri(t.1)),
        str_entry("gnos:title"@, t.2),
        str_entry("gnos:detail"@, t.3),
        str_entry("gnos:open"@, t.4),
        str_entry("gnos:sort_key"@, t.5),
        str_entry("gnos:key"@, t.6),
    ])
}

pub open spec fn details_actions(n: nat) -> Seq<ActionModel> {
    blank_rows_actions(n, detail_table().map_values(
        |t: (Seq<char>, Seq<char>, Seq<char>, Seq<char>, Seq<char>, Seq<char>, Seq<char>)| detail_row(t),
    ))
}

pub open spec fn rows7_view(r: Seq<(&'static str, &'static str, &'static str, &'static str, &'static str, &'static str, &'static str)>)
    -> Seq<(Seq<char>, Seq<char>, Seq<char>, Seq<char>, Seq<char>, Seq<char>, Seq<char>)>
{
    r.map_values(|e: (&'static str, &'static str, &'static str, &'static str, &'static str, &'static str, &'static str)|
        (e.0@, e.1@, e.2@, e.3@, e.4@, e.5@, e.6@))
}

fn detail_rows() -> (r: Vec<(&'static str, &'static str, &'static str, &'static str, &'static str, &'static str, &'static str)>)
    ensures
        rows7_view(r@) == detail_table(),
{
    let r = vec![
        ("wall-detail", "entities:wall", "Vows", "*Night gathers, and now my watch begins. It shall not end until my death. I shall take no wife, hold no lands, father no children. I shall wear no crowns and win no glory. I shall live and die at my post. I am the sword in the darkness. I am the watcher on the walls. I am the fire that burns against the cold, the light that brings the dawn, the horn that wakes the sleepers, the shield that guards the realms of men. I pledge my life and honor to the Night's Watch, for this night and all nights to come.*", "always", "1", "w1"),
        ("kings_landing-detail", "entities:kings_landing", "King's Landing Description", "King's Landing is the capital of the Seven Kingdoms, located on the east coast of Westeros, overlooking Blackwater Bay. It is the site of the Iron Throne and the Red Keep, the seat of the King. The main city is surrounded by a wall, manned by the City Watch of King's Landing, also known as the Gold Cloaks. Poorer smallfolk build shanty settlements outside the city. King's Landing is extremely populous, but rather unsightly and dirty compared to other cities. The stench of the city's waste can be smelled far beyond its walls. It is the principal harbor of the Seven Kingdoms, rivaled only by Oldtown.", "yes", "1", "a1"),
        ("kings_landing-detail", "entities:kings_landing", "King's Landing Places", "- **Red Keep** The royal castle located on top of Aegon's Hill.\\n- **Great Sept of Baelor** Where the Most Devout convene with the High Septon. It is the holiest sept of the Seven. It is located on Visenya's Hill.\\n- **Dragonpit** A huge dome, now collapsed, that used to hold the Targaryen dragons. Its bronze doors have not been opened for more than a century. It is found on Rhaenys's Hill. The Street of Sisters runs between it and the Great Sept of Baelor.\\n- **Alchemist's Guildhall** Beneath Rhaenys's Hill, stretching right to the foot of Visenya's Hill, along the Street of Sisters. Beneath it is where the Alchemists create and store the wildfire.\\n- **Flea Bottom** Slum area of King's Landing, a downtrodden area of town. It has pot-shops along the alleys where one can get a `bowl o' brown.` It has a stench of pigsties and stables, tanner's sheds mixed in the smell of winesinks and whorehouses.", "no", "2", "a2"),
        ("winterfell-detail", "entities:winterfell", "People", "{
	\"style\": \"plain\",
	\"header\": [\"Name\", \"Nickname\", \"Wolf\"],
	\"rows\": [
		[\"Jon\", \"Lord\", \"Ghost\"],
		[\"Arya\", \"Underfoot\", \"Nymeria\"],
		[\"Sansa\", \"\", \"Lady\"]
	]
}", "always", "1", "w1")
    ];
    assert(rows7_view(r@) =~= detail_table());
    r
}

/// Adds the details about the places.
#[verifier::spinoff_prover]
#[verifier::rlimit(30)]
pub fn add_details(plan: &mut Plan)
    requires
        old(plan).wf(),
        blank_count(old(plan).spec_actions()) + 4 <= usize::MAX,
    ensures
        final(plan).wf(),
        final(plan).spec_actions() == old(plan).spec_actions() + details_actions(blank_count(old(plan).spec_actions())),
{
    let ghost p0 = plan.spec_actions();
    let ghost n = blank_count(p0);
    let rows = detail_rows();
    let ghost dt = detail_table().map_values(
        |t: (Seq<char>, Seq<char>, Seq<char>, Seq<char>, Seq<char>, Seq<char>, Seq<char>)| detail_row(t),
    );
    let mut i: usize = 0;
    assert(blank_rows_actions(n, dt.take(0)) =~= Seq::<ActionModel>::empty()) by {
        assert(dt.take(0) =~= Seq::<(Seq<char>, Seq<(Seq<char>, ObjectModel)>)>::empty());
    }
    while i < rows.len()
        invariant
            plan.wf(),
            i <= rows@.len(),
            rows@.len() == 4,
            dt.len() == 4,
            rows7_view(rows@) == detail_table(),
            dt == detail_table().map_values(
                |t: (Seq<char>, Seq<char>, Seq<char>, Seq<char>, Seq<char>, Seq<char>, Seq<char>)| detail_row(t),
            ),
            plan.spec_actions() == p0 + blank_rows_actions(n, dt.take(i as int)),
            n == blank_count(p0),
        decreases rows.len() - i,
    {
        let (label, target, title, detail, open, sort_key, key) = rows[i];
        proof {
            assert(rows7_view(rows@)[i as int] == (label@, target@, title@, detail@, open@, sort_key@, key@));
            lemma_blank_rows_count(n, dt.take(i as int));
            lemma_blank_count_concat(p0, blank_rows_actions(n, dt.take(i as int)));
        }
        let entries = vec![
            (String::from_str("gnos:target"), Object::Iri(String::from_str(target))),
            (String::from_str("gnos:title"), str_object(title)),
            (String::from_str("gnos:detail"), str_object(detail)),
            (String::from_str("gnos:open"), str_object(open)),
            (String::from_str("gnos:sort_key"), str_object(sort_key)),
            (String::from_str("gnos:key"), str_object(key)),
        ];
        proof {
            assert(entries_view(entries@) =~= dt[i as int].1);
        }
        add_blank(plan, label, entries);
        proof {
            lemma_blank_rows_step(n, dt, i as int);
        }
        i = i + 1;
    }
    assert(dt.take(4) =~= dt);
}


// ---- Relations ------------------------------------------------------------------------
/// The statements of a label of the relation `rel`.
pub open spec fn relation_label_entries(rel: nat, text: Seq<char>, level: i64, sort_key: Seq<char>) -> Seq<(Seq<char>, ObjectModel)> {
    seq![
        ("gnos:target"@, ObjectModel::Blank(rel)),
        str_entry("gnos:label"@, text),
        ("gnos:level"@, ObjectModel::Int(level)),
        str_entry("gnos:sort_key"@, sort_key),
    ]
}

/// A label of the relation `rel` when its text is not empty: the actions
/// making it (as blank subject `k`), and the statement of the relation
/// naming it.
pub open spec fn relation_label(rel: nat, k: nat, text: Seq<char>, level: i64, sort_key: Seq<char>, pred: Seq<char>)
    -> (Seq<ActionModel>, Seq<(Seq<char>, ObjectModel)>)
{
    if text.len() > 0 {
        (
            seq![
                ActionModel::NewBlank("relation-label"@),
                ActionModel::Add(SubjectModel::Blank(k), relation_label_entries(rel, text, level, sort_key)),
            ],
            seq![(pred, ObjectModel::BlankName(k))],
        )
    } else {
        (Seq::empty(), Seq::empty())
    }
}

/// The actions adding a relation from `lhs` to `rhs` with blank subjects
/// numbered from `n`: the relation, then its middle label (`label1`) and its
/// left label (`label2`) when they are not empty, then its statements.
pub open spec fn relation_actions(n: nat, r: (Seq<char>, Seq<char>, Seq<char>, Seq<char>, Seq<char>)) -> Seq<ActionModel> {
    let l1 = relation_label(n, n + 1, r.3, 1, "1"@, "gnos:middle_infos"@);
    let k2 = if r.3.len() > 0 { n + 2 } else { n + 1 };
    let l2 = relation_label(n, k2, r.4, 2, "2"@, "gnos:left_infos"@);
    seq![ActionModel::NewBlank("relation"@)] + l1.0 + l2.0 + seq![
        ActionModel::Add(
            SubjectModel::Blank(n),
            seq![
                ("gnos:left"@, ObjectModel::Iri(r.0)),
                ("gnos:right"@, ObjectModel::Iri(r.1)),
                str_entry("gnos:style"@, r.2),
            ] + l1.1 + l2.1,
        ),
    ]
}

/// The number of blank subjects a relation makes.
pub open spec fn relation_blanks(r: (Seq<char>, Seq<char>, Seq<char>, Seq<char>, Seq<char>)) -> nat {
    1 + (if r.3.len() > 0 { 1nat } else { 0nat }) + (if r.4.len() > 0 { 1nat } else { 0nat })
}

proof fn lemma_label_blanks(rel: nat, k: nat, text: Seq<char>, level: i64, sort_key: Seq<char>, pred: Seq<char>)
    ensures
        blank_count(relation_label(rel, k, text, level, sort_key, pred).0) == if text.len() > 0 { 1nat } else { 0nat },
{
    let a = relation_label(rel, k, text, level, sort_key, pred).0;
    if text.len() > 0 {
        assert(a.drop_last().drop_last() =~= Seq::<ActionModel>::empty());
        assert(a.drop_last().last() == ActionModel::NewBlank("relation-label"@));
        assert(blank_count(a.drop_last().drop_last()) == 0);
        assert(blank_count(a.drop_last()) == 1);
    } else {
        assert(a =~= Seq::<ActionModel>::empty());
    }
}

proof fn lemma_relation_blanks(n: nat, r: (Seq<char>, Seq<char>, Seq<char>, Seq<char>, Seq<char>))
    ensures
        blank_count(relation_actions(n, r)) == relation_blanks(r),
{
    let l1 = relation_label(n, n + 1, r.3, 1, "1"@, "gnos:middle_infos"@);
    let k2 = if r.3.len() > 0 { n + 2 } else { n + 1 };
    let l2 = relation_label(n, k2, r.4, 2, "2"@, "gnos:left_infos"@);
    let first = seq![ActionModel::NewBlank("relation"@)];
    let last = seq![ActionModel::Add(
        SubjectModel::Blank(n),
        seq![("gnos:left"@, ObjectModel::Iri(r.0)), ("gnos:right"@, ObjectModel::Iri(r.1)), str_entry("gnos:style"@, r.2)] + l1.1 + l2.1,
    )];
    lemma_label_blanks(n, n + 1, r.3, 1, "1"@, "gnos:middle_infos"@);
    lemma_label_blanks(n, k2, r.4, 2, "2"@, "gnos:left_infos"@);
    assert(first.drop_last() =~= Seq::<ActionModel>::empty());
    assert(first.last() == ActionModel::NewBlank("relation"@));
    assert(blank_count(first.drop_last()) == 0);
    assert(blank_count(first) == 1);
    assert(last.drop_last() =~= Seq::<ActionModel>::empty());
    assert(blank_count(last) == 0);
    lemma_blank_count_concat(first, l1.0);
    lemma_blank_count_concat(first + l1.0, l2.0);
    lemma_blank_count_concat(first + l1.0 + l2.0, last);
}

fn add_relation_label(plan: &mut Plan, rel: usize, text: &str, level: i64, sort_key: &str, pred: &str,
    entries: &mut Vec<(String, Object)>)
    requires
        old(plan).wf(),
        rel < blank_count(old(plan).spec_actions()),
        blank_count(old(plan).spec_actions()) + 1 <= usize::MAX,
    ensures
        final(plan).wf(),
        ({
            let l = relation_label(rel as nat, blank_count(old(plan).spec_actions()), text@, level, sort_key@, pred@);
            &&& final(plan).spec_actions() == old(plan).spec_actions() + l.0
            &&& entries_view(final(entries)@) == entries_view(old(entries)@) + l.1
        }),
{
    let ghost l = relation_label(rel as nat, blank_count(plan.spec_actions()), text@, level, sort_key@, pred@);
    if !text.is_empty() {
        let sub = vec![
            (String::from_str("gnos:target"), Object::Blank(rel)),
            (String::from_str("gnos:label"), str_object(text)),
            (String::from_str("gnos:level"), Object::Int(level)),
            (String::from_str("gnos:sort_key"), str_object(sort_key)),
        ];
        proof {
            assert(entries_view(sub@) =~= relation_label_entries(rel as nat, text@, level, sort_key@));
            assert forall|i: int| 0 <= i < sub@.len() implies object_refs_ok(#[trigger] entries_view(sub@)[i].1, blank_count(old(plan).spec_actions())) by {
                assert(entries_view(sub@)[i] == relation_label_entries(rel as nat, text@, level, sort_key@)[i]);
            }
        }
        let k = add_blank(plan, "relation-label", sub);
        let ghost before = entries_view(entries@);
        entries.push((String::from_str(pred), Object::BlankName(k)));
        proof {
            assert(entries_view(entries@) =~= before + l.1);
        }
    } else {
        proof {
            assert(plan.spec_actions() =~= old(plan).spec_actions() + l.0);
            assert(entries_view(entries@) =~= entries_view(old(entries)@) + l.1);
        }
    }
}

proof fn lemma_refs_concat(a: Seq<(Seq<char>, ObjectModel)>, b: Seq<(Seq<char>, ObjectModel)>, n: nat)
    requires
        forall|i: int| 0 <= i < a.len() ==> object_refs_ok(#[trigger] a[i].1, n),
        forall|i: int| 0 <= i < b.len() ==> object_refs_ok(#[trigger] b[i].1, n),
    ensures
        forall|i: int| 0 <= i < (a + b).len() ==> object_refs_ok(#[trigger] (a + b)[i].1, n),
{
    assert forall|i: int| 0 <= i < (a + b).len() implies object_refs_ok(#[trigger] (a + b)[i].1, n) by {
        if i < a.len() {
            assert((a + b)[i] == a[i]);
        } else {
            assert((a + b)[i] == b[i - a.len()]);
        }
    }
}

/// Adds a relation from `lhs` to `rhs` (see `relation_actions`).
#[verifier::spinoff_prover]
#[verifier::rlimit(30)]
pub fn add_relation(plan: &mut Plan, lhs: &str, rhs: &str, style: &str, label1: &str, label2: &str)
    requires
        old(plan).wf(),
        blank_count(old(plan).spec_actions()) + 3 <= usize::MAX,
    ensures
        final(plan).wf(),
        final(plan).spec_actions() == old(plan).spec_actions()
            + relation_actions(blank_count(old(plan).spec_actions()), (lhs@, rhs@, style@, label1@, label2@)),
{
    let ghost p0 = plan.spec_actions();
    let ghost n = blank_count(p0);
    let relation = plan.new_blank(String::from_str("relation"));
    let ghost p1 = plan.spec_actions();
    proof {
        assert(p1.drop_last() == p0);
        assert(p1.last() == ActionModel::NewBlank("relation"@));
        assert(blank_count(p1) == n + 1);
    }
    let mut entries = vec![
        (String::from_str("gnos:left"), Object::Iri(String::from_str(lhs))),
        (String::from_str("gnos:right"), Object::Iri(String::from_str(rhs))),
        (String::from_str("gnos:style"), str_object(style)),
    ];
    let ghost e0 = entries_view(entries@);
    assert(e0 =~= seq![("gnos:left"@, ObjectModel::Iri(lhs@)), ("gnos:right"@, ObjectModel::Iri(rhs@)), str_entry("gnos:style"@, style@)]);
    let ghost l1 = relation_label(n, n + 1, label1@, 1, "1"@, "gnos:middle_infos"@);
    add_relation_label(plan, relation, label1, 1, "1", "gnos:middle_infos", &mut entries);
    let ghost p2 = plan.spec_actions();
    let ghost k2 = if label1@.len() > 0 { n + 2 } else { n + 1 };
    proof {
        lemma_label_blanks(n, n + 1, label1@, 1, "1"@, "gnos:middle_infos"@);
        lemma_blank_count_concat(p1, l1.0);
        assert(blank_count(p2) == k2);
    }
    let ghost l2 = relation_label(n, k2, label2@, 2, "2"@, "gnos:left_infos"@);
    add_relation_label(plan, relation, label2, 2, "2", "gnos:left_infos", &mut entries);
    let ghost p3 = plan.spec_actions();
    proof {
        lemma_label_blanks(n, k2, label2@, 2, "2"@, "gnos:left_infos"@);
        lemma_blank_count_concat(p2, l2.0);
        assert(blank_count(p3) <= n + 3);
        let ev = entries_view(entries@);
        assert(ev =~= e0 + l1.1 + l2.1);
        let m = blank_count(p3);
        assert(blank_count(l2.0) == if label2@.len() > 0 { 1nat } else { 0nat });
        assert(m == k2 + blank_count(l2.0));
        assert forall|i: int| 0 <= i < e0.len() implies object_refs_ok(#[trigger] e0[i].1, m) by {}
        assert forall|i: int| 0 <= i < l1.1.len() implies object_refs_ok(#[trigger] l1.1[i].1, m) by {
            assert(l1.1[i].1 == ObjectModel::BlankName(n + 1));
        }
        assert forall|i: int| 0 <= i < l2.1.len() implies object_refs_ok(#[trigger] l2.1[i].1, m) by {
            assert(l2.1[i].1 == ObjectModel::BlankName(k2));
        }
        lemma_refs_concat(e0, l1.1, m);
        lemma_refs_concat(e0 + l1.1, l2.1, m);
        assert forall|i: int| 0 <= i < entries@.len() implies object_refs_ok(#[trigger] entries_view(entries@)[i].1, m) by {
            assert(entries_view(entries@)[i] == ev[i]);
        }
        assert(relation == n);
        assert(p3 =~= p0 + seq![ActionModel::NewBlank("relation"@)] + l1.0 + l2.0);
    }
    let ghost ev = entries_view(entries@);
    plan.push(Action::Add(Subject::Blank(relation), entries));
    proof {
        assert(plan.spec_actions() =~= p0 + relation_actions(n, (lhs@, rhs@, style@, label1@, label2@)));
    }
}

/// The relations between places: left, right, style, middle label and left
/// label (empty for none).
pub open spec fn relation_table() -> Seq<(Seq<char>, Seq<char>, Seq<char>, Seq<char>, Seq<char>)> {
    seq![
        ("entities:wall"@, "entities:winterfell"@, "line-type:normal"@, ""@, ""@),
        ("entities:winterfell"@, "entities:hornwood"@, "line-type:normal"@, ""@, ""@),
        ("entities:hornwood"@, "entities:dreadfort"@, "line-type:normal"@, ""@, ""@),
        ("entities:dreadfort"@, "entities:karhold"@, "line-type:normal"@, ""@, ""@),
        ("entities:winterfell"@, "entities:white_harbor"@, "line-type:normal"@, ""@, ""@),
        ("entities:white_harbor"@, "entities:moat_cailin"@, "line-type:normal"@, ""@, ""@),
        ("entities:winterfell"@, "entities:moat_cailin"@, "line-type:normal"@, ""@, ""@),
        ("entities:moat_cailin"@, "entities:harenhal"@, "line-width:3 line-color:purple line-type:normal"@, "king's road"@, "straight and true"@),
        ("entities:harenhal"@, "entities:kings_landing"@, "line-width:3 line-color:purple line-type:normal"@, "king's road"@, "straight and true"@),
        ("entities:kings_landing"@, "entities:lannisport"@, "line-width:3 line-type:normal"@, "gold road"@, ""@),
        ("entities:lannisport"@, "entities:crakehall"@, "line-type:normal"@, ""@, ""@),
        ("entities:lannisport"@, "entities:clegane_hall"@, "line-type:normal"@, ""@, ""@),
        ("entities:kings_landing"@, "entities:highgarden"@, "line-width:3 line-type:normal"@, "rose road"@, ""@),
        ("entities:highgarden"@, "entities:oldtown"@, "line-type:normal"@, ""@, ""@)
    ]
}

/// The actions adding the relations of a table, with blank subjects
/// numbered from `n`.
pub open spec fn relations_actions(n: nat, t: Seq<(Seq<char>, Seq<char>, Seq<char>, Seq<char>, Seq<char>)>) -> Seq<ActionModel>
    decreases t.len(),
{
    if t.len() == 0 {
        Seq::empty()
    } else {
        let prev = relations_actions(n, t.drop_last());
        prev + relation_actions(n + blank_count(prev), t.last())
    }
}

proof fn lemma_relations_blanks(n: nat, t: Seq<(Seq<char>, Seq<char>, Seq<char>, Seq<char>, Seq<char>)>)
    ensures
        blank_count(relations_actions(n, t)) <= 3 * t.len(),
    decreases t.len(),
{
    if t.len() > 0 {
        let prev = relations_actions(n, t.drop_last());
        lemma_relations_blanks(n, t.drop_last());
        lemma_relation_blanks(n + blank_count(prev), t.last());
        lemma_blank_count_concat(prev, relation_actions(n + blank_count(prev), t.last()));
    }
}

pub open spec fn rows5_view(r: Seq<(&'static str, &'static str, &'static str, &'static str, &'static str)>)
    -> Seq<(Seq<char>, Seq<char>, Seq<char>, Seq<char>, Seq<char>)>
{
    r.map_values(|e: (&'static str, &'static str, &'static str, &'static str, &'static str)| (e.0@, e.1@, e.2@, e.3@, e.4@))
}

fn relation_rows() -> (r: Vec<(&'static str, &'static str, &'static str, &'static str, &'static str)>)
    ensures
        rows5_view(r@) == relation_table(),
{
    let r = vec![
        ("entities:wall", "entities:winterfell", "line-type:normal", "", ""),
        ("entities:winterfell", "entities:hornwood", "line-type:normal", "", ""),
        ("entities:hornwood", "entities:dreadfort", "line-type:normal", "", ""),
        ("entities:dreadfort", "entities:karhold", "line-type:normal", "", ""),
        ("entities:winterfell", "entities:white_harbor", "line-type:normal", "", ""),
        ("entities:white_harbor", "entities:moat_cailin", "line-type:normal", "", ""),
        ("entities:winterfell", "entities:moat_cailin", "line-type:normal", "", ""),
        ("entities:moat_cailin", "entities:harenhal", "line-width:3 line-color:purple line-type:normal", "king's road", "straight and true"),
        ("entities:harenhal", "entities:kings_landing", "line-width:3 line-color:purple line-type:normal", "king's road", "straight and true"),
        ("entities:kings_landing", "entities:lannisport", "line-width:3 line-type:normal", "gold road", ""),
        ("entities:lannisport", "entities:crakehall", "line-type:normal", "", ""),
        ("entities:lannisport", "entities:clegane_hall", "line-type:normal", "", ""),
        ("entities:kings_landing", "entities:highgarden", "line-width:3 line-type:normal", "rose road", ""),
        ("entities:highgarden", "entities:oldtown", "line-type:normal", "", "")
    ];
    assert(rows5_view(r@) =~= relation_table());
    r
}

/// Adds the relations between the places.
#[verifier::spinoff_prover]
#[verifier::rlimit(30)]
pub fn add_relations(plan: &mut Plan)
    requires
        old(plan).wf(),
        blank_count(old(plan).spec_actions()) + 42 <= usize::MAX,
    ensures
        final(plan).wf(),
        final(plan).spec_actions() == old(plan).spec_actions()
            + relations_actions(blank_count(old(plan).spec_actions()), relation_table()),
{
    let ghost p0 = plan.spec_actions();
    let ghost n = blank_count(p0);
    let rows = relation_rows();
    let ghost t = relation_table();
    assert(rows5_view(rows@).len() == rows@.len());
    let mut i: usize = 0;
    assert(t.take(0) =~= Seq::<(Seq<char>, Seq<char>, Seq<char>, Seq<char>, Seq<char>)>::empty());
    while i < rows.len()
        invariant
            plan.wf(),
            i <= rows@.len(),
            rows@.len() == 14,
            rows5_view(rows@) == t,
            t == relation_table(),
            plan.spec_actions() == p0 + relations_actions(n, t.take(i as int)),
            n == blank_count(p0),
            n + 42 <= usize::MAX,
        decreases rows.len() - i,
    {
        let (lhs, rhs, style, label1, label2) = rows[i];
        proof {
            assert(rows5_view(rows@)[i as int] == (lhs@, rhs@, style@, label1@, label2@));
            lemma_relations_blanks(n, t.take(i as int));
            lemma_blank_count_concat(p0, relations_actions(n, t.take(i as int)));
            assert(t.take(i + 1).drop_last() =~= t.take(i as int));
        }
        add_relation(plan, lhs, rhs, style, label1, label2);
        i = i + 1;
    }
    assert(t.take(14) =~= t);
}


// ---- The whole store ------------------------------------------------------------------
proof fn lemma_entities_no_blanks(t: Seq<(Seq<char>, Seq<char>, Seq<char>)>)
    ensures
        blank_count(entities_actions(t)) == 0,
    decreases t.len(),
{
    if t.len() > 0 {
        assert(entities_actions(t).drop_last() =~= entities_actions(t.drop_last()));
        lemma_entities_no_blanks(t.drop_last());
    }
}

/// The actions filling the store, with blank subjects numbered from `n`:
/// the globals, the places, their labels and gauges, the relations between
/// them and their details.
pub open spec fn got_actions(n: nat, poll_rate: u16) -> Seq<ActionModel> {
    let rels = relations_actions(n + 10, relation_table());
    seq![globals_action(poll_rate)] + entities_actions(entity_table()) + infos_actions(n)
        + rels + details_actions(n + 10 + blank_count(rels))
}

/// Fills the store; returns the blank subjects of the loyalty gauges of
/// Winterfell and King's Landing.
#[verifier::spinoff_prover]
#[verifier::rlimit(30)]
pub fn add_got(plan: &mut Plan, poll_rate: u16) -> (r: (usize, usize))
    requires
        old(plan).wf(),
        blank_count(old(plan).spec_actions()) + 60 <= usize::MAX,
    ensures
        final(plan).wf(),
        final(plan).spec_actions() == old(plan).spec_actions() + got_actions(blank_count(old(plan).spec_actions()), poll_rate),
        r.0 == blank_count(old(plan).spec_actions()) + 7,
        r.1 == blank_count(old(plan).spec_actions()) + 9,
{
    let ghost p0 = plan.spec_actions();
    let ghost n = blank_count(p0);
    add_globals(plan, poll_rate);
    add_entities(plan);
    let ghost p2 = plan.spec_actions();
    proof {
        let g = seq![globals_action(poll_rate)];
        assert(g.drop_last() =~= Seq::<ActionModel>::empty());
        assert(blank_count(g.drop_last()) == 0);
        assert(!(g.last() is NewBlank));
        assert(blank_count(g) == 0);
        lemma_entities_no_blanks(entity_table());
        lemma_blank_count_concat(p0, g);
        assert(p0.push(globals_action(poll_rate)) =~= p0 + g);
        lemma_blank_count_concat(p0 + g, entities_actions(entity_table()));
        assert(p2 =~= p0 + g + entities_actions(entity_table()));
        assert(blank_count(p2) == n);
    }
    let r = add_infos(plan);
    let ghost p3 = plan.spec_actions();
    proof {
        let lt = label_table().map_values(|t: (Seq<char>, Seq<char>, Seq<char>, i64, Seq<char>)| label_row(t));
        let gt = gauge_table().map_values(
            |t: (Seq<char>, Seq<char>, Seq<char>, i64, Seq<char>, i64, Seq<char>, Option<Seq<char>>)| gauge_row(t),
        );
        lemma_blank_rows_count(n, lt);
        lemma_blank_rows_count(n + 4, gt);
        lemma_blank_count_concat(blank_rows_actions(n, lt), blank_rows_actions(n + 4, gt));
        lemma_blank_count_concat(p2, infos_actions(n));
        assert(blank_count(p3) == n + 10);
    }
    add_relations(plan);
    let ghost p4 = plan.spec_actions();
    proof {
        let rels = relations_actions(n + 10, relation_table());
        lemma_relations_blanks(n + 10, relation_table());
        lemma_blank_count_concat(p3, rels);
        assert(blank_count(p4) == n + 10 + blank_count(rels));
    }
    add_details(plan);
    proof {
        assert(plan.spec_actions() =~= p0 + got_actions(n, poll_rate));
    }
    r
}

/// The new state of a loyalty gauge.
#[derive(Debug)]
pub struct Loyalty {
    /// The name of the gauge's blank subject.
    pub subject: String,
    pub value: JsonNumber,
    pub style: String,
    pub level: i64,
}

/// The updates of the two loyalty gauges: first both values, then the level
/// and style of each.
pub open spec fn loyalty_actions(w: Loyalty, k: Loyalty) -> Seq<ActionModel> {
    seq![
        ActionModel::Replace(SubjectModel::Named(w.subject@), "gnos:gauge"@, ObjectModel::Float(w.value.text@, w.value.truncated)),
        ActionModel::Replace(SubjectModel::Named(k.subject@), "gnos:gauge"@, ObjectModel::Float(k.value.text@, k.value.truncated)),
        ActionModel::Replace(SubjectModel::Named(w.subject@), "gnos:level"@, ObjectModel::Int(w.level)),
        ActionModel::Replace(SubjectModel::Named(w.subject@), "gnos:style"@, ObjectModel::Str(w.style@, Seq::empty())),
        ActionModel::Replace(SubjectModel::Named(k.subject@), "gnos:level"@, ObjectModel::Int(k.level)),
        ActionModel::Replace(SubjectModel::Named(k.subject@), "gnos:style"@, ObjectModel::Str(k.style@, Seq::empty())),
    ]
}

fn named(s: &String) -> (r: Subject)
    ensures
        r@ == SubjectModel::Named(s@),
{
    Subject::Named(String::from_str(s.as_str()))
}

/// The updates of the loyalty gauges of Winterfell (`w`) and King's Landing
/// (`k`) (see `loyalty_actions`).
pub fn loyalty_updates(w: &Loyalty, k: &Loyalty) -> (r: Vec<Action>)
    ensures
        plan_view(r@) == loyalty_actions(*w, *k),
{
    let r = vec![
        Action::Replace(named(&w.subject), String::from_str("gnos:gauge"), Object::Float(crate::json::copy_number(&w.value))),
        Action::Replace(named(&k.subject), String::from_str("gnos:gauge"), Object::Float(crate::json::copy_number(&k.value))),
        Action::Replace(named(&w.subject), String::from_str("gnos:level"), Object::Int(w.level)),
        Action::Replace(named(&w.subject), String::from_str("gnos:style"), str_object(w.style.as_str())),
        Action::Replace(named(&k.subject), String::from_str("gnos:level"), Object::Int(k.level)),
        Action::Replace(named(&k.subject), String::from_str("gnos:style"), str_object(k.style.as_str())),
    ];
    assert(plan_view(r@) =~= loyalty_actions(*w, *k));
    r
}

// ---- Alerts ---------------------------------------------------------------------------
/// An alert opened (with target, id, level, message and resolution) or
/// closed (with target and id).
pub open spec fn alert_action(t: (bool, Seq<char>, Seq<char>, Seq<char>, Seq<char>, Seq<char>)) -> ActionModel {
    if t.0 {
        ActionModel::OpenAlert(AlertModel { target: t.1, id: t.2, mesg: t.4, resolution: t.5, level: t.3 })
    } else {
        ActionModel::CloseAlert(t.1, t.2)
    }
}

/// The alerts about the map as a whole.
pub open spec fn container_alert_table() -> Seq<(bool, Seq<char>, Seq<char>, Seq<char>, Seq<char>, Seq<char>)> {
    seq![
        (true, "gnos:container"@, "m1"@, "error"@, "Detonation in 5s"@, "Cut the blue wire."@),
        (true, "gnos:container"@, "m2"@, "warning"@, "Approaching critical mass"@, "Reduce mass."@),
        (true, "gnos:container"@, "m3"@, "error"@, "Electrons are leaking"@, "Call a plumber."@),
        (false, "gnos:container"@, "m3"@, ""@, ""@, ""@)
    ]
}

/// The alerts about the places, with alerts closed, reopened, and opened
/// twice.
pub open spec fn entity_alert_table() -> Seq<(bool, Seq<char>, Seq<char>, Seq<char>, Seq<char>, Seq<char>)> {
    seq![
        (true, "entities:wall"@, "wa1"@, "error"@, "Night is falling."@, "I am the fire that burns against the cold."@),
        (true, "entities:winterfell"@, "w1"@, "error"@, "The ocean is rising."@, "Call King Canute."@),
        (true, "entities:winterfell"@, "w2"@, "error"@, "Ghosts walk the grounds."@, "Who you going to call?"@),
        (true, "entities:winterfell"@, "w3"@, "warning"@, "Winter is coming."@, "Increase the stores."@),
        (true, "entities:winterfell"@, "w4"@, "info"@, "Bran stubbed his toe."@, "Call the Maester."@),
        (true, "entities:winterfell"@, "w5"@, "error"@, "A deserter from the Wall was found."@, "Chop his head off."@),
        (false, "entities:winterfell"@, "w5"@, ""@, ""@, ""@),
        (false, "entities:winterfell"@, "w2"@, ""@, ""@, ""@),
        (true, "entities:winterfell"@, "w2"@, "error"@, "More ghosts walk the grounds."@, "Who you going to call?"@),
        (true, "entities:winterfell"@, "w1"@, "error"@, "Shouldn't see this."@, "Call tech support."@)
    ]
}

pub open spec fn alerts_actions(t: Seq<(bool, Seq<char>, Seq<char>, Seq<char>, Seq<char>, Seq<char>)>) -> Seq<ActionModel> {
    t.map_values(|a: (bool, Seq<char>, Seq<char>, Seq<char>, Seq<char>, Seq<char>)| alert_action(a))
}

pub open spec fn alert_rows_view(r: Seq<(bool, &'static str, &'static str, &'static str, &'static str, &'static str)>)
    -> Seq<(bool, Seq<char>, Seq<char>, Seq<char>, Seq<char>, Seq<char>)>
{
    r.map_values(|e: (bool, &'static str, &'static str, &'static str, &'static str, &'static str)| (e.0, e.1@, e.2@, e.3@, e.4@, e.5@))
}

fn alert_actions_of(rows: &Vec<(bool, &'static str, &'static str, &'static str, &'static str, &'static str)>) -> (r: Vec<Action>)
    ensures
        plan_view(r@) == alerts_actions(alert_rows_view(rows@)),
{
    let ghost t = alert_rows_view(rows@);
    let mut r: Vec<Action> = Vec::new();
    let mut i: usize = 0;
    while i < rows.len()
        invariant
            i <= rows@.len(),
            t == alert_rows_view(rows@),
            plan_view(r@) == alerts_actions(t.take(i as int)),
        decreases rows.len() - i,
    {
        let (open, target, id, level, mesg, resolution) = rows[i];
        proof {
            assert(t[i as int] == (open, target@, id@, level@, mesg@, resolution@));
        }
        let a = if open {
            Action::OpenAlert(Alert {
                target: String::from_str(target),
                id: String::from_str(id),
                mesg: String::from_str(mesg),
                resolution: String::from_str(resolution),
                level: String::from_str(level),
            })
        } else {
            Action::CloseAlert(String::from_str(target), String::from_str(id))
        };
        let ghost before = plan_view(r@);
        r.push(a);
        proof {
            assert(plan_view(r@) =~= before.push(a@));
            assert(alerts_actions(t.take(i + 1)) =~= alerts_actions(t.take(i as int)).push(alert_action(t[i as int])));
        }
        i = i + 1;
    }
    assert(t.take(t.len() as int) =~= t);
    r
}

/// The two batches of alerts: those about the map as a whole, then those
/// about the places.
pub fn add_alerts() -> (r: (Vec<Action>, Vec<Action>))
    ensures
        plan_view(r.0@) == alerts_actions(container_alert_table()),
        plan_view(r.1@) == alerts_actions(entity_alert_table()),
{
    let container = vec![
        (true, "gnos:container", "m1", "error", "Detonation in 5s", "Cut the blue wire."),
        (true, "gnos:container", "m2", "warning", "Approaching critical mass", "Reduce mass."),
        (true, "gnos:container", "m3", "error", "Electrons are leaking", "Call a plumber."),
        (false, "gnos:container", "m3", "", "", "")
    ];
    assert(alert_rows_view(container@) =~= container_alert_table());
    let entities = vec![
        (true, "entities:wall", "wa1", "error", "Night is falling.", "I am the fire that burns against the cold."),
        (true, "entities:winterfell", "w1", "error", "The ocean is rising.", "Call King Canute."),
        (true, "entities:winterfell", "w2", "error", "Ghosts walk the grounds.", "Who you going to call?"),
        (true, "entities:winterfell", "w3", "warning", "Winter is coming.", "Increase the stores."),
        (true, "entities:winterfell", "w4", "info", "Bran stubbed his toe.", "Call the Maester."),
        (true, "entities:winterfell", "w5", "error", "A deserter from the Wall was found.", "Chop his head off."),
        (false, "entities:winterfell", "w5", "", "", ""),
        (false, "entities:winterfell", "w2", "", "", ""),
        (true, "entities:winterfell", "w2", "error", "More ghosts walk the grounds.", "Who you going to call?"),
        (true, "entities:winterfell", "w1", "error", "Shouldn't see this.", "Call tech support.")
    ];
    assert(alert_rows_view(entities@) =~= entity_alert_table());
    (alert_actions_of(&container), alert_actions_of(&entities))
}

} // verus!
