//! Turns the json that modelers PUT into updates of the primary store: the
//! entities, labels, gauges, details, relations and alerts they describe,
//! and the samples and charts to record.
use vstd::prelude::*;
use crate::json::{Json, JsonError, JsonErrorModel, JsonNumber, field_result, str_field, opt_str_field,
    int_field, number_field, strs_field, get_str, get_i64, get_number, get_strs, check_strs, optional_str,
    optional_object, optional_list, has_value, texts};
use crate::statements::{Object, ObjectModel, Subject, SubjectModel, Action, ActionModel, Plan,
    entries_view, blank_count, copy_object, lemma_blank_count_concat};
use crate::model::{Alert, AlertModel};

verus! {

/// The number of samples kept for each sample set: an hour's worth at a fast
/// poll rate (20s); slower poll rates retain correspondingly longer spans.
pub const SAMPLES_CAPACITY: usize = 180;


// ---- Specifications ------------------------------------------------------------------
pub open spec fn str_obj(s: Seq<char>) -> ObjectModel {
    ObjectModel::Str(s, Seq::empty())
}

/// The statement naming the modeler that made a subject, if there is one.
pub open spec fn modeler_part(modeler: Option<ObjectModel>) -> Seq<(Seq<char>, ObjectModel)> {
    match modeler {
        Some(o) => seq![("gnos:modeler-subject"@, o)],
        None => Seq::empty(),
    }
}

/// A string statement when the value is there.
pub open spec fn opt_entry(pred: Seq<char>, v: Option<Seq<char>>) -> Seq<(Seq<char>, ObjectModel)> {
    match v {
        Some(s) => seq![(pred, str_obj(s))],
        None => Seq::empty(),
    }
}

pub open spec fn opt_string_view(o: Option<String>) -> Option<Seq<char>> {
    match o {
        Some(x) => Some(x@),
        None => None,
    }
}

pub open spec fn opt_object_view(o: Option<Object>) -> Option<ObjectModel> {
    match o {
        Some(x) => Some(x@),
        None => None,
    }
}

/// The modeler object may not refer to a blank subject of the plan.
pub open spec fn modeler_ok(modeler: Option<ObjectModel>) -> bool {
    !(modeler matches Some(ObjectModel::Blank(_))) && !(modeler matches Some(ObjectModel::BlankName(_)))
}

/// The update for an entity: `entities:ID` is named by its label, with an
/// optional style and predicate.
pub open spec fn entity_update(modeler: Option<ObjectModel>, object: Json) -> Result<Seq<ActionModel>, JsonErrorModel> {
    match str_field(object, "label"@) {
        Err(e) => Err(e),
        Ok(label) => match str_field(object, "id"@) {
            Err(e) => Err(e),
            Ok(id) => Ok(seq![ActionModel::Add(
                SubjectModel::Named("entities:"@ + id),
                modeler_part(modeler) + seq![("gnos:entity"@, str_obj(label))]
                    + opt_entry("gnos:style"@, opt_str_field(object, "style"@))
                    + opt_entry("gnos:predicate"@, opt_str_field(object, "predicate"@)),
            )]),
        },
    }
}

/// The update for a label of an entity: a new blank subject `n`.
pub open spec fn label_update(modeler: Option<ObjectModel>, n: nat, object: Json) -> Result<Seq<ActionModel>, JsonErrorModel> {
    match str_field(object, "target-id"@) {
        Err(e) => Err(e),
        Ok(target) => match str_field(object, "label"@) {
            Err(e) => Err(e),
            Ok(label) => match int_field(object, "level"@) {
                Err(e) => Err(e),
                Ok(level) => match str_field(object, "sort-key"@) {
                    Err(e) => Err(e),
                    Ok(sort_key) => Ok(seq![
                        ActionModel::NewBlank("label"@),
                        ActionModel::Add(
                            SubjectModel::Blank(n),
                            modeler_part(modeler) + seq![
                                ("gnos:target"@, ObjectModel::Iri(target)),
                                ("gnos:label"@, str_obj(label)),
                                ("gnos:level"@, ObjectModel::Int(level)),
                                ("gnos:sort_key"@, str_obj(sort_key)),
                            ] + opt_entry("gnos:style"@, opt_str_field(object, "style"@))
                                + opt_entry("gnos:predicate"@, opt_str_field(object, "predicate"@)),
                        ),
                    ]),
                },
            },
        },
    }
}

/// The update for a gauge of an entity: a new blank subject `n`.
pub open spec fn gauge_update(modeler: Option<ObjectModel>, n: nat, object: Json) -> Result<Seq<ActionModel>, JsonErrorModel> {
    match str_field(object, "entity-id"@) {
        Err(e) => Err(e),
        Ok(target) => match number_field(object, "value"@) {
            Err(e) => Err(e),
            Ok(value) => match str_field(object, "label"@) {
                Err(e) => Err(e),
                Ok(title) => match int_field(object, "level"@) {
                    Err(e) => Err(e),
                    Ok(level) => match str_field(object, "sort-key"@) {
                        Err(e) => Err(e),
                        Ok(sort_key) => Ok(seq![
                            ActionModel::NewBlank("gauge"@),
                            ActionModel::Add(
                                SubjectModel::Blank(n),
                                modeler_part(modeler) + seq![
                                    ("gnos:target"@, ObjectModel::Iri(target)),
                                    ("gnos:gauge"@, ObjectModel::Float(value.0, value.1)),
                                    ("gnos:title"@, str_obj(title)),
                                    ("gnos:level"@, ObjectModel::Int(level)),
                                    ("gnos:sort_key"@, str_obj(sort_key)),
                                ] + opt_entry("gnos:style"@, opt_str_field(object, "style"@))
                                    + opt_entry("gnos:predicate"@, opt_str_field(object, "predicate"@)),
                            ),
                        ]),
                    },
                },
            },
        },
    }
}

/// The update for a detail of an entity: a new blank subject `n`.
pub open spec fn detail_update(modeler: Option<ObjectModel>, n: nat, object: Json) -> Result<Seq<ActionModel>, JsonErrorModel> {
    match str_field(object, "entity-id"@) {
        Err(e) => Err(e),
        Ok(target) => match str_field(object, "label"@) {
            Err(e) => Err(e),
            Ok(title) => match str_field(object, "detail"@) {
                Err(e) => Err(e),
                Ok(detail) => match str_field(object, "open"@) {
                    Err(e) => Err(e),
                    Ok(open) => match str_field(object, "sort-key"@) {
                        Err(e) => Err(e),
                        Ok(sort_key) => match str_field(object, "id"@) {
                            Err(e) => Err(e),
                            Ok(key) => Ok(seq![
                                ActionModel::NewBlank("detail"@),
                                ActionModel::Add(
                                    SubjectModel::Blank(n),
                                    modeler_part(modeler) + seq![
                                        ("gnos:target"@, ObjectModel::Iri(target)),
                                        ("gnos:title"@, str_obj(title)),
                                        ("gnos:detail"@, str_obj(detail)),
                                        ("gnos:open"@, str_obj(open)),
                                        ("gnos:sort_key"@, str_obj(sort_key)),
                                        ("gnos:key"@, str_obj(key)),
                                    ],
                                ),
                            ]),
                        },
                    },
                },
            },
        },
    }
}

/// The update for the label at `position` ("left", "middle" or "right") of a
/// relation whose blank subject is `target`: when the relation has an object
/// `POSITION-label`, a new blank subject `k` for the label, and the statement
/// linking the relation to it.
pub open spec fn relation_label_update(
    modeler: Option<ObjectModel>,
    target: nat,
    k: nat,
    object: Json,
    position: Seq<char>,
) -> Result<(Seq<ActionModel>, Seq<(Seq<char>, ObjectModel)>), JsonErrorModel> {
    match field_result(object, position + "-label"@) {
        Ok(sub) => if sub is Object {
            match str_field(sub, "label"@) {
                Err(e) => Err(e),
                Ok(label) => match int_field(sub, "level"@) {
                    Err(e) => Err(e),
                    Ok(level) => Ok((
                        seq![
                            ActionModel::NewBlank("label"@),
                            ActionModel::Add(
                                SubjectModel::Blank(k),
                                modeler_part(modeler) + seq![
                                    ("gnos:target"@, ObjectModel::Blank(target)),
                                    ("gnos:label"@, str_obj(label)),
                                    ("gnos:level"@, ObjectModel::Int(level)),
                                    ("gnos:sort_key"@, str_obj("a"@)),
                                ] + opt_entry("gnos:style"@, opt_str_field(sub, "style"@)),
                            ),
                        ],
                        seq![("gnos:"@ + position + "_info"@, ObjectModel::Blank(k))],
                    )),
                },
            }
        } else {
            Ok((Seq::empty(), Seq::empty()))
        },
        Err(_) => Ok((Seq::empty(), Seq::empty())),
    }
}

/// The update for a relation between two entities: a new blank subject `n`
/// for the relation, then its left, middle and right labels.
pub open spec fn relation_update(modeler: Option<ObjectModel>, n: nat, object: Json) -> Result<Seq<ActionModel>, JsonErrorModel> {
    match str_field(object, "left-entity-id"@) {
        Err(e) => Err(e),
        Ok(left) => match str_field(object, "right-entity-id"@) {
            Err(e) => Err(e),
            Ok(right) => match relation_label_update(modeler, n, n + 1, object, "left"@) {
                Err(e) => Err(e),
                Ok(l) => {
                    let k2 = n + 1 + blank_count(l.0);
                    match relation_label_update(modeler, n, k2, object, "middle"@) {
                        Err(e) => Err(e),
                        Ok(m) => {
                            let k3 = k2 + blank_count(m.0);
                            match relation_label_update(modeler, n, k3, object, "right"@) {
                                Err(e) => Err(e),
                                Ok(r) => Ok(seq![ActionModel::NewBlank("relation"@)] + l.0 + m.0 + r.0 + seq![
                                    ActionModel::Add(
                                        SubjectModel::Blank(n),
                                        modeler_part(modeler) + seq![
                                            ("gnos:left"@, ObjectModel::Iri(left)),
                                            ("gnos:right"@, ObjectModel::Iri(right)),
                                        ] + opt_entry("gnos:style"@, opt_str_field(object, "style"@)) + l.1 + m.1
                                            + r.1,
                                    ),
                                ]),
                            }
                        },
                    }
                },
            },
        },
    }
}

/// The update for an alert: opened when it has a message, else closed.
pub open spec fn alert_update(object: Json) -> Result<Seq<ActionModel>, JsonErrorModel> {
    if field_result(object, "mesg"@) is Ok {
        match str_field(object, "entity-id"@) {
            Err(e) => Err(e),
            Ok(target) => match str_field(object, "key"@) {
                Err(e) => Err(e),
                Ok(id) => match str_field(object, "mesg"@) {
                    Err(e) => Err(e),
                    Ok(mesg) => match str_field(object, "resolution"@) {
                        Err(e) => Err(e),
                        Ok(resolution) => match str_field(object, "kind"@) {
                            Err(e) => Err(e),
                            Ok(level) => Ok(seq![ActionModel::OpenAlert(AlertModel { target, id, mesg, resolution, level })]),
                        },
                    },
                },
            },
        }
    } else {
        match str_field(object, "entity-id"@) {
            Err(e) => Err(e),
            Ok(target) => match str_field(object, "key"@) {
                Err(e) => Err(e),
                Ok(id) => Ok(seq![ActionModel::CloseAlert(target, id)]),
            },
        }
    }
}

/// An alert item opens or closes the alert its own fields name: with a
/// message it opens exactly one alert whose target is the item's
/// "entity-id", whose id is its "key", and whose message, resolution and
/// level are its "mesg", "resolution" and "kind"; without one it closes the
/// alert of that target and id. Each of these fields must be a string.
pub proof fn lemma_alert_from_fields(object: Json)
    ensures
        alert_update(object) is Ok <==> {
            &&& str_field(object, "entity-id"@) is Ok
            &&& str_field(object, "key"@) is Ok
            &&& field_result(object, "mesg"@) is Ok ==> {
                &&& str_field(object, "mesg"@) is Ok
                &&& str_field(object, "resolution"@) is Ok
                &&& str_field(object, "kind"@) is Ok
            }
        },
        alert_update(object) is Ok && field_result(object, "mesg"@) is Ok ==> alert_update(object)->Ok_0 == seq![
            ActionModel::OpenAlert(AlertModel {
                target: str_field(object, "entity-id"@)->Ok_0,
                id: str_field(object, "key"@)->Ok_0,
                mesg: str_field(object, "mesg"@)->Ok_0,
                resolution: str_field(object, "resolution"@)->Ok_0,
                level: str_field(object, "kind"@)->Ok_0,
            }),
        ],
        alert_update(object) is Ok && !(field_result(object, "mesg"@) is Ok) ==> alert_update(object)->Ok_0 == seq![
            ActionModel::CloseAlert(str_field(object, "entity-id"@)->Ok_0, str_field(object, "key"@)->Ok_0),
        ],
{
}

/// Whether action `a` adds statements about `subject` that include
/// predicate `p` with object `o`.
pub open spec fn adds_statement(a: ActionModel, subject: SubjectModel, p: Seq<char>, o: ObjectModel) -> bool {
    a matches ActionModel::Add(s, es) && s == subject && es.contains((p, o))
}

/// An entity item describes the entity its own "id" names: the subject is
/// `entities:` followed by the id, and its `gnos:entity` statement holds the
/// item's "label".
pub proof fn lemma_entity_from_fields(modeler: Option<ObjectModel>, object: Json)
    ensures
        entity_update(modeler, object) is Ok ==> ({
            let acts = entity_update(modeler, object)->Ok_0;
            &&& acts.len() == 1
            &&& adds_statement(acts[0], SubjectModel::Named("entities:"@ + str_field(object, "id"@)->Ok_0),
                "gnos:entity"@, str_obj(str_field(object, "label"@)->Ok_0))
        }),
{
    if entity_update(modeler, object) is Ok {
        let es = modeler_part(modeler) + seq![("gnos:entity"@, str_obj(str_field(object, "label"@)->Ok_0))]
            + opt_entry("gnos:style"@, opt_str_field(object, "style"@))
            + opt_entry("gnos:predicate"@, opt_str_field(object, "predicate"@));
        let k = modeler_part(modeler).len() as int;
        assert(es[k] == ("gnos:entity"@, str_obj(str_field(object, "label"@)->Ok_0)));
        assert(es.contains(es[k]));
    }
}

/// A label item makes a new subject whose statements give the item's
/// "target-id" as `gnos:target`, its "label" as `gnos:label`, its "level" as
/// `gnos:level` and its "sort-key" as `gnos:sort_key`.
pub proof fn lemma_label_from_fields(modeler: Option<ObjectModel>, n: nat, object: Json)
    ensures
        label_update(modeler, n, object) is Ok ==> ({
            let acts = label_update(modeler, n, object)->Ok_0;
            let subject = SubjectModel::Blank(n);
            &&& acts.len() == 2
            &&& acts[0] is NewBlank
            &&& adds_statement(acts[1], subject, "gnos:target"@, ObjectModel::Iri(str_field(object, "target-id"@)->Ok_0))
            &&& adds_statement(acts[1], subject, "gnos:label"@, str_obj(str_field(object, "label"@)->Ok_0))
            &&& adds_statement(acts[1], subject, "gnos:level"@, ObjectModel::Int(int_field(object, "level"@)->Ok_0))
            &&& adds_statement(acts[1], subject, "gnos:sort_key"@, str_obj(str_field(object, "sort-key"@)->Ok_0))
        }),
{
    if label_update(modeler, n, object) is Ok {
        let mid = seq![
            ("gnos:target"@, ObjectModel::Iri(str_field(object, "target-id"@)->Ok_0)),
            ("gnos:label"@, str_obj(str_field(object, "label"@)->Ok_0)),
            ("gnos:level"@, ObjectModel::Int(int_field(object, "level"@)->Ok_0)),
            ("gnos:sort_key"@, str_obj(str_field(object, "sort-key"@)->Ok_0)),
        ];
        let es = modeler_part(modeler) + mid + opt_entry("gnos:style"@, opt_str_field(object, "style"@))
            + opt_entry("gnos:predicate"@, opt_str_field(object, "predicate"@));
        let k = modeler_part(modeler).len() as int;
        assert forall|i: int| 0 <= i < 4 implies es.contains(#[trigger] mid[i]) by {
            assert(es[k + i] == mid[i]);
        }
        assert(mid[0] == ("gnos:target"@, ObjectModel::Iri(str_field(object, "target-id"@)->Ok_0)));
        assert(mid[1] == ("gnos:label"@, str_obj(str_field(object, "label"@)->Ok_0)));
        assert(mid[2] == ("gnos:level"@, ObjectModel::Int(int_field(object, "level"@)->Ok_0)));
        assert(mid[3] == ("gnos:sort_key"@, str_obj(str_field(object, "sort-key"@)->Ok_0)));
    }
}

/// A gauge item makes a new subject whose statements give the item's
/// "entity-id" as `gnos:target`, its "value" as `gnos:gauge`, its "label" as
/// `gnos:title`, its "level" as `gnos:level` and its "sort-key" as
/// `gnos:sort_key`.
pub proof fn lemma_gauge_from_fields(modeler: Option<ObjectModel>, n: nat, object: Json)
    ensures
        gauge_update(modeler, n, object) is Ok ==> ({
            let acts = gauge_update(modeler, n, object)->Ok_0;
            let subject = SubjectModel::Blank(n);
            let value = number_field(object, "value"@)->Ok_0;
            &&& acts.len() == 2
            &&& acts[0] is NewBlank
            &&& adds_statement(acts[1], subject, "gnos:target"@, ObjectModel::Iri(str_field(object, "entity-id"@)->Ok_0))
            &&& adds_statement(acts[1], subject, "gnos:gauge"@, ObjectModel::Float(value.0, value.1))
            &&& adds_statement(acts[1], subject, "gnos:title"@, str_obj(str_field(object, "label"@)->Ok_0))
            &&& adds_statement(acts[1], subject, "gnos:level"@, ObjectModel::Int(int_field(object, "level"@)->Ok_0))
            &&& adds_statement(acts[1], subject, "gnos:sort_key"@, str_obj(str_field(object, "sort-key"@)->Ok_0))
        }),
{
    if gauge_update(modeler, n, object) is Ok {
        let value = number_field(object, "value"@)->Ok_0;
        let mid = seq![
            ("gnos:target"@, ObjectModel::Iri(str_field(object, "entity-id"@)->Ok_0)),
            ("gnos:gauge"@, ObjectModel::Float(value.0, value.1)),
            ("gnos:title"@, str_obj(str_field(object, "label"@)->Ok_0)),
            ("gnos:level"@, ObjectModel::Int(int_field(object, "level"@)->Ok_0)),
            ("gnos:sort_key"@, str_obj(str_field(object, "sort-key"@)->Ok_0)),
        ];
        let es = modeler_part(modeler) + mid + opt_entry("gnos:style"@, opt_str_field(object, "style"@))
            + opt_entry("gnos:predicate"@, opt_str_field(object, "predicate"@));
        let k = modeler_part(modeler).len() as int;
        assert forall|i: int| 0 <= i < 5 implies es.contains(#[trigger] mid[i]) by {
            assert(es[k + i] == mid[i]);
        }
        assert(mid[0] == ("gnos:target"@, ObjectModel::Iri(str_field(object, "entity-id"@)->Ok_0)));
        assert(mid[1] == ("gnos:gauge"@, ObjectModel::Float(value.0, value.1)));
        assert(mid[2] == ("gnos:title"@, str_obj(str_field(object, "label"@)->Ok_0)));
        assert(mid[3] == ("gnos:level"@, ObjectModel::Int(int_field(object, "level"@)->Ok_0)));
        assert(mid[4] == ("gnos:sort_key"@, str_obj(str_field(object, "sort-key"@)->Ok_0)));
    }
}

/// A detail item makes a new subject whose statements give the item's
/// "entity-id" as `gnos:target`, its "label" as `gnos:title`, its "detail",
/// "open" and "sort-key" as `gnos:detail`, `gnos:open` and `gnos:sort_key`,
/// and its "id" as `gnos:key`.
pub proof fn lemma_detail_from_fields(modeler: Option<ObjectModel>, n: nat, object: Json)
    ensures
        detail_update(modeler, n, object) is Ok ==> ({
            let acts = detail_update(modeler, n, object)->Ok_0;
            let subject = SubjectModel::Blank(n);
            &&& acts.len() == 2
            &&& acts[0] is NewBlank
            &&& adds_statement(acts[1], subject, "gnos:target"@, ObjectModel::Iri(str_field(object, "entity-id"@)->Ok_0))
            &&& adds_statement(acts[1], subject, "gnos:title"@, str_obj(str_field(object, "label"@)->Ok_0))
            &&& adds_statement(acts[1], subject, "gnos:detail"@, str_obj(str_field(object, "detail"@)->Ok_0))
            &&& adds_statement(acts[1], subject, "gnos:open"@, str_obj(str_field(object, "open"@)->Ok_0))
            &&& adds_statement(acts[1], subject, "gnos:sort_key"@, str_obj(str_field(object, "sort-key"@)->Ok_0))
            &&& adds_statement(acts[1], subject, "gnos:key"@, str_obj(str_field(object, "id"@)->Ok_0))
        }),
{
    if detail_update(modeler, n, object) is Ok {
        let mid = seq![
            ("gnos:target"@, ObjectModel::Iri(str_field(object, "entity-id"@)->Ok_0)),
            ("gnos:title"@, str_obj(str_field(object, "label"@)->Ok_0)),
            ("gnos:detail"@, str_obj(str_field(object, "detail"@)->Ok_0)),
            ("gnos:open"@, str_obj(str_field(object, "open"@)->Ok_0)),
            ("gnos:sort_key"@, str_obj(str_field(object, "sort-key"@)->Ok_0)),
            ("gnos:key"@, str_obj(str_field(object, "id"@)->Ok_0)),
        ];
        let es = modeler_part(modeler) + mid;
        let k = modeler_part(modeler).len() as int;
        assert forall|i: int| 0 <= i < 6 implies es.contains(#[trigger] mid[i]) by {
            assert(es[k + i] == mid[i]);
        }
        assert(mid[0] == ("gnos:target"@, ObjectModel::Iri(str_field(object, "entity-id"@)->Ok_0)));
        assert(mid[1] == ("gnos:title"@, str_obj(str_field(object, "label"@)->Ok_0)));
        assert(mid[2] == ("gnos:detail"@, str_obj(str_field(object, "detail"@)->Ok_0)));
        assert(mid[3] == ("gnos:open"@, str_obj(str_field(object, "open"@)->Ok_0)));
        assert(mid[4] == ("gnos:sort_key"@, str_obj(str_field(object, "sort-key"@)->Ok_0)));
        assert(mid[5] == ("gnos:key"@, str_obj(str_field(object, "id"@)->Ok_0)));
    }
}

/// A relation item makes a new subject whose last statements give the
/// item's "left-entity-id" as `gnos:left` and its "right-entity-id" as
/// `gnos:right`.
pub proof fn lemma_relation_from_fields(modeler: Option<ObjectModel>, n: nat, object: Json)
    ensures
        relation_update(modeler, n, object) is Ok ==> ({
            let acts = relation_update(modeler, n, object)->Ok_0;
            let subject = SubjectModel::Blank(n);
            &&& acts.len() >= 2
            &&& acts[0] is NewBlank
            &&& adds_statement(acts.last(), subject, "gnos:left"@, ObjectModel::Iri(str_field(object, "left-entity-id"@)->Ok_0))
            &&& adds_statement(acts.last(), subject, "gnos:right"@, ObjectModel::Iri(str_field(object, "right-entity-id"@)->Ok_0))
        }),
{
    if relation_update(modeler, n, object) is Ok {
        let left = ("gnos:left"@, ObjectModel::Iri(str_field(object, "left-entity-id"@)->Ok_0));
        let right = ("gnos:right"@, ObjectModel::Iri(str_field(object, "right-entity-id"@)->Ok_0));
        let acts = relation_update(modeler, n, object)->Ok_0;
        let l = relation_label_update(modeler, n, n + 1, object, "left"@)->Ok_0;
        let k2 = n + 1 + blank_count(l.0);
        let m = relation_label_update(modeler, n, k2, object, "middle"@)->Ok_0;
        let k3 = k2 + blank_count(m.0);
        let r = relation_label_update(modeler, n, k3, object, "right"@)->Ok_0;
        let es = modeler_part(modeler) + seq![left, right] + opt_entry("gnos:style"@, opt_str_field(object, "style"@))
            + l.1 + m.1 + r.1;
        let last = ActionModel::Add(SubjectModel::Blank(n), es);
        assert(acts == seq![ActionModel::NewBlank("relation"@)] + l.0 + m.0 + r.0 + seq![last]);
        assert(acts.last() == last);
        assert(acts[0] == ActionModel::NewBlank("relation"@));
        let k = modeler_part(modeler).len() as int;
        assert(es[k] == left);
        assert(es[k + 1] == right);
        assert(es.contains(left));
        assert(es.contains(right));
    }
}

/// The kinds of lists a modeler sends that update the store.
#[derive(Clone, Copy, Debug, PartialEq, Eq)]
pub enum ItemKind {
    Entity,
    Label,
    Gauge,
    Detail,
    Relation,
    Alert,
}

/// The update for one item of a list, when the plan has made `n` blank
/// subjects so far.
pub open spec fn item_update(kind: ItemKind, modeler: Option<ObjectModel>, n: nat, object: Json) -> Result<Seq<ActionModel>, JsonErrorModel> {
    match kind {
        ItemKind::Entity => entity_update(modeler, object),
        ItemKind::Label => label_update(modeler, n, object),
        ItemKind::Gauge => gauge_update(modeler, n, object),
        ItemKind::Detail => detail_update(modeler, n, object),
        ItemKind::Relation => relation_update(modeler, n, object),
        ItemKind::Alert => alert_update(object),
    }
}

/// The updates for the items of a list, in order, when the plan has made
/// `start` blank subjects before them, up to the first item that is
/// malformed (and why it is).
pub open spec fn list_updates(kind: ItemKind, modeler: Option<ObjectModel>, start: nat, items: Seq<Json>) -> (Seq<ActionModel>, Option<JsonErrorModel>)
    decreases items.len(),
{
    if items.len() == 0 {
        (Seq::empty(), None)
    } else {
        let (acts, err) = list_updates(kind, modeler, start, items.drop_last());
        if err is Some {
            (acts, err)
        } else {
            match item_update(kind, modeler, start + blank_count(acts), items.last()) {
                Ok(a) => (acts + a, None),
                Err(e) => (acts, Some(e)),
            }
        }
    }
}

// ---- Building entries -----------------------------------------------------------------
fn push_entry(entries: &mut Vec<(String, Object)>, pred: &str, obj: Object)
    ensures
        entries_view(final(entries)@) == entries_view(old(entries)@).push((pred@, obj@)),
{
    let ghost o = obj@;
    entries.push((String::from_str(pred), obj));
    assert(entries_view(entries@) =~= entries_view(old(entries)@).push((pred@, o)));
}

fn push_modeler(entries: &mut Vec<(String, Object)>, modeler: &Option<Object>)
    ensures
        entries_view(final(entries)@) == entries_view(old(entries)@) + modeler_part(opt_object_view(*modeler)),
{
    match modeler {
        Some(m) => {
            push_entry(entries, "gnos:modeler-subject", copy_object(m));
        },
        None => {
            assert(entries_view(entries@) =~= entries_view(old(entries)@) + modeler_part(opt_object_view(*modeler)));
        },
    }
}

fn push_opt_str(entries: &mut Vec<(String, Object)>, pred: &str, value: Option<String>)
    ensures
        entries_view(final(entries)@) == entries_view(old(entries)@) + opt_entry(pred@, opt_string_view(value)),
{
    match value {
        Some(s) => {
            let ghost sv = s@;
            push_entry(entries, pred, Object::Str(s, String::new()));
            assert(entries_view(entries@) =~= entries_view(old(entries)@) + opt_entry(pred@, Some(sv)));
        },
        None => {
            assert(entries_view(entries@) =~= entries_view(old(entries)@) + opt_entry(pred@, None));
        },
    }
}

pub open spec fn no_blanks(e: Seq<(Seq<char>, ObjectModel)>) -> bool {
    forall|i: int| 0 <= i < e.len() ==> (!(#[trigger] e[i].1 is Blank) && !(e[i].1 is BlankName))
}

/// The result of adding one item: the plan grows by the item's update, or
/// is left as it was when the item is malformed.
pub open spec fn item_added(
    update: Result<Seq<ActionModel>, JsonErrorModel>,
    r: Result<(), JsonError>,
    before: Seq<ActionModel>,
    after: Seq<ActionModel>,
) -> bool {
    match update {
        Ok(a) => r is Ok && after == before + a,
        Err(e) => r matches Err(x) && x@ == e && after == before,
    }
}

proof fn lemma_push_add(before: Seq<ActionModel>, a: ActionModel)
    ensures
        before.push(a) == before + seq![a],
{
    assert(before.push(a) =~= before + seq![a]);
}

/// Adds the statements for an entity (see `entity_update`).
#[verifier::spinoff_prover]
#[verifier::rlimit(30)]
pub fn add_entity(plan: &mut Plan, modeler: &Option<Object>, object: &Json) -> (r: Result<(), JsonError>)
    requires
        old(plan).wf(),
        modeler_ok(opt_object_view(*modeler)),
    ensures
        final(plan).wf(),
        item_added(entity_update(opt_object_view(*modeler), *object), r, old(plan).spec_actions(), final(plan).spec_actions()),
{
    let label = get_str(object, "label")?;
    let ghost lv = label@;
    let mut entries: Vec<(String, Object)> = Vec::new();
    push_modeler(&mut entries, modeler);
    push_entry(&mut entries, "gnos:entity", Object::Str(label, String::new()));
    push_opt_str(&mut entries, "gnos:style", optional_str(object, "style"));
    push_opt_str(&mut entries, "gnos:predicate", optional_str(object, "predicate"));
    let id = get_str(object, "id")?;
    let mut subject = String::from_str("entities:");
    subject.append(id.as_str());
    let ghost ev = entries_view(entries@);
    proof {
        assert(ev =~= modeler_part(opt_object_view(*modeler)) + seq![("gnos:entity"@, str_obj(lv))]
            + opt_entry("gnos:style"@, opt_str_field(*object, "style"@))
            + opt_entry("gnos:predicate"@, opt_str_field(*object, "predicate"@)));
        assert(no_blanks(ev));
    }
    let a = Action::Add(Subject::Named(subject), entries);
    plan.push(a);
    proof {
        lemma_push_add(old(plan).spec_actions(), a@);
    }
    Ok(())
}


/// Adds `entries` about a new blank subject labelled `label`.
fn add_blank(plan: &mut Plan, label: &str, entries: Vec<(String, Object)>) -> (r: usize)
    requires
        old(plan).wf(),
        forall|i: int| 0 <= i < entries@.len() ==> crate::statements::object_refs_ok(
            #[trigger] entries_view(entries@)[i].1,
            blank_count(old(plan).spec_actions()),
        ),
    ensures
        final(plan).wf(),
        r == blank_count(old(plan).spec_actions()),
        final(plan).spec_actions() == old(plan).spec_actions() + seq![
            ActionModel::NewBlank(label@),
            ActionModel::Add(SubjectModel::Blank(r as nat), entries_view(entries@)),
        ],
{
    let ghost before = plan.spec_actions();
    let n = plan.new_blank(String::from_str(label));
    let ghost mid = plan.spec_actions();
    let a = Action::Add(Subject::Blank(n), entries);
    proof {
        assert(blank_count(mid) == blank_count(before) + 1) by {
            assert(mid.drop_last() == before);
        }
        assert forall|i: int| 0 <= i < entries_view(entries@).len() implies crate::statements::object_refs_ok(
            #[trigger] entries_view(entries@)[i].1,
            blank_count(mid),
        ) by {
            assert(entries_view(entries@).len() == entries@.len());
        }
    }
    plan.push(a);
    assert(plan.spec_actions() =~= before + seq![
        ActionModel::NewBlank(label@),
        ActionModel::Add(SubjectModel::Blank(n as nat), entries_view(entries@)),
    ]);
    n
}

/// Adds the statements for a label of an entity (see `label_update`).
#[verifier::spinoff_prover]
#[verifier::rlimit(30)]
pub fn add_label(plan: &mut Plan, modeler: &Option<Object>, object: &Json) -> (r: Result<(), JsonError>)
    requires
        old(plan).wf(),
        modeler_ok(opt_object_view(*modeler)),
    ensures
        final(plan).wf(),
        item_added(
            label_update(opt_object_view(*modeler), blank_count(old(plan).spec_actions()), *object),
            r,
            old(plan).spec_actions(),
            final(plan).spec_actions(),
        ),
{
    let target = get_str(object, "target-id")?;
    let label = get_str(object, "label")?;
    let level = get_i64(object, "level")?;
    let sort_key = get_str(object, "sort-key")?;
    let ghost (tv, lv, sv) = (target@, label@, sort_key@);
    let mut entries: Vec<(String, Object)> = Vec::new();
    push_modeler(&mut entries, modeler);
    push_entry(&mut entries, "gnos:target", Object::Iri(target));
    push_entry(&mut entries, "gnos:label", Object::Str(label, String::new()));
    push_entry(&mut entries, "gnos:level", Object::Int(level));
    push_entry(&mut entries, "gnos:sort_key", Object::Str(sort_key, String::new()));
    push_opt_str(&mut entries, "gnos:style", optional_str(object, "style"));
    push_opt_str(&mut entries, "gnos:predicate", optional_str(object, "predicate"));
    proof {
        let ev = entries_view(entries@);
        assert(ev =~= modeler_part(opt_object_view(*modeler)) + seq![
            ("gnos:target"@, ObjectModel::Iri(tv)),
            ("gnos:label"@, str_obj(lv)),
            ("gnos:level"@, ObjectModel::Int(level)),
            ("gnos:sort_key"@, str_obj(sv)),
        ] + opt_entry("gnos:style"@, opt_str_field(*object, "style"@))
            + opt_entry("gnos:predicate"@, opt_str_field(*object, "predicate"@)));
        assert(no_blanks(ev));
    }
    add_blank(plan, "label", entries);
    Ok(())
}

/// Adds the statements for a gauge of an entity (see `gauge_update`).
#[verifier::spinoff_prover]
#[verifier::rlimit(30)]
pub fn add_gauge(plan: &mut Plan, modeler: &Option<Object>, object: &Json) -> (r: Result<(), JsonError>)
    requires
        old(plan).wf(),
        modeler_ok(opt_object_view(*modeler)),
    ensures
        final(plan).wf(),
        item_added(
            gauge_update(opt_object_view(*modeler), blank_count(old(plan).spec_actions()), *object),
            r,
            old(plan).spec_actions(),
            final(plan).spec_actions(),
        ),
{
    let target = get_str(object, "entity-id")?;
    let value = get_number(object, "value")?;
    let title = get_str(object, "label")?;
    let level = get_i64(object, "level")?;
    let sort_key = get_str(object, "sort-key")?;
    let ghost (tv, vv, lv, sv) = (target@, (value.text@, value.truncated), title@, sort_key@);
    let mut entries: Vec<(String, Object)> = Vec::new();
    push_modeler(&mut entries, modeler);
    push_entry(&mut entries, "gnos:target", Object::Iri(target));
    push_entry(&mut entries, "gnos:gauge", Object::Float(value));
    push_entry(&mut entries, "gnos:title", Object::Str(title, String::new()));
    push_entry(&mut entries, "gnos:level", Object::Int(level));
    push_entry(&mut entries, "gnos:sort_key", Object::Str(sort_key, String::new()));
    push_opt_str(&mut entries, "gnos:style", optional_str(object, "style"));
    push_opt_str(&mut entries, "gnos:predicate", optional_str(object, "predicate"));
    proof {
        let ev = entries_view(entries@);
        assert(ev =~= modeler_part(opt_object_view(*modeler)) + seq![
            ("gnos:target"@, ObjectModel::Iri(tv)),
            ("gnos:gauge"@, ObjectModel::Float(vv.0, vv.1)),
            ("gnos:title"@, str_obj(lv)),
            ("gnos:level"@, ObjectModel::Int(level)),
            ("gnos:sort_key"@, str_obj(sv)),
        ] + opt_entry("gnos:style"@, opt_str_field(*object, "style"@))
            + opt_entry("gnos:predicate"@, opt_str_field(*object, "predicate"@)));
        assert(no_blanks(ev));
    }
    add_blank(plan, "gauge", entries);
    Ok(())
}

/// Adds the statements for a detail of an entity (see `detail_update`).
#[verifier::spinoff_prover]
#[verifier::rlimit(30)]
pub fn add_detail(plan: &mut Plan, modeler: &Option<Object>, object: &Json) -> (r: Result<(), JsonError>)
    requires
        old(plan).wf(),
        modeler_ok(opt_object_view(*modeler)),
    ensures
        final(plan).wf(),
        item_added(
            detail_update(opt_object_view(*modeler), blank_count(old(plan).spec_actions()), *object),
            r,
            old(plan).spec_actions(),
            final(plan).spec_actions(),
        ),
{
    let target = get_str(object, "entity-id")?;
    let title = get_str(object, "label")?;
    let detail = get_str(object, "detail")?;
    let open = get_str(object, "open")?;
    let sort_key = get_str(object, "sort-key")?;
    let key = get_str(object, "id")?;
    let ghost (tv, lv, dv, ov, sv, kv) = (target@, title@, detail@, open@, sort_key@, key@);
    let mut entries: Vec<(String, Object)> = Vec::new();
    push_modeler(&mut entries, modeler);
    push_entry(&mut entries, "gnos:target", Object::Iri(target));
    push_entry(&mut entries, "gnos:title", Object::Str(title, String::new()));
    push_entry(&mut entries, "gnos:detail", Object::Str(detail, String::new()));
    push_entry(&mut entries, "gnos:open", Object::Str(open, String::new()));
    push_entry(&mut entries, "gnos:sort_key", Object::Str(sort_key, String::new()));
    push_entry(&mut entries, "gnos:key", Object::Str(key, String::new()));
    proof {
        let ev = entries_view(entries@);
        assert(ev =~= modeler_part(opt_object_view(*modeler)) + seq![
            ("gnos:target"@, ObjectModel::Iri(tv)),
            ("gnos:title"@, str_obj(lv)),
            ("gnos:detail"@, str_obj(dv)),
            ("gnos:open"@, str_obj(ov)),
            ("gnos:sort_key"@, str_obj(sv)),
            ("gnos:key"@, str_obj(kv)),
        ]);
        assert(no_blanks(ev));
    }
    add_blank(plan, "detail", entries);
    Ok(())
}

/// Adds or closes an alert (see `alert_update`).
#[verifier::spinoff_prover]
#[verifier::rlimit(30)]
pub fn add_alert(plan: &mut Plan, object: &Json) -> (r: Result<(), JsonError>)
    requires
        old(plan).wf(),
    ensures
        final(plan).wf(),
        item_added(alert_update(*object), r, old(plan).spec_actions(), final(plan).spec_actions()),
{
    let a = if has_value(object, "mesg") {
        let target = get_str(object, "entity-id")?;
        let id = get_str(object, "key")?;
        let mesg = get_str(object, "mesg")?;
        let resolution = get_str(object, "resolution")?;
        let level = get_str(object, "kind")?;
        Action::OpenAlert(Alert { target, id, mesg, resolution, level })
    } else {
        let target = get_str(object, "entity-id")?;
        let id = get_str(object, "key")?;
        Action::CloseAlert(target, id)
    };
    plan.push(a);
    proof {
        lemma_push_add(old(plan).spec_actions(), a@);
    }
    Ok(())
}


/// The blank subjects made by a label of a relation.
proof fn lemma_label_blanks(a: ActionModel, b: ActionModel)
    requires
        a is NewBlank,
        !(b is NewBlank),
    ensures
        blank_count(seq![a, b]) == 1,
{
    let s = seq![a, b];
    let s1 = seq![a];
    let s0 = Seq::<ActionModel>::empty();
    assert(s.drop_last() =~= s1);
    assert(s1.drop_last() =~= s0);
    assert(blank_count(s0) == 0);
    assert(blank_count(s1) == blank_count(s0) + 1);
    assert(s.last() == b);
    assert(blank_count(s) == blank_count(s1));
}

/// The fields of the label at `position` of a relation: its text, level and
/// optional style; none when the relation has no such label.
fn relation_label_fields(object: &Json, position: &str) -> (r: Result<Option<(String, i64, Option<String>)>, JsonError>)
    ensures
        match r {
            Err(x) => forall|mo: Option<ObjectModel>, t: nat, k: nat|
                #[trigger] relation_label_update(mo, t, k, *object, position@) == Err::<(Seq<ActionModel>, Seq<(Seq<char>, ObjectModel)>), JsonErrorModel>(x@),
            Ok(None) => forall|mo: Option<ObjectModel>, t: nat, k: nat|
                #[trigger] relation_label_update(mo, t, k, *object, position@) == Ok::<(Seq<ActionModel>, Seq<(Seq<char>, ObjectModel)>), JsonErrorModel>((Seq::empty(), Seq::empty())),
            Ok(Some((label, level, style))) => field_result(*object, position@ + "-label"@) matches Ok(sub) && sub is Object
                && str_field(sub, "label"@) == Ok::<Seq<char>, JsonErrorModel>(label@)
                && int_field(sub, "level"@) == Ok::<i64, JsonErrorModel>(level)
                && opt_str_field(sub, "style"@) == opt_string_view(style),
        },
{
    let mut key = String::from_str(position);
    key.append("-label");
    match optional_object(object, key.as_str()) {
        Some(sub) => {
            let label = get_str(sub, "label")?;
            let level = get_i64(sub, "level")?;
            let style = optional_str(sub, "style");
            Ok(Some((label, level, style)))
        },
        None => Ok(None),
    }
}

/// Adds the label at `position` of the relation whose blank subject is
/// `target`, and the statement linking the relation to it.
#[verifier::spinoff_prover]
#[verifier::rlimit(30)]
fn add_relation_label(
    plan: &mut Plan,
    modeler: &Option<Object>,
    target: usize,
    fields: Option<(String, i64, Option<String>)>,
    position: &str,
    entries: &mut Vec<(String, Object)>,
)
    requires
        old(plan).wf(),
        modeler_ok(opt_object_view(*modeler)),
        target < blank_count(old(plan).spec_actions()),
        forall|i: int| 0 <= i < old(entries)@.len() ==> crate::statements::object_refs_ok(
            #[trigger] entries_view(old(entries)@)[i].1,
            blank_count(old(plan).spec_actions()),
        ),
    ensures
        final(plan).wf(),
        forall|i: int| 0 <= i < final(entries)@.len() ==> crate::statements::object_refs_ok(
            #[trigger] entries_view(final(entries)@)[i].1,
            blank_count(final(plan).spec_actions()),
        ),
        blank_count(final(plan).spec_actions()) >= blank_count(old(plan).spec_actions()),
        match fields {
            None => final(plan).spec_actions() == old(plan).spec_actions() && entries_view(final(entries)@) == entries_view(old(entries)@),
            Some((label, level, style)) => {
                let k = blank_count(old(plan).spec_actions());
                let sub = modeler_part(opt_object_view(*modeler)) + seq![
                    ("gnos:target"@, ObjectModel::Blank(target as nat)),
                    ("gnos:label"@, str_obj(label@)),
                    ("gnos:level"@, ObjectModel::Int(level)),
                    ("gnos:sort_key"@, str_obj("a"@)),
                ] + opt_entry("gnos:style"@, opt_string_view(style));
                &&& final(plan).spec_actions() == old(plan).spec_actions() + seq![
                    ActionModel::NewBlank("label"@),
                    ActionModel::Add(SubjectModel::Blank(k), sub),
                ]
                &&& entries_view(final(entries)@) == entries_view(old(entries)@).push(("gnos:"@ + position@ + "_info"@, ObjectModel::Blank(k)))
            },
        },
{
    match fields {
        Some((label, level, style)) => {
            let ghost lv = label@;
            let ghost st = opt_string_view(style);
            let mut sub: Vec<(String, Object)> = Vec::new();
            push_modeler(&mut sub, modeler);
            push_entry(&mut sub, "gnos:target", Object::Blank(target));
            push_entry(&mut sub, "gnos:label", Object::Str(label, String::new()));
            push_entry(&mut sub, "gnos:level", Object::Int(level));
            let a = String::from_str("a");
            push_entry(&mut sub, "gnos:sort_key", Object::Str(a, String::new()));
            push_opt_str(&mut sub, "gnos:style", style);
            proof {
                let sv = entries_view(sub@);
                assert(sv =~= modeler_part(opt_object_view(*modeler)) + seq![
                    ("gnos:target"@, ObjectModel::Blank(target as nat)),
                    ("gnos:label"@, str_obj(lv)),
                    ("gnos:level"@, ObjectModel::Int(level)),
                    ("gnos:sort_key"@, str_obj("a"@)),
                ] + opt_entry("gnos:style"@, st));
                assert forall|i: int| 0 <= i < sub@.len() implies crate::statements::object_refs_ok(
                    #[trigger] entries_view(sub@)[i].1,
                    blank_count(old(plan).spec_actions()),
                ) by {
                    assert(entries_view(sub@).len() == sub@.len());
                }
            }
            let ghost before = plan.spec_actions();
            let k = add_blank(plan, "label", sub);
            let mut info = String::from_str("gnos:");
            info.append(position);
            info.append("_info");
            push_entry(entries, info.as_str(), Object::Blank(k));
            proof {
                lemma_blank_count_concat(before, seq![
                    ActionModel::NewBlank("label"@),
                    ActionModel::Add(SubjectModel::Blank(k as nat), entries_view(sub@)),
                ]);
                lemma_label_blanks(ActionModel::NewBlank("label"@), ActionModel::Add(SubjectModel::Blank(k as nat), entries_view(sub@)));
                assert forall|i: int| 0 <= i < entries@.len() implies crate::statements::object_refs_ok(
                    #[trigger] entries_view(entries@)[i].1,
                    blank_count(plan.spec_actions()),
                ) by {
                    if i < old(entries)@.len() {
                        assert(entries_view(entries@)[i] == entries_view(old(entries)@)[i]);
                    } else {
                        assert(entries_view(entries@).len() == entries@.len());
                        assert(entries_view(old(entries)@).len() == old(entries)@.len());
                        assert(i == entries_view(old(entries)@).len());
                        assert(entries_view(entries@)[i].1 == ObjectModel::Blank(k as nat));
                    }
                }
            }
        },
        None => {},
    }
}

/// Adds the statements for a relation between two entities (see
/// `relation_update`).
#[verifier::spinoff_prover]
#[verifier::rlimit(40)]
pub fn add_relation(plan: &mut Plan, modeler: &Option<Object>, object: &Json) -> (r: Result<(), JsonError>)
    requires
        old(plan).wf(),
        modeler_ok(opt_object_view(*modeler)),
    ensures
        final(plan).wf(),
        item_added(
            relation_update(opt_object_view(*modeler), blank_count(old(plan).spec_actions()), *object),
            r,
            old(plan).spec_actions(),
            final(plan).spec_actions(),
        ),
{
    let ghost mo = opt_object_view(*modeler);
    let ghost n0 = blank_count(plan.spec_actions());
    let left = get_str(object, "left-entity-id")?;
    let right = get_str(object, "right-entity-id")?;
    let l = relation_label_fields(object, "left")?;
    let m = relation_label_fields(object, "middle")?;
    let rt = relation_label_fields(object, "right")?;
    let ghost (lv, rv) = (left@, right@);
    let ghost p0 = plan.spec_actions();
    let n = plan.new_blank(String::from_str("relation"));
    let ghost p1 = plan.spec_actions();
    proof {
        assert(p1.drop_last() == p0);
        assert(blank_count(p1) == n0 + 1);
    }
    let mut entries: Vec<(String, Object)> = Vec::new();
    push_modeler(&mut entries, modeler);
    push_entry(&mut entries, "gnos:left", Object::Iri(left));
    push_entry(&mut entries, "gnos:right", Object::Iri(right));
    push_opt_str(&mut entries, "gnos:style", optional_str(object, "style"));
    let ghost e0 = entries_view(entries@);
    proof {
        assert(e0 =~= modeler_part(mo) + seq![
            ("gnos:left"@, ObjectModel::Iri(lv)),
            ("gnos:right"@, ObjectModel::Iri(rv)),
        ] + opt_entry("gnos:style"@, opt_str_field(*object, "style"@)));
        assert(no_blanks(e0));
    }
    add_relation_label(plan, modeler, n, l, "left", &mut entries);
    let ghost p2 = plan.spec_actions();
    let ghost e1 = entries_view(entries@);
    add_relation_label(plan, modeler, n, m, "middle", &mut entries);
    let ghost p3 = plan.spec_actions();
    let ghost e2 = entries_view(entries@);
    add_relation_label(plan, modeler, n, rt, "right", &mut entries);
    let ghost p4 = plan.spec_actions();
    let ghost e3 = entries_view(entries@);
    let a = Action::Add(Subject::Blank(n), entries);
    plan.push(a);
    proof {
        let (l1, m1, r1) = (
            relation_label_update(mo, n0, n0 + 1, *object, "left"@)->Ok_0,
            relation_label_update(mo, n0, n0 + 1 + blank_count(relation_label_update(mo, n0, n0 + 1, *object, "left"@)->Ok_0.0), *object, "middle"@)->Ok_0,
            relation_label_update(mo, n0, blank_count(p3), *object, "right"@)->Ok_0,
        );
        assert(p2 == p1 + l1.0 && e1 == e0 + l1.1) by {
            if l is None {
                assert(p2 =~= p1 + l1.0);
                assert(e1 =~= e0 + l1.1);
            } else {
                assert(e1 =~= e0 + l1.1);
            }
        }
        lemma_blank_count_concat(p1, l1.0);
        if l is Some {
            lemma_label_blanks(l1.0[0], l1.0[1]);
        } else {
            assert(blank_count(l1.0) == 0);
        }
        assert(p3 == p2 + m1.0 && e2 == e1 + m1.1) by {
            if m is None {
                assert(p3 =~= p2 + m1.0);
                assert(e2 =~= e1 + m1.1);
            } else {
                assert(e2 =~= e1 + m1.1);
            }
        }
        lemma_blank_count_concat(p2, m1.0);
        if m is Some {
            lemma_label_blanks(m1.0[0], m1.0[1]);
        } else {
            assert(blank_count(m1.0) == 0);
        }
        assert(p4 == p3 + r1.0 && e3 == e2 + r1.1) by {
            if rt is None {
                assert(p4 =~= p3 + r1.0);
                assert(e3 =~= e2 + r1.1);
            } else {
                assert(e3 =~= e2 + r1.1);
            }
        }
        let expected = relation_update(mo, n0, *object)->Ok_0;
        assert(plan.spec_actions() =~= p0 + expected);
    }
    Ok(())
}


/// Adds the statements for one item of a list of the given kind.
pub fn add_item(kind: ItemKind, plan: &mut Plan, modeler: &Option<Object>, object: &Json) -> (r: Result<(), JsonError>)
    requires
        old(plan).wf(),
        modeler_ok(opt_object_view(*modeler)),
    ensures
        final(plan).wf(),
        item_added(
            item_update(kind, opt_object_view(*modeler), blank_count(old(plan).spec_actions()), *object),
            r,
            old(plan).spec_actions(),
            final(plan).spec_actions(),
        ),
{
    match kind {
        ItemKind::Entity => add_entity(plan, modeler, object),
        ItemKind::Label => add_label(plan, modeler, object),
        ItemKind::Gauge => add_gauge(plan, modeler, object),
        ItemKind::Detail => add_detail(plan, modeler, object),
        ItemKind::Relation => add_relation(plan, modeler, object),
        ItemKind::Alert => add_alert(plan, object),
    }
}

proof fn lemma_list_updates_stop(kind: ItemKind, modeler: Option<ObjectModel>, start: nat, items: Seq<Json>, i: int)
    requires
        0 <= i <= items.len(),
        list_updates(kind, modeler, start, items.take(i)).1 is Some,
    ensures
        list_updates(kind, modeler, start, items) == list_updates(kind, modeler, start, items.take(i)),
    decreases items.len() - i,
{
    if i < items.len() {
        let next = items.take(i + 1);
        assert(next.drop_last() =~= items.take(i));
        lemma_list_updates_stop(kind, modeler, start, items, i + 1);
    } else {
        assert(items.take(i) =~= items);
    }
}

/// The plan grows by the updates for the items of a list, in order, up to
/// the first malformed item, whose error is returned.
pub open spec fn list_added(
    kind: ItemKind,
    modeler: Option<ObjectModel>,
    items: Seq<Json>,
    r: Result<(), JsonError>,
    before: Seq<ActionModel>,
    after: Seq<ActionModel>,
) -> bool {
    let (acts, err) = list_updates(kind, modeler, blank_count(before), items);
    &&& after == before + acts
    &&& match err {
        None => r is Ok,
        Some(e) => r matches Err(x) && x@ == e,
    }
}

/// Adds the statements for each item of a list of the given kind, in order,
/// up to the first malformed item.
#[verifier::spinoff_prover]
#[verifier::rlimit(30)]
pub fn add_list(kind: ItemKind, plan: &mut Plan, modeler: &Option<Object>, items: &Vec<Json>) -> (r: Result<(), JsonError>)
    requires
        old(plan).wf(),
        modeler_ok(opt_object_view(*modeler)),
    ensures
        final(plan).wf(),
        list_added(kind, opt_object_view(*modeler), items@, r, old(plan).spec_actions(), final(plan).spec_actions()),
{
    let ghost before = plan.spec_actions();
    let ghost start = blank_count(before);
    let ghost mo = opt_object_view(*modeler);
    let mut i: usize = 0;
    proof {
        assert(items@.take(0) =~= Seq::<Json>::empty());
        assert(before + Seq::<ActionModel>::empty() =~= before);
    }
    while i < items.len()
        invariant
            i <= items@.len(),
            plan.wf(),
            modeler_ok(mo),
            mo == opt_object_view(*modeler),
            start == blank_count(before),
            before == old(plan).spec_actions(),
            plan.spec_actions() == before + list_updates(kind, mo, start, items@.take(i as int)).0,
            list_updates(kind, mo, start, items@.take(i as int)).1 is None,
        decreases items.len() - i,
    {
        let ghost acts = list_updates(kind, mo, start, items@.take(i as int)).0;
        proof {
            lemma_blank_count_concat(before, acts);
            assert(items@.take(i + 1).drop_last() =~= items@.take(i as int));
            assert(items@.take(i + 1).last() == items@[i as int]);
        }
        let ghost cur = plan.spec_actions();
        match add_item(kind, plan, modeler, &items[i]) {
            Ok(()) => {
                proof {
                    let a = item_update(kind, mo, start + blank_count(acts), items@[i as int])->Ok_0;
                    assert(plan.spec_actions() =~= before + (acts + a));
                }
            },
            Err(e) => {
                proof {
                    assert(blank_count(cur) == start + blank_count(acts));
                    let u = item_update(kind, mo, start + blank_count(acts), items@[i as int]);
                    assert(u == Err::<Seq<ActionModel>, JsonErrorModel>(e@));
                    let next = list_updates(kind, mo, start, items@.take(i + 1));
                    assert(next == (acts, Some(e@)));
                    lemma_list_updates_stop(kind, mo, start, items@, i + 1);
                    assert(plan.spec_actions() == before + acts);
                }
                return Err(e);
            },
        }
        i = i + 1;
    }
    proof {
        assert(items@.take(items@.len() as int) =~= items@);
    }
    Ok(())
}


// ---- Samples and charts ---------------------------------------------------------------
/// A sample to record: the name of its sample set, its value and its units.
#[derive(Debug)]
pub struct SampleEntry {
    pub name: String,
    pub value: JsonNumber,
    pub units: String,
}

pub ghost struct SampleModel {
    pub name: Seq<char>,
    pub value: (Seq<char>, i64),
    pub units: Seq<char>,
}

impl View for SampleEntry {
    type V = SampleModel;

    open spec fn view(&self) -> SampleModel {
        SampleModel { name: self.name@, value: (self.value.text@, self.value.truncated), units: self.units@ }
    }
}

/// A chart to draw: its name, the sample sets it plots with their legends,
/// its title and the label of its y axis.
#[derive(Debug)]
pub struct ChartEntry {
    pub name: String,
    pub samples: Vec<String>,
    pub legends: Vec<String>,
    pub title: String,
    pub y_label: String,
}

pub ghost struct ChartModel {
    pub name: Seq<char>,
    pub samples: Seq<Seq<char>>,
    pub legends: Seq<Seq<char>>,
    pub title: Seq<char>,
    pub y_label: Seq<char>,
}

impl View for ChartEntry {
    type V = ChartModel;

    open spec fn view(&self) -> ChartModel {
        ChartModel {
            name: self.name@,
            samples: texts(self.samples@),
            legends: texts(self.legends@),
            title: self.title@,
            y_label: self.y_label@,
        }
    }
}

pub open spec fn sample_item(object: Json) -> Result<SampleModel, JsonErrorModel> {
    match str_field(object, "name"@) {
        Err(e) => Err(e),
        Ok(name) => match number_field(object, "value"@) {
            Err(e) => Err(e),
            Ok(value) => match str_field(object, "units"@) {
                Err(e) => Err(e),
                Ok(units) => Ok(SampleModel { name, value, units }),
            },
        },
    }
}

pub open spec fn chart_item(object: Json) -> Result<ChartModel, JsonErrorModel> {
    match str_field(object, "name"@) {
        Err(e) => Err(e),
        Ok(name) => match strs_field(object, "samples"@) {
            Err(e) => Err(e),
            Ok(samples) => match strs_field(object, "legends"@) {
                Err(e) => Err(e),
                Ok(legends) => match str_field(object, "title"@) {
                    Err(e) => Err(e),
                    Ok(title) => match str_field(object, "y_label"@) {
                        Err(e) => Err(e),
                        Ok(y_label) => Ok(ChartModel { name, samples, legends, title, y_label }),
                    },
                },
            },
        },
    }
}

/// The samples of a list, in order, or the error of the first malformed one.
pub open spec fn samples_of(items: Seq<Json>) -> Result<Seq<SampleModel>, JsonErrorModel>
    decreases items.len(),
{
    if items.len() == 0 {
        Ok(Seq::empty())
    } else {
        match samples_of(items.drop_last()) {
            Err(e) => Err(e),
            Ok(prev) => match sample_item(items.last()) {
                Err(e) => Err(e),
                Ok(x) => Ok(prev.push(x)),
            },
        }
    }
}

/// The charts of a list, in order, or the error of the first malformed one.
pub open spec fn charts_of(items: Seq<Json>) -> Result<Seq<ChartModel>, JsonErrorModel>
    decreases items.len(),
{
    if items.len() == 0 {
        Ok(Seq::empty())
    } else {
        match charts_of(items.drop_last()) {
            Err(e) => Err(e),
            Ok(prev) => match chart_item(items.last()) {
                Err(e) => Err(e),
                Ok(x) => Ok(prev.push(x)),
            },
        }
    }
}

proof fn lemma_samples_stop(items: Seq<Json>, i: int)
    requires
        0 <= i <= items.len(),
        samples_of(items.take(i)) is Err,
    ensures
        samples_of(items) == samples_of(items.take(i)),
    decreases items.len() - i,
{
    if i < items.len() {
        assert(items.take(i + 1).drop_last() =~= items.take(i));
        lemma_samples_stop(items, i + 1);
    } else {
        assert(items.take(i) =~= items);
    }
}

proof fn lemma_charts_stop(items: Seq<Json>, i: int)
    requires
        0 <= i <= items.len(),
        charts_of(items.take(i)) is Err,
    ensures
        charts_of(items) == charts_of(items.take(i)),
    decreases items.len() - i,
{
    if i < items.len() {
        assert(items.take(i + 1).drop_last() =~= items.take(i));
        lemma_charts_stop(items, i + 1);
    } else {
        assert(items.take(i) =~= items);
    }
}

/// The samples of a list sent by a modeler.
#[verifier::spinoff_prover]
#[verifier::rlimit(30)]
pub fn sample_entries(items: &Vec<Json>) -> (r: Result<Vec<SampleEntry>, JsonError>)
    ensures
        match samples_of(items@) {
            Ok(ss) => r matches Ok(v) && v@.map_values(|x: SampleEntry| x@) == ss,
            Err(e) => r matches Err(x) && x@ == e,
        },
{
    let mut v: Vec<SampleEntry> = Vec::new();
    let mut i: usize = 0;
    proof {
        assert(items@.take(0) =~= Seq::<Json>::empty());
        assert(v@.map_values(|x: SampleEntry| x@) =~= Seq::<SampleModel>::empty());
    }
    while i < items.len()
        invariant
            i <= items@.len(),
            samples_of(items@.take(i as int)) == Ok::<Seq<SampleModel>, JsonErrorModel>(v@.map_values(|x: SampleEntry| x@)),
        decreases items.len() - i,
    {
        proof {
            assert(items@.take(i + 1).drop_last() =~= items@.take(i as int));
            assert(items@.take(i + 1).last() == items@[i as int]);
        }
        let object = &items[i];
        let name = match get_str(object, "name") {
            Ok(x) => x,
            Err(e) => {
                proof {
                    lemma_samples_stop(items@, i + 1);
                }
                return Err(e);
            },
        };
        let value = match get_number(object, "value") {
            Ok(x) => x,
            Err(e) => {
                proof {
                    lemma_samples_stop(items@, i + 1);
                }
                return Err(e);
            },
        };
        let units = match get_str(object, "units") {
            Ok(x) => x,
            Err(e) => {
                proof {
                    lemma_samples_stop(items@, i + 1);
                }
                return Err(e);
            },
        };
        let ghost prev = v@;
        v.push(SampleEntry { name, value, units });
        proof {
            assert(v@.map_values(|x: SampleEntry| x@) =~= prev.map_values(|x: SampleEntry| x@).push(v@.last()@));
        }
        i = i + 1;
    }
    proof {
        assert(items@.take(items@.len() as int) =~= items@);
    }
    Ok(v)
}

/// The charts of a list sent by a modeler.
#[verifier::spinoff_prover]
#[verifier::rlimit(30)]
pub fn chart_entries(items: &Vec<Json>) -> (r: Result<Vec<ChartEntry>, JsonError>)
    ensures
        match charts_of(items@) {
            Ok(cs) => r matches Ok(v) && v@.map_values(|x: ChartEntry| x@) == cs,
            Err(e) => r matches Err(x) && x@ == e,
        },
{
    let mut v: Vec<ChartEntry> = Vec::new();
    let mut i: usize = 0;
    proof {
        assert(items@.take(0) =~= Seq::<Json>::empty());
        assert(v@.map_values(|x: ChartEntry| x@) =~= Seq::<ChartModel>::empty());
    }
    while i < items.len()
        invariant
            i <= items@.len(),
            charts_of(items@.take(i as int)) == Ok::<Seq<ChartModel>, JsonErrorModel>(v@.map_values(|x: ChartEntry| x@)),
        decreases items.len() - i,
    {
        proof {
            assert(items@.take(i + 1).drop_last() =~= items@.take(i as int));
            assert(items@.take(i + 1).last() == items@[i as int]);
        }
        let object = &items[i];
        let name = match get_str(object, "name") {
            Ok(x) => x,
            Err(e) => {
                proof {
                    lemma_charts_stop(items@, i + 1);
                }
                return Err(e);
            },
        };
        if let Err(e) = check_strs(object, "samples") {
            proof {
                lemma_charts_stop(items@, i + 1);
            }
            return Err(e);
        }
        let samples = get_strs(object, "samples");
        if let Err(e) = check_strs(object, "legends") {
            proof {
                lemma_charts_stop(items@, i + 1);
            }
            return Err(e);
        }
        let legends = get_strs(object, "legends");
        let title = match get_str(object, "title") {
            Ok(x) => x,
            Err(e) => {
                proof {
                    lemma_charts_stop(items@, i + 1);
                }
                return Err(e);
            },
        };
        let y_label = match get_str(object, "y_label") {
            Ok(x) => x,
            Err(e) => {
                proof {
                    lemma_charts_stop(items@, i + 1);
                }
                return Err(e);
            },
        };
        let ghost prev = v@;
        v.push(ChartEntry { name, samples, legends, title, y_label });
        proof {
            assert(v@.map_values(|x: ChartEntry| x@) =~= prev.map_values(|x: ChartEntry| x@).push(v@.last()@));
        }
        i = i + 1;
    }
    proof {
        assert(items@.take(items@.len() as int) =~= items@);
    }
    Ok(v)
}


// ---- A whole update -------------------------------------------------------------------
/// The modeler that sent the data, when the data names one with a string.
pub open spec fn modeler_of(data: Json) -> Option<Seq<char>> {
    match field_result(data, "modeler"@) {
        Ok(Json::String(m)) => Some(m@),
        _ => None,
    }
}

pub open spec fn modeler_object(data: Json) -> Option<ObjectModel> {
    match modeler_of(data) {
        Some(m) => Some(str_obj(m)),
        None => None,
    }
}

/// The first updates of the store: the time of the update, the poll
/// interval, and the removal of what the modeler sent before.
pub open spec fn update_start(poll_rate: u16, data: Json) -> Seq<ActionModel> {
    seq![
        ActionModel::Replace(SubjectModel::Named("gnos:map"@), "gnos:last_update"@, ObjectModel::Now),
        ActionModel::Replace(SubjectModel::Named("gnos:map"@), "gnos:poll_interval"@, ObjectModel::Int(poll_rate as i64)),
    ] + match modeler_of(data) {
        Some(m) => seq![ActionModel::PruneModeler(m)],
        None => Seq::empty(),
    }
}

/// The updates for the list named `key` of the data, if it has one, after
/// the updates `acc` (unless these ended with an error).
pub open spec fn list_step(
    kind: ItemKind,
    key: Seq<char>,
    modeler: Option<ObjectModel>,
    acc: (Seq<ActionModel>, Option<JsonErrorModel>),
    data: Json,
) -> (Seq<ActionModel>, Option<JsonErrorModel>) {
    if acc.1 is Some {
        acc
    } else {
        match field_result(data, key) {
            Ok(Json::List(items)) => {
                let (a, e) = list_updates(kind, modeler, blank_count(acc.0), items@);
                (acc.0 + a, e)
            },
            _ => acc,
        }
    }
}

/// The updates of the store for the data a modeler sent: none unless it is
/// an object; else the first updates, then those for its entities, labels,
/// gauges, details, relations and alerts, up to the first malformed item.
pub open spec fn store_updates(poll_rate: u16, data: Json) -> (Seq<ActionModel>, Option<JsonErrorModel>) {
    if data is Object {
        let mo = modeler_object(data);
        let s0 = (update_start(poll_rate, data), None::<JsonErrorModel>);
        let s1 = list_step(ItemKind::Entity, "entities"@, mo, s0, data);
        let s2 = list_step(ItemKind::Label, "labels"@, mo, s1, data);
        let s3 = list_step(ItemKind::Gauge, "gauges"@, mo, s2, data);
        let s4 = list_step(ItemKind::Detail, "details"@, mo, s3, data);
        let s5 = list_step(ItemKind::Relation, "relations"@, mo, s4, data);
        list_step(ItemKind::Alert, "alerts"@, mo, s5, data)
    } else {
        (Seq::empty(), None)
    }
}

/// The samples the data holds, if it is an object with a list of samples.
pub open spec fn samples_update(data: Json) -> Result<Seq<SampleModel>, JsonErrorModel> {
    match field_result(data, "samples"@) {
        Ok(Json::List(items)) => samples_of(items@),
        _ => Ok(Seq::empty()),
    }
}

/// The charts the data holds, if it is an object with a list of charts.
pub open spec fn charts_update(data: Json) -> Result<Seq<ChartModel>, JsonErrorModel> {
    match field_result(data, "charts"@) {
        Ok(Json::List(items)) => charts_of(items@),
        _ => Ok(Seq::empty()),
    }
}

/// What is done with the data a modeler sent: the updates of the store, in
/// order, then the samples to record and the charts to draw.
pub struct Update {
    pub actions: Vec<Action>,
    pub samples: Vec<SampleEntry>,
    pub charts: Vec<ChartEntry>,
}

fn add_optional_list(kind: ItemKind, key: &str, plan: &mut Plan, modeler: &Option<Object>, data: &Json) -> (r: Result<(), JsonError>)
    requires
        old(plan).wf(),
        modeler_ok(opt_object_view(*modeler)),
    ensures
        final(plan).wf(),
        ({
            let s = list_step(kind, key@, opt_object_view(*modeler), (old(plan).spec_actions(), None), *data);
            &&& final(plan).spec_actions() == s.0
            &&& match s.1 {
                None => r is Ok,
                Some(e) => r matches Err(x) && x@ == e,
            }
        }),
{
    match optional_list(data, key) {
        Some(items) => add_list(kind, plan, modeler, items),
        None => {
            Ok(())
        },
    }
}

/// The updates of the store, the samples and the charts for the data a
/// modeler sent (what is done with it when it parses); the error of the
/// first malformed item, if any.
#[verifier::spinoff_prover]
#[verifier::rlimit(30)]
pub fn handle_update(poll_rate: u16, data: &Json) -> (r: Result<Update, JsonError>)
    ensures
        match store_updates(poll_rate, *data).1 {
            Some(e) => r matches Err(x) && x@ == e,
            None => match samples_update(*data) {
                Err(e) => r matches Err(x) && x@ == e,
                Ok(ss) => match charts_update(*data) {
                    Err(e) => r matches Err(x) && x@ == e,
                    Ok(cs) => r matches Ok(u) && {
                        &&& crate::statements::plan_view(u.actions@) == store_updates(poll_rate, *data).0
                        &&& crate::statements::plan_refs_ok(crate::statements::plan_view(u.actions@))
                        &&& u.samples@.map_values(|x: SampleEntry| x@) == ss
                        &&& u.charts@.map_values(|x: ChartEntry| x@) == cs
                    },
                },
            },
        },
{
    let mut plan = Plan::new();
    match data {
        Json::Object(_) => {},
        _ => {
            return Ok(Update { actions: plan.into_actions(), samples: Vec::new(), charts: Vec::new() });
        },
    }
    plan.push(Action::Replace(Subject::Named(String::from_str("gnos:map")), String::from_str("gnos:last_update"), Object::Now));
    plan.push(Action::Replace(
        Subject::Named(String::from_str("gnos:map")),
        String::from_str("gnos:poll_interval"),
        Object::Int(poll_rate as i64),
    ));
    let modeler: Option<Object> = match get_str(data, "modeler") {
        Ok(m) => {
            let ghost mv = m@;
            plan.push(Action::PruneModeler(String::from_str(m.as_str())));
            Some(Object::Str(m, String::new()))
        },
        Err(_) => None,
    };
    let ghost mo = opt_object_view(modeler);
    proof {
        assert(mo == modeler_object(*data));
        assert(plan.spec_actions() =~= update_start(poll_rate, *data));
    }
    add_optional_list(ItemKind::Entity, "entities", &mut plan, &modeler, data)?;
    add_optional_list(ItemKind::Label, "labels", &mut plan, &modeler, data)?;
    add_optional_list(ItemKind::Gauge, "gauges", &mut plan, &modeler, data)?;
    add_optional_list(ItemKind::Detail, "details", &mut plan, &modeler, data)?;
    add_optional_list(ItemKind::Relation, "relations", &mut plan, &modeler, data)?;
    add_optional_list(ItemKind::Alert, "alerts", &mut plan, &modeler, data)?;
    let samples = match optional_list(data, "samples") {
        Some(items) => sample_entries(items)?,
        None => Vec::new(),
    };
    let charts = match optional_list(data, "charts") {
        Some(items) => chart_entries(items)?,
        None => Vec::new(),
    };
    proof {
        assert(samples@.map_values(|x: SampleEntry| x@) =~= samples_update(*data)->Ok_0);
        assert(charts@.map_values(|x: ChartEntry| x@) =~= charts_update(*data)->Ok_0);
    }
    Ok(Update { actions: plan.into_actions(), samples, charts })
}

} // verus!
