//! Turns the json the snmp modeler PUTs (a dictionary from managed IP to the
//! snmp data of the device) into updates of the store.
use vstd::prelude::*;
use crate::json::{Json, JsonError, JsonErrorModel, field_from, string_of_json};
use crate::statements::{Object, ObjectModel, Subject, SubjectModel, Action, ActionModel, Plan,
    entries_view, blank_count, lemma_blank_count_concat, object_refs_ok};
use crate::text::{find_from, find_str_from, chars_of};
use crate::handlers::put_snmp::str_obj;

verus! {

// ---- Specifications ------------------------------------------------------------------
/// The string field named `key` of a table, or `default` when there is no
/// such field or it is not a string.
pub open spec fn lookup_spec(table: Seq<(String, Json)>, key: Seq<char>, default: Seq<char>) -> Seq<char> {
    match field_from(table, key, 0) {
        Some(Json::String(s)) => s@,
        _ => default,
    }
}

/// A statement `snmp:NAME` for each string field of the table, in order
/// (other fields are handled elsewhere or skipped).
pub open spec fn snmp_entries(table: Seq<(String, Json)>) -> Seq<(Seq<char>, ObjectModel)>
    decreases table.len(),
{
    if table.len() == 0 {
        Seq::empty()
    } else {
        snmp_entries(table.drop_last()) + if table.last().1 is String {
            seq![("snmp:"@ + table.last().0@, str_obj(string_of_json(table.last().1)))]
        } else {
            Seq::empty()
        }
    }
}

/// The raw snmp data of an object, kept under a new blank subject `n`
/// labelled `LABEL-snmp`.
pub open spec fn snmp_update(n: nat, label: Seq<char>, table: Seq<(String, Json)>) -> Seq<ActionModel> {
    seq![
        ActionModel::NewBlank(label + "-snmp"@),
        ActionModel::Add(SubjectModel::Blank(n), snmp_entries(table)),
    ]
}

pub open spec fn integer_type() -> Seq<char> {
    "http://www.w3.org/2001/XMLSchema#integer"@
}

/// The updates for an interface of the device at `ip` (when the plan has
/// made `n` blank subjects), and the statement linking the device to it.
pub open spec fn interface_update(n: nat, ip: Seq<char>, data: Json) -> (Seq<ActionModel>, (Seq<char>, ObjectModel)) {
    match data {
        Json::Object(f) => {
            let t = f@;
            let name = lookup_spec(t, "ifDescr"@, Seq::empty());
            let label = ip + "-"@ + name;
            (
                snmp_update(n, label, t) + seq![
                    ActionModel::NewBlank(label),
                    ActionModel::Add(
                        SubjectModel::Blank(n + 1),
                        seq![
                            ("gnos:ifname"@, str_obj(name)),
                            ("gnos:ip"@, str_obj(lookup_spec(t, "ipAdEntAddr"@, Seq::empty()))),
                            ("gnos:netmask"@, str_obj(lookup_spec(t, "ipAdEntNetMask"@, Seq::empty()))),
                            ("gnos:mac"@, str_obj(lookup_spec(t, "ifPhysAddress"@, Seq::empty()))),
                            ("gnos:mtu"@, ObjectModel::Literal(lookup_spec(t, "ifMtu"@, Seq::empty()), integer_type(), Seq::empty())),
                            ("gnos:enabled"@, ObjectModel::Bool(find_from(lookup_spec(t, "ifOperStatus"@, Seq::empty()), "(1)"@, 0) is Some)),
                            ("gnos:snmp"@, ObjectModel::Blank(n)),
                        ],
                    ),
                ],
                ("gnos:interface"@, ObjectModel::Blank(n + 1)),
            )
        },
        _ => (Seq::empty(), ("gnos:missing-interface"@, str_obj(Seq::empty()))),
    }
}

/// Whether action `a` adds statements about `subject` among which predicate
/// `p` has object `o`, and no other.
pub open spec fn states_only(a: ActionModel, subject: SubjectModel, p: Seq<char>, o: ObjectModel) -> bool {
    match a {
        ActionModel::Add(s, es) => {
            &&& s == subject
            &&& es.contains((p, o))
            &&& forall|i: int| 0 <= i < es.len() && (#[trigger] es[i]).0 == p ==> es[i].1 == o
        },
        _ => false,
    }
}

/// An interface is described by its own fields: the statements about its
/// new subject give its description as `gnos:ifname`, its address
/// (`ipAdEntAddr`) as `gnos:ip`, its mask (`ipAdEntNetMask`) as
/// `gnos:netmask` and its physical address as `gnos:mac`, each the string of
/// that field (empty when there is none), and the device is linked to that
/// subject by `gnos:interface`.
pub proof fn lemma_interface_fields(n: nat, ip: Seq<char>, data: Json)
    requires
        data is Object,
    ensures
        ({
            let t = data->Object_0@;
            let (acts, link) = interface_update(n, ip, data);
            let subject = SubjectModel::Blank(n + 1);
            &&& acts.len() == 4
            &&& states_only(acts[3], subject, "gnos:ifname"@, str_obj(lookup_spec(t, "ifDescr"@, Seq::empty())))
            &&& states_only(acts[3], subject, "gnos:ip"@, str_obj(lookup_spec(t, "ipAdEntAddr"@, Seq::empty())))
            &&& states_only(acts[3], subject, "gnos:netmask"@, str_obj(lookup_spec(t, "ipAdEntNetMask"@, Seq::empty())))
            &&& states_only(acts[3], subject, "gnos:mac"@, str_obj(lookup_spec(t, "ifPhysAddress"@, Seq::empty())))
            &&& link == ("gnos:interface"@, ObjectModel::Blank(n + 1))
        }),
{
    reveal_strlit("gnos:ifname");
    reveal_strlit("gnos:ip");
    reveal_strlit("gnos:netmask");
    reveal_strlit("gnos:mac");
    reveal_strlit("gnos:mtu");
    reveal_strlit("gnos:enabled");
    reveal_strlit("gnos:snmp");
    let t = data->Object_0@;
    let (acts, link) = interface_update(n, ip, data);
    let name = lookup_spec(t, "ifDescr"@, Seq::empty());
    let label = ip + "-"@ + name;
    let tail = seq![
        ActionModel::NewBlank(label),
        ActionModel::Add(
            SubjectModel::Blank(n + 1),
            seq![
                ("gnos:ifname"@, str_obj(name)),
                ("gnos:ip"@, str_obj(lookup_spec(t, "ipAdEntAddr"@, Seq::empty()))),
                ("gnos:netmask"@, str_obj(lookup_spec(t, "ipAdEntNetMask"@, Seq::empty()))),
                ("gnos:mac"@, str_obj(lookup_spec(t, "ifPhysAddress"@, Seq::empty()))),
                ("gnos:mtu"@, ObjectModel::Literal(lookup_spec(t, "ifMtu"@, Seq::empty()), integer_type(), Seq::empty())),
                ("gnos:enabled"@, ObjectModel::Bool(find_from(lookup_spec(t, "ifOperStatus"@, Seq::empty()), "(1)"@, 0) is Some)),
                ("gnos:snmp"@, ObjectModel::Blank(n)),
            ],
        ),
    ];
    assert(acts == snmp_update(n, label, t) + tail);
    assert(acts[3] == tail[1]);
    let es = seq![
        ("gnos:ifname"@, str_obj(name)),
        ("gnos:ip"@, str_obj(lookup_spec(t, "ipAdEntAddr"@, Seq::empty()))),
        ("gnos:netmask"@, str_obj(lookup_spec(t, "ipAdEntNetMask"@, Seq::empty()))),
        ("gnos:mac"@, str_obj(lookup_spec(t, "ifPhysAddress"@, Seq::empty()))),
        ("gnos:mtu"@, ObjectModel::Literal(lookup_spec(t, "ifMtu"@, Seq::empty()), integer_type(), Seq::empty())),
        ("gnos:enabled"@, ObjectModel::Bool(find_from(lookup_spec(t, "ifOperStatus"@, Seq::empty()), "(1)"@, 0) is Some)),
        ("gnos:snmp"@, ObjectModel::Blank(n)),
    ];
    assert(tail[1] == ActionModel::Add(SubjectModel::Blank(n + 1), es));
    assert(es.contains(es[0]));
    assert(es.contains(es[1]));
    assert(es.contains(es[2]));
    assert(es.contains(es[3]));
    assert forall|i: int| 0 <= i < es.len() implies {
        &&& ((#[trigger] es[i]).0 == "gnos:ifname"@ ==> i == 0)
        &&& (es[i].0 == "gnos:ip"@ ==> i == 1)
        &&& (es[i].0 == "gnos:netmask"@ ==> i == 2)
        &&& (es[i].0 == "gnos:mac"@ ==> i == 3)
    } by {
        assert(i == 0 || i == 1 || i == 2 || i == 3 || i == 4 || i == 5 || i == 6);
        assert("gnos:ifname"@.len() == 11 && "gnos:ip"@.len() == 7 && "gnos:netmask"@.len() == 12);
        assert("gnos:mac"@.len() == 8 && "gnos:mtu"@.len() == 8 && "gnos:enabled"@.len() == 12);
        assert("gnos:snmp"@.len() == 9);
        assert("gnos:mac"@[6] != "gnos:mtu"@[6]);
        assert("gnos:netmask"@[5] != "gnos:enabled"@[5]);
    }
}

/// The updates for a list of interfaces, in order, and the statements linking
/// the device to them.
pub open spec fn interfaces_update(n: nat, ip: Seq<char>, items: Seq<Json>) -> (Seq<ActionModel>, Seq<(Seq<char>, ObjectModel)>)
    decreases items.len(),
{
    if items.len() == 0 {
        (Seq::empty(), Seq::empty())
    } else {
        let (acts, entries) = interfaces_update(n, ip, items.drop_last());
        let (a, e) = interface_update(n + blank_count(acts), ip, items.last());
        (acts + a, entries.push(e))
    }
}

/// The updates for the device at `ip` (when the plan has made `n` blank
/// subjects): its raw snmp data, its interfaces, then the device itself. A
/// device without interfaces is an error.
pub open spec fn device_update(n: nat, ip: Seq<char>, table: Seq<(String, Json)>) -> Result<Seq<ActionModel>, JsonErrorModel> {
    match field_from(table, "interfaces"@, 0) {
        None => Err(JsonErrorModel::MissingKey("interfaces"@)),
        Some(v) => {
            let (iacts, ientries) = match v {
                Json::List(items) => interfaces_update(n + 1, ip, items@),
                _ => (Seq::empty(), Seq::empty()),
            };
            let d = n + 1 + blank_count(iacts);
            Ok(snmp_update(n, ip, table) + iacts + seq![
                ActionModel::NewBlank(ip),
                ActionModel::Add(
                    SubjectModel::Blank(d),
                    seq![
                        ("gnos:managed_ip"@, ObjectModel::Typed(ip, "gnos:ip_address"@)),
                        ("gnos:name"@, str_obj(lookup_spec(table, "sysName"@, "unknown"@))),
                        ("gnos:description"@, str_obj(lookup_spec(table, "sysDescr"@, Seq::empty()))),
                        ("gnos:snmp"@, ObjectModel::Blank(n)),
                    ] + ientries,
                ),
            ])
        },
    }
}

/// The updates for the devices of a table from managed IP to device data,
/// in order (entries that are not objects are skipped), up to the first
/// device without interfaces.
pub open spec fn devices_update(start: nat, table: Seq<(String, Json)>) -> (Seq<ActionModel>, Option<JsonErrorModel>)
    decreases table.len(),
{
    if table.len() == 0 {
        (Seq::empty(), None)
    } else {
        let (acts, err) = devices_update(start, table.drop_last());
        if err is Some {
            (acts, err)
        } else {
            match table.last().1 {
                Json::Object(device) => match device_update(start + blank_count(acts), table.last().0@, device@) {
                    Ok(a) => (acts + a, None),
                    Err(e) => (acts, Some(e)),
                },
                _ => (acts, None),
            }
        }
    }
}

/// The updates of the store for the data the snmp modeler sent: the store is
/// cleared and the time of the update recorded, then each device is added.
pub open spec fn store_from_json(data: Json) -> (Seq<ActionModel>, Option<JsonErrorModel>) {
    let start = seq![
        ActionModel::Clear,
        ActionModel::Add(SubjectModel::Named("gnos:system"@), seq![("gnos:last_update"@, ObjectModel::Now)]),
    ];
    match data {
        Json::Object(table) => {
            let (a, e) = devices_update(0, table@);
            (start + a, e)
        },
        _ => (start, None),
    }
}


// ---- Operations -----------------------------------------------------------------------
fn copy_string(s: &String) -> (r: String)
    ensures
        r@ == s@,
{
    String::from_str(s.as_str())
}

fn concat(a: &str, b: &str) -> (r: String)
    ensures
        r@ == a@ + b@,
{
    let mut r = String::from_str(a);
    r.append(b);
    r
}

/// The string field named `key` of a table, or `default`.
pub fn lookup(table: &Vec<(String, Json)>, key: &str, default: &str) -> (r: String)
    ensures
        r@ == lookup_spec(table@, key@, default@),
{
    match crate::json::find_field(table, key) {
        Some(Json::String(s)) => copy_string(s),
        _ => String::from_str(default),
    }
}

fn push_entry(entries: &mut Vec<(String, Object)>, pred: &str, obj: Object)
    ensures
        entries_view(final(entries)@) == entries_view(old(entries)@).push((pred@, obj@)),
{
    let ghost o = obj@;
    entries.push((String::from_str(pred), obj));
    assert(entries_view(entries@) =~= entries_view(old(entries)@).push((pred@, o)));
}

proof fn lemma_refs_below(e: Seq<(Seq<char>, ObjectModel)>, n: nat, m: nat)
    requires
        forall|i: int| 0 <= i < e.len() ==> object_refs_ok(#[trigger] e[i].1, n),
        n <= m,
    ensures
        forall|i: int| 0 <= i < e.len() ==> object_refs_ok(#[trigger] e[i].1, m),
{
}

/// Adds the raw snmp data of a table under a new blank subject labelled
/// `LABEL-snmp`; returns the number of that subject.
#[verifier::spinoff_prover]
#[verifier::rlimit(30)]
pub fn add_snmp(plan: &mut Plan, label: &str, table: &Vec<(String, Json)>) -> (r: usize)
    requires
        old(plan).wf(),
    ensures
        final(plan).wf(),
        r == blank_count(old(plan).spec_actions()),
        final(plan).spec_actions() == old(plan).spec_actions() + snmp_update(r as nat, label@, table@),
{
    let mut entries: Vec<(String, Object)> = Vec::new();
    let mut i: usize = 0;
    proof {
        assert(table@.take(0) =~= Seq::<(String, Json)>::empty());
        assert(entries_view(entries@) =~= Seq::<(Seq<char>, ObjectModel)>::empty());
    }
    while i < table.len()
        invariant
            i <= table@.len(),
            entries_view(entries@) == snmp_entries(table@.take(i as int)),
            forall|k: int| 0 <= k < entries@.len() ==> (!(#[trigger] entries_view(entries@)[k].1 is Blank) && !(entries_view(entries@)[k].1 is BlankName)),
        decreases table.len() - i,
    {
        proof {
            assert(table@.take(i + 1).drop_last() =~= table@.take(i as int));
            assert(table@.take(i + 1).last() == table@[i as int]);
        }
        let ghost before = entries_view(entries@);
        match &table[i].1 {
            Json::String(v) => {
                let pred = concat("snmp:", table[i].0.as_str());
                push_entry(&mut entries, pred.as_str(), Object::Str(copy_string(v), String::new()));
                proof {
                    assert(entries_view(entries@) =~= before + seq![("snmp:"@ + table@[i as int].0@, str_obj(v@))]);
                }
            },
            _ => {
                proof {
                    assert(entries_view(entries@) =~= before + Seq::<(Seq<char>, ObjectModel)>::empty());
                }
            },
        }
        i = i + 1;
    }
    proof {
        assert(table@.take(table@.len() as int) =~= table@);
    }
    let ghost p0 = plan.spec_actions();
    let n = plan.new_blank(concat(label, "-snmp"));
    let ghost p1 = plan.spec_actions();
    proof {
        assert(p1.drop_last() == p0);
        assert(entries_view(entries@).len() == entries@.len());
    }
    let ghost ev = entries_view(entries@);
    plan.push(Action::Add(Subject::Blank(n), entries));
    proof {
        assert(plan.spec_actions() =~= p0 + snmp_update(n as nat, label@, table@));
    }
    n
}

proof fn lemma_snmp_blanks(n: nat, label: Seq<char>, table: Seq<(String, Json)>)
    ensures
        blank_count(snmp_update(n, label, table)) == 1,
{
    let s = snmp_update(n, label, table);
    let s1 = seq![s[0]];
    let s0 = Seq::<ActionModel>::empty();
    assert(s.drop_last() =~= s1);
    assert(s1.drop_last() =~= s0);
    assert(blank_count(s0) == 0);
    assert(blank_count(s1) == 1);
    assert(blank_count(s) == blank_count(s1));
}

/// Adds an interface of the device at `managed_ip`; returns the statement
/// linking the device to it.
#[verifier::spinoff_prover]
#[verifier::rlimit(30)]
pub fn add_interface(plan: &mut Plan, managed_ip: &str, data: &Json) -> (r: (String, Object))
    requires
        old(plan).wf(),
    ensures
        final(plan).wf(),
        ({
            let (a, e) = interface_update(blank_count(old(plan).spec_actions()), managed_ip@, *data);
            &&& final(plan).spec_actions() == old(plan).spec_actions() + a
            &&& (r.0@, r.1@) == e
            &&& object_refs_ok(r.1@, blank_count(final(plan).spec_actions()))
        }),
{
    match data {
        Json::Object(table) => {
            let ghost t = table@;
            proof {
                reveal_strlit("");
                assert(""@ =~= Seq::<char>::empty());
            }
            let name = lookup(table, "ifDescr", "");
            let mut label = concat(managed_ip, "-");
            label.append(name.as_str());
            let ghost p0 = plan.spec_actions();
            let k = add_snmp(plan, label.as_str(), table);
            let ghost p1 = plan.spec_actions();
            let mut entries: Vec<(String, Object)> = Vec::new();
            let ip = lookup(table, "ipAdEntAddr", "");
            let mask = lookup(table, "ipAdEntNetMask", "");
            let mac = lookup(table, "ifPhysAddress", "");
            let mtu = lookup(table, "ifMtu", "");
            let status = lookup(table, "ifOperStatus", "");
            let ghost (nv, iv, mv, macv, mtuv, sv) = (name@, ip@, mask@, mac@, mtu@, status@);
            let enabled = find_str_from(&chars_of(status.as_str()), &chars_of("(1)"), 0).is_some();
            push_entry(&mut entries, "gnos:ifname", Object::Str(name, String::new()));
            push_entry(&mut entries, "gnos:ip", Object::Str(ip, String::new()));
            push_entry(&mut entries, "gnos:netmask", Object::Str(mask, String::new()));
            push_entry(&mut entries, "gnos:mac", Object::Str(mac, String::new()));
            push_entry(
                &mut entries,
                "gnos:mtu",
                Object::Literal(mtu, String::from_str("http://www.w3.org/2001/XMLSchema#integer"), String::new()),
            );
            push_entry(&mut entries, "gnos:enabled", Object::Bool(enabled));
            push_entry(&mut entries, "gnos:snmp", Object::Blank(k));
            proof {
                lemma_blank_count_concat(p0, snmp_update(k as nat, label@, t));
                lemma_snmp_blanks(k as nat, label@, t);
                let ev = entries_view(entries@);
                assert(ev =~= seq![
                    ("gnos:ifname"@, str_obj(nv)),
                    ("gnos:ip"@, str_obj(iv)),
                    ("gnos:netmask"@, str_obj(mv)),
                    ("gnos:mac"@, str_obj(macv)),
                    ("gnos:mtu"@, ObjectModel::Literal(mtuv, integer_type(), Seq::empty())),
                    ("gnos:enabled"@, ObjectModel::Bool(find_from(sv, "(1)"@, 0) is Some)),
                    ("gnos:snmp"@, ObjectModel::Blank(k as nat)),
                ]);
                assert forall|i: int| 0 <= i < entries@.len() implies object_refs_ok(
                    #[trigger] entries_view(entries@)[i].1,
                    blank_count(p1),
                ) by {
                    assert(ev.len() == 7);
                }
            }
            let ghost ev = entries_view(entries@);
            let n = plan.new_blank(copy_string(&label));
            let ghost p2 = plan.spec_actions();
            proof {
                assert(p2.drop_last() == p1);
                assert(entries_view(entries@).len() == entries@.len());
                lemma_refs_below(ev, blank_count(p1), blank_count(p2));
            }
            plan.push(Action::Add(Subject::Blank(n), entries));
            let ghost p3 = plan.spec_actions();
            proof {
                assert(blank_count(p1) == blank_count(p0) + 1);
                assert(n == blank_count(p0) + 1);
                assert(label@ == managed_ip@ + "-"@ + lookup_spec(t, "ifDescr"@, Seq::empty()));
                assert(p2 == p1.push(ActionModel::NewBlank(label@)));
                assert(p3 =~= p0 + interface_update(blank_count(p0), managed_ip@, *data).0);
                assert(p3.drop_last() == p2);
            }
            (String::from_str("gnos:interface"), Object::Blank(n))
        },
        _ => {
            proof {
                assert(plan.spec_actions() =~= old(plan).spec_actions() + Seq::<ActionModel>::empty());
            }
            (String::from_str("gnos:missing-interface"), Object::Str(String::new(), String::new()))
        },
    }
}


/// Adds the interfaces listed under "interfaces" in the data of the device at
/// `managed_ip`; returns the statements linking the device to them. A device
/// without interfaces is an error; interfaces that are not a list are skipped.
#[verifier::spinoff_prover]
#[verifier::rlimit(30)]
pub fn add_interfaces(plan: &mut Plan, managed_ip: &str, device: &Vec<(String, Json)>) -> (r: Result<Vec<(String, Object)>, JsonError>)
    requires
        old(plan).wf(),
    ensures
        final(plan).wf(),
        match field_from(device@, "interfaces"@, 0) {
            None => r matches Err(x) && x@ == JsonErrorModel::MissingKey("interfaces"@)
                && final(plan).spec_actions() == old(plan).spec_actions(),
            Some(v) => {
                let (a, e) = match v {
                    Json::List(items) => interfaces_update(blank_count(old(plan).spec_actions()), managed_ip@, items@),
                    _ => (Seq::empty(), Seq::empty()),
                };
                &&& r matches Ok(entries) && entries_view(entries@) == e
                    && forall|i: int| 0 <= i < entries@.len() ==> object_refs_ok(
                        #[trigger] entries_view(entries@)[i].1,
                        blank_count(final(plan).spec_actions()),
                    )
                &&& final(plan).spec_actions() == old(plan).spec_actions() + a
            },
        },
{
    let ghost p0 = plan.spec_actions();
    let ghost n = blank_count(p0);
    match crate::json::find_field(device, "interfaces") {
        None => {
            Err(JsonError::MissingKey(String::from_str("interfaces")))
        },
        Some(Json::List(items)) => {
            let mut entries: Vec<(String, Object)> = Vec::new();
            let mut i: usize = 0;
            proof {
                assert(items@.take(0) =~= Seq::<Json>::empty());
                assert(entries_view(entries@) =~= Seq::<(Seq<char>, ObjectModel)>::empty());
                assert(p0 + Seq::<ActionModel>::empty() =~= p0);
            }
            while i < items.len()
                invariant
                    i <= items@.len(),
                    plan.wf(),
                    p0 == old(plan).spec_actions(),
                    n == blank_count(p0),
                    plan.spec_actions() == p0 + interfaces_update(n, managed_ip@, items@.take(i as int)).0,
                    entries_view(entries@) == interfaces_update(n, managed_ip@, items@.take(i as int)).1,
                    forall|k: int| 0 <= k < entries@.len() ==> object_refs_ok(
                        #[trigger] entries_view(entries@)[k].1,
                        blank_count(plan.spec_actions()),
                    ),
                decreases items.len() - i,
            {
                let ghost prev = interfaces_update(n, managed_ip@, items@.take(i as int));
                let ghost cur = plan.spec_actions();
                proof {
                    assert(items@.take(i + 1).drop_last() =~= items@.take(i as int));
                    assert(items@.take(i + 1).last() == items@[i as int]);
                    lemma_blank_count_concat(p0, prev.0);
                }
                let (pred, obj) = add_interface(plan, managed_ip, &items[i]);
                let ghost e = (pred@, obj@);
                let ghost ev = entries_view(entries@);
                entries.push((pred, obj));
                proof {
                    let a = interface_update(n + blank_count(prev.0), managed_ip@, items@[i as int]).0;
                    assert(plan.spec_actions() =~= p0 + (prev.0 + a));
                    assert(entries_view(entries@) =~= ev.push(e));
                    lemma_blank_count_concat(cur, a);
                    assert forall|k: int| 0 <= k < entries@.len() implies object_refs_ok(
                        #[trigger] entries_view(entries@)[k].1,
                        blank_count(plan.spec_actions()),
                    ) by {
                        if k < ev.len() {
                            assert(entries_view(entries@)[k] == ev[k]);
                        }
                    }
                }
                i = i + 1;
            }
            proof {
                assert(items@.take(items@.len() as int) =~= items@);
            }
            Ok(entries)
        },
        Some(_) => {
            proof {
                assert(plan.spec_actions() =~= p0 + Seq::<ActionModel>::empty());
            }
            let entries: Vec<(String, Object)> = Vec::new();
            proof {
                assert(entries_view(entries@) =~= Seq::<(Seq<char>, ObjectModel)>::empty());
            }
            Ok(entries)
        },
    }
}

/// Adds the device at `managed_ip` (see `device_update`).
#[verifier::spinoff_prover]
#[verifier::rlimit(30)]
pub fn add_device(plan: &mut Plan, managed_ip: &str, device: &Vec<(String, Json)>) -> (r: Result<(), JsonError>)
    requires
        old(plan).wf(),
    ensures
        final(plan).wf(),
        match device_update(blank_count(old(plan).spec_actions()), managed_ip@, device@) {
            Ok(a) => r is Ok && final(plan).spec_actions() == old(plan).spec_actions() + a,
            Err(e) => r matches Err(x) && x@ == e && final(plan).spec_actions() == old(plan).spec_actions(),
        },
{
    if crate::json::find_field(device, "interfaces").is_none() {
        return Err(JsonError::MissingKey(String::from_str("interfaces")));
    }
    let ghost p0 = plan.spec_actions();
    let k = add_snmp(plan, managed_ip, device);
    let ghost p1 = plan.spec_actions();
    proof {
        lemma_blank_count_concat(p0, snmp_update(k as nat, managed_ip@, device@));
        lemma_snmp_blanks(k as nat, managed_ip@, device@);
    }
    let name = lookup(device, "sysName", "unknown");
    proof {
        reveal_strlit("");
        assert(""@ =~= Seq::<char>::empty());
    }
    let description = lookup(device, "sysDescr", "");
    let ghost (nv, dv) = (name@, description@);
    let mut entries: Vec<(String, Object)> = Vec::new();
    push_entry(
        &mut entries,
        "gnos:managed_ip",
        Object::Typed(String::from_str(managed_ip), String::from_str("gnos:ip_address")),
    );
    push_entry(&mut entries, "gnos:name", Object::Str(name, String::new()));
    push_entry(&mut entries, "gnos:description", Object::Str(description, String::new()));
    push_entry(&mut entries, "gnos:snmp", Object::Blank(k));
    let ghost e0 = entries_view(entries@);
    proof {
        assert(e0 =~= seq![
            ("gnos:managed_ip"@, ObjectModel::Typed(managed_ip@, "gnos:ip_address"@)),
            ("gnos:name"@, str_obj(nv)),
            ("gnos:description"@, str_obj(dv)),
            ("gnos:snmp"@, ObjectModel::Blank(k as nat)),
        ]);
    }
    let mut interfaces = match add_interfaces(plan, managed_ip, device) {
        Ok(v) => v,
        Err(e) => {
            return Err(e);
        },
    };
    let ghost p2 = plan.spec_actions();
    let ghost iv = entries_view(interfaces@);
    entries.append(&mut interfaces);
    let ghost ev = entries_view(entries@);
    proof {
        assert(ev =~= e0 + iv);
        let iacts = p2.subrange(p1.len() as int, p2.len() as int);
        assert(p2 =~= p1 + iacts);
        lemma_blank_count_concat(p1, iacts);
        assert forall|i: int| 0 <= i < entries@.len() implies object_refs_ok(
            #[trigger] entries_view(entries@)[i].1,
            blank_count(p2),
        ) by {
            assert(ev.len() == entries@.len());
            if i < e0.len() {
                assert(ev[i] == e0[i]);
            } else {
                assert(ev[i] == iv[i - e0.len()]);
            }
        }
    }
    let n = plan.new_blank(String::from_str(managed_ip));
    let ghost p3 = plan.spec_actions();
    proof {
        assert(p3.drop_last() == p2);
        assert(entries_view(entries@).len() == entries@.len());
        lemma_refs_below(ev, blank_count(p2), blank_count(p3));
    }
    plan.push(Action::Add(Subject::Blank(n), entries));
    proof {
        let (iacts, ientries) = match field_from(device@, "interfaces"@, 0).unwrap() {
            Json::List(items) => interfaces_update(k as nat + 1, managed_ip@, items@),
            _ => (Seq::empty(), Seq::empty()),
        };
        assert(p2 == p1 + iacts);
        assert(iv == ientries);
        lemma_blank_count_concat(p1, iacts);
        assert(blank_count(p1) == k + 1);
        assert(n == blank_count(p2));
        assert(blank_count(p2) == k + 1 + blank_count(iacts));
        assert(plan.spec_actions() =~= p0 + device_update(blank_count(p0), managed_ip@, device@)->Ok_0);
    }
    Ok(())
}


proof fn lemma_devices_stop(start: nat, table: Seq<(String, Json)>, i: int)
    requires
        0 <= i <= table.len(),
        devices_update(start, table.take(i)).1 is Some,
    ensures
        devices_update(start, table) == devices_update(start, table.take(i)),
    decreases table.len() - i,
{
    if i < table.len() {
        assert(table.take(i + 1).drop_last() =~= table.take(i));
        lemma_devices_stop(start, table, i + 1);
    } else {
        assert(table.take(i) =~= table);
    }
}

/// The updates of the store for the data the snmp modeler sent (see
/// `store_from_json`); the error of the first device without interfaces.
#[verifier::spinoff_prover]
#[verifier::rlimit(30)]
pub fn json_to_store(data: &Json) -> (r: Result<Vec<Action>, JsonError>)
    ensures
        match store_from_json(*data) {
            (a, None) => r matches Ok(v) && crate::statements::plan_view(v@) == a
                && crate::statements::plan_refs_ok(a),
            (_, Some(e)) => r matches Err(x) && x@ == e,
        },
{
    let mut plan = Plan::new();
    plan.push(Action::Clear);
    let ghost pa = plan.spec_actions();
    proof {
        assert(pa =~= seq![ActionModel::Clear]);
        assert(pa.drop_last() =~= Seq::<ActionModel>::empty());
        assert(blank_count(pa) == 0);
    }
    let mut entries: Vec<(String, Object)> = Vec::new();
    proof {
        assert(entries_view(entries@) =~= Seq::<(Seq<char>, ObjectModel)>::empty());
    }
    push_entry(&mut entries, "gnos:last_update", Object::Now);
    proof {
        assert(entries_view(entries@) =~= seq![("gnos:last_update"@, ObjectModel::Now)]);
    }
    plan.push(Action::Add(Subject::Named(String::from_str("gnos:system")), entries));
    let ghost p0 = plan.spec_actions();
    proof {
        assert(p0 =~= seq![
            ActionModel::Clear,
            ActionModel::Add(SubjectModel::Named("gnos:system"@), seq![("gnos:last_update"@, ObjectModel::Now)]),
        ]);
        assert(p0.drop_last() =~= pa);
        assert(blank_count(p0) == 0);
    }
    match data {
        Json::Object(table) => {
            let mut i: usize = 0;
            proof {
                assert(table@.take(0) =~= Seq::<(String, Json)>::empty());
                assert(p0 + Seq::<ActionModel>::empty() =~= p0);
            }
            while i < table.len()
                invariant
                    i <= table@.len(),
                    *data == Json::Object(*table),
                    plan.wf(),
                    blank_count(p0) == 0,
                    plan.spec_actions() == p0 + devices_update(0, table@.take(i as int)).0,
                    devices_update(0, table@.take(i as int)).1 is None,
                decreases table.len() - i,
            {
                let ghost acts = devices_update(0, table@.take(i as int)).0;
                proof {
                    assert(table@.take(i + 1).drop_last() =~= table@.take(i as int));
                    assert(table@.take(i + 1).last() == table@[i as int]);
                    lemma_blank_count_concat(p0, acts);
                }
                match &table[i].1 {
                    Json::Object(device) => {
                        match add_device(&mut plan, table[i].0.as_str(), device) {
                            Ok(()) => {
                                proof {
                                    let a = device_update(blank_count(acts), table@[i as int].0@, device@)->Ok_0;
                                    assert(plan.spec_actions() =~= p0 + (acts + a));
                                }
                            },
                            Err(e) => {
                                proof {
                                    assert(devices_update(0, table@.take(i + 1)) == (acts, Some(e@)));
                                    lemma_devices_stop(0, table@, i + 1);
                                }
                                return Err(e);
                            },
                        }
                    },
                    _ => {},
                }
                i = i + 1;
            }
            proof {
                assert(table@.take(table@.len() as int) =~= table@);
            }
        },
        _ => {},
    }
    proof {
        assert(plan.spec_actions() =~= store_from_json(*data).0);
    }
    Ok(plan.into_actions())
}

} // verus!
