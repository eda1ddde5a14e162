//! What the server does as it starts: the modelers it runs on the client,
//! the globals it records, and what it does when a modeler exits.
use vstd::prelude::*;
use crate::model::{Alert, AlertModel};
use crate::options::Device;
use crate::statements::{Action, ActionModel, Object, ObjectModel, Subject, SubjectModel, entries_view, plan_view};
use crate::text::{append_nat, split_char, split_on, str_eq, texts_of};

verus! {

/// The command run on the client to start a modeler script.
pub open spec fn modeler_command_spec(script: Seq<char>, ip: Seq<char>, port: u16, network_file: Seq<char>) -> Seq<char> {
    "python "@ + script + " --ip="@ + ip + " --port="@ + crate::text::nat_str(port as nat) + " -v "@ + network_file
}

/// The command run on the client to start a modeler script, which reports
/// to the server at `ip`:`port`.
pub fn modeler_command(script: &str, ip: &str, port: u16, network_file: &str) -> (r: String)
    ensures
        r@ == modeler_command_spec(script@, ip@, port, network_file@),
{
    let mut r = String::from_str("python ");
    r.append(script);
    r.append(" --ip=");
    r.append(ip);
    r.append(" --port=");
    append_nat(&mut r, port as u64);
    r.append(" -v ");
    r.append(network_file);
    r
}

/// The command run on the client to kill a modeler script when the server
/// shuts down.
pub fn kill_modeler_command(script: &str) -> (r: String)
    ensures
        r@ == "pgrep -f "@ + script@ + " | xargs --no-run-if-empty kill -9"@,
{
    let mut r = String::from_str("pgrep -f ");
    r.append(script);
    r.append(" | xargs --no-run-if-empty kill -9");
    r
}

/// The modelers of the devices, each once, in the order they first appear.
pub open spec fn distinct_modelers_spec(devices: Seq<Device>) -> Seq<Seq<char>>
    decreases devices.len(),
{
    if devices.len() == 0 {
        Seq::empty()
    } else {
        let prev = distinct_modelers_spec(devices.drop_last());
        if prev.contains(devices.last().modeler@) {
            prev
        } else {
            prev.push(devices.last().modeler@)
        }
    }
}

fn contains_str(v: &Vec<String>, s: &str) -> (r: bool)
    ensures
        r == texts_of(v@).contains(s@),
{
    let mut i: usize = 0;
    while i < v.len()
        invariant
            i <= v@.len(),
            forall|k: int| 0 <= k < i ==> v@[k]@ != s@,
        decreases v.len() - i,
    {
        if str_eq(v[i].as_str(), s) {
            assert(texts_of(v@)[i as int] == s@);
            return true;
        }
        i = i + 1;
    }
    assert(!texts_of(v@).contains(s@)) by {
        if texts_of(v@).contains(s@) {
            let k = choose|k: int| 0 <= k < texts_of(v@).len() && texts_of(v@)[k] == s@;
            assert(v@[k]@ == s@);
        }
    }
    false
}

/// The modelers to run: one per distinct modeler of the devices, in order.
pub fn distinct_modelers(devices: &Vec<Device>) -> (r: Vec<String>)
    ensures
        texts_of(r@) == distinct_modelers_spec(devices@),
{
    let mut r: Vec<String> = Vec::new();
    let mut i: usize = 0;
    while i < devices.len()
        invariant
            i <= devices@.len(),
            texts_of(r@) == distinct_modelers_spec(devices@.take(i as int)),
        decreases devices.len() - i,
    {
        proof {
            assert(devices@.take(i + 1).drop_last() =~= devices@.take(i as int));
            assert(devices@.take(i + 1).last() == devices@[i as int]);
        }
        let m = devices[i].modeler.as_str();
        if !contains_str(&r, m) {
            let ghost before = texts_of(r@);
            r.push(String::from_str(m));
            proof {
                assert(texts_of(r@) =~= before.push(m@));
            }
        }
        i = i + 1;
    }
    assert(devices@.take(devices@.len() as int) =~= devices@);
    r
}

/// Each modeler is run once: the list of modelers has no duplicates, and
/// every device's modeler is in it.
pub proof fn lemma_distinct_modelers(devices: Seq<Device>)
    ensures
        distinct_modelers_spec(devices).no_duplicates(),
        forall|i: int| 0 <= i < devices.len() ==> distinct_modelers_spec(devices).contains(#[trigger] devices[i].modeler@),
    decreases devices.len(),
{
    if devices.len() > 0 {
        let prev = distinct_modelers_spec(devices.drop_last());
        lemma_distinct_modelers(devices.drop_last());
        assert forall|i: int| 0 <= i < devices.len() implies distinct_modelers_spec(devices).contains(#[trigger] devices[i].modeler@) by {
            if i < devices.len() - 1 {
                assert(devices.drop_last()[i] == devices[i]);
                assert(prev.contains(devices[i].modeler@));
                let k = choose|k: int| 0 <= k < prev.len() && prev[k] == devices[i].modeler@;
                if !prev.contains(devices.last().modeler@) {
                    assert(prev.push(devices.last().modeler@)[k] == devices[i].modeler@);
                }
            } else {
                if !prev.contains(devices.last().modeler@) {
                    assert(prev.push(devices.last().modeler@)[prev.len() as int] == devices.last().modeler@);
                }
            }
        }
    }
}

/// What is reported when a modeler exits: the message, and the alert opened
/// about it.
pub open spec fn modeler_exit_message(script: Seq<char>, err: Option<Seq<char>>) -> Seq<char> {
    match err {
        Some(e) => script + " exited with stderr: "@ + e + "\n"@,
        None => script + " exited with no stderr"@,
    }
}

pub open spec fn modeler_exit_alert_spec(script: Seq<char>, err: Option<Seq<char>>) -> AlertModel {
    AlertModel {
        target: "gnos:container"@,
        id: script + " exited"@,
        mesg: modeler_exit_message(script, err),
        resolution: "Restart gnos."@,
        level: "error"@,
    }
}

/// When a modeler exits: the lines of the message to log, and the alert to
/// open (an error about the whole map, named after the script).
pub fn modeler_exited(script: &str, err: Option<String>) -> (r: (Vec<String>, Alert))
    ensures
        texts_of(r.0@) == split_on(modeler_exit_message(script@, match err { Some(e) => Some(e@), None => None }), '\n'),
        r.1@ == modeler_exit_alert_spec(script@, match err { Some(e) => Some(e@), None => None }),
{
    let mut mesg = String::from_str(script);
    match &err {
        Some(e) => {
            mesg.append(" exited with stderr: ");
            mesg.append(e.as_str());
            mesg.append("\n");
        },
        None => {
            mesg.append(" exited with no stderr");
        },
    }
    let lines = split_char(mesg.as_str(), '\n');
    let mut id = String::from_str(script);
    id.append(" exited");
    let alert = Alert {
        target: String::from_str("gnos:container"),
        id,
        mesg,
        resolution: String::from_str("Restart gnos."),
        level: String::from_str("error"),
    };
    (lines, alert)
}

/// The globals recorded as the server starts: the client may shut the
/// server down and see debug information, then the managed IP of each
/// device, then the name of each store.
pub open spec fn globals_actions(ips: Seq<Seq<char>>, stores: Seq<Seq<char>>) -> Seq<ActionModel> {
    seq![
        ActionModel::Add(SubjectModel::Named("gnos:globals"@), seq![
            ("gnos:admin"@, ObjectModel::Bool(true)),
            ("gnos:debug"@, ObjectModel::Bool(true)),
        ]),
        ActionModel::Add(SubjectModel::Named("gnos:globals"@),
            Seq::new(ips.len(), |i: int| ("gnos:device"@, ObjectModel::Str(ips[i], Seq::empty())))),
        ActionModel::Add(SubjectModel::Named("gnos:globals"@),
            Seq::new(stores.len(), |i: int| ("gnos:store"@, ObjectModel::Str(stores[i], Seq::empty())))),
    ]
}

fn tagged(pred: &str, values: &Vec<String>) -> (r: Vec<(String, Object)>)
    ensures
        entries_view(r@) == Seq::new(values@.len(), |i: int| (pred@, ObjectModel::Str(values@[i]@, Seq::empty()))),
{
    let ghost want = Seq::new(values@.len(), |i: int| (pred@, ObjectModel::Str(values@[i]@, Seq::empty())));
    let mut r: Vec<(String, Object)> = Vec::new();
    let mut i: usize = 0;
    while i < values.len()
        invariant
            i <= values@.len(),
            want == Seq::new(values@.len(), |i: int| (pred@, ObjectModel::Str(values@[i]@, Seq::empty()))),
            entries_view(r@) == want.take(i as int),
        decreases values.len() - i,
    {
        let ghost before = entries_view(r@);
        r.push((String::from_str(pred), Object::Str(String::from_str(values[i].as_str()), String::new())));
        proof {
            assert(entries_view(r@) =~= before.push(want[i as int]));
            assert(want.take(i + 1) =~= want.take(i as int).push(want[i as int]));
        }
        i = i + 1;
    }
    assert(want.take(values@.len() as int) =~= want);
    r
}

/// The globals recorded as the server starts (see `globals_actions`).
pub fn update_globals(devices: &Vec<Device>) -> (r: Vec<Action>)
    ensures
        plan_view(r@) == globals_actions(
            devices@.map_values(|d: Device| d.managed_ip@),
            seq!["globals"@, "primary"@],
        ),
{
    let mut ips: Vec<String> = Vec::new();
    let mut i: usize = 0;
    while i < devices.len()
        invariant
            i <= devices@.len(),
            texts_of(ips@) == devices@.take(i as int).map_values(|d: Device| d.managed_ip@),
        decreases devices.len() - i,
    {
        let ghost before = texts_of(ips@);
        ips.push(String::from_str(devices[i].managed_ip.as_str()));
        proof {
            assert(texts_of(ips@) =~= before.push(devices@[i as int].managed_ip@));
            assert(devices@.take(i + 1).map_values(|d: Device| d.managed_ip@)
                =~= devices@.take(i as int).map_values(|d: Device| d.managed_ip@).push(devices@[i as int].managed_ip@));
        }
        i = i + 1;
    }
    assert(devices@.take(devices@.len() as int) =~= devices@);
    let names = crate::model::get_standard_store_names();
    let flags = vec![
        (String::from_str("gnos:admin"), Object::Bool(true)),
        (String::from_str("gnos:debug"), Object::Bool(true)),
    ];
    let r = vec![
        Action::Add(Subject::Named(String::from_str("gnos:globals")), flags),
        Action::Add(Subject::Named(String::from_str("gnos:globals")), tagged("gnos:device", &ips)),
        Action::Add(Subject::Named(String::from_str("gnos:globals")), tagged("gnos:store", &names)),
    ];
    proof {
        let iv = texts_of(ips@);
        assert(Seq::new(ips@.len(), |i: int| ("gnos:device"@, ObjectModel::Str(ips@[i]@, Seq::empty())))
            =~= Seq::new(iv.len(), |i: int| ("gnos:device"@, ObjectModel::Str(iv[i], Seq::empty()))));
        let nv = texts_of(names@);
        assert(Seq::new(names@.len(), |i: int| ("gnos:store"@, ObjectModel::Str(names@[i]@, Seq::empty())))
            =~= Seq::new(nv.len(), |i: int| ("gnos:store"@, ObjectModel::Str(nv[i], Seq::empty()))));
        assert(entries_view(flags@) =~= seq![("gnos:admin"@, ObjectModel::Bool(true)), ("gnos:debug"@, ObjectModel::Bool(true))]);
    }
    assert(plan_view(r@) =~= globals_actions(
        devices@.map_values(|d: Device| d.managed_ip@),
        seq!["globals"@, "primary"@],
    ));
    r
}

/// The Cache-Control header of a static file: generated images may be
/// cached until just before new information comes in (one second less than
/// the poll rate).
pub open spec fn cache_control_spec(path: Seq<char>, poll_rate: u16) -> Option<Seq<char>> {
    if path.len() >= 11 && path.take(11) == "/generated/"@ {
        Some("max-age="@ + crate::text::nat_str(poll_rate.wrapping_sub(1) as nat))
    } else {
        None
    }
}

fn starts_with(s: &str, prefix: &str) -> (r: bool)
    ensures
        r == (prefix@.len() <= s@.len() && s@.take(prefix@.len() as int) == prefix@),
{
    let x = crate::text::chars_of(s);
    let y = crate::text::chars_of(prefix);
    if y.len() > x.len() {
        return false;
    }
    let mut i: usize = 0;
    while i < y.len()
        invariant
            i <= y@.len(),
            y@.len() <= x@.len(),
            x@ == s@,
            y@ == prefix@,
            forall|k: int| 0 <= k < i ==> x@[k] == y@[k],
        decreases y.len() - i,
    {
        if x[i] != y[i] {
            assert(s@.take(prefix@.len() as int)[i as int] != prefix@[i as int]);
            return false;
        }
        i = i + 1;
    }
    assert(s@.take(prefix@.len() as int) =~= prefix@);
    true
}

/// The Cache-Control header of a static file (see `cache_control_spec`).
pub fn cache_control(path: &str, poll_rate: u16) -> (r: Option<String>)
    ensures
        match cache_control_spec(path@, poll_rate) {
            Some(h) => r matches Some(x) && x@ == h,
            None => r is None,
        },
{
    proof {
        reveal_strlit("/generated/");
    }
    if starts_with(path, "/generated/") {
        let mut r = String::from_str("max-age=");
        append_nat(&mut r, poll_rate.wrapping_sub(1) as u64);
        Some(r)
    } else {
        None
    }
}

} // verus!
