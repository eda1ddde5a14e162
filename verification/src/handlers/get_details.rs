//! The page showing the details of an entity.
use vstd::prelude::*;
use crate::options::Device;
use crate::text::{chars_of, str_eq, sub_string};

verus! {

/// The index of the last `c` in `s`.
pub open spec fn last_index_of(s: Seq<char>, c: char) -> Option<nat>
    decreases s.len(),
{
    if s.len() == 0 {
        None
    } else if s.last() == c {
        Some((s.len() - 1) as nat)
    } else {
        last_index_of(s.drop_last(), c)
    }
}

/// The index of the first device managing `ip`.
pub open spec fn device_index(devices: Seq<Device>, ip: Seq<char>) -> Option<nat>
    decreases devices.len(),
{
    if devices.len() == 0 {
        None
    } else {
        match device_index(devices.drop_last(), ip) {
            Some(i) => Some(i),
            None => if devices.last().managed_ip@ == ip { Some((devices.len() - 1) as nat) } else { None },
        }
    }
}

/// The label of an entity's details page: the last part of the subject
/// (such as `entities/10.103.0.2`), after the name of the device it
/// manages when there is one.
pub open spec fn details_label_spec(subject: Seq<char>, devices: Seq<Device>) -> Seq<char> {
    let i = last_index_of(subject, '/').unwrap();
    let label = subject.skip(i as int + 1);
    match device_index(devices, label) {
        Some(k) => devices[k as int].name@ + " "@ + label,
        None => label,
    }
}

proof fn lemma_last_index(s: Seq<char>, c: char)
    ensures
        last_index_of(s, c) matches Some(i) ==> i < s.len() && s[i as int] == c,
    decreases s.len(),
{
    if s.len() > 0 && s.last() != c {
        lemma_last_index(s.drop_last(), c);
    }
}

proof fn lemma_device_index(devices: Seq<Device>, ip: Seq<char>)
    ensures
        device_index(devices, ip) matches Some(i) ==> i < devices.len(),
    decreases devices.len(),
{
    if devices.len() > 0 {
        lemma_device_index(devices.drop_last(), ip);
    }
}

/// The label of an entity's details page (see `details_label_spec`); the
/// subject holds a `/`.
pub fn details_label(subject: &str, devices: &Vec<Device>) -> (r: String)
    requires
        last_index_of(subject@, '/') is Some,
    ensures
        r@ == details_label_spec(subject@, devices@),
{
    let chars = chars_of(subject);
    let mut i: usize = chars.len();
    assert(chars@.take(chars@.len() as int) =~= chars@);
    proof {
        if i == 0 {
            assert(chars@.take(0) =~= Seq::<char>::empty());
        }
    }
    while i > 0
        invariant
            i <= chars@.len(),
            chars@ == subject@,
            last_index_of(subject@, '/') == last_index_of(chars@.take(i as int), '/'),
            last_index_of(chars@.take(i as int), '/') is Some,
        ensures
            i > 0,
            last_index_of(subject@, '/') == Some((i - 1) as nat),
        decreases i,
    {
        proof {
            assert(chars@.take(i as int).drop_last() =~= chars@.take(i - 1));
            assert(chars@.take(i as int).last() == chars@[i - 1]);
        }
        if chars[i - 1] == '/' {
            break;
        }
        i = i - 1;
    }
    proof {
        lemma_last_index(subject@, '/');
    }
    let label = sub_string(&chars, i, chars.len());
    proof {
        assert(last_index_of(subject@, '/') == Some((i - 1) as nat));
        assert(label@ =~= subject@.skip(i as int));
    }
    let mut k: usize = 0;
    assert(devices@.take(0) =~= Seq::<Device>::empty());
    while k < devices.len()
        invariant
            k <= devices@.len(),
            device_index(devices@.take(k as int), label@) is None,
            i > 0,
            last_index_of(subject@, '/') == Some((i - 1) as nat),
            label@ == subject@.skip(i as int),
        decreases devices.len() - k,
    {
        proof {
            assert(devices@.take(k + 1).drop_last() =~= devices@.take(k as int));
        }
        if str_eq(devices[k].managed_ip.as_str(), label.as_str()) {
            proof {
                assert(devices@.take(k + 1).last() == devices@[k as int]);
                assert(device_index(devices@.take(k + 1), label@) == Some(k as nat));
                lemma_device_index_prefix(devices@, k as int + 1, label@);
            }
            let mut r = String::from_str(devices[k].name.as_str());
            r.append(" ");
            r.append(label.as_str());
            return r;
        }
        k = k + 1;
    }
    assert(devices@.take(devices@.len() as int) =~= devices@);
    label
}

proof fn lemma_device_index_prefix(devices: Seq<Device>, k: int, ip: Seq<char>)
    requires
        0 <= k <= devices.len(),
        device_index(devices.take(k), ip) is Some,
    ensures
        device_index(devices, ip) == device_index(devices.take(k), ip),
    decreases devices.len() - k,
{
    if k < devices.len() {
        assert(devices.take(k + 1).drop_last() =~= devices.take(k));
        lemma_device_index_prefix(devices, k + 1, ip);
    } else {
        assert(devices.take(k) =~= devices);
    }
}

} // verus!
