//! Text utilities and the arguments and results of the commands run over ssh.
use vstd::prelude::*;
use crate::text::{chars_of, string_of, int_str, append_int, append_nat, nat_str, digit_char};

verus! {

pub open spec fn is_ascii_lower(c: char) -> bool {
    'a' <= c && c <= 'z'
}

pub open spec fn ascii_upper(c: char) -> char {
    ((c as u32) - 32) as char
}

/// `s` with its first character upper-cased when that is a lower-case ASCII
/// letter.
pub open spec fn title_case_spec(s: Seq<char>) -> Seq<char> {
    if s.len() > 0 && is_ascii_lower(s[0]) {
        seq![ascii_upper(s[0])] + s.skip(1)
    } else {
        s
    }
}

fn to_ascii_upper(c: char) -> (r: char)
    requires
        is_ascii_lower(c),
    ensures
        r == ascii_upper(c),
{
    let b: u8 = (c as u32 - 32) as u8;
    b as char
}

/// Whether `s` can be title-cased: it is empty or its first character is
/// below U+07C0 (those above are split inside their encoding).
pub open spec fn title_caseable(s: Seq<char>) -> bool {
    s.len() == 0 || (s[0] as u32) < 0x7C0
}

/// Capitalizes the first letter of `s`.
pub fn title_case(s: String) -> (r: String)
    requires
        title_caseable(s@),
    ensures
        r@ == title_case_spec(s@),
{
    let mut chars = chars_of(s.as_str());
    if chars.len() > 0 && 'a' <= chars[0] && chars[0] <= 'z' {
        let c = to_ascii_upper(chars[0]);
        chars.set(0, c);
        let r = string_of(&chars);
        assert(r@ =~= title_case_spec(s@));
        r
    } else {
        s
    }
}


/// The text of each string.
pub open spec fn views(s: Seq<String>) -> Seq<Seq<char>> {
    s.map_values(|x: String| x@)
}

/// `user@host` followed by `suffix`.
pub open spec fn login_spec(user: Seq<char>, host: Seq<char>, suffix: Seq<char>) -> Seq<char> {
    user + seq!['@'] + host + suffix
}

fn login(user: &str, host: &str, suffix: &str) -> (r: String)
    ensures
        r@ == login_spec(user@, host@, suffix@),
{
    let mut r = String::from_str(user);
    crate::text::push_char(&mut r, '@');
    r.append(host);
    r.append(suffix);
    r
}

/// The arguments given to scp to copy `files` to the home directory of
/// `user` on `host`: the files, then `user@host:`. There is nothing to copy
/// when `files` is empty, which is an error.
pub fn scp_args(files: Vec<String>, user: &str, host: &str) -> (r: Result<Vec<String>, String>)
    ensures
        r is Err <==> files@.len() == 0,
        r matches Err(m) ==> m@ == "No files were found to copy"@,
        r matches Ok(args) ==> views(args@) == views(files@).push(login_spec(user@, host@, seq![':'])),
{
    if files.len() == 0 {
        return Err(String::from_str("No files were found to copy"));
    }
    let mut args = files;
    let ghost before = args@;
    proof {
        reveal_strlit(":");
        assert(":"@ =~= seq![':']);
    }
    let last = login(user, host, ":");
    args.push(last);
    assert(views(args@).last() == last@);
    assert(views(args@) =~= views(before).push(login_spec(user@, host@, seq![':'])));
    Ok(args)
}

/// The arguments given to ssh to run `command` as `user` on `host`.
pub fn remote_command_args(user: &str, host: &str, command: &str) -> (r: Vec<String>)
    ensures
        views(r@) == seq![login_spec(user@, host@, Seq::empty()), command@],
{
    let mut args: Vec<String> = Vec::new();
    proof {
        reveal_strlit("");
    }
    args.push(login(user, host, ""));
    args.push(String::from_str(command));
    assert(views(args@) =~= seq![login_spec(user@, host@, Seq::empty()), command@]);
    args
}

/// The error reported for a command that exited with `status` and wrote
/// `err` to stderr: none for status 0.
pub open spec fn command_error_spec(status: int, err: Seq<char>) -> Option<Seq<char>> {
    if status == 0 {
        None
    } else if err.len() == 0 {
        Some("result code was "@ + int_str(status))
    } else {
        Some("result code was "@ + int_str(status) + " ("@ + err + ")"@)
    }
}

/// The error reported for a command that exited with `status` and wrote
/// `err` to stderr: none for status 0.
pub fn command_error(status: i32, err: &str) -> (r: Option<String>)
    ensures
        r is None <==> command_error_spec(status as int, err@) is None,
        r matches Some(m) ==> command_error_spec(status as int, err@) == Some(m@),
{
    if status == 0 {
        None
    } else {
        let mut m = String::from_str("result code was ");
        append_int(&mut m, status as i64);
        if err.unicode_len() == 0 {
            Some(m)
        } else {
            m.append(" (");
            m.append(err);
            m.append(")");
            Some(m)
        }
    }
}

/// Whether a file with extension `ext` (given without its dot) has one of
/// `extensions` (given with their dots).
pub fn extension_listed(ext: Option<&str>, extensions: &Vec<String>) -> (r: bool)
    ensures
        r == match ext {
            Some(e) => views(extensions@).contains(seq!['.'] + e@),
            None => false,
        },
{
    match ext {
        Some(e) => {
            let mut dotted = String::new();
            crate::text::push_char(&mut dotted, '.');
            dotted.append(e);
            let mut i: usize = 0;
            while i < extensions.len()
                invariant
                    i <= extensions.len(),
                    dotted@ == seq!['.'] + e@,
                    ext == Some(e),
                    forall|k: int| 0 <= k < i ==> extensions@[k]@ != dotted@,
                decreases extensions.len() - i,
            {
                let same = extensions[i] == dotted;
                if same {
                    assert(extensions@[i as int]@ == dotted@);
                    assert(views(extensions@)[i as int] == dotted@);
                    assert(views(extensions@).contains(seq!['.'] + e@));
                    return true;
                }
                i = i + 1;
            }
            assert(!views(extensions@).contains(dotted@)) by {
                if views(extensions@).contains(dotted@) {
                    let k = choose|k: int| 0 <= k < views(extensions@).len() && views(extensions@)[k] == dotted@;
                    assert(extensions@[k]@ == dotted@);
                }
            }
            false
        },
        None => false,
    }
}


/// Whether a file with extension `ext` (without its dot) has one of
/// `extensions` (with their dots).
pub open spec fn ext_listed(ext: Option<Seq<char>>, extensions: Seq<Seq<char>>) -> bool {
    match ext {
        Some(e) => extensions.contains(seq!['.'] + e),
        None => false,
    }
}

/// The paths of the entries (path and extension) whose extension is listed,
/// in the order of the entries.
pub open spec fn listed_paths_spec(entries: Seq<(Seq<char>, Option<Seq<char>>)>, extensions: Seq<Seq<char>>) -> Seq<Seq<char>>
    decreases entries.len(),
{
    if entries.len() == 0 {
        Seq::empty()
    } else {
        let prev = listed_paths_spec(entries.drop_last(), extensions);
        if ext_listed(entries.last().1, extensions) {
            prev.push(entries.last().0)
        } else {
            prev
        }
    }
}

/// An extension as a path gives it: it does not start with a dot.
pub open spec fn no_leading_dot(ext: Option<Seq<char>>) -> bool {
    match ext {
        Some(e) => !(e.len() > 0 && e[0] == '.'),
        None => true,
    }
}

pub open spec fn entries_view(entries: Seq<(String, Option<String>)>) -> Seq<(Seq<char>, Option<Seq<char>>)> {
    entries.map_values(|p: (String, Option<String>)| (p.0@, match p.1 { Some(e) => Some(e@), None => None }))
}

/// The paths, in order, of the files of a directory listing (each path with
/// its extension, if it has one) whose extension is one of `extensions`
/// (given with their dots); files without an extension are left out.
pub fn listed_paths(entries: &Vec<(String, Option<String>)>, extensions: &Vec<String>) -> (r: Vec<String>)
    requires
        forall|i: int| 0 <= i < entries@.len() ==> no_leading_dot(#[trigger] entries_view(entries@)[i].1),
    ensures
        views(r@) == listed_paths_spec(entries_view(entries@), views(extensions@)),
{
    let ghost ev = entries_view(entries@);
    let mut r: Vec<String> = Vec::new();
    let mut i: usize = 0;
    proof {
        assert(ev.take(0) =~= Seq::<(Seq<char>, Option<Seq<char>>)>::empty());
        assert(views(r@) =~= Seq::<Seq<char>>::empty());
    }
    while i < entries.len()
        invariant
            i <= entries@.len(),
            ev == entries_view(entries@),
            views(r@) == listed_paths_spec(ev.take(i as int), views(extensions@)),
        decreases entries.len() - i,
    {
        let ghost before = views(r@);
        proof {
            assert(ev.take(i + 1).drop_last() =~= ev.take(i as int));
            assert(ev.take(i + 1).last() == ev[i as int]);
        }
        let listed = match &entries[i].1 {
            Some(e) => extension_listed(Some(e.as_str()), extensions),
            None => extension_listed(None, extensions),
        };
        if listed {
            let p = String::from_str(entries[i].0.as_str());
            let ghost pv = p@;
            r.push(p);
            proof {
                assert(views(r@) =~= before.push(pv));
            }
        }
        i = i + 1;
    }
    assert(ev.take(entries@.len() as int) =~= ev);
    r
}

/// A moment broken down as the calendar gives it: day of the year (from
/// 0), year, day of the week (0 is Sunday), month (0 is January), day of
/// the month, hour, minute and second.
#[derive(Clone, Copy, Debug)]
pub struct CalendarTime {
    pub yday: u16,
    pub year: u32,
    pub wday: u8,
    pub mon: u8,
    pub mday: u8,
    pub hour: u8,
    pub min: u8,
    pub sec: u8,
}

/// Whether the fields are those of a calendar.
pub open spec fn calendar_ok(t: CalendarTime) -> bool {
    t.wday < 7 && t.mon < 12 && t.mday <= 31 && t.hour < 24 && t.min < 60 && t.sec < 61
}

/// `n` written with at least two digits.
pub open spec fn two_digits(n: nat) -> Seq<char> {
    if n < 10 { seq!['0'] + nat_str(n) } else { nat_str(n) }
}

/// `n` written in at least two places, padded with a space.
pub open spec fn two_places(n: nat) -> Seq<char> {
    if n < 10 { seq![' '] + nat_str(n) } else { nat_str(n) }
}

pub open spec fn day_names() -> Seq<Seq<char>> {
    seq!["Sun"@, "Mon"@, "Tue"@, "Wed"@, "Thu"@, "Fri"@, "Sat"@]
}

pub open spec fn month_names() -> Seq<Seq<char>> {
    seq!["Jan"@, "Feb"@, "Mar"@, "Apr"@, "May"@, "Jun"@, "Jul"@, "Aug"@, "Sep"@, "Oct"@, "Nov"@, "Dec"@]
}

/// A time as ctime writes it: "Thu Jan  1 00:00:00 1970".
pub open spec fn ctime_spec(t: CalendarTime) -> Seq<char> {
    day_names()[t.wday as int] + " "@ + month_names()[t.mon as int] + " "@ + two_places(t.mday as nat) + " "@
        + two_digits(t.hour as nat) + ":"@ + two_digits(t.min as nat) + ":"@ + two_digits(t.sec as nat) + " "@
        + nat_str(t.year as nat)
}

/// `n` divided by `d`, rounded to the nearest (halves up).
pub open spec fn rounded(n: nat, d: nat) -> nat {
    (n + d / 2) / d
}

/// How long `elapsed_ms` milliseconds (under a day) is: "42 seconds",
/// "1 minute", "3 hours", rounded to the nearest.
pub open spec fn same_day_spec(elapsed_ms: nat) -> Seq<char> {
    let (value, units) = if elapsed_ms < 60_000 {
        (rounded(elapsed_ms, 1000), "second"@)
    } else if elapsed_ms < 3_600_000 {
        (rounded(elapsed_ms, 60_000), "minute"@)
    } else {
        (rounded(elapsed_ms, 3_600_000), "hour"@)
    };
    nat_str(value) + " "@ + units + if value == 1 { Seq::empty() } else { "s"@ }
}

/// How far `time` is from `current` (each also given in milliseconds since
/// the epoch): "now"; on the same day (same year and day of the year),
/// "2 minutes ago" or "4 hours from now"; a day apart in the same year,
/// "Yesterday 18:06" or "Tomorrow 09:30"; else the time as ctime writes it.
pub open spec fn delta_spec(time: CalendarTime, current: CalendarTime, time_ms: int, current_ms: int) -> Seq<char> {
    let elapsed = if time_ms < current_ms { current_ms - time_ms } else { time_ms - current_ms };
    if time_ms == current_ms {
        "now"@
    } else if time.year == current.year && time.yday == current.yday {
        same_day_spec(elapsed as nat) + if time_ms < current_ms { " ago"@ } else { " from now"@ }
    } else if time.year == current.year && (time.yday + 1 == current.yday || current.yday + 1 == time.yday) {
        (if time_ms < current_ms { "Yesterday "@ } else { "Tomorrow "@ }) + two_digits(time.hour as nat) + ":"@
            + two_digits(time.min as nat)
    } else {
        ctime_spec(time)
    }
}

/// `rounded` rounds to the nearest: `n` lies within half a `d` of the
/// result times `d` (halves going up).
pub proof fn lemma_rounded_nearest(n: nat, d: nat)
    requires
        d > 0,
    ensures
        d * rounded(n, d) <= n + d / 2 < d * (rounded(n, d) + 1),
{
    let r = rounded(n, d);
    let m = n + d / 2;
    assert(m == d * (m / d) + m % d) by (nonlinear_arith)
        requires d > 0;
    assert(0 <= m % d < d) by (nonlinear_arith)
        requires d > 0;
    assert(d * (r + 1) == d * r + d) by (nonlinear_arith);
}

/// The wording of a delta follows the direction of time: a time before now
/// on the same day is said to be so long "ago", one after it "from now";
/// a day apart, the one before is "Yesterday" and the one after
/// "Tomorrow"; the same moment is "now".
pub proof fn lemma_delta_direction(time: CalendarTime, current: CalendarTime, time_ms: int, current_ms: int)
    ensures
        time_ms == current_ms ==> delta_spec(time, current, time_ms, current_ms) == "now"@,
        time_ms < current_ms && time.year == current.year && time.yday == current.yday ==> ({
            let d = delta_spec(time, current, time_ms, current_ms);
            d.len() >= 4 && d.skip(d.len() - 4) == " ago"@
        }),
        time_ms > current_ms && time.year == current.year && time.yday == current.yday ==> ({
            let d = delta_spec(time, current, time_ms, current_ms);
            d.len() >= 9 && d.skip(d.len() - 9) == " from now"@
        }),
        time_ms < current_ms && time.year == current.year && time.yday != current.yday
            && (time.yday + 1 == current.yday || current.yday + 1 == time.yday)
            ==> delta_spec(time, current, time_ms, current_ms).take(10) == "Yesterday "@,
        time_ms > current_ms && time.year == current.year && time.yday != current.yday
            && (time.yday + 1 == current.yday || current.yday + 1 == time.yday)
            ==> delta_spec(time, current, time_ms, current_ms).take(9) == "Tomorrow "@,
{
    reveal_strlit(" ago");
    reveal_strlit(" from now");
    reveal_strlit("Yesterday ");
    reveal_strlit("Tomorrow ");
    let d = delta_spec(time, current, time_ms, current_ms);
    let elapsed = if time_ms < current_ms { current_ms - time_ms } else { time_ms - current_ms };
    let h = same_day_spec(elapsed as nat);
    if time_ms < current_ms && time.year == current.year && time.yday == current.yday {
        assert(d == h + " ago"@);
        assert(d.skip(d.len() - 4) =~= " ago"@);
    }
    if time_ms > current_ms && time.year == current.year && time.yday == current.yday {
        assert(d == h + " from now"@);
        assert(d.skip(d.len() - 9) =~= " from now"@);
    }
    let hm = two_digits(time.hour as nat) + ":"@ + two_digits(time.min as nat);
    if time_ms < current_ms && time.year == current.year && time.yday != current.yday
        && (time.yday + 1 == current.yday || current.yday + 1 == time.yday) {
        assert(d == "Yesterday "@ + hm);
        assert(d.take(10) =~= "Yesterday "@);
    }
    if time_ms > current_ms && time.year == current.year && time.yday != current.yday
        && (time.yday + 1 == current.yday || current.yday + 1 == time.yday) {
        assert(d == "Tomorrow "@ + hm);
        assert(d.take(9) =~= "Tomorrow "@);
    }
}

proof fn lemma_name_lengths(d: int, m: int)
    requires
        0 <= d < 7,
        0 <= m < 12,
    ensures
        day_names()[d].len() == 3,
        month_names()[m].len() == 3,
{
    reveal_strlit("Sun"); reveal_strlit("Mon"); reveal_strlit("Tue"); reveal_strlit("Wed");
    reveal_strlit("Thu"); reveal_strlit("Fri"); reveal_strlit("Sat");
    reveal_strlit("Jan"); reveal_strlit("Feb"); reveal_strlit("Mar"); reveal_strlit("Apr");
    reveal_strlit("May"); reveal_strlit("Jun"); reveal_strlit("Jul"); reveal_strlit("Aug");
    reveal_strlit("Sep"); reveal_strlit("Oct"); reveal_strlit("Nov"); reveal_strlit("Dec");
}

/// ctime starts with the day of the week and then the month, each written
/// as its usual three-letter English abbreviation (days from Sunday, months
/// from January) and followed by a space.
pub proof fn lemma_ctime_names(t: CalendarTime)
    requires
        calendar_ok(t),
    ensures
        ctime_spec(t).subrange(0, 3) == (if t.wday == 0 { "Sun"@ } else if t.wday == 1 { "Mon"@ }
            else if t.wday == 2 { "Tue"@ } else if t.wday == 3 { "Wed"@ } else if t.wday == 4 { "Thu"@ }
            else if t.wday == 5 { "Fri"@ } else { "Sat"@ }),
        ctime_spec(t)[3] == ' ',
        ctime_spec(t).subrange(4, 7) == (if t.mon == 0 { "Jan"@ } else if t.mon == 1 { "Feb"@ }
            else if t.mon == 2 { "Mar"@ } else if t.mon == 3 { "Apr"@ } else if t.mon == 4 { "May"@ }
            else if t.mon == 5 { "Jun"@ } else if t.mon == 6 { "Jul"@ } else if t.mon == 7 { "Aug"@ }
            else if t.mon == 8 { "Sep"@ } else if t.mon == 9 { "Oct"@ } else if t.mon == 10 { "Nov"@ }
            else { "Dec"@ }),
        ctime_spec(t)[7] == ' ',
{
    reveal_strlit(" ");
    let day = day_names()[t.wday as int];
    let month = month_names()[t.mon as int];
    lemma_name_lengths(t.wday as int, t.mon as int);
    let rest = two_places(t.mday as nat) + " "@ + two_digits(t.hour as nat) + ":"@ + two_digits(t.min as nat)
        + ":"@ + two_digits(t.sec as nat) + " "@ + nat_str(t.year as nat);
    let whole = day + " "@ + month + " "@ + rest;
    assert(ctime_spec(t) == whole);
    assert(whole.subrange(0, 3) =~= day);
    assert(whole.subrange(4, 7) =~= month);
    assert(whole[3] == ' ');
    assert(whole[7] == ' ');
}

fn append_two_digits(s: &mut String, n: u8)
    ensures
        final(s)@ == old(s)@ + two_digits(n as nat),
{
    if n < 10 {
        crate::text::push_char(s, '0');
    }
    append_nat(s, n as u64);
    assert(final(s)@ =~= old(s)@ + two_digits(n as nat));
}

fn append_two_places(s: &mut String, n: u8)
    ensures
        final(s)@ == old(s)@ + two_places(n as nat),
{
    if n < 10 {
        crate::text::push_char(s, ' ');
    }
    append_nat(s, n as u64);
    assert(final(s)@ =~= old(s)@ + two_places(n as nat));
}

fn day_name(d: u8) -> (r: &'static str)
    requires
        d < 7,
    ensures
        r@ == day_names()[d as int],
{
    if d == 0 { "Sun" } else if d == 1 { "Mon" } else if d == 2 { "Tue" } else if d == 3 { "Wed" }
    else if d == 4 { "Thu" } else if d == 5 { "Fri" } else { "Sat" }
}

fn month_name(m: u8) -> (r: &'static str)
    requires
        m < 12,
    ensures
        r@ == month_names()[m as int],
{
    if m == 0 { "Jan" } else if m == 1 { "Feb" } else if m == 2 { "Mar" } else if m == 3 { "Apr" }
    else if m == 4 { "May" } else if m == 5 { "Jun" } else if m == 6 { "Jul" } else if m == 7 { "Aug" }
    else if m == 8 { "Sep" } else if m == 9 { "Oct" } else if m == 10 { "Nov" } else { "Dec" }
}

/// A time as ctime writes it (see `ctime_spec`).
pub fn ctime(t: &CalendarTime) -> (r: String)
    requires
        calendar_ok(*t),
    ensures
        r@ == ctime_spec(*t),
{
    let mut r = String::from_str(day_name(t.wday));
    r.append(" ");
    r.append(month_name(t.mon));
    r.append(" ");
    append_two_places(&mut r, t.mday);
    r.append(" ");
    append_two_digits(&mut r, t.hour);
    r.append(":");
    append_two_digits(&mut r, t.min);
    r.append(":");
    append_two_digits(&mut r, t.sec);
    r.append(" ");
    append_nat(&mut r, t.year as u64);
    r
}

/// How far `time` is from `current` (see `delta_spec`).
pub fn tm_to_delta_str(time: &CalendarTime, current: &CalendarTime, time_ms: i64, current_ms: i64) -> (r: String)
    requires
        calendar_ok(*time),
    ensures
        r@ == delta_spec(*time, *current, time_ms as int, current_ms as int),
{
    if time_ms == current_ms {
        return String::from_str("now");
    }
    if time.year == current.year && time.yday == current.yday {
        let t: i128 = time_ms as i128;
        let c: i128 = current_ms as i128;
        let elapsed: u128 = if t < c { (c - t) as u128 } else { (t - c) as u128 };
        let (value, units) = if elapsed < 60_000 {
            ((elapsed + 500) / 1000, "second")
        } else if elapsed < 3_600_000 {
            ((elapsed + 30_000) / 60_000, "minute")
        } else {
            ((elapsed + 1_800_000) / 3_600_000, "hour")
        };
        let mut r = String::new();
        append_nat(&mut r, value as u64);
        r.append(" ");
        r.append(units);
        if value != 1 {
            r.append("s");
        }
        if time_ms < current_ms {
            r.append(" ago");
        } else {
            r.append(" from now");
        }
        return r;
    }
    if time.year == current.year && (time.yday as u32 + 1 == current.yday as u32 || current.yday as u32 + 1 == time.yday as u32) {
        let mut r = if time_ms < current_ms { String::from_str("Yesterday ") } else { String::from_str("Tomorrow ") };
        append_two_digits(&mut r, time.hour);
        r.append(":");
        append_two_digits(&mut r, time.min);
        return r;
    }
    ctime(time)
}

/// The tenths of millions (units of 1024*1024) in `v`, rounded to the
/// nearest, ties to even.
pub open spec fn mega_tenths(v: nat) -> nat {
    let q = (v * 10) / 1048576;
    let r = (v * 10) % 1048576;
    if r > 524288 || (r == 524288 && q % 2 == 1) { q + 1 } else { q }
}

/// A count written briefly: "234" below 10K, "200K" below 1M (in units of
/// 1024), "3.2M" above (to a tenth, the nearest tenth, ties to even).
pub open spec fn i64_to_unit_str_spec(v: i64) -> Seq<char> {
    if v < 10 * 1024 {
        int_str(v as int)
    } else if v < 1024 * 1024 {
        int_str(v / 1024) + "K"@
    } else {
        let t = mega_tenths(v as nat);
        nat_str(t / 10) + seq!['.', digit_char(t % 10)] + "M"@
    }
}

/// Writes a count briefly (see `i64_to_unit_str_spec`).
pub fn i64_to_unit_str(value: i64) -> (r: String)
    ensures
        r@ == i64_to_unit_str_spec(value),
{
    if value < 10 * 1024 {
        let mut r = String::new();
        append_int(&mut r, value);
        assert(r@ =~= int_str(value as int));
        r
    } else if value < 1024 * 1024 {
        let mut r = String::new();
        append_int(&mut r, value / 1024);
        r.append("K");
        assert(r@ =~= int_str(value / 1024) + "K"@);
        r
    } else {
        let v: u128 = value as u128;
        let q: u128 = (v * 10) / 1048576;
        let rem: u128 = (v * 10) % 1048576;
        let t: u128 = if rem > 524288 || (rem == 524288 && q % 2 == 1) { q + 1 } else { q };
        assert(t == mega_tenths(value as nat));
        assert(t / 10 <= u64::MAX) by (nonlinear_arith)
            requires
                t <= (v * 10) / 1048576 + 1,
                v <= 9223372036854775807u128,
        {}
        let mut r = String::new();
        append_nat(&mut r, (t / 10) as u64);
        crate::text::push_char(&mut r, '.');
        crate::text::push_char(&mut r, digit_of_u128(t % 10));
        r.append("M");
        assert(r@ =~= nat_str((t / 10) as nat) + seq!['.', digit_char((t % 10) as nat)] + "M"@);
        r
    }
}

fn digit_of_u128(d: u128) -> (r: char)
    requires
        d < 10,
    ensures
        r == digit_char(d as nat),
{
    if d == 0 { '0' }
    else if d == 1 { '1' }
    else if d == 2 { '2' }
    else if d == 3 { '3' }
    else if d == 4 { '4' }
    else if d == 5 { '5' }
    else if d == 6 { '6' }
    else if d == 7 { '7' }
    else if d == 8 { '8' }
    else { '9' }
}

} // verus!
