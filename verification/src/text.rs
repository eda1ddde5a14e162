//! Small helpers for building and inspecting text.
use vstd::prelude::*;

verus! {

/// Appends a character to a string.
///
/// Calls `String::push`, which appends the character to the end of the
/// string; the contract states exactly that.
#[verifier::external_body]
pub(crate) fn push_char(s: &mut String, c: char)
    ensures
        final(s)@ == old(s)@.push(c),
{
    s.push(c);
}

/// The characters of a string, in order.
pub fn chars_of(s: &str) -> (r: Vec<char>)
    ensures
        r@ == s@,
{
    let mut r: Vec<char> = Vec::new();
    for c in it: s.chars()
        invariant
            r@ == it.seq().take(it.index() as int),
    {
        r.push(c);
    }
    r
}


/// A string holding the given characters.
pub fn string_of(chars: &Vec<char>) -> (r: String)
    ensures
        r@ == chars@,
{
    let mut r = String::new();
    let mut i: usize = 0;
    while i < chars.len()
        invariant
            i <= chars.len(),
            r@ == chars@.take(i as int),
        decreases chars.len() - i,
    {
        push_char(&mut r, chars[i]);
        i = i + 1;
        assert(r@ =~= chars@.take(i as int));
    }
    assert(chars@.take(chars.len() as int) =~= chars@);
    r
}

/// The decimal digit for `d`.
pub open spec fn digit_char(d: nat) -> char {
    if d == 0 { '0' }
    else if d == 1 { '1' }
    else if d == 2 { '2' }
    else if d == 3 { '3' }
    else if d == 4 { '4' }
    else if d == 5 { '5' }
    else if d == 6 { '6' }
    else if d == 7 { '7' }
    else if d == 8 { '8' }
    else { '9' }
}

/// The decimal text of a natural number, without leading zeros.
pub open spec fn nat_str(n: nat) -> Seq<char>
    decreases n,
{
    if n < 10 {
        seq![digit_char(n)]
    } else {
        nat_str(n / 10).push(digit_char(n % 10))
    }
}

/// The decimal text of an integer: a minus sign before negative numbers.
pub open spec fn int_str(n: int) -> Seq<char> {
    if n < 0 {
        seq!['-'] + nat_str((-n) as nat)
    } else {
        nat_str(n as nat)
    }
}

fn digit_of(d: u64) -> (r: char)
    requires
        d < 10,
    ensures
        r == digit_char(d as nat),
{
    if d == 0 { '0' }
    else if d == 1 { '1' }
    else if d == 2 { '2' }
    else if d == 3 { '3' }
    else if d == 4 { '4' }
    else if d == 5 { '5' }
    else if d == 6 { '6' }
    else if d == 7 { '7' }
    else if d == 8 { '8' }
    else { '9' }
}

/// Appends the decimal text of `n`.
pub fn append_nat(s: &mut String, n: u64)
    ensures
        final(s)@ == old(s)@ + nat_str(n as nat),
    decreases n,
{
    if n >= 10 {
        append_nat(s, n / 10);
        push_char(s, digit_of(n % 10));
        assert(final(s)@ =~= old(s)@ + nat_str(n as nat)) by {
            assert(nat_str(n as nat) == nat_str((n / 10) as nat).push(digit_char((n % 10) as nat)));
        }
    } else {
        push_char(s, digit_of(n));
        assert(final(s)@ =~= old(s)@ + nat_str(n as nat));
    }
}

/// Appends the decimal text of `n`, with a minus sign if it is negative.
pub fn append_int(s: &mut String, n: i64)
    ensures
        final(s)@ == old(s)@ + int_str(n as int),
{
    if n < 0 {
        push_char(s, '-');
        let m: u64 = if n == i64::MIN { 9223372036854775808u64 } else { (-n) as u64 };
        append_nat(s, m);
        assert(final(s)@ =~= old(s)@ + int_str(n as int));
    } else {
        append_nat(s, n as u64);
    }
}

/// The decimal text of `n`.
pub fn int_to_string(n: i64) -> (r: String)
    ensures
        r@ == int_str(n as int),
{
    let mut r = String::new();
    append_int(&mut r, n);
    assert(r@ =~= int_str(n as int));
    r
}


/// The characters `chars[from..to]` as a string.
pub fn sub_string(chars: &Vec<char>, from: usize, to: usize) -> (r: String)
    requires
        from <= to <= chars@.len(),
    ensures
        r@ == chars@.subrange(from as int, to as int),
{
    let mut r = String::new();
    let mut i: usize = from;
    while i < to
        invariant
            from <= i <= to <= chars@.len(),
            r@ == chars@.subrange(from as int, i as int),
        decreases to - i,
    {
        push_char(&mut r, chars[i]);
        i = i + 1;
        assert(r@ =~= chars@.subrange(from as int, i as int));
    }
    r
}

/// Whether `pattern` occurs in `s` at index `i`.
pub open spec fn matches_at(s: Seq<char>, pattern: Seq<char>, i: int) -> bool {
    0 <= i && i + pattern.len() <= s.len() && s.subrange(i, i + pattern.len()) == pattern
}

/// The first index at or after `i` at which `pattern` occurs in `s`.
pub open spec fn find_from(s: Seq<char>, pattern: Seq<char>, i: nat) -> Option<nat>
    decreases s.len() + 1 - i,
{
    if i + pattern.len() > s.len() {
        None
    } else if matches_at(s, pattern, i as int) {
        Some(i)
    } else {
        find_from(s, pattern, i + 1)
    }
}

/// The first index at or after `i` at which the character `c` occurs in `s`.
pub open spec fn find_char_from(s: Seq<char>, c: char, i: nat) -> Option<nat>
    decreases s.len() - i,
{
    if i >= s.len() {
        None
    } else if s[i as int] == c {
        Some(i)
    } else {
        find_char_from(s, c, i + 1)
    }
}

fn matches_at_exec(s: &Vec<char>, pattern: &Vec<char>, i: usize) -> (r: bool)
    ensures
        r == matches_at(s@, pattern@, i as int),
{
    if i > s.len() || pattern.len() > s.len() - i {
        return false;
    }
    let mut k: usize = 0;
    let n = s.len();
    while k < pattern.len()
        invariant
            i + pattern@.len() <= s@.len(),
            s@.len() == n,
            k <= pattern@.len(),
            forall|j: int| 0 <= j < k ==> s@[i + j] == pattern@[j],
        decreases pattern.len() - k,
    {
        if s[i + k] != pattern[k] {
            assert(s@.subrange(i as int, i + pattern@.len())[k as int] != pattern@[k as int]);
            return false;
        }
        k = k + 1;
    }
    assert(s@.subrange(i as int, i + pattern@.len()) =~= pattern@);
    true
}

/// The first index at or after `from` at which `pattern` occurs in `s`.
pub fn find_str_from(s: &Vec<char>, pattern: &Vec<char>, from: usize) -> (r: Option<usize>)
    ensures
        r matches Some(i) ==> find_from(s@, pattern@, from as nat) == Some(i as nat),
        r is None ==> find_from(s@, pattern@, from as nat) is None,
{
    if pattern.len() == 0 {
        if from <= s.len() {
            assert(s@.subrange(from as int, from as int) =~= pattern@);
            return Some(from);
        } else {
            return None;
        }
    }
    let mut i: usize = from;
    while i <= s.len() && pattern.len() <= s.len() - i
        invariant
            from <= i,
            pattern@.len() > 0,
            find_from(s@, pattern@, from as nat) == find_from(s@, pattern@, i as nat),
        decreases s.len() + 1 - i,
    {
        if matches_at_exec(s, pattern, i) {
            return Some(i);
        }
        i = i + 1;
    }
    None
}

/// The first index at or after `from` at which `c` occurs in `s`.
pub fn find_char_from_exec(s: &Vec<char>, c: char, from: usize) -> (r: Option<usize>)
    ensures
        r matches Some(i) ==> find_char_from(s@, c, from as nat) == Some(i as nat),
        r is None ==> find_char_from(s@, c, from as nat) is None,
{
    let mut i: usize = from;
    while i < s.len()
        invariant
            from <= i,
            find_char_from(s@, c, from as nat) == find_char_from(s@, c, i as nat),
        decreases s.len() - i,
    {
        if s[i] == c {
            return Some(i);
        }
        i = i + 1;
    }
    None
}

/// Facts about a found occurrence of a character.
pub proof fn lemma_find_char_from(s: Seq<char>, c: char, i: nat)
    ensures
        find_char_from(s, c, i) matches Some(k) ==> i <= k < s.len() && s[k as int] == c,
    decreases s.len() - i,
{
    if i < s.len() && s[i as int] != c {
        lemma_find_char_from(s, c, i + 1);
    }
}

/// Facts about a found occurrence of a pattern.
pub proof fn lemma_find_from(s: Seq<char>, p: Seq<char>, i: nat)
    ensures
        find_from(s, p, i) matches Some(k) ==> i <= k && k + p.len() <= s.len(),
    decreases s.len() + 1 - i,
{
    if i + p.len() <= s.len() && !matches_at(s, p, i as int) {
        lemma_find_from(s, p, i + 1);
    }
}


/// Splitting `s` at each `sep`, left to right: the pieces already ended and
/// the piece being read.
pub open spec fn split_acc(s: Seq<char>, sep: char) -> (Seq<Seq<char>>, Seq<char>)
    decreases s.len(),
{
    if s.len() == 0 {
        (Seq::empty(), Seq::empty())
    } else {
        let (done, cur) = split_acc(s.drop_last(), sep);
        if s.last() == sep {
            (done.push(cur), Seq::empty())
        } else {
            (done, cur.push(s.last()))
        }
    }
}

/// The pieces of `s` between the occurrences of `sep` (one more piece than
/// there are separators; pieces may be empty).
pub open spec fn split_on(s: Seq<char>, sep: char) -> Seq<Seq<char>> {
    split_acc(s, sep).0.push(split_acc(s, sep).1)
}

/// The pieces joined back together with `sep` between them.
pub open spec fn join_with(pieces: Seq<Seq<char>>, sep: char) -> Seq<char>
    decreases pieces.len(),
{
    if pieces.len() == 0 {
        Seq::empty()
    } else if pieces.len() == 1 {
        pieces[0]
    } else {
        join_with(pieces.drop_last(), sep) + seq![sep] + pieces.last()
    }
}

/// Splits `s` at each `sep`.
pub fn split_char(s: &str, sep: char) -> (r: Vec<String>)
    ensures
        r@.len() == split_on(s@, sep).len(),
        forall|i: int| 0 <= i < r@.len() ==> #[trigger] r@[i]@ == split_on(s@, sep)[i],
{
    let chars = chars_of(s);
    let mut done: Vec<String> = Vec::new();
    let mut cur: Vec<char> = Vec::new();
    let mut i: usize = 0;
    while i < chars.len()
        invariant
            i <= chars@.len(),
            chars@ == s@,
            done@.len() == split_acc(chars@.take(i as int), sep).0.len(),
            forall|k: int| 0 <= k < done@.len() ==> #[trigger] done@[k]@ == split_acc(chars@.take(i as int), sep).0[k],
            cur@ == split_acc(chars@.take(i as int), sep).1,
        decreases chars.len() - i,
    {
        proof {
            assert(chars@.take(i + 1).drop_last() =~= chars@.take(i as int));
        }
        let c = chars[i];
        if c == sep {
            done.push(string_of(&cur));
            cur = Vec::new();
        } else {
            cur.push(c);
        }
        i = i + 1;
    }
    assert(chars@.take(chars.len() as int) =~= chars@);
    done.push(string_of(&cur));
    done
}

/// Joining the pieces of a split gives back the text, and no piece holds the
/// separator.
pub proof fn lemma_split_join(s: Seq<char>, sep: char)
    ensures
        join_with(split_on(s, sep), sep) == s,
        forall|i: int| 0 <= i < split_on(s, sep).len() ==> !(#[trigger] split_on(s, sep)[i]).contains(sep),
    decreases s.len(),
{
    lemma_split_acc(s, sep);
}

proof fn lemma_split_acc(s: Seq<char>, sep: char)
    ensures
        join_with(split_acc(s, sep).0.push(split_acc(s, sep).1), sep) == s,
        forall|i: int| 0 <= i < split_acc(s, sep).0.len() ==> !(#[trigger] split_acc(s, sep).0[i]).contains(sep),
        !split_acc(s, sep).1.contains(sep),
    decreases s.len(),
{
    let (done, cur) = split_acc(s, sep);
    if s.len() == 0 {
        assert(done.push(cur) =~= seq![Seq::<char>::empty()]);
    } else {
        let init = s.drop_last();
        lemma_split_acc(init, sep);
        let (d0, c0) = split_acc(init, sep);
        let p0 = d0.push(c0);
        if s.last() == sep {
            let p = d0.push(c0).push(Seq::<char>::empty());
            assert(done.push(cur) =~= p);
            assert(p.drop_last() =~= p0);
            assert(join_with(p, sep) =~= join_with(p0, sep) + seq![sep]);
            assert(s =~= init + seq![sep]);
            assert forall|i: int| 0 <= i < done.len() implies !(#[trigger] done[i]).contains(sep) by {
                if i < d0.len() {
                    assert(done[i] == d0[i]);
                } else {
                    assert(done[i] == c0);
                }
            }
        } else {
            let p = d0.push(c0.push(s.last()));
            assert(done.push(cur) =~= p);
            lemma_join_last_grows(d0, c0, s.last(), sep);
            assert(s =~= init.push(s.last()));
            assert(!cur.contains(sep)) by {
                if cur.contains(sep) {
                    let k = choose|k: int| 0 <= k < cur.len() && cur[k] == sep;
                    if k < c0.len() {
                        assert(c0[k] == sep);
                    }
                }
            }
        }
    }
}

proof fn lemma_join_last_grows(d: Seq<Seq<char>>, c: Seq<char>, x: char, sep: char)
    ensures
        join_with(d.push(c.push(x)), sep) == join_with(d.push(c), sep).push(x),
{
    let a = d.push(c.push(x));
    let b = d.push(c);
    assert(a.drop_last() =~= d);
    assert(b.drop_last() =~= d);
    if d.len() == 0 {
    } else {
        assert(join_with(a, sep) =~= join_with(b, sep).push(x));
    }
}


/// Whether two strings hold the same characters.
pub fn str_eq(a: &str, b: &str) -> (r: bool)
    ensures
        r == (a@ == b@),
{
    let x = chars_of(a);
    let y = chars_of(b);
    if x.len() != y.len() {
        return false;
    }
    let mut i: usize = 0;
    while i < x.len()
        invariant
            i <= x@.len(),
            x@.len() == y@.len(),
            x@ == a@,
            y@ == b@,
            forall|k: int| 0 <= k < i ==> x@[k] == y@[k],
        decreases x.len() - i,
    {
        if x[i] != y[i] {
            return false;
        }
        i = i + 1;
    }
    assert(x@ =~= y@);
    true
}


/// The pieces joined together with the text `sep` between them.
pub open spec fn join_str(pieces: Seq<Seq<char>>, sep: Seq<char>) -> Seq<char>
    decreases pieces.len(),
{
    if pieces.len() == 0 {
        Seq::empty()
    } else if pieces.len() == 1 {
        pieces[0]
    } else {
        join_str(pieces.drop_last(), sep) + sep + pieces.last()
    }
}

/// The texts of a list of strings.
pub open spec fn texts_of(v: Seq<String>) -> Seq<Seq<char>> {
    v.map_values(|s: String| s@)
}

/// Joins the strings with `sep` between them.
pub fn join_strings(pieces: &Vec<String>, sep: &str) -> (r: String)
    ensures
        r@ == join_str(texts_of(pieces@), sep@),
{
    let mut r = String::new();
    let mut i: usize = 0;
    while i < pieces.len()
        invariant
            i <= pieces@.len(),
            r@ == join_str(texts_of(pieces@.take(i as int)), sep@),
        decreases pieces.len() - i,
    {
        let ghost before = texts_of(pieces@.take(i as int));
        if i > 0 {
            r.append(sep);
        }
        r.append(pieces[i].as_str());
        proof {
            let after = texts_of(pieces@.take(i + 1));
            assert(after.drop_last() =~= before);
            assert(after.last() == pieces@[i as int]@);
            if i == 0 {
                assert(after =~= seq![pieces@[0]@]);
            }
        }
        i = i + 1;
    }
    assert(pieces@.take(pieces@.len() as int) =~= pieces@);
    r
}

} // verus!
