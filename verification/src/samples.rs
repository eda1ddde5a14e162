//! The sample sets kept for charts: named ring buffers of samples.
use vstd::prelude::*;
use crate::ring_buffer::{RingBuffer, ring_push};
use crate::text::{append_nat, join_str, join_strings, nat_str, texts_of};

verus! {

/// Named sample sets, each a ring buffer, and the number of samples added
/// over all of them.
pub struct SampleSets<T> {
    names: Vec<String>,
    buffers: Vec<RingBuffer<T>>,
    num_adds: usize,
}

impl<T> SampleSets<T> {
    /// The contents of each sample set, by name.
    pub closed spec fn sets(&self) -> Map<Seq<char>, Seq<T>> {
        Map::new(
            |n: Seq<char>| exists|i: int| 0 <= i < self.names@.len() && self.names@[i]@ == n,
            |n: Seq<char>| self.buffers@[self.index_of(n)]@,
        )
    }

    /// The capacity of each sample set, by name.
    pub closed spec fn capacities(&self) -> Map<Seq<char>, nat> {
        Map::new(
            |n: Seq<char>| exists|i: int| 0 <= i < self.names@.len() && self.names@[i]@ == n,
            |n: Seq<char>| self.buffers@[self.index_of(n)].spec_capacity(),
        )
    }

    /// The number of samples added over all sample sets.
    pub closed spec fn spec_num_adds(&self) -> nat {
        self.num_adds as nat
    }

    closed spec fn index_of(&self, n: Seq<char>) -> int {
        choose|i: int| 0 <= i < self.names@.len() && self.names@[i]@ == n
    }

    /// Well-formedness: one buffer per name, names distinct, every buffer
    /// well formed and able to hold at least one sample.
    pub closed spec fn wf(&self) -> bool {
        &&& self.names@.len() == self.buffers@.len()
        &&& forall|i: int, j: int| 0 <= i < j < self.names@.len() ==> self.names@[i]@ != self.names@[j]@
        &&& forall|i: int| 0 <= i < self.buffers@.len() ==> (#[trigger] self.buffers@[i]).wf()
        &&& forall|i: int| 0 <= i < self.buffers@.len() ==> (#[trigger] self.buffers@[i]).spec_capacity() > 0
    }

    proof fn lemma_index_of(&self, i: int)
        requires
            self.wf(),
            0 <= i < self.names@.len(),
        ensures
            self.index_of(self.names@[i]@) == i,
    {
        let n = self.names@[i]@;
        let j = self.index_of(n);
        assert(0 <= j < self.names@.len() && self.names@[j]@ == n);
    }

    /// No sample sets.
    pub fn new() -> (r: Self)
        ensures
            r.wf(),
            r.sets() == Map::<Seq<char>, Seq<T>>::empty(),
            r.capacities() == Map::<Seq<char>, nat>::empty(),
            r.spec_num_adds() == 0,
    {
        let r = SampleSets { names: Vec::new(), buffers: Vec::new(), num_adds: 0 };
        assert(r.sets() =~= Map::<Seq<char>, Seq<T>>::empty());
        assert(r.capacities() =~= Map::<Seq<char>, nat>::empty());
        r
    }

    fn find(&self, name: &str) -> (r: Option<usize>)
        requires
            self.wf(),
        ensures
            match r {
                Some(i) => i < self.names@.len() && self.names@[i as int]@ == name@,
                None => !self.sets().contains_key(name@),
            },
    {
        let mut i: usize = 0;
        while i < self.names.len()
            invariant
                i <= self.names@.len(),
                forall|k: int| 0 <= k < i ==> self.names@[k]@ != name@,
            decreases self.names.len() - i,
        {
            if crate::text::str_eq(self.names[i].as_str(), name) {
                return Some(i);
            }
            i = i + 1;
        }
        None
    }

    /// Adds a sample to the named set, creating the set with room for
    /// `capacity` samples if there is none of that name (the capacity of an
    /// existing set is kept).
    #[verifier::spinoff_prover]
    #[verifier::rlimit(30)]
    pub fn add_sample(&mut self, name: String, value: T, capacity: usize)
        requires
            old(self).wf(),
            old(self).sets().contains_key(name@) || capacity > 0,
        ensures
            final(self).wf(),
            final(self).spec_num_adds() == if old(self).spec_num_adds() == usize::MAX {
                0
            } else {
                old(self).spec_num_adds() + 1
            },
            old(self).sets().contains_key(name@) ==> {
                &&& final(self).capacities() == old(self).capacities()
                &&& final(self).sets() == old(self).sets().insert(
                    name@,
                    ring_push(old(self).sets()[name@], value, old(self).capacities()[name@]),
                )
            },
            !old(self).sets().contains_key(name@) ==> {
                &&& final(self).capacities() == old(self).capacities().insert(name@, capacity as nat)
                &&& final(self).sets() == old(self).sets().insert(name@, seq![value])
            },
    {
        let ghost old_self = *old(self);
        match self.find(name.as_str()) {
            Some(i) => {
                proof {
                    old_self.lemma_index_of(i as int);
                }
                let mut b = self.buffers.remove(i);
                b.push(value);
                self.buffers.insert(i, b);
                self.num_adds = if self.num_adds == usize::MAX { 0 } else { self.num_adds + 1 };
                proof {
                    assert(self.buffers@ =~= old_self.buffers@.update(i as int, b));
                    assert forall|k: int| 0 <= k < self.names@.len() implies self.index_of(#[trigger] self.names@[k]@) == k by {
                        self.lemma_index_of(k);
                    }
                    assert forall|k: int| 0 <= k < old_self.names@.len() implies old_self.index_of(#[trigger] old_self.names@[k]@) == k by {
                        old_self.lemma_index_of(k);
                    }
                    assert(self.sets() =~= old_self.sets().insert(
                        name@,
                        ring_push(old_self.sets()[name@], value, old_self.capacities()[name@]),
                    ));
                    assert(self.capacities() =~= old_self.capacities());
                }
            },
            None => {
                let mut b = RingBuffer::new(capacity);
                b.push(value);
                let ghost nm = name@;
                self.names.push(name);
                self.buffers.push(b);
                self.num_adds = if self.num_adds == usize::MAX { 0 } else { self.num_adds + 1 };
                proof {
                    assert(ring_push(Seq::<T>::empty(), value, capacity as nat) =~= seq![value]);
                    assert forall|k: int| 0 <= k < self.names@.len() implies self.index_of(#[trigger] self.names@[k]@) == k by {
                        self.lemma_index_of(k);
                    }
                    assert forall|k: int| 0 <= k < old_self.names@.len() implies old_self.index_of(#[trigger] old_self.names@[k]@) == k by {
                        old_self.lemma_index_of(k);
                    }
                    let last = self.names@.len() - 1;
                    assert(self.names@[last]@ == nm);
                    assert(self.buffers@[last]@ == seq![value]);
                    assert(self.index_of(nm) == last);
                    assert forall|n: Seq<char>| #[trigger] self.sets().contains_key(n)
                        == old_self.sets().insert(nm, seq![value]).contains_key(n) by {
                        if self.sets().contains_key(n) && n != nm {
                            let k = choose|k: int| 0 <= k < self.names@.len() && self.names@[k]@ == n;
                            assert(k < old_self.names@.len());
                            assert(old_self.names@[k]@ == n);
                        }
                        if old_self.sets().contains_key(n) {
                            let k = choose|k: int| 0 <= k < old_self.names@.len() && old_self.names@[k]@ == n;
                            assert(self.names@[k]@ == n);
                        }
                    }
                    assert forall|n: Seq<char>| #[trigger] self.sets().contains_key(n) implies self.sets()[n]
                        == old_self.sets().insert(nm, seq![value])[n] by {
                        if n != nm {
                            let k = choose|k: int| 0 <= k < self.names@.len() && self.names@[k]@ == n;
                            assert(k < old_self.names@.len());
                            assert(old_self.names@[k]@ == n);
                            assert(self.index_of(n) == k);
                            assert(old_self.index_of(n) == k);
                        }
                    }
                    assert(self.sets() =~= old_self.sets().insert(nm, seq![value]));
                    assert(self.capacities() =~= old_self.capacities().insert(nm, capacity as nat));
                }
            },
        }
    }

    /// Whether there is a sample set of that name.
    pub fn has_sample_set(&self, name: &str) -> (r: bool)
        requires
            self.wf(),
        ensures
            r == self.sets().contains_key(name@),
    {
        self.find(name).is_some()
    }

    /// A copy of the named sample set, which must exist, and the number of
    /// samples added over all sets.
    pub fn get_sample_set(&self, name: &str) -> (r: (RingBuffer<T>, usize))
        where
            T: Copy,
        requires
            self.wf(),
            self.sets().contains_key(name@),
        ensures
            r.0.wf(),
            r.0@ == self.sets()[name@],
            r.0.spec_capacity() == self.capacities()[name@],
            r.1 == self.spec_num_adds(),
    {
        match self.find(name) {
            Some(i) => {
                proof {
                    self.lemma_index_of(i as int);
                }
                (self.buffers[i].copy(), self.num_adds)
            },
            None => {
                proof {
                    assert(false);
                }
                (RingBuffer::new(1), self.num_adds)
            },
        }
    }

    /// Copies of the named sample sets, which must all exist, in order.
    pub fn get_sample_sets(&self, names: &Vec<String>) -> (r: Vec<RingBuffer<T>>)
        where
            T: Copy,
        requires
            self.wf(),
            forall|i: int| 0 <= i < names@.len() ==> self.sets().contains_key(#[trigger] names@[i]@),
        ensures
            r@.len() == names@.len(),
            forall|i: int| 0 <= i < names@.len() ==> (#[trigger] r@[i]).wf()
                && r@[i]@ == self.sets()[names@[i]@]
                && r@[i].spec_capacity() == self.capacities()[names@[i]@],
    {
        let mut v: Vec<RingBuffer<T>> = Vec::new();
        let mut i: usize = 0;
        while i < names.len()
            invariant
                self.wf(),
                i <= names@.len(),
                v@.len() == i,
                forall|k: int| 0 <= k < names@.len() ==> self.sets().contains_key(#[trigger] names@[k]@),
                forall|k: int| 0 <= k < i ==> (#[trigger] v@[k]).wf()
                    && v@[k]@ == self.sets()[names@[k]@]
                    && v@[k].spec_capacity() == self.capacities()[names@[k]@],
            decreases names.len() - i,
        {
            let (b, _n) = self.get_sample_set(names[i].as_str());
            v.push(b);
            i = i + 1;
        }
        v
    }

    /// The number of samples added over all sample sets.
    pub fn num_adds(&self) -> (r: usize)
        ensures
            r == self.spec_num_adds(),
    {
        self.num_adds
    }
}


// ---- Chart scripts ----------------------------------------------------------------------
/// The texts joined with nothing between them.
pub open spec fn concat_all(pieces: Seq<Seq<char>>) -> Seq<char> {
    join_str(pieces, Seq::empty())
}

/// The line holding the values of sample set `i` (counting from 0).
pub open spec fn sample_line(i: nat, values: Seq<Seq<char>>) -> Seq<char> {
    "samples"@ + nat_str(i + 1) + " = c("@ + join_str(values, ", "@) + ")\n"@
}

/// The times of the samples: `k*interval` for `k` from `num - 1` down to 0.
pub open spec fn time_items(num: nat, interval: Seq<char>) -> Seq<Seq<char>> {
    Seq::new(num, |i: int| nat_str((num - i - 1) as nat) + "*"@ + interval)
}

pub open spec fn max_line(i: nat) -> Seq<char> {
    "max_samples"@ + nat_str(i + 1) + " = max(samples"@ + nat_str(i + 1) + ")\n"@
}

pub open spec fn max_name(i: nat) -> Seq<char> {
    "max_samples"@ + nat_str(i + 1)
}

pub open spec fn points_line(i: nat) -> Seq<char> {
    "points(samples"@ + nat_str(i + 1) + " ~ times, type = 'l', lwd = 2, col = colors["@ + nat_str(i + 1) + "])\n"@
}

pub open spec fn color_name(i: nat) -> Seq<char> {
    "colors["@ + nat_str(i + 1) + "]"@
}

/// The part of an R script drawing one chart into the png file at `path`:
/// a line of values per sample set (`values`, already scaled and written
/// out), the times of the samples, the plot of the first set, the points of
/// the others, and a legend. The first chart of a script loads the color
/// palettes; the others are set apart by a line of hashes.
pub open spec fn r_script_spec(
    first: bool,
    path: Seq<char>,
    values: Seq<Seq<Seq<char>>>,
    interval: Seq<char>,
    x_units: Seq<char>,
    y_label: Seq<char>,
    y_units: Seq<char>,
    title: Seq<char>,
    legends: Seq<Seq<char>>,
) -> Seq<char> {
    let n = values.len();
    let num = values[0].len();
    (if first { "library(RColorBrewer)\n"@ } else { "\n####################################################\n"@ })
        + "png('"@ + path + "', 600, 400)\n\n"@
        + concat_all(Seq::new(n, |i: int| sample_line(i as nat, values[i])))
        + "times = -c("@ + join_str(time_items(num, interval), ", "@) + ")\n\n"@
        + concat_all(Seq::new(n, |i: int| max_line(i as nat)))
        + "max_samples = max(c("@ + join_str(Seq::new(n, |i: int| max_name(i as nat)), ", "@) + "))\n\n"@
        + "colors = brewer.pal("@ + nat_str(n) + ", 'Set1')\n"@
        + "plot(samples1 ~ times, type = 'l', lwd = 2, col = colors[1], ylim = c(0, max_samples), xlab = 'Time ("@ + x_units
        + ")', ylab = '"@ + y_label + " ("@ + y_units + ")', main = '"@ + title + "')\n"@
        + concat_all(Seq::new((n - 1) as nat, |j: int| points_line((j + 1) as nat)))
        + "\n"@
        + "legend('topleft', c("@ + join_str(Seq::new(legends.len(), |i: int| "'"@ + legends[i] + "'"@), ", "@)
        + "), fill = c("@ + join_str(Seq::new(n, |i: int| color_name(i as nat)), ", "@) + "))\n"@
        + "grid()\n\n"@
        + "dev.off()\n"@
}

fn concat_strings(pieces: &Vec<String>) -> (r: String)
    ensures
        r@ == concat_all(texts_of(pieces@)),
{
    let r = join_strings(pieces, "");
    proof {
        reveal_strlit("");
        assert(""@ =~= Seq::<char>::empty());
    }
    r
}

fn number_text(prefix: &str, i: usize, suffix: &str) -> (r: String)
    ensures
        r@ == prefix@ + nat_str(i as nat) + suffix@,
{
    let mut r = String::from_str(prefix);
    append_nat(&mut r, i as u64);
    r.append(suffix);
    r
}

/// The lines (or items) for `0 <= i < n`, each made by `f`, joined by `sep`.
fn sample_lines(values: &Vec<Vec<String>>) -> (r: String)
    ensures
        r@ == concat_all(Seq::new(values@.len(), |i: int| sample_line(i as nat, texts_of(values@[i]@)))),
{
    let ghost want = Seq::new(values@.len(), |i: int| sample_line(i as nat, texts_of(values@[i]@)));
    let mut lines: Vec<String> = Vec::new();
    let mut i: usize = 0;
    while i < values.len()
        invariant
            i <= values@.len(),
            want == Seq::new(values@.len(), |i: int| sample_line(i as nat, texts_of(values@[i]@))),
            texts_of(lines@) == want.take(i as int),
        decreases values.len() - i,
    {
        let mut line = number_text("samples", i + 1, " = c(");
        let joined = join_strings(&values[i], ", ");
        line.append(joined.as_str());
        line.append(")\n");
        let ghost before = texts_of(lines@);
        lines.push(line);
        proof {
            assert(texts_of(lines@) =~= before.push(want[i as int]));
            assert(want.take(i + 1) =~= want.take(i as int).push(want[i as int]));
        }
        i = i + 1;
    }
    assert(want.take(values@.len() as int) =~= want);
    concat_strings(&lines)
}

fn time_list(num: usize, interval: &str) -> (r: String)
    ensures
        r@ == join_str(time_items(num as nat, interval@), ", "@),
{
    let ghost want = time_items(num as nat, interval@);
    let mut items: Vec<String> = Vec::new();
    let mut i: usize = 0;
    while i < num
        invariant
            i <= num,
            want == time_items(num as nat, interval@),
            texts_of(items@) == want.take(i as int),
        decreases num - i,
    {
        let mut item = String::new();
        append_nat(&mut item, (num - i - 1) as u64);
        item.append("*");
        item.append(interval);
        let ghost before = texts_of(items@);
        items.push(item);
        proof {
            assert(Seq::<char>::empty() + nat_str((num - i - 1) as nat) =~= nat_str((num - i - 1) as nat));
            assert(texts_of(items@) =~= before.push(want[i as int]));
            assert(want.take(i + 1) =~= want.take(i as int).push(want[i as int]));
        }
        i = i + 1;
    }
    assert(want.take(num as int) =~= want);
    join_strings(&items, ", ")
}

fn max_lines(n: usize) -> (r: String)
    ensures
        r@ == concat_all(Seq::new(n as nat, |i: int| max_line(i as nat))),
{
    let ghost want = Seq::new(n as nat, |i: int| max_line(i as nat));
    let mut items: Vec<String> = Vec::new();
    let mut i: usize = 0;
    while i < n
        invariant
            i <= n,
            want == Seq::new(n as nat, |i: int| max_line(i as nat)),
            texts_of(items@) == want.take(i as int),
        decreases n - i,
    {
        let mut item = number_text("max_samples", i + 1, " = max(samples");
        append_nat(&mut item, (i + 1) as u64);
        item.append(")\n");
        let ghost before = texts_of(items@);
        items.push(item);
        proof {
            assert(texts_of(items@) =~= before.push(want[i as int]));
            assert(want.take(i + 1) =~= want.take(i as int).push(want[i as int]));
        }
        i = i + 1;
    }
    assert(want.take(n as int) =~= want);
    concat_strings(&items)
}

fn max_names(n: usize) -> (r: String)
    ensures
        r@ == join_str(Seq::new(n as nat, |i: int| max_name(i as nat)), ", "@),
{
    let ghost want = Seq::new(n as nat, |i: int| max_name(i as nat));
    let mut items: Vec<String> = Vec::new();
    let mut i: usize = 0;
    while i < n
        invariant
            i <= n,
            want == Seq::new(n as nat, |i: int| max_name(i as nat)),
            texts_of(items@) == want.take(i as int),
        decreases n - i,
    {
        let mut item = String::from_str("max_samples");
        append_nat(&mut item, (i + 1) as u64);
        let ghost before = texts_of(items@);
        items.push(item);
        proof {
            assert(texts_of(items@) =~= before.push(want[i as int]));
            assert(want.take(i + 1) =~= want.take(i as int).push(want[i as int]));
        }
        i = i + 1;
    }
    assert(want.take(n as int) =~= want);
    join_strings(&items, ", ")
}

fn points_lines(n: usize) -> (r: String)
    requires
        n >= 1,
    ensures
        r@ == concat_all(Seq::new((n - 1) as nat, |j: int| points_line((j + 1) as nat))),
{
    let ghost want = Seq::new((n - 1) as nat, |j: int| points_line((j + 1) as nat));
    let mut items: Vec<String> = Vec::new();
    let mut j: usize = 0;
    while j < n - 1
        invariant
            n >= 1,
            j <= n - 1,
            want == Seq::new((n - 1) as nat, |j: int| points_line((j + 1) as nat)),
            texts_of(items@) == want.take(j as int),
        decreases n - 1 - j,
    {
        let mut item = number_text("points(samples", j + 2, " ~ times, type = 'l', lwd = 2, col = colors[");
        append_nat(&mut item, (j + 2) as u64);
        item.append("])\n");
        let ghost before = texts_of(items@);
        items.push(item);
        proof {
            assert(texts_of(items@) =~= before.push(want[j as int]));
            assert(want.take(j + 1) =~= want.take(j as int).push(want[j as int]));
        }
        j = j + 1;
    }
    assert(want.take((n - 1) as int) =~= want);
    concat_strings(&items)
}

fn legend_items(legends: &Vec<String>) -> (r: String)
    ensures
        r@ == join_str(Seq::new(legends@.len(), |i: int| "'"@ + legends@[i]@ + "'"@), ", "@),
{
    let ghost want = Seq::new(legends@.len(), |i: int| "'"@ + legends@[i]@ + "'"@);
    let mut items: Vec<String> = Vec::new();
    let mut i: usize = 0;
    while i < legends.len()
        invariant
            i <= legends@.len(),
            want == Seq::new(legends@.len(), |i: int| "'"@ + legends@[i]@ + "'"@),
            texts_of(items@) == want.take(i as int),
        decreases legends.len() - i,
    {
        let mut item = String::from_str("'");
        item.append(legends[i].as_str());
        item.append("'");
        let ghost before = texts_of(items@);
        items.push(item);
        proof {
            assert(texts_of(items@) =~= before.push(want[i as int]));
            assert(want.take(i + 1) =~= want.take(i as int).push(want[i as int]));
        }
        i = i + 1;
    }
    assert(want.take(legends@.len() as int) =~= want);
    join_strings(&items, ", ")
}

fn color_names(n: usize) -> (r: String)
    ensures
        r@ == join_str(Seq::new(n as nat, |i: int| color_name(i as nat)), ", "@),
{
    let ghost want = Seq::new(n as nat, |i: int| color_name(i as nat));
    let mut items: Vec<String> = Vec::new();
    let mut i: usize = 0;
    while i < n
        invariant
            i <= n,
            want == Seq::new(n as nat, |i: int| color_name(i as nat)),
            texts_of(items@) == want.take(i as int),
        decreases n - i,
    {
        let item = number_text("colors[", i + 1, "]");
        let ghost before = texts_of(items@);
        items.push(item);
        proof {
            assert(texts_of(items@) =~= before.push(want[i as int]));
            assert(want.take(i + 1) =~= want.take(i as int).push(want[i as int]));
        }
        i = i + 1;
    }
    assert(want.take(n as int) =~= want);
    join_strings(&items, ", ")
}

/// Appends to `script` the part drawing one chart (see `r_script_spec`).
/// There is at least one sample set, and all have the same number of
/// samples.
#[verifier::spinoff_prover]
#[verifier::rlimit(30)]
pub fn append_r_script(
    script: &mut String,
    path: &str,
    values: &Vec<Vec<String>>,
    interval: &str,
    x_units: &str,
    y_label: &str,
    y_units: &str,
    title: &str,
    legends: &Vec<String>,
)
    requires
        values@.len() >= 1,
        forall|i: int| 0 <= i < values@.len() ==> #[trigger] values@[i]@.len() == values@[0]@.len(),
    ensures
        final(script)@ == old(script)@ + r_script_spec(
            old(script)@.len() == 0,
            path@,
            values@.map_values(|v: Vec<String>| texts_of(v@)),
            interval@,
            x_units@,
            y_label@,
            y_units@,
            title@,
            texts_of(legends@),
        ),
{
    let ghost vs = values@.map_values(|v: Vec<String>| texts_of(v@));
    let n = values.len();
    let num = values[0].len();
    let mut out = if script.as_str().is_empty() {
        String::from_str("library(RColorBrewer)\n")
    } else {
        String::from_str("\n####################################################\n")
    };
    out.append("png('");
    out.append(path);
    out.append("', 600, 400)\n\n");
    let lines = sample_lines(values);
    out.append(lines.as_str());
    out.append("times = -c(");
    let times = time_list(num, interval);
    out.append(times.as_str());
    out.append(")\n\n");
    let maxes = max_lines(n);
    out.append(maxes.as_str());
    out.append("max_samples = max(c(");
    let names = max_names(n);
    out.append(names.as_str());
    out.append("))\n\n");
    out.append("colors = brewer.pal(");
    append_nat(&mut out, n as u64);
    out.append(", 'Set1')\n");
    out.append("plot(samples1 ~ times, type = 'l', lwd = 2, col = colors[1], ylim = c(0, max_samples), xlab = 'Time (");
    out.append(x_units);
    out.append(")', ylab = '");
    out.append(y_label);
    out.append(" (");
    out.append(y_units);
    out.append(")', main = '");
    out.append(title);
    out.append("')\n");
    let points = points_lines(n);
    out.append(points.as_str());
    out.append("\n");
    out.append("legend('topleft', c(");
    let legend_list = legend_items(legends);
    out.append(legend_list.as_str());
    out.append("), fill = c(");
    let colors = color_names(n);
    out.append(colors.as_str());
    out.append("))\n");
    out.append("grid()\n\n");
    out.append("dev.off()\n");
    proof {
        assert(vs.len() == n);
        assert(vs[0] == texts_of(values@[0]@));
        assert(Seq::new(n as nat, |i: int| sample_line(i as nat, texts_of(values@[i]@)))
            =~= Seq::new(vs.len(), |i: int| sample_line(i as nat, vs[i])));
        assert(Seq::new(legends@.len(), |i: int| "'"@ + legends@[i]@ + "'"@)
            =~= Seq::new(texts_of(legends@).len(), |i: int| "'"@ + texts_of(legends@)[i] + "'"@));
        assert(out@ == r_script_spec(
            old(script)@.len() == 0, path@, vs, interval@, x_units@, y_label@, y_units@, title@, texts_of(legends@)));
    }
    script.append(out.as_str());
}

} // verus!
