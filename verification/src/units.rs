//! Units of measure: simple units (meters, seconds, ...) and compound units
//! built from them by multiplication and division.
use vstd::multiset::Multiset;
use vstd::prelude::*;

verus! {

broadcast use vstd::seq_lib::group_to_multiset_ensures;

/// Simple units are specified with one of the constructors (e.g. Meter).
/// Compound units are constructed using multiplication and division
/// (e.g. Meter/(Second*Second)). Dimensionless units are empty Compound
/// units. The numerator and denominator of a Compound unit must be simple
/// units.
#[derive(Debug, PartialEq, Eq)]
pub enum Unit {
    // length
    Meter,
    Feet,
    // time
    Second,
    Minute,
    // modifiers
    Micro,
    Milli,
    Kilo,
    // compound: numerator, denominator
    Compound(Vec<Unit>, Vec<Unit>),
}

/// What a unit means: a simple unit, or the units of a numerator over those
/// of a denominator.
pub ghost enum UnitModel {
    Simple(Unit),
    Compound(Seq<Unit>, Seq<Unit>),
}

impl View for Unit {
    type V = UnitModel;

    open spec fn view(&self) -> UnitModel {
        match self {
            Unit::Compound(n, d) => UnitModel::Compound(n@, d@),
            _ => UnitModel::Simple(*self),
        }
    }
}

/// An exact rational scaling factor `num / den`.
#[derive(Clone, Copy, Debug, PartialEq, Eq)]
pub struct Scale {
    pub num: u64,
    pub den: u64,
}

/// Counts of the length and time units in a list of units.
#[derive(Clone, Copy, Debug, PartialEq, Eq)]
pub struct Dimensions {
    pub length: usize,
    pub time: usize,
}

// ---- Specifications ------------------------------------------------------------------
pub open spec fn is_simple(u: Unit) -> bool {
    !(u is Compound)
}

pub open spec fn all_simple(s: Seq<Unit>) -> bool {
    forall|i: int| 0 <= i < s.len() ==> is_simple(#[trigger] s[i])
}

impl Unit {
    /// A unit is well formed when a compound unit holds only simple units.
    pub open spec fn wf(&self) -> bool {
        match self {
            Unit::Compound(n, d) => all_simple(n@) && all_simple(d@),
            _ => true,
        }
    }
}

pub open spec fn model_wf(m: UnitModel) -> bool {
    match m {
        UnitModel::Simple(u) => is_simple(u),
        UnitModel::Compound(n, d) => all_simple(n) && all_simple(d),
    }
}

/// The units of the numerator of a unit.
pub open spec fn model_numer(m: UnitModel) -> Seq<Unit> {
    match m {
        UnitModel::Simple(u) => seq![u],
        UnitModel::Compound(n, _) => n,
    }
}

/// The units of the denominator of a unit.
pub open spec fn model_denom(m: UnitModel) -> Seq<Unit> {
    match m {
        UnitModel::Simple(_) => Seq::empty(),
        UnitModel::Compound(_, d) => d,
    }
}

/// Cancels, left to right, each unit of `numer` against the first equal unit
/// still left in `denom`; returns the numerator units that were not cancelled
/// and the denominator units left.
pub open spec fn cancel_parts(numer: Seq<Unit>, denom: Seq<Unit>) -> (Seq<Unit>, Seq<Unit>)
    decreases numer.len(),
{
    if numer.len() == 0 {
        (Seq::empty(), denom)
    } else {
        let (rn, rd) = cancel_parts(numer.drop_last(), denom);
        let u = numer.last();
        if rd.contains(u) {
            (rn, rd.remove_value(u))
        } else {
            (rn.push(u), rd)
        }
    }
}

/// The unit made of `numer` over `denom` once the units they share cancel; a
/// single unit over nothing is that simple unit.
pub open spec fn cancel_model(numer: Seq<Unit>, denom: Seq<Unit>) -> UnitModel {
    let (rn, rd) = cancel_parts(numer, denom);
    if rn.len() == 1 && rd.len() == 0 {
        UnitModel::Simple(rn[0])
    } else {
        UnitModel::Compound(rn, rd)
    }
}

pub open spec fn mul_model(a: UnitModel, b: UnitModel) -> UnitModel {
    cancel_model(model_numer(a) + model_numer(b), model_denom(a) + model_denom(b))
}

/// Division is multiplication by the reciprocal.
pub open spec fn div_model(a: UnitModel, b: UnitModel) -> UnitModel {
    cancel_model(model_numer(a) + model_denom(b), model_denom(a) + model_numer(b))
}

/// The power with which the simple unit `x` occurs in a unit.
pub open spec fn exponent(m: UnitModel, x: Unit) -> int {
    model_numer(m).to_multiset().count(x) - model_denom(m).to_multiset().count(x)
}

/// No unit occurs both in the numerator and in the denominator.
pub open spec fn lowest_terms(m: UnitModel) -> bool {
    forall|x: Unit| !(#[trigger] model_numer(m).contains(x) && model_denom(m).contains(x))
}

pub open spec fn simple_str(u: Unit) -> Seq<char> {
    match u {
        Unit::Meter => seq!['m'],
        Unit::Feet => seq!['f', 't'],
        Unit::Second => seq!['s'],
        Unit::Minute => seq!['m', 'i', 'n'],
        Unit::Micro => seq!['u'],
        Unit::Milli => seq!['m'],
        Unit::Kilo => seq!['k'],
        Unit::Compound(_, _) => Seq::empty(),
    }
}

/// The names of simple units joined by `*`.
pub open spec fn join_units(s: Seq<Unit>) -> Seq<char>
    decreases s.len(),
{
    if s.len() == 0 {
        Seq::empty()
    } else if s.len() == 1 {
        simple_str(s[0])
    } else {
        join_units(s.drop_last()) + seq!['*'] + simple_str(s.last())
    }
}

/// The text of a unit: "m", "ft", "s", "min", "u", "m", "k" for the simple
/// units, "" for a dimensionless unit and "numer/denom" otherwise.
pub open spec fn unit_str(m: UnitModel) -> Seq<char> {
    match m {
        UnitModel::Simple(u) => simple_str(u),
        UnitModel::Compound(n, d) => if n.len() == 0 && d.len() == 0 {
            Seq::empty()
        } else {
            join_units(n) + seq!['/'] + join_units(d)
        },
    }
}

pub open spec fn is_length(u: Unit) -> bool {
    u is Meter || u is Feet
}

pub open spec fn is_time(u: Unit) -> bool {
    u is Second || u is Minute
}

pub open spec fn length_count(s: Seq<Unit>) -> nat
    decreases s.len(),
{
    if s.len() == 0 {
        0
    } else {
        length_count(s.drop_last()) + if is_length(s.last()) { 1nat } else { 0nat }
    }
}

pub open spec fn time_count(s: Seq<Unit>) -> nat
    decreases s.len(),
{
    if s.len() == 0 {
        0
    } else {
        time_count(s.drop_last()) + if is_time(s.last()) { 1nat } else { 0nat }
    }
}

/// Two units are commensurable when their numerators hold as many length
/// units and as many time units as each other, and so do their denominators.
pub open spec fn commensurable(a: UnitModel, b: UnitModel) -> bool {
    &&& length_count(model_numer(a)) == length_count(model_numer(b))
    &&& time_count(model_numer(a)) == time_count(model_numer(b))
    &&& length_count(model_denom(a)) == length_count(model_denom(b))
    &&& time_count(model_denom(a)) == time_count(model_denom(b))
}

/// The factor by which a quantity in the simple unit `u` is multiplied to
/// express it in the canonical units (meters, seconds).
pub open spec fn canonical_scale(u: Unit) -> (nat, nat) {
    match u {
        Unit::Meter => (1, 1),
        Unit::Feet => (3048, 10000),
        Unit::Second => (1, 1),
        Unit::Minute => (60, 1),
        Unit::Micro => (1, 1000000),
        Unit::Milli => (1, 1000),
        Unit::Kilo => (1000, 1),
        Unit::Compound(_, _) => (1, 1),
    }
}

/// The canonical units a simple unit stands for.
pub open spec fn canonical_base(u: Unit) -> Seq<Unit> {
    match u {
        Unit::Meter | Unit::Feet => seq![Unit::Meter],
        Unit::Second | Unit::Minute => seq![Unit::Second],
        _ => Seq::empty(),
    }
}

pub open spec fn flat_base(s: Seq<Unit>) -> Seq<Unit>
    decreases s.len(),
{
    if s.len() == 0 {
        Seq::empty()
    } else {
        flat_base(s.drop_last()) + canonical_base(s.last())
    }
}

/// A compound unit with a single unit over nothing is that unit.
pub open spec fn normalize_model(m: UnitModel) -> UnitModel {
    match m {
        UnitModel::Compound(n, d) => if n.len() == 1 && d.len() == 0 {
            UnitModel::Simple(n[0])
        } else {
            m
        },
        _ => m,
    }
}

/// The unit a quantity is in once converted to canonical units.
pub open spec fn canonical_model(m: UnitModel) -> UnitModel {
    normalize_model(UnitModel::Compound(flat_base(model_numer(m)), flat_base(model_denom(m))))
}

// ---- Internal helpers -----------------------------------------------------------------
fn simple_code(u: &Unit) -> (r: u8)
    requires
        is_simple(*u),
    ensures
        r < 7,
        forall|v: Unit| is_simple(v) && #[trigger] spec_simple_code(v) == r ==> v == *u,
        r == spec_simple_code(*u),
{
    match u {
        Unit::Meter => 0,
        Unit::Feet => 1,
        Unit::Second => 2,
        Unit::Minute => 3,
        Unit::Micro => 4,
        Unit::Milli => 5,
        Unit::Kilo => 6,
        Unit::Compound(_, _) => 7,
    }
}

spec fn spec_simple_code(u: Unit) -> u8 {
    match u {
        Unit::Meter => 0,
        Unit::Feet => 1,
        Unit::Second => 2,
        Unit::Minute => 3,
        Unit::Micro => 4,
        Unit::Milli => 5,
        Unit::Kilo => 6,
        Unit::Compound(_, _) => 7,
    }
}

fn same_simple(a: &Unit, b: &Unit) -> (r: bool)
    requires
        is_simple(*a),
        is_simple(*b),
    ensures
        r == (*a == *b),
{
    simple_code(a) == simple_code(b)
}

fn copy_simple(u: &Unit) -> (r: Unit)
    requires
        is_simple(*u),
    ensures
        r == *u,
{
    match u {
        Unit::Meter => Unit::Meter,
        Unit::Feet => Unit::Feet,
        Unit::Second => Unit::Second,
        Unit::Minute => Unit::Minute,
        Unit::Micro => Unit::Micro,
        Unit::Milli => Unit::Milli,
        _ => Unit::Kilo,
    }
}

fn copy_units(v: &Vec<Unit>) -> (r: Vec<Unit>)
    requires
        all_simple(v@),
    ensures
        r@ == v@,
{
    let mut r: Vec<Unit> = Vec::new();
    let mut i: usize = 0;
    while i < v.len()
        invariant
            i <= v.len(),
            all_simple(v@),
            r@ =~= v@.take(i as int),
        decreases v.len() - i,
    {
        r.push(copy_simple(&v[i]));
        i = i + 1;
        assert(r@ =~= v@.take(i as int));
    }
    assert(v@.take(v.len() as int) =~= v@);
    r
}

/// The index of the first unit of `v` equal to `u`.
fn position_simple(v: &Vec<Unit>, u: &Unit) -> (r: Option<usize>)
    requires
        all_simple(v@),
        is_simple(*u),
    ensures
        match r {
            Some(j) => j < v@.len() && v@[j as int] == *u && v@.index_of_first(*u) == Some(j as int),
            None => !v@.contains(*u) && v@.index_of_first(*u) is None,
        },
{
    let mut i: usize = 0;
    while i < v.len()
        invariant
            i <= v.len(),
            all_simple(v@),
            is_simple(*u),
            forall|k: int| 0 <= k < i ==> v@[k] != *u,
        decreases v.len() - i,
    {
        if same_simple(&v[i], u) {
            proof {
                v@.index_of_first_ensures(*u);
                let f = v@.index_of_first(*u);
                assert(v@.contains(*u));
                assert(f is Some);
                let j = f.unwrap();
                assert(j == i as int);
            }
            return Some(i);
        }
        i = i + 1;
    }
    proof {
        v@.index_of_first_ensures(*u);
    }
    None
}

proof fn lemma_all_simple_concat(a: Seq<Unit>, b: Seq<Unit>)
    requires
        all_simple(a),
        all_simple(b),
    ensures
        all_simple(a + b),
{
    assert forall|i: int| 0 <= i < (a + b).len() implies is_simple(#[trigger] (a + b)[i]) by {
        if i < a.len() {
            assert((a + b)[i] == a[i]);
        } else {
            assert((a + b)[i] == b[i - a.len()]);
        }
    }
}

proof fn lemma_all_simple_remove(s: Seq<Unit>, i: int)
    requires
        all_simple(s),
        0 <= i < s.len(),
    ensures
        all_simple(s.remove(i)),
{
    s.remove_ensures(i);
    assert forall|k: int| 0 <= k < s.remove(i).len() implies is_simple(#[trigger] s.remove(i)[k]) by {
        if k < i {
            assert(s.remove(i)[k] == s[k]);
        } else {
            assert(s.remove(i)[k] == s[k + 1]);
        }
    }
}

/// Facts about cancel_parts: the powers of each unit are kept, what is left is
/// in lowest terms, and only simple units come out.
proof fn lemma_cancel_parts(numer: Seq<Unit>, denom: Seq<Unit>)
    requires
        all_simple(numer),
        all_simple(denom),
    ensures
        ({
            let (rn, rd) = cancel_parts(numer, denom);
            &&& all_simple(rn)
            &&& all_simple(rd)
            &&& forall|x: Unit| #[trigger] rn.to_multiset().count(x) - rd.to_multiset().count(x)
                == numer.to_multiset().count(x) - denom.to_multiset().count(x)
            &&& forall|x: Unit| !(#[trigger] rn.contains(x) && rd.contains(x))
        }),
    decreases numer.len(),
{
    broadcast use vstd::multiset::group_multiset_axioms;

    if numer.len() == 0 {
        assert(numer.to_multiset() =~= Multiset::empty());
        assert(Seq::<Unit>::empty().to_multiset() =~= Multiset::empty());
    } else {
        let init = numer.drop_last();
        let u = numer.last();
        assert(all_simple(init));
        lemma_cancel_parts(init, denom);
        let (rn, rd) = cancel_parts(init, denom);
        assert(numer =~= init.push(u));
        if rd.contains(u) {
            rd.index_of_first_ensures(u);
            let j = rd.index_of_first(u).unwrap();
            lemma_all_simple_remove(rd, j);
            let rd2 = rd.remove(j);
            assert forall|x: Unit| !(#[trigger] rn.contains(x) && rd2.contains(x)) by {
                if rd2.contains(x) {
                    let k = choose|k: int| 0 <= k < rd2.len() && rd2[k] == x;
                    rd.remove_ensures(j);
                    if k < j {
                        assert(rd[k] == x);
                    } else {
                        assert(rd[k + 1] == x);
                    }
                }
            }
        } else {
            assert(all_simple(rn.push(u)));
            assert forall|x: Unit| !(#[trigger] rn.push(u).contains(x) && rd.contains(x)) by {
                if rn.push(u).contains(x) && x != u {
                    let k = choose|k: int| 0 <= k < rn.push(u).len() && rn.push(u)[k] == x;
                    assert(rn[k] == x);
                    assert(rn.contains(x));
                }
            }
        }
    }
}

proof fn lemma_cancel_model(numer: Seq<Unit>, denom: Seq<Unit>)
    requires
        all_simple(numer),
        all_simple(denom),
    ensures
        model_wf(cancel_model(numer, denom)),
        lowest_terms(cancel_model(numer, denom)),
        forall|x: Unit| #[trigger] exponent(cancel_model(numer, denom), x)
            == numer.to_multiset().count(x) - denom.to_multiset().count(x),
{
    broadcast use vstd::multiset::group_multiset_axioms;

    lemma_cancel_parts(numer, denom);
    let (rn, rd) = cancel_parts(numer, denom);
    if rn.len() == 1 && rd.len() == 0 {
        assert(seq![rn[0]] =~= rn);
        assert forall|x: Unit| !(#[trigger] model_numer(cancel_model(numer, denom)).contains(x)
            && model_denom(cancel_model(numer, denom)).contains(x)) by {
            assert(model_denom(cancel_model(numer, denom)).len() == 0);
        }
    }
}

// ---- Operations -----------------------------------------------------------------------
/// The numerator and denominator of a unit: a simple unit is itself over nothing.
pub fn to_compound(unit: Unit) -> (r: (Vec<Unit>, Vec<Unit>))
    requires
        unit.wf(),
    ensures
        r.0@ == model_numer(unit@),
        r.1@ == model_denom(unit@),
        all_simple(r.0@),
        all_simple(r.1@),
{
    match unit {
        Unit::Compound(n, d) => (n, d),
        u => {
            let mut n: Vec<Unit> = Vec::new();
            n.push(u);
            let r = (n, Vec::new());
            assert(r.0@ =~= seq![u]);
            r
        },
    }
}

/// Cancels the units the numerator shares with the denominator. A single unit
/// over nothing is returned as that unit.
#[verifier::spinoff_prover]
#[verifier::rlimit(30)]
pub fn cancel_units(numer: Vec<Unit>, denom: Vec<Unit>) -> (r: Unit)
    requires
        all_simple(numer@),
        all_simple(denom@),
    ensures
        r.wf(),
        r@ == cancel_model(numer@, denom@),
{
    let mut rnumer: Vec<Unit> = Vec::new();
    let mut rdenom = denom;
    let ghost d0 = rdenom@;
    let mut i: usize = 0;
    while i < numer.len()
        invariant
            i <= numer.len(),
            all_simple(numer@),
            all_simple(d0),
            (rnumer@, rdenom@) == cancel_parts(numer@.take(i as int), d0),
            all_simple(rnumer@),
            all_simple(rdenom@),
        decreases numer.len() - i,
    {
        let u = copy_simple(&numer[i]);
        let ghost prev = (rnumer@, rdenom@);
        proof {
            assert(numer@.take(i + 1).drop_last() =~= numer@.take(i as int));
            assert(numer@.take(i + 1).last() == u);
        }
        match position_simple(&rdenom, &u) {
            Some(j) => {
                proof {
                    lemma_all_simple_remove(rdenom@, j as int);
                }
                rdenom.remove(j);
            },
            None => {
                rnumer.push(u);
            },
        }
        i = i + 1;
    }
    proof {
        assert(numer@.take(numer.len() as int) =~= numer@);
        lemma_cancel_parts(numer@, d0);
    }
    if rnumer.len() == 1 && rdenom.len() == 0 {
        let u = copy_simple(&rnumer[0]);
        u
    } else {
        Unit::Compound(rnumer, rdenom)
    }
}

impl Unit {
    /// Whether this is a simple unit.
    pub fn is_simple(&self) -> (r: bool)
        ensures
            r == is_simple(*self),
    {
        match self {
            Unit::Compound(_, _) => false,
            _ => true,
        }
    }

    /// The product of two units, with the units they share cancelled.
    pub fn mul(self, rhs: Unit) -> (r: Unit)
        requires
            self.wf(),
            rhs.wf(),
        ensures
            r.wf(),
            r@ == mul_model(self@, rhs@),
    {
        let (mut numer1, mut denom1) = to_compound(self);
        let (mut numer2, mut denom2) = to_compound(rhs);
        proof {
            lemma_all_simple_concat(numer1@, numer2@);
            lemma_all_simple_concat(denom1@, denom2@);
        }
        numer1.append(&mut numer2);
        denom1.append(&mut denom2);
        cancel_units(numer1, denom1)
    }

    /// The quotient of two units: multiplication by the reciprocal.
    pub fn div(self, rhs: Unit) -> (r: Unit)
        requires
            self.wf(),
            rhs.wf(),
        ensures
            r.wf(),
            r@ == div_model(self@, rhs@),
    {
        let (mut numer1, mut denom1) = to_compound(self);
        let (mut numer2, mut denom2) = to_compound(rhs);
        proof {
            lemma_all_simple_concat(numer1@, denom2@);
            lemma_all_simple_concat(denom1@, numer2@);
        }
        numer1.append(&mut denom2);
        denom1.append(&mut numer2);
        cancel_units(numer1, denom1)
    }

    /// Whether two units are the same: same simple unit, or same units in the
    /// same order in numerator and denominator.
    pub fn eq(&self, rhs: &Unit) -> (r: bool)
        requires
            self.wf(),
            rhs.wf(),
        ensures
            r == (self@ == rhs@),
    {
        match (self, rhs) {
            (Unit::Compound(n1, d1), Unit::Compound(n2, d2)) => same_units(n1, n2) && same_units(d1, d2),
            (Unit::Compound(_, _), _) => false,
            (_, Unit::Compound(_, _)) => false,
            _ => same_simple(self, rhs),
        }
    }

    pub fn ne(&self, rhs: &Unit) -> (r: bool)
        requires
            self.wf(),
            rhs.wf(),
        ensures
            r == (self@ != rhs@),
    {
        !self.eq(rhs)
    }

    /// A copy of the unit.
    pub fn duplicate(&self) -> (r: Unit)
        requires
            self.wf(),
        ensures
            r.wf(),
            r@ == self@,
    {
        match self {
            Unit::Compound(n, d) => Unit::Compound(copy_units(n), copy_units(d)),
            _ => copy_simple(self),
        }
    }
}

fn same_units(a: &Vec<Unit>, b: &Vec<Unit>) -> (r: bool)
    requires
        all_simple(a@),
        all_simple(b@),
    ensures
        r == (a@ == b@),
{
    if a.len() != b.len() {
        return false;
    }
    let mut i: usize = 0;
    while i < a.len()
        invariant
            i <= a.len(),
            a.len() == b.len(),
            all_simple(a@),
            all_simple(b@),
            forall|k: int| 0 <= k < i ==> a@[k] == b@[k],
        decreases a.len() - i,
    {
        if !same_simple(&a[i], &b[i]) {
            return false;
        }
        i = i + 1;
    }
    assert(a@ =~= b@);
    true
}


// ---- Text -----------------------------------------------------------------------------
fn simple_text(u: &Unit) -> (r: &'static str)
    requires
        is_simple(*u),
    ensures
        r@ == simple_str(*u),
{
    match u {
        Unit::Meter => {
            proof {
                reveal_strlit("m");
            }
            "m"
        },
        Unit::Feet => {
            proof {
                reveal_strlit("ft");
            }
            "ft"
        },
        Unit::Second => {
            proof {
                reveal_strlit("s");
            }
            "s"
        },
        Unit::Minute => {
            proof {
                reveal_strlit("min");
            }
            "min"
        },
        Unit::Micro => {
            proof {
                reveal_strlit("u");
            }
            "u"
        },
        Unit::Milli => {
            proof {
                reveal_strlit("m");
            }
            "m"
        },
        _ => {
            proof {
                reveal_strlit("k");
            }
            "k"
        },
    }
}

fn join_units_str(s: &Vec<Unit>) -> (r: String)
    requires
        all_simple(s@),
    ensures
        r@ == join_units(s@),
{
    let mut r = String::new();
    let mut i: usize = 0;
    proof {
        assert(s@.take(0) =~= Seq::<Unit>::empty());
    }
    while i < s.len()
        invariant
            i <= s.len(),
            all_simple(s@),
            r@ == join_units(s@.take(i as int)),
        decreases s.len() - i,
    {
        proof {
            assert(s@.take(i + 1).drop_last() =~= s@.take(i as int));
            assert(s@.take(i + 1).last() == s@[i as int]);
        }
        if i > 0 {
            proof {
                reveal_strlit("*");
            }
            r.append("*");
        } else {
            assert(s@.take(1) =~= seq![s@[0]]);
        }
        r.append(simple_text(&s[i]));
        i = i + 1;
    }
    assert(s@.take(s.len() as int) =~= s@);
    r
}

impl Unit {
    /// The text of the unit, e.g. "m", "min", or "k*m/s" (see `unit_str`).
    pub fn to_str(&self) -> (r: String)
        requires
            self.wf(),
        ensures
            r@ == unit_str(self@),
    {
        match self {
            Unit::Compound(n, d) => {
                if n.len() == 0 && d.len() == 0 {
                    String::new()
                } else {
                    let mut r = join_units_str(n);
                    proof {
                        reveal_strlit("/");
                    }
                    r.append("/");
                    let t = join_units_str(d);
                    r.append(t.as_str());
                    r
                }
            },
            _ => String::from_str(simple_text(self)),
        }
    }
}

// ---- Commensurability -----------------------------------------------------------------
proof fn lemma_counts_bounded(s: Seq<Unit>)
    ensures
        length_count(s) + time_count(s) <= s.len(),
    decreases s.len(),
{
    if s.len() > 0 {
        lemma_counts_bounded(s.drop_last());
    }
}

fn count_dimensions(s: &Vec<Unit>, acc: &mut Dimensions)
    requires
        all_simple(s@),
        old(acc).length + old(acc).time + s@.len() <= usize::MAX,
    ensures
        final(acc).length == old(acc).length + length_count(s@),
        final(acc).time == old(acc).time + time_count(s@),
{
    let mut i: usize = 0;
    while i < s.len()
        invariant
            i <= s.len(),
            all_simple(s@),
            old(acc).length + old(acc).time + s@.len() <= usize::MAX,
            acc.length == old(acc).length + length_count(s@.take(i as int)),
            acc.time == old(acc).time + time_count(s@.take(i as int)),
        decreases s.len() - i,
    {
        proof {
            assert(s@.take(i + 1).drop_last() =~= s@.take(i as int));
            lemma_counts_bounded(s@.take(i as int));
        }
        match &s[i] {
            Unit::Meter | Unit::Feet => {
                acc.length = acc.length + 1;
            },
            Unit::Second | Unit::Minute => {
                acc.time = acc.time + 1;
            },
            _ => {},
        }
        i = i + 1;
    }
    assert(s@.take(s.len() as int) =~= s@);
}

/// Adds the length and time units of `u` to the counts of its numerator and
/// denominator.
pub fn increment_type(numer: &mut Dimensions, denom: &mut Dimensions, u: &Unit)
    requires
        u.wf(),
        old(numer).length + old(numer).time + model_numer(u@).len() <= usize::MAX,
        old(denom).length + old(denom).time + model_denom(u@).len() <= usize::MAX,
    ensures
        final(numer).length == old(numer).length + length_count(model_numer(u@)),
        final(numer).time == old(numer).time + time_count(model_numer(u@)),
        final(denom).length == old(denom).length + length_count(model_denom(u@)),
        final(denom).time == old(denom).time + time_count(model_denom(u@)),
{
    match u {
        Unit::Compound(n, d) => {
            count_dimensions(n, numer);
            count_dimensions(d, denom);
        },
        _ => {
            proof {
                lemma_single_counts(*u);
                assert(model_numer(u@) == seq![*u]);
                assert(model_denom(u@) =~= Seq::<Unit>::empty());
            }
            match u {
                Unit::Meter | Unit::Feet => {
                    numer.length = numer.length + 1;
                },
                Unit::Second | Unit::Minute => {
                    numer.time = numer.time + 1;
                },
                _ => {},
            }
        },
    }
}

/// Whether two units are commensurable (see `commensurable`).
pub fn is_commensurable(lhs: &Unit, rhs: &Unit) -> (r: bool)
    requires
        lhs.wf(),
        rhs.wf(),
    ensures
        r == commensurable(lhs@, rhs@),
{
    let mut numer1 = Dimensions { length: 0, time: 0 };
    let mut denom1 = Dimensions { length: 0, time: 0 };
    let n1 = lhs.numer_len();
    let d1 = lhs.denom_len();
    increment_type(&mut numer1, &mut denom1, lhs);
    let mut numer2 = Dimensions { length: 0, time: 0 };
    let mut denom2 = Dimensions { length: 0, time: 0 };
    let n2 = rhs.numer_len();
    let d2 = rhs.denom_len();
    increment_type(&mut numer2, &mut denom2, rhs);
    numer1.length == numer2.length && numer1.time == numer2.time && denom1.length == denom2.length
        && denom1.time == denom2.time
}

impl Unit {
    fn numer_len(&self) -> (r: usize)
        ensures
            r == model_numer(self@).len(),
    {
        match self {
            Unit::Compound(n, _) => n.len(),
            _ => 1,
        }
    }

    fn denom_len(&self) -> (r: usize)
        ensures
            r == model_denom(self@).len(),
    {
        match self {
            Unit::Compound(_, d) => d.len(),
            _ => 0,
        }
    }
}

/// The message given when `fname` is asked to combine units that are not
/// commensurable.
pub open spec fn incommensurable_message(lhs: UnitModel, fname: Seq<char>, rhs: UnitModel) -> Seq<char> {
    "incommensurable units for `"@ + unit_str(lhs) + "`."@ + fname + "(`"@ + unit_str(rhs) + "`)"@
}

/// Checks that two units are commensurable; the error names the units and
/// the operation `fname` that was attempted.
pub fn check_commensurable(lhs: &Unit, rhs: &Unit, fname: &str) -> (r: Result<(), String>)
    requires
        lhs.wf(),
        rhs.wf(),
    ensures
        r is Ok <==> commensurable(lhs@, rhs@),
        r matches Err(msg) ==> msg@ == incommensurable_message(lhs@, fname@, rhs@),
{
    if is_commensurable(lhs, rhs) {
        Ok(())
    } else {
        let mut msg = String::from_str("incommensurable units for `");
        let l = lhs.to_str();
        msg.append(l.as_str());
        msg.append("`.");
        msg.append(fname);
        msg.append("(`");
        let r = rhs.to_str();
        msg.append(r.as_str());
        msg.append("`)");
        Err(msg)
    }
}

// ---- Canonical units ------------------------------------------------------------------
pub open spec fn scale_of(u: Unit) -> Scale {
    Scale { num: canonical_scale(u).0 as u64, den: canonical_scale(u).1 as u64 }
}

/// The scales to canonical units (meters and seconds) are the SI and
/// imperial factors: a kilo is a thousand, a milli a thousandth and a micro
/// a millionth; a foot is 0.3048 meter and a minute 60 seconds; meters and
/// seconds are canonical. So a kilo times a milli is one, and a milli is a
/// thousand micros.
pub proof fn lemma_canonical_factors()
    ensures
        scale_of(Unit::Kilo).den > 0 && scale_of(Unit::Kilo).num == 1000 * scale_of(Unit::Kilo).den,
        scale_of(Unit::Milli).num > 0 && scale_of(Unit::Milli).den == 1000 * scale_of(Unit::Milli).num,
        scale_of(Unit::Micro).num > 0 && scale_of(Unit::Micro).den == 1_000_000 * scale_of(Unit::Micro).num,
        scale_of(Unit::Feet).den > 0 && 10_000 * scale_of(Unit::Feet).num == 3048 * scale_of(Unit::Feet).den,
        scale_of(Unit::Minute).den > 0 && scale_of(Unit::Minute).num == 60 * scale_of(Unit::Minute).den,
        scale_of(Unit::Meter).den > 0 && scale_of(Unit::Meter).num == scale_of(Unit::Meter).den,
        scale_of(Unit::Second).den > 0 && scale_of(Unit::Second).num == scale_of(Unit::Second).den,
        scale_of(Unit::Kilo).num * scale_of(Unit::Milli).num == scale_of(Unit::Kilo).den * scale_of(Unit::Milli).den,
        scale_of(Unit::Milli).num * scale_of(Unit::Micro).den == 1000 * scale_of(Unit::Micro).num * scale_of(Unit::Milli).den,
{
}

/// The scaling factor to canonical units of a simple unit and the canonical
/// units it stands for.
pub fn canonical_unit(u: &Unit) -> (r: (Scale, Vec<Unit>))
    requires
        is_simple(*u),
    ensures
        r.0 == scale_of(*u),
        r.1@ == canonical_base(*u),
{
    let mut base: Vec<Unit> = Vec::new();
    let scale = match u {
        Unit::Meter => {
            base.push(Unit::Meter);
            Scale { num: 1, den: 1 }
        },
        Unit::Feet => {
            base.push(Unit::Meter);
            Scale { num: 3048, den: 10000 }
        },
        Unit::Second => {
            base.push(Unit::Second);
            Scale { num: 1, den: 1 }
        },
        Unit::Minute => {
            base.push(Unit::Second);
            Scale { num: 60, den: 1 }
        },
        Unit::Micro => Scale { num: 1, den: 1000000 },
        Unit::Milli => Scale { num: 1, den: 1000 },
        _ => Scale { num: 1000, den: 1 },
    };
    assert(base@ =~= canonical_base(*u));
    (scale, base)
}

fn scales_of(s: &Vec<Unit>) -> (r: Vec<Scale>)
    requires
        all_simple(s@),
    ensures
        r@.len() == s@.len(),
        forall|i: int| 0 <= i < s@.len() ==> #[trigger] r@[i] == scale_of(s@[i]),
{
    let mut r: Vec<Scale> = Vec::new();
    let mut i: usize = 0;
    while i < s.len()
        invariant
            i <= s.len(),
            all_simple(s@),
            r@.len() == i,
            forall|k: int| 0 <= k < i ==> #[trigger] r@[k] == scale_of(s@[k]),
        decreases s.len() - i,
    {
        let (scale, _base) = canonical_unit(&s[i]);
        r.push(scale);
        i = i + 1;
    }
    r
}

/// The scaling factors of the units of the numerator and of the denominator,
/// in order: a value in unit `u` is converted to canonical units by
/// multiplying it by each numerator factor and dividing it by each
/// denominator factor.
#[verifier::spinoff_prover]
#[verifier::rlimit(30)]
pub fn unit_scales(u: &Unit) -> (r: (Vec<Scale>, Vec<Scale>))
    requires
        u.wf(),
    ensures
        r.0@.len() == model_numer(u@).len(),
        forall|i: int| 0 <= i < model_numer(u@).len() ==> #[trigger] r.0@[i] == scale_of(model_numer(u@)[i]),
        r.1@.len() == model_denom(u@).len(),
        forall|i: int| 0 <= i < model_denom(u@).len() ==> #[trigger] r.1@[i] == scale_of(model_denom(u@)[i]),
{
    match u {
        Unit::Compound(n, d) => (scales_of(n), scales_of(d)),
        _ => {
            let (scale, _base) = canonical_unit(u);
            let mut n: Vec<Scale> = Vec::new();
            n.push(scale);
            (n, Vec::new())
        },
    }
}

proof fn lemma_flat_base(s: Seq<Unit>)
    ensures
        all_simple(flat_base(s)),
        length_count(flat_base(s)) == length_count(s),
        time_count(flat_base(s)) == time_count(s),
    decreases s.len(),
{
    if s.len() > 0 {
        let init = s.drop_last();
        lemma_flat_base(init);
        let b = canonical_base(s.last());
        lemma_all_simple_concat(flat_base(init), b);
        lemma_counts_concat(flat_base(init), b);
        assert(flat_base(s) == flat_base(init) + b);
        lemma_single_counts(s.last());
        if b.len() == 1 {
            assert(b.drop_last() =~= Seq::<Unit>::empty());
            assert(length_count(b) == length_count(b.drop_last()) + if is_length(b.last()) { 1nat } else { 0nat });
            assert(time_count(b) == time_count(b.drop_last()) + if is_time(b.last()) { 1nat } else { 0nat });
        } else {
            assert(b.len() == 0);
        }
    }
}

proof fn lemma_single_counts(u: Unit)
    ensures
        length_count(seq![u]) == if is_length(u) { 1nat } else { 0nat },
        time_count(seq![u]) == if is_time(u) { 1nat } else { 0nat },
{
    let e = seq![u].drop_last();
    assert(e =~= Seq::<Unit>::empty());
    assert(length_count(e) == 0);
    assert(time_count(e) == 0);
    assert(seq![u].last() == u);
}

proof fn lemma_counts_concat(a: Seq<Unit>, b: Seq<Unit>)
    ensures
        length_count(a + b) == length_count(a) + length_count(b),
        time_count(a + b) == time_count(a) + time_count(b),
    decreases b.len(),
{
    if b.len() == 0 {
        assert(a + b =~= a);
    } else {
        lemma_counts_concat(a, b.drop_last());
        assert((a + b).drop_last() =~= a + b.drop_last());
    }
}

fn flat_base_of(s: &Vec<Unit>) -> (r: Vec<Unit>)
    requires
        all_simple(s@),
    ensures
        r@ == flat_base(s@),
{
    let mut r: Vec<Unit> = Vec::new();
    let mut i: usize = 0;
    while i < s.len()
        invariant
            i <= s.len(),
            all_simple(s@),
            r@ == flat_base(s@.take(i as int)),
        decreases s.len() - i,
    {
        proof {
            assert(s@.take(i + 1).drop_last() =~= s@.take(i as int));
        }
        let (_scale, mut base) = canonical_unit(&s[i]);
        r.append(&mut base);
        i = i + 1;
    }
    assert(s@.take(s.len() as int) =~= s@);
    r
}

/// A compound unit with a single unit over nothing becomes that unit; other
/// units are returned unchanged.
pub fn normalize_units(units: Unit) -> (r: Unit)
    requires
        units.wf(),
    ensures
        r.wf(),
        r@ == normalize_model(units@),
{
    match units {
        Unit::Compound(n, d) => {
            if n.len() == 1 && d.len() == 0 {
                copy_simple(&n[0])
            } else {
                Unit::Compound(n, d)
            }
        },
        u => u,
    }
}

/// The canonical units (meters and seconds) that a quantity in unit `u` is
/// expressed in once converted: each unit is replaced by its canonical units
/// and modifiers are dropped.
#[verifier::spinoff_prover]
#[verifier::rlimit(30)]
pub fn canonical_units(u: &Unit) -> (r: Unit)
    requires
        u.wf(),
    ensures
        r.wf(),
        r@ == canonical_model(u@),
{
    let (numer, denom) = to_compound(u.duplicate());
    let n = flat_base_of(&numer);
    let d = flat_base_of(&denom);
    proof {
        lemma_flat_base(numer@);
        lemma_flat_base(denom@);
    }
    normalize_units(Unit::Compound(n, d))
}

// ---- Laws -----------------------------------------------------------------------------
/// Multiplying units adds the powers of each unit, and the product is in
/// lowest terms.
pub proof fn lemma_mul_exponents(a: Unit, b: Unit)
    requires
        a.wf(),
        b.wf(),
    ensures
        model_wf(mul_model(a@, b@)),
        lowest_terms(mul_model(a@, b@)),
        forall|x: Unit| #[trigger] exponent(mul_model(a@, b@), x) == exponent(a@, x) + exponent(b@, x),
{
    broadcast use vstd::seq_lib::lemma_multiset_commutative;
    broadcast use vstd::multiset::group_multiset_axioms;

    let (n1, d1) = (model_numer(a@), model_denom(a@));
    let (n2, d2) = (model_numer(b@), model_denom(b@));
    assert(all_simple(n1) && all_simple(d1) && all_simple(n2) && all_simple(d2));
    lemma_all_simple_concat(n1, n2);
    lemma_all_simple_concat(d1, d2);
    lemma_cancel_model(n1 + n2, d1 + d2);
}

/// Dividing units subtracts the powers of each unit, and the quotient is in
/// lowest terms.
pub proof fn lemma_div_exponents(a: Unit, b: Unit)
    requires
        a.wf(),
        b.wf(),
    ensures
        model_wf(div_model(a@, b@)),
        lowest_terms(div_model(a@, b@)),
        forall|x: Unit| #[trigger] exponent(div_model(a@, b@), x) == exponent(a@, x) - exponent(b@, x),
{
    broadcast use vstd::seq_lib::lemma_multiset_commutative;
    broadcast use vstd::multiset::group_multiset_axioms;

    let (n1, d1) = (model_numer(a@), model_denom(a@));
    let (n2, d2) = (model_numer(b@), model_denom(b@));
    assert(all_simple(n1) && all_simple(d1) && all_simple(n2) && all_simple(d2));
    lemma_all_simple_concat(n1, d2);
    lemma_all_simple_concat(d1, n2);
    lemma_cancel_model(n1 + d2, d1 + n2);
}

/// Dividing a product by one of its factors gives back the powers of the
/// other factor.
pub proof fn lemma_div_undoes_mul(a: Unit, b: Unit, x: Unit)
    requires
        a.wf(),
        b.wf(),
    ensures
        exponent(div_model(mul_model(a@, b@), b@), x) == exponent(a@, x),
{
    broadcast use vstd::seq_lib::lemma_multiset_commutative;
    broadcast use vstd::multiset::group_multiset_axioms;

    lemma_mul_exponents(a, b);
    let p = mul_model(a@, b@);
    let (n1, d1) = (model_numer(p), model_denom(p));
    let (n2, d2) = (model_numer(b@), model_denom(b@));
    lemma_all_simple_concat(n1, d2);
    lemma_all_simple_concat(d1, n2);
    lemma_cancel_model(n1 + d2, d1 + n2);
    assert(exponent(p, x) == exponent(a@, x) + exponent(b@, x));
}

/// Converting to canonical units never changes which quantities a unit can
/// be converted to: the canonical units are commensurable with the unit.
pub proof fn lemma_canonical_commensurable(u: Unit)
    requires
        u.wf(),
    ensures
        model_wf(canonical_model(u@)),
        commensurable(canonical_model(u@), u@),
{
    lemma_flat_base(model_numer(u@));
    lemma_flat_base(model_denom(u@));
    let n = flat_base(model_numer(u@));
    if n.len() == 1 {
        assert(n =~= seq![n[0]]);
    }
}

/// Commensurability is an equivalence relation.
pub proof fn lemma_commensurable_equivalence(a: UnitModel, b: UnitModel, c: UnitModel)
    ensures
        commensurable(a, a),
        commensurable(a, b) ==> commensurable(b, a),
        commensurable(a, b) && commensurable(b, c) ==> commensurable(a, c),
{
}

} // verus!
