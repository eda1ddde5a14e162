//! The queries clients registered on the stores, and the solutions last
//! sent to them: new solutions are sent only when they differ.
use vstd::prelude::*;
use crate::text::{str_eq, texts_of};

verus! {

/// A client's queries on a store, under a key, with the solutions (as JSON
/// text) last sent to it.
#[derive(Debug)]
pub struct Registration {
    pub store: String,
    pub key: String,
    pub queries: Vec<String>,
    pub solutions: String,
}

pub ghost struct RegistrationModel {
    pub store: Seq<char>,
    pub key: Seq<char>,
    pub queries: Seq<Seq<char>>,
    pub solutions: Seq<char>,
}

impl View for Registration {
    type V = RegistrationModel;

    open spec fn view(&self) -> RegistrationModel {
        RegistrationModel {
            store: self.store@,
            key: self.key@,
            queries: texts_of(self.queries@),
            solutions: self.solutions@,
        }
    }
}

/// Whether a registration is the one of `key` on `store`.
pub open spec fn is_of(r: RegistrationModel, store: Seq<char>, key: Seq<char>) -> bool {
    r.store == store && r.key == key
}

/// Whether the registrations hold one of `key` on `store`.
pub open spec fn registered(entries: Seq<RegistrationModel>, store: Seq<char>, key: Seq<char>) -> bool {
    exists|i: int| 0 <= i < entries.len() && is_of(#[trigger] entries[i], store, key)
}

/// No store holds two registrations under one key.
pub open spec fn keys_distinct(entries: Seq<RegistrationModel>) -> bool {
    forall|i: int, j: int| 0 <= i < j < entries.len()
        ==> !is_of(#[trigger] entries[i], (#[trigger] entries[j]).store, entries[j].key)
}

/// The registrations of the stores.
pub struct Registry {
    stores: Vec<String>,
    registrations: Vec<Registration>,
}

impl Registry {
    /// The names of the stores.
    pub closed spec fn store_names(&self) -> Seq<Seq<char>> {
        texts_of(self.stores@)
    }

    /// The registrations, oldest first.
    pub closed spec fn entries(&self) -> Seq<RegistrationModel> {
        self.registrations@.map_values(|r: Registration| r@)
    }

    pub open spec fn wf(&self) -> bool {
        keys_distinct(self.entries())
    }

    /// A registry of the named stores, without registrations.
    pub fn new(stores: Vec<String>) -> (r: Registry)
        ensures
            r.wf(),
            r.store_names() == texts_of(stores@),
            r.entries() == Seq::<RegistrationModel>::empty(),
    {
        let r = Registry { stores, registrations: Vec::new() };
        assert(r.entries() =~= Seq::<RegistrationModel>::empty());
        r
    }

    /// Whether `store` names a store; the error sent to a client that
    /// registers on another name.
    pub fn check_store(&self, store: &str) -> (r: Result<(), String>)
        ensures
            r is Ok <==> self.store_names().contains(store@),
            r matches Err(m) ==> m@ == store@ + " is not a valid store name"@,
    {
        let mut i: usize = 0;
        while i < self.stores.len()
            invariant
                i <= self.stores@.len(),
                forall|k: int| 0 <= k < i ==> self.stores@[k]@ != store@,
            decreases self.stores.len() - i,
        {
            if str_eq(self.stores[i].as_str(), store) {
                assert(self.store_names()[i as int] == store@);
                return Ok(());
            }
            i = i + 1;
        }
        assert(!self.store_names().contains(store@)) by {
            if self.store_names().contains(store@) {
                let k = choose|k: int| 0 <= k < self.store_names().len() && self.store_names()[k] == store@;
                assert(self.stores@[k]@ == store@);
            }
        }
        let mut m = String::from_str(store);
        m.append(" is not a valid store name");
        Err(m)
    }

    fn find(&self, store: &str, key: &str) -> (r: Option<usize>)
        ensures
            match r {
                Some(i) => i < self.entries().len() && is_of(self.entries()[i as int], store@, key@),
                None => !registered(self.entries(), store@, key@),
            },
    {
        let mut i: usize = 0;
        while i < self.registrations.len()
            invariant
                i <= self.registrations@.len(),
                forall|k: int| 0 <= k < i ==> !is_of(#[trigger] self.entries()[k], store@, key@),
            decreases self.registrations.len() - i,
        {
            let r = &self.registrations[i];
            if str_eq(r.store.as_str(), store) && str_eq(r.key.as_str(), key) {
                assert(self.entries()[i as int] == r@);
                return Some(i);
            }
            assert(self.entries()[i as int] == r@);
            i = i + 1;
        }
        None
    }

    /// Whether the store holds a registration under `key`.
    pub fn is_registered(&self, store: &str, key: &str) -> (r: bool)
        ensures
            r == registered(self.entries(), store@, key@),
    {
        self.find(store, key).is_some()
    }

    /// Registers queries on a store, with the solutions first sent to the
    /// client.
    pub fn register(&mut self, store: String, key: String, queries: Vec<String>, solutions: String)
        requires
            old(self).wf(),
            old(self).store_names().contains(store@),
            !registered(old(self).entries(), store@, key@),
        ensures
            final(self).wf(),
            final(self).store_names() == old(self).store_names(),
            final(self).entries() == old(self).entries().push(
                RegistrationModel { store: store@, key: key@, queries: texts_of(queries@), solutions: solutions@ },
            ),
    {
        let r = Registration { store, key, queries, solutions };
        let ghost m = r@;
        self.registrations.push(r);
        proof {
            assert(self.entries() =~= old(self).entries().push(m));
            assert forall|i: int, j: int| 0 <= i < j < self.entries().len()
                implies !is_of(#[trigger] self.entries()[i], (#[trigger] self.entries()[j]).store, self.entries()[j].key) by {
                if j == self.entries().len() - 1 {
                    assert(self.entries()[i] == old(self).entries()[i]);
                }
            }
        }
    }

    /// Removes the registration of `key` on a store (if there is one).
    #[verifier::spinoff_prover]
    #[verifier::rlimit(30)]
    pub fn deregister(&mut self, store: &str, key: &str)
        requires
            old(self).wf(),
        ensures
            final(self).wf(),
            final(self).store_names() == old(self).store_names(),
            final(self).entries() == old(self).entries().filter(|r: RegistrationModel| !is_of(r, store@, key@)),
    {
        let ghost e0 = self.entries();
        let ghost keep = |r: RegistrationModel| !is_of(r, store@, key@);
        let mut old_regs: Vec<Registration> = Vec::new();
        std::mem::swap(&mut old_regs, &mut self.registrations);
        let mut kept: Vec<Registration> = Vec::new();
        let mut i: usize = 0;
        proof {
            assert(old_regs@.map_values(|r: Registration| r@) == e0);
            assert(e0.take(0).filter(keep) =~= Seq::<RegistrationModel>::empty()) by {
                assert(e0.take(0) =~= Seq::<RegistrationModel>::empty());
            }
            assert(kept@.map_values(|r: Registration| r@) =~= Seq::<RegistrationModel>::empty());
        }
        for r in it: old_regs
            invariant
                e0 == it.seq().map_values(|r: Registration| r@),
                kept@.map_values(|r: Registration| r@) == e0.take(it.index() as int).filter(keep),
                keep == (|r: RegistrationModel| !is_of(r, store@, key@)),
        {
            let ghost before = kept@.map_values(|r: Registration| r@);
            let ghost idx = it.index() as int;
            proof {
                reveal(Seq::filter);
                assert(e0.take(idx + 1).drop_last() =~= e0.take(idx));
                assert(e0.take(idx + 1).last() == e0[idx]);
                assert(e0[idx] == r@);
            }
            if !(str_eq(r.store.as_str(), store) && str_eq(r.key.as_str(), key)) {
                let ghost m = r@;
                kept.push(r);
                proof {
                    assert(kept@.map_values(|r: Registration| r@) =~= before.push(m));
                }
            }
            proof {
                reveal(Seq::filter);
            }
        }
        self.registrations = kept;
        proof {
            assert(e0.take(e0.len() as int) =~= e0);
            let f = e0.filter(keep);
            assert forall|i: int, j: int| 0 <= i < j < self.entries().len()
                implies !is_of(#[trigger] self.entries()[i], (#[trigger] self.entries()[j]).store, self.entries()[j].key) by {
                lemma_filter_keeps_distinct(e0, keep);
            }
        }
    }

    /// The keys and queries of a store's registrations, oldest first.
    #[verifier::spinoff_prover]
    #[verifier::rlimit(30)]
    pub fn registrations_of(&self, store: &str) -> (r: Vec<(String, Vec<String>)>)
        ensures
            r@.map_values(|p: (String, Vec<String>)| (p.0@, texts_of(p.1@)))
                == self.entries().filter(|m: RegistrationModel| m.store == store@).map_values(
                    |m: RegistrationModel| (m.key, m.queries),
                ),
            r@.len() == count_on(self.entries(), store@),
    {
        let ghost e = self.entries();
        let ghost on = |m: RegistrationModel| m.store == store@;
        let mut out: Vec<(String, Vec<String>)> = Vec::new();
        let mut i: usize = 0;
        while i < self.registrations.len()
            invariant
                i <= self.registrations@.len(),
                e == self.entries(),
                on == (|m: RegistrationModel| m.store == store@),
                out@.map_values(|p: (String, Vec<String>)| (p.0@, texts_of(p.1@)))
                    == e.take(i as int).filter(on).map_values(|m: RegistrationModel| (m.key, m.queries)),
            decreases self.registrations.len() - i,
        {
            let ghost before = out@.map_values(|p: (String, Vec<String>)| (p.0@, texts_of(p.1@)));
            let r = &self.registrations[i];
            proof {
                reveal(Seq::filter);
                assert(e.take(i + 1).drop_last() =~= e.take(i as int));
                assert(e.take(i + 1).last() == e[i as int]);
                assert(e[i as int] == r@);
            }
            if str_eq(r.store.as_str(), store) {
                let queries = copy_strings(&r.queries);
                let p = (String::from_str(r.key.as_str()), queries);
                let ghost pv = (p.0@, texts_of(p.1@));
                out.push(p);
                proof {
                    assert(out@.map_values(|p: (String, Vec<String>)| (p.0@, texts_of(p.1@))) =~= before.push(pv));
                    assert(e.take(i + 1).filter(on) == e.take(i as int).filter(on).push(e[i as int]));
                    assert(e.take(i + 1).filter(on).map_values(|m: RegistrationModel| (m.key, m.queries))
                        =~= e.take(i as int).filter(on).map_values(|m: RegistrationModel| (m.key, m.queries)).push((r@.key, r@.queries)));
                }
            } else {
                proof {
                    assert(e.take(i + 1).filter(on) == e.take(i as int).filter(on));
                }
            }
            i = i + 1;
        }
        assert(e.take(e.len() as int) =~= e);
        proof {
            lemma_count_filter(e, store@);
        }
        out
    }

    /// Records the new solutions of a registration; whether they differ from
    /// those last sent (and so are to be sent).
    pub fn update_solutions(&mut self, store: &str, key: &str, solutions: String) -> (r: bool)
        requires
            old(self).wf(),
            registered(old(self).entries(), store@, key@),
        ensures
            final(self).wf(),
            final(self).store_names() == old(self).store_names(),
            exists|i: int| 0 <= i < old(self).entries().len() && is_of(old(self).entries()[i], store@, key@) && {
                &&& r == (old(self).entries()[i].solutions != solutions@)
                &&& final(self).entries() == old(self).entries().update(
                    i,
                    RegistrationModel { solutions: solutions@, ..old(self).entries()[i] },
                )
            },
    {
        let i = match self.find(store, key) {
            Some(i) => i,
            None => {
                proof {
                    assert(false);
                }
                return false;
            },
        };
        let ghost e0 = self.entries();
        let changed = !str_eq(self.registrations[i].solutions.as_str(), solutions.as_str());
        let mut reg = self.registrations.remove(i);
        let ghost m = RegistrationModel { solutions: solutions@, ..reg@ };
        reg.solutions = solutions;
        self.registrations.insert(i, reg);
        proof {
            assert(self.entries() =~= e0.update(i as int, m));
            assert forall|a: int, b: int| 0 <= a < b < self.entries().len()
                implies !is_of(#[trigger] self.entries()[a], (#[trigger] self.entries()[b]).store, self.entries()[b].key) by {
                assert(self.entries()[a].store == e0[a].store && self.entries()[a].key == e0[a].key);
                assert(self.entries()[b].store == e0[b].store && self.entries()[b].key == e0[b].key);
            }
        }
        changed
    }

    /// What registering queries on a store ends in once they were evaluated:
    /// with their solutions (as JSON text) the registration is recorded, and
    /// the solutions go to the client; with the error of their evaluation
    /// nothing is registered, and the client gets "Expected " and the error.
    pub fn register_outcome(
        &mut self,
        store: String,
        key: String,
        queries: Vec<String>,
        outcome: Result<String, String>,
    ) -> (r: Result<(), String>)
        requires
            old(self).wf(),
            old(self).store_names().contains(store@),
            outcome is Ok ==> !registered(old(self).entries(), store@, key@),
        ensures
            final(self).wf(),
            final(self).store_names() == old(self).store_names(),
            match outcome {
                Ok(s) => r is Ok && final(self).entries() == old(self).entries().push(
                    RegistrationModel { store: store@, key: key@, queries: texts_of(queries@), solutions: s@ },
                ),
                Err(e) => r matches Err(m) && m@ == "Expected "@ + e@ && final(self).entries() == old(self).entries(),
            },
    {
        match outcome {
            Ok(s) => {
                self.register(store, key, queries, s);
                Ok(())
            },
            Err(e) => {
                let mut m = String::from_str("Expected ");
                m.append(e.as_str());
                Err(m)
            },
        }
    }

    /// Records the solutions that a store's registrations now have (one for
    /// each, in the order of `registrations_of`) and returns, in that order,
    /// the key and new solutions of each whose solutions changed: those are
    /// the clients to send them to.
    #[verifier::spinoff_prover]
    #[verifier::rlimit(30)]
    pub fn refresh(&mut self, store: &str, solutions: Vec<String>) -> (r: Vec<(String, String)>)
        requires
            old(self).wf(),
            solutions@.len() == count_on(old(self).entries(), store@),
        ensures
            final(self).wf(),
            final(self).store_names() == old(self).store_names(),
            final(self).entries() == refreshed(old(self).entries(), store@, texts_of(solutions@)),
            r@.map_values(|p: (String, String)| (p.0@, p.1@)) == notices(old(self).entries(), store@, texts_of(solutions@)),
    {
        let ghost e0 = self.entries();
        let ghost sols = texts_of(solutions@);
        let mut old_regs: Vec<Registration> = Vec::new();
        std::mem::swap(&mut old_regs, &mut self.registrations);
        let mut kept: Vec<Registration> = Vec::new();
        let mut out: Vec<(String, String)> = Vec::new();
        let mut j: usize = 0;
        proof {
            assert(old_regs@.map_values(|r: Registration| r@) == e0);
            assert(e0.take(0) =~= Seq::<RegistrationModel>::empty());
            assert(kept@.map_values(|r: Registration| r@) =~= Seq::<RegistrationModel>::empty());
            assert(out@.map_values(|p: (String, String)| (p.0@, p.1@)) =~= Seq::<(Seq<char>, Seq<char>)>::empty());
        }
        for r in it: old_regs
            invariant
                e0 == it.seq().map_values(|r: Registration| r@),
                sols == texts_of(solutions@),
                sols.len() == count_on(e0, store@),
                j == count_on(e0.take(it.index() as int), store@),
                kept@.map_values(|r: Registration| r@) == refreshed(e0.take(it.index() as int), store@, sols),
                out@.map_values(|p: (String, String)| (p.0@, p.1@)) == notices(e0.take(it.index() as int), store@, sols),
        {
            let ghost idx = it.index() as int;
            let ghost before_k = kept@.map_values(|r: Registration| r@);
            let ghost before_o = out@.map_values(|p: (String, String)| (p.0@, p.1@));
            proof {
                assert(e0.take(idx + 1).drop_last() =~= e0.take(idx));
                assert(e0.take(idx + 1).last() == e0[idx]);
                assert(e0[idx] == r@);
                lemma_count_prefix(e0, idx + 1, e0.len() as int);
                assert(e0.take(e0.len() as int) =~= e0);
            }
            if str_eq(r.store.as_str(), store) {
                proof {
                    assert(count_on(e0.take(idx + 1), store@) == j + 1);
                    assert(count_on(e0.take(idx + 1), store@) <= count_on(e0.take(e0.len() as int), store@));
                    assert(sols.len() == solutions@.len());
                }
                let s = String::from_str(solutions[j].as_str());
                let n = solutions.len();
                assert(j < n);
                let next = j + 1;
                if !str_eq(r.solutions.as_str(), s.as_str()) {
                    let note = (String::from_str(r.key.as_str()), String::from_str(s.as_str()));
                    let ghost nv = (note.0@, note.1@);
                    out.push(note);
                    proof {
                        assert(out@.map_values(|p: (String, String)| (p.0@, p.1@)) =~= before_o.push(nv));
                    }
                } else {
                    proof {
                        assert(out@.map_values(|p: (String, String)| (p.0@, p.1@)) =~= before_o);
                    }
                }
                let mut reg = r;
                reg.solutions = s;
                let ghost m = reg@;
                kept.push(reg);
                proof {
                    assert(kept@.map_values(|r: Registration| r@) =~= before_k.push(m));
                }
                j = next;
            } else {
                let ghost m = r@;
                kept.push(r);
                proof {
                    assert(kept@.map_values(|r: Registration| r@) =~= before_k.push(m));
                    assert(out@.map_values(|p: (String, String)| (p.0@, p.1@)) =~= before_o);
                }
            }
        }
        self.registrations = kept;
        proof {
            assert(e0.take(e0.len() as int) =~= e0);
            lemma_refreshed_keys(e0, store@, sols);
        }
        out
    }
}


/// How many registrations are on `store`.
pub open spec fn count_on(entries: Seq<RegistrationModel>, store: Seq<char>) -> nat
    decreases entries.len(),
{
    if entries.len() == 0 {
        0
    } else {
        count_on(entries.drop_last(), store) + if entries.last().store == store { 1nat } else { 0nat }
    }
}

/// The registrations once those on `store` got, in order, the solutions
/// `sols`; the others are as they were.
pub open spec fn refreshed(entries: Seq<RegistrationModel>, store: Seq<char>, sols: Seq<Seq<char>>) -> Seq<RegistrationModel>
    decreases entries.len(),
{
    if entries.len() == 0 {
        Seq::empty()
    } else {
        let prev = refreshed(entries.drop_last(), store, sols);
        let e = entries.last();
        if e.store == store {
            prev.push(RegistrationModel { solutions: sols[count_on(entries.drop_last(), store) as int], ..e })
        } else {
            prev.push(e)
        }
    }
}

/// The key and new solutions of each registration on `store` whose
/// solutions in `sols` differ from those last sent, in order.
pub open spec fn notices(entries: Seq<RegistrationModel>, store: Seq<char>, sols: Seq<Seq<char>>) -> Seq<(Seq<char>, Seq<char>)>
    decreases entries.len(),
{
    if entries.len() == 0 {
        Seq::empty()
    } else {
        let prev = notices(entries.drop_last(), store, sols);
        let e = entries.last();
        let s = sols[count_on(entries.drop_last(), store) as int];
        if e.store == store && s != e.solutions {
            prev.push((e.key, s))
        } else {
            prev
        }
    }
}

proof fn lemma_count_filter(e: Seq<RegistrationModel>, store: Seq<char>)
    ensures
        count_on(e, store) == e.filter(|m: RegistrationModel| m.store == store).len(),
    decreases e.len(),
{
    reveal(Seq::filter);
    if e.len() > 0 {
        lemma_count_filter(e.drop_last(), store);
    }
}

proof fn lemma_count_prefix(e: Seq<RegistrationModel>, i: int, k: int)
    requires
        0 <= i <= k <= e.len(),
    ensures
        forall|st: Seq<char>| #[trigger] count_on(e.take(i), st) <= count_on(e.take(k), st),
    decreases k - i,
{
    if i < k {
        lemma_count_prefix(e, i, k - 1);
        assert(e.take(k).drop_last() =~= e.take(k - 1));
    }
}

proof fn lemma_refreshed_len(e: Seq<RegistrationModel>, store: Seq<char>, sols: Seq<Seq<char>>)
    ensures
        refreshed(e, store, sols).len() == e.len(),
        forall|i: int| 0 <= i < e.len() ==> {
            &&& (#[trigger] refreshed(e, store, sols)[i]).store == e[i].store
            &&& refreshed(e, store, sols)[i].key == e[i].key
            &&& refreshed(e, store, sols)[i].queries == e[i].queries
        },
    decreases e.len(),
{
    if e.len() > 0 {
        lemma_refreshed_len(e.drop_last(), store, sols);
    }
}

proof fn lemma_refreshed_keys(e: Seq<RegistrationModel>, store: Seq<char>, sols: Seq<Seq<char>>)
    requires
        keys_distinct(e),
    ensures
        keys_distinct(refreshed(e, store, sols)),
{
    lemma_refreshed_len(e, store, sols);
    let f = refreshed(e, store, sols);
    assert forall|i: int, j: int| 0 <= i < j < f.len()
        implies !is_of(#[trigger] f[i], (#[trigger] f[j]).store, f[j].key) by {
        assert(!is_of(e[i], e[j].store, e[j].key));
    }
}

fn copy_strings(v: &Vec<String>) -> (r: Vec<String>)
    ensures
        texts_of(r@) == texts_of(v@),
{
    let mut r: Vec<String> = Vec::new();
    let mut i: usize = 0;
    while i < v.len()
        invariant
            i <= v@.len(),
            texts_of(r@) == texts_of(v@.take(i as int)),
        decreases v.len() - i,
    {
        let ghost before = texts_of(r@);
        r.push(String::from_str(v[i].as_str()));
        proof {
            assert(texts_of(r@) =~= before.push(v@[i as int]@));
            assert(texts_of(v@.take(i + 1)) =~= texts_of(v@.take(i as int)).push(v@[i as int]@));
        }
        i = i + 1;
    }
    assert(v@.take(v@.len() as int) =~= v@);
    r
}

proof fn lemma_filter_keeps_distinct(e: Seq<RegistrationModel>, keep: spec_fn(RegistrationModel) -> bool)
    requires
        keys_distinct(e),
    ensures
        keys_distinct(e.filter(keep)),
    decreases e.len(),
{
    reveal(Seq::filter);
    if e.len() > 0 {
        lemma_filter_keeps_distinct(e.drop_last(), keep);
        let f = e.drop_last().filter(keep);
        if keep(e.last()) {
            assert forall|i: int, j: int| 0 <= i < j < f.push(e.last()).len()
                implies !is_of(#[trigger] f.push(e.last())[i], (#[trigger] f.push(e.last())[j]).store, f.push(e.last())[j].key) by {
                if j == f.len() {
                    e.drop_last().lemma_filter_contains_rev(keep, f[i]);
                    assert(f.contains(f[i]));
                    assert(e.drop_last().contains(f[i]));
                    let k = choose|k: int| 0 <= k < e.drop_last().len() && e.drop_last()[k] == f[i];
                    assert(e[k] == f[i]);
                    assert(!is_of(e[k], e[e.len() - 1].store, e[e.len() - 1].key));
                }
            }
        }
    }
}

/// Deregistering undoes registering: registering a key not yet registered
/// on a store and then deregistering it leaves the registrations as they
/// were.
pub proof fn lemma_register_deregister(entries: Seq<RegistrationModel>, m: RegistrationModel)
    requires
        !registered(entries, m.store, m.key),
    ensures
        entries.push(m).filter(|r: RegistrationModel| !is_of(r, m.store, m.key)) == entries,
{
    reveal(Seq::filter);
    let keep = |r: RegistrationModel| !is_of(r, m.store, m.key);
    assert(entries.push(m).drop_last() =~= entries);
    lemma_filter_all(entries, keep);
}

proof fn lemma_filter_all(e: Seq<RegistrationModel>, keep: spec_fn(RegistrationModel) -> bool)
    requires
        forall|i: int| 0 <= i < e.len() ==> keep(#[trigger] e[i]),
    ensures
        e.filter(keep) == e,
    decreases e.len(),
{
    reveal(Seq::filter);
    if e.len() > 0 {
        lemma_filter_all(e.drop_last(), keep);
        assert(keep(e[e.len() - 1]));
        assert(e.drop_last().push(e.last()) =~= e);
    } else {
        assert(e.filter(keep) =~= e);
    }
}

/// Solutions are sent once: recording the same solutions twice in a row,
/// the second time finds nothing new to send.
pub proof fn lemma_update_solutions_once(entries: Seq<RegistrationModel>, i: int, solutions: Seq<char>)
    requires
        0 <= i < entries.len(),
    ensures
        ({
            let after = entries.update(i, RegistrationModel { solutions: solutions, ..entries[i] });
            after[i].solutions == solutions && is_of(after[i], entries[i].store, entries[i].key)
        }),
{
}


/// Registration `i` once those on `store` got, in order, the solutions
/// `sols`: the next of them if it is on `store`, else as it was.
pub open spec fn refreshed_at(entries: Seq<RegistrationModel>, store: Seq<char>, sols: Seq<Seq<char>>, i: int) -> RegistrationModel {
    if entries[i].store == store {
        RegistrationModel { solutions: sols[count_on(entries.take(i), store) as int], ..entries[i] }
    } else {
        entries[i]
    }
}

/// Whether registration `i` is on `store` and its client is told of new
/// solutions `s` under `key`: those it gets from `sols` differ from the
/// ones last sent.
pub open spec fn notified_at(
    entries: Seq<RegistrationModel>,
    store: Seq<char>,
    sols: Seq<Seq<char>>,
    i: int,
    key: Seq<char>,
    s: Seq<char>,
) -> bool {
    &&& 0 <= i < entries.len()
    &&& entries[i].store == store
    &&& entries[i].key == key
    &&& sols[count_on(entries.take(i), store) as int] == s
    &&& s != entries[i].solutions
}

/// An update of a store: each registration on that store, and only those,
/// takes its new solutions (the next of `sols`, in order), the others stay
/// as they were; and a client is told of new solutions exactly when its
/// registration is on that store and they differ from those last sent.
pub proof fn lemma_refresh(entries: Seq<RegistrationModel>, store: Seq<char>, sols: Seq<Seq<char>>)
    requires
        sols.len() == count_on(entries, store),
    ensures
        refreshed(entries, store, sols).len() == entries.len(),
        forall|i: int| 0 <= i < entries.len()
            ==> #[trigger] refreshed(entries, store, sols)[i] == refreshed_at(entries, store, sols, i),
        forall|key: Seq<char>, s: Seq<char>| #[trigger] notices(entries, store, sols).contains((key, s))
            <==> (exists|i: int| #[trigger] notified_at(entries, store, sols, i, key, s)),
{
    lemma_refresh_facts(entries, store, sols);
}

/// What `lemma_refresh` states, for any solutions.
proof fn lemma_refresh_facts(entries: Seq<RegistrationModel>, store: Seq<char>, sols: Seq<Seq<char>>)
    ensures
        refreshed(entries, store, sols).len() == entries.len(),
        forall|i: int| 0 <= i < entries.len()
            ==> #[trigger] refreshed(entries, store, sols)[i] == refreshed_at(entries, store, sols, i),
        forall|key: Seq<char>, s: Seq<char>| #[trigger] notices(entries, store, sols).contains((key, s))
            <==> (exists|i: int| #[trigger] notified_at(entries, store, sols, i, key, s)),
    decreases entries.len(),
{
    if entries.len() > 0 {
        let p = entries.drop_last();
        let n = entries.len() - 1;
        assert(entries.take(n) =~= p);
        lemma_refresh_facts(p, store, sols);
        assert forall|i: int| 0 <= i < n implies #[trigger] entries.take(i) == p.take(i) by {
            assert(entries.take(i) =~= p.take(i));
        }
        let prev = notices(p, store, sols);
        assert forall|key: Seq<char>, s: Seq<char>| #[trigger] notices(entries, store, sols).contains((key, s))
            implies exists|i: int| #[trigger] notified_at(entries, store, sols, i, key, s) by {
            if prev.contains((key, s)) {
                let i = choose|i: int| #[trigger] notified_at(p, store, sols, i, key, s);
                assert(entries.take(i) == p.take(i));
                assert(notified_at(entries, store, sols, i, key, s));
            } else {
                assert(notified_at(entries, store, sols, n, key, s));
            }
        }
        assert forall|key: Seq<char>, s: Seq<char>| (exists|i: int| #[trigger] notified_at(entries, store, sols, i, key, s))
            implies #[trigger] notices(entries, store, sols).contains((key, s)) by {
            let i = choose|i: int| #[trigger] notified_at(entries, store, sols, i, key, s);
            if i < n {
                assert(entries.take(i) == p.take(i));
                assert(notified_at(p, store, sols, i, key, s));
                assert(prev.contains((key, s)));
                let w = choose|w: int| 0 <= w < prev.len() && prev[w] == (key, s);
                if entries.last().store == store && sols[count_on(p, store) as int] != entries.last().solutions {
                    assert(notices(entries, store, sols)[w] == (key, s));
                }
            } else {
                assert(i == n);
                assert(notices(entries, store, sols).last() == (key, s));
                assert(notices(entries, store, sols)[notices(entries, store, sols).len() - 1] == (key, s));
            }
        }
    }
}

} // verus!
