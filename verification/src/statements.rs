//! Updates to a triple store, written as a list of actions that are applied
//! in order: new blank subjects are numbered in the order they are made.
use vstd::prelude::*;
use crate::json::JsonNumber;
use crate::model::{Alert, AlertModel};

verus! {

/// The object of a statement.
#[derive(Debug)]
pub enum Object {
    /// An IRI (possibly a prefixed name such as `entities:foo`).
    Iri(String),
    /// The blank subject made by the given `NewBlank` action (counting from 0).
    Blank(usize),
    /// The name of that blank subject, as a plain string.
    BlankName(usize),
    /// A string with a language tag ("" for none).
    Str(String, String),
    /// A value of the given type (e.g. `gnos:ip_address`).
    Typed(String, String),
    /// A literal with a datatype IRI and a language tag, to be converted by the store.
    Literal(String, String, String),
    Int(i64),
    /// A floating point number, as written.
    Float(JsonNumber),
    Bool(bool),
    /// The current time.
    Now,
}

/// The subject of a statement.
#[derive(Debug)]
pub enum Subject {
    Named(String),
    /// The blank subject made by the given `NewBlank` action (counting from 0).
    Blank(usize),
}

/// One update of a store.
#[derive(Debug)]
pub enum Action {
    /// Removes every statement.
    Clear,
    /// Makes a new blank subject whose name starts with the given label.
    NewBlank(String),
    /// Adds statements about a subject: (predicate, object) pairs.
    Add(Subject, Vec<(String, Object)>),
    /// Replaces the object of the statement with this subject and predicate.
    Replace(Subject, String, Object),
    /// Removes the subjects whose first statement says that the named
    /// modeler made them.
    PruneModeler(String),
    /// Opens an alert (unless it is already open).
    OpenAlert(Alert),
    /// Closes the open alerts with this target and id.
    CloseAlert(String, String),
}

pub ghost enum ObjectModel {
    Iri(Seq<char>),
    Blank(nat),
    BlankName(nat),
    Str(Seq<char>, Seq<char>),
    Typed(Seq<char>, Seq<char>),
    Literal(Seq<char>, Seq<char>, Seq<char>),
    Int(i64),
    Float(Seq<char>, i64),
    Bool(bool),
    Now,
}

pub ghost enum SubjectModel {
    Named(Seq<char>),
    Blank(nat),
}

pub ghost enum ActionModel {
    Clear,
    NewBlank(Seq<char>),
    Add(SubjectModel, Seq<(Seq<char>, ObjectModel)>),
    Replace(SubjectModel, Seq<char>, ObjectModel),
    PruneModeler(Seq<char>),
    OpenAlert(AlertModel),
    CloseAlert(Seq<char>, Seq<char>),
}

impl View for Object {
    type V = ObjectModel;

    open spec fn view(&self) -> ObjectModel {
        match self {
            Object::Iri(s) => ObjectModel::Iri(s@),
            Object::Blank(k) => ObjectModel::Blank(*k as nat),
            Object::BlankName(k) => ObjectModel::BlankName(*k as nat),
            Object::Str(s, l) => ObjectModel::Str(s@, l@),
            Object::Typed(s, t) => ObjectModel::Typed(s@, t@),
            Object::Literal(s, t, l) => ObjectModel::Literal(s@, t@, l@),
            Object::Int(i) => ObjectModel::Int(*i),
            Object::Float(x) => ObjectModel::Float(x.text@, x.truncated),
            Object::Bool(b) => ObjectModel::Bool(*b),
            Object::Now => ObjectModel::Now,
        }
    }
}

impl View for Subject {
    type V = SubjectModel;

    open spec fn view(&self) -> SubjectModel {
        match self {
            Subject::Named(s) => SubjectModel::Named(s@),
            Subject::Blank(k) => SubjectModel::Blank(*k as nat),
        }
    }
}

/// The (predicate, object) pairs as text and object models.
pub open spec fn entries_view(e: Seq<(String, Object)>) -> Seq<(Seq<char>, ObjectModel)> {
    e.map_values(|p: (String, Object)| (p.0@, p.1@))
}

impl View for Action {
    type V = ActionModel;

    open spec fn view(&self) -> ActionModel {
        match self {
            Action::Clear => ActionModel::Clear,
            Action::NewBlank(s) => ActionModel::NewBlank(s@),
            Action::Add(s, e) => ActionModel::Add(s@, entries_view(e@)),
            Action::Replace(s, p, o) => ActionModel::Replace(s@, p@, o@),
            Action::PruneModeler(m) => ActionModel::PruneModeler(m@),
            Action::OpenAlert(a) => ActionModel::OpenAlert(a@),
            Action::CloseAlert(t, i) => ActionModel::CloseAlert(t@, i@),
        }
    }
}

/// The actions as models.
pub open spec fn plan_view(p: Seq<Action>) -> Seq<ActionModel> {
    p.map_values(|a: Action| a@)
}

/// The number of blank subjects a plan makes.
pub open spec fn blank_count(p: Seq<ActionModel>) -> nat
    decreases p.len(),
{
    if p.len() == 0 {
        0
    } else {
        blank_count(p.drop_last()) + if p.last() is NewBlank { 1nat } else { 0nat }
    }
}

pub open spec fn object_refs_ok(o: ObjectModel, n: nat) -> bool {
    match o {
        ObjectModel::Blank(k) => k < n,
        ObjectModel::BlankName(k) => k < n,
        _ => true,
    }
}

pub open spec fn subject_refs_ok(s: SubjectModel, n: nat) -> bool {
    s matches SubjectModel::Blank(k) ==> k < n
}

/// Every blank subject an action refers to has been made before it.
pub open spec fn action_refs_ok(a: ActionModel, n: nat) -> bool {
    match a {
        ActionModel::Add(s, e) => subject_refs_ok(s, n) && forall|i: int| 0 <= i < e.len() ==> object_refs_ok(#[trigger] e[i].1, n),
        ActionModel::Replace(s, _, o) => subject_refs_ok(s, n) && object_refs_ok(o, n),
        _ => true,
    }
}

/// Every blank subject the plan refers to is made by an earlier action.
pub open spec fn plan_refs_ok(p: Seq<ActionModel>) -> bool
    decreases p.len(),
{
    if p.len() == 0 {
        true
    } else {
        plan_refs_ok(p.drop_last()) && action_refs_ok(p.last(), blank_count(p.drop_last()))
    }
}

/// A plan of actions being built, with the number of blank subjects it makes.
pub struct Plan {
    actions: Vec<Action>,
    blanks: usize,
}

impl Plan {
    pub closed spec fn wf(&self) -> bool {
        &&& self.blanks == blank_count(plan_view(self.actions@))
        &&& self.blanks <= self.actions@.len()
        &&& plan_refs_ok(plan_view(self.actions@))
    }

    /// The actions as models.
    pub closed spec fn spec_actions(&self) -> Seq<ActionModel> {
        plan_view(self.actions@)
    }

    /// An empty plan.
    pub fn new() -> (r: Plan)
        ensures
            r.wf(),
            r.spec_actions() == Seq::<ActionModel>::empty(),
    {
        let r = Plan { actions: Vec::new(), blanks: 0 };
        assert(plan_view(r.actions@) =~= Seq::<ActionModel>::empty());
        r
    }

    /// The actions, in order; every blank subject an action refers to is
    /// made by an earlier action.
    pub fn into_actions(self) -> (r: Vec<Action>)
        requires
            self.wf(),
        ensures
            plan_view(r@) == self.spec_actions(),
            plan_refs_ok(plan_view(r@)),
    {
        self.actions
    }

    /// The number of blank subjects made so far.
    pub fn blanks(&self) -> (r: usize)
        requires
            self.wf(),
        ensures
            r == blank_count(self.spec_actions()),
    {
        self.blanks
    }

    proof fn lemma_push(&self, a: Action)
        requires
            self.wf(),
        ensures
            plan_view(self.actions@.push(a)) == self.spec_actions().push(a@),
            plan_view(self.actions@.push(a)).drop_last() == self.spec_actions(),
    {
        assert(plan_view(self.actions@.push(a)) =~= self.spec_actions().push(a@));
    }

    /// Appends an action that refers only to blank subjects already made and
    /// does not make one.
    pub fn push(&mut self, a: Action)
        requires
            old(self).wf(),
            !(a@ is NewBlank),
            action_refs_ok(a@, blank_count(old(self).spec_actions())),
        ensures
            final(self).wf(),
            final(self).spec_actions() == old(self).spec_actions().push(a@),
    {
        proof {
            self.lemma_push(a);
        }
        self.actions.push(a);
    }

    /// Appends an action making a new blank subject labelled `label`; returns
    /// its number.
    pub fn new_blank(&mut self, label: String) -> (r: usize)
        requires
            old(self).wf(),
        ensures
            final(self).wf(),
            r == blank_count(old(self).spec_actions()),
            final(self).spec_actions() == old(self).spec_actions().push(ActionModel::NewBlank(label@)),
    {
        let a = Action::NewBlank(label);
        proof {
            self.lemma_push(a);
        }
        self.actions.push(a);
        let _n = self.actions.len();
        let r = self.blanks;
        self.blanks = self.blanks + 1;
        r
    }
}


fn copy_string(s: &String) -> (r: String)
    ensures
        r@ == s@,
{
    String::from_str(s.as_str())
}

/// A copy of an object.
pub fn copy_object(o: &Object) -> (r: Object)
    ensures
        r@ == o@,
{
    match o {
        Object::Iri(s) => Object::Iri(copy_string(s)),
        Object::Blank(k) => Object::Blank(*k),
        Object::BlankName(k) => Object::BlankName(*k),
        Object::Str(s, l) => Object::Str(copy_string(s), copy_string(l)),
        Object::Typed(s, t) => Object::Typed(copy_string(s), copy_string(t)),
        Object::Literal(s, t, l) => Object::Literal(copy_string(s), copy_string(t), copy_string(l)),
        Object::Int(i) => Object::Int(*i),
        Object::Float(x) => Object::Float(crate::json::copy_number(x)),
        Object::Bool(b) => Object::Bool(*b),
        Object::Now => Object::Now,
    }
}

/// The number of blank subjects made by two plans one after the other.
pub proof fn lemma_blank_count_concat(a: Seq<ActionModel>, b: Seq<ActionModel>)
    ensures
        blank_count(a + b) == blank_count(a) + blank_count(b),
    decreases b.len(),
{
    if b.len() == 0 {
        assert(a + b =~= a);
    } else {
        lemma_blank_count_concat(a, b.drop_last());
        assert((a + b).drop_last() =~= a + b.drop_last());
    }
}

} // verus!
