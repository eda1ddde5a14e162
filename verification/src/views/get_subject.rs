//! The pages listing the subjects of the store and the statements about one
//! subject (for inspecting the raw data the other views use).
use vstd::prelude::*;

verus! {

/// The class of the `index`th row of a table, for striping.
pub open spec fn row_class_spec(index: nat) -> Seq<char> {
    if index % 2 == 0 { "even"@ } else { "odd"@ }
}

/// The class of the `index`th row of a table ("even" or "odd").
pub fn row_class(index: usize) -> (r: String)
    ensures
        r@ == row_class_spec(index as nat),
{
    if index % 2 == 0 {
        String::from_str("even")
    } else {
        String::from_str("odd")
    }
}

/// The page of a subject.
pub fn subject_url(name: &str) -> (r: String)
    ensures
        r@ == "/subject/"@ + name@,
{
    let mut r = String::from_str("/subject/");
    r.append(name);
    r
}

/// How an object is shown: a link to the page of the subject it names
/// (IRIs and blank subjects), or plain text.
#[derive(Debug, PartialEq, Eq)]
pub enum ObjectContext {
    Link(String, String),
    Normal(String),
}

pub ghost enum ObjectContextModel {
    Link(Seq<char>, Seq<char>),
    Normal(Seq<char>),
}

impl View for ObjectContext {
    type V = ObjectContextModel;

    open spec fn view(&self) -> ObjectContextModel {
        match self {
            ObjectContext::Link(u, t) => ObjectContextModel::Link(u@, t@),
            ObjectContext::Normal(t) => ObjectContextModel::Normal(t@),
        }
    }
}

pub open spec fn object_context_spec(names_subject: bool, text: Seq<char>) -> ObjectContextModel {
    if names_subject {
        ObjectContextModel::Link("/subject/"@ + text, text)
    } else {
        ObjectContextModel::Normal(text)
    }
}

/// How an object written as `text` is shown; `names_subject` tells whether
/// it is an IRI or a blank subject.
pub fn object_to_context(names_subject: bool, text: &str) -> (r: ObjectContext)
    ensures
        r@ == object_context_spec(names_subject, text@),
{
    if names_subject {
        ObjectContext::Link(subject_url(text), String::from_str(text))
    } else {
        ObjectContext::Normal(String::from_str(text))
    }
}

/// A row of the list of subjects: its class, the URL of the subject's page,
/// and its name.
pub open spec fn subject_row_spec(index: nat, name: Seq<char>) -> (Seq<char>, Seq<char>, Seq<char>) {
    (row_class_spec(index), "/subject/"@ + name, name)
}

/// The rows of the list of subjects, in order.
pub fn subject_rows(names: &Vec<String>) -> (r: Vec<(String, String, String)>)
    ensures
        r@.len() == names@.len(),
        forall|i: int| 0 <= i < names@.len() ==> ((#[trigger] r@[i]).0@, r@[i].1@, r@[i].2@) == subject_row_spec(i as nat, names@[i]@),
{
    let mut r: Vec<(String, String, String)> = Vec::new();
    let mut i: usize = 0;
    while i < names.len()
        invariant
            i <= names@.len(),
            r@.len() == i,
            forall|k: int| 0 <= k < i ==> ((#[trigger] r@[k]).0@, r@[k].1@, r@[k].2@) == subject_row_spec(k as nat, names@[k]@),
        decreases names.len() - i,
    {
        let name = names[i].as_str();
        r.push((row_class(i), subject_url(name), String::from_str(name)));
        i = i + 1;
    }
    r
}

} // verus!
