//! The solutions of queries as the JSON sent to clients: one query gives
//! the list of its rows, several give the list of their solutions; a row is
//! an object of the selected variables it binds, each as a string.
use vstd::prelude::*;
use crate::json::{Json, string_of_json};
use crate::text::texts_of;

verus! {

/// A value in a row of a solution.
#[derive(Debug)]
pub enum Cell {
    /// The variable is not bound in this row.
    Unbound,
    Iri(String),
    Blank(String),
    /// A string without a language tag.
    Str(String),
    /// Any other value, written as the store writes it.
    Other(String),
}

/// The text a bound cell is sent as; none for an unbound one.
pub open spec fn cell_text(c: Cell) -> Option<Seq<char>> {
    match c {
        Cell::Unbound => None,
        Cell::Iri(s) => Some(s@),
        Cell::Blank(s) => Some(s@),
        Cell::Str(s) => Some(s@),
        Cell::Other(s) => Some(s@),
    }
}

/// The solution of a query: the names of its variables (the selected ones
/// first), how many are selected, and a row of cells per match.
#[derive(Debug)]
pub struct Solution {
    pub bindings: Vec<String>,
    pub num_selected: usize,
    pub rows: Vec<Vec<Cell>>,
}

pub ghost struct SolutionModel {
    pub bindings: Seq<Seq<char>>,
    pub num_selected: nat,
    pub rows: Seq<Seq<Option<Seq<char>>>>,
}

impl View for Solution {
    type V = SolutionModel;

    open spec fn view(&self) -> SolutionModel {
        SolutionModel {
            bindings: texts_of(self.bindings@),
            num_selected: self.num_selected as nat,
            rows: self.rows@.map_values(|r: Vec<Cell>| r@.map_values(|c: Cell| cell_text(c))),
        }
    }
}

/// Every row has a cell, and there is a name, for each selected variable.
pub open spec fn solution_ok(s: SolutionModel) -> bool {
    &&& s.num_selected <= s.bindings.len()
    &&& forall|i: int| 0 <= i < s.rows.len() ==> s.num_selected <= (#[trigger] s.rows[i]).len()
}

/// The name and text of each of the first `n` variables that `row` binds, in order.
pub open spec fn row_pairs(bindings: Seq<Seq<char>>, n: nat, row: Seq<Option<Seq<char>>>) -> Seq<(Seq<char>, Seq<char>)>
    decreases n,
{
    if n == 0 {
        Seq::empty()
    } else {
        let prev = row_pairs(bindings, (n - 1) as nat, row);
        match row[n - 1] {
            Some(t) => prev.push((bindings[n - 1], t)),
            None => prev,
        }
    }
}

/// The rows of a solution, each as the pairs of its object.
pub open spec fn solution_rows(s: SolutionModel) -> Seq<Seq<(Seq<char>, Seq<char>)>> {
    s.rows.map_values(|row: Seq<Option<Seq<char>>>| row_pairs(s.bindings, s.num_selected, row))
}

/// The fields of an object whose fields are all strings, as pairs of texts.
pub open spec fn string_pairs(j: Json) -> Option<Seq<(Seq<char>, Seq<char>)>> {
    match j {
        Json::Object(fields) => if forall|i: int| 0 <= i < fields@.len() ==> (#[trigger] fields@[i]).1 is String {
            Some(fields@.map_values(|f: (String, Json)| (f.0@, string_of_json(f.1))))
        } else {
            None
        },
        _ => None,
    }
}

/// The items of a list of such objects, each as its pairs.
pub open spec fn object_rows(j: Json) -> Option<Seq<Seq<(Seq<char>, Seq<char>)>>> {
    match j {
        Json::List(items) => if forall|i: int| 0 <= i < items@.len() ==> string_pairs(#[trigger] items@[i]) is Some {
            Some(items@.map_values(|x: Json| string_pairs(x).unwrap()))
        } else {
            None
        },
        _ => None,
    }
}

fn cell_to_json(c: &Cell) -> (r: Option<Json>)
    ensures
        match cell_text(*c) {
            Some(t) => r matches Some(Json::String(s)) && s@ == t,
            None => r is None,
        },
{
    match c {
        Cell::Unbound => None,
        Cell::Iri(s) => Some(Json::String(String::from_str(s.as_str()))),
        Cell::Blank(s) => Some(Json::String(String::from_str(s.as_str()))),
        Cell::Str(s) => Some(Json::String(String::from_str(s.as_str()))),
        Cell::Other(s) => Some(Json::String(String::from_str(s.as_str()))),
    }
}

fn row_to_json(bindings: &Vec<String>, n: usize, row: &Vec<Cell>) -> (r: Json)
    requires
        n <= bindings@.len(),
        n <= row@.len(),
    ensures
        string_pairs(r) == Some(row_pairs(texts_of(bindings@), n as nat, row@.map_values(|c: Cell| cell_text(c)))),
{
    let ghost cells = row@.map_values(|c: Cell| cell_text(c));
    let mut fields: Vec<(String, Json)> = Vec::new();
    let mut i: usize = 0;
    while i < n
        invariant
            i <= n,
            n <= bindings@.len(),
            n <= row@.len(),
            cells == row@.map_values(|c: Cell| cell_text(c)),
            forall|k: int| 0 <= k < fields@.len() ==> (#[trigger] fields@[k]).1 is String,
            fields@.map_values(|f: (String, Json)| (f.0@, string_of_json(f.1))) == row_pairs(texts_of(bindings@), i as nat, cells),
        decreases n - i,
    {
        let ghost before = fields@.map_values(|f: (String, Json)| (f.0@, string_of_json(f.1)));
        match cell_to_json(&row[i]) {
            Some(v) => {
                let name = String::from_str(bindings[i].as_str());
                let ghost p = (name@, string_of_json(v));
                fields.push((name, v));
                proof {
                    assert(fields@.map_values(|f: (String, Json)| (f.0@, string_of_json(f.1))) =~= before.push(p));
                }
            },
            None => {},
        }
        i = i + 1;
    }
    Json::Object(fields)
}

/// The JSON of a solution: the list of its rows, each the object of the
/// selected variables it binds.
pub fn solution_to_json(s: &Solution) -> (r: Json)
    requires
        solution_ok(s@),
    ensures
        object_rows(r) == Some(solution_rows(s@)),
{
    let mut items: Vec<Json> = Vec::new();
    let mut i: usize = 0;
    while i < s.rows.len()
        invariant
            i <= s.rows@.len(),
            solution_ok(s@),
            items@.len() == i,
            forall|k: int| 0 <= k < i ==> string_pairs(#[trigger] items@[k]) == Some(solution_rows(s@)[k]),
        decreases s.rows.len() - i,
    {
        assert(s@.rows[i as int] == s.rows@[i as int]@.map_values(|c: Cell| cell_text(c)));
        assert(s@.num_selected <= s@.rows[i as int].len());
        let item = row_to_json(&s.bindings, s.num_selected, &s.rows[i]);
        items.push(item);
        i = i + 1;
    }
    assert(items@.map_values(|x: Json| string_pairs(x).unwrap()) =~= solution_rows(s@));
    Json::List(items)
}

/// The JSON sent for the solutions of a client's queries: that of the
/// solution when there is one query, else the list of those of each.
pub fn solutions_to_json(solutions: &Vec<Solution>) -> (r: Json)
    requires
        forall|i: int| 0 <= i < solutions@.len() ==> solution_ok(#[trigger] solutions@[i]@),
    ensures
        solutions@.len() == 1 ==> object_rows(r) == Some(solution_rows(solutions@[0]@)),
        solutions@.len() != 1 ==> (r matches Json::List(items) && items@.len() == solutions@.len()
            && forall|i: int| 0 <= i < items@.len()
                ==> object_rows(#[trigger] items@[i]) == Some(solution_rows(solutions@[i]@))),
{
    if solutions.len() == 1 {
        return solution_to_json(&solutions[0]);
    }
    let mut items: Vec<Json> = Vec::new();
    let mut i: usize = 0;
    while i < solutions.len()
        invariant
            i <= solutions@.len(),
            forall|k: int| 0 <= k < solutions@.len() ==> solution_ok(#[trigger] solutions@[k]@),
            items@.len() == i,
            forall|k: int| 0 <= k < i ==> object_rows(#[trigger] items@[k]) == Some(solution_rows(solutions@[k]@)),
        decreases solutions.len() - i,
    {
        items.push(solution_to_json(&solutions[i]));
        i = i + 1;
    }
    Json::List(items)
}

} // verus!
