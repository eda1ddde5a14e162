use gnos::json::Json;
use gnos::solutions::{solution_to_json, solutions_to_json, Cell, Solution};

fn s(x: &str) -> String {
    String::from(x)
}

fn pairs(j: &Json) -> Vec<Vec<(String, String)>> {
    match j {
        Json::List(items) => items
            .iter()
            .map(|item| match item {
                Json::Object(fields) => fields
                    .iter()
                    .map(|(k, v)| match v {
                        Json::String(t) => (k.clone(), t.clone()),
                        other => panic!("not a string: {:?}", other),
                    })
                    .collect(),
                other => panic!("not an object: {:?}", other),
            })
            .collect(),
        other => panic!("not a list: {:?}", other),
    }
}

fn ttl() -> Solution {
    Solution {
        bindings: vec![s("name"), s("ttl"), s("subject")],
        num_selected: 2,
        rows: vec![
            vec![Cell::Iri(s("http://x/a")), Cell::Str(s("50")), Cell::Blank(s("_:b1"))],
            vec![Cell::Str(s("b")), Cell::Unbound, Cell::Other(s("3"))],
        ],
    }
}

#[test]
fn one_solution_is_the_list_of_its_rows() {
    let expected = vec![
        vec![(s("name"), s("http://x/a")), (s("ttl"), s("50"))],
        vec![(s("name"), s("b"))],
    ];
    assert_eq!(pairs(&solution_to_json(&ttl())), expected);
    assert_eq!(pairs(&solutions_to_json(&vec![ttl()])), expected);
}

#[test]
fn several_solutions_are_a_list_of_lists() {
    let empty = Solution { bindings: vec![s("x")], num_selected: 1, rows: vec![] };
    match solutions_to_json(&vec![ttl(), empty]) {
        Json::List(items) => {
            assert_eq!(items.len(), 2);
            assert_eq!(pairs(&items[0]).len(), 2);
            assert!(pairs(&items[1]).is_empty());
        },
        other => panic!("not a list: {:?}", other),
    }
    assert!(matches!(solutions_to_json(&vec![]), Json::List(items) if items.is_empty()));
}
