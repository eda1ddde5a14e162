use gnos::views::get_subject::{object_to_context, row_class, subject_rows, subject_url, ObjectContext};

fn s(x: &str) -> String {
    String::from(x)
}

#[test]
fn subject_links_and_rows() {
    assert_eq!(subject_url("entities:wall"), "/subject/entities:wall");
    assert_eq!(row_class(0), "even");
    assert_eq!(row_class(3), "odd");
    let rows = subject_rows(&vec![s("gnos:map"), s("entities:wall")]);
    assert_eq!(rows, vec![
        (s("even"), s("/subject/gnos:map"), s("gnos:map")),
        (s("odd"), s("/subject/entities:wall"), s("entities:wall")),
    ]);
}

#[test]
fn objects_naming_subjects_are_links() {
    assert_eq!(object_to_context(true, "entities:wall"), ObjectContext::Link(s("/subject/entities:wall"), s("entities:wall")));
    assert_eq!(object_to_context(false, "\"The Wall\""), ObjectContext::Normal(s("\"The Wall\"")));
}
