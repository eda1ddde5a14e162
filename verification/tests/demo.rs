use gnos::demo::{add_alerts, add_got, add_relation, loyalty_updates, Loyalty};
use gnos::json::JsonNumber;
use gnos::statements::{Action, Object, Plan, Subject};

fn s(x: &str) -> String {
    String::from(x)
}

#[test]
fn the_store_holds_the_whole_map() {
    let mut plan = Plan::new();
    let (winterfell, kings_landing) = add_got(&mut plan, 20);
    assert_eq!((winterfell, kings_landing), (7, 9));
    let actions = plan.into_actions();
    // globals, 14 places, 10 infos (2 actions each), relations, 4 details (2 actions each)
    let relation_blanks = 14 + 2 + 2 + 1 + 1;
    assert_eq!(actions.len(), 1 + 14 + 20 + (relation_blanks * 2) + 8);
    assert!(matches!(&actions[0], Action::Add(Subject::Named(n), e) if n == "map:primary/globals" && matches!(e[0].1, Object::Int(20))));
    assert!(matches!(&actions[1], Action::Add(Subject::Named(n), _) if n == "entities:wall"));
    assert!(matches!(&actions[14], Action::Add(Subject::Named(n), _) if n == "entities:oldtown"));
    assert!(matches!(&actions[15], Action::NewBlank(l) if l == "wall-label"));
    // the loyalty gauge of Winterfell is the eighth info
    assert!(matches!(&actions[29], Action::NewBlank(l) if l == "winterfell-gauge"));
    match &actions[30] {
        Action::Add(Subject::Blank(7), e) => {
            assert!(matches!(&e[1].1, Object::Float(x) if x.text == "0.8"));
            assert!(matches!(&e[5].1, Object::Str(t, _) if t == "gauge-bar-color:lime"));
        },
        other => panic!("unexpected {:?}", other),
    }
    let last = actions.len() - 1;
    assert!(matches!(&actions[last], Action::Add(Subject::Blank(_), e) if e.len() == 6));
}

#[test]
fn relation_labels() {
    let mut plan = Plan::new();
    add_relation(&mut plan, "entities:a", "entities:b", "line-type:normal", "", "");
    add_relation(&mut plan, "entities:b", "entities:c", "line-width:3", "king's road", "straight and true");
    let actions = plan.into_actions();
    assert_eq!(actions.len(), 2 + 6);
    match &actions[1] {
        Action::Add(Subject::Blank(0), e) => assert_eq!(e.len(), 3),
        other => panic!("unexpected {:?}", other),
    }
    assert!(matches!(&actions[3], Action::NewBlank(l) if l == "relation-label"));
    match &actions[4] {
        Action::Add(Subject::Blank(2), e) => {
            assert!(matches!(e[0].1, Object::Blank(1)));
            assert!(matches!(&e[1].1, Object::Str(t, _) if t == "king's road"));
            assert!(matches!(e[2].1, Object::Int(1)));
        },
        other => panic!("unexpected {:?}", other),
    }
    match &actions[7] {
        Action::Add(Subject::Blank(1), e) => {
            assert_eq!(e.len(), 5);
            assert!(matches!(e[3].1, Object::BlankName(2)));
            assert_eq!(e[3].0, "gnos:middle_infos");
            assert!(matches!(e[4].1, Object::BlankName(3)));
            assert_eq!(e[4].0, "gnos:left_infos");
        },
        other => panic!("unexpected {:?}", other),
    }
}

#[test]
fn loyalty_gauges_are_replaced() {
    let w = Loyalty { subject: s("_:winterfell-gauge-8"), value: JsonNumber { text: s("0.6"), truncated: 0 }, style: s("gauge-bar-color:lightsalmon"), level: 1 };
    let k = Loyalty { subject: s("_:kings_landing-gauge-10"), value: JsonNumber { text: s("0.8"), truncated: 0 }, style: s("gauge-bar-color:lime"), level: 2 };
    let actions = loyalty_updates(&w, &k);
    assert_eq!(actions.len(), 6);
    assert!(matches!(&actions[0], Action::Replace(Subject::Named(n), p, Object::Float(x)) if n == "_:winterfell-gauge-8" && p == "gnos:gauge" && x.text == "0.6"));
    assert!(matches!(&actions[1], Action::Replace(Subject::Named(n), _, Object::Float(x)) if n == "_:kings_landing-gauge-10" && x.text == "0.8"));
    assert!(matches!(&actions[2], Action::Replace(_, p, Object::Int(1)) if p == "gnos:level"));
    assert!(matches!(&actions[5], Action::Replace(_, p, Object::Str(t, _)) if p == "gnos:style" && t == "gauge-bar-color:lime"));
}

#[test]
fn alert_batches() {
    let (container, entities) = add_alerts();
    assert_eq!(container.len(), 4);
    assert_eq!(entities.len(), 10);
    assert!(matches!(&container[0], Action::OpenAlert(a) if a.id == "m1" && a.level == "error" && a.mesg == "Detonation in 5s"));
    assert!(matches!(&container[3], Action::CloseAlert(t, i) if t == "gnos:container" && i == "m3"));
    assert!(matches!(&entities[9], Action::OpenAlert(a) if a.id == "w1" && a.mesg == "Shouldn't see this."));
}
