use gnos::handlers::get_details::details_label;
use gnos::handlers::get_interfaces::interfaces_title;
use gnos::options::Device;

fn s(x: &str) -> String {
    String::from(x)
}

#[test]
fn details_labels_name_the_device() {
    let devices = vec![
        Device { name: s("router"), managed_ip: s("10.103.0.2"), modeler: s("m.py") },
        Device { name: s("printer"), managed_ip: s("10.103.0.9"), modeler: s("m.py") },
    ];
    assert_eq!(details_label("entities/10.103.0.2", &devices), "router 10.103.0.2");
    assert_eq!(details_label("map/primary/entities/10.103.0.9", &devices), "printer 10.103.0.9");
    assert_eq!(details_label("entities/wall", &devices), "wall");
    assert_eq!(details_label("entities/", &devices), "");
}

#[test]
fn interfaces_page_title() {
    assert_eq!(interfaces_title("10.0.0.1", "in"), "10.0.0.1 In Bandwidth");
    assert_eq!(interfaces_title("10.0.0.1", "Out"), "10.0.0.1 Out Bandwidth");
}
