use gnos::options::Device;
use gnos::startup::{cache_control, distinct_modelers, kill_modeler_command, modeler_command, modeler_exited, update_globals};
use gnos::statements::{Action, Object, Subject};

fn s(x: &str) -> String {
    String::from(x)
}

fn device(name: &str, ip: &str, modeler: &str) -> Device {
    Device { name: s(name), managed_ip: s(ip), modeler: s(modeler) }
}

#[test]
fn modeler_commands() {
    assert_eq!(
        modeler_command("linux_router.py", "10.0.0.2", 8080, "network.json"),
        "python linux_router.py --ip=10.0.0.2 --port=8080 -v network.json"
    );
    assert_eq!(kill_modeler_command("snmp.py"), "pgrep -f snmp.py | xargs --no-run-if-empty kill -9");
}

#[test]
fn each_modeler_runs_once() {
    let devices = vec![
        device("a", "10.0.0.1", "snmp.py"),
        device("b", "10.0.0.2", "linux.py"),
        device("c", "10.0.0.3", "snmp.py"),
    ];
    assert_eq!(distinct_modelers(&devices), vec![s("snmp.py"), s("linux.py")]);
    assert!(distinct_modelers(&vec![]).is_empty());
}

#[test]
fn modeler_exit_alerts() {
    let (lines, alert) = modeler_exited("snmp.py", Some(s("Traceback\nValueError")));
    assert_eq!(lines, vec![s("snmp.py exited with stderr: Traceback"), s("ValueError"), s("")]);
    assert_eq!(alert.target, "gnos:container");
    assert_eq!(alert.id, "snmp.py exited");
    assert_eq!(alert.mesg, "snmp.py exited with stderr: Traceback\nValueError\n");
    assert_eq!(alert.level, "error");
    assert_eq!(alert.resolution, "Restart gnos.");
    let (lines, alert) = modeler_exited("snmp.py", None);
    assert_eq!(lines, vec![s("snmp.py exited with no stderr")]);
    assert_eq!(alert.mesg, "snmp.py exited with no stderr");
}

#[test]
fn globals_list_devices_and_stores() {
    let actions = update_globals(&vec![device("a", "10.0.0.1", "m.py"), device("b", "10.0.0.2", "m.py")]);
    assert_eq!(actions.len(), 3);
    match &actions[0] {
        Action::Add(Subject::Named(n), e) => {
            assert_eq!(n, "gnos:globals");
            assert_eq!(e.len(), 2);
            assert!(matches!(e[0].1, Object::Bool(true)));
        },
        other => panic!("unexpected {:?}", other),
    }
    match &actions[1] {
        Action::Add(_, e) => {
            assert_eq!(e.len(), 2);
            assert_eq!(e[1].0, "gnos:device");
            assert!(matches!(&e[1].1, Object::Str(ip, _) if ip == "10.0.0.2"));
        },
        other => panic!("unexpected {:?}", other),
    }
    match &actions[2] {
        Action::Add(_, e) => {
            assert_eq!(e.len(), 2);
            assert!(matches!(&e[0].1, Object::Str(n, _) if n == "globals"));
            assert!(matches!(&e[1].1, Object::Str(n, _) if n == "primary"));
        },
        other => panic!("unexpected {:?}", other),
    }
}

#[test]
fn generated_files_expire_before_the_next_poll() {
    assert_eq!(cache_control("/generated/10.0.0.1-in.png", 20), Some(s("max-age=19")));
    assert_eq!(cache_control("/index.html", 20), None);
    assert_eq!(cache_control("/generated", 20), None);
}
