use gnos::utils::{command_error, extension_listed, i64_to_unit_str, remote_command_args, scp_args, title_case};

#[test]
fn test_title_case() {
    assert_eq!(title_case(String::from("123")), String::from("123"));
    assert_eq!(title_case(String::from("Hmm")), String::from("Hmm"));
    assert_eq!(title_case(String::from("hmm")), String::from("Hmm"));
}

#[test]
fn title_case_edges() {
    assert_eq!(title_case(String::new()), String::new());
    assert_eq!(title_case(String::from("a")), String::from("A"));
    assert_eq!(title_case(String::from("zebra crossing")), String::from("Zebra crossing"));
}

#[test]
fn scp_args_append_the_destination() {
    let args = scp_args(vec![String::from("a.py"), String::from("b.py")], "jones", "10.0.0.1").unwrap();
    assert_eq!(args, vec![String::from("a.py"), String::from("b.py"), String::from("jones@10.0.0.1:")]);
}

#[test]
fn scp_args_without_files_is_an_error() {
    assert_eq!(scp_args(vec![], "jones", "10.0.0.1"), Err(String::from("No files were found to copy")));
}

#[test]
fn remote_command_args_log_in_then_run() {
    assert_eq!(
        remote_command_args("jones", "host", "python modeler.py"),
        vec![String::from("jones@host"), String::from("python modeler.py")]
    );
}

#[test]
fn command_error_messages() {
    assert_eq!(command_error(0, "ignored"), None);
    assert_eq!(command_error(2, ""), Some(String::from("result code was 2")));
    assert_eq!(command_error(-1, "boom"), Some(String::from("result code was -1 (boom)")));
    assert_eq!(command_error(127, "not found"), Some(String::from("result code was 127 (not found)")));
}

#[test]
fn extension_listed_compares_with_the_dot() {
    let exts = vec![String::from(".py"), String::from(".sh")];
    assert!(extension_listed(Some("py"), &exts));
    assert!(extension_listed(Some("sh"), &exts));
    assert!(!extension_listed(Some("rb"), &exts));
    assert!(!extension_listed(Some(".py"), &exts));
    assert!(!extension_listed(None, &exts));
}

#[test]
fn counts_written_briefly() {
    assert_eq!(i64_to_unit_str(234), "234");
    assert_eq!(i64_to_unit_str(-5), "-5");
    assert_eq!(i64_to_unit_str(10 * 1024 - 1), "10239");
    assert_eq!(i64_to_unit_str(200 * 1024), "200K");
    assert_eq!(i64_to_unit_str(1024 * 1024 - 1), "1023K");
    assert_eq!(i64_to_unit_str(1024 * 1024), "1.0M");
    assert_eq!(i64_to_unit_str(3355443), "3.2M");
    // 1.25M is a tie and rounds to even, as formatting 1.25 to a tenth does
    assert_eq!(i64_to_unit_str(1310720), "1.2M");
    assert_eq!(format!("{:.1}", 1310720f64 / (1024.0 * 1024.0)), "1.2");
}

#[test]
fn listed_paths_keep_listed_extensions_in_order() {
    let entries = vec![
        (String::from("scripts/b.py"), Some(String::from("py"))),
        (String::from("scripts/README"), None),
        (String::from("scripts/a.R"), Some(String::from("R"))),
        (String::from("scripts/c.txt"), Some(String::from("txt"))),
        (String::from("scripts/d.py"), Some(String::from("py"))),
    ];
    let extensions = vec![String::from(".py"), String::from(".R")];
    assert_eq!(
        gnos::utils::listed_paths(&entries, &extensions),
        vec![String::from("scripts/b.py"), String::from("scripts/a.R"), String::from("scripts/d.py")]
    );
    assert!(gnos::utils::listed_paths(&entries, &vec![]).is_empty());
}

fn at(yday: u16, hour: u8, min: u8) -> gnos::utils::CalendarTime {
    gnos::utils::CalendarTime { yday, year: 1970, wday: 4, mon: 0, mday: yday as u8 + 1, hour, min, sec: 5 }
}

#[test]
fn deltas_between_times() {
    let now = at(3, 12, 0);
    let t = 3 * 86_400_000 + 12 * 3_600_000;
    assert_eq!(gnos::utils::tm_to_delta_str(&now, &now, t, t), "now");
    assert_eq!(gnos::utils::tm_to_delta_str(&at(3, 11, 59), &now, t - 42_400, t), "42 seconds ago");
    assert_eq!(gnos::utils::tm_to_delta_str(&at(3, 11, 59), &now, t - 60_000, t), "1 minute ago");
    assert_eq!(gnos::utils::tm_to_delta_str(&at(3, 15, 0), &now, t + 3 * 3_600_000 + 1_000, t), "3 hours from now");
    assert_eq!(gnos::utils::tm_to_delta_str(&at(2, 18, 6), &now, t - 18 * 3_600_000, t), "Yesterday 18:06");
    assert_eq!(gnos::utils::tm_to_delta_str(&at(4, 9, 30), &now, t + 22 * 3_600_000, t), "Tomorrow 09:30");
    assert_eq!(gnos::utils::tm_to_delta_str(&at(0, 0, 0), &now, 5_000, t), "Thu Jan  1 00:00:05 1970");
}

#[test]
fn same_day_of_another_year_is_written_in_full() {
    let epoch = gnos::utils::CalendarTime { yday: 0, year: 1970, wday: 4, mon: 0, mday: 1, hour: 0, min: 0, sec: 0 };
    let now = gnos::utils::CalendarTime { yday: 0, year: 2024, wday: 1, mon: 0, mday: 1, hour: 10, min: 0, sec: 0 };
    assert_eq!(gnos::utils::tm_to_delta_str(&epoch, &now, 0, 1_704_103_200_000), "Thu Jan  1 00:00:00 1970");
    let jan2 = gnos::utils::CalendarTime { yday: 1, year: 1970, wday: 5, mon: 0, mday: 2, hour: 8, min: 0, sec: 0 };
    assert_eq!(gnos::utils::tm_to_delta_str(&jan2, &now, 115_200_000, 1_704_103_200_000), "Fri Jan  2 08:00:00 1970");
}
