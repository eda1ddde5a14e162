use gnos::json::{Json, JsonNumber};
use gnos::options::{
    bind_settings, file_name, parse_command_line, server_options, CommandLine, endpoint_addr, endpoint_to_ip, endpoint_to_port, get_network_device, get_network_devices, get_network_str,
    get_version, interface_ip, is_ip_address, parse_u16, wants_help, BindAddress, NetworkError,
};

fn s(x: &str) -> String {
    String::from(x)
}

fn text(x: &str) -> Json {
    Json::String(s(x))
}

#[test]
fn version() {
    assert_eq!(get_version(), "0.1");
}

#[test]
fn endpoints() {
    assert_eq!(endpoint_addr("127.0.0.1:8080"), "127.0.0.1");
    assert_eq!(endpoint_addr("eth0"), "eth0");
    assert_eq!(endpoint_to_ip("10.0.0.2:80"), BindAddress::Ip(s("10.0.0.2")));
    assert_eq!(endpoint_to_ip("eth1.100"), BindAddress::Interface(s("eth1.100")));
    assert!(is_ip_address("192.168.1.1"));
    assert!(!is_ip_address("en0"));
}

#[test]
fn ports() {
    assert_eq!(endpoint_to_port("127.0.0.1:9000"), Ok(9000));
    assert_eq!(endpoint_to_port("127.0.0.1"), Ok(8080));
    assert_eq!(endpoint_to_port("127.0.0.1:65535"), Ok(65535));
    assert_eq!(endpoint_to_port("127.0.0.1:65536"), Err(s("'65536' is not a valid port.")));
    assert_eq!(endpoint_to_port("127.0.0.1:http"), Err(s("'http' is not a valid port.")));
    assert_eq!(endpoint_to_port("127.0.0.1:"), Err(s("'' is not a valid port.")));
}

#[test]
fn parse_u16_values() {
    assert_eq!(parse_u16("0"), Some(0));
    assert_eq!(parse_u16("80"), Some(80));
    assert_eq!(parse_u16("65535"), Some(65535));
    assert_eq!(parse_u16("65536"), None);
    assert_eq!(parse_u16("-1"), None);
    assert_eq!(parse_u16(""), None);
    assert_eq!(parse_u16("12a"), None);
}

#[test]
fn ifconfig_output() {
    let linux = "eth1.100  Link encap:Ethernet  HWaddr 00:10:18:49:e4:6d\n    inet addr:172.16.0.2  Bcast:172.16.0.255  Mask:255.255.255.0\n";
    assert_eq!(interface_ip(linux), Some(s("172.16.0.2")));
    let bsd = "utun0: flags=80d1<UP,POINTOPOINT,RUNNING,NOARP,MULTICAST> mtu 1399\n\tinet 10.6.210.108 --> 10.6.210.108 netmask 0xffff8000 \n";
    assert_eq!(interface_ip(bsd), Some(s("10.6.210.108")));
    assert_eq!(interface_ip("lo: flags=73<UP,LOOPBACK,RUNNING>"), None);
}

#[test]
fn help_flags() {
    assert!(wants_help(&vec![s("--root=html"), s("-h")]));
    assert!(wants_help(&vec![s("--help")]));
    assert!(!wants_help(&vec![s("--root=html"), s("network.json")]));
}

fn device(ip: &str, modeler: &str) -> Json {
    Json::Object(vec![(s("ip"), text(ip)), (s("modeler"), text(modeler))])
}

#[test]
fn network_settings() {
    let data = vec![
        (s("network"), text("home")),
        (s("poll-rate"), Json::Number(JsonNumber { text: s("20"), truncated: 20 })),
        (s("devices"), Json::Object(vec![(s("router"), device("10.0.0.1", "linux_router.py")), (s("printer"), device("10.0.0.9", "snmp.py"))])),
    ];
    assert_eq!(get_network_str(&data, "network"), Ok(s("home")));
    assert_eq!(get_network_str(&data, "client"), Err(NetworkError::Missing(s("client"))));
    assert_eq!(get_network_str(&data, "poll-rate"), Err(NetworkError::WrongType(s("poll-rate"), s("json::string"))));
    let devices = get_network_devices(&data, "devices").unwrap();
    assert_eq!(devices.len(), 2);
    assert_eq!(devices[0].name, "router");
    assert_eq!(devices[0].managed_ip, "10.0.0.1");
    assert_eq!(devices[0].modeler, "linux_router.py");
    assert_eq!(devices[1].name, "printer");
    assert_eq!(devices[1].managed_ip, "10.0.0.9");
}

#[test]
fn network_errors() {
    let data = vec![(s("devices"), Json::Object(vec![(s("bad"), text("oops")), (s("router"), device("10.0.0.1", "m.py"))]))];
    assert_eq!(get_network_devices(&data, "devices").err(), Some(NetworkError::WrongType(s("bad"), s("json::dict"))));
    assert_eq!(get_network_devices(&data, "missing").err(), Some(NetworkError::Missing(s("missing"))));
    let no_ip = Json::Object(vec![(s("modeler"), text("m.py"))]);
    assert_eq!(get_network_device("x", &no_ip).err(), Some(NetworkError::Missing(s("ip"))));
    let listed = vec![(s("devices"), Json::List(vec![]))];
    assert_eq!(get_network_devices(&listed, "devices").err(), Some(NetworkError::WrongType(s("devices"), s("json::dict"))));
}

fn args(a: &[&str]) -> Vec<String> {
    a.iter().map(|x| s(x)).collect()
}

#[test]
fn command_lines() {
    match parse_command_line(&args(&["gnos", "--root=html", "--bind=10.0.0.2:9000", "--admin", "network.json"])) {
        CommandLine::Run(a) => {
            assert_eq!(a.root, "html");
            assert_eq!(a.bind_address, BindAddress::Ip(s("10.0.0.2")));
            assert_eq!(a.bind_port, Ok(9000));
            assert!(a.admin);
            assert!(!a.db);
            assert_eq!(a.browse, "");
            assert_eq!(a.network_path, "network.json");
            assert_eq!(a.network_file, Some(s("network.json")));
        },
        other => panic!("unexpected {:?}", other),
    }
    match parse_command_line(&args(&["gnos", "--root=html", "nets/home.json"])) {
        CommandLine::Run(a) => {
            assert_eq!(a.bind_address, BindAddress::Ip(s("127.0.0.1")));
            assert_eq!(a.bind_port, Ok(8080));
            assert_eq!(a.network_path, "nets/home.json");
            assert_eq!(a.network_file, Some(s("home.json")));
        },
        other => panic!("unexpected {:?}", other),
    }
    assert!(matches!(parse_command_line(&args(&["gnos", "network.json", "-h"])), CommandLine::Help));
    assert!(matches!(parse_command_line(&args(&["gnos", "--help"])), CommandLine::Help));
    assert!(matches!(parse_command_line(&args(&["gnos", "--root=html", "--version"])), CommandLine::Version));
    assert!(matches!(parse_command_line(&args(&["gnos", "--root=html"])),
        CommandLine::Failed(m) if m == "Expected one positional argument: a network json file."));
    assert!(matches!(parse_command_line(&args(&["gnos", "network.json"])),
        CommandLine::Failed(m) if m == "Required option 'root' missing"));
    assert!(matches!(parse_command_line(&args(&["gnos", "--root=html", "--frob", "n.json"])),
        CommandLine::Failed(m) if m == "Unrecognized option: 'frob'"));
    assert_eq!(server_options().len(), 7);
}

#[test]
fn file_names_of_paths() {
    assert_eq!(file_name("network.json"), Some(s("network.json")));
    assert_eq!(file_name("/etc/gnos/network.json"), Some(s("network.json")));
    assert_eq!(file_name("nets/home/"), Some(s("home")));
    assert_eq!(file_name("/"), None);
    assert_eq!(file_name(""), None);
}

#[test]
fn bind_defaults_and_endpoints() {
    assert_eq!(bind_settings(&None), (BindAddress::Ip(s("127.0.0.1")), Ok(8080)));
    assert_eq!(bind_settings(&Some(s("eth0"))), (BindAddress::Interface(s("eth0")), Ok(8080)));
    assert_eq!(bind_settings(&Some(s("10.0.0.2:80"))), (BindAddress::Ip(s("10.0.0.2")), Ok(80)));
    assert_eq!(bind_settings(&Some(s("10.0.0.2:x"))), (BindAddress::Ip(s("10.0.0.2")), Err(s("'x' is not a valid port."))));
}
