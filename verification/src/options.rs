//! Options derived from the command line and the network json file, and the
//! parsing of the bind endpoint.
use vstd::prelude::*;
use crate::json::{Json, field_from, find_field};
use crate::text::texts_of;
use crate::text::{chars_of, sub_string, find_char_from, find_char_from_exec, find_from,
    find_str_from, lemma_find_char_from, lemma_find_from};

verus! {

/// A managed device listed in the network json file.
#[derive(Clone, Debug)]
pub struct Device {
    pub name: String,
    pub managed_ip: String,
    pub modeler: String,
}

/// Various options derived from the command line and the network.json file.
#[derive(Clone, Debug)]
pub struct Options {
    // these are from the command line
    pub root: String,  // path to the html directory
    pub admin: bool,
    pub network_file: String,
    pub db: bool,
    pub browse: String,
    pub bind_ip: String,
    pub bind_port: u16,
    // these are from the network.json file
    pub network_name: String,
    pub client_ip: String,
    pub poll_rate: u16,
    pub devices: Vec<Device>,
}

/// The version of gnos.
pub fn get_version() -> (r: String)
    ensures
        r@ == "0.1"@,
{
    String::from_str("0.1")
}

pub open spec fn is_digit(c: char) -> bool {
    '0' <= c && c <= '9'
}

/// The address part of an endpoint `IP[:PORT]`: what comes before the first
/// colon, or all of it.
pub open spec fn endpoint_addr_spec(e: Seq<char>) -> Seq<char> {
    match find_char_from(e, ':', 0) {
        Some(i) => e.take(i as int),
        None => e,
    }
}

/// The port part of an endpoint `IP[:PORT]`: what comes after the first colon,
/// or "8080".
pub open spec fn endpoint_port_spec(e: Seq<char>) -> Seq<char> {
    match find_char_from(e, ':', 0) {
        Some(i) => e.skip(i as int + 1),
        None => "8080"@,
    }
}

/// An address written only with digits and dots is taken as an IP address;
/// anything else names a network interface.
pub open spec fn is_ip_literal(a: Seq<char>) -> bool {
    forall|i: int| 0 <= i < a.len() ==> is_digit(#[trigger] a[i]) || a[i] == '.'
}

/// Where the server binds: an IP address, or the network interface whose
/// address is to be looked up.
#[derive(Clone, Debug, PartialEq, Eq)]
pub enum BindAddress {
    Ip(String),
    Interface(String),
}

/// The address part of an endpoint `IP[:PORT]`.
pub fn endpoint_addr(endpoint: &str) -> (r: String)
    ensures
        r@ == endpoint_addr_spec(endpoint@),
{
    let chars = chars_of(endpoint);
    match find_char_from_exec(&chars, ':', 0) {
        Some(i) => {
            proof {
                lemma_find_char_from(chars@, ':', 0);
            }
            let r = sub_string(&chars, 0, i);
            assert(r@ =~= endpoint_addr_spec(endpoint@));
            r
        },
        None => String::from_str(endpoint),
    }
}

/// Whether an address is written only with digits and dots.
pub fn is_ip_address(addr: &str) -> (r: bool)
    ensures
        r == is_ip_literal(addr@),
{
    let chars = chars_of(addr);
    let mut i: usize = 0;
    while i < chars.len()
        invariant
            i <= chars@.len(),
            chars@ == addr@,
            forall|k: int| 0 <= k < i ==> is_digit(#[trigger] chars@[k]) || chars@[k] == '.',
        decreases chars.len() - i,
    {
        let c = chars[i];
        if !(('0' <= c && c <= '9') || c == '.') {
            return false;
        }
        i = i + 1;
    }
    true
}

/// The bind address named by an endpoint `IP[:PORT]`: an IP address, or the
/// name of an interface whose address is then looked up.
pub fn endpoint_to_ip(endpoint: &str) -> (r: BindAddress)
    ensures
        match r {
            BindAddress::Ip(a) => is_ip_literal(endpoint_addr_spec(endpoint@)) && a@ == endpoint_addr_spec(endpoint@),
            BindAddress::Interface(n) => !is_ip_literal(endpoint_addr_spec(endpoint@)) && n@ == endpoint_addr_spec(endpoint@),
        },
{
    let addr = endpoint_addr(endpoint);
    if is_ip_address(addr.as_str()) {
        BindAddress::Ip(addr)
    } else {
        BindAddress::Interface(addr)
    }
}

/// The value of a sequence of decimal digits.
pub open spec fn digits_value(d: Seq<char>) -> nat
    decreases d.len(),
{
    if d.len() == 0 {
        0
    } else {
        digits_value(d.drop_last()) * 10 + ((d.last() as u32) - ('0' as u32)) as nat
    }
}

pub open spec fn all_digits(d: Seq<char>) -> bool {
    forall|i: int| 0 <= i < d.len() ==> is_digit(#[trigger] d[i])
}

/// The u16 a text denotes: an optional `+` and one or more decimal digits
/// whose value fits in a u16 (what `str::parse::<u16>` accepts).
pub open spec fn u16_text(s: Seq<char>) -> Option<u16> {
    let d = if s.len() > 0 && s[0] == '+' { s.skip(1) } else { s };
    if d.len() > 0 && all_digits(d) && digits_value(d) <= 65535 {
        Some(digits_value(d) as u16)
    } else {
        None
    }
}

proof fn lemma_digits_value_grows(d: Seq<char>, i: int)
    requires
        all_digits(d),
        0 <= i <= d.len(),
    ensures
        digits_value(d.take(i)) <= digits_value(d),
    decreases d.len() - i,
{
    if i < d.len() {
        lemma_digits_value_grows(d, i + 1);
        assert(d.take(i + 1).drop_last() =~= d.take(i));
    } else {
        assert(d.take(i) =~= d);
    }
}

/// Parses a u16 written in decimal, optionally preceded by `+`.
pub fn parse_u16(s: &str) -> (r: Option<u16>)
    ensures
        r == u16_text(s@),
{
    let chars = chars_of(s);
    let start: usize = if chars.len() > 0 && chars[0] == '+' { 1 } else { 0 };
    let ghost d = if s@.len() > 0 && s@[0] == '+' { s@.skip(1) } else { s@ };
    if start >= chars.len() {
        assert(d.len() == 0);
        return None;
    }
    let mut value: u32 = 0;
    let mut i: usize = start;
    while i < chars.len()
        invariant
            start <= i <= chars@.len(),
            chars@ == s@,
            d == chars@.skip(start as int),
            d == (if s@.len() > 0 && s@[0] == '+' { s@.skip(1) } else { s@ }),
            d.len() > 0,
            all_digits(d.take(i - start)),
            value == digits_value(d.take(i - start)),
            value <= 65535,
        decreases chars.len() - i,
    {
        let c = chars[i];
        proof {
            assert(d.take(i - start + 1).drop_last() =~= d.take(i - start));
            assert(d.take(i - start + 1).last() == c);
        }
        if !('0' <= c && c <= '9') {
            proof {
                assert(!is_digit(d[i - start]));
            }
            return None;
        }
        let digit: u32 = c as u32 - '0' as u32;
        let next: u32 = value * 10 + digit;
        if next > 65535 {
            proof {
                let k = i - start + 1;
                assert forall|j: int| 0 <= j < k implies is_digit(#[trigger] d.take(k)[j]) by {
                    if j < k - 1 {
                        assert(d.take(k)[j] == d.take(k - 1)[j]);
                    }
                }
                if all_digits(d) {
                    lemma_digits_value_grows(d, k);
                }
            }
            return None;
        }
        value = next;
        i = i + 1;
        proof {
            let k = i - start;
            assert forall|j: int| 0 <= j < k implies is_digit(#[trigger] d.take(k)[j]) by {
                if j < k - 1 {
                    assert(d.take(k)[j] == d.take(k - 1)[j]);
                }
            }
        }
    }
    assert(d.take(i - start) =~= d);
    Some(value as u16)
}

/// The port of an endpoint `IP[:PORT]` (8080 when none is given); an error
/// when it is not a valid port.
pub fn endpoint_to_port(endpoint: &str) -> (r: Result<u16, String>)
    ensures
        u16_text(endpoint_port_spec(endpoint@)) matches Some(p) ==> r == Ok::<u16, String>(p),
        u16_text(endpoint_port_spec(endpoint@)) is None ==> (r matches Err(m)
            && m@ == "'"@ + endpoint_port_spec(endpoint@) + "' is not a valid port."@),
{
    let chars = chars_of(endpoint);
    let port = match find_char_from_exec(&chars, ':', 0) {
        Some(i) => {
            proof {
                lemma_find_char_from(chars@, ':', 0);
            }
            let p = sub_string(&chars, i + 1, chars.len());
            assert(p@ =~= endpoint_port_spec(endpoint@));
            p
        },
        None => String::from_str("8080"),
    };
    match parse_u16(port.as_str()) {
        Some(p) => Ok(p),
        None => {
            let mut m = String::from_str("'");
            m.append(port.as_str());
            m.append("' is not a valid port.");
            Err(m)
        },
    }
}

/// `p` without the slashes that end it.
pub open spec fn trim_end_slashes(p: Seq<char>) -> Seq<char>
    decreases p.len(),
{
    if p.len() > 0 && p.last() == '/' {
        trim_end_slashes(p.drop_last())
    } else {
        p
    }
}

/// What follows the last slash of `p` (all of it when it has none).
pub open spec fn last_component(p: Seq<char>) -> Seq<char>
    decreases p.len(),
{
    if p.len() == 0 || p.last() == '/' {
        Seq::empty()
    } else {
        last_component(p.drop_last()).push(p.last())
    }
}

/// The file name of a path: its last component, slashes at its end aside;
/// none when it has no component.
pub open spec fn file_name_spec(p: Seq<char>) -> Option<Seq<char>> {
    let q = trim_end_slashes(p);
    if q.len() == 0 {
        None
    } else {
        Some(last_component(q))
    }
}

/// The file name of a path (see `file_name_spec`).
pub fn file_name(path: &str) -> (r: Option<String>)
    ensures
        opt_text(r) == file_name_spec(path@),
{
    let chars = chars_of(path);
    let mut end: usize = chars.len();
    proof {
        assert(chars@.take(end as int) =~= chars@);
    }
    while end > 0 && chars[end - 1] == '/'
        invariant
            end <= chars@.len(),
            chars@ == path@,
            trim_end_slashes(chars@) == trim_end_slashes(chars@.take(end as int)),
        decreases end,
    {
        proof {
            assert(chars@.take(end as int).drop_last() =~= chars@.take(end - 1));
        }
        end = end - 1;
    }
    if end == 0 {
        assert(chars@.take(0) =~= Seq::<char>::empty());
        return None;
    }
    let mut start: usize = end;
    proof {
        assert(chars@.subrange(end as int, end as int) =~= Seq::<char>::empty());
        assert(last_component(chars@.take(end as int)) =~= last_component(chars@.take(end as int)) + Seq::<char>::empty());
    }
    while start > 0 && chars[start - 1] != '/'
        invariant
            start <= end <= chars@.len(),
            last_component(chars@.take(end as int))
                == last_component(chars@.take(start as int)) + chars@.subrange(start as int, end as int),
        decreases start,
    {
        proof {
            let t = chars@.take(start as int);
            assert(t.drop_last() =~= chars@.take(start - 1));
            assert(last_component(t) == last_component(chars@.take(start - 1)).push(chars@[start - 1]));
            assert(last_component(chars@.take(start - 1)).push(chars@[start - 1]) + chars@.subrange(start as int, end as int)
                =~= last_component(chars@.take(start - 1)) + chars@.subrange(start - 1, end as int));
        }
        start = start - 1;
    }
    let r = sub_string(&chars, start, end);
    proof {
        assert(last_component(chars@.take(start as int)) =~= Seq::<char>::empty());
        assert(last_component(chars@.take(end as int)) =~= chars@.subrange(start as int, end as int));
        assert(trim_end_slashes(chars@.take(end as int)) == chars@.take(end as int));
    }
    Some(r)
}

/// Where the server binds when `bind` (an endpoint `IP[:PORT]`) is given or
/// not: whether it is an IP address (else an interface to look up) and the
/// address or interface name.
pub open spec fn bind_address_spec(bind: Option<Seq<char>>) -> (bool, Seq<char>) {
    match bind {
        None => (true, "127.0.0.1"@),
        Some(e) => (is_ip_literal(endpoint_addr_spec(e)), endpoint_addr_spec(e)),
    }
}

/// The port the server binds to when `bind` is given or not; the error
/// when the port given is not one.
pub open spec fn bind_port_spec(bind: Option<Seq<char>>) -> Result<u16, Seq<char>> {
    match bind {
        None => Ok(8080),
        Some(e) => match u16_text(endpoint_port_spec(e)) {
            Some(p) => Ok(p),
            None => Err("'"@ + endpoint_port_spec(e) + "' is not a valid port."@),
        },
    }
}

pub open spec fn bind_address_view(a: BindAddress) -> (bool, Seq<char>) {
    match a {
        BindAddress::Ip(s) => (true, s@),
        BindAddress::Interface(s) => (false, s@),
    }
}

pub open spec fn port_view(r: Result<u16, String>) -> Result<u16, Seq<char>> {
    match r {
        Ok(p) => Ok(p),
        Err(m) => Err(m@),
    }
}

/// Where the server binds (127.0.0.1:8080 unless `bind` is given), and its
/// port or the error of a port given that is not one.
pub fn bind_settings(bind: &Option<String>) -> (r: (BindAddress, Result<u16, String>))
    ensures
        bind_address_view(r.0) == bind_address_spec(opt_text(*bind)),
        port_view(r.1) == bind_port_spec(opt_text(*bind)),
{
    match bind {
        None => (BindAddress::Ip(String::from_str("127.0.0.1")), Ok(8080)),
        Some(e) => (endpoint_to_ip(e.as_str()), endpoint_to_port(e.as_str())),
    }
}

/// The address that follows `prefix` in the output of ifconfig, up to the
/// next space.
pub open spec fn address_after(out: Seq<char>, prefix: Seq<char>) -> Option<Seq<char>> {
    match find_from(out, prefix, 0) {
        Some(i) => match find_char_from(out, ' ', i + prefix.len()) {
            Some(k) => Some(out.subrange(i as int + prefix.len(), k as int)),
            None => None,
        },
        None => None,
    }
}

/// The IP address of an interface as printed by ifconfig: after
/// "inet addr:" (Linux) or else after "inet " (BSD), up to the next space.
pub open spec fn interface_ip_spec(out: Seq<char>) -> Option<Seq<char>> {
    if find_from(out, "inet addr:"@, 0) is Some {
        address_after(out, "inet addr:"@)
    } else {
        address_after(out, "inet "@)
    }
}

fn address_after_exec(out: &Vec<char>, prefix: &Vec<char>) -> (r: Option<String>)
    ensures
        match r {
            Some(a) => address_after(out@, prefix@) == Some(a@),
            None => address_after(out@, prefix@) is None,
        },
{
    let n = out.len();
    match find_str_from(out, prefix, 0) {
        Some(i) => {
            proof {
                lemma_find_from(out@, prefix@, 0);
            }
            match find_char_from_exec(out, ' ', i + prefix.len()) {
                Some(k) => {
                    proof {
                        lemma_find_char_from(out@, ' ', (i + prefix@.len()) as nat);
                    }
                    Some(sub_string(out, i + prefix.len(), k))
                },
                None => None,
            }
        },
        None => None,
    }
}

/// The IP address of an interface read from the output of ifconfig.
pub fn interface_ip(out: &str) -> (r: Option<String>)
    ensures
        match r {
            Some(a) => interface_ip_spec(out@) == Some(a@),
            None => interface_ip_spec(out@) is None,
        },
{
    let chars = chars_of(out);
    let p1 = chars_of("inet addr:");
    let p2 = chars_of("inet ");
    if find_str_from(&chars, &p1, 0).is_some() {
        address_after_exec(&chars, &p1)
    } else {
        address_after_exec(&chars, &p2)
    }
}

/// Whether the command line asks for help (`-h` or `--help`).
pub fn wants_help(args: &Vec<String>) -> (r: bool)
    ensures
        r == exists|i: int| 0 <= i < args@.len() && (args@[i]@ == "-h"@ || args@[i]@ == "--help"@),
{
    let h = String::from_str("-h");
    let help = String::from_str("--help");
    let mut i: usize = 0;
    while i < args.len()
        invariant
            i <= args@.len(),
            h@ == "-h"@,
            help@ == "--help"@,
            forall|k: int| 0 <= k < i ==> !(args@[k]@ == "-h"@ || args@[k]@ == "--help"@),
        decreases args.len() - i,
    {
        let a = args[i] == h;
        let b = args[i] == help;
        if a || b {
            return true;
        }
        i = i + 1;
    }
    false
}


// ---- The network file ------------------------------------------------------------------
/// Why a setting of the network file could not be read.
#[derive(Debug, PartialEq, Eq)]
pub enum NetworkError {
    /// The key is missing.
    Missing(String),
    /// The value of the key (or the device of this name) is not of the
    /// expected JSON type ("json::string" or "json::dict").
    WrongType(String, String),
}

pub ghost enum NetworkErrorModel {
    Missing(Seq<char>),
    WrongType(Seq<char>, Seq<char>),
}

impl View for NetworkError {
    type V = NetworkErrorModel;

    open spec fn view(&self) -> NetworkErrorModel {
        match self {
            NetworkError::Missing(k) => NetworkErrorModel::Missing(k@),
            NetworkError::WrongType(k, t) => NetworkErrorModel::WrongType(k@, t@),
        }
    }
}

/// The string setting `key`, or why there is none.
pub open spec fn network_str_spec(data: Seq<(String, Json)>, key: Seq<char>) -> Result<Seq<char>, NetworkErrorModel> {
    match field_from(data, key, 0) {
        Some(Json::String(s)) => Ok(s@),
        Some(_) => Err(NetworkErrorModel::WrongType(key, "json::string"@)),
        None => Err(NetworkErrorModel::Missing(key)),
    }
}

/// Reads the string setting `key` (see `network_str_spec`).
pub fn get_network_str(data: &Vec<(String, Json)>, key: &str) -> (r: Result<String, NetworkError>)
    ensures
        match network_str_spec(data@, key@) {
            Ok(s) => r matches Ok(x) && x@ == s,
            Err(e) => r matches Err(x) && x@ == e,
        },
{
    match find_field(data, key) {
        Some(Json::String(s)) => Ok(String::from_str(s.as_str())),
        Some(_) => Err(NetworkError::WrongType(String::from_str(key), String::from_str("json::string"))),
        None => Err(NetworkError::Missing(String::from_str(key))),
    }
}

/// The device named `name` described by `value`: its managed IP and the
/// modeler that polls it.
pub open spec fn network_device_spec(name: Seq<char>, value: Json) -> Result<(Seq<char>, Seq<char>, Seq<char>), NetworkErrorModel> {
    match value {
        Json::Object(fields) => match network_str_spec(fields@, "ip"@) {
            Ok(ip) => match network_str_spec(fields@, "modeler"@) {
                Ok(m) => Ok((name, ip, m)),
                Err(e) => Err(e),
            },
            Err(e) => Err(e),
        },
        _ => Err(NetworkErrorModel::WrongType(name, "json::dict"@)),
    }
}

pub open spec fn device_view(d: Device) -> (Seq<char>, Seq<char>, Seq<char>) {
    (d.name@, d.managed_ip@, d.modeler@)
}

/// Reads the device named `name` (see `network_device_spec`).
pub fn get_network_device(name: &str, value: &Json) -> (r: Result<Device, NetworkError>)
    ensures
        match network_device_spec(name@, *value) {
            Ok(d) => r matches Ok(x) && device_view(x) == d,
            Err(e) => r matches Err(x) && x@ == e,
        },
{
    match value {
        Json::Object(fields) => {
            let managed_ip = get_network_str(fields, "ip")?;
            let modeler = get_network_str(fields, "modeler")?;
            Ok(Device { name: String::from_str(name), managed_ip, modeler })
        },
        _ => Err(NetworkError::WrongType(String::from_str(name), String::from_str("json::dict"))),
    }
}

/// The devices of a table from name to description, in order; the error of
/// the first that cannot be read.
pub open spec fn devices_spec(table: Seq<(String, Json)>) -> Result<Seq<(Seq<char>, Seq<char>, Seq<char>)>, NetworkErrorModel>
    decreases table.len(),
{
    if table.len() == 0 {
        Ok(Seq::empty())
    } else {
        match devices_spec(table.drop_last()) {
            Ok(ds) => match network_device_spec(table.last().0@, table.last().1) {
                Ok(d) => Ok(ds.push(d)),
                Err(e) => Err(e),
            },
            Err(e) => Err(e),
        }
    }
}

/// The devices of the setting `key`, or why they cannot be read.
pub open spec fn network_devices_spec(data: Seq<(String, Json)>, key: Seq<char>) -> Result<Seq<(Seq<char>, Seq<char>, Seq<char>)>, NetworkErrorModel> {
    match field_from(data, key, 0) {
        Some(Json::Object(table)) => devices_spec(table@),
        Some(_) => Err(NetworkErrorModel::WrongType(key, "json::dict"@)),
        None => Err(NetworkErrorModel::Missing(key)),
    }
}

proof fn lemma_devices_stop(table: Seq<(String, Json)>, i: int)
    requires
        0 <= i <= table.len(),
        devices_spec(table.take(i)) is Err,
    ensures
        devices_spec(table) == devices_spec(table.take(i)),
    decreases table.len() - i,
{
    if i < table.len() {
        assert(table.take(i + 1).drop_last() =~= table.take(i));
        lemma_devices_stop(table, i + 1);
    } else {
        assert(table.take(i) =~= table);
    }
}

/// Reads the devices of the setting `key` (see `network_devices_spec`).
#[verifier::spinoff_prover]
#[verifier::rlimit(30)]
pub fn get_network_devices(data: &Vec<(String, Json)>, key: &str) -> (r: Result<Vec<Device>, NetworkError>)
    ensures
        match network_devices_spec(data@, key@) {
            Ok(ds) => r matches Ok(x) && x@.map_values(|d: Device| device_view(d)) == ds,
            Err(e) => r matches Err(x) && x@ == e,
        },
{
    match find_field(data, key) {
        Some(Json::Object(table)) => {
            let mut devices: Vec<Device> = Vec::new();
            let mut i: usize = 0;
            assert(table@.take(0) =~= Seq::<(String, Json)>::empty());
            assert(devices@.map_values(|d: Device| device_view(d)) =~= Seq::<(Seq<char>, Seq<char>, Seq<char>)>::empty());
            while i < table.len()
                invariant
                    i <= table@.len(),
                    field_from(data@, key@, 0) == Some(Json::Object(*table)),
                    devices_spec(table@.take(i as int)) == Ok::<Seq<(Seq<char>, Seq<char>, Seq<char>)>, NetworkErrorModel>(
                        devices@.map_values(|d: Device| device_view(d))),
                decreases table.len() - i,
            {
                proof {
                    assert(table@.take(i + 1).drop_last() =~= table@.take(i as int));
                    assert(table@.take(i + 1).last() == table@[i as int]);
                }
                match get_network_device(table[i].0.as_str(), &table[i].1) {
                    Ok(d) => {
                        let ghost before = devices@.map_values(|d: Device| device_view(d));
                        devices.push(d);
                        proof {
                            assert(devices@.map_values(|d: Device| device_view(d)) =~= before.push(device_view(d)));
                        }
                    },
                    Err(e) => {
                        proof {
                            lemma_devices_stop(table@, i + 1);
                        }
                        return Err(e);
                    },
                }
                i = i + 1;
            }
            assert(table@.take(table@.len() as int) =~= table@);
            Ok(devices)
        },
        Some(_) => Err(NetworkError::WrongType(String::from_str(key), String::from_str("json::dict"))),
        None => Err(NetworkError::Missing(String::from_str(key))),
    }
}


// ---- The command line ---------------------------------------------------------------------
/// A command line as getopts reads it with the server's options: the
/// flags, the values of the options taking one, and the free arguments.
#[derive(Debug)]
pub struct ParsedArgs {
    pub admin: bool,
    pub db: bool,
    pub version: bool,
    pub root: Option<String>,
    pub bind: Option<String>,
    pub browse: Option<String>,
    pub free: Vec<String>,
}

pub ghost struct ParsedArgsModel {
    pub admin: bool,
    pub db: bool,
    pub version: bool,
    pub root: Option<Seq<char>>,
    pub bind: Option<Seq<char>>,
    pub browse: Option<Seq<char>>,
    pub free: Seq<Seq<char>>,
}

pub open spec fn opt_text(o: Option<String>) -> Option<Seq<char>> {
    match o {
        Some(s) => Some(s@),
        None => None,
    }
}

impl View for ParsedArgs {
    type V = ParsedArgsModel;

    open spec fn view(&self) -> ParsedArgsModel {
        ParsedArgsModel {
            admin: self.admin,
            db: self.db,
            version: self.version,
            root: opt_text(self.root),
            bind: opt_text(self.bind),
            browse: opt_text(self.browse),
            free: texts_of(self.free@),
        }
    }
}

/// An option of the command line: its short name ("" for none), its long
/// name, whether it takes a value, and whether it is required.
#[derive(Debug)]
pub struct OptSpec {
    pub short: String,
    pub long: String,
    pub takes_value: bool,
    pub required: bool,
}

pub open spec fn opt_spec_view(s: OptSpec) -> (Seq<char>, Seq<char>, bool, bool) {
    (s.short@, s.long@, s.takes_value, s.required)
}

pub open spec fn opt_specs_view(specs: Seq<OptSpec>) -> Seq<(Seq<char>, Seq<char>, bool, bool)> {
    specs.map_values(|s: OptSpec| opt_spec_view(s))
}

pub open spec fn opt_values_view(v: Seq<(bool, Option<String>)>) -> Seq<(bool, Option<Seq<char>>)> {
    v.map_values(|p: (bool, Option<String>)| (p.0, opt_text(p.1)))
}

/// Whether getopts takes an option with these names and can read it back by
/// its long name: `Options::opt` asserts that the short name is empty or a
/// single byte (an ASCII character) and that the long name is not a single
/// byte, and `Matches::opt_present` / `opt_str` panic on a name that no
/// option has, so the long name must not be empty either.
pub open spec fn opt_names_ok(short: Seq<char>, long: Seq<char>) -> bool {
    &&& (short.len() == 0 || (short.len() == 1 && (short[0] as int) < 128))
    &&& (long.len() >= 2 || (long.len() == 1 && (long[0] as int) >= 128))
}

/// What getopts' `Options::parse` makes of the arguments given the
/// options: for each option (by its long name) whether it is present and
/// its value, and the free arguments; or the text of its failure.
pub uninterp spec fn getopts_parse(
    specs: Seq<(Seq<char>, Seq<char>, bool, bool)>,
    args: Seq<Seq<char>>,
) -> Result<(Seq<(bool, Option<Seq<char>>)>, Seq<Seq<char>>), Seq<char>>;

/// Calls getopts' `Options::parse` on `args` with an `Options` holding the
/// given options, and reads out of its `Matches`, for each option by its
/// long name, `opt_present` and `opt_str`, and the free arguments (or
/// writes out its `Fail`). The contract names the result as a function of
/// the options and the arguments (getopts' rules are not restated) and says
/// that there is one value per option.
#[verifier::external_body]
fn getopts_parse_args(specs: &Vec<OptSpec>, args: &Vec<String>) -> (r: Result<(Vec<(bool, Option<String>)>, Vec<String>), String>)
    requires
        forall|i: int| 0 <= i < specs@.len() ==> opt_names_ok(#[trigger] specs@[i].short@, specs@[i].long@),
    ensures
        match getopts_parse(opt_specs_view(specs@), texts_of(args@)) {
            Ok((v, free)) => r matches Ok(x) && opt_values_view(x.0@) == v && texts_of(x.1@) == free,
            Err(m) => r matches Err(x) && x@ == m,
        },
        r matches Ok(x) ==> x.0@.len() == specs@.len(),
{
    let mut o = getopts::Options::new();
    for s in specs.iter() {
        let has_arg = if s.takes_value { getopts::HasArg::Yes } else { getopts::HasArg::No };
        o.opt(&s.short, &s.long, "", "", has_arg, if s.required { getopts::Occur::Req } else { getopts::Occur::Optional });
    }
    match o.parse(args) {
        Ok(m) => Ok((specs.iter().map(|s| (m.opt_present(&s.long), m.opt_str(&s.long))).collect(), m.free)),
        Err(f) => Err(f.to_string()),
    }
}

fn opt_spec(short: &str, long: &str, takes_value: bool, required: bool) -> (r: OptSpec)
    ensures
        opt_spec_view(r) == (short@, long@, takes_value, required),
{
    OptSpec { short: String::from_str(short), long: String::from_str(long), takes_value, required }
}

/// The server's options: --admin, --db, --root=DIR (required), -h/--help,
/// --bind=IP[:PORT], --browse=URL and --version.
pub open spec fn server_options_spec() -> Seq<(Seq<char>, Seq<char>, bool, bool)> {
    seq![
        (""@, "admin"@, false, false),
        (""@, "db"@, false, false),
        (""@, "root"@, true, true),
        ("h"@, "help"@, false, false),
        (""@, "bind"@, true, false),
        (""@, "browse"@, true, false),
        (""@, "version"@, false, false),
    ]
}

/// The server's options (see `server_options_spec`).
pub fn server_options() -> (r: Vec<OptSpec>)
    ensures
        opt_specs_view(r@) == server_options_spec(),
        forall|i: int| 0 <= i < r@.len() ==> opt_names_ok(#[trigger] r@[i].short@, r@[i].long@),
{
    proof {
        reveal_strlit("");
        reveal_strlit("admin");
        reveal_strlit("db");
        reveal_strlit("root");
        reveal_strlit("h");
        reveal_strlit("help");
        reveal_strlit("bind");
        reveal_strlit("browse");
        reveal_strlit("version");
    }
    let r = vec![
        opt_spec("", "admin", false, false),
        opt_spec("", "db", false, false),
        opt_spec("", "root", true, true),
        opt_spec("h", "help", false, false),
        opt_spec("", "bind", true, false),
        opt_spec("", "browse", true, false),
        opt_spec("", "version", false, false),
    ];
    assert(opt_specs_view(r@) =~= server_options_spec());
    r
}

/// A command line read with the server's options: its flags, the values
/// of the options taking one, and the free arguments.
pub open spec fn parsed_args_of(v: Seq<(bool, Option<Seq<char>>)>, free: Seq<Seq<char>>) -> ParsedArgsModel {
    ParsedArgsModel {
        admin: v[0].0,
        db: v[1].0,
        version: v[6].0,
        root: v[2].1,
        bind: v[4].1,
        browse: v[5].1,
        free,
    }
}

fn value_at(v: &Vec<(bool, Option<String>)>, i: usize) -> (r: Option<String>)
    requires
        i < v@.len(),
    ensures
        opt_text(r) == opt_values_view(v@)[i as int].1,
{
    match &v[i].1 {
        Some(s) => Some(String::from_str(s.as_str())),
        None => None,
    }
}

/// The arguments the server runs with.
#[derive(Debug)]
pub struct Arguments {
    pub root: String,
    pub admin: bool,
    pub db: bool,
    pub browse: String,
    pub bind_address: BindAddress,
    pub bind_port: Result<u16, String>,
    pub network_path: String,
    pub network_file: Option<String>,
}

/// What the command line asks for: the usage, the version, the server run
/// with its arguments; or why it cannot be read.
#[derive(Debug)]
pub enum CommandLine {
    Help,
    Version,
    Failed(String),
    Run(Arguments),
}

pub ghost enum CommandLineModel {
    Help,
    Version,
    Failed(Seq<char>),
    Run {
        root: Seq<char>,
        admin: bool,
        db: bool,
        browse: Seq<char>,
        bind_address: (bool, Seq<char>),
        bind_port: Result<u16, Seq<char>>,
        network_path: Seq<char>,
        network_file: Option<Seq<char>>,
    },
}

impl View for CommandLine {
    type V = CommandLineModel;

    open spec fn view(&self) -> CommandLineModel {
        match self {
            CommandLine::Help => CommandLineModel::Help,
            CommandLine::Version => CommandLineModel::Version,
            CommandLine::Failed(m) => CommandLineModel::Failed(m@),
            CommandLine::Run(a) => CommandLineModel::Run {
                root: a.root@,
                admin: a.admin,
                db: a.db,
                browse: a.browse@,
                bind_address: bind_address_view(a.bind_address),
                bind_port: port_view(a.bind_port),
                network_path: a.network_path@,
                network_file: opt_text(a.network_file),
            },
        }
    }
}

/// What a parsed command line asks for: the version if asked; an error
/// unless there is exactly one free argument (the path of the network
/// file); else the server's arguments: options not given are empty, the
/// bind endpoint defaults to 127.0.0.1:8080, and the network file is named
/// by the file name of its path.
pub open spec fn command_line_spec(p: ParsedArgsModel) -> CommandLineModel {
    if p.version {
        CommandLineModel::Version
    } else if p.free.len() != 1 {
        CommandLineModel::Failed("Expected one positional argument: a network json file."@)
    } else {
        CommandLineModel::Run {
            root: match p.root { Some(r) => r, None => Seq::empty() },
            admin: p.admin,
            db: p.db,
            browse: match p.browse { Some(b) => b, None => Seq::empty() },
            bind_address: bind_address_spec(p.bind),
            bind_port: bind_port_spec(p.bind),
            network_path: p.free[0],
            network_file: file_name_spec(p.free[0]),
        }
    }
}

fn text_or_empty(o: Option<String>) -> (r: String)
    ensures
        r@ == match opt_text(o) { Some(s) => s, None => Seq::empty() },
{
    match o {
        Some(s) => s,
        None => String::new(),
    }
}

/// What a parsed command line asks for (see `command_line_spec`).
pub fn command_line_from(p: ParsedArgs) -> (r: CommandLine)
    ensures
        r@ == command_line_spec(p@),
{
    if p.version {
        CommandLine::Version
    } else if p.free.len() != 1 {
        CommandLine::Failed(String::from_str("Expected one positional argument: a network json file."))
    } else {
        let ghost free = p.free@;
        let mut free = p.free;
        let network_path = free.remove(0);
        assert(network_path@ == texts_of(free@.insert(0, network_path))[0]) by {
            assert(free@.insert(0, network_path) =~= p.free@);
        }
        let (bind_address, bind_port) = bind_settings(&p.bind);
        let network_file = file_name(network_path.as_str());
        CommandLine::Run(Arguments {
            root: text_or_empty(p.root),
            admin: p.admin,
            db: p.db,
            browse: text_or_empty(p.browse),
            bind_address,
            bind_port,
            network_path,
            network_file,
        })
    }
}

/// What the command line (with the program's name first) asks for: the
/// usage when it holds -h or --help (looked for before getopts, which fails
/// when the required --root is missing); else what getopts makes of the
/// rest with the server's options (see `command_line_spec`), or its failure.
#[verifier::spinoff_prover]
#[verifier::rlimit(30)]
pub fn parse_command_line(args: &Vec<String>) -> (r: CommandLine)
    requires
        args@.len() >= 1,
    ensures
        (exists|i: int| 0 <= i < args@.len() && (args@[i]@ == "-h"@ || args@[i]@ == "--help"@)) ==> r is Help,
        !(exists|i: int| 0 <= i < args@.len() && (args@[i]@ == "-h"@ || args@[i]@ == "--help"@)) ==> r@ == match getopts_parse(
            server_options_spec(),
            texts_of(args@).skip(1),
        ) {
            Ok((v, free)) => command_line_spec(parsed_args_of(v, free)),
            Err(m) => CommandLineModel::Failed(m),
        },
{
    if wants_help(args) {
        return CommandLine::Help;
    }
    let mut rest: Vec<String> = Vec::new();
    let mut i: usize = 1;
    assert(texts_of(rest@) =~= texts_of(args@).subrange(1, 1));
    while i < args.len()
        invariant
            1 <= i <= args@.len(),
            texts_of(rest@) == texts_of(args@).subrange(1, i as int),
        decreases args.len() - i,
    {
        let ghost before = texts_of(rest@);
        rest.push(String::from_str(args[i].as_str()));
        proof {
            assert(texts_of(rest@) =~= before.push(args@[i as int]@));
            assert(texts_of(args@).subrange(1, i + 1) =~= texts_of(args@).subrange(1, i as int).push(args@[i as int]@));
        }
        i = i + 1;
    }
    assert(texts_of(args@).subrange(1, args@.len() as int) =~= texts_of(args@).skip(1));
    let specs = server_options();
    assert(opt_specs_view(specs@).len() == specs@.len());
    match getopts_parse_args(&specs, &rest) {
        Ok((v, free)) => {
            let p = ParsedArgs {
                admin: v[0].0,
                db: v[1].0,
                version: v[6].0,
                root: value_at(&v, 2),
                bind: value_at(&v, 4),
                browse: value_at(&v, 5),
                free,
            };
            proof {
                assert(opt_values_view(v@)[0].0 == v@[0].0);
                assert(opt_values_view(v@)[1].0 == v@[1].0);
                assert(opt_values_view(v@)[6].0 == v@[6].0);
            }
            command_line_from(p)
        },
        Err(m) => CommandLine::Failed(m),
    }
}

} // verus!
