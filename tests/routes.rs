use netroute::{
    collect_routes, get_max_len, parse_linux_route_output, parse_macos_route_output,
    parse_route_line, report_sections, CommandOutput, IpVersion, Platform, RouteEntry,
    RouteError, RouteTable,
};

const LINUX_OUTPUT: &str = "Kernel IP routing table
Destination     Gateway         Genmask         Flags   Iface
0.0.0.0         192.168.1.1     0.0.0.0         UG      eth0
192.168.1.0     0.0.0.0         255.255.255.0   U       eth0
";

const MAC_OUTPUT: &str = "Routing tables

Internet:
Destination        Gateway            Flags           Netif Expire
default            192.168.1.1        UGScg             en0
127                127.0.0.1          UCS               lo0

Internet6:
Destination                             Gateway                                 Flags           Netif Expire
::/0                                    fe80::1%en0                             UGcg              en0
";

fn linux(text: &str) -> RouteTable {
    parse_linux_route_output(text).unwrap()
}

fn mac(text: &str) -> RouteTable {
    parse_macos_route_output(text).unwrap()
}

fn destinations(routes: &[RouteEntry]) -> Vec<String> {
    routes.iter().map(|r| r.destination.clone()).collect()
}

#[test]
fn linux_scenario_two_rows_and_default_gateway() {
    let table = linux(LINUX_OUTPUT);
    assert_eq!(table.ipv4_routes.len(), 2);
    assert!(table.ipv6_routes.is_empty());
    assert!(table.ipv4_routes.iter().all(|r| r.ip_version == IpVersion::IPv4));
    let gw = table.get_default_gateway(IpVersion::IPv4).unwrap();
    assert_eq!(gw.destination, "0.0.0.0");
    assert_eq!(gw.gateway, "192.168.1.1");
    assert_eq!(gw.interface, "eth0");
    assert!(table.get_default_gateway(IpVersion::IPv6).is_none());
}

#[test]
fn linux_row_columns() {
    let table = linux(LINUX_OUTPUT);
    let r = &table.ipv4_routes[1];
    assert_eq!(r.destination, "192.168.1.0");
    assert_eq!(r.gateway, "0.0.0.0");
    assert_eq!(r.genmask.as_deref(), Some("255.255.255.0"));
    assert_eq!(r.flags, "U");
    assert_eq!(r.interface, "eth0");
    assert_eq!(r.expire, None);
}

#[test]
fn linux_header_is_not_an_entry() {
    let table = linux(LINUX_OUTPUT);
    assert!(table.ipv4_routes.iter().all(|r| r.destination != "Destination"));
}

#[test]
fn linux_rows_before_header_are_ignored() {
    let table = linux("0.0.0.0 10.0.0.1 0.0.0.0 UG eth9\nDestination Gateway Genmask Flags Iface\n");
    assert!(table.ipv4_routes.is_empty());
}

#[test]
fn linux_rows_keep_line_order_and_ignore_middle_columns() {
    let text = "Kernel IP routing table
Destination     Gateway         Genmask         Flags   MSS Window  irtt Iface
10.0.0.0        0.0.0.0         255.0.0.0       U         0 0          0 wlan0
0.0.0.0         10.0.0.1        0.0.0.0         UG        0 0          0 wlan0
172.17.0.0      0.0.0.0         255.255.0.0     U         0 0          0 docker0
";
    let table = linux(text);
    assert_eq!(
        destinations(&table.ipv4_routes),
        vec!["10.0.0.0", "0.0.0.0", "172.17.0.0"]
    );
    assert_eq!(table.ipv4_routes[2].interface, "docker0");
    assert_eq!(table.ipv4_routes[2].flags, "U");
}

#[test]
fn linux_malformed_lines_are_dropped() {
    let text = "Destination Gateway Genmask Flags Iface
0.0.0.0 192.168.1.1 0.0.0.0 UG eth0
garbage line
x y z

192.168.1.0 0.0.0.0 255.255.255.0 U eth0
";
    let table = linux(text);
    assert_eq!(destinations(&table.ipv4_routes), vec!["0.0.0.0", "192.168.1.0"]);
}

#[test]
fn linux_four_columns_use_flags_as_interface() {
    let table = linux("Destination\n1.2.3.0 1.2.3.1 255.255.255.0 U\n");
    assert_eq!(table.ipv4_routes.len(), 1);
    assert_eq!(table.ipv4_routes[0].interface, "U");
}

#[test]
fn linux_tabs_crlf_and_unicode_spaces_separate_columns() {
    let text = "Destination Gateway\r\n0.0.0.0\t10.0.0.1\u{3000}0.0.0.0  UG\u{a0}eth1\r\n";
    let table = linux(text);
    assert_eq!(table.ipv4_routes.len(), 1);
    let r = &table.ipv4_routes[0];
    assert_eq!(r.gateway, "10.0.0.1");
    assert_eq!(r.genmask.as_deref(), Some("0.0.0.0"));
    assert_eq!(r.interface, "eth1");
}

#[test]
fn linux_empty_input_gives_empty_table() {
    let table = linux("");
    assert!(table.ipv4_routes.is_empty());
    assert!(table.ipv6_routes.is_empty());
}

#[test]
fn mac_scenario_one_default_per_family() {
    let table = mac(MAC_OUTPUT);
    assert_eq!(destinations(&table.ipv4_routes), vec!["default", "127"]);
    assert_eq!(destinations(&table.ipv6_routes), vec!["::/0"]);
    assert!(table.ipv4_routes.iter().all(|r| r.ip_version == IpVersion::IPv4));
    assert!(table.ipv6_routes.iter().all(|r| r.ip_version == IpVersion::IPv6));
    let v4 = table.get_default_gateway(IpVersion::IPv4).unwrap();
    assert_eq!(v4.gateway, "192.168.1.1");
    assert_eq!(v4.interface, "en0");
    let v6 = table.get_default_gateway(IpVersion::IPv6).unwrap();
    assert_eq!(v6.destination, "::/0");
    assert_eq!(v6.gateway, "fe80::1%en0");
}

#[test]
fn mac_row_columns_and_expire() {
    let text = "Internet:
Destination Gateway Flags Netif Expire
192.168.1.5 a4:83:e7:1:2:3 UHLWIi en0 1187
192.168.1.7 a4:83:e7:1:2:4 UHLWIi en0 !
";
    let table = mac(text);
    let r = &table.ipv4_routes[0];
    assert_eq!(r.destination, "192.168.1.5");
    assert_eq!(r.gateway, "a4:83:e7:1:2:3");
    assert_eq!(r.flags, "UHLWIi");
    assert_eq!(r.interface, "en0");
    assert_eq!(r.genmask, None);
    assert_eq!(r.expire.as_deref(), Some("1187"));
    assert_eq!(table.ipv4_routes[1].expire, None);
}

#[test]
fn mac_lines_before_section_header_are_excluded() {
    let text = "default 10.0.0.1 UGSc en0
Internet:
default 10.0.0.2 UGSc en1
Destination Gateway Flags Netif Expire
default 10.0.0.3 UGSc en2
";
    let table = mac(text);
    assert_eq!(table.ipv4_routes.len(), 1);
    assert_eq!(table.ipv4_routes[0].gateway, "10.0.0.3");
}

#[test]
fn mac_sections_in_either_order() {
    let text = "Internet6:
Destination Gateway Flags Netif Expire
::1 ::1 UHL lo0
Internet:
Destination Gateway Flags Netif Expire
127.0.0.1 127.0.0.1 UH lo0
";
    let table = mac(text);
    assert_eq!(destinations(&table.ipv6_routes), vec!["::1"]);
    assert_eq!(destinations(&table.ipv4_routes), vec!["127.0.0.1"]);
    assert_eq!(table.ipv6_routes[0].ip_version, IpVersion::IPv6);
    assert_eq!(table.ipv4_routes[0].ip_version, IpVersion::IPv4);
}

#[test]
fn mac_malformed_lines_are_dropped() {
    let text = "Internet:
Destination Gateway Flags Netif Expire
default 10.0.0.1 UGSc en0
short line here
";
    let table = mac(text);
    assert_eq!(destinations(&table.ipv4_routes), vec!["default"]);
}

#[test]
fn parsing_twice_gives_equal_tables() {
    assert_eq!(format!("{:?}", linux(LINUX_OUTPUT)), format!("{:?}", linux(LINUX_OUTPUT)));
    assert_eq!(format!("{:?}", mac(MAC_OUTPUT)), format!("{:?}", mac(MAC_OUTPUT)));
}

fn entry(destination: &str, gateway: &str, version: IpVersion) -> RouteEntry {
    RouteEntry {
        destination: destination.to_string(),
        gateway: gateway.to_string(),
        flags: "UG".to_string(),
        interface: "eth0".to_string(),
        ip_version: version,
        genmask: None,
        expire: None,
    }
}

#[test]
fn default_gateway_is_first_match_per_family() {
    let mut table = RouteTable::new();
    table.add_route(entry("10.0.0.0", "a", IpVersion::IPv4));
    table.add_route(entry("default", "b", IpVersion::IPv4));
    table.add_route(entry("0.0.0.0", "c", IpVersion::IPv4));
    table.add_route(entry("fe80::", "d", IpVersion::IPv6));
    assert_eq!(table.ipv4_routes.len(), 3);
    assert_eq!(table.ipv6_routes.len(), 1);
    assert_eq!(table.get_default_gateway(IpVersion::IPv4).unwrap().gateway, "b");
    assert!(table.get_default_gateway(IpVersion::IPv6).is_none());
    table.add_route(entry("::/0", "e", IpVersion::IPv6));
    assert_eq!(table.get_default_gateway(IpVersion::IPv6).unwrap().gateway, "e");
}

#[test]
fn new_table_is_empty() {
    let table = RouteTable::new();
    assert!(table.ipv4_routes.is_empty());
    assert!(table.ipv6_routes.is_empty());
    assert!(table.get_default_gateway(IpVersion::IPv4).is_none());
}

#[test]
fn get_field_by_name() {
    let mut e = entry("10.0.0.0", "10.0.0.1", IpVersion::IPv4);
    e.genmask = Some("255.0.0.0".to_string());
    assert_eq!(e.get_field("destination").as_deref(), Some("10.0.0.0"));
    assert_eq!(e.get_field("gateway").as_deref(), Some("10.0.0.1"));
    assert_eq!(e.get_field("flags").as_deref(), Some("UG"));
    assert_eq!(e.get_field("interface").as_deref(), Some("eth0"));
    assert_eq!(e.get_field("genmask").as_deref(), Some("255.0.0.0"));
    assert_eq!(e.get_field("expire"), None);
    assert_eq!(e.get_field("metric"), None);
}

#[test]
fn max_len_per_field() {
    let table = mac(MAC_OUTPUT);
    assert_eq!(get_max_len(&table.ipv4_routes, "destination"), 7);
    assert_eq!(get_max_len(&table.ipv4_routes, "gateway"), 11);
    assert_eq!(get_max_len(&table.ipv4_routes, "expire"), 0);
    assert_eq!(get_max_len(&table.ipv6_routes, "gateway"), 11);
    assert_eq!(get_max_len(&table.ipv4_routes, "unknown"), 0);
    assert_eq!(get_max_len(&Vec::new(), "destination"), 0);
}

#[test]
fn report_sections_by_protocol() {
    assert_eq!(report_sections("all"), vec![IpVersion::IPv4, IpVersion::IPv6]);
    assert_eq!(report_sections("ipv4"), vec![IpVersion::IPv4]);
    assert_eq!(report_sections("ipv6"), vec![IpVersion::IPv6]);
    assert!(report_sections("ipx").is_empty());
    assert!(report_sections("").is_empty());
}

#[test]
fn collector_failure_carries_stderr() {
    let out = CommandOutput::Exited {
        success: false,
        stdout: Vec::new(),
        stderr: "netstat: command not found".to_string(),
    };
    match collect_routes(Platform::Linux, out) {
        Err(RouteError::CommandFailed(msg)) => assert_eq!(msg, "netstat: command not found"),
        other => panic!("unexpected {:?}", other),
    }
}

#[test]
fn collector_spawn_failure() {
    let out = CommandOutput::SpawnFailed("not found".to_string());
    match collect_routes(Platform::MacOs, out) {
        Err(RouteError::CommandSpawnFailed(msg)) => assert_eq!(msg, "not found"),
        other => panic!("unexpected {:?}", other),
    }
}

#[test]
fn collector_rejects_invalid_utf8() {
    let out = CommandOutput::Exited { success: true, stdout: vec![0x44, 0xff, 0x0a], stderr: String::new() };
    assert!(matches!(collect_routes(Platform::Linux, out), Err(RouteError::OutputDecodeFailed)));
}

#[test]
fn collector_platforms_without_parser() {
    let out = CommandOutput::Exited { success: true, stdout: Vec::new(), stderr: String::new() };
    assert!(matches!(collect_routes(Platform::Windows, out.clone()), Err(RouteError::NotImplemented)));
    assert!(matches!(collect_routes(Platform::Other, out), Err(RouteError::UnsupportedPlatform)));
}

#[test]
fn collector_parses_decoded_output() {
    let out = CommandOutput::Exited {
        success: true,
        stdout: LINUX_OUTPUT.as_bytes().to_vec(),
        stderr: String::new(),
    };
    let table = collect_routes(Platform::Linux, out).unwrap();
    assert_eq!(destinations(&table.ipv4_routes), vec!["0.0.0.0", "192.168.1.0"]);
    let out = CommandOutput::Exited {
        success: true,
        stdout: MAC_OUTPUT.as_bytes().to_vec(),
        stderr: String::new(),
    };
    let table = collect_routes(Platform::MacOs, out).unwrap();
    assert_eq!(destinations(&table.ipv6_routes), vec!["::/0"]);
}

#[test]
fn single_line_parsing_per_platform() {
    let l = parse_route_line("0.0.0.0 10.0.0.1 0.0.0.0 UG 0 0 0 eth0", IpVersion::IPv4, Platform::Linux).unwrap();
    assert_eq!(l.interface, "eth0");
    assert_eq!(l.genmask.as_deref(), Some("0.0.0.0"));
    let m = parse_route_line("fe80::%lo0 fe80::1%lo0 UcI lo0 Expire", IpVersion::IPv6, Platform::MacOs).unwrap();
    assert_eq!(m.interface, "lo0");
    assert_eq!(m.expire.as_deref(), Some("Expire"));
    assert_eq!(m.ip_version, IpVersion::IPv6);
    assert!(parse_route_line("a b c", IpVersion::IPv4, Platform::Linux).is_none());
    assert!(parse_route_line("a b c d e", IpVersion::IPv4, Platform::Windows).is_none());
}

#[test]
fn linux_line_takes_the_given_family() {
    let e = parse_route_line("::/0 fe80::1 ::/0 UG 0 0 0 eth0", IpVersion::IPv6, Platform::Linux).unwrap();
    assert_eq!(e.ip_version, IpVersion::IPv6);
    assert_eq!(e.destination, "::/0");
    assert_eq!(e.interface, "eth0");
    let e = parse_route_line("0.0.0.0 10.0.0.1 0.0.0.0 UG eth0", IpVersion::IPv4, Platform::Linux).unwrap();
    assert_eq!(e.ip_version, IpVersion::IPv4);
}

#[test]
fn blank_lines_between_rows_are_skipped() {
    let table = linux("Destination Gateway Genmask Flags Iface\n\n10.0.0.0 0.0.0.0 255.0.0.0 U eth0\n\n\n0.0.0.0 10.0.0.1 0.0.0.0 UG eth0\n\n");
    assert_eq!(destinations(&table.ipv4_routes), vec!["10.0.0.0", "0.0.0.0"]);
    let table = mac("Internet6:\nDestination Gateway Flags Netif Expire\n\n::1 ::1 UHL lo0\n\nfe80:: fe80::1 UC en0\n\n");
    assert_eq!(destinations(&table.ipv6_routes), vec!["::1", "fe80::"]);
    assert!(table.ipv4_routes.is_empty());
}
