use migratory::json::Json;
use migratory::port::{
    hyperv_json_entries, hyperv_ports_from, parse_docker_ports, parse_hyperv_ports,
    parse_qemu_ports, parse_vboxmanage_ports, parse_vmware_nat_conf, ForwardedPortEntry,
};

fn binding(protocol: Option<&str>, external: Json, internal: Json) -> Json {
    let mut fields = Vec::new();
    if let Some(p) = protocol {
        fields.push(("Protocol".to_string(), Json::Str(p.to_string())));
    }
    fields.push(("ExternalPort".to_string(), external));
    fields.push(("InternalPort".to_string(), internal));
    Json::Object(fields)
}

#[test]
fn test_parse_vboxmanage_ports_edge_cases() {
    assert_eq!(parse_vboxmanage_ports(""), None);
    assert_eq!(parse_vboxmanage_ports("VMState=\"running\"\n"), None);
    assert_eq!(parse_vboxmanage_ports("Forwarding(0)broken\n"), None);
    assert_eq!(
        parse_vboxmanage_ports("Forwarding(0)=\"short,tcp,127.0.0.1\"\n"),
        None
    );
    assert_eq!(
        parse_vboxmanage_ports("Forwarding(0)=\"rule,tcp,127.0.0.1,not_a_port,,80\"\n"),
        None
    );
    assert_eq!(
        parse_vboxmanage_ports("Forwarding(0)=\"rule,tcp,127.0.0.1,8080,,not_a_port\"\n"),
        None
    );

    let valid = "Forwarding(0)=\"rule,tcp,127.0.0.1,8080,,80\"\nForwarding(1)=\"ssh,tcp,127.0.0.1,2222,,22\"\n";
    let parsed = parse_vboxmanage_ports(valid).expect("should parse");
    assert_eq!(parsed.len(), 2);
    assert_eq!(parsed[0].guest, 80);
    assert_eq!(parsed[0].host, 8080);
    assert_eq!(parsed[0].protocol, "tcp");
    assert_eq!(parsed[1].guest, 22);
    assert_eq!(parsed[1].host, 2222);
    assert_eq!(parsed[1].protocol, "tcp");
}

#[test]
fn vbox_keeps_repeated_rules_and_reads_indented_lines() {
    let text = "  Forwarding(0)=\"a,udp,,53,,53\"\r\nForwarding(1)=\"a,udp,,53,,53\"";
    let parsed = parse_vboxmanage_ports(text).expect("should parse");
    assert_eq!(parsed.len(), 2);
    assert_eq!(
        parsed[0],
        ForwardedPortEntry {
            guest: 53,
            host: 53,
            protocol: "udp".to_string()
        }
    );
}

#[test]
fn docker_port_parsing() {
    assert_eq!(parse_docker_ports(""), None);
    assert_eq!(parse_docker_ports("invalid line without arrow\n"), None);
    assert_eq!(parse_docker_ports("bad/tcp -> 0.0.0.0:8080\n"), None);
    assert_eq!(parse_docker_ports("80/tcp -> 0.0.0.0:bad\n"), None);
    assert_eq!(parse_docker_ports("80/tcp -> 0.0.0.0\n"), None);
    assert_eq!(parse_docker_ports("80/tcp/extra -> 0.0.0.0:80\n"), None);

    let sample = "80/tcp -> 0.0.0.0:8080
80/tcp -> :::8080
443/udp -> 127.0.0.1:8443
";
    let parsed = parse_docker_ports(sample).expect("should parse");
    assert_eq!(parsed.len(), 2);
    assert_eq!(parsed[0].guest, 80);
    assert_eq!(parsed[0].host, 8080);
    assert_eq!(parsed[0].protocol, "tcp");
    assert_eq!(parsed[1].guest, 443);
    assert_eq!(parsed[1].host, 8443);
    assert_eq!(parsed[1].protocol, "udp");
}

#[test]
fn docker_protocol_is_lowercased() {
    let parsed = parse_docker_ports("53/UDP -> 0.0.0.0:5353").expect("should parse");
    assert_eq!(parsed[0].protocol, "udp");
}

#[test]
fn qemu_port_parsing() {
    assert_eq!(parse_qemu_ports(""), None);
    assert_eq!(parse_qemu_ports("random info output\n"), None);
    assert_eq!(parse_qemu_ports("hostfwd=bad\n"), None);
    assert_eq!(parse_qemu_ports("[HOST_FORWARD] short\n"), None);

    let usernet_sample = "
VLAN -1 (net0):
  Protocol[State]    FD  Source Address  Port   Dest. Address  Port RecvQ SendQ
  TCP[HOST_FORWARD]  13       127.0.0.1  2222       10.0.2.15    22     0     0
  UDP[HOST_FORWARD]  14       0.0.0.0    8080       10.0.2.15    80     0     0
";
    let parsed_usernet = parse_qemu_ports(usernet_sample).expect("should parse usernet");
    assert_eq!(parsed_usernet.len(), 2);
    assert_eq!(parsed_usernet[0].guest, 22);
    assert_eq!(parsed_usernet[0].host, 2222);
    assert_eq!(parsed_usernet[0].protocol, "tcp");
    assert_eq!(parsed_usernet[1].guest, 80);
    assert_eq!(parsed_usernet[1].host, 8080);
    assert_eq!(parsed_usernet[1].protocol, "udp");

    let hostfwd_sample = "qemu -net nic -net user,hostfwd=tcp::2222-:22,hostfwd=udp::5353-:53";
    let parsed_hostfwd = parse_qemu_ports(hostfwd_sample).expect("should parse hostfwd");
    assert_eq!(parsed_hostfwd.len(), 2);
    assert_eq!(parsed_hostfwd[0].guest, 22);
    assert_eq!(parsed_hostfwd[0].host, 2222);
    assert_eq!(parsed_hostfwd[0].protocol, "tcp");
    assert_eq!(parsed_hostfwd[1].guest, 53);
    assert_eq!(parsed_hostfwd[1].host, 5353);
    assert_eq!(parsed_hostfwd[1].protocol, "udp");
}

#[test]
fn qemu_repeated_rules_are_kept_once() {
    let text = "hostfwd=tcp::2222-:22 hostfwd=tcp::2222-:22\nhostfwd=tcp::2222-:22";
    let parsed = parse_qemu_ports(text).expect("should parse");
    assert_eq!(parsed.len(), 1);
}

#[test]
fn hyperv_port_parsing() {
    assert_eq!(parse_hyperv_ports(""), None);
    assert_eq!(parse_hyperv_ports("Status: Running\n"), None);
    assert_eq!(parse_hyperv_ports("42"), None);

    let kv_sample = "
Protocol     : TCP
ExternalPort : 2222
InternalPort : 22

Protocol     : UDP
ExternalPort : 5353
InternalPort : 53
";
    let parsed_kv = parse_hyperv_ports(kv_sample).expect("should parse key-value");
    assert_eq!(parsed_kv.len(), 2);
    assert_eq!(parsed_kv[0].guest, 22);
    assert_eq!(parsed_kv[0].host, 2222);
    assert_eq!(parsed_kv[0].protocol, "tcp");
    assert_eq!(parsed_kv[1].guest, 53);
    assert_eq!(parsed_kv[1].host, 5353);
    assert_eq!(parsed_kv[1].protocol, "udp");

    let json_sample = r#"[
        {"Protocol": "TCP", "ExternalPort": 8080, "InternalPort": 80},
        {"Protocol": "UDP", "ExternalPort": 9090, "InternalPort": 90}
    ]"#;
    let parsed_json = parse_hyperv_ports(json_sample).expect("should parse json");
    assert_eq!(parsed_json.len(), 2);
    assert_eq!(parsed_json[0].guest, 80);
    assert_eq!(parsed_json[0].host, 8080);
    assert_eq!(parsed_json[0].protocol, "tcp");

    let single_json = r#"{"Protocol": "TCP", "ExternalPort": 3000, "InternalPort": 3000}"#;
    let parsed_single = parse_hyperv_ports(single_json).expect("should parse single json");
    assert_eq!(parsed_single.len(), 1);
}

#[test]
fn hyperv_json_port_out_of_range_is_skipped() {
    let text = r#"[{"ExternalPort": 70000, "InternalPort": 80}, {"ExternalPort": 81, "InternalPort": 80}]"#;
    let parsed = parse_hyperv_ports(text).expect("should parse");
    assert_eq!(parsed.len(), 1);
    assert_eq!(parsed[0].host, 81);
    assert_eq!(parsed[0].protocol, "tcp");
}

#[test]
fn hyperv_bindings_from_parsed_json() {
    let doc = Some(Json::Array(vec![
        binding(Some("UDP"), Json::Number(Some(53)), Json::Number(Some(5353))),
        binding(None, Json::Number(Some(8080)), Json::Number(Some(80))),
        binding(None, Json::Number(Some(8080)), Json::Number(Some(80))),
        binding(None, Json::Number(None), Json::Number(Some(80))),
        binding(None, Json::Str("81".to_string()), Json::Number(Some(80))),
        Json::Null,
    ]));
    let entries = hyperv_json_entries(&doc);
    assert_eq!(
        entries,
        vec![
            ForwardedPortEntry { guest: 5353, host: 53, protocol: "udp".to_string() },
            ForwardedPortEntry { guest: 80, host: 8080, protocol: "tcp".to_string() },
        ]
    );
    assert_eq!(hyperv_ports_from(&doc, "").map(|v| v.len()), Some(2));

    let single = Some(binding(Some("Tcp"), Json::Number(Some(22)), Json::Number(Some(2222))));
    assert_eq!(
        hyperv_json_entries(&single),
        vec![ForwardedPortEntry { guest: 2222, host: 22, protocol: "tcp".to_string() }]
    );
    assert!(hyperv_json_entries(&Some(Json::Number(Some(3)))).is_empty());
    assert!(hyperv_json_entries(&None).is_empty());
}

#[test]
fn hyperv_falls_back_to_listing_when_json_has_no_binding() {
    let listing = "Protocol : UDP\nExternalPort : 9000\nInternalPort : 90\n";
    assert_eq!(
        hyperv_ports_from(&Some(Json::Array(vec![])), listing),
        Some(vec![ForwardedPortEntry { guest: 90, host: 9000, protocol: "udp".to_string() }])
    );
    assert_eq!(hyperv_ports_from(&None, listing).map(|v| v.len()), Some(1));
    assert_eq!(hyperv_ports_from(&None, "nothing here"), None);
    let doc = Some(binding(None, Json::Number(Some(1)), Json::Number(Some(2))));
    assert_eq!(
        hyperv_ports_from(&doc, listing),
        Some(vec![ForwardedPortEntry { guest: 2, host: 1, protocol: "tcp".to_string() }])
    );
}

#[test]
fn vmware_nat_conf_parsing() {
    assert_eq!(parse_vmware_nat_conf(""), None);
    assert_eq!(parse_vmware_nat_conf("# Comment only\n"), None);
    assert_eq!(parse_vmware_nat_conf("[incomingtcp]\n8080 = bad\n"), None);
    assert!(parse_vmware_nat_conf("[incomingtcp]\nbad = 127.0.0.1:80\n").is_none());

    let conf_sample = "
# VMware NAT configuration
[incomingtcp]
2222 = 192.168.56.10:22
8080 = 192.168.56.10:80

[incomingudp]
5353 = 192.168.56.10:53
invalid_line
8888 = missing_colon

[other_section]
9999 = 192.168.56.10:99
";
    let parsed = parse_vmware_nat_conf(conf_sample).expect("should parse nat conf");
    assert_eq!(parsed.len(), 3);
    assert_eq!(parsed[0].guest, 22);
    assert_eq!(parsed[0].host, 2222);
    assert_eq!(parsed[0].protocol, "tcp");
    assert_eq!(parsed[1].guest, 80);
    assert_eq!(parsed[1].host, 8080);
    assert_eq!(parsed[1].protocol, "tcp");
    assert_eq!(parsed[2].guest, 53);
    assert_eq!(parsed[2].host, 5353);
    assert_eq!(parsed[2].protocol, "udp");
}

#[test]
fn vmware_section_names_ignore_case() {
    let parsed = parse_vmware_nat_conf("[IncomingUDP]\n53 = 10.0.0.1:53").expect("should parse");
    assert_eq!(parsed[0].protocol, "udp");
}
