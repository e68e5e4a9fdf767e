use fleet_query::target::{
    collect_addresses, generate_ips, inventory_lines, parse_subnets, target_set, Network,
    Resolution, SubnetParseError, TargetAddress,
};

fn v4(a: u8, b: u8, c: u8, d: u8) -> TargetAddress {
    TargetAddress::V4(u32::from_be_bytes([a, b, c, d]))
}

fn strings(items: &[&str]) -> Vec<String> {
    items.iter().map(|s| s.to_string()).collect()
}

fn refused(entry: &str) -> SubnetParseError {
    SubnetParseError {
        entry: entry.to_string(),
        reason: format!("invalid address: {}", entry),
    }
}

#[test]
fn whitespaced_file_parses_to_ipaddrs() {
    let inventory = "  \n10.0.0.0/30\n10.0.1.1\n\t \n".to_string();
    let resolution = generate_ips(vec![], Some(inventory));
    assert_eq!(
        resolution.targets,
        vec![
            v4(10, 0, 0, 0),
            v4(10, 0, 0, 1),
            v4(10, 0, 0, 2),
            v4(10, 0, 0, 3),
            v4(10, 0, 1, 1),
        ]
    );
    assert_eq!(resolution.diagnostics, vec![]);
}

#[test]
fn block_of_four_resolves_to_its_four_addresses() {
    let resolution = generate_ips(strings(&["10.0.0.0/30"]), None);
    assert_eq!(
        resolution,
        Resolution {
            targets: vec![v4(10, 0, 0, 0), v4(10, 0, 0, 1), v4(10, 0, 0, 2), v4(10, 0, 0, 3)],
            diagnostics: vec![],
        }
    );
}

#[test]
fn nothing_to_resolve_gives_the_empty_set() {
    assert_eq!(
        generate_ips(vec![], None),
        Resolution { targets: vec![], diagnostics: vec![] }
    );
}

#[test]
fn empty_inventory_has_one_empty_entry() {
    assert_eq!(inventory_lines(""), strings(&[""]));
    assert_eq!(inventory_lines(" \n\t\n "), strings(&[""]));
    assert_eq!(
        generate_ips(vec![], Some(String::new())),
        Resolution { targets: vec![], diagnostics: vec![refused("")] }
    );
}

#[test]
fn inventory_is_trimmed_as_a_whole_and_cut_at_line_feeds() {
    assert_eq!(
        inventory_lines("\n a\n\n b \r\nc  \n"),
        strings(&["a", "", " b \r", "c"])
    );
}

#[test]
fn malformed_entries_are_reported_and_stop_nothing() {
    let subnets = strings(&["not-a-subnet", "192.168.1.0/31", "10.0.0.0/33", "192.168.0.7"]);
    let inventory = "web01.example.com\n192.168.1.1/32\n 192.168.9.9".to_string();
    let resolution = generate_ips(subnets, Some(inventory));
    assert_eq!(
        resolution.targets,
        vec![v4(192, 168, 0, 7), v4(192, 168, 1, 0), v4(192, 168, 1, 1)]
    );
    assert_eq!(
        resolution.diagnostics,
        vec![
            refused("not-a-subnet"),
            refused("10.0.0.0/33"),
            refused("web01.example.com"),
            refused(" 192.168.9.9"),
        ]
    );
}

#[test]
fn overlapping_networks_give_each_address_once_in_ascending_order() {
    let subnets = strings(&["10.0.0.4/30", "10.0.0.0/29", "10.0.0.6", "9.255.255.255/32"]);
    let resolution = generate_ips(subnets, None);
    let expected: Vec<TargetAddress> = std::iter::once(v4(9, 255, 255, 255))
        .chain((0..8).map(|d| v4(10, 0, 0, d)))
        .collect();
    assert_eq!(resolution.targets, expected);
}

#[test]
fn host_bits_of_the_entry_are_cleared() {
    let resolution = generate_ips(strings(&["10.1.1.77/30"]), None);
    assert_eq!(
        resolution.targets,
        vec![v4(10, 1, 1, 76), v4(10, 1, 1, 77), v4(10, 1, 1, 78), v4(10, 1, 1, 79)]
    );
}

#[test]
fn netmask_is_read_as_a_prefix() {
    let resolution = generate_ips(strings(&["10.2.0.0/255.255.255.254"]), None);
    assert_eq!(resolution.targets, vec![v4(10, 2, 0, 0), v4(10, 2, 0, 1)]);
}

#[test]
fn ipv4_addresses_come_before_ipv6_addresses() {
    let subnets = strings(&["2001:db8::/127", "255.255.255.255", "::1", "0.0.0.0"]);
    let resolution = generate_ips(subnets, None);
    assert_eq!(
        resolution.targets,
        vec![
            v4(0, 0, 0, 0),
            v4(255, 255, 255, 255),
            TargetAddress::V6(1),
            TargetAddress::V6(0x2001_0db8_0000_0000_0000_0000_0000_0000),
            TargetAddress::V6(0x2001_0db8_0000_0000_0000_0000_0000_0001),
        ]
    );
}

#[test]
fn network_is_walked_from_its_first_address_to_its_last() {
    let mut collector = vec![v4(1, 1, 1, 1)];
    collect_addresses(&mut collector, &Network::V4 { address: 0xc0a8_0105, prefix: 30 });
    assert_eq!(
        collector,
        vec![
            v4(1, 1, 1, 1),
            v4(192, 168, 1, 4),
            v4(192, 168, 1, 5),
            v4(192, 168, 1, 6),
            v4(192, 168, 1, 7),
        ]
    );
    let mut collector = vec![];
    collect_addresses(&mut collector, &Network::V6 { address: 0xfe80 << 112 | 0xff, prefix: 126 });
    assert_eq!(
        collector,
        vec![
            TargetAddress::V6(0xfe80 << 112 | 0xfc),
            TargetAddress::V6(0xfe80 << 112 | 0xfd),
            TargetAddress::V6(0xfe80 << 112 | 0xfe),
            TargetAddress::V6(0xfe80 << 112 | 0xff),
        ]
    );
}

#[test]
fn network_of_one_address_has_that_address() {
    let mut collector = vec![];
    collect_addresses(&mut collector, &Network::V4 { address: 0xffff_ffff, prefix: 32 });
    collect_addresses(&mut collector, &Network::V6 { address: u128::MAX, prefix: 128 });
    collect_addresses(&mut collector, &Network::V4 { address: 0, prefix: 32 });
    assert_eq!(
        collector,
        vec![v4(255, 255, 255, 255), TargetAddress::V6(u128::MAX), v4(0, 0, 0, 0)]
    );
}

#[test]
fn network_with_too_long_a_prefix_has_no_addresses() {
    let mut collector = vec![v4(1, 2, 3, 4)];
    collect_addresses(&mut collector, &Network::V4 { address: 7, prefix: 33 });
    collect_addresses(&mut collector, &Network::V6 { address: 7, prefix: 129 });
    assert_eq!(collector, vec![v4(1, 2, 3, 4)]);
}

#[test]
fn last_block_of_the_address_space_is_walked_to_its_end() {
    let mut collector = vec![];
    collect_addresses(&mut collector, &Network::V4 { address: 0xffff_fffe, prefix: 31 });
    collect_addresses(&mut collector, &Network::V6 { address: u128::MAX, prefix: 127 });
    assert_eq!(
        collector,
        vec![
            v4(255, 255, 255, 254),
            v4(255, 255, 255, 255),
            TargetAddress::V6(u128::MAX - 1),
            TargetAddress::V6(u128::MAX),
        ]
    );
}

#[test]
fn parse_subnets_appends_in_the_order_of_the_entries() {
    let mut collector = vec![v4(8, 8, 8, 8)];
    let diagnostics = parse_subnets(&mut collector, &strings(&["10.0.0.2/31", "x/y", "10.0.0.1"]));
    assert_eq!(
        collector,
        vec![v4(8, 8, 8, 8), v4(10, 0, 0, 2), v4(10, 0, 0, 3), v4(10, 0, 0, 1)]
    );
    assert_eq!(diagnostics, vec![refused("x/y")]);
}

#[test]
fn target_set_sorts_and_drops_duplicates() {
    let addresses = vec![
        TargetAddress::V6(5),
        v4(10, 0, 0, 2),
        v4(10, 0, 0, 1),
        TargetAddress::V6(5),
        v4(10, 0, 0, 2),
        TargetAddress::V6(4),
        v4(0, 0, 0, 5),
        v4(10, 0, 0, 2),
    ];
    assert_eq!(
        target_set(addresses),
        vec![
            v4(0, 0, 0, 5),
            v4(10, 0, 0, 1),
            v4(10, 0, 0, 2),
            TargetAddress::V6(4),
            TargetAddress::V6(5),
        ]
    );
    assert_eq!(target_set(vec![]), vec![]);
    assert_eq!(target_set(vec![v4(1, 1, 1, 1)]), vec![v4(1, 1, 1, 1)]);
}

#[test]
fn target_set_agrees_with_sort_and_dedup_on_many_values() {
    let mut seed: u64 = 0x9e37_79b9_7f4a_7c15;
    let mut addresses = Vec::new();
    for _ in 0..2000 {
        seed = seed.wrapping_mul(6364136223846793005).wrapping_add(1442695040888963407);
        let value = (seed >> 40) as u32 % 700;
        if seed & 1 == 0 {
            addresses.push(TargetAddress::V4(value));
        } else {
            addresses.push(TargetAddress::V6(value as u128));
        }
    }
    let mut keys: Vec<(u8, u128)> = addresses
        .iter()
        .map(|a| match a {
            TargetAddress::V4(bits) => (4, *bits as u128),
            TargetAddress::V6(bits) => (6, *bits),
        })
        .collect();
    keys.sort();
    keys.dedup();
    let expected: Vec<TargetAddress> = keys
        .into_iter()
        .map(|(family, bits)| {
            if family == 4 {
                TargetAddress::V4(bits as u32)
            } else {
                TargetAddress::V6(bits)
            }
        })
        .collect();
    assert_eq!(target_set(addresses), expected);
}

#[test]
fn precedes_orders_by_family_then_by_number() {
    assert!(v4(1, 0, 0, 0).precedes(&v4(1, 0, 0, 1)));
    assert!(!v4(1, 0, 0, 1).precedes(&v4(1, 0, 0, 1)));
    assert!(!v4(2, 0, 0, 0).precedes(&v4(1, 255, 255, 255)));
    assert!(v4(255, 255, 255, 255).precedes(&TargetAddress::V6(0)));
    assert!(!TargetAddress::V6(0).precedes(&v4(0, 0, 0, 0)));
    assert!(TargetAddress::V6(1 << 100).precedes(&TargetAddress::V6((1 << 100) + 1)));
}

#[test]
fn refusal_is_the_message_of_the_parser() {
    let error = "10.0.0.0/99".parse::<ipnetwork::IpNetwork>().unwrap_err();
    let resolution = generate_ips(strings(&["10.0.0.0/99"]), None);
    assert_eq!(resolution.diagnostics.len(), 1);
    assert_eq!(resolution.diagnostics[0].reason, error.to_string());
    assert_eq!(resolution.diagnostics[0].entry, "10.0.0.0/99");
}

#[test]
fn walk_agrees_with_the_iterator_of_the_network() {
    for text in ["172.16.5.9/28", "10.0.0.0/24", "fd00::7/124", "192.0.2.1"] {
        let network = text.parse::<ipnetwork::IpNetwork>().unwrap();
        let walked: Vec<String> = network.iter().map(|ip| ip.to_string()).collect();
        let resolved: Vec<String> = generate_ips(strings(&[text]), None)
            .targets
            .iter()
            .map(|a| a.to_text())
            .collect();
        assert_eq!(resolved, walked);
    }
}
