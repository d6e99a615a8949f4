use lightctl::device::DeviceRecord;
use lightctl::discovery::{build_probe, collect_devices, remove_duplicates, DiscoveryConfig};

fn record(identifier: u32, address: &str) -> DeviceRecord {
    DeviceRecord { identifier, address: String::from(address), details: String::new() }
}

#[test]
fn duplicates_collapse_to_first_arrival() {
    let arrivals = vec![
        record(7, "192.168.1.10:55443"),
        record(2, "192.168.1.11:55443"),
        record(7, "192.168.1.99:55443"),
        record(5, "192.168.1.12:55443"),
        record(2, "192.168.1.98:55443"),
        record(7, "192.168.1.97:55443"),
    ];
    let out = remove_duplicates(arrivals);
    assert_eq!(
        out,
        vec![
            record(7, "192.168.1.10:55443"),
            record(2, "192.168.1.11:55443"),
            record(5, "192.168.1.12:55443"),
        ]
    );
}

#[test]
fn no_duplicates_means_no_change() {
    let arrivals = vec![record(1, "a:1"), record(2, "b:2"), record(3, "c:3")];
    let out = remove_duplicates(arrivals.clone());
    assert_eq!(out, arrivals);
}

#[test]
fn zero_replies_give_empty_result() {
    let out = collect_devices(Vec::new());
    assert!(out.is_empty());
}

#[test]
fn parse_failures_are_dropped() {
    let parsed = vec![
        None,
        Some(record(4, "192.168.1.20:55443")),
        None,
        Some(record(9, "192.168.1.21:55443")),
        Some(record(4, "192.168.1.77:55443")),
        None,
    ];
    let out = collect_devices(parsed);
    assert_eq!(out, vec![record(4, "192.168.1.20:55443"), record(9, "192.168.1.21:55443")]);
}

#[test]
fn discovery_is_idempotent_for_identical_responses() {
    let parsed = vec![
        Some(record(3, "192.168.1.30:55443")),
        None,
        Some(record(3, "192.168.1.31:55443")),
        Some(record(8, "192.168.1.32:55443")),
    ];
    let first_round = collect_devices(parsed.clone());
    let second_round = collect_devices(parsed);
    assert_eq!(first_round, second_round);
}

#[test]
fn default_config_has_the_well_known_values() {
    let config = DiscoveryConfig::default();
    assert_eq!(config.multicast_group, "239.255.255.250");
    assert_eq!(config.multicast_port, 1982);
    assert_eq!(config.bind_port, 34254);
    assert_eq!(config.window_millis, 1200);
    assert_eq!(config.pause_millis, 200);
    assert_eq!(config.service_type, "wifi_bulb");
    assert!(config.pause_millis < config.window_millis);
}

#[test]
fn multicast_endpoint_joins_group_and_port() {
    let config = DiscoveryConfig::default();
    assert_eq!(config.multicast_endpoint(), "239.255.255.250:1982");
}

#[test]
fn probe_has_the_fixed_request_text() {
    let config = DiscoveryConfig::default();
    let probe = build_probe(&config);
    assert_eq!(
        probe,
        "M-SEARCH * HTTP/1.1\r\nHOST: 239.255.255.250:1982\r\nMAN: \"ssdp:discover\"\r\nST: wifi_bulb"
    );
}

#[test]
fn decimal_rendering_is_exact() {
    assert_eq!(lightctl::text::u32_to_decimal(0), "0");
    assert_eq!(lightctl::text::u32_to_decimal(7), "7");
    assert_eq!(lightctl::text::u32_to_decimal(1982), "1982");
    assert_eq!(lightctl::text::u32_to_decimal(u32::MAX), "4294967295");
}
