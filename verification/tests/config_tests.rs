use skype_rs::config::{default_database_url, format_host_port, push_decimal, NetworkConfig};

fn sample_config() -> NetworkConfig {
    NetworkConfig {
        login_host: "127.0.0.1".to_string(),
        login_port: 7000,
        supernode_host: "10.0.0.5".to_string(),
        supernode_port: 7100,
        relay_host: "relay.example".to_string(),
        relay_port: 7200,
        supernode_cache_size: 2,
        peer_cluster_limit: 2,
        database_url: default_database_url(),
        known_supernodes: vec!["a:1".to_string(), "b:2".to_string(), "c:3".to_string()],
    }
}

#[test]
fn default_database_url_points_at_data_dir() {
    assert_eq!(default_database_url(), "sqlite://./data/skype-rs.db");
}

#[test]
fn host_port_formats_decimal_port() {
    assert_eq!(format_host_port("127.0.0.1", 7000), "127.0.0.1:7000");
    assert_eq!(format_host_port("", 0), ":0");
    assert_eq!(format_host_port("h", 65535), "h:65535");
    assert_eq!(format_host_port("h", 9), "h:9");
}

#[test]
fn push_decimal_appends_digits() {
    let mut s = String::from("n=");
    push_decimal(&mut s, 1234567890);
    assert_eq!(s, "n=1234567890");
    let mut z = String::new();
    push_decimal(&mut z, 0);
    assert_eq!(z, "0");
}

#[test]
fn service_addresses_come_from_config() {
    let cfg = sample_config();
    assert_eq!(cfg.login_addr(), "127.0.0.1:7000");
    assert_eq!(cfg.supernode_addr(), "10.0.0.5:7100");
    assert_eq!(cfg.relay_addr(), "relay.example:7200");
}
