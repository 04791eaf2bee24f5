use msd_core::jsonmeta::metadata_field;
use msd_core::netif::{choose_interface, parse_default_interface, words};

#[test]
fn default_interface_from_route_table() {
    let out = "default via 192.168.1.1 dev eth0 proto dhcp metric 100\n\
               192.168.1.0/24 dev eth0 proto kernel scope link\n";
    assert_eq!(parse_default_interface(out), Some("eth0".to_string()));
}

#[test]
fn default_interface_first_matching_line_wins() {
    let out = "default via 10.0.0.1 dev wlan0\ndefault via 10.0.0.2 dev eth1\n";
    assert_eq!(parse_default_interface(out), Some("wlan0".to_string()));
}

#[test]
fn default_interface_absent_when_no_default_route() {
    assert_eq!(parse_default_interface("10.0.0.0/8 dev eth0 scope link\n"), None);
    assert_eq!(parse_default_interface(""), None);
    // A default line with no device word yields nothing.
    assert_eq!(parse_default_interface("default via 10.0.0.1\n"), None);
    // `dev` as the last word names nothing.
    assert_eq!(parse_default_interface("default via 10.0.0.1 dev\n"), None);
}

#[test]
fn words_drop_extra_spaces() {
    let w = words("  a  bb   c ");
    assert_eq!(w, vec!["a".to_string(), "bb".to_string(), "c".to_string()]);
}

#[test]
fn interface_choice_prefers_eth0() {
    let names = vec!["lo".to_string(), "eth0".to_string(), "wlan0".to_string()];
    assert_eq!(choose_interface(&names), Some(1));
}

#[test]
fn interface_choice_falls_back_to_first() {
    let names = vec!["lo".to_string(), "wlan0".to_string()];
    assert_eq!(choose_interface(&names), Some(0));
    assert_eq!(choose_interface(&Vec::new()), None);
}

#[test]
fn metadata_field_reads_string_fields() {
    let body = "{\"Cluster\":\"prod-cluster\",\"TaskARN\":\"arn:x:y\",\"n\":3}".to_string();
    assert_eq!(
        metadata_field(&Some(body.clone()), "Cluster"),
        Some("prod-cluster".to_string())
    );
    assert_eq!(metadata_field(&Some(body.clone()), "TaskARN"), Some("arn:x:y".to_string()));
    // A non-string field is not a string value.
    assert_eq!(metadata_field(&Some(body.clone()), "n"), None);
    assert_eq!(metadata_field(&Some(body), "Missing"), None);
    assert_eq!(metadata_field(&Some("not json".to_string()), "Cluster"), None);
    assert_eq!(metadata_field(&None, "Cluster"), None);
}
