use portlist::services::{
    all_services, build_registry, get_service, load_nmap_services, parse_u16, PortService,
};

#[test]
fn parse_line_full() {
    let p = PortService::parse_line("http 80/tcp 0.5 WWW").unwrap();
    assert_eq!(p.name, "http");
    assert_eq!(p.port, 80);
    assert_eq!(p.protocol, "tcp");
    assert_eq!(p.comment, Some(String::from("WWW")));
}

#[test]
fn parse_line_no_comment() {
    let p = PortService::parse_line("ssh 22/tcp 0.6").unwrap();
    assert_eq!(p.name, "ssh");
    assert_eq!(p.port, 22);
    assert_eq!(p.protocol, "tcp");
    assert_eq!(p.comment, None);
}

#[test]
fn parse_line_multiword_comment() {
    let p = PortService::parse_line("domain 53/udp 0.3  Domain  Name   Server").unwrap();
    assert_eq!(p.comment, Some(String::from("Domain Name Server")));
}

#[test]
fn parse_line_too_few_fields() {
    assert!(PortService::parse_line("bad line").is_none());
    assert!(PortService::parse_line("").is_none());
    assert!(PortService::parse_line("onlyname").is_none());
}

#[test]
fn parse_line_bad_port() {
    assert!(PortService::parse_line("x 99999/tcp 0.1").is_none());
    assert!(PortService::parse_line("x abc/tcp 0.1").is_none());
    assert!(PortService::parse_line("x 80tcp 0.1").is_none());
}

#[test]
fn parse_u16_edges() {
    assert_eq!(parse_u16("0"), Some(0));
    assert_eq!(parse_u16("80"), Some(80));
    assert_eq!(parse_u16("+80"), Some(80));
    assert_eq!(parse_u16("65535"), Some(65535));
    assert_eq!(parse_u16("65536"), None);
    assert_eq!(parse_u16("0080"), Some(80));
    assert_eq!(parse_u16(""), None);
    assert_eq!(parse_u16("+"), None);
    assert_eq!(parse_u16("12a"), None);
    assert_eq!(parse_u16("-1"), None);
}

#[test]
fn registry_lookup_well_known() {
    let reg = load_nmap_services();
    let http = get_service(&reg, 80, "tcp").unwrap();
    assert_eq!(http.name, "http");
    assert_eq!(http.port, 80);
    assert_eq!(http.protocol, "tcp");
    let ssh = get_service(&reg, 22, "tcp").unwrap();
    assert_eq!(ssh.name, "ssh");
}

#[test]
fn registry_lookup_undefined() {
    let reg = load_nmap_services();
    assert!(get_service(&reg, 0, "tcp").is_none());
    assert!(get_service(&reg, 80, "udp").is_none());
    assert!(get_service(&reg, 80, "TCP").is_none());
}

#[test]
fn registry_skips_malformed_and_comments() {
    let reg = build_registry("# heading\n\nbad line\nhttp 80/tcp 0.9 web\n   \n");
    let entries = all_services(&reg);
    assert_eq!(entries.len(), 1);
    assert_eq!(entries[0].name, "http");
}

#[test]
fn registry_round_trip_every_line() {
    let text = "a 1/tcp 0.1\nb 2/tcp 0.2\nc 3/udp 0.3 note";
    let reg = build_registry(text);
    for line in ["a 1/tcp 0.1", "b 2/tcp 0.2", "c 3/udp 0.3 note"] {
        let p = PortService::parse_line(line).unwrap();
        let found = get_service(&reg, p.port, &p.protocol).unwrap();
        assert_eq!(found.port, p.port);
        assert_eq!(found.protocol, p.protocol);
    }
    assert_eq!(all_services(&reg).len(), 3);
}

#[test]
fn registry_later_line_wins_on_same_key() {
    let reg = build_registry("old 9/tcp 0.1\nnew 9/tcp 0.2");
    let entries = all_services(&reg);
    assert_eq!(entries.len(), 1);
    assert_eq!(entries[0].name, "new");
    assert_eq!(get_service(&reg, 9, "tcp").unwrap().name, "new");
}

#[test]
fn registry_protocols_are_distinct_keys() {
    let reg = build_registry("t 7/tcp 0.1\nu 7/udp 0.1");
    assert_eq!(all_services(&reg).len(), 2);
    assert_eq!(get_service(&reg, 7, "tcp").unwrap().name, "t");
    assert_eq!(get_service(&reg, 7, "udp").unwrap().name, "u");
}

#[test]
fn port_key_carries_pair() {
    let p = PortService::parse_line("http 80/tcp 0.5").unwrap();
    let k = p.key();
    assert_eq!(k.port, 80);
    assert_eq!(k.protocol, "tcp");
}
