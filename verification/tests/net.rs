use gezellij::command::RestartPolicy;
use gezellij::ipv6::{Ipv6Addr, SocketAddrV6};
use gezellij::net::{
    bind_address_for, bind_url, caddy_snippet, default_port, hostname_for, hosts_line,
    interface_id_for, interface_id_from_digest, load_or_create_prefix, load_prefix, network_file,
    save_prefix, service_address, setup_instructions, NetExportFormat, PrefixError, PrefixFile,
    PrefixFileError, UlaPrefix, NETWORK_FILE_NAME,
};
use gezellij::services::ServiceDefinition;
use sha2::Digest;

fn words(list: &[&str]) -> Vec<String> {
    list.iter().map(|w| w.to_string()).collect()
}

#[test]
fn generated_prefix_is_a_subnet_zero_ula() {
    for _ in 0..16 {
        let prefix = UlaPrefix::generate();
        let octets = prefix.network_address().octets();
        assert_eq!(octets[0], 0xfd, "must be inside fd00::/8");
        assert_eq!(&octets[6..8], &[0, 0], "subnet id must be 0");
        assert!(octets[8..].iter().all(|b| *b == 0), "must be a /64 network");
        assert!(prefix.to_string().ends_with("/64"));
    }
    // two prefixes in a row should differ (40 random bits)
    assert_ne!(UlaPrefix::generate(), UlaPrefix::generate());
}

#[test]
fn prefix_display_parse_roundtrip() {
    let prefix = UlaPrefix::generate();
    let rendered = prefix.to_string();
    assert_eq!(rendered.parse::<UlaPrefix>().unwrap(), prefix);
    // the bare network address parses too
    assert_eq!(
        prefix
            .network_address()
            .to_string()
            .parse::<UlaPrefix>()
            .unwrap(),
        prefix
    );
    // and it round-trips through JSON
    let json = serde_json::to_string(&prefix.to_string()).unwrap();
    let back: String = serde_json::from_str(&json).unwrap();
    assert_eq!(back.parse::<UlaPrefix>().unwrap(), prefix);

    assert!("2001:db8::/64".parse::<UlaPrefix>().is_err());
    assert!("not an address".parse::<UlaPrefix>().is_err());
    assert!("fd00:1:2:3:4::/64".parse::<UlaPrefix>().is_err());
    assert!("fd00:1:2::/48".parse::<UlaPrefix>().is_err());
}

#[test]
fn a_prefix_is_shown_in_full() {
    let random = [
        0x49, 0x2e, 0x1c, 0x0b, 0x7a, 9, 9, 9, 9, 9, 9, 9, 9, 9, 9, 9,
    ];
    let prefix = UlaPrefix::from_random(random);
    assert_eq!(prefix.to_string(), "fd49:2e1c:b7a::/64");
    assert_eq!(
        prefix.network_bytes(),
        [0xfd, 0x49, 0x2e, 0x1c, 0x0b, 0x7a, 0, 0]
    );
    assert_eq!(prefix.probe_address().to_string(), "fd49:2e1c:b7a::1");
    // the subnet is read and kept
    let other = UlaPrefix::from_str(" fd49:2e1c:b7a:7:: / 64 ").unwrap_err();
    assert!(other.contains("is not an IPv6 address"), "{}", other);
    let other = UlaPrefix::from_str(" fd49:2e1c:b7a:7::/ 64 ").unwrap();
    assert_eq!(other.to_string(), "fd49:2e1c:b7a:7::/64");
    assert_ne!(other, prefix);
}

#[test]
fn a_bad_prefix_is_named_in_the_message() {
    let message = |s: &str| UlaPrefix::from_str(s).unwrap_err();
    assert_eq!(
        message("fd00:1:2::/48"),
        "only /64 ULA prefixes are supported, got /48"
    );
    assert_eq!(
        message("not an \"address\""),
        "\"not an \\\"address\\\"\" is not an IPv6 address: invalid IPv6 address syntax"
    );
    assert_eq!(
        message("2001:db8::/64"),
        "2001:db8:: is not a locally assigned ULA prefix (RFC 4193 requires it to start with fd)"
    );
    assert_eq!(
        message("fd00:1:2:3:4::/64"),
        "fd00:1:2:3:4:: has a non-zero interface id; a /64 prefix must end in ::"
    );
    assert_eq!(
        message("::ffff:1.2.3.4"),
        "::ffff:1.2.3.4 is not a locally assigned ULA prefix (RFC 4193 requires it to start with fd)"
    );
    assert_eq!(
        PrefixError::NotAnAddress {
            text: "x".to_string()
        }
        .message("<x>"),
        "<x> is not an IPv6 address: invalid IPv6 address syntax"
    );
}

#[test]
fn addresses_are_deterministic_per_id_and_distinct() {
    let prefix = UlaPrefix::generate();
    let one = service_address(&prefix, "1f0c8a1d");
    let two = service_address(&prefix, "1f0c8a1d");
    let other = service_address(&prefix, "b3de0091");
    assert_eq!(one, two, "the same id always maps to the same address");
    assert_ne!(one, other, "different ids map to different addresses");
    // the address is inside the prefix
    assert_eq!(&one.octets()[..8], &prefix.network_bytes());
    // and never the reserved all-zero interface id
    assert_ne!(one, prefix.network_address());
}

#[test]
fn the_interface_id_is_the_start_of_the_digest() {
    let digest = sha2::Sha256::digest(b"gezellij-service-address:1f0c8a1d");
    assert_eq!(&interface_id_for("1f0c8a1d")[..], &digest[..8]);
}

#[test]
fn the_reserved_interface_id_is_avoided() {
    assert_eq!(
        interface_id_from_digest(&[0; 32]),
        [0, 0, 0, 0, 0, 0, 0, 1]
    );
    let mut digest = [7u8; 32];
    digest[0] = 0;
    assert_eq!(
        interface_id_from_digest(&digest),
        [0, 7, 7, 7, 7, 7, 7, 7]
    );
}

#[test]
fn bind_address_follows_the_bind_ip_flag() {
    let prefix = UlaPrefix::generate();
    let mut service = ServiceDefinition::new(
        "api".to_string(),
        words(&["true"]),
        None,
        RestartPolicy::No,
    );
    assert_eq!(bind_address_for(&prefix, &service), None);
    service.bind_ip = true;
    let address = bind_address_for(&prefix, &service).unwrap();
    assert_eq!(address.port(), default_port());
    assert_eq!(
        *address.ip(),
        service_address(&prefix, &service.address_id())
    );
    assert_eq!(
        bind_url(&address),
        format!("http://[{}]:8080", address.ip().to_string())
    );
}

#[test]
fn old_definitions_without_an_id_get_a_stable_fallback() {
    let mut parsed = ServiceDefinition::new(
        "legacy".to_string(),
        words(&["true"]),
        None,
        RestartPolicy::No,
    );
    parsed.id = String::new();
    assert!(parsed.id.is_empty());
    assert_eq!(parsed.address_id(), "name:legacy");
    let prefix = UlaPrefix::generate();
    assert_eq!(
        service_address(&prefix, &parsed.address_id()),
        service_address(&prefix, "name:legacy")
    );
}

#[test]
fn renaming_a_service_does_not_move_it() {
    let prefix = UlaPrefix::generate();
    let mut service = ServiceDefinition::new(
        "api".to_string(),
        words(&["true"]),
        None,
        RestartPolicy::No,
    );
    service.bind_ip = true;
    let before = bind_address_for(&prefix, &service);
    service.name = "backend".to_string();
    assert_eq!(bind_address_for(&prefix, &service), before);
}

#[test]
fn prefix_persists_in_the_config_dir() {
    assert_eq!(load_prefix(PrefixFile::Missing), Ok(None));
    let (created, is_new) = load_or_create_prefix(PrefixFile::Missing).unwrap();
    assert!(is_new);
    assert_eq!(
        load_prefix(PrefixFile::Prefix(created)),
        Ok(Some(created))
    );
    // a second call must never mint a new prefix
    assert_eq!(
        load_or_create_prefix(PrefixFile::Prefix(created)),
        Ok((created, false))
    );
    // a corrupt file is an error, not a reason to rotate the prefix
    assert_eq!(
        load_or_create_prefix(PrefixFile::Broken("not json".to_string())),
        Err(PrefixFileError::InvalidData("not json".to_string()))
    );
    assert_eq!(
        load_prefix(PrefixFile::Unreadable("denied".to_string())),
        Err(PrefixFileError::Io("denied".to_string()))
    );
}

#[test]
fn a_prefix_is_written_and_then_moved() {
    let plan = save_prefix("/home/u/.config/zellij", "{}");
    assert_eq!(plan.dir, "/home/u/.config/zellij");
    assert_eq!(plan.tmp, "/home/u/.config/zellij/.network.json.tmp");
    assert_eq!(
        plan.path,
        format!("/home/u/.config/zellij/{}", NETWORK_FILE_NAME)
    );
    assert_eq!(plan.contents, "{}\n");
    assert_eq!(network_file("/c/"), "/c/network.json");
}

#[test]
fn exports_contain_the_bracketed_address() {
    let prefix = UlaPrefix::generate();
    let address = service_address(&prefix, "some-id");
    let snippet = caddy_snippet(&hostname_for("api"), &address, default_port());
    assert!(
        snippet.contains(&format!("[{}]:8080", address.to_string())),
        "{}",
        snippet
    );
    assert!(snippet.starts_with("api.localhost {"));
    assert!(snippet.contains("reverse_proxy"));
    assert_eq!(
        hosts_line(&address, "api.localhost"),
        format!("{}\tapi.localhost\n", address.to_string())
    );
    let fixed = Ipv6Addr::parse("fd00::1").unwrap();
    assert_eq!(
        caddy_snippet("api.localhost", &fixed, 8080),
        "api.localhost {\n\treverse_proxy [fd00::1]:8080\n}\n"
    );
    assert_eq!(
        bind_url(&SocketAddrV6::new(fixed, 80)),
        "http://[fd00::1]:80"
    );
    assert_eq!(NetExportFormat::default(), NetExportFormat::Caddy);
}

#[test]
fn setup_instructions_mention_the_route_command() {
    let prefix = UlaPrefix::generate();
    let instructions = setup_instructions(&prefix);
    assert!(instructions.contains(&format!(
        "ip -6 route add local {} dev lo",
        prefix.to_string()
    )));
    assert!(instructions.contains("ip -6 route show table local"));
    assert!(instructions.contains(&format!(
        "\n    ExecStop=/usr/bin/ip -6 route del local {} dev lo\n",
        prefix.to_string()
    )));
    assert!(instructions.ends_with("works regardless of who manages `lo`.)\n"));
}
