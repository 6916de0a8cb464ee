use gezellij::command::RestartPolicy;
use gezellij::path::{if_present, removal, FileAnswer};
use gezellij::services::{
    check_service_name, choose_shown, is_definition_file, needs_quoting, session_name_for,
    validate_service_name, DefinitionFile, ServiceDefinition, ServiceNameError, ServiceRegistry,
};

fn words(list: &[&str]) -> Vec<String> {
    list.iter().map(|w| w.to_string()).collect()
}

fn service(name: &str) -> ServiceDefinition {
    ServiceDefinition::new(name.to_string(), words(&["true"]), None, RestartPolicy::No)
}

#[test]
fn session_name_uses_prefix() {
    let svc = service("api");
    assert_eq!(svc.session_name(), "svc-api");
    assert_eq!(svc.command_display(), "true");
    let spaced = ServiceDefinition::new(
        "x".to_string(),
        words(&["sh", "-c", "echo hi"]),
        None,
        RestartPolicy::No,
    );
    assert_eq!(spaced.command_display(), "sh -c \"echo hi\"");
    assert_eq!(session_name_for("bot"), "svc-bot");
}

#[test]
fn words_are_quoted_only_where_needed() {
    let odd = ServiceDefinition::new(
        "x".to_string(),
        words(&["echo", "", "a\tb", "\"q\"", "a\u{a0}b"]),
        None,
        RestartPolicy::No,
    );
    assert_eq!(
        odd.command_display(),
        "echo \"\" \"a\\tb\" \"q\" \"a\\u{a0}b\""
    );
    assert!(needs_quoting(""));
    assert!(needs_quoting("a b"));
    assert!(!needs_quoting("a-b"));
    assert_eq!(choose_shown("a b", "<q>".to_string()), "<q>");
    assert_eq!(choose_shown("ab", "<q>".to_string()), "ab");
}

#[test]
fn service_names_are_validated() {
    assert!(validate_service_name("api").is_ok());
    assert!(validate_service_name("my-bot_2.0").is_ok());
    assert!(validate_service_name("").is_err());
    assert!(validate_service_name("../etc").is_err());
    assert!(validate_service_name("has space").is_err());
    assert!(validate_service_name("-dash").is_err());
    let registry = ServiceRegistry::at("/tmp/services".to_string());
    assert!(registry.load("../x").is_err());
}

#[test]
fn a_bad_service_name_is_explained() {
    let message = |name: &str| validate_service_name(name).unwrap_err();
    assert_eq!(message(""), "service name cannot be empty");
    assert_eq!(
        message(&"a".repeat(65)),
        "service name cannot be longer than 64 characters"
    );
    assert!(validate_service_name(&"a".repeat(64)).is_ok());
    assert_eq!(message(".x"), "service name cannot start with '.' or '-'");
    assert_eq!(
        message("a/b c"),
        "service name contains invalid character '/'; allowed: letters, digits, '-', '_', '.'"
    );
    assert_eq!(
        message("a\nb"),
        "service name contains invalid character '\\n'; allowed: letters, digits, '-', '_', '.'"
    );
    assert_eq!(
        check_service_name("aé"),
        Err(ServiceNameError::BadCharacter('é'))
    );
    assert_eq!(
        ServiceNameError::BadCharacter('x').message("<x>"),
        "service name contains invalid character <x>; allowed: letters, digits, '-', '_', '.'"
    );
}

#[test]
fn a_new_definition_has_a_random_identity_and_a_date() {
    let one = service("api");
    let two = service("api");
    assert_eq!(one.id.len(), 32);
    assert!(one.id.chars().all(|c| matches!(c, '0'..='9' | 'a'..='f')));
    assert_eq!(one.id.as_bytes()[12], b'4');
    assert_ne!(one.id, two.id);
    assert_eq!(one.address_id(), one.id);
    assert!(one.created_at > 1_600_000_000);
    assert!(!one.bind_ip);
}

#[test]
fn an_identity_is_written_in_hexadecimal() {
    let uuid = [
        0x00, 0x01, 0x0f, 0x10, 0xab, 0xff, 0x4c, 0x0d, 0x80, 9, 0xa, 0xb, 0xc, 0xd, 0xe, 0xf0,
    ];
    let made = ServiceDefinition::with_identity(
        "n".to_string(),
        uuid,
        Some(7),
        words(&["x"]),
        Some("/srv".to_string()),
        RestartPolicy::Always,
    );
    assert_eq!(made.id, "00010f10abff4c0d80090a0b0c0d0ef0");
    assert_eq!(made.created_at, 7);
    assert_eq!(made.cwd, Some("/srv".to_string()));
    assert_eq!(made.restart, RestartPolicy::Always);
    let undated = ServiceDefinition::with_identity(
        "n".to_string(),
        uuid,
        None,
        words(&["x"]),
        None,
        RestartPolicy::No,
    );
    assert_eq!(undated.created_at, 0);
}

fn file(file_name: &str, content: Result<ServiceDefinition, String>) -> DefinitionFile {
    DefinitionFile {
        file_name: file_name.to_string(),
        content,
    }
}

#[test]
fn save_load_list_remove_roundtrip() {
    let registry = ServiceRegistry::in_config_dir("/home/u/.config/zellij");
    assert_eq!(registry.dir(), "/home/u/.config/zellij/services");
    let api = ServiceDefinition::new(
        "api".to_string(),
        words(&["./start-api.sh", "--port", "8080"]),
        Some("/srv/api".to_string()),
        RestartPolicy::OnFailure,
    );
    let bot = ServiceDefinition::new(
        "bot".to_string(),
        words(&["python", "bot.py"]),
        None,
        RestartPolicy::Always,
    );
    let plan = registry.save(&api).unwrap();
    assert_eq!(plan.dir, "/home/u/.config/zellij/services");
    assert_eq!(plan.tmp, "/home/u/.config/zellij/services/.api.json.tmp");
    assert_eq!(plan.path, "/home/u/.config/zellij/services/api.json");
    assert_eq!(registry.load("api").unwrap(), plan.path);
    assert_eq!(registry.remove("api").unwrap(), plan.path);
    assert_eq!(registry.file_for("api"), plan.path);

    let listing = registry.list(vec![
        file("bot.json", Ok(bot.clone())),
        file(".api.json.tmp", Ok(api.clone())),
        file(".hidden.json", Ok(api.clone())),
        file("readme.txt", Ok(api.clone())),
        file("broken.json", Err("expected value".to_string())),
        file("api.json", Ok(api.clone())),
    ]);
    let names: Vec<_> = listing.services.iter().map(|s| s.name.clone()).collect();
    assert_eq!(names, vec!["api".to_string(), "bot".to_string()]);
    assert_eq!(listing.services[0], api);
    assert_eq!(
        listing.skipped,
        vec![
            "Skipping unreadable service definition /home/u/.config/zellij/services/broken.json: expected value"
                .to_string()
        ]
    );
}

#[test]
fn an_invalid_service_is_not_saved() {
    let registry = ServiceRegistry::at("/s".to_string());
    let mut bad = service("x");
    bad.name = "-x".to_string();
    assert_eq!(
        registry.save(&bad),
        Err("service name cannot start with '.' or '-'".to_string())
    );
    assert!(registry.remove("a b").is_err());
}

#[test]
fn services_of_one_name_stay_in_order() {
    let registry = ServiceRegistry::at("/s".to_string());
    let first = service("a");
    let second = service("a");
    let other = service("Z");
    let listing = registry.list(vec![
        file("2.json", Ok(first.clone())),
        file("1.json", Ok(second.clone())),
        file("0.json", Ok(other.clone())),
    ]);
    assert_eq!(listing.services, vec![other, first, second]);
}

#[test]
fn only_visible_json_files_are_definitions() {
    assert!(is_definition_file("api.json"));
    assert!(is_definition_file("a.b.json"));
    assert!(!is_definition_file(".json"));
    assert!(!is_definition_file(".api.json"));
    assert!(!is_definition_file("api.json.tmp"));
    assert!(!is_definition_file("json"));
    assert!(!is_definition_file(""));
}

#[test]
fn a_missing_file_is_no_error() {
    let api = service("api");
    assert_eq!(
        ServiceRegistry::loaded::<String>(FileAnswer::Done(Ok(api.clone()))),
        Ok(Some(api.clone()))
    );
    assert_eq!(
        ServiceRegistry::loaded::<String>(FileAnswer::Missing),
        Ok(None)
    );
    assert_eq!(
        ServiceRegistry::loaded(FileAnswer::Done(Err("not json".to_string()))),
        Err("not json".to_string())
    );
    assert_eq!(
        ServiceRegistry::loaded(FileAnswer::Failed("denied".to_string())),
        Err("denied".to_string())
    );
    // removing it twice
    assert_eq!(removal::<String>(FileAnswer::Done(())), Ok(true));
    assert_eq!(removal::<String>(FileAnswer::Missing), Ok(false));
    assert_eq!(
        removal(FileAnswer::Failed("denied".to_string())),
        Err("denied".to_string())
    );
    assert_eq!(if_present::<u8, String>(FileAnswer::Done(1)), Ok(Some(1)));

    let registry = ServiceRegistry::at("/s".to_string());
    let files = vec![file("api.json", Ok(api.clone()))];
    let listing = registry.list_dir::<String>(FileAnswer::Done(files));
    assert_eq!(listing.unwrap().services, vec![api]);
    let empty = registry.list_dir::<String>(FileAnswer::Missing).unwrap();
    assert!(empty.services.is_empty() && empty.skipped.is_empty());
    assert_eq!(
        registry.list_dir(FileAnswer::Failed("denied".to_string())),
        Err("denied".to_string())
    );
}
