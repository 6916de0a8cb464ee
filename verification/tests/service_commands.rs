use gezellij::cgroups::FreezeSummary;
use gezellij::command::RestartPolicy;
use gezellij::net::{bind_url, service_address, NetExportFormat, UlaPrefix};
use gezellij::service_commands::{
    attach_opts, cache_warning, check_new_service, choose_config_dir, cwd_failed, default_restart,
    define_service,
    dump_failed, export_bind_env, foreground_exit_status, list_services, load_or_fail, log_lines,
    logs_failed, net_export, net_setup, own_address, prefix_failed, prefix_for_listing, print_logs,
    removed, require_prefix, require_running, require_valid_name, run_service_command,
    run_service_in_foreground, running_in_foreground, saved, server_start_step, service_pane_id,
    service_status, start_service, started, stop_service, systemd_env, unit_installed, AddRequest,
    LogPlan, Operation, ServerStart, ServiceCommand, ServiceStatus, StartPlan, NOTHING_EXPORTED,
    NO_SERVICES,
};
use gezellij::path::FileAnswer;
use gezellij::services::ServiceDefinition;
use gezellij::time::Duration;

fn text(s: &str) -> String {
    s.to_string()
}

fn texts(list: &[&str]) -> Vec<String> {
    list.iter().map(|w| w.to_string()).collect()
}

fn service(name: &str) -> ServiceDefinition {
    let mut made =
        ServiceDefinition::new(text(name), texts(&["run", "it"]), None, RestartPolicy::Always);
    made.id = text("1f0c8a1d");
    made
}

fn prefix() -> UlaPrefix {
    UlaPrefix::from_str("fd49:2e1c:b7a::/64").unwrap()
}

#[test]
fn a_list_of_no_services_says_how_to_add_one() {
    assert_eq!(list_services(&None, &vec![], &vec![], false), NO_SERVICES);
}

#[test]
fn the_table_of_services_is_aligned_and_coloured() {
    let mut api = service("api");
    api.cwd = Some(text("/srv/api"));
    let mut long = service("a-long-name");
    long.restart = RestartPolicy::OnFailure;
    long.command = texts(&["sh", "-c", "echo hi"]);
    let list = vec![api, long];
    let statuses = vec![ServiceStatus::Running, ServiceStatus::PartlyFrozen];
    let expected = format!(
        "{:<11}  {:<13}  {:<10}  {:<7}  {:<8}  {}\n{:<11}  \u{1b}[32m{:<13}\u{1b}[0m  {:<10}  {:<7}  {:<8}  {}\n{:<11}  \u{1b}[36m{:<13}\u{1b}[0m  {:<10}  {:<7}  {:<8}  {}\n",
        "NAME", "STATUS", "RESTART", "ADDRESS", "CWD", "COMMAND",
        "api", "running", "always", "-", "/srv/api", "run it",
        "a-long-name", "partly frozen", "on-failure", "-", "-", "sh -c \"echo hi\"",
    );
    assert_eq!(list_services(&Some(prefix()), &list, &statuses, false), expected);
    assert_eq!(
        list_services(&None, &list, &vec![ServiceStatus::Frozen, ServiceStatus::Stopped], true),
        "NAME  STATUS  RESTART  ADDRESS  CWD  COMMAND\napi  frozen  always  -  /srv/api  run it\na-long-name  stopped  on-failure  -  -  sh -c \"echo hi\"\n"
    );
}

#[test]
fn the_table_shows_addresses_where_there_is_a_prefix() {
    let mut bound = service("api");
    bound.bind_ip = true;
    let address = service_address(&prefix(), "1f0c8a1d").to_string();
    let list = vec![bound];
    let statuses = vec![ServiceStatus::Stopped];
    assert!(list_services(&Some(prefix()), &list, &statuses, true)
        .ends_with(&format!("api  stopped  always  [{}]:8080  -  run it\n", address)));
    assert!(list_services(&None, &list, &statuses, true)
        .ends_with("api  stopped  always  -  -  run it\n"));
}

#[test]
fn the_status_tells_frozen_services() {
    let panes = |total: usize, frozen: usize| Some(FreezeSummary { total, frozen });
    assert_eq!(service_status(false, panes(1, 1)), ServiceStatus::Stopped);
    assert_eq!(service_status(true, None), ServiceStatus::Running);
    assert_eq!(service_status(true, panes(0, 0)), ServiceStatus::Running);
    assert_eq!(service_status(true, panes(2, 0)), ServiceStatus::Running);
    assert_eq!(service_status(true, panes(2, 1)), ServiceStatus::PartlyFrozen);
    assert_eq!(service_status(true, panes(2, 2)), ServiceStatus::Frozen);
    assert_eq!(ServiceStatus::PartlyFrozen.as_str(), "partly frozen");
}

#[test]
fn the_config_dir_is_the_named_one_first() {
    assert_eq!(choose_config_dir(Some(text("/a")), Some(text("/b"))), Ok(text("/a")));
    assert_eq!(choose_config_dir(None, Some(text("/b"))), Ok(text("/b")));
    assert_eq!(
        choose_config_dir(None, None),
        Err(text("Could not determine the Zellij config directory; pass --config-dir explicitly"))
    );
}

#[test]
fn a_service_is_looked_up_by_a_valid_name() {
    assert_eq!(load_or_fail("api", Ok(Some(service("api")))).unwrap().name, "api");
    assert_eq!(
        load_or_fail("api", Ok(None)).unwrap_err(),
        "No service named 'api'. Define one with: zellij service add --name api -- <command>"
    );
    assert_eq!(
        load_or_fail("api", Err(text("denied"))).unwrap_err(),
        "Could not read the definition of 'api': denied"
    );
    assert_eq!(
        load_or_fail("a b", Ok(Some(service("a b")))).unwrap_err(),
        "Invalid service name: service name contains invalid character ' '; allowed: letters, digits, '-', '_', '.'"
    );
    assert_eq!(
        require_valid_name(""),
        Err(text("Invalid service name: service name cannot be empty"))
    );
    assert_eq!(require_valid_name("x"), Ok(()));
    assert_eq!(require_running("api", true), Ok(()));
    assert_eq!(
        require_running("api", false),
        Err(text("Service 'api' is not running; start it with: zellij service start api"))
    );
}

#[test]
fn a_bound_service_is_told_its_address() {
    let mut bound = service("api");
    assert!(export_bind_env(&prefix(), &bound).is_none());
    assert_eq!(own_address(&prefix(), &bound), "");
    bound.bind_ip = true;
    let env = export_bind_env(&prefix(), &bound).unwrap();
    let ip = service_address(&prefix(), "1f0c8a1d").to_string();
    assert_eq!(env.address.ip().to_string(), ip);
    let vars: Vec<(&str, &str)> =
        env.vars.iter().map(|v| (v.name.as_str(), v.value.as_str())).collect();
    let url = format!("http://[{}]:8080", ip);
    assert_eq!(
        vars,
        vec![
            ("GEZELLIJ_BIND_ADDR", ip.as_str()),
            ("GEZELLIJ_BIND_PORT", "8080"),
            ("GEZELLIJ_BIND_URL", url.as_str()),
        ]
    );
    assert!(env.unrouted_warning.starts_with(&format!(
        "Warning: fd49:2e1c:b7a::/64 is not routed on this machine yet, so service 'api' cannot bind {}.\n",
        ip
    )));
    assert_eq!(
        own_address(&prefix(), &bound),
        format!("  own address: [{}]:8080 (GEZELLIJ_BIND_URL={})\n", ip, url)
    );
    assert_eq!(
        started(&bound, Some(env.address)),
        format!(
            "Started service 'api' in background session svc-api (restart: always)\n  listening on {}\n",
            bind_url(&env.address)
        )
    );
}

#[test]
fn starting_makes_a_background_session() {
    let mut api = service("api");
    api.cwd = Some(text("/srv"));
    match start_service(&api, false) {
        StartPlan::Start { session, cwd, request } => {
            assert_eq!(session, "svc-api");
            assert_eq!(cwd, Some(text("/srv")));
            assert_eq!(request.session_name, "svc-api");
            assert!(request.create_background);
            assert_eq!(request.initial_command, texts(&["run", "it"]));
            assert_eq!(request.restart, Some(RestartPolicy::Always));
        },
        other => panic!("unexpected plan {:?}", other),
    }
    match start_service(&api, true) {
        StartPlan::AlreadyRunning(line) => {
            assert_eq!(line, "Service 'api' is already running (session svc-api)\n")
        },
        other => panic!("unexpected plan {:?}", other),
    }
    let request = attach_opts(text("svc-api"), None);
    assert!(!request.create_background);
    assert!(request.initial_command.is_empty());
    assert_eq!(request.restart, None);
    assert_eq!(
        started(&api, None),
        "Started service 'api' in background session svc-api (restart: always)\n"
    );
    assert_eq!(
        cwd_failed("/srv", "api", "gone"),
        "Could not enter the working directory /srv of service 'api': gone"
    );
}

#[test]
fn stopping_kills_only_what_runs() {
    let plan = stop_service(&service("api"), true);
    assert_eq!(
        (plan.session.as_str(), plan.kill, plan.line.as_str()),
        ("svc-api", true, "Stopped service 'api' (session svc-api)\n")
    );
    let plan = stop_service(&service("api"), false);
    assert_eq!(
        (plan.session.as_str(), plan.kill, plan.line.as_str()),
        ("svc-api", false, "Service 'api' is not running\n")
    );
    assert_eq!(removed("api", Ok(true)), Ok(text("Removed service 'api'\n")));
    assert_eq!(
        removed("api", Ok(false)),
        Ok(text("Service 'api' had no definition to remove\n"))
    );
    assert_eq!(
        removed("api", Err(text("denied"))),
        Err(text("Could not remove service 'api': denied"))
    );
    assert_eq!(
        cache_warning("svc-api", FileAnswer::Failed(text("denied"))).unwrap(),
        "Warning: could not clear the saved layout of session 'svc-api': denied"
    );
    assert_eq!(cache_warning("svc-api", FileAnswer::Missing), None);
    assert_eq!(cache_warning("svc-api", FileAnswer::Done(())), None);
}

#[test]
fn a_foreground_service_has_its_own_server() {
    let plan = run_service_in_foreground(&service("api"), false, "/run/z", true).unwrap();
    assert_eq!(plan.session, "svc-api");
    assert_eq!(plan.cwd, None);
    assert_eq!(plan.socket_path, "/run/z/svc-api");
    assert_eq!(
        plan.server_args,
        texts(&["--server", "/run/z/svc-api", "--server-foreground", "--debug"])
    );
    let plan = run_service_in_foreground(&service("api"), false, "/run/z", false).unwrap();
    assert_eq!(plan.server_args.len(), 3);
    assert_eq!(
        run_service_in_foreground(&service("api"), true, "/run/z", false).unwrap_err(),
        "Service 'api' is already running (session svc-api); stop it first if a supervisor should own it"
    );
    assert_eq!(
        running_in_foreground(&service("api"), 42, None),
        "Running service 'api' in the foreground (session svc-api, restart: always); the session server is pid 42\n"
    );
    assert_eq!(foreground_exit_status(Some(0)), 0);
    assert_eq!(foreground_exit_status(Some(7)), 7);
    assert_eq!(foreground_exit_status(None), 1);
}

#[test]
fn the_server_is_waited_for() {
    let at = Duration::from_secs;
    assert_eq!(server_start_step(true, &Some(text("x")), at(99)), ServerStart::Ready);
    assert_eq!(
        server_start_step(false, &Some(text("exit status: 1")), at(0)),
        ServerStart::Exited(text(
            "The session server exited before it was ready (status exit status: 1)"
        ))
    );
    assert_eq!(server_start_step(false, &None, at(15)), ServerStart::Again);
    assert_eq!(
        server_start_step(false, &None, Duration::new(15, 1)),
        ServerStart::TimedOut(text("Timed out waiting for the session server to start"))
    );
}

#[test]
fn the_output_of_a_service_is_that_of_its_first_pane() {
    assert_eq!(
        service_pane_id("CLIENT_ID ZELLIJ_PANE_ID RUNNING_COMMAND\n1 plugin_2 x\n2 terminal_7 y terminal_8\n"),
        Some(text("terminal_7"))
    );
    assert_eq!(service_pane_id("CLIENT_ID"), None);
    let api = service("api");
    assert_eq!(
        print_logs(&api, true, Some(text("terminal_7")), Some(3), true, "/tmp", 9),
        Ok(LogPlan::Follow {
            session: text("svc-api"),
            pane_id: text("terminal_7"),
            scrollback: 3
        })
    );
    assert_eq!(
        print_logs(&api, true, None, None, true, "/tmp", 9),
        Ok(LogPlan::Follow {
            session: text("svc-api"),
            pane_id: text("terminal_0"),
            scrollback: 0
        })
    );
    assert_eq!(
        print_logs(&api, true, None, None, false, "/tmp", 9),
        Ok(LogPlan::Dump {
            session: text("svc-api"),
            file_name: text("/tmp/gezellij-logs-api-9.txt"),
            args: texts(&[
                "--session",
                "svc-api",
                "action",
                "dump-screen",
                "--full",
                "--pane-id",
                "terminal_0",
                "--path",
                "/tmp/gezellij-logs-api-9.txt",
            ])
        })
    );
    assert_eq!(
        print_logs(&api, false, None, None, false, "/tmp", 9),
        Err(text("Service 'api' is not running; start it with: zellij service start api"))
    );
    assert_eq!(
        logs_failed("api", "gone"),
        "Could not read the output of service 'api': gone"
    );
    assert_eq!(
        dump_failed("api", "exit status: 1"),
        "Could not read the output of service 'api' (dump-screen exited with exit status: 1)"
    );
}

#[test]
fn blank_lines_at_the_end_are_no_output() {
    let dump = "one\n\n  two\n \t\n\n";
    assert_eq!(log_lines(dump, None), texts(&["one", "", "  two"]));
    assert_eq!(log_lines(dump, Some(2)), texts(&["", "  two"]));
    assert_eq!(log_lines(dump, Some(0)), texts(&[]));
    assert_eq!(log_lines(dump, Some(99)), texts(&["one", "", "  two"]));
    assert_eq!(log_lines("\n\n", None), texts(&[]));
}

fn add_request() -> AddRequest {
    AddRequest {
        name: text("api"),
        restart: RestartPolicy::OnFailure,
        cwd: Some(text("sub")),
        no_start: false,
        force: false,
        bind_ip: true,
        command: texts(&["./run"]),
    }
}

#[test]
fn a_new_service_is_defined_from_where_the_user_is() {
    let made = define_service(&add_request(), "/home/u");
    assert_eq!(made.name, "api");
    assert_eq!(made.cwd, Some(text("/home/u/sub")));
    assert_eq!(made.command, texts(&["./run"]));
    assert_eq!(made.restart, RestartPolicy::OnFailure);
    assert!(made.bind_ip);
    let mut request = add_request();
    request.cwd = None;
    assert_eq!(define_service(&request, "/home/u").cwd, Some(text("/home/u")));
    request.cwd = Some(text("/srv"));
    assert_eq!(define_service(&request, "/home/u").cwd, Some(text("/srv")));

    assert_eq!(default_restart(), RestartPolicy::OnFailure);
    assert_eq!(check_new_service("api", false, false), Ok(()));
    assert_eq!(check_new_service("api", true, true), Ok(()));
    assert_eq!(
        check_new_service("api", true, false),
        Err(text("service 'api' already exists (use --force to overwrite)"))
    );
    assert!(check_new_service("-", false, true).is_err());
    assert_eq!(saved("api", Ok(text("/x"))), Ok(text("Saved service 'api' -> /x\n")));
    assert_eq!(
        saved("api", Err(text("full"))),
        Err(text("Could not save service 'api': full"))
    );
}

#[test]
fn the_setup_tells_whether_the_prefix_is_routed() {
    let yes = net_setup(&prefix(), "/c", true);
    assert_eq!(
        yes,
        "Prefix:  fd49:2e1c:b7a::/64\nStored:  /c/network.json\nPort:    8080 (the same for every service)\nRouted:  yes - services can bind their own address right now\n\n    sudo ip -6 route add local fd49:2e1c:b7a::/64 dev lo    # already done\n"
    );
    let no = net_setup(&prefix(), "/c", false);
    assert!(no.contains("\nRouted:  no - run the command below once, as root\n\n"));
    assert!(no.ends_with(&gezellij::net::setup_instructions(&prefix())));
    assert_eq!(
        prefix_failed("/c", "bad"),
        "Could not read or create the loopback IPv6 prefix in /c: bad"
    );
}

#[test]
fn an_export_holds_the_services_with_an_address() {
    let mut bound = service("api");
    bound.bind_ip = true;
    let ip = service_address(&prefix(), "1f0c8a1d").to_string();
    let list = vec![service("other"), bound];
    let hosts = net_export(&prefix(), &list, NetExportFormat::Hosts);
    assert_eq!(hosts.stdout, format!("{}\tapi.localhost\n", ip));
    assert_eq!(hosts.warning, None);
    let caddy = net_export(&prefix(), &list, NetExportFormat::Caddy);
    assert_eq!(
        caddy.stdout,
        format!("api.localhost {{\n\treverse_proxy [{}]:8080\n}}\n", ip)
    );
    let nothing = net_export(&prefix(), &vec![service("other")], NetExportFormat::Hosts);
    assert_eq!(nothing.stdout, "");
    assert_eq!(nothing.warning, Some(text(NOTHING_EXPORTED)));
}

#[test]
fn reading_a_prefix_never_makes_one() {
    assert_eq!(require_prefix(Ok(Some(prefix()))), Ok(prefix()));
    assert_eq!(
        require_prefix(Ok(None)),
        Err(text("No loopback IPv6 prefix has been generated yet; run: zellij service net-setup"))
    );
    assert_eq!(
        require_prefix(Err(text("bad"))),
        Err(text("Could not read the loopback IPv6 prefix: bad"))
    );
    assert_eq!(prefix_for_listing(Ok(None)), (None, None));
    assert_eq!(prefix_for_listing(Ok(Some(prefix()))), (Some(prefix()), None));
    assert_eq!(
        prefix_for_listing(Err(text("bad"))),
        (
            None,
            Some(text("Warning: could not read the loopback IPv6 prefix: bad\n"))
        )
    );
}

#[test]
fn a_unit_hands_on_what_the_user_said() {
    assert!(systemd_env(None, None).is_empty());
    let vars = systemd_env(Some(text("/s")), Some(text("/c")));
    assert_eq!(
        vars.iter().map(|v| (v.name.as_str(), v.value.as_str())).collect::<Vec<_>>(),
        vec![("ZELLIJ_SOCKET_DIR", "/s"), ("ZELLIJ_CONFIG_DIR", "/c")]
    );
    assert_eq!(
        unit_installed("/u/x.service", "x.service"),
        "Wrote /u/x.service\nEnable it with: systemctl --user daemon-reload && systemctl --user enable --now x.service\n"
    );
}

#[test]
fn a_command_takes_its_operations_in_order() {
    assert_eq!(
        run_service_command(&ServiceCommand::Add(add_request())),
        vec![
            Operation::CheckNewName,
            Operation::Save,
            Operation::TellAddress,
            Operation::Start
        ]
    );
    let mut quiet = add_request();
    quiet.bind_ip = false;
    quiet.no_start = true;
    assert_eq!(
        run_service_command(&ServiceCommand::Add(quiet)),
        vec![Operation::CheckNewName, Operation::Save]
    );
    assert_eq!(
        run_service_command(&ServiceCommand::Remove { name: text("x") }),
        vec![Operation::Load, Operation::Stop, Operation::RemoveDefinition]
    );
    assert_eq!(
        run_service_command(&ServiceCommand::NetExport {
            only: None,
            format: NetExportFormat::Caddy
        }),
        vec![Operation::RequirePrefix, Operation::LoadAll, Operation::NetExport]
    );
    assert_eq!(
        run_service_command(&ServiceCommand::NetExport {
            only: Some(text("x")),
            format: NetExportFormat::Caddy
        }),
        vec![Operation::RequirePrefix, Operation::Load, Operation::NetExport]
    );
    assert_eq!(
        run_service_command(&ServiceCommand::Thaw { name: text("x") }),
        vec![Operation::Load, Operation::RequireRunning, Operation::Thaw]
    );
}
