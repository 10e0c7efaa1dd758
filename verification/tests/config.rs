use argv_podman_manager::auto_restart::{
    choose_config, config_sources, ConfigChoice, ConfigFile,
    config_path, legacy_config_path, service_compose_path, start_outcome, temporary_config_path,
    validate_service_name, AutoRestartConfig,
};
use argv_podman_manager::boot::{BootAction, BootEvent, BootRun};
use argv_podman_manager::cli::{command_mode, CommandKind};
use argv_podman_manager::config::{binding_key, default_auto_restart_key};
use argv_podman_manager::systemd::{install_commands, escape_unit_value, render_unit, service_user, validate_user};

#[test]
fn toggling_selected_service_twice_disables_it() {
    let mut config = AutoRestartConfig::default();
    config.toggle("redis");

    let enabled = config.toggle("redis");

    assert!(!enabled);
}

#[test]
fn validation_rejects_service_name_path_traversal() {
    let error = validate_service_name("../redis").unwrap_err();

    assert!(error.contains("invalid auto-restart service name"));
}

#[test]
fn selection_is_kept_sorted() {
    let mut config = AutoRestartConfig::default();
    assert!(config.toggle("redis"));
    assert!(config.toggle("mysql"));
    assert_eq!(config.services(), vec!["mysql".to_string(), "redis".to_string()]);
    assert!(config.contains("redis"));
    assert_eq!(config.len(), 2);
    let loaded = AutoRestartConfig::from_services(&vec!["redis".to_string(), "mysql".to_string(), "redis".to_string()]);
    assert_eq!(loaded.services(), vec!["mysql".to_string(), "redis".to_string()]);
}

#[test]
fn config_paths_join_the_clone() {
    assert_eq!(config_path("/srv/clone"), "/srv/clone/.argv-podman-manager-autorestart.toml");
    assert_eq!(legacy_config_path("/srv/clone/"), "/srv/clone/.docker-manager-autorestart.toml");
    assert_eq!(temporary_config_path("/srv"), "/srv/.argv-podman-manager-autorestart.toml.tmp");
    assert_eq!(
        service_compose_path("/srv", "redis", &vec![true, false, true, false]),
        Ok("/srv/containers/redis/compose.yml".to_string())
    );
    assert_eq!(
        service_compose_path("/srv", "redis", &vec![false, false, true, false]),
        Ok("/srv/containers/redis/docker-compose.yml".to_string())
    );
    assert_eq!(
        service_compose_path("/srv", "redis", &vec![false, false, false, false]),
        Err("compose file not found: /srv/containers/redis/compose.yml".to_string())
    );
    assert!(validate_service_name("redis").is_ok());
    assert!(validate_service_name("").is_err());
}

#[test]
fn generated_unit_uses_dynamic_absolute_paths() {
    let unit = render_unit(
        "/opt/my tools/argv-docker-manager",
        "/srv/compose clone",
        "alice",
    )
    .unwrap();

    assert_eq!(
        unit,
        "[Unit]\n\
         Description=Start ARGV Docker Manager selected projects\n\
         Requires=docker.service\n\
         After=docker.service network-online.target\n\
         Wants=network-online.target\n\
         \n\
         [Service]\n\
         Type=oneshot\n\
         User=alice\n\
         WorkingDirectory=/srv/compose clone\n\
         ExecStart=\"/opt/my tools/argv-docker-manager\" --auto-restart \"/srv/compose clone\"\n\
         RemainAfterExit=yes\n\
         \n\
         [Install]\n\
         WantedBy=multi-user.target\n"
    );
}

#[test]
fn generated_unit_escapes_systemd_specifiers() {
    let unit = render_unit("/opt/100%/argv-docker-manager", "/srv/compose", "alice").unwrap();

    assert!(unit.contains("ExecStart=\"/opt/100%%/argv-docker-manager\""));
}

#[test]
fn unit_values_and_users_are_checked() {
    assert_eq!(escape_unit_value("a\"b\\c").unwrap(), "a\\\"b\\\\c");
    assert!(escape_unit_value("a\nb").is_err());
    assert!(validate_user("alice.b-c_d").is_ok());
    assert_eq!(validate_user("al ice").unwrap_err(), "invalid systemd service user: al ice");
    assert_eq!(service_user(Some("root"), Some("bob")), Ok("bob".to_string()));
    assert_eq!(service_user(Some("carol"), Some("bob")), Ok("carol".to_string()));
    assert_eq!(service_user(None, None), Err("USER is not set".to_string()));
}

#[test]
fn bindings_fall_back_when_empty() {
    assert_eq!(binding_key("", 'q'), 'q');
    assert_eq!(binding_key("xy", 'q'), 'x');
    assert_eq!(default_auto_restart_key(), "a");
}

#[test]
fn command_line_modes() {
    assert_eq!(command_mode(None, 0), Ok(CommandKind::Tui));
    assert_eq!(command_mode(Some(Some("--auto-restart")), 1), Ok(CommandKind::AutoRestart));
    assert_eq!(
        command_mode(Some(Some("--auto-restart")), 0),
        Err("--auto-restart requires a project root path".to_string())
    );
    assert_eq!(command_mode(Some(Some("--remove-auto-restart")), 1), Err("--remove-auto-restart takes no arguments".to_string()));
    assert_eq!(command_mode(Some(Some("--x")), 0), Err("unknown argument: --x".to_string()));
    assert_eq!(command_mode(Some(None), 0), Err("command argument is not valid UTF-8".to_string()));
}

#[test]
fn service_names_accept_unicode_letters() {
    assert!(validate_service_name("café_2").is_ok());
    assert!(validate_service_name("a b").is_err());
}

#[test]
fn toggles_leave_selected_the_names_toggled_an_odd_number_of_times() {
    let mut config = AutoRestartConfig::default();
    for name in ["redis", "mysql", "redis", "web", "redis", "mysql"] {
        config.toggle(name);
    }
    assert!(config.contains("redis"));
    assert!(!config.contains("mysql"));
    assert!(config.contains("web"));
    assert!(!config.contains("mailpit"));
}

#[test]
fn start_failures_are_joined_into_one_error() {
    assert_eq!(start_outcome(&vec![]), Ok(()));
    assert_eq!(
        start_outcome(&vec!["a failed".to_string(), "b failed".to_string()]),
        Err("a failed; b failed".to_string())
    );
}

#[test]
fn installer_copies_reloads_and_enables_without_starting() {
    let commands = install_commands("/tmp/unit", "/etc/systemd/system/argv-podman-manager-autorestart.service");
    let plain: Vec<(String, Vec<String>)> =
        commands.into_iter().map(|c| (c.program, c.args)).collect();
    assert_eq!(
        plain,
        vec![
            (
                "install".to_string(),
                vec![
                    "-m".to_string(),
                    "0644".to_string(),
                    "/tmp/unit".to_string(),
                    "/etc/systemd/system/argv-podman-manager-autorestart.service".to_string(),
                ],
            ),
            ("systemctl".to_string(), vec!["daemon-reload".to_string()]),
            (
                "systemctl".to_string(),
                vec!["enable".to_string(), "argv-podman-manager-autorestart.service".to_string()],
            ),
        ]
    );
}

#[test]
fn current_selection_file_wins_and_earlier_ones_are_read_only_when_newer_are_missing() {
    let found = |t: &str| ConfigFile::Found(t.to_string());
    let c = choose_config(&vec![found("services = []")]);
    assert!(matches!(c, ConfigChoice::Parse { ref text, source: 0 } if text == "services = []"));
    assert!(matches!(choose_config(&vec![]), ConfigChoice::ReadNext));
    assert!(matches!(choose_config(&vec![ConfigFile::Missing]), ConfigChoice::ReadNext));
    let c = choose_config(&vec![ConfigFile::Missing, found("x")]);
    assert!(matches!(c, ConfigChoice::Parse { ref text, source: 1 } if text == "x"));
    let c = choose_config(&vec![ConfigFile::Missing, ConfigFile::Missing, found("y")]);
    assert!(matches!(c, ConfigChoice::Parse { ref text, source: 2 } if text == "y"));
    assert!(matches!(
        choose_config(&vec![ConfigFile::Missing, ConfigFile::Missing, ConfigFile::Missing]),
        ConfigChoice::Empty
    ));
    assert!(matches!(
        choose_config(&vec![ConfigFile::Missing, ConfigFile::Unreadable]),
        ConfigChoice::Fail { source: 1 }
    ));
    assert!(matches!(choose_config(&vec![ConfigFile::Unreadable]), ConfigChoice::Fail { source: 0 }));
    assert_eq!(
        config_sources("/srv"),
        vec![
            "/srv/.argv-podman-manager-autorestart.toml".to_string(),
            "/srv/.argv-docker-manager-autorestart.toml".to_string(),
            "/srv/.docker-manager-autorestart.toml".to_string(),
        ]
    );
}

fn selection(names: &[&str]) -> AutoRestartConfig {
    let mut config = AutoRestartConfig::default();
    for name in names {
        config.toggle(name);
    }
    config
}

#[test]
fn boot_run_with_nothing_selected_ends_at_once() {
    let (_, action) = BootRun::begin(&AutoRestartConfig::default());
    assert!(matches!(action, BootAction::Done(Ok(()))));
}

#[test]
fn boot_run_waits_then_starts_each_selected_project_in_order() {
    let (mut run, action) = BootRun::begin(&selection(&["redis", "mysql"]));
    assert!(matches!(action, BootAction::Probe));
    assert!(matches!(run.step(BootEvent::Ready(false)), BootAction::Sleep(2000)));
    assert!(matches!(run.step(BootEvent::Slept), BootAction::Probe));
    assert_eq!(run.probes(), 2);
    assert!(matches!(run.step(BootEvent::Ready(true)), BootAction::Start(ref n) if n == "mysql"));
    assert!(matches!(
        run.step(BootEvent::Started(Err("no compose file".to_string()))),
        BootAction::Start(ref n) if n == "redis"
    ));
    assert!(matches!(
        run.step(BootEvent::Started(Ok(()))),
        BootAction::Done(Err(ref m)) if m == "no compose file"
    ));
}

#[test]
fn boot_run_joins_failures_and_succeeds_without_them() {
    let (mut run, _) = BootRun::begin(&selection(&["a", "b"]));
    run.step(BootEvent::Ready(true));
    run.step(BootEvent::Started(Err("x".to_string())));
    assert!(matches!(
        run.step(BootEvent::Started(Err("y".to_string()))),
        BootAction::Done(Err(ref m)) if m == "x; y"
    ));
    let (mut run, _) = BootRun::begin(&selection(&["a"]));
    run.step(BootEvent::Ready(true));
    assert!(matches!(run.step(BootEvent::Started(Ok(()))), BootAction::Done(Ok(()))));
}

#[test]
fn boot_run_gives_up_after_thirty_probes() {
    let (mut run, _) = BootRun::begin(&selection(&["a"]));
    for _ in 1..30 {
        assert!(matches!(run.step(BootEvent::Ready(false)), BootAction::Sleep(2000)));
        assert!(matches!(run.step(BootEvent::Slept), BootAction::Probe));
    }
    assert_eq!(run.probes(), 30);
    assert!(matches!(
        run.step(BootEvent::Ready(false)),
        BootAction::Done(Err(ref m)) if m == "Docker daemon did not become ready after 30 attempts"
    ));
}
