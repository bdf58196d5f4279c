use deploy::config::Config;
use deploy::config::PathsConfig;
use deploy::config::SshConfig;
use deploy::errors::DeployError;
use deploy::restart::RestartStage;
use deploy::restart::RestartWorkflow;
use deploy::restart::resolve_stage_command;
use deploy::restart::simulate_restart;
use deploy::restart::stage_command;

fn sample_config() -> Config {
    Config {
        ssh: SshConfig {
            host: "example.net".to_string(),
            port: 2222,
            username: "deployer".to_string(),
            password: "SECRET-REDACTED".to_string(),
            timeout_secs: None,
        },
        paths: PathsConfig {
            local_apps: "/local/apps".to_string(),
            local_cfg_home: "/local/cfgHome".to_string(),
            remote_apps: "/srv/apps".to_string(),
            remote_cfg_home: "/srv/cfgHome".to_string(),
            file_target_dir: "/watch".to_string(),
        },
        shutdown_cmd: Some("stop.sh --fast".to_string()),
        startup_cmd: None,
        showlog_cmd: Some("   ".to_string()),
    }
}

#[test]
fn a_shutdown_failure_gates_every_later_stage() {
    let outcomes = vec![false, true, true, true];
    let (issued, ok) = simulate_restart(&outcomes);
    assert!(!ok);
    assert_eq!(issued, vec![RestartStage::Shutdown]);
}

#[test]
fn the_machine_halts_after_a_shutdown_failure() {
    let mut w = RestartWorkflow::new();
    assert_eq!(w.next_stage(), Some(RestartStage::Shutdown));
    w.report(Err(DeployError::RemoteExec {
        status: 1,
        command: "sh stop.sh".to_string(),
        stderr: String::new(),
    }));
    assert_eq!(w.next_stage(), None);
    assert!(w.halted().is_some());
}

#[test]
fn a_showlog_failure_does_not_change_the_result() {
    let outcomes = vec![true, true, true, false];
    let (issued, ok) = simulate_restart(&outcomes);
    assert!(ok);
    assert_eq!(
        issued,
        vec![
            RestartStage::Shutdown,
            RestartStage::Redeploy,
            RestartStage::Startup,
            RestartStage::ShowLog,
        ]
    );
    let all_good = simulate_restart(&vec![true, true, true, true]);
    assert_eq!(all_good.1, ok);
}

#[test]
fn a_startup_failure_still_gates_showlog() {
    let outcomes = vec![true, true, false, true];
    let (issued, ok) = simulate_restart(&outcomes);
    assert!(!ok);
    assert_eq!(
        issued,
        vec![RestartStage::Shutdown, RestartStage::Redeploy, RestartStage::Startup]
    );
}

#[test]
fn explicit_commands_run_through_sh() {
    let explicit = "stop.sh --fast".to_string();
    assert_eq!(
        resolve_stage_command(Some(&explicit), "shutdown.sh"),
        "sh stop.sh --fast"
    );
}

#[test]
fn missing_or_blank_commands_fall_back_to_the_login_shell_script() {
    assert_eq!(resolve_stage_command(None, "startup.sh"), "bash -lc startup.sh");
    let blank = "  \t".to_string();
    assert_eq!(
        resolve_stage_command(Some(&blank), "showLogs.sh"),
        "bash -lc showLogs.sh"
    );
}

#[test]
fn each_stage_resolves_its_own_command() {
    let cfg = sample_config();
    assert_eq!(
        stage_command(&cfg, RestartStage::Shutdown),
        Some("sh stop.sh --fast".to_string())
    );
    assert_eq!(stage_command(&cfg, RestartStage::Redeploy), None);
    assert_eq!(
        stage_command(&cfg, RestartStage::Startup),
        Some("bash -lc startup.sh".to_string())
    );
    // A blank override falls back too.
    assert_eq!(
        stage_command(&cfg, RestartStage::ShowLog),
        Some("bash -lc showLogs.sh".to_string())
    );
}
