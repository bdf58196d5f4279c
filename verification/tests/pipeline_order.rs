use deploy::config::Config;
use deploy::config::PathsConfig;
use deploy::config::SshConfig;
use deploy::errors::DeployError;
use deploy::pipeline::DeployPipeline;
use deploy::pipeline::DeployStep;
use deploy::pipeline::apps_archive_name;
use deploy::pipeline::cfg_archive_name;
use deploy::pipeline::extract_command;
use deploy::pipeline::post_deploy_shutdown;
use deploy::pipeline::remote_archive_path;
use deploy::pipeline::simulate_deploy;

fn sample_config(shutdown: Option<&str>) -> Config {
    Config {
        ssh: SshConfig {
            host: "example.net".to_string(),
            port: 22,
            username: "deployer".to_string(),
            password: "SECRET-REDACTED".to_string(),
            timeout_secs: Some(30),
        },
        paths: PathsConfig {
            local_apps: "/local/apps".to_string(),
            local_cfg_home: "/local/cfgHome".to_string(),
            remote_apps: "/srv/apps".to_string(),
            remote_cfg_home: "/srv/cfgHome".to_string(),
            file_target_dir: "/watch".to_string(),
        },
        shutdown_cmd: shutdown.map(|s| s.to_string()),
        startup_cmd: None,
        showlog_cmd: None,
    }
}

#[test]
fn a_failed_first_extraction_prevents_the_second() {
    // Steps 0..3 succeed, step 4 (extract apps) fails.
    let outcomes = vec![true, true, true, true, false, true, true];
    let (issued, ok) = simulate_deploy(&outcomes);
    assert!(!ok);
    assert_eq!(
        issued,
        vec![
            DeployStep::ArchiveApps,
            DeployStep::ArchiveCfgHome,
            DeployStep::UploadApps,
            DeployStep::UploadCfgHome,
            DeployStep::ExtractApps,
        ]
    );
    assert!(!issued.contains(&DeployStep::ExtractCfgHome));
}

#[test]
fn the_machine_halts_after_a_fatal_failure() {
    let mut p = DeployPipeline::new();
    // Archive, archive, upload, upload all succeed.
    for _ in 0..4 {
        assert!(p.next_step().is_some());
        p.report(Ok(()));
    }
    assert_eq!(p.next_step(), Some(DeployStep::ExtractApps));
    p.report(Err(DeployError::RemoteExec {
        status: 2,
        command: "cd /srv/apps && tar -xzvf apps.tar.gz && rm -f apps.tar.gz".to_string(),
        stderr: String::new(),
    }));
    // No further step is ever issued: the second extraction never runs.
    assert_eq!(p.next_step(), None);
    assert!(p.aborted().is_some());
}

#[test]
fn a_cleanup_failure_is_ignored() {
    let outcomes = vec![true, true, true, true, true, true, false];
    let (issued, ok) = simulate_deploy(&outcomes);
    assert!(ok);
    assert_eq!(issued.len(), 7);
}

#[test]
fn all_steps_run_in_order_on_success() {
    let outcomes = vec![true; 7];
    let (issued, ok) = simulate_deploy(&outcomes);
    assert!(ok);
    assert_eq!(
        issued,
        vec![
            DeployStep::ArchiveApps,
            DeployStep::ArchiveCfgHome,
            DeployStep::UploadApps,
            DeployStep::UploadCfgHome,
            DeployStep::ExtractApps,
            DeployStep::ExtractCfgHome,
            DeployStep::CleanupLocal,
        ]
    );
}

#[test]
fn a_missing_outcome_counts_as_a_failure() {
    // Only the first two steps have outcomes; the third stops the run.
    let (issued, ok) = simulate_deploy(&vec![true, true]);
    assert!(!ok);
    assert_eq!(
        issued,
        vec![
            DeployStep::ArchiveApps,
            DeployStep::ArchiveCfgHome,
            DeployStep::UploadApps,
        ]
    );
}

#[test]
fn the_remote_texts_are_exact() {
    assert_eq!(apps_archive_name(), "apps.tar.gz");
    assert_eq!(cfg_archive_name(), "cfgHome.tar.gz");
    assert_eq!(
        remote_archive_path(&"/srv/apps".to_string(), apps_archive_name()),
        "/srv/apps/apps.tar.gz"
    );
    assert_eq!(
        extract_command(&"/srv/apps".to_string(), "apps.tar.gz"),
        "cd /srv/apps && tar -xzvf apps.tar.gz && rm -f apps.tar.gz"
    );
    assert_eq!(
        extract_command(&"/srv/cfgHome".to_string(), "cfgHome.tar.gz"),
        "cd /srv/cfgHome && tar -xzvf cfgHome.tar.gz && rm -f cfgHome.tar.gz"
    );
}

#[test]
fn the_plain_deploy_runs_shutdown_only_when_configured() {
    let with = sample_config(Some("stop.sh"));
    assert_eq!(post_deploy_shutdown(&with), Some("sh stop.sh".to_string()));
    let blankish = sample_config(Some("   "));
    assert_eq!(post_deploy_shutdown(&blankish), None);
    let without = sample_config(None);
    assert_eq!(post_deploy_shutdown(&without), None);
}
