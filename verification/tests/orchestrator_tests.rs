use log_analyzer::config::{AnalyzerConfig, AnalyzerMapping};
use log_analyzer::discoverer::{DiscovererError, FileInfo};
use log_analyzer::orchestrator::{Outcome, Request, Stage, Step, TransferFailure, WorkflowOrchestrator};
use log_analyzer::remote::{RemoteFileInfo, SshError};
use log_analyzer::workflow::{WorkflowError, WorkflowStep};

fn local_file(name: &str, mtime: u64) -> FileInfo {
    FileInfo { path: format!("./logs/{}", name), name: name.to_string(), size: 1, mtime, is_remote: false }
}

fn arm_mapping() -> AnalyzerMapping {
    AnalyzerMapping {
        name: "arm".to_string(),
        pattern: "arm_decision*.log".to_string(),
        plugin: "arm-decision-analyzer".to_string(),
        description: String::new(),
        enabled: false,
        required: false,
        is_primary: false,
        priority: 5,
        config: None,
    }
}

fn remote_config() -> AnalyzerConfig {
    let mut c = AnalyzerConfig::default();
    c.remote.enabled = true;
    c.remote.log_dir = "/remote".to_string();
    c.local.log_dir = "./logs".to_string();
    c
}

#[test]
fn auto_run_with_remote_off_searches_locally_and_picks_the_plugin() {
    let mut c = AnalyzerConfig::default();
    c.analyzers.push(arm_mapping());
    let o = WorkflowOrchestrator::new(c).unwrap();
    let (run, req) = match o.run_auto() {
        Step::Pending(run, req) => (run, req),
        Step::Done(_) => panic!("expected a request"),
    };
    match &req {
        Request::ListLocal { dir, pattern } => {
            assert_eq!(dir, "./logs");
            assert_eq!(pattern, "master_control_*.log");
        },
        other => panic!("unexpected {:?}", other),
    }
    assert!(matches!(run.result.steps_completed[0], WorkflowStep::DiscoverFiles { .. }));
    let found = Ok(vec![local_file("master_control_1.log", 10), local_file("master_control_2.log", 20)]);
    match o.on_local_listing(run, found) {
        Step::Done(Outcome::Analysis(Ok(r))) => {
            assert!(r.success);
            assert_eq!(r.selected_plugin.as_deref(), Some("master-control-analyzer"));
            assert_eq!(r.analyzed_file.as_deref(), Some("./logs/master_control_2.log"));
            assert!(matches!(&r.steps_completed[1], WorkflowStep::SelectPlugin { file_name } if file_name == "master_control_2.log"));
        },
        other => panic!("unexpected {:?}", other),
    }
}

#[test]
fn auto_run_without_local_files_and_remote_off_finds_nothing() {
    let o = WorkflowOrchestrator::new(AnalyzerConfig::default()).unwrap();
    let Step::Pending(run, _) = o.run_auto() else { panic!() };
    match o.on_local_listing(run, Err(DiscovererError::NoFilesFound)) {
        Step::Done(Outcome::Analysis(Err(WorkflowError::DiscoveryError(DiscovererError::NoFilesFound)))) => {},
        other => panic!("unexpected {:?}", other),
    }
}

#[test]
fn a_file_no_plugin_handles_is_refused() {
    let o = WorkflowOrchestrator::new(AnalyzerConfig::default()).unwrap();
    let Step::Pending(run, _) = o.run_auto() else { panic!() };
    match o.on_local_listing(run, Ok(vec![local_file("other.log", 1)])) {
        Step::Done(Outcome::Analysis(Err(WorkflowError::NoPluginFound))) => {},
        other => panic!("unexpected {:?}", other),
    }
}

#[test]
fn failed_connection_ends_the_auto_run_without_success() {
    let mut o = WorkflowOrchestrator::new(remote_config()).unwrap();
    let Step::Pending(run, Request::Connect) = o.run_auto() else { panic!() };
    assert!(matches!(run.stage, Stage::Connecting));
    match o.on_connected(run, Err("timeout".to_string())) {
        Step::Done(Outcome::Analysis(Ok(r))) => {
            assert!(!r.success);
            assert_eq!(r.errors, vec!["远程连接失败: 连接失败: timeout".to_string()]);
        },
        other => panic!("unexpected {:?}", other),
    }
    assert!(!o.is_connected());
}

#[test]
fn auto_run_falls_back_to_the_remote_newest_file_and_downloads_it() {
    let mut o = WorkflowOrchestrator::new(remote_config()).unwrap();
    let Step::Pending(run, Request::Connect) = o.run_auto() else { panic!() };
    let Step::Pending(run, Request::ListLocal { .. }) = o.on_connected(run, Ok(())) else { panic!() };
    assert!(o.is_connected());
    assert!(matches!(run.result.steps_completed[0], WorkflowStep::ConnectRemote));
    let Step::Pending(run, req) = o.on_local_listing(run, Err(DiscovererError::NoFilesFound)) else { panic!() };
    assert!(matches!(&req, Request::ListRemote { dir, pattern } if dir == "/remote" && pattern == "master_control_*.log"));
    let listed = Ok(vec![
        RemoteFileInfo { path: "/remote/master_control_1.log".to_string(), name: "master_control_1.log".to_string(), size: 5, mtime: 100 },
        RemoteFileInfo { path: "/remote/master_control_2.log".to_string(), name: "master_control_2.log".to_string(), size: 6, mtime: 50 },
    ]);
    let Step::Pending(run, req) = o.on_remote_listing(run, listed) else { panic!() };
    let local = match &req {
        Request::Download { remote, local_dir, local } => {
            assert_eq!(remote, "/remote/master_control_1.log");
            assert_eq!(local_dir, "./logs");
            assert!(local.ends_with("master_control_1.log"));
            local.clone()
        },
        other => panic!("unexpected {:?}", other),
    };
    match o.on_downloaded(run, Ok(())) {
        Step::Done(Outcome::Analysis(Ok(r))) => {
            assert!(r.success);
            assert_eq!(r.analyzed_file, Some(local));
            assert_eq!(r.selected_plugin.as_deref(), Some("master-control-analyzer"));
            assert_eq!(r.steps_completed.len(), 4);
        },
        other => panic!("unexpected {:?}", other),
    }
    assert!(o.is_connected());
}

#[test]
fn failed_download_reports_the_error_and_drops_the_connection() {
    let mut o = WorkflowOrchestrator::new(remote_config()).unwrap();
    let Step::Pending(run, _) = o.run_auto() else { panic!() };
    let Step::Pending(run, _) = o.on_connected(run, Ok(())) else { panic!() };
    let Step::Pending(run, _) = o.on_local_listing(run, Err(DiscovererError::NoFilesFound)) else { panic!() };
    let listed = Ok(vec![RemoteFileInfo {
        path: "/remote/master_control_1.log".to_string(),
        name: "master_control_1.log".to_string(),
        size: 5,
        mtime: 100,
    }]);
    let Step::Pending(run, _) = o.on_remote_listing(run, listed) else { panic!() };
    match o.on_downloaded(run, Err(TransferFailure::Transfer("eof".to_string()))) {
        Step::Done(Outcome::Analysis(Err(WorkflowError::DownloadError(m)))) => assert_eq!(m, "eof"),
        other => panic!("unexpected {:?}", other),
    }
    assert!(!o.is_connected());
}

#[test]
fn remote_listing_error_becomes_a_discovery_error() {
    let mut o = WorkflowOrchestrator::new(remote_config()).unwrap();
    let Step::Pending(run, Request::Connect) = o.list_remote_logs(None) else { panic!() };
    let Step::Pending(run, req) = o.on_connected(run, Ok(())) else { panic!() };
    assert!(matches!(&req, Request::ListRemote { pattern, .. } if pattern == "*.log"));
    match o.on_remote_listing(run, Err(SshError::CommandFailed("ls".to_string()))) {
        Step::Done(Outcome::Listed(Err(e))) => assert_eq!(e.message(), "文件发现失败: 远程操作失败: 命令执行失败: ls"),
        other => panic!("unexpected {:?}", other),
    }
}

#[test]
fn download_and_listing_need_remote_access() {
    let o = WorkflowOrchestrator::new(AnalyzerConfig::default()).unwrap();
    match o.download_only("a.log") {
        Step::Done(Outcome::Downloaded(Err(e))) => assert_eq!(e.message(), "配置错误: 远程功能未启用"),
        other => panic!("unexpected {:?}", other),
    }
    match o.list_remote_logs(Some("*.txt")) {
        Step::Done(Outcome::Listed(Err(WorkflowError::ConfigError(m)))) => assert_eq!(m, "远程功能未启用"),
        other => panic!("unexpected {:?}", other),
    }
}

#[test]
fn download_only_fetches_the_named_file() {
    let mut o = WorkflowOrchestrator::new(remote_config()).unwrap();
    let Step::Pending(run, Request::Connect) = o.download_only("a.log") else { panic!() };
    let Step::Pending(run, req) = o.on_connected(run, Ok(())) else { panic!() };
    assert!(matches!(&req, Request::Download { remote, .. } if remote.ends_with("a.log") && remote.starts_with("/remote")));
    match o.on_downloaded(run, Ok(())) {
        Step::Done(Outcome::Downloaded(Ok(p))) => assert!(p.ends_with("a.log")),
        other => panic!("unexpected {:?}", other),
    }
}

#[test]
fn a_named_local_file_is_analysed_by_its_name() {
    let o = WorkflowOrchestrator::new(AnalyzerConfig::default()).unwrap();
    match o.run_with_file("/data/master_control_9.log", true) {
        Step::Done(Outcome::Analysis(Ok(r))) => {
            assert!(r.success);
            assert_eq!(r.analyzed_file.as_deref(), Some("/data/master_control_9.log"));
            assert_eq!(r.selected_plugin.as_deref(), Some("master-control-analyzer"));
            assert!(r.steps_completed.is_empty());
        },
        other => panic!("unexpected {:?}", other),
    }
    match o.run_with_file("/data/master_control_9.log", false) {
        Step::Done(Outcome::Analysis(Err(WorkflowError::DiscoveryError(DiscovererError::NoFilesFound)))) => {},
        other => panic!("unexpected {:?}", other),
    }
}
