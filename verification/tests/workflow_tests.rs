use log_analyzer::config::{AnalyzerMapping, AutoSelect, FileDiscoveryConfig, SortBy, SortOrder};
use log_analyzer::discoverer::{DiscovererError, FileDiscoverer, FileInfo};
use log_analyzer::selector::PluginSelector;
use log_analyzer::workflow::{WorkflowError, WorkflowResult, WorkflowStep};

fn file(name: &str, size: u64, mtime: u64) -> FileInfo {
    FileInfo { path: name.to_string(), name: name.to_string(), size, mtime, is_remote: false }
}

#[test]
fn test_sort_by_mtime() {
    let config = FileDiscoveryConfig {
        sort_by: SortBy::Mtime,
        sort_order: SortOrder::Desc,
        auto_select: AutoSelect::Latest,
    };
    let discoverer = FileDiscoverer::new(config);
    let mut files = vec![file("file1.log", 100, 1000), file("file2.log", 200, 2000), file("file3.log", 150, 1500)];
    discoverer.sort_files(&mut files);
    assert_eq!(files[0].name, "file2.log");
    assert_eq!(files[1].name, "file3.log");
    assert_eq!(files[2].name, "file1.log");
}

#[test]
fn test_auto_select_latest() {
    let config = FileDiscoveryConfig {
        sort_by: SortBy::Mtime,
        sort_order: SortOrder::Desc,
        auto_select: AutoSelect::Latest,
    };
    let discoverer = FileDiscoverer::new(config);
    let files = vec![file("file1.log", 100, 1000), file("file2.log", 200, 2000)];
    let selected = discoverer.auto_select(files);
    assert_eq!(selected.unwrap().name, "file2.log");
}

#[test]
fn sort_by_name_ascending_keeps_equal_names_in_order() {
    let config = FileDiscoveryConfig { sort_by: SortBy::Name, sort_order: SortOrder::Asc, auto_select: AutoSelect::Oldest };
    let discoverer = FileDiscoverer::new(config);
    let mut files = vec![file("b.log", 1, 5), file("a.log", 2, 6), file("b.log", 3, 7)];
    discoverer.sort_files(&mut files);
    assert_eq!(files[0].name, "a.log");
    assert_eq!(files[1].size, 1);
    assert_eq!(files[2].size, 3);
}

#[test]
fn sort_by_size_descending() {
    let config = FileDiscoveryConfig { sort_by: SortBy::Size, sort_order: SortOrder::Desc, auto_select: AutoSelect::Latest };
    let discoverer = FileDiscoverer::new(config);
    let mut files = vec![file("a.log", 10, 0), file("b.log", 30, 0), file("c.log", 20, 0)];
    discoverer.sort_files(&mut files);
    let names: Vec<&str> = files.iter().map(|f| f.name.as_str()).collect();
    assert_eq!(names, vec!["b.log", "c.log", "a.log"]);
}

#[test]
fn auto_select_oldest_and_disabled() {
    let oldest = FileDiscoverer::new(FileDiscoveryConfig {
        sort_by: SortBy::Mtime,
        sort_order: SortOrder::Desc,
        auto_select: AutoSelect::Oldest,
    });
    let files = vec![file("new.log", 1, 3000), file("old.log", 1, 1000), file("mid.log", 1, 2000)];
    assert_eq!(oldest.auto_select(files.clone()).unwrap().name, "old.log");
    let off = FileDiscoverer::new(FileDiscoveryConfig {
        sort_by: SortBy::Mtime,
        sort_order: SortOrder::Desc,
        auto_select: AutoSelect::Disabled,
    });
    assert!(off.auto_select(files).is_none());
    assert!(oldest.auto_select(Vec::new()).is_none());
}

#[test]
fn select_top_n_takes_the_first_after_sorting() {
    let d = FileDiscoverer::new(FileDiscoveryConfig {
        sort_by: SortBy::Mtime,
        sort_order: SortOrder::Desc,
        auto_select: AutoSelect::Latest,
    });
    let files = vec![file("a.log", 1, 10), file("b.log", 1, 30), file("c.log", 1, 20)];
    let top = d.select_top_n(files.clone(), 2);
    assert_eq!(top.len(), 2);
    assert_eq!(top[0].name, "b.log");
    assert_eq!(top[1].name, "c.log");
    assert_eq!(d.select_top_n(files, 10).len(), 3);
}

#[test]
fn discovery_error_messages() {
    assert_eq!(DiscovererError::NoFilesFound.message(), "没有找到匹配的文件");
    assert_eq!(DiscovererError::DirectoryNotFound("/x".to_string()).message(), "目录不存在: /x");
    assert_eq!(DiscovererError::RemoteError("boom".to_string()).message(), "远程操作失败: boom");
    assert_eq!(DiscovererError::IoError("disk".to_string()).message(), "IO 错误: disk");
}

fn mapping(name: &str, pattern: &str, plugin: &str, priority: i32) -> AnalyzerMapping {
    AnalyzerMapping {
        name: name.to_string(),
        pattern: pattern.to_string(),
        plugin: plugin.to_string(),
        description: String::new(),
        enabled: true,
        required: false,
        is_primary: false,
        priority,
        config: None,
    }
}

fn create_test_mappings() -> Vec<AnalyzerMapping> {
    vec![
        mapping("master-control", "master_control_*.log", "master-control-analyzer", 10),
        mapping("navigation", "navigation_*.log", "navigation-analyzer", 5),
        mapping("generic", "*.log", "generic-analyzer", -1),
    ]
}

#[test]
fn test_select_plugin() {
    let selector = PluginSelector::new(create_test_mappings());
    let result = selector.select_plugin("master_control_123.log");
    assert!(result.is_some());
    assert_eq!(result.unwrap().plugin, "master-control-analyzer");
    let result = selector.select_plugin("navigation_456.log");
    assert!(result.is_some());
    assert_eq!(result.unwrap().plugin, "navigation-analyzer");
    let result = selector.select_plugin("unknown_file.log");
    assert!(result.is_some());
    assert_eq!(result.unwrap().plugin, "generic-analyzer");
}

#[test]
fn test_priority() {
    let selector = PluginSelector::new(create_test_mappings());
    let result = selector.select_plugin("master_control_123.log");
    assert_eq!(result.unwrap().priority, 10);
}

#[test]
fn test_disabled_plugin() {
    let mut mappings = create_test_mappings();
    mappings[0].enabled = false;
    let selector = PluginSelector::new(mappings);
    let result = selector.select_plugin("master_control_123.log");
    assert!(result.is_some());
    assert_eq!(result.unwrap().plugin, "generic-analyzer");
}

#[test]
fn test_list_enabled() {
    let selector = PluginSelector::new(create_test_mappings());
    let enabled = selector.list_enabled();
    assert_eq!(enabled.len(), 3);
}

#[test]
fn test_find_by_name() {
    let selector = PluginSelector::new(create_test_mappings());
    let result = selector.find_by_name("master-control");
    assert!(result.is_some());
    assert_eq!(result.unwrap().plugin, "master-control-analyzer");
    let result = selector.find_by_name("master-control-analyzer");
    assert!(result.is_some());
}

#[test]
fn selector_orders_by_priority_and_finds_nothing_for_other_files() {
    let mut mappings = create_test_mappings();
    mappings.reverse();
    let selector = PluginSelector::new(mappings);
    let m = selector.mappings();
    assert_eq!(m[0].priority, 10);
    assert_eq!(m[1].priority, 5);
    assert_eq!(m[2].priority, -1);
    assert!(selector.select_plugin("data.csv").is_none());
    assert!(selector.find_by_name("nothing").is_none());
}

#[test]
fn workflow_result_records_steps_and_errors() {
    let mut r = WorkflowResult::new();
    assert!(!r.success);
    assert!(r.steps_completed.is_empty());
    r.add_step(WorkflowStep::ConnectRemote);
    r.add_step(WorkflowStep::DiscoverFiles { pattern: "*.log".to_string() });
    r.add_error("e1".to_string());
    assert_eq!(r.steps_completed.len(), 2);
    assert!(matches!(r.steps_completed[1], WorkflowStep::DiscoverFiles { .. }));
    assert_eq!(r.errors, vec!["e1".to_string()]);
}

#[test]
fn workflow_error_messages() {
    assert_eq!(WorkflowError::NoPluginFound.message(), "没有找到匹配的插件");
    assert_eq!(WorkflowError::ConfigError("远程功能未启用".to_string()).message(), "配置错误: 远程功能未启用");
    assert_eq!(
        WorkflowError::DiscoveryError(DiscovererError::NoFilesFound).message(),
        "文件发现失败: 没有找到匹配的文件"
    );
    assert_eq!(WorkflowError::ConnectionError("x".to_string()).message(), "连接失败: x");
    assert_eq!(WorkflowError::DownloadError("x".to_string()).message(), "下载失败: x");
    assert_eq!(WorkflowError::PluginLoadError("x".to_string()).message(), "插件加载失败: x");
    assert_eq!(WorkflowError::AnalysisError("x".to_string()).message(), "分析失败: x");
    assert_eq!(WorkflowError::IoError("x".to_string()).message(), "IO 错误: x");
}
