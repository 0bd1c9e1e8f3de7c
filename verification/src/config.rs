//! Analyzer configuration: the settings read from the YAML file, their defaults,
//! validation and the merge of two configurations.

use vstd::prelude::*;
use crate::remote::{AuthMethod, Timeouts};
use crate::text::{owned, push_str};

verus! {

#[verifier::external_type_specification]
#[verifier::external_body]
pub struct ExJsonValue(serde_json::Value);

/// Errors of loading, parsing and validating a configuration.
#[derive(Debug, Clone)]
pub enum ConfigError {
    FileNotFound(String),
    ParseError(String),
    ValidationError(String),
    IoError(String),
}

impl ConfigError {
    /// The text of the error.
    pub open spec fn message_spec(&self) -> Seq<char> {
        match self {
            ConfigError::FileNotFound(m) => "配置文件不存在: "@ + m@,
            ConfigError::ParseError(m) => "配置解析失败: "@ + m@,
            ConfigError::ValidationError(m) => "配置验证失败: "@ + m@,
            ConfigError::IoError(m) => "IO 错误: "@ + m@,
        }
    }

    /// The text of the error, e.g. `配置验证失败: 远程主机不能为空`.
    pub fn message(&self) -> (r: String)
        ensures
            r@ == self.message_spec(),
    {
        let (prefix, m) = match self {
            ConfigError::FileNotFound(m) => ("配置文件不存在: ", m),
            ConfigError::ParseError(m) => ("配置解析失败: ", m),
            ConfigError::ValidationError(m) => ("配置验证失败: ", m),
            ConfigError::IoError(m) => ("IO 错误: ", m),
        };
        let mut r = crate::text::owned(prefix);
        crate::text::push_str(&mut r, m.as_str());
        r
    }
}

/// Remote connection settings.
#[derive(Debug, Clone)]
pub struct RemoteConfig {
    /// Whether remote access is used.
    pub enabled: bool,
    pub host: String,
    pub port: u16,
    pub user: String,
    pub auth: AuthConfig,
    /// Log directory on the remote host.
    pub log_dir: String,
    pub timeouts: Timeouts,
}

/// Default remote host.
pub fn default_host() -> (r: String)
    ensures
        r@ == "192.168.4.69"@,
{
    owned("192.168.4.69")
}

/// Default SSH port: 22.
pub fn default_port() -> (r: u16)
    ensures
        r == 22,
{
    22
}

/// Default remote user.
pub fn default_user() -> (r: String)
    ensures
        r@ == "firefly"@,
{
    owned("firefly")
}

/// Default remote log directory.
pub fn default_remote_log_dir() -> (r: String)
    ensures
        r@ == "/home/firefly/.ros/log"@,
{
    owned("/home/firefly/.ros/log")
}

impl Default for RemoteConfig {
    fn default() -> (r: Self)
        ensures
            !r.enabled,
            r.host@ == "192.168.4.69"@,
            r.port == 22,
            r.user@ == "firefly"@,
            r.auth.key_file is None,
            r.auth.use_agent,
            r.auth.password is None,
            r.log_dir@ == "/home/firefly/.ros/log"@,
            r.timeouts.connect == 30,
            r.timeouts.transfer == 300,
    {
        RemoteConfig {
            enabled: false,
            host: default_host(),
            port: default_port(),
            user: default_user(),
            auth: AuthConfig::default(),
            log_dir: default_remote_log_dir(),
            timeouts: Timeouts::default(),
        }
    }
}

/// Authentication settings.
#[derive(Debug, Clone)]
pub struct AuthConfig {
    /// SSH key file.
    pub key_file: Option<String>,
    /// Use the SSH agent.
    pub use_agent: bool,
    /// Password (not recommended).
    pub password: Option<String>,
}

/// By default the SSH agent is used.
pub fn default_use_agent() -> (r: bool)
    ensures
        r,
{
    true
}

impl Default for AuthConfig {
    fn default() -> (r: Self)
        ensures
            r.key_file is None,
            r.use_agent,
            r.password is None,
    {
        AuthConfig { key_file: None, use_agent: true, password: None }
    }
}

/// The authentication method that a configuration selects:
/// password, else key file, else agent, else interactive.
pub open spec fn auth_method_of(a: AuthConfig) -> AuthMethod {
    match a.password {
        Some(p) => AuthMethod::Password { password: p },
        None => match a.key_file {
            Some(k) => AuthMethod::KeyFile { path: k, passphrase: None },
            None => if a.use_agent {
                AuthMethod::Agent
            } else {
                AuthMethod::Interactive
            },
        },
    }
}

impl AuthConfig {
    /// The authentication method to use. Priority: password > key file > SSH agent > interactive.
    pub fn to_auth_method(&self) -> (r: AuthMethod)
        ensures
            r == auth_method_of(*self),
    {
        match &self.password {
            Some(password) => AuthMethod::Password { password: password.clone() },
            None => match &self.key_file {
                Some(key_file) => AuthMethod::KeyFile { path: key_file.clone(), passphrase: None },
                None => if self.use_agent {
                    AuthMethod::Agent
                } else {
                    AuthMethod::Interactive
                },
            },
        }
    }
}

/// Local paths.
#[derive(Debug, Clone)]
pub struct LocalConfig {
    pub log_dir: String,
    pub output_dir: String,
    pub plugin_dir: String,
    /// Remove old output before analysing.
    pub cleanup_old_output: bool,
}

/// Default local log directory.
pub fn default_local_log_dir() -> (r: String)
    ensures
        r@ == "./logs"@,
{
    owned("./logs")
}

/// Default output directory.
pub fn default_output_dir() -> (r: String)
    ensures
        r@ == "./output"@,
{
    owned("./output")
}

/// Default plugin directory.
pub fn default_plugin_dir() -> (r: String)
    ensures
        r@ == "./plugins"@,
{
    owned("./plugins")
}

/// Old output is removed by default.
pub fn default_cleanup() -> (r: bool)
    ensures
        r,
{
    true
}

impl Default for LocalConfig {
    fn default() -> (r: Self)
        ensures
            r.log_dir@ == "./logs"@,
            r.output_dir@ == "./output"@,
            r.plugin_dir@ == "./plugins"@,
            r.cleanup_old_output,
    {
        LocalConfig {
            log_dir: default_local_log_dir(),
            output_dir: default_output_dir(),
            plugin_dir: default_plugin_dir(),
            cleanup_old_output: true,
        }
    }
}

/// File discovery settings.
#[derive(Debug, Clone)]
pub struct FileDiscoveryConfig {
    pub sort_by: SortBy,
    pub sort_order: SortOrder,
    pub auto_select: AutoSelect,
}

/// Sort key of discovered files.
#[derive(Debug, Clone, Copy, PartialEq, Eq, Structural)]
pub enum SortBy {
    Mtime,
    Name,
    Size,
}

/// Default sort key: modification time.
pub fn default_sort_by() -> (r: SortBy)
    ensures
        r == SortBy::Mtime,
{
    SortBy::Mtime
}

/// Sort direction.
#[derive(Debug, Clone, Copy, PartialEq, Eq, Structural)]
pub enum SortOrder {
    Asc,
    Desc,
}

/// Default sort direction: descending.
pub fn default_sort_order() -> (r: SortOrder)
    ensures
        r == SortOrder::Desc,
{
    SortOrder::Desc
}

/// Which file to pick automatically.
#[derive(Debug, Clone, Copy, PartialEq, Eq, Structural)]
pub enum AutoSelect {
    Latest,
    Oldest,
    /// No automatic choice (`none` in the configuration file).
    Disabled,
}

/// Default automatic choice: the latest file.
pub fn default_auto_select() -> (r: AutoSelect)
    ensures
        r == AutoSelect::Latest,
{
    AutoSelect::Latest
}

impl Default for FileDiscoveryConfig {
    fn default() -> (r: Self)
        ensures
            r.sort_by == SortBy::Mtime,
            r.sort_order == SortOrder::Desc,
            r.auto_select == AutoSelect::Latest,
    {
        FileDiscoveryConfig {
            sort_by: default_sort_by(),
            sort_order: default_sort_order(),
            auto_select: default_auto_select(),
        }
    }
}

/// A rule that maps file names to an analyzer plugin.
#[derive(Debug, Clone)]
pub struct AnalyzerMapping {
    pub name: String,
    /// Glob pattern of the file names.
    pub pattern: String,
    /// Plugin name.
    pub plugin: String,
    pub description: String,
    pub enabled: bool,
    /// A required source must exist in multi-file mode.
    pub required: bool,
    /// The primary time axis when sources are merged.
    pub is_primary: bool,
    /// Larger numbers are tried first.
    pub priority: i32,
    /// Plugin-specific settings.
    pub config: Option<serde_json::Value>,
}

/// A copy of plugin-specific settings (`Clone` of `serde_json::Value`, which the
/// crate derives: the copy is the same JSON value).
#[verifier::external_body]
fn clone_json(v: &serde_json::Value) -> (r: serde_json::Value)
    ensures
        r == *v,
{
    v.clone()
}

/// A copy of a mapping.
pub fn copy_mapping(m: &AnalyzerMapping) -> (r: AnalyzerMapping)
    ensures
        r == *m,
{
    AnalyzerMapping {
        name: m.name.clone(),
        pattern: m.pattern.clone(),
        plugin: m.plugin.clone(),
        description: m.description.clone(),
        enabled: m.enabled,
        required: m.required,
        is_primary: m.is_primary,
        priority: m.priority,
        config: match &m.config {
            Some(v) => Some(clone_json(v)),
            None => None,
        },
    }
}

/// A copy of a list of mappings.
pub fn copy_mappings(v: &Vec<AnalyzerMapping>) -> (r: Vec<AnalyzerMapping>)
    ensures
        r@ == v@,
{
    let mut out: Vec<AnalyzerMapping> = Vec::new();
    let mut i: usize = 0;
    while i < v.len()
        invariant
            i <= v@.len(),
            out@ == v@.take(i as int),
        decreases v.len() - i,
    {
        out.push(copy_mapping(&v[i]));
        assert(out@ =~= v@.take(i + 1));
        i += 1;
    }
    assert(v@.take(v@.len() as int) =~= v@);
    out
}

/// A mapping is enabled by default.
pub fn default_enabled() -> (r: bool)
    ensures
        r,
{
    true
}

/// Workflow settings.
#[derive(Debug, Clone)]
pub struct WorkflowConfig {
    pub auto_download: bool,
    pub auto_analyze: bool,
    pub retry: RetryConfig,
    pub progress: ProgressConfig,
}

/// Download the latest log automatically by default.
pub fn default_auto_download() -> (r: bool)
    ensures
        r,
{
    true
}

/// Analyse after download by default.
pub fn default_auto_analyze() -> (r: bool)
    ensures
        r,
{
    true
}

impl Default for WorkflowConfig {
    fn default() -> (r: Self)
        ensures
            r.auto_download,
            r.auto_analyze,
            r.retry.enabled,
            r.retry.max_attempts == 3,
            r.retry.delay_seconds == 5,
            r.progress.show_progress_bar,
            r.progress.show_transfer_speed,
    {
        WorkflowConfig {
            auto_download: true,
            auto_analyze: true,
            retry: RetryConfig::default(),
            progress: ProgressConfig::default(),
        }
    }
}

/// Retry settings.
#[derive(Debug, Clone)]
pub struct RetryConfig {
    pub enabled: bool,
    pub max_attempts: u32,
    pub delay_seconds: u64,
}

/// Retries are enabled by default.
pub fn default_retry_enabled() -> (r: bool)
    ensures
        r,
{
    true
}

/// Default number of attempts: 3.
pub fn default_max_attempts() -> (r: u32)
    ensures
        r == 3,
{
    3
}

/// Default delay between attempts: 5 s.
pub fn default_delay_seconds() -> (r: u64)
    ensures
        r == 5,
{
    5
}

impl Default for RetryConfig {
    fn default() -> (r: Self)
        ensures
            r.enabled,
            r.max_attempts == 3,
            r.delay_seconds == 5,
    {
        RetryConfig {
            enabled: default_retry_enabled(),
            max_attempts: default_max_attempts(),
            delay_seconds: default_delay_seconds(),
        }
    }
}

/// Progress display settings.
#[derive(Debug, Clone)]
pub struct ProgressConfig {
    pub show_progress_bar: bool,
    pub show_transfer_speed: bool,
}

/// The progress bar is shown by default.
pub fn default_show_progress() -> (r: bool)
    ensures
        r,
{
    true
}

/// The transfer speed is shown by default.
pub fn default_show_speed() -> (r: bool)
    ensures
        r,
{
    true
}

impl Default for ProgressConfig {
    fn default() -> (r: Self)
        ensures
            r.show_progress_bar,
            r.show_transfer_speed,
    {
        ProgressConfig {
            show_progress_bar: default_show_progress(),
            show_transfer_speed: default_show_speed(),
        }
    }
}

/// Logging settings.
#[derive(Debug, Clone)]
pub struct LoggingConfig {
    pub level: String,
    pub format: String,
}

/// Default log level.
pub fn default_log_level() -> (r: String)
    ensures
        r@ == "info"@,
{
    owned("info")
}

/// Default log format.
pub fn default_log_format() -> (r: String)
    ensures
        r@ == "compact"@,
{
    owned("compact")
}

impl Default for LoggingConfig {
    fn default() -> (r: Self)
        ensures
            r.level@ == "info"@,
            r.format@ == "compact"@,
    {
        LoggingConfig { level: default_log_level(), format: default_log_format() }
    }
}

/// Advanced settings.
#[derive(Debug, Clone)]
pub struct AdvancedConfig {
    pub concurrent_downloads: usize,
    /// Seconds a remote listing is cached.
    pub cache_remote_list: u64,
    pub skip_analyzed: bool,
}

/// Default number of concurrent downloads: 2.
pub fn default_concurrent() -> (r: usize)
    ensures
        r == 2,
{
    2
}

/// Default cache duration of remote listings: 60 s.
pub fn default_cache_duration() -> (r: u64)
    ensures
        r == 60,
{
    60
}

impl Default for AdvancedConfig {
    fn default() -> (r: Self)
        ensures
            r.concurrent_downloads == 2,
            r.cache_remote_list == 60,
            !r.skip_analyzed,
    {
        AdvancedConfig {
            concurrent_downloads: default_concurrent(),
            cache_remote_list: default_cache_duration(),
            skip_analyzed: false,
        }
    }
}

/// Multi-file analysis is off by default.
pub fn default_multifile_enabled() -> (r: bool)
    ensures
        !r,
{
    false
}

/// Default primary time-axis source.
pub fn default_primary_source() -> (r: String)
    ensures
        r@ == "master-control"@,
{
    owned("master-control")
}

/// How several log sources are aligned in time.
#[derive(Debug, Clone, Copy, PartialEq, Eq, Structural)]
pub enum AlignmentStrategy {
    /// Timestamps as they are (clocks assumed in sync).
    Timestamp,
    /// Alignment on events (not implemented).
    EventBased,
}

/// Default alignment: by timestamp.
pub fn default_alignment_strategy() -> (r: AlignmentStrategy)
    ensures
        r == AlignmentStrategy::Timestamp,
{
    AlignmentStrategy::Timestamp
}

/// How several logs are aligned in time. The time tolerance, in seconds, is a float
/// and is kept by the application beside these settings.
#[derive(Debug, Clone)]
pub struct AlignmentConfig {
    /// The source of the primary time axis (the mapping marked primary).
    pub primary_source: String,
    pub strategy: AlignmentStrategy,
}

impl Default for AlignmentConfig {
    fn default() -> (r: Self)
        ensures
            r.primary_source@ == "master-control"@,
            r.strategy == AlignmentStrategy::Timestamp,
    {
        AlignmentConfig { primary_source: default_primary_source(), strategy: default_alignment_strategy() }
    }
}

/// The lane priorities of the merged chart by default, lane names with their rank.
pub open spec fn default_track_priorities() -> Seq<(Seq<char>, i32)> {
    seq![
        ("RoundMarker"@, 0i32),
        ("Navigation"@, 1i32),
        ("Arm"@, 2i32),
        ("Head"@, 3i32),
        ("Waist"@, 4i32),
    ]
}

/// Lane priorities as plain values.
pub open spec fn priorities_view(v: Seq<(String, i32)>) -> Seq<(Seq<char>, i32)> {
    v.map_values(|p: (String, i32)| (p.0@, p.1))
}

/// Multi-file analysis settings: whether it is on, the file patterns downloaded
/// together in automatic mode (by priority), the time alignment, and the priority of
/// each lane of the merged chart (a lane name occurs once).
#[derive(Debug, Clone)]
pub struct MultiFileConfig {
    pub enabled: bool,
    pub auto_patterns: Vec<String>,
    pub alignment: AlignmentConfig,
    pub track_priority: Vec<(String, i32)>,
}

impl Default for MultiFileConfig {
    fn default() -> (r: Self)
        ensures
            !r.enabled,
            r.auto_patterns@.len() == 1,
            r.auto_patterns@[0]@ == "master_control_*.log"@,
            r.alignment.primary_source@ == "master-control"@,
            r.alignment.strategy == AlignmentStrategy::Timestamp,
            priorities_view(r.track_priority@) == default_track_priorities(),
    {
        let mut auto_patterns: Vec<String> = Vec::new();
        auto_patterns.push(owned("master_control_*.log"));
        let mut track_priority: Vec<(String, i32)> = Vec::new();
        track_priority.push((owned("RoundMarker"), 0));
        track_priority.push((owned("Navigation"), 1));
        track_priority.push((owned("Arm"), 2));
        track_priority.push((owned("Head"), 3));
        track_priority.push((owned("Waist"), 4));
        assert(priorities_view(track_priority@) =~= default_track_priorities());
        MultiFileConfig {
            enabled: default_multifile_enabled(),
            auto_patterns,
            alignment: AlignmentConfig::default(),
            track_priority,
        }
    }
}

/// The configuration that the workflow reads.
#[derive(Debug, Clone)]
pub struct AnalyzerConfig {
    pub remote: RemoteConfig,
    pub local: LocalConfig,
    pub file_discovery: FileDiscoveryConfig,
    pub analyzers: Vec<AnalyzerMapping>,
    pub multi_file: MultiFileConfig,
    pub workflow: WorkflowConfig,
    pub logging: LoggingConfig,
    pub advanced: AdvancedConfig,
}

/// The built-in mapping of the master-control plugin.
pub open spec fn is_default_master_control_mapping(m: AnalyzerMapping) -> bool {
    &&& m.name@ == "master-control"@
    &&& m.pattern@ == "master_control_*.log"@
    &&& m.plugin@ == "master-control-analyzer"@
    &&& m.description@ == "机器人主控系统日志分析器"@
    &&& m.enabled
    &&& m.required
    &&& m.is_primary
    &&& m.priority == 0
    &&& m.config is None
}

impl Default for AnalyzerConfig {
    fn default() -> (r: Self)
        ensures
            !r.remote.enabled,
            r.remote.host@ == "192.168.4.69"@,
            r.remote.port == 22,
            r.remote.user@ == "firefly"@,
            r.remote.log_dir@ == "/home/firefly/.ros/log"@,
            r.local.log_dir@ == "./logs"@,
            r.local.output_dir@ == "./output"@,
            r.local.plugin_dir@ == "./plugins"@,
            r.local.cleanup_old_output,
            r.file_discovery.sort_by == SortBy::Mtime,
            r.file_discovery.sort_order == SortOrder::Desc,
            r.file_discovery.auto_select == AutoSelect::Latest,
            r.analyzers@.len() == 1,
            is_default_master_control_mapping(r.analyzers@[0]),
            !r.multi_file.enabled,
            r.multi_file.auto_patterns@.len() == 1,
            r.multi_file.auto_patterns@[0]@ == "master_control_*.log"@,
            r.multi_file.alignment.primary_source@ == "master-control"@,
            r.multi_file.alignment.strategy == AlignmentStrategy::Timestamp,
            priorities_view(r.multi_file.track_priority@) == default_track_priorities(),
            r.workflow.auto_download,
            r.logging.level@ == "info"@,
            r.advanced.concurrent_downloads == 2,
    {
        let mut analyzers: Vec<AnalyzerMapping> = Vec::new();
        analyzers.push(
            AnalyzerMapping {
                name: owned("master-control"),
                pattern: owned("master_control_*.log"),
                plugin: owned("master-control-analyzer"),
                description: owned("机器人主控系统日志分析器"),
                enabled: true,
                required: true,
                is_primary: true,
                priority: 0,
                config: None,
            },
        );
        AnalyzerConfig {
            remote: RemoteConfig::default(),
            local: LocalConfig::default(),
            file_discovery: FileDiscoveryConfig::default(),
            analyzers,
            multi_file: MultiFileConfig::default(),
            workflow: WorkflowConfig::default(),
            logging: LoggingConfig::default(),
            advanced: AdvancedConfig::default(),
        }
    }
}

/// The message for a mapping without a pattern.
pub open spec fn empty_pattern_message(name: Seq<char>) -> Seq<char> {
    "分析器 '"@ + name + "' 的模式不能为空"@
}

/// The message for a mapping without a plugin name.
pub open spec fn empty_plugin_message(name: Seq<char>) -> Seq<char> {
    "分析器 '"@ + name + "' 的插件名称不能为空"@
}

/// The validation message of the first mapping, in order, that lacks a pattern or a plugin.
pub open spec fn first_mapping_error(ms: Seq<AnalyzerMapping>) -> Option<Seq<char>>
    decreases ms.len(),
{
    if ms.len() == 0 {
        None
    } else if ms[0].pattern@.len() == 0 {
        Some(empty_pattern_message(ms[0].name@))
    } else if ms[0].plugin@.len() == 0 {
        Some(empty_plugin_message(ms[0].name@))
    } else {
        first_mapping_error(ms.drop_first())
    }
}

/// What is wrong with a configuration, if anything, in the order of the checks:
/// remote host, remote user (only when remote access is enabled), at least one
/// mapping, then each mapping's pattern and plugin.
pub open spec fn validation_error(c: AnalyzerConfig) -> Option<Seq<char>> {
    if c.remote.enabled && c.remote.host@.len() == 0 {
        Some("远程主机不能为空"@)
    } else if c.remote.enabled && c.remote.user@.len() == 0 {
        Some("远程用户不能为空"@)
    } else if c.analyzers@.len() == 0 {
        Some("至少需要一个分析器映射"@)
    } else {
        first_mapping_error(c.analyzers@)
    }
}

/// `base` with each mapping of `extra` appended, in order, unless a mapping of the
/// same name is already there.
pub open spec fn merge_mappings(base: Seq<AnalyzerMapping>, extra: Seq<AnalyzerMapping>) -> Seq<AnalyzerMapping>
    decreases extra.len(),
{
    if extra.len() == 0 {
        base
    } else {
        let prev = merge_mappings(base, extra.drop_last());
        if has_mapping_named(prev, extra.last().name@) {
            prev
        } else {
            prev.push(extra.last())
        }
    }
}

/// Some mapping of `ms` has the name `name`.
pub open spec fn has_mapping_named(ms: Seq<AnalyzerMapping>, name: Seq<char>) -> bool {
    exists|j: int| 0 <= j < ms.len() && (#[trigger] ms[j]).name@ == name
}

/// No two mappings of `ms` share a name.
pub open spec fn names_unique(ms: Seq<AnalyzerMapping>) -> bool {
    forall|i: int, j: int|
        0 <= i < ms.len() && 0 <= j < ms.len() && i != j ==> (#[trigger] ms[i]).name@ != (
        #[trigger] ms[j]).name@
}

/// Whether two strings are equal.
pub fn str_eq(a: &str, b: &str) -> (r: bool)
    ensures
        r == (a@ == b@),
{
    let x = crate::text::to_chars(a);
    let y = crate::text::to_chars(b);
    if x.len() != y.len() {
        return false;
    }
    let mut i: usize = 0;
    while i < x.len()
        invariant
            i <= x.len() == y.len(),
            x@ == a@,
            y@ == b@,
            forall|j: int| 0 <= j < i ==> x@[j] == y@[j],
        decreases x.len() - i,
    {
        if x[i] != y[i] {
            return false;
        }
        i += 1;
    }
    assert(x@ =~= y@);
    true
}

impl AnalyzerConfig {
    /// Checks the configuration; the first problem found is reported as a validation error.
    pub fn validate(&self) -> (r: Result<(), ConfigError>)
        ensures
            r is Ok <==> validation_error(*self) is None,
            validation_error(*self) matches Some(m) ==> r matches Err(ConfigError::ValidationError(
                e,
            )) && e@ == m,
    {
        if self.remote.enabled {
            if self.remote.host.as_str().is_empty() {
                return Err(ConfigError::ValidationError(owned("远程主机不能为空")));
            }
            if self.remote.user.as_str().is_empty() {
                return Err(ConfigError::ValidationError(owned("远程用户不能为空")));
            }
        }
        if self.analyzers.len() == 0 {
            return Err(ConfigError::ValidationError(owned("至少需要一个分析器映射")));
        }
        let mut i: usize = 0;
        assert(self.analyzers@.skip(0) == self.analyzers@);
        while i < self.analyzers.len()
            invariant
                i <= self.analyzers@.len(),
                self.analyzers@.len() > 0,
                validation_error(*self) == first_mapping_error(self.analyzers@),
                first_mapping_error(self.analyzers@) == first_mapping_error(
                    self.analyzers@.skip(i as int),
                ),
            decreases self.analyzers.len() - i,
        {
            let ghost rest = self.analyzers@.skip(i as int);
            assert(rest[0] == self.analyzers@[i as int]);
            assert(rest.drop_first() == self.analyzers@.skip(i + 1));
            let a = &self.analyzers[i];
            if a.pattern.as_str().is_empty() {
                let mut m = owned("分析器 '");
                push_str(&mut m, a.name.as_str());
                push_str(&mut m, "' 的模式不能为空");
                assert(m@ =~= empty_pattern_message(a.name@));
                return Err(ConfigError::ValidationError(m));
            }
            if a.plugin.as_str().is_empty() {
                let mut m = owned("分析器 '");
                push_str(&mut m, a.name.as_str());
                push_str(&mut m, "' 的插件名称不能为空");
                assert(m@ =~= empty_plugin_message(a.name@));
                return Err(ConfigError::ValidationError(m));
            }
            i += 1;
        }
        assert(self.analyzers@.skip(i as int).len() == 0);
        Ok(())
    }

    /// Merges `other` into this configuration: its remote settings replace ours when
    /// enabled, and its mappings are appended unless one of the same name exists; all
    /// other settings, the multi-file ones among them, stay ours.
    pub fn merge(self, other: AnalyzerConfig) -> (r: Self)
        ensures
            r.remote == (if other.remote.enabled {
                other.remote
            } else {
                self.remote
            }),
            r.analyzers@ == merge_mappings(self.analyzers@, other.analyzers@),
            r.local == self.local,
            r.file_discovery == self.file_discovery,
            r.multi_file == self.multi_file,
            r.workflow == self.workflow,
            r.logging == self.logging,
            r.advanced == self.advanced,
    {
        let mut this = self;
        let AnalyzerConfig { remote, analyzers, .. } = other;
        if remote.enabled {
            this.remote = remote;
        }
        let ghost base = this.analyzers@;
        let mut extra = analyzers;
        let ghost all = extra@;
        let mut k: usize = 0;
        let n = extra.len();
        while k < n
            invariant
                n == all.len(),
                k <= n,
                this.analyzers@ == merge_mappings(base, all.take(k as int)),
                this.remote == (if remote.enabled {
                    remote
                } else {
                    self.remote
                }),
                this.local == self.local,
                this.file_discovery == self.file_discovery,
                this.multi_file == self.multi_file,
                this.workflow == self.workflow,
                this.logging == self.logging,
                this.advanced == self.advanced,
                extra@.len() == n - k,
                forall|j: int| 0 <= j < n - k ==> #[trigger] extra@[j] == all[k + j],
            decreases n - k,
        {
            let item = extra.remove(0);
            assert(item == all[k as int]);
            assert(all.take(k + 1).drop_last() == all.take(k as int));
            let mut found = false;
            let mut j: usize = 0;
            while j < this.analyzers.len()
                invariant
                    j <= this.analyzers@.len(),
                    found <==> exists|q: int|
                        0 <= q < j && (#[trigger] this.analyzers@[q]).name@ == item.name@,
                decreases this.analyzers.len() - j,
            {
                if str_eq(this.analyzers[j].name.as_str(), item.name.as_str()) {
                    found = true;
                }
                j += 1;
            }
            if !found {
                this.analyzers.push(item);
            }
            k += 1;
        }
        assert(all.take(n as int) == all);
        this
    }
}


// ---------------------------------------------------------------------------
// Laws of merging configurations
// ---------------------------------------------------------------------------

/// Merging analyzer mappings keeps the base mappings first and in order, gives a
/// mapping for every name of the added ones, takes every mapping from one of the
/// two lists, and keeps names unique when the base names are unique.
pub proof fn lemma_merge_mappings(base: Seq<AnalyzerMapping>, extra: Seq<AnalyzerMapping>)
    ensures
        merge_mappings(base, extra).len() >= base.len(),
        merge_mappings(base, extra).take(base.len() as int) == base,
        forall|j: int| 0 <= j < extra.len() ==> has_mapping_named(merge_mappings(base, extra), #[trigger] extra[j].name@),
        forall|i: int|
            0 <= i < merge_mappings(base, extra).len() ==> base.contains(#[trigger] merge_mappings(base, extra)[i])
                || extra.contains(merge_mappings(base, extra)[i]),
        names_unique(base) ==> names_unique(merge_mappings(base, extra)),
    decreases extra.len(),
{
    if extra.len() > 0 {
        let pe = extra.drop_last();
        let x = extra.last();
        lemma_merge_mappings(base, pe);
        let prev = merge_mappings(base, pe);
        let out = merge_mappings(base, extra);
        if !has_mapping_named(prev, x.name@) {
            assert(out == prev.push(x));
            assert(out.take(base.len() as int) =~= prev.take(base.len() as int));
            assert(out[prev.len() as int].name@ == x.name@);
        }
        assert forall|j: int| 0 <= j < extra.len() implies has_mapping_named(out, #[trigger] extra[j].name@) by {
            if j < extra.len() - 1 {
                assert(extra[j] == pe[j]);
                let w = choose|w: int| 0 <= w < prev.len() && (#[trigger] prev[w]).name@ == pe[j].name@;
                assert(out[w] == prev[w]);
            } else if has_mapping_named(prev, x.name@) {
                let w = choose|w: int| 0 <= w < prev.len() && (#[trigger] prev[w]).name@ == x.name@;
                assert(out[w] == prev[w]);
            } else {
                assert(out[prev.len() as int] == x);
            }
        }
        assert forall|i: int| 0 <= i < out.len() implies base.contains(#[trigger] out[i]) || extra.contains(out[i]) by {
            if i < prev.len() {
                assert(out[i] == prev[i]);
                if pe.contains(prev[i]) {
                    let w = choose|w: int| 0 <= w < pe.len() && pe[w] == prev[i];
                    assert(extra[w] == pe[w]);
                }
            } else {
                assert(out[i] == x);
                assert(extra[extra.len() - 1] == x);
            }
        }
        if names_unique(base) && !has_mapping_named(prev, x.name@) {
            assert forall|i: int, j: int|
                0 <= i < out.len() && 0 <= j < out.len() && i != j implies (#[trigger] out[i]).name@ != (
                #[trigger] out[j]).name@ by {
                if i < prev.len() && j < prev.len() {
                    assert(out[i] == prev[i]);
                    assert(out[j] == prev[j]);
                } else if i < prev.len() {
                    assert(out[i] == prev[i]);
                } else {
                    assert(out[j] == prev[j]);
                }
            }
        }
    }
}
} // verus!
