//! Remote access: connection settings, the commands sent over SSH to list logs
//! and the parsing of their output. The session itself is driven by the application.

use vstd::prelude::*;
use crate::lines::{line_ranges, split_lines, split_on, split_ranges};
use crate::text::{
    blank, char_alphanumeric, char_whitespace, is_alphanumeric, is_blank, is_whitespace, owned,
    parse_u64_chars, parse_u64_spec, push_char, push_str, string_from_chars, to_chars,
};

verus! {

/// How to authenticate to the remote host.
#[derive(Debug, Clone)]
pub enum AuthMethod {
    /// SSH key file, with an optional passphrase.
    KeyFile { path: String, passphrase: Option<String> },
    /// SSH agent.
    Agent,
    /// Password.
    Password { password: String },
    /// Asked at run time (not supported when connecting).
    Interactive,
}

/// Timeouts in seconds.
#[derive(Debug, Clone)]
pub struct Timeouts {
    /// Connection timeout.
    pub connect: u64,
    /// Transfer timeout.
    pub transfer: u64,
}

/// Default connection timeout: 30 s.
pub fn default_connect_timeout() -> (r: u64)
    ensures
        r == 30,
{
    30
}

/// Default transfer timeout: 300 s.
pub fn default_transfer_timeout() -> (r: u64)
    ensures
        r == 300,
{
    300
}

impl Default for Timeouts {
    fn default() -> (r: Self)
        ensures
            r.connect == 30,
            r.transfer == 300,
    {
        Timeouts { connect: default_connect_timeout(), transfer: default_transfer_timeout() }
    }
}

/// Settings of one SSH connection.
#[derive(Debug, Clone)]
pub struct SshConfig {
    pub host: String,
    pub port: u16,
    pub user: String,
    pub auth: AuthMethod,
    pub timeouts: Timeouts,
}

/// Default SSH port: 22.
pub fn default_port() -> (r: u16)
    ensures
        r == 22,
{
    22
}

/// A file found on the remote host.
#[derive(Debug, Clone)]
pub struct RemoteFileInfo {
    /// Full remote path.
    pub path: String,
    /// File name.
    pub name: String,
    /// Size in bytes.
    pub size: u64,
    /// Modification time, seconds since the epoch.
    pub mtime: u64,
}

/// Errors of remote operations; errors of the SSH library and of I/O carry their message.
#[derive(Debug, Clone)]
pub enum SshError {
    ConnectionFailed(String),
    AuthenticationFailed(String),
    CommandFailed(String),
    IoError(String),
    Ssh2Error(String),
}

impl SshError {
    /// The text of the error as it is displayed.
    pub open spec fn message_spec(&self) -> Seq<char> {
        match self {
            SshError::ConnectionFailed(m) => "连接失败: "@ + m@,
            SshError::AuthenticationFailed(m) => "认证失败: "@ + m@,
            SshError::CommandFailed(m) => "命令执行失败: "@ + m@,
            SshError::IoError(m) => "IO 错误: "@ + m@,
            SshError::Ssh2Error(m) => "SSH 错误: "@ + m@,
        }
    }

    /// The text of the error as it is displayed.
    pub fn message(&self) -> (r: String)
        ensures
            r@ == self.message_spec(),
    {
        let (prefix, m) = match self {
            SshError::ConnectionFailed(m) => ("连接失败: ", m),
            SshError::AuthenticationFailed(m) => ("认证失败: ", m),
            SshError::CommandFailed(m) => ("命令执行失败: ", m),
            SshError::IoError(m) => ("IO 错误: ", m),
            SshError::Ssh2Error(m) => ("SSH 错误: ", m),
        };
        let mut r = owned(prefix);
        push_str(&mut r, m.as_str());
        r
    }
}

/// `s` with every `'` replaced by `'\''`.
pub open spec fn escape_quotes(s: Seq<char>) -> Seq<char>
    decreases s.len(),
{
    if s.len() == 0 {
        seq![]
    } else {
        let last = if s.last() == '\'' {
            seq!['\'', '\\', '\'', '\'']
        } else {
            seq![s.last()]
        };
        escape_quotes(s.drop_last()) + last
    }
}

/// `s` quoted for a POSIX shell: wrapped in single quotes, inner quotes escaped.
pub open spec fn shell_quoted(s: Seq<char>) -> Seq<char> {
    seq!['\''] + escape_quotes(s) + seq!['\'']
}

/// Quotes a shell argument so that the shell reads it literally:
/// `it's` becomes `'it'\''s'`.
pub fn shell_escape(s: &str) -> (r: String)
    ensures
        r@ == shell_quoted(s@),
{
    let cs = to_chars(s);
    let mut r = String::new();
    push_char(&mut r, '\'');
    let mut i: usize = 0;
    while i < cs.len()
        invariant
            i <= cs.len(),
            cs@ == s@,
            r@ == seq!['\''] + escape_quotes(cs@.subrange(0, i as int)),
        decreases cs.len() - i,
    {
        let c = cs[i];
        if c == '\'' {
            push_char(&mut r, '\'');
            push_char(&mut r, '\\');
            push_char(&mut r, '\'');
            push_char(&mut r, '\'');
        } else {
            push_char(&mut r, c);
        }
        assert(cs@.subrange(0, i + 1).drop_last() == cs@.subrange(0, i as int));
        i += 1;
    }
    push_char(&mut r, '\'');
    assert(cs@.subrange(0, cs.len() as int) == cs@);
    r
}

/// Characters allowed in a remote glob pattern besides letters and digits.
pub open spec fn glob_punctuation(c: char) -> bool {
    c == '_' || c == '-' || c == '.' || c == '*' || c == '?' || c == '[' || c == ']'
}

/// A character that may stand in a remote glob pattern.
pub open spec fn glob_char_safe(c: char) -> bool {
    char_alphanumeric(c) || glob_punctuation(c)
}

/// The message for an empty remote glob pattern.
pub open spec fn empty_pattern_message() -> Seq<char> {
    "glob 模式不能为空"@
}

/// The message for an unsafe character `c` in a remote glob pattern.
pub open spec fn unsafe_char_message(c: char) -> Seq<char> {
    "glob 模式包含不安全字符: '"@ + seq![c] + "'"@
}

/// `r` is a `CommandFailed` error with message `m`.
pub open spec fn command_failed_with<T>(r: Result<T, SshError>, m: Seq<char>) -> bool {
    match r {
        Err(SshError::CommandFailed(s)) => s@ == m,
        _ => false,
    }
}

/// `i` is the position of the first unsafe character of `s`.
pub open spec fn first_unsafe_at(s: Seq<char>, i: int) -> bool {
    &&& 0 <= i < s.len()
    &&& !glob_char_safe(s[i])
    &&& forall|j: int| 0 <= j < i ==> glob_char_safe(#[trigger] s[j])
}

/// Whether a glob pattern is safe to put on a shell command line unquoted.
pub open spec fn glob_pattern_safe(s: Seq<char>) -> bool {
    s.len() > 0 && forall|i: int| 0 <= i < s.len() ==> glob_char_safe(#[trigger] s[i])
}

/// Whether a character is a letter, a digit or one of `_ - . * ? [ ]`.
pub fn is_glob_char_safe(c: char) -> (r: bool)
    ensures
        r == glob_char_safe(c),
{
    is_alphanumeric(c) || c == '_' || c == '-' || c == '.' || c == '*' || c == '?' || c == '['
        || c == ']'
}

/// Checks that a glob pattern holds only letters, digits and `_ - . * ? [ ]`,
/// so that it can be passed to the remote shell without quoting.
pub fn validate_glob_pattern(pattern: &str) -> (r: Result<(), SshError>)
    ensures
        r is Ok <==> glob_pattern_safe(pattern@),
        pattern@.len() == 0 ==> command_failed_with(r, empty_pattern_message()),
        pattern@.len() > 0 && !glob_pattern_safe(pattern@) ==> exists|i: int|
            first_unsafe_at(pattern@, i) && command_failed_with(r, unsafe_char_message(pattern@[i])),
{
    let cs = to_chars(pattern);
    if cs.len() == 0 {
        return Err(SshError::CommandFailed(owned("glob 模式不能为空")));
    }
    let mut i: usize = 0;
    while i < cs.len()
        invariant
            i <= cs.len(),
            cs@ == pattern@,
            cs@.len() > 0,
            forall|j: int| 0 <= j < i ==> glob_char_safe(#[trigger] cs@[j]),
        decreases cs.len() - i,
    {
        let c = cs[i];
        if !is_glob_char_safe(c) {
            let mut m = owned("glob 模式包含不安全字符: '");
            push_char(&mut m, c);
            push_str(&mut m, "'");
            assert(m@ =~= unsafe_char_message(c));
            let res: Result<(), SshError> = Err(SshError::CommandFailed(m));
            assert(cs@[i as int] == pattern@[i as int]);
            assert(first_unsafe_at(pattern@, i as int) && command_failed_with(
                res,
                unsafe_char_message(pattern@[i as int]),
            ));
            return res;
        }
        i += 1;
    }
    Ok(())
}

/// The command that lists the files of `dir` matching `pattern`, newest first,
/// one `name|size|mtime` line per regular file (GNU or BSD `stat`).
pub open spec fn list_command(dir: Seq<char>, pattern: Seq<char>) -> Seq<char> {
    "cd "@ + shell_quoted(dir) + " && ls -t "@ + pattern
        + " 2>/dev/null | while read f; do if [ -f \"$f\" ]; then stat -c '%n|%s|%Y' \"$f\" 2>/dev/null || stat -f '%N|%z|%m' \"$f\" 2>/dev/null; fi; done"@
}

/// Builds the listing command for `list_files`; the pattern must pass `validate_glob_pattern`,
/// whose error is returned otherwise.
pub fn list_files_command(path: &str, pattern: &str) -> (r: Result<String, SshError>)
    ensures
        r is Ok <==> glob_pattern_safe(pattern@),
        r matches Ok(c) ==> c@ == list_command(path@, pattern@),
        pattern@.len() == 0 ==> command_failed_with(r, empty_pattern_message()),
        pattern@.len() > 0 && !glob_pattern_safe(pattern@) ==> exists|i: int|
            first_unsafe_at(pattern@, i) && command_failed_with(r, unsafe_char_message(pattern@[i])),
{
    match validate_glob_pattern(pattern) {
        Err(e) => Err(e),
        Ok(()) => {
            let mut c = owned("cd ");
            let q = shell_escape(path);
            push_str(&mut c, q.as_str());
            push_str(&mut c, " && ls -t ");
            push_str(&mut c, pattern);
            push_str(
                &mut c,
                " 2>/dev/null | while read f; do if [ -f \"$f\" ]; then stat -c '%n|%s|%Y' \"$f\" 2>/dev/null || stat -f '%N|%z|%m' \"$f\" 2>/dev/null; fi; done",
            );
            Ok(c)
        },
    }
}

/// The command that prints the newest `YYYYMMDD` sub-directory of `base`.
pub open spec fn latest_date_dir_command_spec(base: Seq<char>) -> Seq<char> {
    "ls -1d "@ + shell_quoted(base)
        + "/[0-9][0-9][0-9][0-9][0-9][0-9][0-9][0-9] 2>/dev/null | sort -r | head -1"@
}

/// Builds the command used by `find_latest_date_dir`.
pub fn latest_date_dir_command(base_path: &str) -> (r: String)
    ensures
        r@ == latest_date_dir_command_spec(base_path@),
{
    let mut c = owned("ls -1d ");
    let q = shell_escape(base_path);
    push_str(&mut c, q.as_str());
    push_str(&mut c, "/[0-9][0-9][0-9][0-9][0-9][0-9][0-9][0-9] 2>/dev/null | sort -r | head -1");
    c
}

/// The index of the first non-white-space character of `s` at or after `i`, or `s.len()`.
pub open spec fn trim_start_index(s: Seq<char>) -> int
    decreases s.len(),
{
    if s.len() == 0 {
        0
    } else if char_whitespace(s[0]) {
        1 + trim_start_index(s.drop_first())
    } else {
        0
    }
}

/// The index just past the last non-white-space character of `s`, or 0.
pub open spec fn trim_end_index(s: Seq<char>) -> int
    decreases s.len(),
{
    if s.len() == 0 {
        0
    } else if char_whitespace(s.last()) {
        trim_end_index(s.drop_last())
    } else {
        s.len() as int
    }
}

/// `s` without leading and trailing white space (`str::trim`).
pub open spec fn trim(s: Seq<char>) -> Seq<char> {
    if blank(s) {
        seq![]
    } else {
        s.subrange(trim_start_index(s), trim_end_index(s))
    }
}

proof fn lemma_trim_start(s: Seq<char>, k: int)
    requires
        0 <= k <= s.len(),
        forall|j: int| 0 <= j < k ==> char_whitespace(#[trigger] s[j]),
        k == s.len() || !char_whitespace(s[k]),
    ensures
        trim_start_index(s) == k,
    decreases k,
{
    if k > 0 {
        assert forall|j: int| 0 <= j < k - 1 implies char_whitespace(#[trigger] s.drop_first()[j]) by {
            assert(s.drop_first()[j] == s[j + 1]);
        }
        lemma_trim_start(s.drop_first(), k - 1);
    }
}

proof fn lemma_trim_end(s: Seq<char>, e: int)
    requires
        0 <= e <= s.len(),
        forall|j: int| e <= j < s.len() ==> char_whitespace(#[trigger] s[j]),
        e == 0 || !char_whitespace(s[e - 1]),
    ensures
        trim_end_index(s) == e,
    decreases s.len(),
{
    if s.len() > e {
        assert forall|j: int| e <= j < s.drop_last().len() implies char_whitespace(
            #[trigger] s.drop_last()[j],
        ) by {
            assert(s.drop_last()[j] == s[j]);
        }
        lemma_trim_end(s.drop_last(), e);
    }
}

/// Reads the output of the `find_latest_date_dir` command: the trimmed output,
/// or nothing when it is blank.
pub fn parse_latest_date_dir(output: &str) -> (r: Option<String>)
    ensures
        r is None <==> blank(output@),
        r matches Some(d) ==> d@ == trim(output@),
{
    let cs = to_chars(output);
    let n = cs.len();
    let mut b: usize = 0;
    while b < n && is_whitespace(cs[b])
        invariant
            b <= n == cs.len(),
            cs@ == output@,
            forall|j: int| 0 <= j < b ==> char_whitespace(#[trigger] cs@[j]),
        decreases n - b,
    {
        b += 1;
    }
    if b == n {
        assert(blank(output@));
        return None;
    }
    let mut e: usize = n;
    while e > b && is_whitespace(cs[e - 1])
        invariant
            b < n,
            b <= e <= n == cs.len(),
            cs@ == output@,
            !char_whitespace(cs@[b as int]),
            forall|j: int| e <= j < n ==> char_whitespace(#[trigger] cs@[j]),
        decreases e,
    {
        e -= 1;
    }
    proof {
        assert(!blank(output@)) by {
            assert(!char_whitespace(output@[b as int]));
        }
        lemma_trim_start(output@, b as int);
        if e == b {
            assert(false);
        }
        lemma_trim_end(output@, e as int);
    }
    Some(string_from_chars(&cs, b, e))
}

/// `s` without leading and trailing white space (`str::trim`).
pub fn trimmed(s: &str) -> (r: String)
    ensures
        r@ == trim(s@),
{
    match parse_latest_date_dir(s) {
        Some(t) => t,
        None => String::new(),
    }
}

/// `Path::new(dir).join(name)` rendered as a string.
pub uninterp spec fn joined_path(dir: Seq<char>, name: Seq<char>) -> Seq<char>;

/// Joins a file name onto a directory path (`Path::join`).
#[verifier::external_body]
pub(crate) fn join_path(dir: &str, name: &str) -> (r: String)
    ensures
        r@ == joined_path(dir@, name@),
{
    std::path::Path::new(dir).join(name).to_string_lossy().into_owned()
}

/// The file described by one `name|size|mtime` line, if the line has at least three
/// fields; a size or time that does not parse counts as 0. Blank lines describe nothing.
pub open spec fn listing_entry(dir: Seq<char>, line: Seq<char>) -> Option<(Seq<char>, Seq<char>, u64, u64)> {
    let parts = split_on(line, '|');
    if blank(line) || parts.len() < 3 {
        None
    } else {
        let size = match parse_u64_spec(parts[1]) {
            Some(v) => v,
            None => 0,
        };
        let mtime = match parse_u64_spec(parts[2]) {
            Some(v) => v,
            None => 0,
        };
        Some((joined_path(dir, parts[0]), parts[0], size, mtime))
    }
}

/// The files described by a sequence of listing lines, in order.
pub open spec fn listing_entries(dir: Seq<char>, lines: Seq<Seq<char>>) -> Seq<(Seq<char>, Seq<char>, u64, u64)>
    decreases lines.len(),
{
    if lines.len() == 0 {
        seq![]
    } else {
        let prev = listing_entries(dir, lines.drop_last());
        match listing_entry(dir, lines.last()) {
            Some(e) => prev.push(e),
            None => prev,
        }
    }
}

impl RemoteFileInfo {
    /// The file as plain values: path, name, size, mtime.
    pub open spec fn view_tuple(&self) -> (Seq<char>, Seq<char>, u64, u64) {
        (self.path@, self.name@, self.size, self.mtime)
    }
}

/// Reads the output of the listing command run in `dir`: one file per line with
/// at least three `|`-separated fields, in the order of the lines.
pub fn parse_file_listing(dir: &str, output: &str) -> (r: Vec<RemoteFileInfo>)
    ensures
        r@.len() == listing_entries(dir@, split_lines(output@)).len(),
        forall|i: int|
            0 <= i < r@.len() ==> #[trigger] r@[i].view_tuple() == listing_entries(
                dir@,
                split_lines(output@),
            )[i],
{
    let cs = to_chars(output);
    let ranges = line_ranges(&cs);
    let ghost lines = split_lines(output@);
    let mut r: Vec<RemoteFileInfo> = Vec::new();
    let mut k: usize = 0;
    while k < ranges.len()
        invariant
            k <= ranges.len(),
            cs@ == output@,
            lines == split_lines(output@),
            ranges@.len() == lines.len(),
            forall|i: int|
                #![trigger ranges@[i]]
                0 <= i < ranges@.len() ==> {
                    &&& ranges@[i].0 <= ranges@[i].1 <= cs@.len()
                    &&& lines[i] == cs@.subrange(ranges@[i].0 as int, ranges@[i].1 as int)
                },
            r@.len() == listing_entries(dir@, lines.take(k as int)).len(),
            forall|i: int|
                0 <= i < r@.len() ==> #[trigger] r@[i].view_tuple() == listing_entries(
                    dir@,
                    lines.take(k as int),
                )[i],
        decreases ranges.len() - k,
    {
        let (from, to) = ranges[k];
        let ghost line = lines[k as int];
        assert(lines.take(k + 1).drop_last() == lines.take(k as int));
        assert(lines.take(k + 1).last() == line);
        let ghost prev = r@;
        if !is_blank(&cs, from, to) {
            let parts = split_ranges(&cs, from, to, '|');
            if parts.len() >= 3 {
                let (n0, n1) = parts[0];
                let (s0, s1) = parts[1];
                let (m0, m1) = parts[2];
                let name = string_from_chars(&cs, n0, n1);
                let size = match parse_u64_chars(&cs, s0, s1) {
                    Some(v) => v,
                    None => 0,
                };
                let mtime = match parse_u64_chars(&cs, m0, m1) {
                    Some(v) => v,
                    None => 0,
                };
                let path = join_path(dir, name.as_str());
                let info = RemoteFileInfo { path, name, size, mtime };
                r.push(info);
                proof {
                    let parts_spec = split_on(line, '|');
                    assert(parts_spec[0] == cs@.subrange(n0 as int, n1 as int));
                    assert(parts_spec[1] == cs@.subrange(s0 as int, s1 as int));
                    assert(parts_spec[2] == cs@.subrange(m0 as int, m1 as int));
                    assert(listing_entry(dir@, line) == Some(info.view_tuple()));
                    assert forall|i: int| 0 <= i < r@.len() implies #[trigger] r@[i].view_tuple()
                        == listing_entries(dir@, lines.take(k + 1))[i] by {
                        if i < prev.len() {
                            assert(r@[i] == prev[i]);
                        }
                    }
                }
            }
        }
        k += 1;
    }
    assert(lines.take(k as int) == lines);
    r
}


/// Receives the progress of a file transfer.
pub trait TransferProgress {
    /// `bytes_transferred` of `total_bytes` have been transferred.
    fn on_progress(&mut self, bytes_transferred: u64, total_bytes: u64);

    /// The transfer finished.
    fn on_complete(&mut self);

    /// The transfer failed with the message `error`.
    fn on_error(&mut self, error: &str);
}
} // verus!
