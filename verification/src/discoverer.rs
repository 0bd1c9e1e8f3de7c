//! File discovery: the files found locally or remotely, their ordering and the
//! automatic choice among them. Listing directories is the application's part.

use vstd::prelude::*;
use crate::config::{AutoSelect, FileDiscoveryConfig, SortBy, SortOrder};
use crate::remote::{RemoteFileInfo, SshError};
use crate::text::to_chars;

verus! {

/// Errors of file discovery.
#[derive(Debug, Clone)]
pub enum DiscovererError {
    DirectoryNotFound(String),
    NoFilesFound,
    RemoteError(String),
    IoError(String),
}

impl DiscovererError {
    /// The text of the error.
    pub open spec fn message_spec(&self) -> Seq<char> {
        match self {
            DiscovererError::DirectoryNotFound(d) => "目录不存在: "@ + d@,
            DiscovererError::NoFilesFound => "没有找到匹配的文件"@,
            DiscovererError::RemoteError(m) => "远程操作失败: "@ + m@,
            DiscovererError::IoError(m) => "IO 错误: "@ + m@,
        }
    }

    /// The text of the error, e.g. `目录不存在: /var/log`.
    pub fn message(&self) -> (r: String)
        ensures
            r@ == self.message_spec(),
    {
        match self {
            DiscovererError::DirectoryNotFound(d) => {
                let mut s = crate::text::owned("目录不存在: ");
                crate::text::push_str(&mut s, d.as_str());
                s
            },
            DiscovererError::NoFilesFound => crate::text::owned("没有找到匹配的文件"),
            DiscovererError::RemoteError(m) => {
                let mut s = crate::text::owned("远程操作失败: ");
                crate::text::push_str(&mut s, m.as_str());
                s
            },
            DiscovererError::IoError(m) => {
                let mut s = crate::text::owned("IO 错误: ");
                crate::text::push_str(&mut s, m.as_str());
                s
            },
        }
    }
}

/// A discovery error as plain values.
pub enum DiscovererErrorView {
    DirectoryNotFound(Seq<char>),
    NoFilesFound,
    RemoteError(Seq<char>),
    IoError(Seq<char>),
}

impl View for DiscovererError {
    type V = DiscovererErrorView;

    open spec fn view(&self) -> DiscovererErrorView {
        match self {
            DiscovererError::DirectoryNotFound(d) => DiscovererErrorView::DirectoryNotFound(d@),
            DiscovererError::NoFilesFound => DiscovererErrorView::NoFilesFound,
            DiscovererError::RemoteError(m) => DiscovererErrorView::RemoteError(m@),
            DiscovererError::IoError(m) => DiscovererErrorView::IoError(m@),
        }
    }
}

/// A file found locally or remotely.
#[derive(Debug, Clone)]
pub struct FileInfo {
    pub path: String,
    pub name: String,
    pub size: u64,
    pub mtime: u64,
    pub is_remote: bool,
}

impl FileInfo {
    /// The file described by a remote listing entry.
    pub fn from_remote_file_info(info: RemoteFileInfo) -> (r: Self)
        ensures
            r.path == info.path,
            r.name == info.name,
            r.size == info.size,
            r.mtime == info.mtime,
            r.is_remote,
    {
        FileInfo {
            path: info.path,
            name: info.name,
            size: info.size,
            mtime: info.mtime,
            is_remote: true,
        }
    }
}

/// `a` comes strictly before `b` in the lexicographic order of characters
/// (the order of `String`, since UTF-8 preserves the order of code points).
pub open spec fn lex_lt(a: Seq<char>, b: Seq<char>) -> bool
    decreases a.len(),
{
    if a.len() == 0 {
        b.len() > 0
    } else if b.len() == 0 {
        false
    } else if a[0] != b[0] {
        a[0] < b[0]
    } else {
        lex_lt(a.drop_first(), b.drop_first())
    }
}

/// The sort key of `a` is strictly smaller than that of `b`.
pub open spec fn key_lt(by: SortBy, a: FileInfo, b: FileInfo) -> bool {
    match by {
        SortBy::Mtime => a.mtime < b.mtime,
        SortBy::Size => a.size < b.size,
        SortBy::Name => lex_lt(a.name@, b.name@),
    }
}

/// Where a stable ascending sort puts `x` among the already sorted `sorted`:
/// after every element whose key is not greater than that of `x`.
pub open spec fn insert_pos(by: SortBy, sorted: Seq<FileInfo>, x: FileInfo) -> int
    decreases sorted.len(),
{
    if sorted.len() == 0 {
        0
    } else if key_lt(by, x, sorted[0]) {
        0
    } else {
        1 + insert_pos(by, sorted.drop_first(), x)
    }
}

/// The files sorted by ascending key, files of equal key in their original order
/// (what `sort_by_key` / `sort_by` of the standard library produce).
pub open spec fn stable_sort(by: SortBy, s: Seq<FileInfo>) -> Seq<FileInfo>
    decreases s.len(),
{
    if s.len() == 0 {
        s
    } else {
        let prev = stable_sort(by, s.drop_last());
        prev.insert(insert_pos(by, prev, s.last()), s.last())
    }
}

/// The files in the order of a discovery configuration: sorted by its key, reversed
/// when the order is descending.
pub open spec fn ordered(cfg: FileDiscoveryConfig, s: Seq<FileInfo>) -> Seq<FileInfo> {
    let asc = stable_sort(cfg.sort_by, s);
    if cfg.sort_order == SortOrder::Desc {
        asc.reverse()
    } else {
        asc
    }
}

/// The index of the last file of greatest mtime (the choice of `Iterator::max_by_key`).
pub open spec fn last_max_mtime(s: Seq<FileInfo>) -> int
    decreases s.len(),
{
    if s.len() <= 1 {
        0
    } else {
        let i = last_max_mtime(s.drop_last());
        if s.last().mtime >= s[i].mtime {
            s.len() - 1
        } else {
            i
        }
    }
}

/// The index of the first file of least mtime (the choice of `Iterator::min_by_key`).
pub open spec fn first_min_mtime(s: Seq<FileInfo>) -> int
    decreases s.len(),
{
    if s.len() <= 1 {
        0
    } else {
        let i = first_min_mtime(s.drop_last());
        if s.last().mtime < s[i].mtime {
            s.len() - 1
        } else {
            i
        }
    }
}

/// The file that automatic selection picks from `s`, if any.
pub open spec fn auto_choice(cfg: FileDiscoveryConfig, s: Seq<FileInfo>) -> Option<FileInfo> {
    let o = ordered(cfg, s);
    if s.len() == 0 {
        None
    } else {
        match cfg.auto_select {
            AutoSelect::Latest => if cfg.sort_by == SortBy::Mtime && cfg.sort_order == SortOrder::Desc {
                Some(o[0])
            } else {
                Some(o[last_max_mtime(o)])
            },
            AutoSelect::Oldest => Some(o[first_min_mtime(o)]),
            AutoSelect::Disabled => None,
        }
    }
}

/// The first `n` files in the configured order (none when `n` is 0).
pub open spec fn top_n(cfg: FileDiscoveryConfig, s: Seq<FileInfo>, n: nat) -> Seq<FileInfo> {
    if s.len() == 0 || n == 0 {
        seq![]
    } else {
        let o = ordered(cfg, s);
        if n < o.len() {
            o.take(n as int)
        } else {
            o
        }
    }
}

/// Whether `a` comes before `b` in the character order.
pub fn str_lt(a: &str, b: &str) -> (r: bool)
    ensures
        r == lex_lt(a@, b@),
{
    let x = to_chars(a);
    let y = to_chars(b);
    let mut i: usize = 0;
    assert(x@.skip(0) == x@);
    assert(y@.skip(0) == y@);
    while i < x.len() && i < y.len() && x[i] == y[i]
        invariant
            i <= x.len(),
            i <= y.len(),
            x@ == a@,
            y@ == b@,
            lex_lt(a@, b@) == lex_lt(x@.skip(i as int), y@.skip(i as int)),
        decreases x.len() - i,
    {
        assert(x@.skip(i as int).drop_first() == x@.skip(i + 1));
        assert(y@.skip(i as int).drop_first() == y@.skip(i + 1));
        i += 1;
    }
    assert(x@.skip(0) == x@);
    if i == x.len() {
        i < y.len()
    } else if i == y.len() {
        false
    } else {
        x[i] < y[i]
    }
}

/// Whether the key of `a` is strictly smaller than the key of `b`.
pub fn key_less(by: SortBy, a: &FileInfo, b: &FileInfo) -> (r: bool)
    ensures
        r == key_lt(by, *a, *b),
{
    match by {
        SortBy::Mtime => a.mtime < b.mtime,
        SortBy::Size => a.size < b.size,
        SortBy::Name => str_lt(a.name.as_str(), b.name.as_str()),
    }
}

proof fn lemma_insert_pos(by: SortBy, sorted: Seq<FileInfo>, x: FileInfo, p: int)
    requires
        0 <= p <= sorted.len(),
        forall|j: int| 0 <= j < p ==> !key_lt(by, x, #[trigger] sorted[j]),
        p == sorted.len() || key_lt(by, x, sorted[p]),
    ensures
        insert_pos(by, sorted, x) == p,
    decreases p,
{
    if p > 0 {
        assert forall|j: int| 0 <= j < p - 1 implies !key_lt(by, x, #[trigger] sorted.drop_first()[j]) by {
            assert(sorted.drop_first()[j] == sorted[j + 1]);
        }
        lemma_insert_pos(by, sorted.drop_first(), x, p - 1);
    }
}

/// Reverses a vector.
pub fn reverse_files(v: Vec<FileInfo>) -> (r: Vec<FileInfo>)
    ensures
        r@ == v@.reverse(),
{
    let mut v = v;
    let ghost orig = v@;
    let mut r: Vec<FileInfo> = Vec::new();
    while v.len() > 0
        invariant
            v@ == orig.take(v@.len() as int),
            r@.len() + v@.len() == orig.len(),
            forall|i: int| 0 <= i < r@.len() ==> #[trigger] r@[i] == orig[orig.len() - 1 - i],
        decreases v@.len(),
    {
        let x = v.pop().unwrap();
        let ghost k = r@.len();
        r.push(x);
        assert(r@[k as int] == orig[orig.len() - 1 - k]);
        assert(v@ == orig.take(v@.len() as int));
    }
    assert(r@ =~= orig.reverse());
    r
}

/// A discoverer of log files, holding the ordering and selection settings.
pub struct FileDiscoverer {
    config: FileDiscoveryConfig,
}

impl FileDiscoverer {
    /// The discovery settings.
    pub closed spec fn cfg(&self) -> FileDiscoveryConfig {
        self.config
    }

    /// A discoverer with the given settings.
    pub fn new(config: FileDiscoveryConfig) -> (r: Self)
        ensures
            r.cfg() == config,
    {
        FileDiscoverer { config }
    }

    /// Sorts the files as configured: by mtime, name or size, ascending or
    /// descending; files of equal key keep their relative order before a reversal.
    pub fn sort_files(&self, files: &mut Vec<FileInfo>)
        ensures
            final(files)@ == ordered(self.cfg(), old(files)@),
    {
        let by = self.config.sort_by;
        let mut input: Vec<FileInfo> = Vec::new();
        std::mem::swap(&mut input, files);
        let ghost s = input@;
        let mut out: Vec<FileInfo> = Vec::new();
        let mut i: usize = 0;
        let n = input.len();
        while i < n
            invariant
                n == s.len(),
                i <= n,
                input@ == s.skip(i as int),
                out@ == stable_sort(by, s.take(i as int)),
            decreases n - i,
        {
            let x = input.remove(0);
            assert(x == s[i as int]);
            assert(input@ == s.skip(i + 1));
            let mut p: usize = 0;
            while p < out.len() && !key_less(by, &x, &out[p])
                invariant
                    p <= out@.len(),
                    forall|j: int| 0 <= j < p ==> !key_lt(by, x, #[trigger] out@[j]),
                decreases out@.len() - p,
            {
                p += 1;
            }
            proof {
                lemma_insert_pos(by, out@, x, p as int);
                assert(s.take(i + 1).drop_last() == s.take(i as int));
                assert(s.take(i + 1).last() == x);
            }
            out.insert(p, x);
            i += 1;
        }
        assert(s.take(n as int) == s);
        if self.config.sort_order == SortOrder::Desc {
            *files = reverse_files(out);
        } else {
            *files = out;
        }
    }

    /// Picks one file automatically: after sorting, the latest (greatest mtime) or
    /// oldest (least mtime) file, or none when selection is disabled or there are no files.
    pub fn auto_select(&self, files: Vec<FileInfo>) -> (r: Option<FileInfo>)
        ensures
            r == auto_choice(self.cfg(), files@),
    {
        if files.len() == 0 {
            return None;
        }
        let mut files = files;
        let ghost s = files@;
        self.sort_files(&mut files);
        proof {
            lemma_ordered_len(self.cfg(), s);
        }
        match self.config.auto_select {
            AutoSelect::Latest => {
                if self.config.sort_by == SortBy::Mtime && self.config.sort_order == SortOrder::Desc {
                    Some(files.swap_remove(0))
                } else {
                    let i = index_of_last_max_mtime(&files);
                    Some(files.swap_remove(i))
                }
            },
            AutoSelect::Oldest => {
                let i = index_of_first_min_mtime(&files);
                Some(files.swap_remove(i))
            },
            AutoSelect::Disabled => None,
        }
    }

    /// The first `n` files in the configured order (all of them when fewer).
    pub fn select_top_n(&self, files: Vec<FileInfo>, n: usize) -> (r: Vec<FileInfo>)
        ensures
            r@ == top_n(self.cfg(), files@, n as nat),
    {
        if files.len() == 0 || n == 0 {
            return Vec::new();
        }
        let mut files = files;
        let ghost s = files@;
        self.sort_files(&mut files);
        files.truncate(n);
        proof {
            lemma_ordered_len(self.cfg(), s);
            let o = ordered(self.cfg(), s);
            if n >= o.len() {
                assert(files@ == o);
            }
        }
        files
    }

    /// The first `n` of the files found locally; no files found, or none selected,
    /// is an error, as is the error of the discovery itself.
    pub fn discover_and_select_top_n_local(
        &self,
        found: Result<Vec<FileInfo>, DiscovererError>,
        n: usize,
    ) -> (r: Result<Vec<FileInfo>, DiscovererError>)
        ensures
            found is Err ==> r == found,
            found matches Ok(fs) ==> (if top_n(self.cfg(), fs@, n as nat).len() == 0 {
                r matches Err(DiscovererError::NoFilesFound)
            } else {
                r matches Ok(sel) && sel@ == top_n(self.cfg(), fs@, n as nat)
            }),
    {
        match found {
            Err(e) => Err(e),
            Ok(files) => {
                let selected = self.select_top_n(files, n);
                if selected.len() == 0 {
                    Err(DiscovererError::NoFilesFound)
                } else {
                    Ok(selected)
                }
            },
        }
    }

    /// The first `n` of the files found remotely, with the same rules as locally.
    pub fn discover_and_select_top_n_remote(
        &self,
        found: Result<Vec<FileInfo>, DiscovererError>,
        n: usize,
    ) -> (r: Result<Vec<FileInfo>, DiscovererError>)
        ensures
            found is Err ==> r == found,
            found matches Ok(fs) ==> (if top_n(self.cfg(), fs@, n as nat).len() == 0 {
                r matches Err(DiscovererError::NoFilesFound)
            } else {
                r matches Ok(sel) && sel@ == top_n(self.cfg(), fs@, n as nat)
            }),
    {
        self.discover_and_select_top_n_local(found, n)
    }

    /// The automatically selected file among those found locally.
    pub fn discover_and_select_local(&self, found: Result<Vec<FileInfo>, DiscovererError>) -> (r:
        Result<FileInfo, DiscovererError>)
        ensures
            found is Err ==> r is Err && (found matches Err(e) ==> r == Err::<FileInfo, _>(e)),
            found matches Ok(fs) ==> (match auto_choice(self.cfg(), fs@) {
                Some(f) => r == Ok::<FileInfo, DiscovererError>(f),
                None => r matches Err(DiscovererError::NoFilesFound),
            }),
    {
        match found {
            Err(e) => Err(e),
            Ok(files) => match self.auto_select(files) {
                Some(f) => Ok(f),
                None => Err(DiscovererError::NoFilesFound),
            },
        }
    }

    /// The automatically selected file among those found remotely.
    pub fn discover_and_select_remote(&self, found: Result<Vec<FileInfo>, DiscovererError>) -> (r:
        Result<FileInfo, DiscovererError>)
        ensures
            found is Err ==> r is Err && (found matches Err(e) ==> r == Err::<FileInfo, _>(e)),
            found matches Ok(fs) ==> (match auto_choice(self.cfg(), fs@) {
                Some(f) => r == Ok::<FileInfo, DiscovererError>(f),
                None => r matches Err(DiscovererError::NoFilesFound),
            }),
    {
        self.discover_and_select_local(found)
    }
}

/// The file found by a remote listing entry.
pub open spec fn remote_file(f: RemoteFileInfo) -> FileInfo {
    FileInfo { path: f.path, name: f.name, size: f.size, mtime: f.mtime, is_remote: true }
}

/// The files found by the entries of a remote listing.
pub open spec fn remote_files(fs: Seq<RemoteFileInfo>) -> Seq<FileInfo> {
    fs.map_values(|f: RemoteFileInfo| remote_file(f))
}

/// The remote files found by a listing: an error of the listing becomes a remote
/// error with its message, an empty listing is `NoFilesFound`.
pub fn discover_remote(listed: Result<Vec<RemoteFileInfo>, SshError>) -> (r: Result<Vec<FileInfo>, DiscovererError>)
    ensures
        listed matches Err(e) ==> r matches Err(DiscovererError::RemoteError(m)) && m@
            == e.message_spec(),
        listed matches Ok(fs) ==> (if fs@.len() == 0 {
            r matches Err(DiscovererError::NoFilesFound)
        } else {
            r matches Ok(out) && out@.len() == fs@.len() && forall|i: int|
                0 <= i < fs@.len() ==> {
                    &&& (#[trigger] out@[i]).path == fs@[i].path
                    &&& out@[i].name == fs@[i].name
                    &&& out@[i].size == fs@[i].size
                    &&& out@[i].mtime == fs@[i].mtime
                    &&& out@[i].is_remote
                } && out@ == remote_files(fs@)
        }),
{
    match listed {
        Err(e) => Err(DiscovererError::RemoteError(e.message())),
        Ok(fs) => {
            if fs.len() == 0 {
                return Err(DiscovererError::NoFilesFound);
            }
            let mut fs = fs;
            let ghost orig = fs@;
            let mut out: Vec<FileInfo> = Vec::new();
            let n = fs.len();
            let mut i: usize = 0;
            while i < n
                invariant
                    n == orig.len() > 0,
                    i <= n,
                    fs@ == orig.skip(i as int),
                    out@.len() == i,
                    forall|j: int|
                        0 <= j < i ==> {
                            &&& (#[trigger] out@[j]).path == orig[j].path
                            &&& out@[j].name == orig[j].name
                            &&& out@[j].size == orig[j].size
                            &&& out@[j].mtime == orig[j].mtime
                            &&& out@[j].is_remote
                        },
                decreases n - i,
            {
                let x = fs.remove(0);
                assert(x == orig[i as int]);
                assert(fs@ == orig.skip(i + 1));
                out.push(FileInfo::from_remote_file_info(x));
                i += 1;
            }
            assert(out@ =~= remote_files(orig));
            Ok(out)
        },
    }
}

/// Sorting keeps the number of files.
pub proof fn lemma_stable_sort_len(by: SortBy, s: Seq<FileInfo>)
    ensures
        stable_sort(by, s).len() == s.len(),
        0 <= insert_pos(by, stable_sort(by, s), s.last()) <= s.len(),
    decreases s.len(),
{
    if s.len() > 0 {
        lemma_stable_sort_len(by, s.drop_last());
        lemma_insert_pos_bound(by, stable_sort(by, s.drop_last()), s.last());
    }
    lemma_insert_pos_bound(by, stable_sort(by, s), s.last());
}

proof fn lemma_insert_pos_bound(by: SortBy, sorted: Seq<FileInfo>, x: FileInfo)
    ensures
        0 <= insert_pos(by, sorted, x) <= sorted.len(),
    decreases sorted.len(),
{
    if sorted.len() > 0 {
        lemma_insert_pos_bound(by, sorted.drop_first(), x);
    }
}

proof fn lemma_ordered_len(cfg: FileDiscoveryConfig, s: Seq<FileInfo>)
    ensures
        ordered(cfg, s).len() == s.len(),
{
    lemma_stable_sort_len(cfg.sort_by, s);
}

proof fn lemma_last_max_mtime_bound(s: Seq<FileInfo>)
    ensures
        s.len() > 0 ==> 0 <= last_max_mtime(s) < s.len(),
    decreases s.len(),
{
    if s.len() > 1 {
        lemma_last_max_mtime_bound(s.drop_last());
    }
}

proof fn lemma_first_min_mtime_bound(s: Seq<FileInfo>)
    ensures
        s.len() > 0 ==> 0 <= first_min_mtime(s) < s.len(),
    decreases s.len(),
{
    if s.len() > 1 {
        lemma_first_min_mtime_bound(s.drop_last());
    }
}

/// The position of the last file of greatest mtime.
fn index_of_last_max_mtime(v: &Vec<FileInfo>) -> (i: usize)
    requires
        v@.len() > 0,
    ensures
        i == last_max_mtime(v@),
        i < v@.len(),
{
    let mut best: usize = 0;
    let mut k: usize = 1;
    while k < v.len()
        invariant
            1 <= k <= v@.len(),
            best == last_max_mtime(v@.take(k as int)),
            best < k,
        decreases v@.len() - k,
    {
        proof {
            assert(v@.take(k + 1).drop_last() == v@.take(k as int));
            lemma_last_max_mtime_bound(v@.take(k as int));
        }
        if v[k].mtime >= v[best].mtime {
            best = k;
        }
        k += 1;
    }
    assert(v@.take(k as int) == v@);
    best
}

/// The position of the first file of least mtime.
fn index_of_first_min_mtime(v: &Vec<FileInfo>) -> (i: usize)
    requires
        v@.len() > 0,
    ensures
        i == first_min_mtime(v@),
        i < v@.len(),
{
    let mut best: usize = 0;
    let mut k: usize = 1;
    while k < v.len()
        invariant
            1 <= k <= v@.len(),
            best == first_min_mtime(v@.take(k as int)),
            best < k,
        decreases v@.len() - k,
    {
        proof {
            assert(v@.take(k + 1).drop_last() == v@.take(k as int));
            lemma_first_min_mtime_bound(v@.take(k as int));
        }
        if v[k].mtime < v[best].mtime {
            best = k;
        }
        k += 1;
    }
    assert(v@.take(k as int) == v@);
    best
}


// ---------------------------------------------------------------------------
// Laws of ordering
// ---------------------------------------------------------------------------

proof fn lemma_lex_lt_irreflexive(a: Seq<char>)
    ensures
        !lex_lt(a, a),
    decreases a.len(),
{
    if a.len() > 0 {
        lemma_lex_lt_irreflexive(a.drop_first());
    }
}

proof fn lemma_lex_lt_transitive(a: Seq<char>, b: Seq<char>, c: Seq<char>)
    requires
        lex_lt(a, b),
        lex_lt(b, c),
    ensures
        lex_lt(a, c),
    decreases a.len(),
{
    if a.len() > 0 && b.len() > 0 && c.len() > 0 && a[0] == b[0] && b[0] == c[0] {
        lemma_lex_lt_transitive(a.drop_first(), b.drop_first(), c.drop_first());
    }
}

proof fn lemma_key_lt_transitive(by: SortBy, a: FileInfo, b: FileInfo, c: FileInfo)
    requires
        key_lt(by, a, b),
        key_lt(by, b, c),
    ensures
        key_lt(by, a, c),
{
    if by == SortBy::Name {
        lemma_lex_lt_transitive(a.name@, b.name@, c.name@);
    }
}

proof fn lemma_key_lt_irreflexive(by: SortBy, a: FileInfo)
    ensures
        !key_lt(by, a, a),
{
    if by == SortBy::Name {
        lemma_lex_lt_irreflexive(a.name@);
    }
}

/// The files are in ascending order of key.
pub open spec fn ascending(by: SortBy, s: Seq<FileInfo>) -> bool {
    forall|i: int, j: int| 0 <= i < j < s.len() ==> !key_lt(by, #[trigger] s[j], #[trigger] s[i])
}

proof fn lemma_insert_pos_props(by: SortBy, sorted: Seq<FileInfo>, x: FileInfo)
    ensures
        forall|j: int| 0 <= j < insert_pos(by, sorted, x) ==> !key_lt(by, x, #[trigger] sorted[j]),
        insert_pos(by, sorted, x) < sorted.len() ==> key_lt(by, x, sorted[insert_pos(by, sorted, x)]),
    decreases sorted.len(),
{
    lemma_insert_pos_bound(by, sorted, x);
    if sorted.len() > 0 && !key_lt(by, x, sorted[0]) {
        let d = sorted.drop_first();
        lemma_insert_pos_props(by, d, x);
        lemma_insert_pos_bound(by, d, x);
        assert forall|j: int| 0 <= j < insert_pos(by, sorted, x) implies !key_lt(by, x, #[trigger] sorted[j]) by {
            if j > 0 {
                assert(sorted[j] == d[j - 1]);
            }
        }
        if insert_pos(by, sorted, x) < sorted.len() {
            assert(sorted[insert_pos(by, sorted, x)] == d[insert_pos(by, d, x)]);
        }
    }
}

proof fn lemma_stable_sort_sorted(by: SortBy, s: Seq<FileInfo>)
    ensures
        ascending(by, stable_sort(by, s)),
        stable_sort(by, s).to_multiset() == s.to_multiset(),
        stable_sort(by, s).len() == s.len(),
    decreases s.len(),
{
    if s.len() > 0 {
        let ps = s.drop_last();
        let prev = stable_sort(by, ps);
        let x = s.last();
        lemma_stable_sort_sorted(by, ps);
        lemma_insert_pos_bound(by, prev, x);
        lemma_insert_pos_props(by, prev, x);
        let p = insert_pos(by, prev, x);
        let out = prev.insert(p, x);
        assert(out == stable_sort(by, s));
        prev.insert_ensures(p, x);
        assert forall|i: int, j: int| 0 <= i < j < out.len() implies !key_lt(by, #[trigger] out[j], #[trigger] out[i]) by {
            if j < p {
                assert(out[i] == prev[i]);
                assert(out[j] == prev[j]);
            } else if j == p {
                assert(out[i] == prev[i]);
            } else if i < p {
                assert(out[i] == prev[i]);
                assert(out[j] == prev[j - 1]);
                if key_lt(by, prev[j - 1], prev[i]) {
                    assert(!key_lt(by, prev[j - 1], prev[i]));
                }
            } else if i == p {
                assert(out[j] == prev[j - 1]);
                assert(key_lt(by, x, prev[p]));
                if key_lt(by, prev[j - 1], x) {
                    lemma_key_lt_transitive(by, prev[j - 1], x, prev[p]);
                    if p < j - 1 {
                        assert(!key_lt(by, prev[j - 1], prev[p]));
                    } else {
                        lemma_key_lt_irreflexive(by, prev[p]);
                    }
                }
            } else {
                assert(out[i] == prev[i - 1]);
                assert(out[j] == prev[j - 1]);
            }
        }
        vstd::seq_lib::to_multiset_insert(prev, p, x);
        assert(s =~= ps.push(x));
        vstd::seq_lib::to_multiset_build(ps, x);
    }
}

/// Sorting orders the files by the configured key, ascending or descending, and
/// keeps every file exactly once.
pub proof fn lemma_ordered_sorted(cfg: FileDiscoveryConfig, s: Seq<FileInfo>)
    ensures
        ordered(cfg, s).len() == s.len(),
        ordered(cfg, s).to_multiset() == s.to_multiset(),
        cfg.sort_order == SortOrder::Asc ==> ascending(cfg.sort_by, ordered(cfg, s)),
        cfg.sort_order == SortOrder::Desc ==> forall|i: int, j: int|
            0 <= i < j < s.len() ==> !key_lt(cfg.sort_by, #[trigger] ordered(cfg, s)[i], #[trigger] ordered(cfg, s)[j]),
{
    let asc = stable_sort(cfg.sort_by, s);
    lemma_stable_sort_sorted(cfg.sort_by, s);
    if cfg.sort_order == SortOrder::Desc {
        let o = asc.reverse();
        assert(o == ordered(cfg, s));
        assert forall|i: int, j: int| 0 <= i < j < s.len() implies !key_lt(cfg.sort_by, #[trigger] o[i], #[trigger] o[j]) by {
            assert(o[i] == asc[asc.len() - 1 - i]);
            assert(o[j] == asc[asc.len() - 1 - j]);
        }
        asc.lemma_reverse_to_multiset();
    }
}

proof fn lemma_last_max_mtime_is_max(s: Seq<FileInfo>)
    requires
        s.len() > 0,
    ensures
        forall|j: int| 0 <= j < s.len() ==> (#[trigger] s[j]).mtime <= s[last_max_mtime(s)].mtime,
        0 <= last_max_mtime(s) < s.len(),
    decreases s.len(),
{
    lemma_last_max_mtime_bound(s);
    if s.len() > 1 {
        let d = s.drop_last();
        lemma_last_max_mtime_is_max(d);
        assert forall|j: int| 0 <= j < s.len() implies (#[trigger] s[j]).mtime <= s[last_max_mtime(s)].mtime by {
            if j < s.len() - 1 {
                assert(s[j] == d[j]);
                assert(d[last_max_mtime(d)] == s[last_max_mtime(d)]);
            }
        }
    }
}

/// Choosing the latest file picks one of the files, and no file is more recent than it.
pub proof fn lemma_latest_is_newest(cfg: FileDiscoveryConfig, s: Seq<FileInfo>)
    requires
        cfg.auto_select == AutoSelect::Latest,
        s.len() > 0,
    ensures
        auto_choice(cfg, s) matches Some(f) && s.contains(f) && forall|j: int|
            0 <= j < s.len() ==> (#[trigger] s[j]).mtime <= f.mtime,
{
    let o = ordered(cfg, s);
    lemma_ordered_sorted(cfg, s);
    let f = auto_choice(cfg, s)->0;
    let k = if cfg.sort_by == SortBy::Mtime && cfg.sort_order == SortOrder::Desc {
        0
    } else {
        last_max_mtime(o)
    };
    lemma_last_max_mtime_is_max(o);
    assert(f == o[k]);
    assert forall|j: int| 0 <= j < o.len() implies (#[trigger] o[j]).mtime <= f.mtime by {
        if cfg.sort_by == SortBy::Mtime && cfg.sort_order == SortOrder::Desc {
            if j > 0 {
                assert(!key_lt(cfg.sort_by, o[0], o[j]));
            }
        }
    }
    assert(o.contains(f));
    vstd::seq_lib::to_multiset_contains(o, f);
    vstd::seq_lib::to_multiset_contains(s, f);
    assert forall|j: int| 0 <= j < s.len() implies (#[trigger] s[j]).mtime <= f.mtime by {
        let g = s[j];
        assert(s.contains(g));
        vstd::seq_lib::to_multiset_contains(s, g);
        vstd::seq_lib::to_multiset_contains(o, g);
        let m = choose|m: int| 0 <= m < o.len() && o[m] == g;
        assert(o[m].mtime <= f.mtime);
    }
}
} // verus!
