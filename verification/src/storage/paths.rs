//! Path handling for the persistent data root: Unix path components,
//! file names, sanitising user-supplied names, and the data-root mount
//! check.
use vstd::prelude::*;
use crate::text::{last_index_of, lemma_trim_shape, owned, rfind_char, seq_eq, split, split_char, substring, trim, trim_str, views};

verus! {

/// Start of the path segment that ends at `j`: one past the nearest `/` before `j`.
pub open spec fn seg_start(s: Seq<char>, j: int) -> int
    decreases j,
{
    if j <= 0 || j > s.len() {
        0
    } else if s[j - 1] == '/' {
        j
    } else {
        seg_start(s, j - 1)
    }
}

pub proof fn lemma_seg_start(s: Seq<char>, j: int)
    requires
        0 <= j <= s.len(),
    ensures
        0 <= seg_start(s, j) <= j,
        forall|k: int| seg_start(s, j) <= k < j ==> #[trigger] s[k] != '/',
        seg_start(s, j) > 0 ==> s[seg_start(s, j) - 1] == '/',
    decreases j,
{
    if j > 0 && s[j - 1] != '/' {
        lemma_seg_start(s, j - 1);
    }
}

pub open spec fn dot() -> Seq<char> {
    seq!['.']
}

pub open spec fn dot_dot() -> Seq<char> {
    seq!['.', '.']
}

/// Where the file name of the path `s[..j]` lies: its last segment that is
/// neither empty nor `.`, unless that segment is `..`.
pub open spec fn file_name_span_from(s: Seq<char>, j: int) -> Option<(int, int)>
    decreases j,
{
    if j < 0 || j > s.len() {
        None
    } else {
        let k = seg_start(s, j);
        proof {
            lemma_seg_start(s, j);
        }
        let seg = s.subrange(k, j);
        if seg.len() == 0 || seg == dot() {
            if k == 0 {
                None
            } else {
                file_name_span_from(s, k - 1)
            }
        } else if seg == dot_dot() {
            None
        } else {
            Some((k, j))
        }
    }
}

pub open spec fn file_name_span(s: Seq<char>) -> Option<(int, int)> {
    file_name_span_from(s, s.len() as int)
}

/// `Path::new(s).file_name()` on Unix.
pub open spec fn file_name(s: Seq<char>) -> Option<Seq<char>> {
    match file_name_span(s) {
        Some((k, j)) => Some(s.subrange(k, j)),
        None => None,
    }
}

pub proof fn lemma_file_name_span(s: Seq<char>, j: int)
    requires
        0 <= j <= s.len(),
    ensures
        file_name_span_from(s, j) matches Some((a, b)) ==> 0 <= a < b <= j && s.subrange(a, b) != dot()
            && s.subrange(a, b) != dot_dot() && (forall|k: int| a <= k < b ==> #[trigger] s[k] != '/'),
    decreases j,
{
    lemma_seg_start(s, j);
    let k = seg_start(s, j);
    let seg = s.subrange(k, j);
    if seg.len() == 0 || seg == dot() {
        if k > 0 {
            lemma_file_name_span(s, k - 1);
        }
    }
}

pub proof fn lemma_file_name_shape(s: Seq<char>)
    ensures
        file_name(s) matches Some(n) ==> n.len() > 0 && n != dot() && n != dot_dot() && (forall|k: int|
            0 <= k < n.len() ==> #[trigger] n[k] != '/'),
{
    lemma_file_name_span(s, s.len() as int);
    if let Some((a, b)) = file_name_span(s) {
        let n = s.subrange(a, b);
        assert forall|t: int| 0 <= t < n.len() implies #[trigger] n[t] != '/' by {
            assert(n[t] == s[a + t]);
        }
    }
}

fn is_dot_segment(s: &str, k: usize, j: usize) -> (r: (bool, bool))
    requires
        k <= j <= s@.len(),
    ensures
        r.0 == (s@.subrange(k as int, j as int) == dot()),
        r.1 == (s@.subrange(k as int, j as int) == dot_dot()),
{
    let seg = s.substring_char(k, j);
    let one = seq_eq(seg, ".");
    let two = seq_eq(seg, "..");
    proof {
        reveal_strlit(".");
        reveal_strlit("..");
        assert(".".view() =~= dot());
        assert("..".view() =~= dot_dot());
    }
    (one, two)
}

/// Where the file name of `s` lies, as character indices.
pub fn path_file_name_span(s: &str) -> (r: Option<(usize, usize)>)
    ensures
        match r {
            Some((a, b)) => file_name_span(s@) == Some((a as int, b as int)),
            None => file_name_span(s@) is None,
        },
{
    let n = s.unicode_len();
    let mut j: usize = n;
    loop
        invariant
            n == s@.len(),
            j <= n,
            file_name_span(s@) == file_name_span_from(s@, j as int),
        decreases j,
    {
        let mut k: usize = j;
        while k > 0
            invariant
                n == s@.len(),
                k <= j <= n,
                seg_start(s@, j as int) == seg_start(s@, k as int),
            ensures
                k <= j,
                seg_start(s@, j as int) == seg_start(s@, k as int),
                k == 0 || s@[k - 1] == '/',
            decreases k,
        {
            if s.get_char(k - 1) == '/' {
                break;
            }
            k = k - 1;
        }
        proof {
            lemma_seg_start(s@, k as int);
            assert(seg_start(s@, k as int) == k);
        }
        let (one, two) = is_dot_segment(s, k, j);
        if k == j || one {
            if k == 0 {
                return None;
            }
            j = k - 1;
        } else if two {
            return None;
        } else {
            return Some((k, j));
        }
    }
}

/// `Path::new(s).file_name()`.
pub fn path_file_name(s: &str) -> (r: Option<String>)
    ensures
        match r {
            Some(n) => file_name(s@) == Some(n@),
            None => file_name(s@) is None,
        },
{
    proof {
        lemma_file_name_span(s@, s@.len() as int);
    }
    match path_file_name_span(s) {
        Some((a, b)) => Some(substring(s, a, b)),
        None => None,
    }
}

/// The stem and the extension of a file name, split at its last `.`
/// (a name that starts with its only `.`, and `..`, have no extension).
pub open spec fn split_at_dot(name: Seq<char>) -> (Seq<char>, Option<Seq<char>>) {
    if name == dot_dot() {
        (name, None)
    } else {
        match last_index_of(name, '.') {
            None => (name, None),
            Some(i) => if i == 0 {
                (name, None)
            } else {
                (name.subrange(0, i), Some(name.subrange(i + 1, name.len() as int)))
            },
        }
    }
}

/// `Path::new(s).extension()`.
pub open spec fn extension(s: Seq<char>) -> Option<Seq<char>> {
    match file_name(s) {
        Some(n) => split_at_dot(n).1,
        None => None,
    }
}

/// `Path::new(s).with_extension(ext)`: the path cut after the stem of its
/// file name, then `.ext` when `ext` is not empty; unchanged without a file name.
pub open spec fn with_extension(s: Seq<char>, ext: Seq<char>) -> Seq<char> {
    match file_name_span(s) {
        None => s,
        Some((k, j)) => {
            let stem = split_at_dot(s.subrange(k, j)).0;
            s.subrange(0, k + stem.len()) + if ext.len() > 0 {
                "."@ + ext
            } else {
                Seq::empty()
            }
        },
    }
}

/// The stem length and the extension of a file name.
fn split_name_at_dot(name: &str) -> (r: (usize, Option<String>))
    ensures
        r.0 == split_at_dot(name@).0.len(),
        r.0 <= name@.len(),
        match r.1 {
            Some(e) => split_at_dot(name@).1 == Some(e@),
            None => split_at_dot(name@).1 is None,
        },
{
    let n = name.unicode_len();
    let (_, two) = is_dot_segment(name, 0, n);
    assert(name@.subrange(0, n as int) =~= name@);
    if two {
        return (n, None);
    }
    match rfind_char(name, '.') {
        None => (n, None),
        Some(i) => if i == 0 {
            (n, None)
        } else {
            (i, Some(substring(name, i + 1, n)))
        },
    }
}

/// `Path::new(s).extension()`.
pub fn path_extension(s: &str) -> (r: Option<String>)
    ensures
        match r {
            Some(e) => extension(s@) == Some(e@),
            None => extension(s@) is None,
        },
{
    match path_file_name(s) {
        Some(name) => split_name_at_dot(name.as_str()).1,
        None => None,
    }
}

/// `Path::new(s).with_extension(ext)`.
pub fn path_with_extension(s: &str, ext: &str) -> (r: String)
    ensures
        r@ == with_extension(s@, ext@),
{
    proof {
        lemma_file_name_span(s@, s@.len() as int);
    }
    match path_file_name_span(s) {
        None => owned(s),
        Some((k, j)) => {
            let name = s.substring_char(k, j);
            let (stem_len, _) = split_name_at_dot(name);
            let mut out = substring(s, 0, k + stem_len);
            if ext.unicode_len() > 0 {
                out.append(".");
                out.append(ext);
            } else {
                assert(out@ =~= out@ + Seq::<char>::empty());
            }
            out
        },
    }
}

/// `sanitize_name`: the file name of the trimmed input, if any.
pub open spec fn sanitized(raw: Seq<char>) -> Option<Seq<char>> {
    let t = trim(raw);
    if t.len() == 0 {
        None
    } else {
        file_name(t)
    }
}

/// Sanitizes a user-provided file name by stripping paths and trimming whitespace.
pub fn sanitize_name(raw: &str) -> (r: Option<String>)
    ensures
        match r {
            Some(n) => sanitized(raw@) == Some(n@),
            None => sanitized(raw@) is None,
        },
{
    let trimmed = trim_str(raw);
    if trimmed.unicode_len() == 0 {
        return None;
    }
    path_file_name(trimmed)
}

/// A sanitized name is a single, non-empty path segment that is neither
/// `.` nor `..`.
pub proof fn lemma_sanitized_is_plain_name(raw: Seq<char>)
    ensures
        sanitized(raw) matches Some(n) ==> n.len() > 0 && n != dot() && n != dot_dot() && (forall|k: int|
            0 <= k < n.len() ==> #[trigger] n[k] != '/'),
{
    let t = trim(raw);
    lemma_trim_shape(raw);
    lemma_file_name_shape(t);
}

/// The segments of a path that are neither empty nor `.`, in order.
pub open spec fn normal_segments(segs: Seq<Seq<char>>) -> Seq<Seq<char>>
    decreases segs.len(),
{
    if segs.len() == 0 {
        Seq::empty()
    } else {
        let rest = normal_segments(segs.drop_last());
        if segs.last().len() == 0 || segs.last() == dot() {
            rest
        } else {
            rest.push(segs.last())
        }
    }
}

/// What `Path` compares: whether the path is rooted, whether it starts
/// with a `.` component, and its remaining components.
pub struct PathKey {
    pub rooted: bool,
    pub leading_dot: bool,
    pub names: Vec<String>,
}

pub type PathKeyView = (bool, bool, Seq<Seq<char>>);

impl View for PathKey {
    type V = PathKeyView;

    open spec fn view(&self) -> PathKeyView {
        (self.rooted, self.leading_dot, views(self.names@))
    }
}

/// The components of a Unix path as `Path::components` yields them.
pub open spec fn path_key(s: Seq<char>) -> PathKeyView {
    let rooted = s.len() > 0 && s[0] == '/';
    let leading_dot = !rooted && s.len() > 0 && s[0] == '.' && (s.len() == 1 || s[1] == '/');
    (rooted, leading_dot, normal_segments(split(s, '/')))
}

pub fn path_key_of(s: &str) -> (r: PathKey)
    ensures
        r@ == path_key(s@),
{
    let n = s.unicode_len();
    let rooted = n > 0 && s.get_char(0) == '/';
    let leading_dot = !rooted && n > 0 && s.get_char(0) == '.' && (n == 1 || s.get_char(1) == '/');
    let segs = split_char(s, '/');
    let ghost sv = views(segs@);
    let mut names: Vec<String> = Vec::new();
    let mut i: usize = 0;
    while i < segs.len()
        invariant
            i <= segs@.len(),
            sv == views(segs@),
            views(names@) == normal_segments(sv.subrange(0, i as int)),
        decreases segs@.len() - i,
    {
        let seg = segs[i].as_str();
        let ghost prev = sv.subrange(0, i as int);
        assert(sv.subrange(0, i + 1).drop_last() =~= prev);
        let len = seg.unicode_len();
        let (one, _) = is_dot_segment(seg, 0, len);
        assert(seg@.subrange(0, len as int) =~= seg@);
        if !(len == 0 || one) {
            names.push(segs[i].clone());
            assert(views(names@) =~= normal_segments(prev).push(sv[i as int]));
        }
        i = i + 1;
    }
    assert(sv.subrange(0, sv.len() as int) =~= sv);
    PathKey { rooted, leading_dot, names }
}

fn names_eq(a: &Vec<String>, b: &Vec<String>, upto: usize) -> (r: bool)
    requires
        upto <= a@.len(),
        upto <= b@.len(),
    ensures
        r == (views(a@).subrange(0, upto as int) == views(b@).subrange(0, upto as int)),
{
    let mut i: usize = 0;
    while i < upto
        invariant
            upto <= a@.len(),
            upto <= b@.len(),
            i <= upto,
            forall|k: int| 0 <= k < i ==> a@[k]@ == b@[k]@,
        decreases upto - i,
    {
        if !seq_eq(a[i].as_str(), b[i].as_str()) {
            assert(views(a@).subrange(0, upto as int)[i as int] != views(b@).subrange(0, upto as int)[i as int]);
            return false;
        }
        i = i + 1;
    }
    assert(views(a@).subrange(0, upto as int) =~= views(b@).subrange(0, upto as int));
    true
}

/// `Path::new(a) == Path::new(b)`.
pub open spec fn same_path(a: Seq<char>, b: Seq<char>) -> bool {
    path_key(a) == path_key(b)
}

pub fn paths_equal(a: &str, b: &str) -> (r: bool)
    ensures
        r == same_path(a@, b@),
{
    let ka = path_key_of(a);
    let kb = path_key_of(b);
    if ka.rooted != kb.rooted || ka.leading_dot != kb.leading_dot || ka.names.len() != kb.names.len() {
        assert(views(ka.names@).len() == ka.names@.len());
        assert(views(kb.names@).len() == kb.names@.len());
        assert(ka@ != kb@);
        return false;
    }
    let r = names_eq(&ka.names, &kb.names, ka.names.len());
    assert(views(ka.names@).subrange(0, ka.names@.len() as int) =~= views(ka.names@));
    assert(views(kb.names@).subrange(0, kb.names@.len() as int) =~= views(kb.names@));
    r
}

/// `Path::new(path).starts_with(base)`: the components of `base` are a
/// prefix of the components of `path` (a base with no component at all is
/// a prefix of every path).
pub open spec fn path_starts_with(path: Seq<char>, base: Seq<char>) -> bool {
    let p = path_key(path);
    let b = path_key(base);
    (!b.0 && !b.1 && b.2.len() == 0) || (p.0 == b.0 && p.1 == b.1 && b.2.len() <= p.2.len() && p.2.subrange(
        0,
        b.2.len() as int,
    ) == b.2)
}

pub fn path_starts_with_exec(path: &str, base: &str) -> (r: bool)
    ensures
        r == path_starts_with(path@, base@),
{
    let kp = path_key_of(path);
    let kb = path_key_of(base);
    if !kb.rooted && !kb.leading_dot && kb.names.len() == 0 {
        return true;
    }
    if kp.rooted != kb.rooted || kp.leading_dot != kb.leading_dot || kb.names.len() > kp.names.len() {
        return false;
    }
    let r = names_eq(&kp.names, &kb.names, kb.names.len());
    assert(views(kb.names@).subrange(0, kb.names@.len() as int) =~= views(kb.names@));
    r
}

/// Where the persistent DATA partition is mounted.
pub open spec fn data_mount_root() -> Seq<char> {
    "/var/lib/helios"@
}

/// What is wrong, if anything, with a data root under the DATA mount point.
#[derive(Debug, Clone, Copy, PartialEq, Eq)]
pub enum DataRootMountWarning {
    /// Nothing to report.
    Fine,
    /// The data root is under the mount point, but the mount point is missing.
    MountPointMissing,
    /// The mount point exists, but nothing is mounted on it.
    PartitionNotMounted,
}

pub open spec fn data_root_warning(path: Seq<char>, mount_root_exists: bool, mount_root_is_mountpoint: bool) -> DataRootMountWarning {
    if !path_starts_with(path, data_mount_root()) {
        DataRootMountWarning::Fine
    } else if !mount_root_exists {
        DataRootMountWarning::MountPointMissing
    } else if !mount_root_is_mountpoint {
        DataRootMountWarning::PartitionNotMounted
    } else {
        DataRootMountWarning::Fine
    }
}

/// Decides which warning a resolved data root deserves, given what the
/// file system says about `/var/lib/helios`.
pub fn data_root_mount_warning(path: &str, mount_root_exists: bool, mount_root_is_mountpoint: bool) -> (r: DataRootMountWarning)
    ensures
        r == data_root_warning(path@, mount_root_exists, mount_root_is_mountpoint),
{
    if !path_starts_with_exec(path, "/var/lib/helios") {
        return DataRootMountWarning::Fine;
    }
    if !mount_root_exists {
        return DataRootMountWarning::MountPointMissing;
    }
    if !mount_root_is_mountpoint {
        return DataRootMountWarning::PartitionNotMounted;
    }
    DataRootMountWarning::Fine
}

/// A path is a mount point when it lies on another device than its parent.
pub fn is_mount_boundary(device: u64, parent_device: u64) -> (r: bool)
    ensures
        r == (device != parent_device),
{
    device != parent_device
}

/// The data root the handlers use. A root that tests installed wins;
/// otherwise the root resolved once at start-up, or the error that
/// resolving it gave.
pub fn data_root_path(test_root: &Option<String>, resolved: &Result<String, String>) -> (r: Result<String, String>)
    ensures
        test_root matches Some(t) ==> r == Ok::<String, String>(*t),
        test_root is None ==> r == *resolved,
{
    match test_root {
        Some(t) => Ok(t.clone()),
        None => match resolved {
            Ok(p) => Ok(p.clone()),
            Err(e) => Err(e.clone()),
        },
    }
}

/// Installs a data root for tests. Only the first one sticks: once a root
/// is set, later calls leave it as it is.
pub fn set_data_root_for_tests(slot: &mut Option<String>, path: String)
    ensures
        (*old(slot)) is Some ==> *final(slot) == *old(slot),
        (*old(slot)) is None ==> *final(slot) == Some(path),
{
    if slot.is_none() {
        *slot = Some(path);
    }
}

/// The answer once resolution has been tried: the first one stays; before
/// any, a fresh resolution (when one is handed over) becomes the answer.
pub open spec fn settled(prev: Option<Result<String, String>>, fresh: Option<Result<String, String>>) -> Option<
    Result<String, String>,
> {
    match prev {
        Some(v) => Some(v),
        None => fresh,
    }
}

/// The data root as this process resolved it: not yet, the root, or why
/// it could not be resolved. Resolution happens at most once; a failure is
/// kept like a success and never retried.
#[derive(Debug, Clone, PartialEq, Eq)]
pub struct DataRootResolution {
    pub resolved: Option<Result<String, String>>,
}

impl DataRootResolution {
    pub fn new() -> (r: DataRootResolution)
        ensures
            r.resolved is None,
    {
        DataRootResolution { resolved: None }
    }

    /// A resolution is needed: no test root is installed and none was made.
    pub fn needs_resolution(&self, test_root: &Option<String>) -> (r: bool)
        ensures
            r == (test_root is None && self.resolved is None),
    {
        test_root.is_none() && self.resolved.is_none()
    }

    /// The data root the handlers use: a root that tests installed wins and
    /// leaves the resolution untouched; otherwise the first resolution, made
    /// from `fresh` when none was made yet. Nothing when a resolution was
    /// needed and none was handed over.
    pub fn data_root(&mut self, test_root: &Option<String>, fresh: Option<Result<String, String>>) -> (r: Option<
        Result<String, String>,
    >)
        ensures
            test_root matches Some(t) ==> r == Some(Ok::<String, String>(*t)) && *final(self) == *old(self),
            test_root is None ==> r == settled(old(self).resolved, fresh) && final(self).resolved == r,
    {
        if let Some(t) = test_root {
            return Some(Ok(t.clone()));
        }
        if self.resolved.is_none() {
            self.resolved = fresh;
        }
        match &self.resolved {
            Some(a) => Some(data_root_path(test_root, a)),
            None => None,
        }
    }
}

/// The data root is resolved once: after a call that settled it, every
/// later call gives the same answer, whatever resolution it is handed.
pub proof fn law_data_root_is_resolved_once(
    prev: Option<Result<String, String>>,
    first: Option<Result<String, String>>,
    later: Option<Result<String, String>>,
)
    requires
        settled(prev, first) is Some,
    ensures
        settled(settled(prev, first), later) == settled(prev, first),
{
}

} // verus!
