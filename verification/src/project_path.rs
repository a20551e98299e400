use crate::text::{chars_of, push_char, push_str, string_of};
use vstd::prelude::*;

verus! {

/// Error code for a refused project path.
pub const PROJECT_PATH_INVALID: &'static str = "PROJECT_PATH_INVALID";

/// Error code for a path that resolves outside the project root.
pub const PROJECT_PATH_ESCAPE: &'static str = "PROJECT_PATH_ESCAPE";

/// The first rule that a project path breaks.
#[derive(Debug, Clone, Copy, PartialEq, Eq, Structural)]
pub enum PathRejection {
    Empty,
    NulByte,
    Backslash,
    Absolute,
    DrivePrefix,
    PlatformPrefix,
    EmptySegment,
    CurrentDirectory,
    ParentDirectory,
}

/// Index of the first `/` at or after `i`, or the length when there is none.
pub open spec fn next_slash(s: Seq<char>, i: int) -> int
    decreases s.len() - i,
{
    if i >= s.len() {
        s.len() as int
    } else if s[i] == '/' {
        i
    } else {
        next_slash(s, i + 1)
    }
}

/// How the segment `s[start..end]` breaks the segment rules, if it does.
pub open spec fn bad_segment(seg: Seq<char>) -> Option<PathRejection> {
    if seg.len() == 0 {
        Some(PathRejection::EmptySegment)
    } else if seg =~= seq!['.'] {
        Some(PathRejection::CurrentDirectory)
    } else if seg =~= seq!['.', '.'] {
        Some(PathRejection::ParentDirectory)
    } else {
        None
    }
}

/// The first `/`-separated segment from `start` on that is empty, `.` or `..`.
pub open spec fn segment_rejection(s: Seq<char>, start: int) -> Option<PathRejection>
    decreases s.len() - start,
{
    if start < 0 || start > s.len() {
        None
    } else {
        let end = next_slash(s, start);
        if end < start {
            None
        } else {
            match bad_segment(s.subrange(start, end)) {
                Some(r) => Some(r),
                None => if end >= s.len() {
                    None
                } else {
                    segment_rejection(s, end + 1)
                },
            }
        }
    }
}

/// An ASCII letter.
pub open spec fn is_ascii_alphabetic(c: char) -> bool {
    (0x41 <= c as u32 <= 0x5a) || (0x61 <= c as u32 <= 0x7a)
}

/// The first rule that `s` breaks as a project-relative logical path, if any.
pub open spec fn path_rejection(s: Seq<char>) -> Option<PathRejection> {
    if s.len() == 0 {
        Some(PathRejection::Empty)
    } else if s.contains('\0') {
        Some(PathRejection::NulByte)
    } else if s.contains('\\') {
        Some(PathRejection::Backslash)
    } else if s[0] == '/' {
        Some(PathRejection::Absolute)
    } else if s.len() >= 2 && is_ascii_alphabetic(s[0]) && s[1] == ':' {
        Some(PathRejection::DrivePrefix)
    } else if s.contains(':') {
        Some(PathRejection::PlatformPrefix)
    } else {
        segment_rejection(s, 0)
    }
}

/// The explanation attached to each rejection.
pub open spec fn rejection_reason(r: PathRejection) -> Seq<char> {
    match r {
        PathRejection::Empty => "path is empty"@,
        PathRejection::NulByte => "path contains a NUL byte"@,
        PathRejection::Backslash => "backslash separators and Windows path forms are not allowed"@,
        PathRejection::Absolute => "absolute paths are not allowed"@,
        PathRejection::DrivePrefix => "Windows drive prefixes are not allowed"@,
        PathRejection::PlatformPrefix => "platform path prefixes and alternate streams are not allowed"@,
        PathRejection::EmptySegment => "empty path segments are not allowed"@,
        PathRejection::CurrentDirectory => "current-directory segments are not allowed"@,
        PathRejection::ParentDirectory => "parent-directory traversal is not allowed"@,
    }
}

fn reason_text(r: PathRejection) -> (t: &'static str)
    ensures
        t@ == rejection_reason(r),
{
    match r {
        PathRejection::Empty => "path is empty",
        PathRejection::NulByte => "path contains a NUL byte",
        PathRejection::Backslash => "backslash separators and Windows path forms are not allowed",
        PathRejection::Absolute => "absolute paths are not allowed",
        PathRejection::DrivePrefix => "Windows drive prefixes are not allowed",
        PathRejection::PlatformPrefix => "platform path prefixes and alternate streams are not allowed",
        PathRejection::EmptySegment => "empty path segments are not allowed",
        PathRejection::CurrentDirectory => "current-directory segments are not allowed",
        PathRejection::ParentDirectory => "parent-directory traversal is not allowed",
    }
}

/// A refused project path, with a machine-readable code.
#[derive(Debug, Clone, PartialEq, Eq)]
pub struct ProjectPathError {
    pub code: String,
    pub path: String,
    pub reason: String,
}

impl ProjectPathError {
    /// An `invalid` error for `path` with the reason of `r`.
    pub fn invalid(path: &str, r: PathRejection) -> (e: Self)
        ensures
            e.code@ == PROJECT_PATH_INVALID@,
            e.path@ == path@,
            e.reason@ == rejection_reason(r),
    {
        ProjectPathError {
            code: string_of(PROJECT_PATH_INVALID),
            path: string_of(path),
            reason: string_of(reason_text(r)),
        }
    }

    /// An `escape` error for `path` with the given reason.
    pub fn escape(path: &ProjectPath, reason: &str) -> (e: Self)
        ensures
            e.code@ == PROJECT_PATH_ESCAPE@,
            e.path@ == path.view(),
            e.reason@ == reason@,
    {
        ProjectPathError {
            code: string_of(PROJECT_PATH_ESCAPE),
            path: string_of(path.as_str()),
            reason: string_of(reason),
        }
    }
}

/// A UTF-8, forward-slash, project-relative logical path.
#[derive(Debug, PartialEq, Eq, PartialOrd, Ord, Hash)]
pub struct ProjectPath {
    value: String,
}

proof fn lemma_next_slash(s: Seq<char>, a: int, b: int)
    requires
        0 <= a <= b <= s.len(),
        forall|k: int| a <= k < b ==> s[k] != '/',
        b == s.len() || s[b] == '/',
    ensures
        next_slash(s, a) == b,
    decreases b - a,
{
    if a < b {
        lemma_next_slash(s, a + 1, b);
    }
}

fn find_char(s: &Vec<char>, c: char) -> (r: bool)
    ensures
        r == s@.contains(c),
{
    let mut i: usize = 0;
    while i < s.len()
        invariant
            i <= s@.len(),
            forall|j: int| 0 <= j < i ==> s@[j] != c,
        decreases s@.len() - i,
    {
        if s[i] == c {
            assert(s@[i as int] == c);
            return true;
        }
        i = i + 1;
    }
    false
}

fn classify_segment(s: &Vec<char>, start: usize, end: usize) -> (r: Option<PathRejection>)
    requires
        start <= end <= s@.len(),
    ensures
        r == bad_segment(s@.subrange(start as int, end as int)),
{
    let ghost seg = s@.subrange(start as int, end as int);
    let len = end - start;
    if len == 0 {
        return Some(PathRejection::EmptySegment);
    }
    if len == 1 && s[start] == '.' {
        assert(seg =~= seq!['.']);
        return Some(PathRejection::CurrentDirectory);
    }
    if len == 2 && s[start] == '.' && s[start + 1] == '.' {
        assert(seg =~= seq!['.', '.']);
        return Some(PathRejection::ParentDirectory);
    }
    proof {
        if len == 1 {
            assert(seg[0] != '.');
            assert(!(seg =~= seq!['.', '.']));
        } else if len == 2 {
            assert(!(seg =~= seq!['.']));
        } else {
            assert(!(seg =~= seq!['.']));
            assert(!(seg =~= seq!['.', '.']));
        }
    }
    None
}

fn first_bad_segment(s: &Vec<char>) -> (r: Option<PathRejection>)
    ensures
        r == segment_rejection(s@, 0),
{
    let n = s.len();
    let mut start: usize = 0;
    let mut i: usize = 0;
    while i < n
        invariant
            n == s@.len(),
            start <= i <= n,
            forall|k: int| start <= k < i ==> s@[k] != '/',
            segment_rejection(s@, 0) == segment_rejection(s@, start as int),
        decreases n - i,
    {
        if s[i] == '/' {
            proof {
                lemma_next_slash(s@, start as int, i as int);
            }
            let bad = classify_segment(s, start, i);
            if bad.is_some() {
                return bad;
            }
            start = i + 1;
        }
        i = i + 1;
    }
    proof {
        lemma_next_slash(s@, start as int, n as int);
    }
    classify_segment(s, start, n)
}

fn rejection_of(value: &str) -> (r: Option<PathRejection>)
    ensures
        r == path_rejection(value@),
{
    let s = chars_of(value);
    if s.len() == 0 {
        return Some(PathRejection::Empty);
    }
    if find_char(&s, '\0') {
        return Some(PathRejection::NulByte);
    }
    if find_char(&s, '\\') {
        return Some(PathRejection::Backslash);
    }
    if s[0] == '/' {
        return Some(PathRejection::Absolute);
    }
    if s.len() >= 2 {
        let c0 = s[0] as u32;
        if ((0x41 <= c0 && c0 <= 0x5a) || (0x61 <= c0 && c0 <= 0x7a)) && s[1] == ':' {
            return Some(PathRejection::DrivePrefix);
        }
    }
    if find_char(&s, ':') {
        return Some(PathRejection::PlatformPrefix);
    }
    first_bad_segment(&s)
}

impl Clone for ProjectPath {
    fn clone(&self) -> (r: Self)
        ensures
            r == *self,
    {
        ProjectPath { value: self.value.clone() }
    }
}

impl ProjectPath {
    /// The characters of the path.
    pub closed spec fn view(&self) -> Seq<char> {
        self.value@
    }

    /// Validates `value` as a project-relative logical path.
    pub fn new(value: &str) -> (r: Result<Self, ProjectPathError>)
        ensures
            r is Ok <==> path_rejection(value@) is None,
            r matches Ok(p) ==> p.view() == value@,
            r matches Err(e) ==> {
                &&& e.code@ == PROJECT_PATH_INVALID@
                &&& e.path@ == value@
                &&& e.reason@ == rejection_reason(path_rejection(value@)->Some_0)
            },
    {
        match rejection_of(value) {
            Some(r) => Err(ProjectPathError::invalid(value, r)),
            None => Ok(ProjectPath { value: string_of(value) }),
        }
    }

    /// The path text.
    pub fn as_str(&self) -> (s: &str)
        ensures
            s@ == self.view(),
    {
        self.value.as_str()
    }

    /// `self/child`, validated as a whole.
    pub fn join(&self, child: &str) -> (r: Result<Self, ProjectPathError>)
        ensures
            ({
                let joined = self.view().push('/') + child@;
                &&& r is Ok <==> path_rejection(joined) is None
                &&& r matches Ok(p) ==> p.view() == joined
                &&& r matches Err(e) ==> {
                    &&& e.code@ == PROJECT_PATH_INVALID@
                    &&& e.path@ == joined
                    &&& e.reason@ == rejection_reason(path_rejection(joined)->Some_0)
                }
            }),
    {
        let mut joined = string_of(self.value.as_str());
        push_char(&mut joined, '/');
        push_str(&mut joined, child);
        Self::new(joined.as_str())
    }

    /// Whether two paths are the same text.
    pub fn same(&self, other: &Self) -> (r: bool)
        ensures
            r == (self.view() == other.view()),
    {
        self.value == other.value
    }
}

} // verus!
