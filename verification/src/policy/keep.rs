use crate::config::Config;
use crate::glob::{glob_hits, glob_match, glob_verdict, pattern_matches};
use crate::scanner::dedup::path_within;
use crate::scanner::walker::{join_path, joined};
use crate::scanner::ProjectInfo;
use crate::text::{
    back_space, chars_contain, find_char, opt_text, position_of, skip_space,
    skip_spaces, slice_to_string, string_texts, to_chars, trim_end,
};
use crate::trash::skip_slashes;
use vstd::prelude::*;
use vstd::string::*;

verus! {

/// Whether a target is protected from cleaning, and by what.
#[derive(Debug)]
pub struct ProtectionDecision {
    pub protected: bool,
    pub reason: Option<String>,
}

/// Why a keep pattern could not be applied.
#[derive(Clone, Copy, Debug, PartialEq, Eq, Structural)]
pub enum PatternError {
    /// The pattern holds glob characters but is no valid glob.
    InvalidGlob,
}

/// What a project root holds that protects its targets.
#[derive(Debug)]
pub struct KeepFacts {
    /// Whether the root holds the marker file `.dev-cleaner-keep`.
    pub has_keep_marker: bool,
    /// The file `.dev-cleaner-keep-patterns` of the root.
    pub pattern_file: PatternFile,
}

/// The file of keep patterns of a project root.
#[derive(Debug)]
pub enum PatternFile {
    /// There is no such file.
    Absent,
    /// The file and what it holds.
    Content(String),
    /// The file is there but could not be read, for the reason given.
    Unreadable(String),
}

/// The paths and globs that the configuration protects.
#[derive(Debug)]
pub struct KeepPolicy {
    pub keep_paths: Vec<String>,
    pub keep_globs: Vec<String>,
    pub keep_project_roots: Vec<String>,
}

/// A path with a leading `~/` replaced by the home directory, where one is known.
pub open spec fn expanded(path: Seq<char>, home: Option<Seq<char>>) -> Seq<char> {
    if path.len() >= 2 && path[0] == '~' && path[1] == '/' && home is Some {
        joined(home->0, path.subrange(2, path.len() as int))
    } else {
        path
    }
}

/// Each path of a list expanded.
pub open spec fn all_expanded(paths: Seq<Seq<char>>, home: Option<Seq<char>>) -> Seq<Seq<char>> {
    Seq::new(paths.len(), |i: int| expanded(paths[i], home))
}

/// Whether a pattern holds one of the glob characters `*`, `?`, `[`.
pub open spec fn glob_chars(pattern: Seq<char>) -> bool {
    pattern.contains('*') || pattern.contains('?') || pattern.contains('[')
}

/// What holding an absolute pattern against a path gives: a glob is
/// matched, any other pattern protects the path it names and all below it.
pub open spec fn pattern_path_match(pattern: Seq<char>, target: Seq<char>) -> Result<
    bool,
    PatternError,
> {
    if glob_chars(pattern) {
        match glob_verdict(pattern, target) {
            Some(hit) => Ok(hit),
            None => Err(PatternError::InvalidGlob),
        }
    } else {
        Ok(path_within(target, pattern))
    }
}

/// A text with every backslash turned into a slash.
pub open spec fn slashed(s: Seq<char>) -> Seq<char> {
    Seq::new(s.len(), |i: int| if s[i] == '\\' {
        '/'
    } else {
        s[i]
    })
}

/// The path `target` relative to `root`: what follows the root and the
/// separators after it, or nothing where the target is not below the root.
pub open spec fn relative_to(target: Seq<char>, root: Seq<char>) -> Seq<char> {
    if path_within(target, root) {
        let rest = target.subrange(root.len() as int, target.len() as int);
        rest.subrange(skip_slashes(rest, 0), rest.len() as int)
    } else {
        seq![]
    }
}

/// What holding one keep pattern of a project against a target gives. An
/// absolute pattern is held against the path of the target; a relative one
/// counts from the project root, as a glob against the relative path of the
/// target or as the path of a directory that is protected with all below it.
pub open spec fn project_pattern_match(
    root: Seq<char>,
    target: Seq<char>,
    pattern: Seq<char>,
    home: Option<Seq<char>>,
) -> Result<bool, PatternError> {
    let p = expanded(pattern, home);
    if p.len() > 0 && p[0] == '/' {
        pattern_path_match(p, target)
    } else {
        let rel_pattern = slashed(p);
        if glob_chars(rel_pattern) {
            match glob_verdict(rel_pattern, slashed(relative_to(target, root))) {
                Some(hit) => Ok(hit),
                None => Err(PatternError::InvalidGlob),
            }
        } else {
            Ok(path_within(target, joined(root, rel_pattern)))
        }
    }
}

/// What the lines of a pattern file from position `from` on give for a
/// target: protected by the first line that matches, an error from the
/// first line that cannot be applied before any matches. Blank lines and
/// lines that begin with `#` say nothing.
pub open spec fn file_verdict(
    s: Seq<char>,
    from: int,
    root: Seq<char>,
    target: Seq<char>,
    home: Option<Seq<char>>,
) -> Result<bool, PatternError>
    decreases s.len() - from,
{
    if from < 0 || from > s.len() {
        Ok(false)
    } else {
        let e = find_char(s, '\n', from, s.len() as int);
        let a = skip_space(s, from, e);
        let b = back_space(s, a, e);
        let here: Result<bool, PatternError> = if a < b && s[a] != '#' {
            project_pattern_match(root, target, s.subrange(a, b), home)
        } else {
            Ok(false)
        };
        match here {
            Ok(true) => Ok(true),
            Err(err) => Err(err),
            Ok(false) => if from <= e < s.len() {
                file_verdict(s, e + 1, root, target, home)
            } else {
                Ok(false)
            },
        }
    }
}

/// Whether one of the globs matches the text.
pub open spec fn any_glob_hits(globs: Seq<Seq<char>>, text: Seq<char>) -> bool {
    exists|k: int| 0 <= k < globs.len() && glob_hits(#[trigger] globs[k], text)
}

/// Whether one of the kept paths holds the path or lies below it.
pub open spec fn touches_kept(paths: Seq<Seq<char>>, path: Seq<char>) -> bool {
    exists|k: int|
        0 <= k < paths.len() && (path_within(path, #[trigger] paths[k]) || path_within(
            paths[k],
            path,
        ))
}

/// The mathematical content of a `PatternFile`.
pub enum PatternFileView {
    Absent,
    Content(Seq<char>),
    Unreadable(Seq<char>),
}

impl View for PatternFile {
    type V = PatternFileView;

    open spec fn view(&self) -> PatternFileView {
        match self {
            PatternFile::Absent => PatternFileView::Absent,
            PatternFile::Content(text) => PatternFileView::Content(text@),
            PatternFile::Unreadable(reason) => PatternFileView::Unreadable(reason@),
        }
    }
}

/// The reason given for a pattern file that could not be applied.
pub open spec fn parse_error_reason(detail: Seq<char>) -> Seq<char> {
    ("project_marker:.dev-cleaner-keep-patterns(parse_error:"@ + detail).push(')')
}

/// What protects a target, if anything does: in this order, the marker
/// file of its project, the pattern file of its project, the protected
/// project roots, the protected paths, the protected globs.
pub open spec fn protection(
    keep_paths: Seq<Seq<char>>,
    keep_globs: Seq<Seq<char>>,
    keep_roots: Seq<Seq<char>>,
    root: Seq<char>,
    dir: Seq<char>,
    has_marker: bool,
    file: PatternFileView,
    home: Option<Seq<char>>,
) -> Option<Seq<char>> {
    if has_marker {
        Some("project_marker:.dev-cleaner-keep"@)
    } else {
        let by_file: Option<Seq<char>> = match file {
            PatternFileView::Absent => None,
            PatternFileView::Unreadable(reason) => Some(parse_error_reason(reason)),
            PatternFileView::Content(text) => match file_verdict(text, 0, root, dir, home) {
                Ok(true) => Some("project_marker:.dev-cleaner-keep-patterns"@),
                Ok(false) => None,
                Err(_) => Some(parse_error_reason("invalid glob pattern"@)),
            },
        };
        if by_file is Some {
            by_file
        } else if any_glob_hits(keep_roots, root) {
            Some("config_keep_project_roots"@)
        } else if touches_kept(keep_paths, dir) || touches_kept(keep_paths, root) {
            Some("config_keep_paths"@)
        } else if any_glob_hits(keep_globs, dir) || any_glob_hits(keep_globs, root) {
            Some("config_keep_globs"@)
        } else {
            None
        }
    }
}

/// A path with a leading `~/` replaced by the home directory, where one is known.
pub fn expand_tilde(path: &str, home: Option<&str>) -> (out: String)
    ensures
        out@ == expanded(path@, match home {
            Some(h) => Some(h@),
            None => None,
        }),
{
    let v = to_chars(path);
    if v.len() >= 2 && v[0] == '~' && v[1] == '/' {
        if let Some(h) = home {
            let rest = slice_to_string(&v, 2, v.len());
            return join_path(h, rest.as_str());
        }
    }
    path.to_owned()
}

/// Whether a pattern holds one of the glob characters `*`, `?`, `[`.
pub fn has_glob_chars(pattern: &str) -> (r: bool)
    ensures
        r == glob_chars(pattern@),
{
    let v = to_chars(pattern);
    chars_contain(&v, '*') || chars_contain(&v, '?') || chars_contain(&v, '[')
}

/// Whether `path` is `parent` itself or lies below it.
pub fn is_same_or_child(path: &str, parent: &str) -> (r: bool)
    ensures
        r == path_within(path@, parent@),
{
    let p = to_chars(path);
    let q = to_chars(parent);
    crate::scanner::dedup::is_same_or_child(&p, &q)
}

/// Holds an absolute pattern against the path of a target.
pub fn matches_pattern_path(pattern: &str, target: &str) -> (r: Result<bool, PatternError>)
    ensures
        r == pattern_path_match(pattern@, target@),
{
    if has_glob_chars(pattern) {
        match glob_match(pattern, target) {
            Some(hit) => Ok(hit),
            None => Err(PatternError::InvalidGlob),
        }
    } else {
        Ok(is_same_or_child(target, pattern))
    }
}

/// A text with every backslash turned into a slash.
fn to_slashes(s: &str) -> (out: String)
    ensures
        out@ == slashed(s@),
{
    let v = to_chars(s);
    let mut out = String::new();
    let mut i: usize = 0;
    while i < v.len()
        invariant
            i <= v.len(),
            v@ == s@,
            out@ == slashed(s@).subrange(0, i as int),
        decreases v.len() - i,
    {
        let c = if v[i] == '\\' {
            '/'
        } else {
            v[i]
        };
        crate::text::push_char(&mut out, c);
        assert(out@ =~= slashed(s@).subrange(0, i + 1));
        i += 1;
    }
    assert(slashed(s@).subrange(0, v@.len() as int) =~= slashed(s@));
    out
}

/// The path `target` relative to `root`.
fn relative_target(target: &str, root: &str) -> (rel: String)
    ensures
        rel@ == relative_to(target@, root@),
{
    let t = to_chars(target);
    let r = to_chars(root);
    if !crate::scanner::dedup::is_same_or_child(&t, &r) {
        return String::new();
    }
    let ghost rest = t@.subrange(r@.len() as int, t@.len() as int);
    let mut k: usize = r.len();
    while k < t.len() && t[k] == '/'
        invariant
            r.len() <= k <= t.len(),
            rest == t@.subrange(r@.len() as int, t@.len() as int),
            skip_slashes(rest, 0) == skip_slashes(rest, k - r.len()),
        decreases t.len() - k,
    {
        assert(rest[k - r.len()] == t@[k as int]);
        k += 1;
    }
    proof {
        if k < t.len() {
            assert(rest[k - r.len()] == t@[k as int]);
        }
        assert(rest.subrange(k - r.len(), rest.len() as int) =~= t@.subrange(
            k as int,
            t@.len() as int,
        ));
    }
    slice_to_string(&t, k, t.len())
}

/// Holds one keep pattern of the project at `root` against a target.
pub fn match_project_pattern(root: &str, target: &str, pattern: &str, home: Option<&str>) -> (r:
    Result<bool, PatternError>)
    ensures
        r == project_pattern_match(root@, target@, pattern@, match home {
            Some(h) => Some(h@),
            None => None,
        }),
{
    let p = expand_tilde(pattern, home);
    let pv = to_chars(p.as_str());
    if pv.len() > 0 && pv[0] == '/' {
        return matches_pattern_path(p.as_str(), target);
    }
    let rel_pattern = to_slashes(p.as_str());
    if has_glob_chars(rel_pattern.as_str()) {
        let rel_target = to_slashes(relative_target(target, root).as_str());
        match glob_match(rel_pattern.as_str(), rel_target.as_str()) {
            Some(hit) => Ok(hit),
            None => Err(PatternError::InvalidGlob),
        }
    } else {
        let literal = join_path(root, rel_pattern.as_str());
        Ok(is_same_or_child(target, literal.as_str()))
    }
}

/// What the lines of a pattern file give for a target.
pub fn matches_project_pattern_file(content: &str, root: &str, target: &str, home: Option<&str>) -> (r:
    Result<bool, PatternError>)
    ensures
        r == file_verdict(content@, 0, root@, target@, match home {
            Some(h) => Some(h@),
            None => None,
        }),
{
    let v = to_chars(content);
    let n = v.len();
    let ghost h = match home {
        Some(h) => Some(h@),
        None => None,
    };
    let mut pos: usize = 0;
    loop
        invariant
            pos <= n,
            n == v.len(),
            v@ == content@,
            h == (match home {
                Some(h) => Some(h@),
                None => None,
            }),
            file_verdict(v@, 0, root@, target@, h) == file_verdict(v@, pos as int, root@, target@, h),
        decreases n - pos,
    {
        let e = position_of(&v, '\n', pos, n);
        let a = skip_spaces(&v, pos, e);
        let b = trim_end(&v, a, e);
        if a < b && v[a] != '#' {
            let line = slice_to_string(&v, a, b);
            match match_project_pattern(root, target, line.as_str(), home) {
                Ok(true) => {
                    return Ok(true);
                },
                Err(err) => {
                    return Err(err);
                },
                Ok(false) => {},
            }
        }
        if e < n {
            pos = e + 1;
        } else {
            return Ok(false);
        }
    }
}

/// Whether one of the globs matches the text.
fn globs_match(globs: &Vec<String>, text: &str) -> (hit: bool)
    ensures
        hit == any_glob_hits(string_texts(globs@), text@),
{
    let mut k: usize = 0;
    while k < globs.len()
        invariant
            k <= globs.len(),
            forall|j: int|
                0 <= j < k ==> !glob_hits(#[trigger] string_texts(globs@)[j], text@),
        decreases globs.len() - k,
    {
        assert(string_texts(globs@)[k as int] == globs@[k as int]@);
        if pattern_matches(globs[k].as_str(), text) {
            return true;
        }
        k += 1;
    }
    false
}

/// Whether one of the kept paths holds the path or lies below it.
fn matches_keep_paths(paths: &Vec<String>, path: &str) -> (hit: bool)
    ensures
        hit == touches_kept(string_texts(paths@), path@),
{
    let mut k: usize = 0;
    while k < paths.len()
        invariant
            k <= paths.len(),
            forall|j: int|
                0 <= j < k ==> !(path_within(path@, #[trigger] string_texts(paths@)[j])
                    || path_within(string_texts(paths@)[j], path@)),
        decreases paths.len() - k,
    {
        assert(string_texts(paths@)[k as int] == paths@[k as int]@);
        if is_same_or_child(path, paths[k].as_str()) || is_same_or_child(paths[k].as_str(), path) {
            return true;
        }
        k += 1;
    }
    false
}

/// Each path of a list expanded.
fn expand_all(paths: &Vec<String>, home: Option<&str>) -> (out: Vec<String>)
    ensures
        string_texts(out@) == all_expanded(string_texts(paths@), match home {
            Some(h) => Some(h@),
            None => None,
        }),
{
    let ghost h = match home {
        Some(h) => Some(h@),
        None => None,
    };
    let mut out: Vec<String> = Vec::new();
    let mut i: usize = 0;
    while i < paths.len()
        invariant
            i <= paths.len(),
            h == (match home {
                Some(h) => Some(h@),
                None => None,
            }),
            out@.len() == i,
            forall|k: int| 0 <= k < i ==> (#[trigger] out@[k])@ == expanded(paths@[k]@, h),
        decreases paths.len() - i,
    {
        out.push(expand_tilde(paths[i].as_str(), home));
        i += 1;
    }
    assert(string_texts(out@) =~= all_expanded(string_texts(paths@), h));
    out
}

impl KeepPolicy {
    /// The policy that the configuration asks for, with `~/` in its paths
    /// and globs replaced by the home directory.
    pub fn from_config(config: &Config, home: Option<&str>) -> (p: KeepPolicy)
        ensures
            ({
                let h = match home {
                    Some(h) => Some(h@),
                    None => None,
                };
                &&& string_texts(p.keep_paths@) == all_expanded(string_texts(config.keep_paths@), h)
                &&& string_texts(p.keep_globs@) == all_expanded(string_texts(config.keep_globs@), h)
                &&& string_texts(p.keep_project_roots@) == all_expanded(
                    string_texts(config.keep_project_roots@),
                    h,
                )
            }),
    {
        KeepPolicy {
            keep_paths: expand_all(&config.keep_paths, home),
            keep_globs: expand_all(&config.keep_globs, home),
            keep_project_roots: expand_all(&config.keep_project_roots, home),
        }
    }

    /// Whether a target is protected, and by what, given what its project
    /// root holds.
    pub fn evaluate(&self, info: &ProjectInfo, facts: &KeepFacts, home: Option<&str>) -> (d:
        ProtectionDecision)
        ensures
            opt_text(d.reason) == protection(
                string_texts(self.keep_paths@),
                string_texts(self.keep_globs@),
                string_texts(self.keep_project_roots@),
                info.root@,
                info.cleanable_dir@,
                facts.has_keep_marker,
                facts.pattern_file@,
                match home {
                    Some(h) => Some(h@),
                    None => None,
                },
            ),
            d.protected == d.reason is Some,
    {
        if facts.has_keep_marker {
            return ProtectionDecision {
                protected: true,
                reason: Some("project_marker:.dev-cleaner-keep".to_owned()),
            };
        }
        let root = info.root.as_str();
        let dir = info.cleanable_dir.as_str();
        match &facts.pattern_file {
            PatternFile::Absent => {},
            PatternFile::Unreadable(reason) => {
                return ProtectionDecision {
                    protected: true,
                    reason: Some(parse_error(reason.as_str())),
                };
            },
            PatternFile::Content(text) => {
                match matches_project_pattern_file(text.as_str(), root, dir, home) {
                    Ok(true) => {
                        return ProtectionDecision {
                            protected: true,
                            reason: Some("project_marker:.dev-cleaner-keep-patterns".to_owned()),
                        };
                    },
                    Ok(false) => {},
                    Err(_) => {
                        return ProtectionDecision {
                            protected: true,
                            reason: Some(parse_error("invalid glob pattern")),
                        };
                    },
                }
            },
        }
        if globs_match(&self.keep_project_roots, root) {
            return ProtectionDecision {
                protected: true,
                reason: Some("config_keep_project_roots".to_owned()),
            };
        }
        if matches_keep_paths(&self.keep_paths, dir) || matches_keep_paths(&self.keep_paths, root) {
            return ProtectionDecision {
                protected: true,
                reason: Some("config_keep_paths".to_owned()),
            };
        }
        if globs_match(&self.keep_globs, dir) || globs_match(&self.keep_globs, root) {
            return ProtectionDecision {
                protected: true,
                reason: Some("config_keep_globs".to_owned()),
            };
        }
        ProtectionDecision { protected: false, reason: None }
    }

    /// Whether a target is protected.
    pub fn is_protected(&self, info: &ProjectInfo, facts: &KeepFacts, home: Option<&str>) -> (p:
        bool)
        ensures
            p == protection(
                string_texts(self.keep_paths@),
                string_texts(self.keep_globs@),
                string_texts(self.keep_project_roots@),
                info.root@,
                info.cleanable_dir@,
                facts.has_keep_marker,
                facts.pattern_file@,
                match home {
                    Some(h) => Some(h@),
                    None => None,
                },
            ) is Some,
    {
        self.evaluate(info, facts, home).protected
    }
}

/// The reason given for a pattern file that could not be applied.
fn parse_error(detail: &str) -> (reason: String)
    ensures
        reason@ == parse_error_reason(detail@),
{
    let mut reason = "project_marker:.dev-cleaner-keep-patterns(parse_error:".to_owned();
    reason.append(detail);
    crate::text::push_char(&mut reason, ')');
    reason
}

} // verus!
