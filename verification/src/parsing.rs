//! The remote target resolver: recognizes which hosting-provider grammar a
//! raw string belongs to, decomposes it into a canonical target descriptor,
//! and funnels both entry points through one shared validation step.

use vstd::prelude::*;
use crate::numfmt::{all_digits, digits_val, parse_u32_digits};
use crate::strutil::{
    contains_char, contains_seq, ffirst, find_sub, match_at, rlast, str_contains_char,
    str_contains_sub, str_find_char, str_find_sub, str_rfind_char, str_starts_with,
    str_trim_leading, trim_leading,
};
use crate::target::{
    has_scheme, host_of, host_of_exec, http_pat, https_pat, invalid_branch_msg, invalid_file_msg,
    invalid_remote_msg, invalid_url_msg, invalid_workspace_msg, ParseError, SrcuriTarget,
    TargetModel,
};
use crate::validate::{
    abs_path_ok, file_path_ok, shell_safe_ok, validate_abs_path, validate_branch_name,
    validate_file_path, validate_remote_id, validate_workspace_name, workspace_name_ok,
};

verus! {

/// Query parameters of the passthrough entry point.
pub struct PassthroughQuery {
    pub remote: Option<String>,
}

/// Query parameters of the path-based mirror entry point.
pub struct MirrorQuery {
    pub branch: Option<String>,
    pub remote: Option<String>,
}

pub open spec fn opt_view(o: Option<String>) -> Option<Seq<char>> {
    crate::target::opt_str_view(o)
}

/// `s` with every leading `http://`/`https://` prefix removed.
pub open spec fn strip_scheme(s: Seq<char>) -> Seq<char>
    decreases s.len(),
{
    if match_at(s, https_pat(), 0) {
        strip_scheme(s.subrange(8, s.len() as int))
    } else if match_at(s, http_pat(), 0) {
        strip_scheme(s.subrange(7, s.len() as int))
    } else {
        s
    }
}

/// Stripping leaves no scheme prefix behind.
pub proof fn lemma_strip_scheme_clean(s: Seq<char>)
    ensures
        !has_scheme(strip_scheme(s)),
    decreases s.len(),
{
    if match_at(s, https_pat(), 0) {
        lemma_strip_scheme_clean(s.subrange(8, s.len() as int));
    } else if match_at(s, http_pat(), 0) {
        lemma_strip_scheme_clean(s.subrange(7, s.len() as int));
    }
}

/// Executable scheme stripping.
pub fn strip_scheme_exec<'a>(s: &'a str) -> (r: &'a str)
    ensures
        r@ == strip_scheme(s@),
{
    let mut cur: &str = s;
    loop
        invariant
            strip_scheme(s@) == strip_scheme(cur@),
        decreases cur@.len(),
    {
        proof {
            reveal_strlit("https://");
            reveal_strlit("http://");
            assert("https://"@ =~= https_pat());
            assert("http://"@ =~= http_pat());
        }
        let clen: usize = cur.unicode_len();
        if str_starts_with(cur, "https://") {
            cur = cur.substring_char(8, clen);
        } else if str_starts_with(cur, "http://") {
            cur = cur.substring_char(7, clen);
        } else {
            return cur;
        }
    }
}

/// Normalizes an optional remote parameter: absent becomes empty, a scheme
/// prefix is stripped so internal storage is scheme-free.
pub fn normalize_remote(remote: Option<String>) -> (r: String)
    ensures
        r@ == match opt_view(remote) {
            Some(s) => strip_scheme(s),
            None => Seq::<char>::empty(),
        },
{
    match remote {
        Some(s) => String::from_str(strip_scheme_exec(s.as_str())),
        None => String::new(),
    }
}

/// Splits a trailing `:{digits}` line marker off a path string. The split
/// happens only when everything after the last colon is one or more decimal
/// digits forming a positive number that fits in `u32`; otherwise the string
/// is returned unchanged with no line.
pub open spec fn line_split(s: Seq<char>) -> (Seq<char>, Option<u32>) {
    let i = rlast(s, ':');
    if i >= 0 && i + 1 < s.len() && all_digits(s.subrange(i + 1, s.len() as int)) && 0 < digits_val(
        s.subrange(i + 1, s.len() as int),
    ) <= u32::MAX {
        (s.subrange(0, i), Some(digits_val(s.subrange(i + 1, s.len() as int)) as u32))
    } else {
        (s, None)
    }
}

/// Strips a trailing numeric line marker from a path string.
pub fn extract_path_line_suffix(path: &str) -> (r: (String, Option<u32>))
    ensures
        r.0@ == line_split(path@).0,
        r.1 == line_split(path@).1,
        r.1 matches Some(n) ==> n > 0,
{
    let slen: usize = path.unicode_len();
    match str_rfind_char(path, ':') {
        None => (String::from_str(path), None),
        Some(i) => {
            if i + 1 == slen {
                return (String::from_str(path), None);
            }
            let digits = path.substring_char(i + 1, slen);
            match parse_u32_digits(digits) {
                Some(v) => {
                    if v > 0 {
                        (String::from_str(path.substring_char(0, i)), Some(v))
                    } else {
                        (String::from_str(path), None)
                    }
                },
                None => (String::from_str(path), None),
            }
        },
    }
}

/// Known provider hostname prefixes.
pub open spec fn provider_host_prefix(s: Seq<char>) -> bool {
    ||| match_at(s, "github.com/"@, 0)
    ||| match_at(s, "github.dev/"@, 0)
    ||| match_at(s, "codespaces.new/"@, 0)
    ||| match_at(s, "gitlab.com/"@, 0)
    ||| match_at(s, "bitbucket.org/"@, 0)
    ||| match_at(s, "gitea.com/"@, 0)
    ||| match_at(s, "codeberg.org/"@, 0)
    ||| match_at(s, "dev.azure.com/"@, 0)
}

/// Structural provider markers anywhere in the path.
pub open spec fn provider_marker_any(s: Seq<char>) -> bool {
    ||| contains_seq(s, "/-/blob/"@)
    ||| contains_seq(s, "/-/tree/"@)
    ||| contains_seq(s, "/-/ide/"@)
    ||| contains_seq(s, "/codespaces/"@)
    ||| contains_seq(s, "/src/branch/"@)
    ||| contains_seq(s, "/src/tag/"@)
    ||| contains_seq(s, "/_git/"@)
}

/// Heuristic fallback: the first path segment looks like a hostname.
pub open spec fn hostish(s: Seq<char>) -> bool {
    contains_char(host_of(s), '.') && !contains_char(host_of(s), ':')
}

/// Whether a string belongs to some provider grammar: an explicit scheme, a
/// known hostname prefix, a structural marker, or a hostname-like first
/// segment, in that priority order.
pub open spec fn provider_shape(s: Seq<char>) -> bool {
    ||| has_scheme(s)
    ||| provider_host_prefix(s)
    ||| provider_marker_any(s)
    ||| hostish(s)
}

fn provider_shape_exec(s: &str) -> (r: bool)
    ensures
        r == provider_shape(s@),
{
    proof {
        reveal_strlit("https://");
        reveal_strlit("http://");
        assert("https://"@ =~= https_pat());
        assert("http://"@ =~= http_pat());
    }
    if str_starts_with(s, "https://") || str_starts_with(s, "http://") {
        return true;
    }
    if str_starts_with(s, "github.com/") || str_starts_with(s, "github.dev/") || str_starts_with(
        s,
        "codespaces.new/",
    ) || str_starts_with(s, "gitlab.com/") || str_starts_with(s, "bitbucket.org/")
        || str_starts_with(s, "gitea.com/") || str_starts_with(s, "codeberg.org/")
        || str_starts_with(s, "dev.azure.com/") {
        return true;
    }
    if str_contains_sub(s, "/-/blob/") || str_contains_sub(s, "/-/tree/") || str_contains_sub(
        s,
        "/-/ide/",
    ) || str_contains_sub(s, "/codespaces/") || str_contains_sub(s, "/src/branch/")
        || str_contains_sub(s, "/src/tag/") || str_contains_sub(s, "/_git/") {
        return true;
    }
    let seg = host_of_exec(s);
    str_contains_char(seg, '.') && !str_contains_char(seg, ':')
}

/// Detects whether a request path looks like a provider URL rather than a
/// workspace mirror path.
pub fn is_provider_path(path: &str) -> (r: bool)
    ensures
        r == provider_shape(trim_leading(path@, '/')),
{
    let normalized = str_trim_leading(path, '/');
    provider_shape_exec(normalized)
}

/// Splits a trailing `#L{digits}` fragment off a provider URL. The fragment
/// is present literally because the string arrives pre-decoded inside a
/// query parameter.
pub open spec fn frag_split(s: Seq<char>) -> (Seq<char>, Option<u32>) {
    let i = rlast(s, '#');
    if i >= 0 && i + 2 < s.len() && s[i + 1] == 'L' && all_digits(
        s.subrange(i + 2, s.len() as int),
    ) && 0 < digits_val(s.subrange(i + 2, s.len() as int)) <= u32::MAX {
        (s.subrange(0, i), Some(digits_val(s.subrange(i + 2, s.len() as int)) as u32))
    } else {
        (s, None)
    }
}

fn frag_split_exec<'a>(s: &'a str) -> (r: (&'a str, Option<u32>))
    ensures
        r.0@ == frag_split(s@).0,
        r.1 == frag_split(s@).1,
        r.1 matches Some(n) ==> n > 0,
{
    let slen: usize = s.unicode_len();
    match str_rfind_char(s, '#') {
        None => (s, None),
        Some(i) => {
            if slen - i > 2 && s.get_char(i + 1) == 'L' {
                let digits = s.substring_char(i + 2, slen);
                match parse_u32_digits(digits) {
                    Some(v) => {
                        if v > 0 {
                            (s.substring_char(0, i), Some(v))
                        } else {
                            (s, None)
                        }
                    },
                    None => (s, None),
                }
            } else {
                (s, None)
            }
        },
    }
}

pub open spec fn gl_blob_pat() -> Seq<char> {
    "/-/blob/"@
}

pub open spec fn gl_tree_pat() -> Seq<char> {
    "/-/tree/"@
}

pub open spec fn gitea_branch_pat() -> Seq<char> {
    "/src/branch/"@
}

pub open spec fn gitea_tag_pat() -> Seq<char> {
    "/src/tag/"@
}

pub open spec fn gh_blob_pat() -> Seq<char> {
    "/blob/"@
}

pub open spec fn gh_tree_pat() -> Seq<char> {
    "/tree/"@
}

/// First blob-or-tree marker occurring in a provider URL body, searched in a
/// fixed priority order, with its length.
pub open spec fn marker_split(s: Seq<char>) -> Option<(int, int)> {
    if find_sub(s, gl_blob_pat()) >= 0 {
        Some((find_sub(s, gl_blob_pat()), gl_blob_pat().len() as int))
    } else if find_sub(s, gl_tree_pat()) >= 0 {
        Some((find_sub(s, gl_tree_pat()), gl_tree_pat().len() as int))
    } else if find_sub(s, gitea_branch_pat()) >= 0 {
        Some((find_sub(s, gitea_branch_pat()), gitea_branch_pat().len() as int))
    } else if find_sub(s, gitea_tag_pat()) >= 0 {
        Some((find_sub(s, gitea_tag_pat()), gitea_tag_pat().len() as int))
    } else if find_sub(s, gh_blob_pat()) >= 0 {
        Some((find_sub(s, gh_blob_pat()), gh_blob_pat().len() as int))
    } else if find_sub(s, gh_tree_pat()) >= 0 {
        Some((find_sub(s, gh_tree_pat()), gh_tree_pat().len() as int))
    } else {
        None
    }
}

fn marker_split_exec(s: &str) -> (r: Option<(usize, usize)>)
    ensures
        match r {
            Some(im) => marker_split(s@) == Some((im.0 as int, im.1 as int)) && im.0 + im.1
                <= s@.len(),
            None => marker_split(s@) is None,
        },
{
    if let Some(i) = str_find_sub(s, "/-/blob/") {
        return Some((i, "/-/blob/".unicode_len()));
    }
    if let Some(i) = str_find_sub(s, "/-/tree/") {
        return Some((i, "/-/tree/".unicode_len()));
    }
    if let Some(i) = str_find_sub(s, "/src/branch/") {
        return Some((i, "/src/branch/".unicode_len()));
    }
    if let Some(i) = str_find_sub(s, "/src/tag/") {
        return Some((i, "/src/tag/".unicode_len()));
    }
    if let Some(i) = str_find_sub(s, "/blob/") {
        return Some((i, "/blob/".unicode_len()));
    }
    if let Some(i) = str_find_sub(s, "/tree/") {
        return Some((i, "/tree/".unicode_len()));
    }
    None
}

/// Last `/`-separated segment of a remote: the repository label.
pub open spec fn repo_of(remote: Seq<char>) -> Seq<char> {
    remote.subrange(rlast(remote, '/') + 1, remote.len() as int)
}

fn repo_of_exec<'a>(remote: &'a str) -> (r: &'a str)
    ensures
        r@ == repo_of(remote@),
{
    let rlen: usize = remote.unicode_len();
    match str_rfind_char(remote, '/') {
        Some(j) => remote.substring_char(j + 1, rlen),
        None => {
            proof {
                assert(remote@.subrange(0, remote@.len() as int) =~= remote@);
            }
            remote
        },
    }
}

/// The shared validation-and-construction step. Fields are checked in the
/// order they become known during decomposition: workspace, branch, remote,
/// file path. No descriptor is built from a field that failed its validator.
pub open spec fn validated(
    remote: Seq<char>,
    repo: Seq<char>,
    refv: Option<Seq<char>>,
    path: Option<Seq<char>>,
    line: Option<u32>,
    is_abs: bool,
) -> Result<TargetModel, Seq<char>> {
    if !workspace_name_ok(repo) {
        Err(invalid_workspace_msg())
    } else if refv matches Some(r) && !shell_safe_ok(r) {
        Err(invalid_branch_msg())
    } else if !shell_safe_ok(remote) {
        Err(invalid_remote_msg())
    } else if !is_abs && (path matches Some(p) && !file_path_ok(p)) {
        Err(invalid_file_msg())
    } else if is_abs && (path matches Some(p) && !abs_path_ok(p)) {
        Err(invalid_file_msg())
    } else {
        Ok(
            TargetModel {
                remote,
                repo_name: repo,
                ref_value: refv,
                file_path: path,
                line,
                is_absolute: is_abs,
            },
        )
    }
}

fn build_target(
    original: &str,
    remote: &str,
    repo: &str,
    refv: Option<String>,
    path: Option<String>,
    line: Option<u32>,
    is_abs: bool,
) -> (r: Result<SrcuriTarget, ParseError>)
    requires
        is_abs ==> repo@.len() == 0,
        (!is_abs && path is Some) ==> repo@.len() > 0,
        line matches Some(n) ==> n > 0,
        !has_scheme(remote@),
    ensures
        match r {
            Ok(t) => validated(remote@, repo@, opt_view(refv), opt_view(path), line, is_abs)
                == Ok::<TargetModel, Seq<char>>(t@) && t@.wf() && t@.is_absolute == is_abs,
            Err(e) => validated(remote@, repo@, opt_view(refv), opt_view(path), line, is_abs)
                == Err::<TargetModel, Seq<char>>(e.message@) && e.original_url@ == original@,
        },
{
    if !validate_workspace_name(repo) {
        return Err(
            ParseError {
                message: String::from_str("Invalid workspace name"),
                original_url: String::from_str(original),
            },
        );
    }
    match &refv {
        Some(r) => {
            if !validate_branch_name(r.as_str()) {
                return Err(
                    ParseError {
                        message: String::from_str("Invalid branch name"),
                        original_url: String::from_str(original),
                    },
                );
            }
        },
        None => {},
    }
    if !validate_remote_id(remote) {
        return Err(
            ParseError {
                message: String::from_str("Invalid remote URL"),
                original_url: String::from_str(original),
            },
        );
    }
    match &path {
        Some(p) => {
            let ok = if is_abs {
                validate_abs_path(p.as_str())
            } else {
                validate_file_path(p.as_str())
            };
            if !ok {
                return Err(
                    ParseError {
                        message: String::from_str("Invalid file path"),
                        original_url: String::from_str(original),
                    },
                );
            }
        },
        None => {},
    }
    let t = SrcuriTarget {
        remote: String::from_str(remote),
        repo_name: String::from_str(repo),
        ref_value: refv,
        file_path: path,
        line,
        is_absolute: is_abs,
    };
    proof {
        let m = TargetModel {
            remote: remote@,
            repo_name: repo@,
            ref_value: opt_view(t.ref_value),
            file_path: opt_view(t.file_path),
            line,
            is_absolute: is_abs,
        };
        assert(t@ =~= m);
    }
    Ok(t)
}

/// Grammar decomposition of a scheme-free provider URL body:
/// `{owner}/{repo}[/{marker}/{ref}/{path}][#L{line}]`.
pub open spec fn decompose_remote(b: Seq<char>) -> Result<TargetModel, Seq<char>> {
    let bl = frag_split(b).0;
    let line = frag_split(b).1;
    match marker_split(bl) {
        Some(im) => {
            let remote = bl.subrange(0, im.0);
            let rest = bl.subrange(im.0 + im.1, bl.len() as int);
            let k = ffirst(rest, '/');
            let refv = if k >= 0 {
                rest.subrange(0, k)
            } else {
                rest
            };
            let path = if k >= 0 {
                Some(rest.subrange(k + 1, rest.len() as int))
            } else {
                None
            };
            let repo = repo_of(remote);
            if repo.len() == 0 {
                Err(invalid_url_msg())
            } else {
                validated(remote, repo, Some(refv), path, line, false)
            }
        },
        None => {
            let repo = repo_of(bl);
            if repo.len() == 0 {
                Err(invalid_url_msg())
            } else {
                validated(bl, repo, None, None, line, false)
            }
        },
    }
}

/// Full model of provider-URL parsing: recognition, scheme stripping, then
/// grammar decomposition and validation.
pub open spec fn parse_remote_model(raw: Seq<char>) -> Result<TargetModel, Seq<char>> {
    if provider_shape(raw) {
        decompose_remote(strip_scheme(raw))
    } else {
        Err(invalid_url_msg())
    }
}

/// A prefix of a scheme-free string is scheme-free.
proof fn lemma_prefix_no_scheme(s: Seq<char>, j: int)
    requires
        !has_scheme(s),
        0 <= j <= s.len(),
    ensures
        !has_scheme(s.subrange(0, j)),
{
    let t = s.subrange(0, j);
    if match_at(t, https_pat(), 0) {
        assert(s.subrange(0, 8) =~= t.subrange(0, 8));
    }
    if match_at(t, http_pat(), 0) {
        assert(s.subrange(0, 7) =~= t.subrange(0, 7));
    }
}

/// Classifies a raw remote string by hosting-provider grammar and extracts
/// the canonical descriptor, or fails with a descriptive error carrying the
/// unmodified input.
pub fn parse_remote_url(raw: &str) -> (r: Result<SrcuriTarget, ParseError>)
    ensures
        match r {
            Ok(t) => parse_remote_model(raw@) == Ok::<TargetModel, Seq<char>>(t@) && t@.wf()
                && !t@.is_absolute,
            Err(e) => parse_remote_model(raw@) == Err::<TargetModel, Seq<char>>(e.message@)
                && e.original_url@ == raw@,
        },
{
    if !provider_shape_exec(raw) {
        return Err(
            ParseError {
                message: String::from_str("invalid remote URL"),
                original_url: String::from_str(raw),
            },
        );
    }
    let body = strip_scheme_exec(raw);
    proof {
        lemma_strip_scheme_clean(raw@);
    }
    let (bl, line) = frag_split_exec(body);
    let bl_len: usize = bl.unicode_len();
    proof {
        lemma_prefix_no_scheme(body@, bl@.len() as int);
        assert(body@.subrange(0, bl@.len() as int) =~= bl@);
    }
    match marker_split_exec(bl) {
        Some((i, mlen)) => {
            let remote = bl.substring_char(0, i);
            let rest = bl.substring_char(i + mlen, bl_len);
            let rest_len: usize = rest.unicode_len();
            let (refv, fpath): (&str, Option<String>) = match str_find_char(rest, '/') {
                Some(k) => (
                    rest.substring_char(0, k),
                    Some(String::from_str(rest.substring_char(k + 1, rest_len))),
                ),
                None => (rest, None),
            };
            let repo = repo_of_exec(remote);
            if repo.unicode_len() == 0 {
                return Err(
                    ParseError {
                        message: String::from_str("invalid remote URL"),
                        original_url: String::from_str(raw),
                    },
                );
            }
            proof {
                lemma_prefix_no_scheme(bl@, i as int);
            }
            build_target(raw, remote, repo, Some(String::from_str(refv)), fpath, line, false)
        },
        None => {
            let repo = repo_of_exec(bl);
            if repo.unicode_len() == 0 {
                return Err(
                    ParseError {
                        message: String::from_str("invalid remote URL"),
                        original_url: String::from_str(raw),
                    },
                );
            }
            build_target(raw, bl, repo, None, None, line, false)
        },
    }
}

/// Model of the path-based mirror entry point: one leading slash is the URI
/// separator, a second marks a filesystem-absolute target.
pub open spec fn parse_mirror_model(
    path: Seq<char>,
    branch: Option<Seq<char>>,
    remote: Option<Seq<char>>,
) -> Result<TargetModel, Seq<char>> {
    let t1 = if path.len() > 0 && path[0] == '/' {
        path.subrange(1, path.len() as int)
    } else {
        path
    };
    let is_abs = t1.len() > 0 && t1[0] == '/';
    let pl = line_split(t1).0;
    let line = line_split(t1).1;
    let rem = match remote {
        Some(r) => strip_scheme(r),
        None => Seq::<char>::empty(),
    };
    if is_abs {
        validated(rem, Seq::<char>::empty(), branch, Some(pl), line, true)
    } else {
        let k = ffirst(pl, '/');
        let repo = if k >= 0 {
            pl.subrange(0, k)
        } else {
            pl
        };
        let fp = if k >= 0 {
            Some(pl.subrange(k + 1, pl.len() as int))
        } else {
            None
        };
        validated(rem, repo, branch, fp, line, false)
    }
}

/// Parses a workspace mirror path like `repo/src/lib.rs:42` or
/// `//absolute/path.rs:42`, running every field validator before a
/// descriptor is constructed.
pub fn parse_mirror_path(path: &str, params: MirrorQuery) -> (r: Result<SrcuriTarget, ParseError>)
    ensures
        match r {
            Ok(t) => parse_mirror_model(path@, opt_view(params.branch), opt_view(params.remote))
                == Ok::<TargetModel, Seq<char>>(t@) && t@.wf(),
            Err(e) => parse_mirror_model(path@, opt_view(params.branch), opt_view(params.remote))
                == Err::<TargetModel, Seq<char>>(e.message@) && e.original_url@ == path@,
        },
{
    let plen: usize = path.unicode_len();
    let t1: &str = if plen > 0 && path.get_char(0) == '/' {
        path.substring_char(1, plen)
    } else {
        path
    };
    let t1len: usize = t1.unicode_len();
    let is_abs = t1len > 0 && t1.get_char(0) == '/';
    let (pl, line) = extract_path_line_suffix(t1);
    let rem = normalize_remote(params.remote);
    proof {
        match opt_view(params.remote) {
            Some(rs) => lemma_strip_scheme_clean(rs),
            None => {},
        }
    }
    if is_abs {
        proof {
            reveal_strlit("");
            assert(""@ =~= Seq::<char>::empty());
        }
        build_target(path, rem.as_str(), "", params.branch, Some(pl), line, true)
    } else {
        let pl_len: usize = pl.as_str().unicode_len();
        match str_find_char(pl.as_str(), '/') {
            Some(k) => {
                let repo = pl.as_str().substring_char(0, k);
                let fp = String::from_str(pl.as_str().substring_char(k + 1, pl_len));
                proof {
                    assert(pl@[0] != '/');
                }
                build_target(path, rem.as_str(), repo, params.branch, Some(fp), line, false)
            },
            None => build_target(path, rem.as_str(), pl.as_str(), params.branch, None, line, false),
        }
    }
}

/// Scheme-insensitivity: a string the matcher accepts without a scheme
/// parses to exactly the same outcome when `https://` or `http://` is
/// prefixed to it.
pub proof fn lemma_scheme_insensitive(s: Seq<char>)
    requires
        !has_scheme(s),
        provider_shape(s),
    ensures
        parse_remote_model(https_pat() + s) == parse_remote_model(s),
        parse_remote_model(http_pat() + s) == parse_remote_model(s),
{
    let hs = https_pat() + s;
    assert(hs.subrange(0, 8) =~= https_pat());
    assert(match_at(hs, https_pat(), 0));
    assert(hs.subrange(8, hs.len() as int) =~= s);
    assert(strip_scheme(hs) == strip_scheme(s));
    assert(strip_scheme(s) == s);

    let ht = http_pat() + s;
    assert(ht.subrange(0, 7) =~= http_pat());
    assert(match_at(ht, http_pat(), 0));
    assert(!match_at(ht, https_pat(), 0)) by {
        if match_at(ht, https_pat(), 0) {
            assert(ht.subrange(0, 8)[4] == https_pat()[4]);
            assert(ht[4] == http_pat()[4]);
        }
    }
    assert(ht.subrange(7, ht.len() as int) =~= s);
    assert(strip_scheme(ht) == strip_scheme(s));
}

} // verus!
