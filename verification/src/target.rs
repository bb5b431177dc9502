//! The canonical target descriptor: a specific file (or repository root) at a
//! specific revision, optionally inside a named workspace, optionally sourced
//! from a remote host; plus the derived-URL builders consumed by routing.

use vstd::prelude::*;
use crate::numfmt::u32_dec;
use crate::strutil::{contains_seq, ffirst, match_at};
use crate::validate::{abs_path_ok, file_path_ok, shell_safe_ok, workspace_name_ok};

verus! {

/// Canonical target descriptor. Construction from untrusted input is only
/// legal after every field has passed its validator.
#[derive(Debug, Clone)]
pub struct SrcuriTarget {
    /// Scheme-free host+path of the hosting provider and repository; empty
    /// means purely local.
    pub remote: String,
    /// Workspace/repository label, the first segment of the canonical form.
    pub repo_name: String,
    /// Branch, tag, or commit identifier.
    pub ref_value: Option<String>,
    /// Path within the repository, or the full path when absolute.
    pub file_path: Option<String>,
    /// A single positive line number.
    pub line: Option<u32>,
    /// Whether the target denotes a filesystem-absolute path.
    pub is_absolute: bool,
}

/// Mathematical model of a descriptor.
#[verifier::ext_equal]
pub struct TargetModel {
    pub remote: Seq<char>,
    pub repo_name: Seq<char>,
    pub ref_value: Option<Seq<char>>,
    pub file_path: Option<Seq<char>>,
    pub line: Option<u32>,
    pub is_absolute: bool,
}

pub open spec fn opt_str_view(o: Option<String>) -> Option<Seq<char>> {
    match o {
        Some(s) => Some(s@),
        None => None,
    }
}

impl View for SrcuriTarget {
    type V = TargetModel;

    open spec fn view(&self) -> TargetModel {
        TargetModel {
            remote: self.remote@,
            repo_name: self.repo_name@,
            ref_value: opt_str_view(self.ref_value),
            file_path: opt_str_view(self.file_path),
            line: self.line,
            is_absolute: self.is_absolute,
        }
    }
}

/// Carries exactly one rejection reason and the unmodified user input.
#[derive(Debug, Clone)]
pub struct ParseError {
    pub message: String,
    pub original_url: String,
}

pub open spec fn invalid_workspace_msg() -> Seq<char> {
    "Invalid workspace name"@
}

pub open spec fn invalid_branch_msg() -> Seq<char> {
    "Invalid branch name"@
}

pub open spec fn invalid_remote_msg() -> Seq<char> {
    "Invalid remote URL"@
}

pub open spec fn invalid_file_msg() -> Seq<char> {
    "Invalid file path"@
}

/// Message for a string no provider grammar matches.
pub open spec fn invalid_url_msg() -> Seq<char> {
    "invalid remote URL"@
}

pub open spec fn https_pat() -> Seq<char> {
    seq!['h', 't', 't', 'p', 's', ':', '/', '/']
}

pub open spec fn http_pat() -> Seq<char> {
    seq!['h', 't', 't', 'p', ':', '/', '/']
}

/// Whether `s` begins with an explicit scheme prefix.
pub open spec fn has_scheme(s: Seq<char>) -> bool {
    match_at(s, https_pat(), 0) || match_at(s, http_pat(), 0)
}

impl TargetModel {
    /// Invariants every constructed descriptor satisfies.
    pub open spec fn wf(self) -> bool {
        &&& self.is_absolute ==> self.repo_name.len() == 0
        &&& (!self.is_absolute && self.file_path is Some) ==> self.repo_name.len() > 0
        &&& (self.line matches Some(n) ==> n > 0)
        &&& !has_scheme(self.remote)
        &&& workspace_name_ok(self.repo_name)
        &&& shell_safe_ok(self.remote)
        &&& (self.ref_value matches Some(r) ==> shell_safe_ok(r))
        &&& (!self.is_absolute ==> (self.file_path matches Some(p) ==> file_path_ok(p)))
        &&& (self.is_absolute ==> (self.file_path matches Some(p) ==> abs_path_ok(p)))
    }
}

pub open spec fn line_suffix_seq(line: Option<u32>) -> Seq<char> {
    match line {
        Some(n) => ":"@ + u32_dec(n as nat),
        None => Seq::<char>::empty(),
    }
}

/// Path part of the mirror redirect target.
pub open spec fn mirror_path_seq(m: TargetModel) -> Seq<char> {
    if m.is_absolute {
        "/"@ + (match m.file_path {
            Some(p) => p,
            None => Seq::<char>::empty(),
        }) + line_suffix_seq(m.line)
    } else {
        "/"@ + m.repo_name + (match m.file_path {
            Some(p) => "/"@ + p,
            None => Seq::<char>::empty(),
        }) + line_suffix_seq(m.line)
    }
}

/// Query part of the mirror redirect target: `branch` when a ref is present,
/// `remote` re-prefixed with `https://` when a remote is present.
pub open spec fn mirror_query_seq(m: TargetModel) -> Seq<char> {
    match m.ref_value {
        Some(r) => if m.remote.len() > 0 {
            "?branch="@ + r + "&remote=https://"@ + m.remote
        } else {
            "?branch="@ + r
        },
        None => if m.remote.len() > 0 {
            "?remote=https://"@ + m.remote
        } else {
            Seq::<char>::empty()
        },
    }
}

pub open spec fn mirror_url_seq(m: TargetModel) -> Seq<char> {
    mirror_path_seq(m) + mirror_query_seq(m)
}

/// Host portion of a remote: its first `/`-separated segment.
pub open spec fn host_of(remote: Seq<char>) -> Seq<char> {
    if ffirst(remote, '/') >= 0 {
        remote.subrange(0, ffirst(remote, '/'))
    } else {
        remote
    }
}

pub open spec fn is_github_host(h: Seq<char>) -> bool {
    h == "github.com"@ || h == "github.dev"@ || h == "codespaces.new"@
}

pub open spec fn is_gitlab_host(h: Seq<char>) -> bool {
    h == "gitlab.com"@ || contains_seq(h, "gitlab"@)
}

pub open spec fn is_bitbucket_host(h: Seq<char>) -> bool {
    h == "bitbucket.org"@
}

pub open spec fn is_gitea_host(h: Seq<char>) -> bool {
    h == "gitea.com"@ || h == "codeberg.org"@
}

pub open spec fn is_azure_host(h: Seq<char>) -> bool {
    h == "dev.azure.com"@
}

/// Human-readable provider label derived from the host portion of a remote.
pub open spec fn provider_name_seq(remote: Seq<char>) -> Seq<char> {
    let h = host_of(remote);
    if is_github_host(h) {
        "GitHub"@
    } else if is_gitlab_host(h) {
        "GitLab"@
    } else if is_bitbucket_host(h) {
        "Bitbucket"@
    } else if h == "gitea.com"@ {
        "Gitea"@
    } else if h == "codeberg.org"@ {
        "Codeberg"@
    } else if is_azure_host(h) {
        "Azure DevOps"@
    } else {
        "Git"@
    }
}

/// Marker between repository and ref in a browsable file URL, by provider
/// family.
pub open spec fn blob_marker_seq(h: Seq<char>) -> Seq<char> {
    if is_github_host(h) {
        "/blob/"@
    } else if is_bitbucket_host(h) {
        "/src/"@
    } else if is_gitea_host(h) {
        "/src/branch/"@
    } else {
        "/-/blob/"@
    }
}

/// Marker between repository and ref when no file path is present.
pub open spec fn tree_marker_seq(h: Seq<char>) -> Seq<char> {
    if is_github_host(h) {
        "/tree/"@
    } else if is_bitbucket_host(h) {
        "/src/"@
    } else if is_gitea_host(h) {
        "/src/branch/"@
    } else {
        "/-/tree/"@
    }
}

pub open spec fn view_line_frag_seq(h: Seq<char>, line: Option<u32>) -> Seq<char> {
    match line {
        Some(n) => if is_bitbucket_host(h) {
            "#lines-"@ + u32_dec(n as nat)
        } else {
            "#L"@ + u32_dec(n as nat)
        },
        None => Seq::<char>::empty(),
    }
}

/// The browsable URL on the original hosting provider, when one is known.
pub open spec fn view_url_seq(m: TargetModel) -> Option<Seq<char>> {
    if m.remote.len() == 0 {
        None
    } else {
        let h = host_of(m.remote);
        if is_azure_host(h) {
            Some(https_pat() + m.remote)
        } else {
            match m.ref_value {
                Some(r) => match m.file_path {
                    Some(p) => Some(
                        https_pat() + m.remote + blob_marker_seq(h) + r + "/"@ + p
                            + view_line_frag_seq(h, m.line),
                    ),
                    None => Some(https_pat() + m.remote + tree_marker_seq(h) + r),
                },
                None => Some(https_pat() + m.remote),
            }
        }
    }
}

impl SrcuriTarget {
    /// Workspace-relative redirect target: `/{repo}[/{path}][:{line}]` with
    /// `branch` and `https://`-prefixed `remote` query parameters.
    pub fn to_mirror_url(&self) -> (r: String)
        ensures
            r@ == mirror_url_seq(self@),
    {
        let mut s = String::from_str("/");
        if self.is_absolute {
            match &self.file_path {
                Some(p) => { s.append(p.as_str()) },
                None => {
                    proof {
                        assert(s@ =~= "/"@ + Seq::<char>::empty());
                    }
                },
            }
        } else {
            s.append(self.repo_name.as_str());
            match &self.file_path {
                Some(p) => {
                    s.append("/");
                    s.append(p.as_str());
                },
                None => {
                    proof {
                        assert(s@ =~= "/"@ + self.repo_name@ + Seq::<char>::empty());
                    }
                },
            }
        }
        match self.line {
            Some(n) => {
                s.append(":");
                let d = crate::numfmt::u32_to_string(n);
                s.append(d.as_str());
            },
            None => {},
        }
        proof {
            assert(s@ =~= mirror_path_seq(self@));
        }
        let remote_present = !self.remote.as_str().is_empty();
        match &self.ref_value {
            Some(r) => {
                s.append("?branch=");
                s.append(r.as_str());
                if remote_present {
                    s.append("&remote=https://");
                    s.append(self.remote.as_str());
                }
            },
            None => {
                if remote_present {
                    s.append("?remote=https://");
                    s.append(self.remote.as_str());
                }
            },
        }
        proof {
            assert(s@ =~= mirror_url_seq(self@));
        }
        s
    }

    /// Browsable URL on the original hosting provider; nothing when the
    /// descriptor has no remote.
    pub fn to_view_url(&self) -> (r: Option<String>)
        ensures
            opt_str_view(r) == view_url_seq(self@),
    {
        let remote = self.remote.as_str();
        if remote.is_empty() {
            return None;
        }
        let host = host_of_exec(remote);
        let mut s = String::from_str("https://");
        s.append(remote);
        proof {
            reveal_strlit("https://");
            assert("https://"@ =~= https_pat());
        }
        if str_is_azure(host) {
            return Some(s);
        }
        match &self.ref_value {
            Some(r) => {
                match &self.file_path {
                    Some(p) => {
                        s.append(blob_marker_exec(host));
                        s.append(r.as_str());
                        s.append("/");
                        s.append(p.as_str());
                        match self.line {
                            Some(n) => {
                                if str_is_bitbucket(host) {
                                    s.append("#lines-");
                                } else {
                                    s.append("#L");
                                }
                                let d = crate::numfmt::u32_to_string(n);
                                s.append(d.as_str());
                            },
                            None => {
                                proof {
                                    assert(s@ + Seq::<char>::empty() =~= s@);
                                }
                            },
                        }
                    },
                    None => {
                        s.append(tree_marker_exec(host));
                        s.append(r.as_str());
                    },
                }
            },
            None => {},
        }
        proof {
            assert(view_url_seq(self@) matches Some(v) && s@ =~= v);
        }
        Some(s)
    }

    /// Short human-readable provider label derived from the remote's host.
    pub fn provider_name(&self) -> (r: &'static str)
        ensures
            r@ == provider_name_seq(self.remote@),
    {
        let host = host_of_exec(self.remote.as_str());
        if str_is_github(host) {
            "GitHub"
        } else if str_is_gitlab(host) {
            "GitLab"
        } else if str_is_bitbucket(host) {
            "Bitbucket"
        } else if crate::strutil::str_eq(host, "gitea.com") {
            "Gitea"
        } else if crate::strutil::str_eq(host, "codeberg.org") {
            "Codeberg"
        } else if str_is_azure(host) {
            "Azure DevOps"
        } else {
            "Git"
        }
    }
}

/// The mirror URL carries the descriptor's fields verbatim: the repository
/// name, the file path and `:{line}` when present, and a remote query value
/// re-prefixed with `https://` whenever the remote is non-empty.
pub proof fn lemma_mirror_url_round_trip(m: TargetModel)
    requires
        !m.is_absolute,
    ensures
        contains_seq(mirror_url_seq(m), m.repo_name),
        m.file_path matches Some(p) ==> contains_seq(mirror_url_seq(m), p),
        m.line matches Some(n) ==> contains_seq(mirror_url_seq(m), ":"@ + u32_dec(n as nat)),
        m.remote.len() > 0 ==> contains_seq(mirror_url_seq(m), "remote=https://"@ + m.remote),
{
    reveal_strlit("/");
    reveal_strlit(":");
    let path = mirror_path_seq(m);
    let query = mirror_query_seq(m);

    // repo_name and file_path occur in the path part.
    assert(path.subrange(1, 1 + m.repo_name.len() as int) =~= m.repo_name);
    crate::strutil::lemma_match_at_gives_contains(path, m.repo_name, 1);
    crate::strutil::lemma_contains_concat_left(path, query, m.repo_name);
    match m.file_path {
        Some(p) => {
            let off = 1 + m.repo_name.len() + 1;
            assert(path.subrange(off as int, off + p.len() as int) =~= p);
            crate::strutil::lemma_match_at_gives_contains(path, p, off as int);
            crate::strutil::lemma_contains_concat_left(path, query, p);
        },
        None => {},
    }

    // the line suffix occurs at the end of the path part.
    match m.line {
        Some(n) => {
            let frag = ":"@ + u32_dec(n as nat);
            assert(path.subrange(path.len() - frag.len() as int, path.len() as int) =~= frag);
            crate::strutil::lemma_match_at_gives_contains(
                path,
                frag,
                path.len() - frag.len() as int,
            );
            crate::strutil::lemma_contains_concat_left(path, query, frag);
        },
        None => {},
    }

    // the remote query value occurs in the query part.
    if m.remote.len() > 0 {
        let pat = "remote=https://"@ + m.remote;
        reveal_strlit("remote=https://");
        reveal_strlit("&remote=https://");
        reveal_strlit("?remote=https://");
        match m.ref_value {
            Some(r) => {
                let q = "?branch="@ + r + "&remote=https://"@ + m.remote;
                assert(q.subrange(q.len() - pat.len() as int, q.len() as int) =~= pat);
                crate::strutil::lemma_match_at_gives_contains(q, pat, q.len() - pat.len() as int);
            },
            None => {
                let q = "?remote=https://"@ + m.remote;
                assert(q.subrange(q.len() - pat.len() as int, q.len() as int) =~= pat);
                crate::strutil::lemma_match_at_gives_contains(q, pat, q.len() - pat.len() as int);
            },
        }
        crate::strutil::lemma_contains_concat_right(path, query, pat);
    }
}

/// Host portion of a remote string.
pub fn host_of_exec<'a>(remote: &'a str) -> (r: &'a str)
    ensures
        r@ == host_of(remote@),
{
    match crate::strutil::str_find_char(remote, '/') {
        Some(i) => remote.substring_char(0, i),
        None => remote,
    }
}

fn str_is_github(h: &str) -> (r: bool)
    ensures
        r == is_github_host(h@),
{
    crate::strutil::str_eq(h, "github.com") || crate::strutil::str_eq(h, "github.dev")
        || crate::strutil::str_eq(h, "codespaces.new")
}

fn str_is_gitlab(h: &str) -> (r: bool)
    ensures
        r == is_gitlab_host(h@),
{
    crate::strutil::str_eq(h, "gitlab.com") || crate::strutil::str_contains_sub(h, "gitlab")
}

fn str_is_bitbucket(h: &str) -> (r: bool)
    ensures
        r == is_bitbucket_host(h@),
{
    crate::strutil::str_eq(h, "bitbucket.org")
}

fn str_is_gitea(h: &str) -> (r: bool)
    ensures
        r == is_gitea_host(h@),
{
    crate::strutil::str_eq(h, "gitea.com") || crate::strutil::str_eq(h, "codeberg.org")
}

fn str_is_azure(h: &str) -> (r: bool)
    ensures
        r == is_azure_host(h@),
{
    crate::strutil::str_eq(h, "dev.azure.com")
}

fn blob_marker_exec(h: &str) -> (r: &'static str)
    ensures
        r@ == blob_marker_seq(h@),
{
    if str_is_github(h) {
        "/blob/"
    } else if str_is_bitbucket(h) {
        "/src/"
    } else if str_is_gitea(h) {
        "/src/branch/"
    } else {
        "/-/blob/"
    }
}

fn tree_marker_exec(h: &str) -> (r: &'static str)
    ensures
        r@ == tree_marker_seq(h@),
{
    if str_is_github(h) {
        "/tree/"
    } else if str_is_bitbucket(h) {
        "/src/"
    } else if str_is_gitea(h) {
        "/src/branch/"
    } else {
        "/-/tree/"
    }
}

} // verus!
