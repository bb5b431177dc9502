//! Field validators: allowlist/denylist checks run on every descriptor field
//! before it is echoed into a redirect URL or a rendered page.

use vstd::prelude::*;
use vstd::utf8::encode_utf8;
use crate::strutil::contains_char;

verus! {

/// Characters allowed in a workspace/repository name.
pub open spec fn is_word_char(c: char) -> bool {
    ||| 97 <= c as u32 && c as u32 <= 122
    ||| 65 <= c as u32 && c as u32 <= 90
    ||| 48 <= c as u32 && c as u32 <= 57
    ||| c == '.'
    ||| c == '_'
    ||| c == '-'
}

/// Shell metacharacters rejected in branch names and remote identifiers.
pub open spec fn is_shell_meta(c: char) -> bool {
    ||| c == ';'
    ||| c == '&'
    ||| c == '|'
    ||| c == '`'
    ||| c == '$'
    ||| c == '('
    ||| c == ')'
    ||| c == '<'
    ||| c == '>'
    ||| c == '"'
    ||| c == '\''
}

pub open spec fn is_control_char(c: char) -> bool {
    (c as u32) < 32 || c as u32 == 127
}

/// Characters rejected in file paths.
pub open spec fn is_file_bad_char(c: char) -> bool {
    ||| c == '?'
    ||| c == '<'
    ||| c == '>'
    ||| c == '"'
    ||| c == '`'
    ||| c == '|'
    ||| c == ';'
}

/// A `..` path-traversal segment: two dots delimited by `/` or string ends.
pub open spec fn has_dotdot_segment(s: Seq<char>) -> bool {
    exists|i: int|
        0 <= i && i + 2 <= s.len() && #[trigger] s[i] == '.' && s[i + 1] == '.' && (i == 0 || s[i
            - 1] == '/') && (i + 2 == s.len() || s[i + 2] == '/')
}

/// Workspace names hold only word characters.
pub open spec fn workspace_name_ok(s: Seq<char>) -> bool {
    forall|i: int| 0 <= i < s.len() ==> is_word_char(#[trigger] s[i])
}

/// Branch names and remote identifiers: no shell metacharacters, no control
/// characters, no traversal segment.
pub open spec fn shell_safe_ok(s: Seq<char>) -> bool {
    &&& forall|i: int|
        0 <= i < s.len() ==> !is_shell_meta(#[trigger] s[i]) && !is_control_char(s[i])
    &&& !has_dotdot_segment(s)
}

pub open spec fn file_chars_ok(s: Seq<char>) -> bool {
    forall|i: int| 0 <= i < s.len() ==> !is_file_bad_char(#[trigger] s[i])
}

/// Repository-relative file paths: bounded, no unsafe characters, no
/// traversal segment.
pub open spec fn file_path_ok(s: Seq<char>) -> bool {
    &&& encode_utf8(s).len() <= 1024
    &&& file_chars_ok(s)
    &&& !has_dotdot_segment(s)
}

/// Filesystem-absolute paths are exempt from the repository-relative
/// traversal rule but keep the character and length limits.
pub open spec fn abs_path_ok(s: Seq<char>) -> bool {
    &&& encode_utf8(s).len() <= 1024
    &&& file_chars_ok(s)
}

fn is_word_char_exec(c: char) -> (r: bool)
    ensures
        r == is_word_char(c),
{
    let u = c as u32;
    (97 <= u && u <= 122) || (65 <= u && u <= 90) || (48 <= u && u <= 57) || c == '.' || c == '_'
        || c == '-'
}

fn is_shell_meta_exec(c: char) -> (r: bool)
    ensures
        r == is_shell_meta(c),
{
    c == ';' || c == '&' || c == '|' || c == '`' || c == '$' || c == '(' || c == ')' || c == '<'
        || c == '>' || c == '"' || c == '\''
}

fn is_file_bad_char_exec(c: char) -> (r: bool)
    ensures
        r == is_file_bad_char(c),
{
    c == '?' || c == '<' || c == '>' || c == '"' || c == '`' || c == '|' || c == ';'
}

fn has_dotdot_segment_exec(s: &str) -> (r: bool)
    ensures
        r == has_dotdot_segment(s@),
{
    let slen: usize = s.unicode_len();
    if slen < 2 {
        return false;
    }
    let mut i: usize = 0;
    while i <= slen - 2
        invariant
            0 <= i <= slen,
            slen >= 2,
            slen == s@.len(),
            forall|j: int|
                0 <= j < i ==> !(j + 2 <= s@.len() && #[trigger] s@[j] == '.' && s@[j + 1] == '.'
                    && (j == 0 || s@[j - 1] == '/') && (j + 2 == s@.len() || s@[j + 2] == '/')),
        decreases slen - i,
    {
        if s.get_char(i) == '.' && s.get_char(i + 1) == '.' {
            let left_ok = i == 0 || s.get_char(i - 1) == '/';
            let right_ok = i + 2 == slen || s.get_char(i + 2) == '/';
            if left_ok && right_ok {
                return true;
            }
        }
        i = i + 1;
    }
    false
}

/// Accepts a workspace/repository name: every character is a word character.
pub fn validate_workspace_name(s: &str) -> (r: bool)
    ensures
        r == workspace_name_ok(s@),
{
    let slen: usize = s.unicode_len();
    let mut i: usize = 0;
    while i < slen
        invariant
            0 <= i <= slen,
            slen == s@.len(),
            forall|j: int| 0 <= j < i ==> is_word_char(#[trigger] s@[j]),
        decreases slen - i,
    {
        if !is_word_char_exec(s.get_char(i)) {
            return false;
        }
        i = i + 1;
    }
    true
}

fn shell_safe_chars(s: &str) -> (r: bool)
    ensures
        r == forall|i: int|
            0 <= i < s@.len() ==> !is_shell_meta(#[trigger] s@[i]) && !is_control_char(s@[i]),
{
    let slen: usize = s.unicode_len();
    let mut i: usize = 0;
    while i < slen
        invariant
            0 <= i <= slen,
            slen == s@.len(),
            forall|j: int| 0 <= j < i ==> !is_shell_meta(#[trigger] s@[j]) && !is_control_char(s@[j]),
        decreases slen - i,
    {
        let c = s.get_char(i);
        let u = c as u32;
        if is_shell_meta_exec(c) || u < 32 || u == 127 {
            return false;
        }
        i = i + 1;
    }
    true
}

/// Accepts a branch/tag/commit reference: no shell metacharacters, control
/// characters, or `..` segment.
pub fn validate_branch_name(s: &str) -> (r: bool)
    ensures
        r == shell_safe_ok(s@),
{
    shell_safe_chars(s) && !has_dotdot_segment_exec(s)
}

/// Accepts a remote identifier under the same rules as a branch name.
pub fn validate_remote_id(s: &str) -> (r: bool)
    ensures
        r == shell_safe_ok(s@),
{
    shell_safe_chars(s) && !has_dotdot_segment_exec(s)
}

fn file_chars_ok_exec(s: &str) -> (r: bool)
    ensures
        r == file_chars_ok(s@),
{
    let slen: usize = s.unicode_len();
    let mut i: usize = 0;
    while i < slen
        invariant
            0 <= i <= slen,
            slen == s@.len(),
            forall|j: int| 0 <= j < i ==> !is_file_bad_char(#[trigger] s@[j]),
        decreases slen - i,
    {
        if is_file_bad_char_exec(s.get_char(i)) {
            return false;
        }
        i = i + 1;
    }
    true
}

/// Accepts a repository-relative file path: at most 1024 bytes, no unsafe
/// characters, no `..` segment.
pub fn validate_file_path(s: &str) -> (r: bool)
    ensures
        r == file_path_ok(s@),
{
    if s.as_bytes().len() > 1024 {
        return false;
    }
    file_chars_ok_exec(s) && !has_dotdot_segment_exec(s)
}

/// Accepts a filesystem-absolute path: at most 1024 bytes, no unsafe
/// characters.
pub fn validate_abs_path(s: &str) -> (r: bool)
    ensures
        r == abs_path_ok(s@),
{
    if s.as_bytes().len() > 1024 {
        return false;
    }
    file_chars_ok_exec(s)
}

/// Independently of field semantics, a string containing `;`, a backtick, or
/// a `..` traversal segment passes neither the branch/remote rule nor the
/// file-path rule; the former two characters also fail the workspace rule.
pub proof fn lemma_validators_reject_injection(s: Seq<char>)
    requires
        contains_char(s, ';') || contains_char(s, '`') || has_dotdot_segment(s),
    ensures
        !shell_safe_ok(s),
        !file_path_ok(s),
        contains_char(s, ';') || contains_char(s, '`') ==> !workspace_name_ok(s),
{
    if contains_char(s, ';') {
        let i = choose|i: int| 0 <= i < s.len() && s[i] == ';';
        assert(is_shell_meta(s[i]));
        assert(is_file_bad_char(s[i]));
        assert(!is_word_char(s[i]));
    } else if contains_char(s, '`') {
        let i = choose|i: int| 0 <= i < s.len() && s[i] == '`';
        assert(is_shell_meta(s[i]));
        assert(is_file_bad_char(s[i]));
        assert(!is_word_char(s[i]));
    }
}

/// The file-path rule rejects any string longer than 1024 bytes and any
/// containing `?`, `<`, `>`, `"`, or `|`.
pub proof fn lemma_file_path_rejects_limits(s: Seq<char>)
    requires
        encode_utf8(s).len() > 1024 || contains_char(s, '?') || contains_char(s, '<')
            || contains_char(s, '>') || contains_char(s, '"') || contains_char(s, '|'),
    ensures
        !file_path_ok(s),
{
    if encode_utf8(s).len() > 1024 {
    } else {
        assert(exists|i: int| 0 <= i < s.len() && is_file_bad_char(#[trigger] s[i])) by {
            if contains_char(s, '?') {
                let i = choose|i: int| 0 <= i < s.len() && s[i] == '?';
                assert(is_file_bad_char(s[i]));
            } else if contains_char(s, '<') {
                let i = choose|i: int| 0 <= i < s.len() && s[i] == '<';
                assert(is_file_bad_char(s[i]));
            } else if contains_char(s, '>') {
                let i = choose|i: int| 0 <= i < s.len() && s[i] == '>';
                assert(is_file_bad_char(s[i]));
            } else if contains_char(s, '"') {
                let i = choose|i: int| 0 <= i < s.len() && s[i] == '"';
                assert(is_file_bad_char(s[i]));
            } else {
                let i = choose|i: int| 0 <= i < s.len() && s[i] == '|';
                assert(is_file_bad_char(s[i]));
            }
        }
    }
}

} // verus!
