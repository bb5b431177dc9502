//! Builds the mirror-page fields from a descriptor: the local-tool URI with
//! percent-encoded components, the display strings, and the provider view
//! link. HTML rendering itself stays with the routing layer.

use vstd::prelude::*;
use crate::numfmt::{u32_dec, u32_to_string};
use crate::target::{
    line_suffix_seq, provider_name_seq, view_url_seq, SrcuriTarget, TargetModel,
};
use crate::urlenc::{pct_encode_seq, percent_encode};

verus! {

/// Fields of the rendered mirror page.
pub struct MirrorTemplate {
    pub srcuri_url: String,
    pub repo_name: String,
    pub file_path: String,
    pub line: String,
    pub og_description: String,
    pub view_url: String,
    pub provider_name: String,
}

/// Fields of the rendered error page.
pub struct ErrorTemplate {
    pub message: String,
    pub url: String,
}

pub open spec fn display_path_seq(m: TargetModel) -> Seq<char> {
    match m.file_path {
        Some(p) => p,
        None => Seq::<char>::empty(),
    }
}

/// Query part of the local-tool URI: the branch is percent-encoded (slashes
/// included), the remote is echoed with its `https://` prefix restored.
pub open spec fn srcuri_query_seq(m: TargetModel) -> Seq<char> {
    match m.ref_value {
        Some(r) => if m.remote.len() > 0 {
            "?branch="@ + pct_encode_seq(r, false) + "&remote=https://"@ + m.remote
        } else {
            "?branch="@ + pct_encode_seq(r, false)
        },
        None => if m.remote.len() > 0 {
            "?remote=https://"@ + m.remote
        } else {
            Seq::<char>::empty()
        },
    }
}

/// The local-tool URI: `srcuri://{repo}/{path}[:{line}][?...]`, or
/// `srcuri://{path}` for an absolute target; path components keep their
/// slashes when encoded, the line suffix is literal.
pub open spec fn srcuri_url_seq(m: TargetModel) -> Seq<char> {
    (if m.is_absolute {
        "srcuri://"@ + (match m.file_path {
            Some(p) => pct_encode_seq(p, true),
            None => Seq::<char>::empty(),
        })
    } else {
        "srcuri://"@ + pct_encode_seq(m.repo_name, false) + "/"@ + (match m.file_path {
            Some(p) => pct_encode_seq(p, true),
            None => Seq::<char>::empty(),
        })
    }) + line_suffix_seq(m.line) + srcuri_query_seq(m)
}

/// Preview description: the file and line on their branch, or the bare
/// repository.
pub open spec fn og_desc_seq(m: TargetModel) -> Seq<char> {
    let dp = display_path_seq(m);
    if dp.len() > 0 {
        dp + line_suffix_seq(m.line) + " on "@ + (match m.ref_value {
            Some(r) => r,
            None => "main"@,
        }) + " branch"@
    } else {
        m.repo_name + " repository"@
    }
}

fn line_display(line: Option<u32>) -> (r: String)
    ensures
        r@ == line_suffix_seq(line),
{
    match line {
        Some(n) => {
            let mut s = String::from_str(":");
            let d = u32_to_string(n);
            s.append(d.as_str());
            s
        },
        None => String::new(),
    }
}

/// Assembles every field the mirror page shows for a descriptor.
pub fn build_mirror_page(t: &SrcuriTarget) -> (r: MirrorTemplate)
    ensures
        r.srcuri_url@ == srcuri_url_seq(t@),
        r.repo_name@ == t@.repo_name,
        r.file_path@ == display_path_seq(t@),
        r.line@ == line_suffix_seq(t@.line),
        r.og_description@ == og_desc_seq(t@),
        r.view_url@ == match view_url_seq(t@) {
            Some(v) => v,
            None => Seq::<char>::empty(),
        },
        r.provider_name@ == provider_name_seq(t@.remote),
{
    // local-tool URI
    let mut s = String::from_str("srcuri://");
    if t.is_absolute {
        match &t.file_path {
            Some(p) => {
                let e = percent_encode(p.as_str(), true);
                s.append(e.as_str());
            },
            None => {
                proof {
                    assert(s@ =~= "srcuri://"@ + Seq::<char>::empty());
                }
            },
        }
    } else {
        let e = percent_encode(t.repo_name.as_str(), false);
        s.append(e.as_str());
        s.append("/");
        match &t.file_path {
            Some(p) => {
                let e2 = percent_encode(p.as_str(), true);
                s.append(e2.as_str());
            },
            None => {
                proof {
                    assert(s@ =~= "srcuri://"@ + pct_encode_seq(t@.repo_name, false) + "/"@
                        + Seq::<char>::empty());
                }
            },
        }
    }
    let line = line_display(t.line);
    s.append(line.as_str());
    let remote_present = !t.remote.as_str().is_empty();
    match &t.ref_value {
        Some(r) => {
            s.append("?branch=");
            let eb = percent_encode(r.as_str(), false);
            s.append(eb.as_str());
            if remote_present {
                s.append("&remote=https://");
                s.append(t.remote.as_str());
            }
        },
        None => {
            if remote_present {
                s.append("?remote=https://");
                s.append(t.remote.as_str());
            }
        },
    }
    proof {
        assert(s@ =~= srcuri_url_seq(t@));
    }

    // display fields
    let display_path: String = match &t.file_path {
        Some(p) => p.clone(),
        None => String::new(),
    };
    let mut og: String;
    if !display_path.as_str().is_empty() {
        og = display_path.clone();
        og.append(line.as_str());
        og.append(" on ");
        match &t.ref_value {
            Some(r) => { og.append(r.as_str()) },
            None => { og.append("main") },
        }
        og.append(" branch");
    } else {
        og = t.repo_name.clone();
        og.append(" repository");
    }
    proof {
        assert(og@ =~= og_desc_seq(t@));
    }

    let view_url: String = match t.to_view_url() {
        Some(v) => v,
        None => String::new(),
    };
    let provider_name = String::from_str(t.provider_name());

    MirrorTemplate {
        srcuri_url: s,
        repo_name: t.repo_name.clone(),
        file_path: display_path,
        line,
        og_description: og,
        view_url,
        provider_name,
    }
}

/// Copies a rejection into the error-page fields.
pub fn build_error_page(e: &crate::target::ParseError) -> (r: ErrorTemplate)
    ensures
        r.message@ == e.message@,
        r.url@ == e.original_url@,
{
    ErrorTemplate { message: e.message.clone(), url: e.original_url.clone() }
}

} // verus!
