//! Output selectors: trimming them, and the two outputs the RAW pipeline
//! knows (`raw` and `undistorted`).
use vstd::prelude::*;
use crate::text::{eq_ignore_ascii_case, eq_ignore_case, owned, trim, trim_str};

verus! {

/// A selector trimmed of surrounding whitespace; blank counts as absent.
pub open spec fn norm_out(o: Option<Seq<char>>) -> Option<Seq<char>> {
    match o {
        Some(s) => if trim(s).len() == 0 {
            None
        } else {
            Some(trim(s))
        },
        None => None,
    }
}

/// The output a RAW pipeline selector stands for: `undistorted` in any
/// case, any other non-blank value `raw`, blank or absent nothing.
pub open spec fn canon_raw(o: Option<Seq<char>>) -> Option<Seq<char>> {
    match norm_out(o) {
        Some(s) => if eq_ignore_case(s, "undistorted"@) {
            Some("undistorted"@)
        } else {
            Some("raw"@)
        },
        None => None,
    }
}

pub fn clone_opt(o: &Option<String>) -> (r: Option<String>)
    ensures
        r == *o,
{
    match o {
        Some(s) => Some(s.clone()),
        None => None,
    }
}

pub fn normalized_output_value(value: &Option<String>) -> (r: Option<String>)
    ensures
        crate::streams::manifest::opt_view(r) == norm_out(crate::streams::manifest::opt_view(*value)),
{
    match value {
        Some(v) => {
            let t = trim_str(v.as_str());
            if t.unicode_len() == 0 {
                None
            } else {
                Some(owned(t))
            }
        },
        None => None,
    }
}

pub fn canonicalize_raw_output_value(value: &Option<String>) -> (r: Option<String>)
    ensures
        crate::streams::manifest::opt_view(r) == canon_raw(crate::streams::manifest::opt_view(*value)),
{
    let n = normalized_output_value(value);
    match n {
        Some(s) => {
            if eq_ignore_ascii_case(s.as_str(), "undistorted") {
                Some(owned("undistorted"))
            } else {
                Some(owned("raw"))
            }
        },
        None => None,
    }
}

/// Trimming a selector twice changes nothing more.
pub proof fn lemma_norm_out_idempotent(o: Option<Seq<char>>)
    ensures
        norm_out(norm_out(o)) == norm_out(o),
{
    if let Some(s) = o {
        crate::text::lemma_trim_idempotent(s);
    }
}

/// A canonical RAW selector is already trimmed, and trimming a selector
/// first does not change its canonical name.
pub proof fn lemma_canon_raw_trimmed(o: Option<Seq<char>>)
    ensures
        norm_out(canon_raw(o)) == canon_raw(o),
        canon_raw(norm_out(o)) == canon_raw(o),
{
    reveal_strlit("undistorted");
    reveal_strlit("raw");
    crate::text::lemma_trim_idempotent("undistorted"@);
    crate::text::lemma_trim_idempotent("raw"@);
    lemma_norm_out_idempotent(o);
    assert(trim("undistorted"@) == "undistorted"@);
    assert(trim("raw"@) == "raw"@);
}

/// Canonicalizing a RAW selector twice changes nothing more.
pub proof fn lemma_canon_raw_idempotent(o: Option<Seq<char>>)
    ensures
        canon_raw(canon_raw(o)) == canon_raw(o),
{
    reveal_strlit("undistorted");
    reveal_strlit("raw");
    crate::text::lemma_trim_idempotent("undistorted"@);
    crate::text::lemma_trim_idempotent("raw"@);
    if let Some(s) = canon_raw(o) {
        assert(trim("undistorted"@) == "undistorted"@);
        assert(trim("raw"@) == "raw"@);
        assert(!eq_ignore_case("raw"@, "undistorted"@)) by {
            assert(crate::text::lower_seq("raw"@).len() != crate::text::lower_seq("undistorted"@).len());
        }
    }
}

} // verus!
