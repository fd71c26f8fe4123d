//! The media files of a file replay: which files the file backend can play,
//! and what is wrong with the paths a manifest names.
use vstd::prelude::*;
use crate::storage::paths::{extension, path_extension};
use crate::streams::manifest::opt_view;
use crate::streams::validation::{
    file_paths, iss, issue_views, only_if, pointer, ptr, push_issue, BackendHandle, BackendKind,
    IssueV, StreamManifest, ValidationIssue,
};
use crate::text::{lower_seq, owned, seq_eq, starts_with, starts_with_str, to_lower, views};

verus! {

/// The MIME type `mime_guess` gives first for a path, by its extension.
pub uninterp spec fn mime_first_raw(path: Seq<char>) -> Option<Seq<char>>;

/// `mime_guess::from_path(path).first_raw()`: the first MIME type known for
/// the path's extension; the contract names the result and says nothing of
/// the table behind it.
#[verifier::external_body]
fn guess_mime_first(path: &str) -> (r: Option<String>)
    ensures
        opt_view(r) == mime_first_raw(path@),
{
    mime_guess::from_path(path).first_raw().map(|m| m.to_string())
}

/// The content type a replay file is taken for, in lower case.
pub open spec fn replay_content_type(path: Seq<char>) -> Seq<char> {
    lower_seq(
        match mime_first_raw(path) {
            Some(m) => m,
            None => "application/octet-stream"@,
        },
    )
}

pub fn file_replay_content_type(path: &str) -> (r: String)
    ensures
        r@ == replay_content_type(path@),
{
    match guess_mime_first(path) {
        Some(m) => to_lower(m.as_str()),
        None => to_lower("application/octet-stream"),
    }
}

/// The extensions the file backend plays whatever their MIME type.
pub open spec fn supported_ext(e: Seq<char>) -> bool {
    ||| e == "bmp"@
    ||| e == "gif"@
    ||| e == "heic"@
    ||| e == "heif"@
    ||| e == "jpeg"@
    ||| e == "jpg"@
    ||| e == "png"@
    ||| e == "tif"@
    ||| e == "tiff"@
    ||| e == "webp"@
    ||| e == "h264"@
    ||| e == "avc"@
    ||| e == "h265"@
    ||| e == "hevc"@
    ||| e == "m4v"@
    ||| e == "mjpeg"@
    ||| e == "mjpg"@
    ||| e == "mov"@
    ||| e == "mp4"@
    ||| e == "mpe"@
    ||| e == "mpeg"@
    ||| e == "mpg"@
    ||| e == "webm"@
    ||| e == "wmv"@
    ||| e == "y4m"@
}

pub fn is_supported_extension(e: &str) -> (r: bool)
    ensures
        r == supported_ext(e@),
{
    seq_eq(e, "bmp") || seq_eq(e, "gif") || seq_eq(e, "heic") || seq_eq(e, "heif") || seq_eq(e, "jpeg")
        || seq_eq(e, "jpg") || seq_eq(e, "png") || seq_eq(e, "tif") || seq_eq(e, "tiff") || seq_eq(e, "webp")
        || seq_eq(e, "h264") || seq_eq(e, "avc") || seq_eq(e, "h265") || seq_eq(e, "hevc") || seq_eq(e, "m4v")
        || seq_eq(e, "mjpeg") || seq_eq(e, "mjpg") || seq_eq(e, "mov") || seq_eq(e, "mp4") || seq_eq(e, "mpe")
        || seq_eq(e, "mpeg") || seq_eq(e, "mpg") || seq_eq(e, "webm") || seq_eq(e, "wmv") || seq_eq(e, "y4m")
}

/// A replay file is playable when its content type is an image or a video,
/// or when its extension (in lower case) is one the backend plays.
pub open spec fn replay_supported(path: Seq<char>) -> bool {
    let ct = replay_content_type(path);
    starts_with(ct, "image/"@) || starts_with(ct, "video/"@) || supported_ext(
        lower_seq(
            match extension(path) {
                Some(e) => e,
                None => Seq::empty(),
            },
        ),
    )
}

pub fn is_supported_file_replay_path(path: &str) -> (r: bool)
    ensures
        r == replay_supported(path@),
{
    let ct = file_replay_content_type(path);
    if starts_with_str(ct.as_str(), "image/") || starts_with_str(ct.as_str(), "video/") {
        return true;
    }
    let ext = match path_extension(path) {
        Some(e) => to_lower(e.as_str()),
        None => {
            let empty = String::new();
            assert(lower_seq(Seq::<char>::empty()) =~= Seq::<char>::empty());
            empty
        },
    };
    is_supported_extension(ext.as_str())
}

/// What the file system says of a replay path.
#[derive(Debug, Clone, Copy, PartialEq, Eq, Structural)]
pub enum MediaPathKind {
    Missing,
    NotAFile,
    File,
}

pub open spec fn media_path_issues(p: Seq<char>, k: MediaPathKind, i: int) -> Seq<IssueV> {
    let at = ptr("/capture/handle/paths/"@, i as nat, ""@);
    match k {
        MediaPathKind::Missing => seq![iss(at, "media_path_not_found"@, "media path not found: "@ + p)],
        MediaPathKind::NotAFile => seq![iss(at, "media_path_not_file"@, "media path is not a file: "@ + p)],
        MediaPathKind::File => only_if(
            !replay_supported(p),
            iss(
                at,
                "unsupported_media_type"@,
                "unsupported media type `"@ + replay_content_type(p) + "` for file replay path: "@ + p,
            ),
        ),
    }
}

pub open spec fn media_paths_issues(ps: Seq<Seq<char>>, ks: Seq<MediaPathKind>, n: int) -> Seq<IssueV>
    decreases n,
{
    if n <= 0 {
        Seq::empty()
    } else {
        media_paths_issues(ps, ks, n - 1) + media_path_issues(ps[n - 1], ks[n - 1], n - 1)
    }
}

/// The issues of a file replay's media paths, given what the file system
/// said of each path (`kinds`, one per path).
pub open spec fn media_issues(m: StreamManifest, kinds: Seq<MediaPathKind>) -> Seq<IssueV> {
    if m.capture.backend != BackendKind::File {
        Seq::empty()
    } else {
        match file_paths(m.capture.handle) {
            Some(ps) => media_paths_issues(ps, kinds, ps.len() as int),
            None => seq![
                iss("/capture/handle"@, "invalid_file_handle"@, "file backend requires a file handle"@),
            ],
        }
    }
}

/// One probe result per path of a file replay handle.
pub open spec fn kinds_fit(m: StreamManifest, kinds: Seq<MediaPathKind>) -> bool {
    file_paths(m.capture.handle) matches Some(ps) ==> ps.len() == kinds.len()
}

pub fn validate_file_backend_media_paths(m: &StreamManifest, kinds: &Vec<MediaPathKind>, issues: &mut Vec<ValidationIssue>)
    requires
        kinds_fit(*m, kinds@),
    ensures
        issue_views(final(issues)@) == issue_views(old(issues)@) + media_issues(*m, kinds@),
{
    let ghost start = issue_views(issues@);
    if m.capture.backend != BackendKind::File {
        assert(issue_views(issues@) =~= start + media_issues(*m, kinds@));
        return;
    }
    let paths = match &m.capture.handle {
        BackendHandle::File { paths, .. } => paths,
        _ => {
            push_issue(issues, owned("/capture/handle"), "invalid_file_handle", owned("file backend requires a file handle"));
            assert(issue_views(issues@) =~= start + media_issues(*m, kinds@));
            return;
        },
    };
    let ghost pv = views(paths@);
    let mut i: usize = 0;
    while i < paths.len()
        invariant
            pv == views(paths@),
            pv.len() == kinds@.len(),
            i <= paths@.len(),
            issue_views(issues@) == start + media_paths_issues(pv, kinds@, i as int),
        decreases paths@.len() - i,
    {
        let p = paths[i].as_str();
        assert(pv[i as int] == p@);
        let ghost before = issue_views(issues@);
        match kinds[i] {
            MediaPathKind::Missing => {
                let mut message = owned("media path not found: ");
                message.append(p);
                push_issue(issues, pointer("/capture/handle/paths/", i, ""), "media_path_not_found", message);
            },
            MediaPathKind::NotAFile => {
                let mut message = owned("media path is not a file: ");
                message.append(p);
                push_issue(issues, pointer("/capture/handle/paths/", i, ""), "media_path_not_file", message);
            },
            MediaPathKind::File => {
                if !is_supported_file_replay_path(p) {
                    let mut message = owned("unsupported media type `");
                    let ct = file_replay_content_type(p);
                    message.append(ct.as_str());
                    message.append("` for file replay path: ");
                    message.append(p);
                    push_issue(issues, pointer("/capture/handle/paths/", i, ""), "unsupported_media_type", message);
                }
            },
        }
        assert(issue_views(issues@) =~= before + media_path_issues(pv[i as int], kinds@[i as int], i as int));
        assert(issue_views(issues@) =~= start + media_paths_issues(pv, kinds@, i + 1));
        i = i + 1;
    }
    assert(issue_views(issues@) =~= start + media_issues(*m, kinds@));
}

} // verus!
