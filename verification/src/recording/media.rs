//! Naming of recorded media files and their side files.
use vstd::prelude::*;
use crate::recording::options::{RecordingCodec, RecordingContainer};
use crate::storage::paths::{extension, path_extension, path_with_extension, with_extension};
use crate::text::{
    decimal, digits_value, ends_with, ends_with_str, is_ws, last_index_of, lemma_last_index_of,
    lemma_trim_idempotent, lemma_trim_shape, lower, lower_seq, owned, push_decimal, rfind_char, seq_eq,
    substring, to_lower, trim, trim_str, is_digit,
};

verus! {

/// The name of the IMU side file of a recording.
pub open spec fn imu_sidecar_name(media: Seq<char>) -> Seq<char> {
    media + ".imu.jsonl.gz"@
}

pub fn imu_sidecar_file_name(media_name: &str) -> (r: String)
    ensures
        r@ == imu_sidecar_name(media_name@),
{
    let mut out = owned(media_name);
    out.append(".imu.jsonl.gz");
    out
}

/// The name of the frame timestamp side file of a recording.
pub open spec fn frame_timestamps_name(media: Seq<char>) -> Seq<char> {
    media + ".frame_ts.txt"@
}

pub fn frame_timestamps_file_name(media_name: &str) -> (r: String)
    ensures
        r@ == frame_timestamps_name(media_name@),
{
    let mut out = owned(media_name);
    out.append(".frame_ts.txt");
    out
}

/// The extension under which a file is written before it is complete.
pub open spec fn temp_extension(path: Seq<char>) -> Seq<char> {
    match extension(path) {
        Some(e) => if e.len() > 0 {
            e + ".part"@
        } else {
            "part"@
        },
        None => "part"@,
    }
}

/// `clip.mp4` is first written as `clip.mp4.part`.
pub open spec fn temp_output(path: Seq<char>) -> Seq<char> {
    with_extension(path, temp_extension(path))
}

pub fn temp_output_path(output_path: &str) -> (r: String)
    ensures
        r@ == temp_output(output_path@),
{
    let temp_ext = match path_extension(output_path) {
        Some(ext) => {
            if ext.as_str().unicode_len() > 0 {
                let mut e = ext;
                e.append(".part");
                e
            } else {
                owned("part")
            }
        },
        None => owned("part"),
    };
    path_with_extension(output_path, temp_ext.as_str())
}

/// The file extension of a recording.
pub open spec fn recording_ext(container: RecordingContainer, codec: RecordingCodec) -> Seq<char> {
    match container {
        RecordingContainer::Mp4 => "mp4"@,
        RecordingContainer::Raw => match codec {
            RecordingCodec::H264 => "h264"@,
            RecordingCodec::H265 => "h265"@,
        },
    }
}

pub fn recording_extension(container: RecordingContainer, codec: RecordingCodec) -> (r: &'static str)
    ensures
        r@ == recording_ext(container, codec),
{
    match container {
        RecordingContainer::Mp4 => "mp4",
        RecordingContainer::Raw => match codec {
            RecordingCodec::H264 => "h264",
            RecordingCodec::H265 => "h265",
        },
    }
}

/// The content type served for a recording extension.
pub open spec fn content_type_of(ext: Seq<char>) -> Seq<char> {
    if ext == "mp4"@ {
        "video/mp4"@
    } else if ext == "h264"@ {
        "video/h264"@
    } else if ext == "h265"@ {
        "video/h265"@
    } else {
        "application/octet-stream"@
    }
}

pub fn content_type_for_extension(ext: &str) -> (r: String)
    ensures
        r@ == content_type_of(ext@),
{
    if seq_eq(ext, "mp4") {
        owned("video/mp4")
    } else if seq_eq(ext, "h264") {
        owned("video/h264")
    } else if seq_eq(ext, "h265") {
        owned("video/h265")
    } else {
        owned("application/octet-stream")
    }
}

/// `base` trimmed, its extension replaced by `ext` unless it already ends
/// with `.ext` (ignoring ASCII case); nothing for a blank base.
pub open spec fn with_ensured_extension(base: Seq<char>, ext: Seq<char>) -> Option<Seq<char>> {
    let t = trim(base);
    if t.len() == 0 {
        None
    } else if ends_with(lower_seq(t), "."@ + ext) {
        Some(t)
    } else {
        let stem = match last_index_of(t, '.') {
            Some(i) => t.subrange(0, i),
            None => t,
        };
        Some(stem + "."@ + ext)
    }
}

pub fn ensure_extension(base: &str, ext: &str) -> (r: Option<String>)
    ensures
        match r {
            Some(n) => with_ensured_extension(base@, ext@) == Some(n@),
            None => with_ensured_extension(base@, ext@) is None,
        },
{
    let trimmed = trim_str(base);
    let n = trimmed.unicode_len();
    if n == 0 {
        return None;
    }
    let lowered = to_lower(trimmed);
    let mut dotted = owned(".");
    dotted.append(ext);
    if ends_with_str(lowered.as_str(), dotted.as_str()) {
        return Some(owned(trimmed));
    }
    let mut out = match rfind_char(trimmed, '.') {
        Some(i) => substring(trimmed, 0, i),
        None => owned(trimmed),
    };
    out.append(".");
    out.append(ext);
    Some(out)
}

/// The last `c` in `s` is at `i` when `s[i]` is `c` and none comes later.
proof fn lemma_last_index_at(s: Seq<char>, c: char, i: int)
    requires
        0 <= i < s.len(),
        s[i] == c,
        forall|k: int| i < k < s.len() ==> s[k] != c,
    ensures
        last_index_of(s, c) == Some(i),
{
    lemma_last_index_of(s, c);
    let j = last_index_of(s, c)->0;
    assert(j == i) by {
        if j < i {
            assert(s[i] == c);
        } else if j > i {
            assert(s[j] == c);
        }
    }
}

/// Ensuring an extension twice gives what ensuring it once gave, unless
/// the extension holds a `.` and, once ASCII-lowercased or stripped of
/// trailing whitespace, no longer reads the same (then a second round
/// replaces its last part: `Tar.GZ` gives `a.Tar.GZ`, then `a.Tar.Tar.GZ`).
pub proof fn law_ensured_extension_is_stable(base: Seq<char>, ext: Seq<char>)
    requires
        trim(base).len() == 0 || ends_with(lower_seq(trim(base)), "."@ + ext) || !ext.contains('.') || (
        lower_seq(ext) == ext && (ext.len() == 0 || !is_ws(ext[ext.len() - 1]))),
    ensures
        with_ensured_extension(base, ext) matches Some(n) ==> with_ensured_extension(n, ext) == Some(n),
{
    reveal_strlit(".");
    let t = trim(base);
    lemma_trim_shape(base);
    lemma_trim_idempotent(base);
    if t.len() == 0 || ends_with(lower_seq(t), "."@ + ext) {
        return;
    }
    let stem = match last_index_of(t, '.') {
        Some(i) => t.subrange(0, i),
        None => t,
    };
    lemma_last_index_of(t, '.');
    let n = stem + "."@ + ext;
    let d = stem.len() as int;
    assert(n[d] == '.');
    assert(!is_ws(n[0])) by {
        if d > 0 {
            assert(n[0] == t[0]);
        }
    }
    let p = "."@ + ext;
    if lower_seq(ext) == ext && (ext.len() == 0 || !is_ws(ext[ext.len() - 1])) {
        assert(!is_ws(n[n.len() - 1])) by {
            if ext.len() > 0 {
                assert(n[n.len() - 1] == ext[ext.len() - 1]);
            }
        }
        crate::text::lemma_trim_of_trimmed(n);
        assert(lower_seq(n).subrange(n.len() - p.len(), n.len() as int) =~= p) by {
            assert forall|j: int| 0 <= j < p.len() implies lower_seq(n)[n.len() - p.len() + j] == p[j] by {
                if j > 0 {
                    assert(lower_seq(ext)[j - 1] == lower(ext[j - 1]));
                }
            }
        }
    } else {
        // The extension holds no `.`: the one put before it stays the last.
        let t2 = trim(n);
        crate::text::lemma_lead_from_bounds(n, 0);
        crate::text::lemma_end_from_bounds(n, n.len() as int);
        assert(crate::text::lead_from(n, 0) == 0);
        let b = crate::text::end_from(n, n.len() as int);
        assert(b > d) by {
            if b <= d {
                assert(is_ws(n[d]));
            }
        }
        assert(t2 =~= n.subrange(0, b));
        lemma_trim_shape(n);
        if ends_with(lower_seq(t2), p) {
            assert(t2 == n) by {
                if b < n.len() {
                    // Then the extension ends with whitespace, which a
                    // trimmed text cannot end with.
                    assert(is_ws(n[n.len() - 1]));
                    assert(ext.len() > 0 && n[n.len() - 1] == ext[ext.len() - 1]);
                    assert(lower_seq(t2)[t2.len() - 1] == p[p.len() - 1]);
                    assert(lower(t2[t2.len() - 1]) == ext[ext.len() - 1]);
                    assert(false);
                } else {
                    assert(n.subrange(0, b) =~= n);
                }
            }
        } else {
            assert forall|k: int| d < k < t2.len() implies t2[k] != '.' by {
                assert(t2[k] == ext[k - d - 1]);
                assert(!ext.contains('.')) by {
                    if ext.contains('.') {
                        assert(lower_seq(ext) == ext);
                    }
                }
            }
            lemma_last_index_at(t2, '.', d);
            assert(t2.subrange(0, d) =~= stem);
        }
    }
}

/// The suffix that an attempt adds: the suffix itself on the first
/// attempt, then `suffix-N`.
pub open spec fn attempt_suffix(suffix: Seq<char>, attempt: nat) -> Seq<char> {
    if attempt <= 1 {
        suffix
    } else {
        suffix + "-"@ + decimal(attempt)
    }
}

/// `clip.mp4` with suffix `abc` gives `clip-abc.mp4`; a `.tar.gz` double
/// extension is kept whole; a name without `.` gets `-abc` at its end.
pub open spec fn suffixed_name(filename: Seq<char>, suffix: Seq<char>, attempt: nat) -> Seq<char> {
    let s = attempt_suffix(suffix, attempt);
    if ends_with(filename, ".tar.gz"@) {
        filename.subrange(0, filename.len() - 7) + "-"@ + s + ".tar.gz"@
    } else {
        match last_index_of(filename, '.') {
            Some(i) => filename.subrange(0, i) + "-"@ + s + "."@ + filename.subrange(
                i + 1,
                filename.len() as int,
            ),
            None => filename + "-"@ + s,
        }
    }
}

pub fn append_suffix(filename: &str, suffix: &str, attempt: usize) -> (r: String)
    ensures
        r@ == suffixed_name(filename@, suffix@, attempt as nat),
{
    let mut s = owned(suffix);
    if attempt > 1 {
        s.append("-");
        push_decimal(&mut s, attempt as u64);
    }
    let n = filename.unicode_len();
    proof {
        reveal_strlit(".tar.gz");
    }
    if ends_with_str(filename, ".tar.gz") {
        let mut out = substring(filename, 0, n - 7);
        out.append("-");
        out.append(s.as_str());
        out.append(".tar.gz");
        return out;
    }
    match rfind_char(filename, '.') {
        Some(i) => {
            let mut out = substring(filename, 0, i);
            out.append("-");
            out.append(s.as_str());
            out.append(".");
            let ext = substring(filename, i + 1, n);
            out.append(ext.as_str());
            out
        },
        None => {
            let mut out = owned(filename);
            out.append("-");
            out.append(s.as_str());
            out
        },
    }
}

/// The name used when every suffixed candidate is taken: `suffix-filename`.
pub open spec fn fallback_name(suffix: Seq<char>, filename: Seq<char>) -> Seq<char> {
    suffix + "-"@ + filename
}

pub fn fallback_media_name(suffix: &str, filename: &str) -> (r: String)
    ensures
        r@ == fallback_name(suffix@, filename@),
{
    let mut out = owned(suffix);
    out.append("-");
    out.append(filename);
    out
}

/// The decimal rendering reads back as the number it renders.
pub proof fn lemma_decimal_value(n: nat)
    ensures
        digits_value(decimal(n)) == n,
        decimal(n).len() > 0,
        forall|k: int| 0 <= k < decimal(n).len() ==> is_digit(#[trigger] decimal(n)[k]),
    decreases n,
{
    if n >= 10 {
        lemma_decimal_value(n / 10);
        crate::text::lemma_digit_char(n % 10);
        let d = decimal(n);
        assert(d.drop_last() =~= decimal(n / 10));
        assert(d.last() == crate::text::digit_char(n % 10));
        assert(digits_value(d) == digits_value(d.drop_last()) * 10 + crate::text::digit_value(d.last()));
        assert(digits_value(d) == (n / 10) * 10 + n % 10);
    } else {
        let d = decimal(n);
        assert(digits_value(d) == digits_value(d.drop_last()) * 10 + crate::text::digit_value(d.last()));
        crate::text::lemma_digit_char(n);
        assert(decimal(n).drop_last() =~= Seq::<char>::empty());
    }
}

/// Different numbers render differently.
pub proof fn lemma_decimal_injective(a: nat, b: nat)
    requires
        a != b,
    ensures
        decimal(a) != decimal(b),
{
    lemma_decimal_value(a);
    lemma_decimal_value(b);
}

proof fn lemma_cancel(p: Seq<char>, x: Seq<char>, y: Seq<char>, q: Seq<char>)
    requires
        p + x + q == p + y + q,
    ensures
        x == y,
{
    let l = p + x + q;
    let r = p + y + q;
    assert(l.len() == r.len());
    assert((p + x).len() == p.len() + x.len());
    assert((p + y).len() == p.len() + y.len());
    assert(l.len() == (p + x).len() + q.len());
    assert(r.len() == (p + y).len() + q.len());
    assert(x.len() == y.len());
    assert forall|k: int| 0 <= k < x.len() implies x[k] == y[k] by {
        assert((p + x)[p.len() + k] == x[k]);
        assert((p + y)[p.len() + k] == y[k]);
        assert(l[p.len() + k] == (p + x)[p.len() + k]);
        assert(r[p.len() + k] == (p + y)[p.len() + k]);
    }
    assert(x =~= y);
}

/// The candidate names that two different attempts produce are different,
/// so a search over attempts never asks for the same name twice.
pub proof fn lemma_attempts_give_distinct_names(filename: Seq<char>, suffix: Seq<char>, a: nat, b: nat)
    requires
        1 <= a,
        1 <= b,
        a != b,
    ensures
        suffixed_name(filename, suffix, a) != suffixed_name(filename, suffix, b),
{
    let sa = attempt_suffix(suffix, a);
    let sb = attempt_suffix(suffix, b);
    assert(sa != sb) by {
        if a > 1 && b > 1 {
            lemma_decimal_injective(a, b);
            if sa == sb {
                lemma_cancel(suffix + "-"@, decimal(a), decimal(b), Seq::empty());
                assert(suffix + "-"@ + decimal(a) + Seq::<char>::empty() =~= sa);
                assert(suffix + "-"@ + decimal(b) + Seq::<char>::empty() =~= sb);
            }
        } else if a > 1 {
            lemma_decimal_value(a);
            assert(sa.len() > suffix.len());
        } else {
            lemma_decimal_value(b);
            assert(sb.len() > suffix.len());
        }
    }
    let na = suffixed_name(filename, suffix, a);
    let nb = suffixed_name(filename, suffix, b);
    if na == nb {
        if ends_with(filename, ".tar.gz"@) {
            let p = filename.subrange(0, filename.len() - 7) + "-"@;
            lemma_cancel(p, sa, sb, ".tar.gz"@);
        } else {
            match last_index_of(filename, '.') {
                Some(i) => {
                    let p = filename.subrange(0, i) + "-"@;
                    let q = "."@ + filename.subrange(i + 1, filename.len() as int);
                    assert(na =~= p + sa + q);
                    assert(nb =~= p + sb + q);
                    lemma_cancel(p, sa, sb, q);
                },
                None => {
                    let p = filename + "-"@;
                    assert(na =~= p + sa + Seq::empty());
                    assert(nb =~= p + sb + Seq::empty());
                    lemma_cancel(p, sa, sb, Seq::empty());
                },
            }
        }
    }
}

/// A suffixed candidate is never the name it was made from: it is longer.
pub proof fn lemma_suffixed_name_differs(filename: Seq<char>, suffix: Seq<char>, attempt: nat)
    ensures
        suffixed_name(filename, suffix, attempt).len() == filename.len() + 1 + attempt_suffix(
            suffix,
            attempt,
        ).len(),
        suffixed_name(filename, suffix, attempt) != filename,
{
    reveal_strlit(".tar.gz");
    reveal_strlit("-");
    reveal_strlit(".");
    crate::text::lemma_last_index_of(filename, '.');
}

} // verus!
