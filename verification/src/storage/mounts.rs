//! Reading what the kernel and the OS self-check report: mount table
//! lines, escaped mount fields, the self-check report and block device
//! names.
use vstd::prelude::*;
use vstd::string::*;
use vstd::utf8::encode_utf8;
use crate::storage::paths::{paths_equal, same_path};
use crate::text::{
    decimal, lines, lines_of, owned, push_char, push_decimal, seq_eq, split, split_char,
    split_once, split_once_char, split_once_pattern, split_once_str, starts_with, starts_with_str,
    substring, trim, trim_str, views, words, words_of, is_digit,
};

verus! {

pub open spec fn is_octal(b: u8) -> bool {
    48 <= b && b <= 55
}

pub open spec fn octal3(b: Seq<u8>, i: int) -> int {
    (b[i + 1] - 48) * 64 + (b[i + 2] - 48) * 8 + (b[i + 3] - 48)
}

/// A `\ooo` escape of a byte value starts at `i`.
pub open spec fn escape_at(b: Seq<u8>, i: int) -> bool {
    &&& 0 <= i
    &&& i + 3 < b.len()
    &&& b[i] == 92
    &&& is_octal(b[i + 1])
    &&& is_octal(b[i + 2])
    &&& is_octal(b[i + 3])
    &&& octal3(b, i) <= 255
}

/// Decodes the mount table's `\ooo` escapes in `b[i..]`; every other byte
/// stands for the character of the same value.
pub open spec fn decode_from(b: Seq<u8>, i: int) -> Seq<char>
    decreases b.len() - i,
{
    if i < 0 || i >= b.len() {
        Seq::empty()
    } else if escape_at(b, i) {
        seq![(octal3(b, i) as u8) as char] + decode_from(b, i + 4)
    } else {
        seq![b[i] as char] + decode_from(b, i + 1)
    }
}

/// The decoding never has to cut a multi-byte character after a backslash.
pub open spec fn decodable(b: Seq<u8>) -> bool {
    forall|i: int|
        0 <= i && i + 4 < b.len() && #[trigger] b[i] == 92 ==> !(128 <= b[i + 4] && b[i + 4] < 192)
}

/// Decodes the octal escapes (`\040` for a space) of a mount table field.
pub fn decode_mount_field(raw: &str) -> (r: String)
    requires
        decodable(raw.spec_bytes()),
    ensures
        r@ == decode_from(raw.spec_bytes(), 0),
{
    let bytes = raw.as_bytes();
    let ghost b = raw.spec_bytes();
    let n = bytes.len();
    let mut out = String::new();
    let mut idx: usize = 0;
    while idx < n
        invariant
            b == bytes@,
            n == b.len(),
            idx <= n,
            out@ + decode_from(b, idx as int) == decode_from(b, 0),
        decreases n - idx,
    {
        if bytes[idx] == 92u8 && n - idx > 3 {
            let d1 = bytes[idx + 1];
            let d2 = bytes[idx + 2];
            let d3 = bytes[idx + 3];
            if 48 <= d1 && d1 <= 55 && 48 <= d2 && d2 <= 55 && 48 <= d3 && d3 <= 55 {
                let value: u32 = ((d1 - 48) as u32) * 64 + ((d2 - 48) as u32) * 8 + ((d3 - 48) as u32);
                if value <= 255 {
                    let ghost before = out@;
                    push_char(&mut out, (value as u8) as char);
                    assert(escape_at(b, idx as int));
                    assert(out@ + decode_from(b, idx + 4) =~= before + decode_from(b, idx as int));
                    idx = idx + 4;
                    continue;
                }
            }
        }
        let ghost before = out@;
        push_char(&mut out, bytes[idx] as char);
        assert(!escape_at(b, idx as int));
        assert(out@ + decode_from(b, idx + 1) =~= before + decode_from(b, idx as int));
        idx = idx + 1;
    }
    assert(out@ =~= decode_from(b, 0));
    out
}

/// Tests whether a field can be decoded as `decode_mount_field` requires.
pub fn mount_field_decodable(raw: &str) -> (r: bool)
    ensures
        r == decodable(raw.spec_bytes()),
{
    let bytes = raw.as_bytes();
    let n = bytes.len();
    let mut i: usize = 0;
    while i < n
        invariant
            bytes@ == raw.spec_bytes(),
            n == bytes@.len(),
            i <= n,
            forall|k: int| 0 <= k < i && k + 4 < n && #[trigger] bytes@[k] == 92 ==> !(128 <= bytes@[k + 4] && bytes@[k + 4] < 192),
        decreases n - i,
    {
        if bytes[i] == 92u8 && n - i > 4 && 128 <= bytes[i + 4] && bytes[i + 4] < 192 {
            return false;
        }
        i = i + 1;
    }
    true
}

/// One line of `/proc/self/mountinfo`: where it is mounted and the file system type.
#[derive(Debug, Clone, PartialEq, Eq)]
pub struct MountEntry {
    pub mount_point: String,
    pub fs_type: String,
}

impl View for MountEntry {
    type V = (Seq<char>, Seq<char>);

    open spec fn view(&self) -> (Seq<char>, Seq<char>) {
        (self.mount_point@, self.fs_type@)
    }
}

/// The mount point field (the fifth before ` - `) of a mountinfo line.
pub open spec fn mount_point_field(line: Seq<char>) -> Option<Seq<char>> {
    match split_once_str(line, " - "@) {
        Some((pre, _)) => {
            let pw = words(pre);
            if pw.len() > 4 {
                Some(pw[4])
            } else {
                None
            }
        },
        None => None,
    }
}

/// The line's mount point field, if it has one, can be decoded.
pub open spec fn mountinfo_line_ok(line: Seq<char>) -> bool {
    mount_point_field(line) matches Some(f) ==> decodable(encode_utf8(f))
}

/// The entry a mountinfo line describes: the decoded fifth field before
/// ` - ` and the first field after it.
pub open spec fn mount_entry(line: Seq<char>) -> Option<(Seq<char>, Seq<char>)> {
    match split_once_str(line, " - "@) {
        Some((pre, post)) => {
            let pw = words(pre);
            let qw = words(post);
            if pw.len() > 4 && qw.len() > 0 {
                Some((decode_from(encode_utf8(pw[4]), 0), qw[0]))
            } else {
                None
            }
        },
        None => None,
    }
}

/// Reads the mount point and file system type of one mountinfo line.
pub fn parse_mountinfo_line(line: &str) -> (r: Option<MountEntry>)
    requires
        mountinfo_line_ok(line@),
    ensures
        match r {
            Some(e) => mount_entry(line@) == Some(e@),
            None => mount_entry(line@) is None,
        },
{
    let (pre, post) = match split_once_pattern(line, " - ") {
        Some(parts) => parts,
        None => return None,
    };
    let pre_fields = words_of(pre.as_str());
    let post_fields = words_of(post.as_str());
    if pre_fields.len() <= 4 || post_fields.len() == 0 {
        assert(views(pre_fields@).len() == pre_fields@.len());
        assert(views(post_fields@).len() == post_fields@.len());
        return None;
    }
    assert(views(pre_fields@)[4] == pre_fields@[4]@);
    let mount_point = decode_mount_field(pre_fields[4].as_str());
    let fs_type = post_fields[0].clone();
    assert(views(post_fields@)[0] == post_fields@[0]@);
    Some(MountEntry { mount_point, fs_type })
}

/// Tests whether a line meets what `parse_mountinfo_line` requires.
pub fn mountinfo_line_decodable(line: &str) -> (r: bool)
    ensures
        r == mountinfo_line_ok(line@),
{
    let pre = match split_once_pattern(line, " - ") {
        Some((pre, _)) => pre,
        None => return true,
    };
    let pre_fields = words_of(pre.as_str());
    if pre_fields.len() <= 4 {
        assert(views(pre_fields@).len() == pre_fields@.len());
        return true;
    }
    assert(views(pre_fields@)[4] == pre_fields@[4]@);
    mount_field_decodable(pre_fields[4].as_str())
}

/// The entries of a mount table, one per line that has both fields.
pub open spec fn mount_entries(ls: Seq<Seq<char>>) -> Seq<(Seq<char>, Seq<char>)>
    decreases ls.len(),
{
    if ls.len() == 0 {
        Seq::empty()
    } else {
        let rest = mount_entries(ls.drop_last());
        match mount_entry(ls.last()) {
            Some(e) => rest.push(e),
            None => rest,
        }
    }
}

pub open spec fn entry_views(v: Seq<MountEntry>) -> Seq<(Seq<char>, Seq<char>)> {
    v.map_values(|e: MountEntry| e@)
}

/// Every line of the table can be decoded.
pub open spec fn mountinfo_ok(raw: Seq<char>) -> bool {
    forall|i: int| 0 <= i < lines(raw).len() ==> mountinfo_line_ok(#[trigger] lines(raw)[i])
}

/// Reads the whole of `/proc/self/mountinfo`.
pub fn parse_mountinfo(raw: &str) -> (r: Vec<MountEntry>)
    requires
        mountinfo_ok(raw@),
    ensures
        entry_views(r@) == mount_entries(lines(raw@)),
{
    let ls = lines_of(raw);
    let ghost lv = views(ls@);
    let mut out: Vec<MountEntry> = Vec::new();
    let mut i: usize = 0;
    while i < ls.len()
        invariant
            lv == views(ls@),
            lv == lines(raw@),
            mountinfo_ok(raw@),
            i <= ls@.len(),
            entry_views(out@) == mount_entries(lv.subrange(0, i as int)),
        decreases ls@.len() - i,
    {
        assert(lv.subrange(0, i + 1).drop_last() =~= lv.subrange(0, i as int));
        assert(mountinfo_line_ok(lv[i as int]));
        match parse_mountinfo_line(ls[i].as_str()) {
            Some(e) => {
                out.push(e);
                assert(entry_views(out@) =~= mount_entries(lv.subrange(0, i as int)).push(e@));
            },
            None => {},
        }
        i = i + 1;
    }
    assert(lv.subrange(0, lv.len() as int) =~= lv);
    out
}

/// The file system type of the first entry mounted at `path`.
pub open spec fn fs_type_at(entries: Seq<(Seq<char>, Seq<char>)>, path: Seq<char>) -> Option<Seq<char>>
    decreases entries.len(),
{
    if entries.len() == 0 {
        None
    } else if same_path(entries[0].0, path) {
        Some(entries[0].1)
    } else {
        fs_type_at(entries.drop_first(), path)
    }
}

/// The file system type mounted at `path`, if any entry names it.
pub fn mount_fs_type(mounts: &[MountEntry], path: &str) -> (r: Option<String>)
    ensures
        match r {
            Some(t) => fs_type_at(entry_views(mounts@), path@) == Some(t@),
            None => fs_type_at(entry_views(mounts@), path@) is None,
        },
{
    let ghost ev = entry_views(mounts@);
    let mut i: usize = 0;
    assert(ev.subrange(0, ev.len() as int) =~= ev);
    while i < mounts.len()
        invariant
            ev == entry_views(mounts@),
            i <= mounts@.len(),
            fs_type_at(ev, path@) == fs_type_at(ev.subrange(i as int, ev.len() as int), path@),
        decreases mounts@.len() - i,
    {
        let ghost rest = ev.subrange(i as int, ev.len() as int);
        assert(rest.drop_first() =~= ev.subrange(i + 1, ev.len() as int));
        assert(rest[0] == mounts@[i as int]@);
        if paths_equal(mounts[i].mount_point.as_str(), path) {
            return Some(mounts[i].fs_type.clone());
        }
        i = i + 1;
    }
    None
}

/// The trimmed, non-empty pieces of a list.
pub open spec fn trimmed_nonempty(parts: Seq<Seq<char>>) -> Seq<Seq<char>>
    decreases parts.len(),
{
    if parts.len() == 0 {
        Seq::empty()
    } else {
        let rest = trimmed_nonempty(parts.drop_last());
        let t = trim(parts.last());
        if t.len() > 0 {
            rest.push(t)
        } else {
            rest
        }
    }
}

/// A comma-separated list of codes.
pub open spec fn code_list(raw: Seq<char>) -> Seq<Seq<char>> {
    trimmed_nonempty(split(raw, ','))
}

/// Splits a comma-separated list of codes, trimming each and dropping empty ones.
pub fn parse_code_list(raw: &str) -> (r: Vec<String>)
    ensures
        views(r@) == code_list(raw@),
{
    let parts = split_char(raw, ',');
    let ghost pv = views(parts@);
    let mut out: Vec<String> = Vec::new();
    let mut i: usize = 0;
    while i < parts.len()
        invariant
            pv == views(parts@),
            pv == split(raw@, ','),
            i <= parts@.len(),
            views(out@) == trimmed_nonempty(pv.subrange(0, i as int)),
        decreases parts@.len() - i,
    {
        assert(pv.subrange(0, i + 1).drop_last() =~= pv.subrange(0, i as int));
        let t = trim_str(parts[i].as_str());
        if t.unicode_len() > 0 {
            let ghost before = views(out@);
            out.push(owned(t));
            assert(views(out@) =~= before.push(t@));
        }
        i = i + 1;
    }
    assert(pv.subrange(0, pv.len() as int) =~= pv);
    out
}

/// What the OS self-check repaired and what it could not.
#[derive(Debug, Clone, Default, PartialEq, Eq)]
pub struct SelfCheckReport {
    pub repairs: Vec<String>,
    pub failures: Vec<String>,
}

impl View for SelfCheckReport {
    type V = (Seq<Seq<char>>, Seq<Seq<char>>);

    open spec fn view(&self) -> (Seq<Seq<char>>, Seq<Seq<char>>) {
        (views(self.repairs@), views(self.failures@))
    }
}

/// The report after one more line of the `KEY=value` file.
pub open spec fn report_step(r: (Seq<Seq<char>>, Seq<Seq<char>>), raw_line: Seq<char>) -> (Seq<Seq<char>>, Seq<Seq<char>>) {
    let line = trim(raw_line);
    if line.len() == 0 || line[0] == '#' {
        r
    } else {
        match split_once(line, '=') {
            None => r,
            Some((k, v)) => {
                let key = trim(k);
                if key == "REPAIRS"@ {
                    (code_list(v), r.1)
                } else if key == "FAILURES"@ {
                    (r.0, code_list(v))
                } else {
                    r
                }
            },
        }
    }
}

/// The report that a sequence of lines gives.
pub open spec fn report_of(ls: Seq<Seq<char>>) -> (Seq<Seq<char>>, Seq<Seq<char>>)
    decreases ls.len(),
{
    if ls.len() == 0 {
        (Seq::empty(), Seq::empty())
    } else {
        report_step(report_of(ls.drop_last()), ls.last())
    }
}

/// Reads the OS self-check report: `REPAIRS=` and `FAILURES=` lists,
/// blank lines and `#` comments ignored, a later line winning.
pub fn parse_self_check_text(raw: &str) -> (r: SelfCheckReport)
    ensures
        r@ == report_of(lines(raw@)),
{
    let ls = lines_of(raw);
    let ghost lv = views(ls@);
    let mut report = SelfCheckReport { repairs: Vec::new(), failures: Vec::new() };
    assert(report@ =~= report_of(lv.subrange(0, 0)));
    let mut i: usize = 0;
    while i < ls.len()
        invariant
            lv == views(ls@),
            i <= ls@.len(),
            report@ == report_of(lv.subrange(0, i as int)),
        decreases ls@.len() - i,
    {
        assert(lv.subrange(0, i + 1).drop_last() =~= lv.subrange(0, i as int));
        assert(lv.subrange(0, i + 1).last() == ls@[i as int]@);
        let line = trim_str(ls[i].as_str());
        let n = line.unicode_len();
        if n == 0 || line.get_char(0) == '#' {
            i = i + 1;
            continue;
        }
        match split_once_char(line, '=') {
            None => {},
            Some((key_raw, value)) => {
                let key = trim_str(key_raw.as_str());
                if seq_eq(key, "REPAIRS") {
                    report.repairs = parse_code_list(value.as_str());
                } else if seq_eq(key, "FAILURES") {
                    report.failures = parse_code_list(value.as_str());
                }
            },
        }
        i = i + 1;
    }
    assert(lv.subrange(0, lv.len() as int) =~= lv);
    report
}

/// What `char::is_numeric` says of a character (the Unicode number categories).
pub uninterp spec fn char_is_numeric(c: char) -> bool;

/// `char::is_numeric`: true exactly for the characters of the Unicode
/// general categories Nd, Nl and No; among ASCII characters those are the
/// digits `0` to `9`.
#[verifier::external_body]
fn is_numeric_char(c: char) -> (r: bool)
    ensures
        r == char_is_numeric(c),
        (c as u32) < 128 ==> (r <==> is_digit(c)),
{
    c.is_numeric()
}

/// `char::is_numeric`, with what is known of it spelled out: among ASCII
/// characters exactly the digits.
pub open spec fn numeric(c: char) -> bool {
    if (c as u32) < 128 {
        is_digit(c)
    } else {
        char_is_numeric(c)
    }
}

/// `s` without its trailing numeric characters.
pub open spec fn trim_end_numeric(s: Seq<char>) -> Seq<char>
    decreases s.len(),
{
    if s.len() > 0 && numeric(s.last()) {
        trim_end_numeric(s.drop_last())
    } else {
        s
    }
}

/// The disk that a partition device belongs to.
pub open spec fn disk_of_partition(dev: Seq<char>) -> Option<Seq<char>> {
    if starts_with(dev, "/dev/mmcblk"@) || starts_with(dev, "/dev/nvme"@) {
        let i = crate::text::last_index_of(dev, 'p');
        match i {
            None => None,
            Some(i) => {
                let suffix = dev.subrange(i + 1, dev.len() as int);
                if forall|k: int| 0 <= k < suffix.len() ==> is_digit(#[trigger] suffix[k]) {
                    Some(dev.subrange(0, i))
                } else {
                    None
                }
            },
        }
    } else if starts_with(dev, "/dev/sd"@) {
        Some(trim_end_numeric(dev))
    } else {
        None
    }
}

/// `/dev/mmcblk0p4` gives `/dev/mmcblk0`, `/dev/sda4` gives `/dev/sda`.
pub fn disk_from_partition_device(dev: &str) -> (r: Option<String>)
    ensures
        match r {
            Some(d) => disk_of_partition(dev@) == Some(d@),
            None => disk_of_partition(dev@) is None,
        },
{
    if starts_with_str(dev, "/dev/mmcblk") || starts_with_str(dev, "/dev/nvme") {
        let i = match crate::text::rfind_char(dev, 'p') {
            Some(i) => i,
            None => return None,
        };
        let n = dev.unicode_len();
        let mut k = i + 1;
        while k < n
            invariant
                n == dev@.len(),
                i < n,
                i + 1 <= k <= n,
                crate::text::last_index_of(dev@, 'p') == Some(i as int),
                starts_with(dev@, "/dev/mmcblk"@) || starts_with(dev@, "/dev/nvme"@),
                forall|t: int| i + 1 <= t < k ==> is_digit(#[trigger] dev@[t]),
            decreases n - k,
        {
            let c = dev.get_char(k);
            if !('0' <= c && c <= '9') {
                proof {
                    let suffix = dev@.subrange(i + 1, n as int);
                    assert(suffix[k - i - 1] == c);
                    assert(!is_digit(suffix[k - i - 1]));
                    assert(crate::text::last_index_of(dev@, 'p') == Some(i as int));
                }
                return None;
            }
            k = k + 1;
        }
        proof {
            let suffix = dev@.subrange(i + 1, n as int);
            assert forall|t: int| 0 <= t < suffix.len() implies is_digit(#[trigger] suffix[t]) by {
                assert(suffix[t] == dev@[i + 1 + t]);
            }
        }
        return Some(substring(dev, 0, i));
    }
    if starts_with_str(dev, "/dev/sd") {
        let mut j = dev.unicode_len();
        assert(dev@.subrange(0, j as int) =~= dev@);
        while j > 0
            invariant
                j <= dev@.len(),
                trim_end_numeric(dev@) == trim_end_numeric(dev@.subrange(0, j as int)),
            ensures
                j <= dev@.len(),
                trim_end_numeric(dev@) == trim_end_numeric(dev@.subrange(0, j as int)),
                j == 0 || !numeric(dev@[j - 1]),
            decreases j,
        {
            let c = dev.get_char(j - 1);
            if !is_numeric_char(c) {
                break;
            }
            assert(dev@.subrange(0, j as int).drop_last() =~= dev@.subrange(0, j - 1));
            j = j - 1;
        }
        return Some(substring(dev, 0, j));
    }
    None
}

/// A disk read back from one of its partitions: what `trim_end_numeric`
/// keeps when every character it looks at is a digit.
proof fn lemma_trim_digits(d: Seq<char>, x: Seq<char>)
    requires
        d.len() > 0,
        !numeric(d.last()),
        forall|k: int| 0 <= k < x.len() ==> is_digit(#[trigger] x[k]),
    ensures
        trim_end_numeric(d + x) == d,
    decreases x.len(),
{
    if x.len() == 0 {
        assert(d + x =~= d);
    } else {
        let c = x.last();
        assert(is_digit(x[x.len() - 1]));
        assert((d + x).last() == c);
        assert((c as u32) < 128);
        assert((d + x).drop_last() =~= d + x.drop_last());
        assert forall|k: int| 0 <= k < x.drop_last().len() implies is_digit(#[trigger] x.drop_last()[k]) by {
            assert(x.drop_last()[k] == x[k]);
        }
        lemma_trim_digits(d, x.drop_last());
    }
}

/// `p` at the front of `d` stays at the front of `d` with anything after it.
proof fn lemma_prefix_kept(d: Seq<char>, x: Seq<char>, p: Seq<char>)
    requires
        starts_with(d, p),
    ensures
        starts_with(d + x, p),
{
    assert((d + x).subrange(0, p.len() as int) =~= d.subrange(0, p.len() as int));
}

/// Naming a partition of a disk and then asking which disk the partition
/// belongs to gives the disk back, for the disks the two functions are
/// written for: eMMC and NVMe disks, and SCSI disks whose name does not end
/// in a digit.
pub proof fn law_partition_names_its_disk(d: Seq<char>, n: u32)
    requires
        starts_with(d, "/dev/mmcblk"@) || starts_with(d, "/dev/nvme"@) || (starts_with(d, "/dev/sd"@)
            && !numeric(d.last())),
    ensures
        disk_of_partition(partition_of(d, n)) == Some(d),
{
    reveal_strlit("/dev/mmcblk");
    reveal_strlit("/dev/nvme");
    reveal_strlit("/dev/sd");
    reveal_strlit("p");
    crate::recording::media::lemma_decimal_value(n as nat);
    let x = decimal(n as nat);
    if starts_with(d, "/dev/mmcblk"@) || starts_with(d, "/dev/nvme"@) {
        let q = d + "p"@ + x;
        assert(partition_of(d, n) == q);
        assert(d + "p"@ + x =~= d + ("p"@ + x));
        if starts_with(d, "/dev/mmcblk"@) {
            lemma_prefix_kept(d, "p"@ + x, "/dev/mmcblk"@);
        } else {
            lemma_prefix_kept(d, "p"@ + x, "/dev/nvme"@);
        }
        assert(q[d.len() as int] == 'p');
        assert forall|k: int| d.len() < k < q.len() implies q[k] != 'p' by {
            assert(q[k] == x[k - d.len() - 1]);
            assert(is_digit(x[k - d.len() - 1]));
        }
        crate::text::lemma_last_index_of(q, 'p');
        let j = crate::text::last_index_of(q, 'p');
        assert(j == Some(d.len() as int)) by {
            let w = j->0;
            if w < d.len() {
                assert(q[d.len() as int] == 'p');
            }
        }
        let suffix = q.subrange(d.len() as int + 1, q.len() as int);
        assert(suffix =~= x);
        assert(q.subrange(0, d.len() as int) =~= d);
    } else {
        assert(d.subrange(0, 7)[5] == d[5]);
        assert(!starts_with(d, "/dev/mmcblk"@)) by {
            assert(d[5] == 's');
            if starts_with(d, "/dev/mmcblk"@) {
                assert(d.subrange(0, 11)[5] == d[5]);
            }
        }
        assert(!starts_with(d, "/dev/nvme"@)) by {
            if starts_with(d, "/dev/nvme"@) {
                assert(d.subrange(0, 9)[5] == d[5]);
            }
        }
        assert(d.subrange(0, 7)[5] == d[5]);
        let q = d + x;
        assert(partition_of(d, n) == q);
        lemma_prefix_kept(d, x, "/dev/sd"@);
        assert(!starts_with(q, "/dev/mmcblk"@)) by {
            if starts_with(q, "/dev/mmcblk"@) {
                assert(q.subrange(0, 11)[5] == q[5]);
            }
        }
        assert(!starts_with(q, "/dev/nvme"@)) by {
            if starts_with(q, "/dev/nvme"@) {
                assert(q.subrange(0, 9)[5] == q[5]);
            }
        }
        lemma_trim_digits(d, x);
    }
}

/// `/dev/mmcblk0` and partition 2 give `/dev/mmcblk0p2`; `/dev/sda` gives `/dev/sda2`.
pub open spec fn partition_of(disk: Seq<char>, part: u32) -> Seq<char> {
    if starts_with(disk, "/dev/mmcblk"@) || starts_with(disk, "/dev/nvme"@) {
        disk + "p"@ + decimal(part as nat)
    } else {
        disk + decimal(part as nat)
    }
}

pub fn partition_device(disk: &str, part: u32) -> (r: String)
    ensures
        r@ == partition_of(disk@, part),
{
    let mut out = owned(disk);
    if starts_with_str(disk, "/dev/mmcblk") || starts_with_str(disk, "/dev/nvme") {
        out.append("p");
    }
    push_decimal(&mut out, part as u64);
    out
}

/// The partitions of a squashfs A/B image, given the device that holds
/// DATA: slot A is partition 2, slot B partition 3 and DATA partition 4
/// of the same disk.
pub open spec fn ota_partitions(data_device: Seq<char>) -> Option<(Seq<char>, Seq<char>, Seq<char>)> {
    match disk_of_partition(data_device) {
        Some(disk) => Some((partition_of(disk, 2), partition_of(disk, 3), partition_of(disk, 4))),
        None => None,
    }
}

pub fn ota_partition_paths(data_device: &str) -> (r: Option<(String, String, String)>)
    ensures
        match r {
            Some((a, b, d)) => ota_partitions(data_device@) == Some((a@, b@, d@)),
            None => ota_partitions(data_device@) is None,
        },
{
    let disk = match disk_from_partition_device(data_device) {
        Some(disk) => disk,
        None => return None,
    };
    Some((partition_device(disk.as_str(), 2), partition_device(disk.as_str(), 3), partition_device(disk.as_str(), 4)))
}

} // verus!
