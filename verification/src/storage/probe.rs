//! The storage probe as a whole: from what was read off the running system
//! (the mount table, the self-check report files, which device nodes and
//! mount points exist, the OTA slot facts) to the health snapshot.
use vstd::prelude::*;
use crate::storage::health::{
    evaluate_storage_health, health_issues, issue_views, OtaProbe, StorageHealthSnapshot,
    StorageProbeSnapshot,
};
use crate::storage::mounts::{
    fs_type_at, mount_entries, mount_fs_type, mountinfo_line_decodable, mountinfo_line_ok,
    mountinfo_ok, parse_mountinfo, parse_self_check_text, report_of, MountEntry,
};
use crate::text::{lines, lines_of, views};

verus! {

/// Everything the storage probe reads from the system, as plain values.
/// A file that could not be read is `None`.
#[derive(Debug, Clone, Default)]
pub struct StorageSystemReads {
    /// `/proc/self/mountinfo`.
    pub mountinfo: Option<String>,
    /// The self-check report files, in the order they are tried.
    pub self_check_files: Vec<Option<String>>,
    /// `/dev/disk/by-label/DATA` exists.
    pub data_partition_present: bool,
    /// `/var/lib/helios` is a mount point.
    pub data_mountpoint_present: bool,
    /// `/.overlay-data` is a mount point.
    pub overlay_data_mountpoint_present: bool,
    /// One of the OTA pending markers exists.
    pub ota_pending_present: bool,
    /// What the OTA checks found.
    pub ota: OtaProbe,
}

pub open spec fn opt_view(o: Option<String>) -> Option<Seq<char>> {
    match o {
        Some(s) => Some(s@),
        None => None,
    }
}

/// The mount table; an unreadable table has no entries.
pub open spec fn mount_table(reads: StorageSystemReads) -> Seq<(Seq<char>, Seq<char>)> {
    match reads.mountinfo {
        Some(t) => mount_entries(lines(t@)),
        None => Seq::empty(),
    }
}

/// The mount table, when there is one, can be decoded.
pub open spec fn reads_ok(reads: StorageSystemReads) -> bool {
    match reads.mountinfo {
        Some(t) => mountinfo_ok(t@),
        None => true,
    }
}

/// The report of the first self-check file that could be read; none read
/// gives an empty report.
pub open spec fn first_report(files: Seq<Option<String>>) -> (Seq<Seq<char>>, Seq<Seq<char>>)
    decreases files.len(),
{
    if files.len() == 0 {
        (Seq::empty(), Seq::empty())
    } else {
        match files[0] {
            Some(t) => report_of(lines(t@)),
            None => first_report(files.drop_first()),
        }
    }
}

/// `s` is the probe snapshot that `reads` describe.
pub open spec fn captures(reads: StorageSystemReads, s: StorageProbeSnapshot) -> bool {
    &&& opt_view(s.root_fs_type) == fs_type_at(mount_table(reads), "/"@)
    &&& opt_view(s.data_fs_type) == fs_type_at(mount_table(reads), "/var/lib/helios"@)
    &&& opt_view(s.overlay_data_fs_type) == fs_type_at(mount_table(reads), "/.overlay-data"@)
    &&& s.data_partition_present == reads.data_partition_present
    &&& s.data_mountpoint_present == reads.data_mountpoint_present
    &&& s.overlay_data_mountpoint_present == reads.overlay_data_mountpoint_present
    &&& s.ota_pending_present == reads.ota_pending_present
    &&& views(s.self_check_repairs@) == first_report(reads.self_check_files@).0
    &&& views(s.self_check_failures@) == first_report(reads.self_check_files@).1
}

/// Whether the mount table read can be decoded (a backslash in it opens an
/// escape only before three ASCII characters).
pub fn storage_reads_ok(reads: &StorageSystemReads) -> (r: bool)
    ensures
        r == reads_ok(*reads),
{
    match &reads.mountinfo {
        None => true,
        Some(t) => {
            let ls = lines_of(t.as_str());
            let ghost lv = views(ls@);
            let mut i: usize = 0;
            while i < ls.len()
                invariant
                    reads.mountinfo == Some(*t),
                    lv == views(ls@),
                    lv == lines(t@),
                    i <= ls@.len(),
                    forall|j: int| 0 <= j < i ==> mountinfo_line_ok(#[trigger] lv[j]),
                decreases ls@.len() - i,
            {
                assert(lv[i as int] == ls@[i as int]@);
                if !mountinfo_line_decodable(ls[i].as_str()) {
                    assert(!mountinfo_line_ok(lines(t@)[i as int]));
                    return false;
                }
                i = i + 1;
            }
            true
        },
    }
}

fn read_mount_table(reads: &StorageSystemReads) -> (r: Vec<MountEntry>)
    requires
        reads_ok(*reads),
    ensures
        crate::storage::mounts::entry_views(r@) == mount_table(*reads),
{
    match &reads.mountinfo {
        Some(t) => parse_mountinfo(t.as_str()),
        None => {
            let v: Vec<MountEntry> = Vec::new();
            assert(crate::storage::mounts::entry_views(v@) =~= mount_table(*reads));
            v
        },
    }
}

fn read_first_report(files: &Vec<Option<String>>) -> (r: (Vec<String>, Vec<String>))
    ensures
        views(r.0@) == first_report(files@).0,
        views(r.1@) == first_report(files@).1,
{
    let mut i: usize = 0;
    assert(files@.subrange(0, files@.len() as int) =~= files@);
    while i < files.len()
        invariant
            i <= files@.len(),
            first_report(files@) == first_report(files@.subrange(i as int, files@.len() as int)),
        decreases files@.len() - i,
    {
        let ghost rest = files@.subrange(i as int, files@.len() as int);
        assert(rest.drop_first() =~= files@.subrange(i + 1, files@.len() as int));
        match &files[i] {
            Some(t) => {
                let report = parse_self_check_text(t.as_str());
                return (report.repairs, report.failures);
            },
            None => {},
        }
        i = i + 1;
    }
    let ghost rest = files@.subrange(i as int, files@.len() as int);
    assert(rest.len() == 0);
    let r: (Vec<String>, Vec<String>) = (Vec::new(), Vec::new());
    assert(views(r.0@) =~= Seq::<Seq<char>>::empty());
    assert(views(r.1@) =~= Seq::<Seq<char>>::empty());
    r
}

/// Gathers what was read into the probe snapshot.
pub fn capture_storage_probe(reads: &StorageSystemReads) -> (s: StorageProbeSnapshot)
    requires
        reads_ok(*reads),
    ensures
        captures(*reads, s),
{
    let mounts = read_mount_table(reads);
    let report = read_first_report(&reads.self_check_files);
    let root = mount_fs_type(mounts.as_slice(), "/");
    let data = mount_fs_type(mounts.as_slice(), "/var/lib/helios");
    let overlay = mount_fs_type(mounts.as_slice(), "/.overlay-data");
    StorageProbeSnapshot {
        root_fs_type: root,
        data_fs_type: data,
        overlay_data_fs_type: overlay,
        data_partition_present: reads.data_partition_present,
        data_mountpoint_present: reads.data_mountpoint_present,
        overlay_data_mountpoint_present: reads.overlay_data_mountpoint_present,
        ota_pending_present: reads.ota_pending_present,
        self_check_repairs: report.0,
        self_check_failures: report.1,
    }
}

/// Two probe snapshots that agree in every view give the same issues.
pub proof fn lemma_health_issues_depend_on_views(a: StorageProbeSnapshot, b: StorageProbeSnapshot, ota: OtaProbe)
    requires
        opt_view(a.root_fs_type) == opt_view(b.root_fs_type),
        opt_view(a.data_fs_type) == opt_view(b.data_fs_type),
        opt_view(a.overlay_data_fs_type) == opt_view(b.overlay_data_fs_type),
        a.data_partition_present == b.data_partition_present,
        a.data_mountpoint_present == b.data_mountpoint_present,
        a.overlay_data_mountpoint_present == b.overlay_data_mountpoint_present,
        a.ota_pending_present == b.ota_pending_present,
        views(a.self_check_repairs@) == views(b.self_check_repairs@),
        views(a.self_check_failures@) == views(b.self_check_failures@),
    ensures
        health_issues(a, ota) == health_issues(b, ota),
{
}

/// The storage health of the running system, from what was read off it.
pub fn probe_storage_health(reads: &StorageSystemReads) -> (r: StorageHealthSnapshot)
    requires
        reads_ok(*reads),
    ensures
        opt_view(r.root_fs_type) == fs_type_at(mount_table(*reads), "/"@),
        opt_view(r.data_fs_type) == fs_type_at(mount_table(*reads), "/var/lib/helios"@),
        opt_view(r.overlay_data_fs_type) == fs_type_at(mount_table(*reads), "/.overlay-data"@),
        forall|s: StorageProbeSnapshot| #[trigger] captures(*reads, s)
            ==> issue_views(r.issues@) == health_issues(s, reads.ota),
{
    let snapshot = capture_storage_probe(reads);
    let r = evaluate_storage_health(&snapshot, &reads.ota);
    assert forall|s: StorageProbeSnapshot| #[trigger] captures(*reads, s)
        implies issue_views(r.issues@) == health_issues(s, reads.ota) by {
        lemma_health_issues_depend_on_views(snapshot, s, reads.ota);
    }
    r
}

// ---------------------------------------------------------------------------
// Small facts read off block devices and boot markers.

/// A block device's size from `/sys/class/block/<dev>/size` (sectors) and
/// `queue/logical_block_size` (bytes per sector, 512 when unreadable):
/// none when the sector count does not read as a number; the product
/// saturates.
pub open spec fn block_size_from(size: Option<Seq<char>>, logical: Option<Seq<char>>) -> Option<u64> {
    match size {
        None => None,
        Some(s) => match crate::text::parse_u64_spec(crate::text::trim(s)) {
            None => None,
            Some(sectors) => {
                let per = match logical {
                    Some(l) => match crate::text::parse_u64_spec(crate::text::trim(l)) {
                        Some(v) => v,
                        None => 512,
                    },
                    None => 512,
                };
                Some(if sectors * per > u64::MAX {
                    u64::MAX
                } else {
                    (sectors * per) as u64
                })
            },
        },
    }
}

pub fn block_size_bytes(size: Option<&str>, logical: Option<&str>) -> (r: Option<u64>)
    ensures
        r == block_size_from(
            match size {
                Some(s) => Some(s@),
                None => None,
            },
            match logical {
                Some(l) => Some(l@),
                None => None,
            },
        ),
{
    let sectors = match size {
        None => return None,
        Some(s) => match crate::text::parse_u64(crate::text::trim_str(s)) {
            None => return None,
            Some(v) => v,
        },
    };
    let per = match logical {
        Some(l) => match crate::text::parse_u64(crate::text::trim_str(l)) {
            Some(v) => v,
            None => 512,
        },
        None => 512,
    };
    match sectors.checked_mul(per) {
        Some(v) => Some(v),
        None => Some(u64::MAX),
    }
}

/// The two bytes at offset 1080 of an ext4 file system.
pub fn has_ext4_magic(bytes: [u8; 2]) -> (r: bool)
    ensures
        r == (bytes@[0] == 0x53 && bytes@[1] == 0xEF),
{
    bytes[0] == 0x53 && bytes[1] == 0xEF
}

/// The first boot OTA marker that reads as non-blank text, trimmed; the
/// candidates are tried in order (unreadable ones are `None`).
pub open spec fn first_marker(reads: Seq<Option<String>>) -> Option<Seq<char>>
    decreases reads.len(),
{
    if reads.len() == 0 {
        None
    } else {
        match reads[0] {
            Some(t) => if crate::text::trim(t@).len() > 0 {
                Some(crate::text::trim(t@))
            } else {
                first_marker(reads.drop_first())
            },
            None => first_marker(reads.drop_first()),
        }
    }
}

pub fn boot_ota_marker(reads: &Vec<Option<String>>) -> (r: Option<String>)
    ensures
        opt_view(r) == first_marker(reads@),
{
    let mut i: usize = 0;
    assert(reads@.subrange(0, reads@.len() as int) =~= reads@);
    while i < reads.len()
        invariant
            i <= reads@.len(),
            first_marker(reads@) == first_marker(reads@.subrange(i as int, reads@.len() as int)),
        decreases reads@.len() - i,
    {
        let ghost rest = reads@.subrange(i as int, reads@.len() as int);
        assert(rest.drop_first() =~= reads@.subrange(i + 1, reads@.len() as int));
        assert(rest[0] == reads@[i as int]);
        if let Some(t) = &reads[i] {
            let trimmed = crate::text::trim_str(t.as_str());
            if trimmed.unicode_len() > 0 {
                return Some(crate::text::owned(trimmed));
            }
        }
        i = i + 1;
    }
    None
}

} // verus!
