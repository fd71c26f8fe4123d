//! Storage health evaluation: from what a probe of the mounts, the
//! self-check report and the OTA slots found, to the list of issues that
//! the API reports.
use vstd::prelude::*;
use crate::text::{decimal, owned, push_decimal, seq_eq, views};

verus! {

/// One reported problem: a stable machine code and a human description.
#[derive(Debug, Clone, PartialEq, Eq)]
pub struct StorageHealthIssue {
    pub code: &'static str,
    pub description: String,
}

/// The view of an issue: its code and its description.
pub type IssueView = (Seq<char>, Seq<char>);

impl View for StorageHealthIssue {
    type V = IssueView;

    open spec fn view(&self) -> IssueView {
        (self.code@, self.description@)
    }
}

/// What the API reports about storage.
#[derive(Debug, Clone, Default, PartialEq, Eq)]
pub struct StorageHealthSnapshot {
    pub root_fs_type: Option<String>,
    pub data_fs_type: Option<String>,
    pub overlay_data_fs_type: Option<String>,
    pub issues: Vec<StorageHealthIssue>,
}

/// What a probe of the running system found.
#[derive(Debug, Clone, Default, PartialEq, Eq)]
pub struct StorageProbeSnapshot {
    pub root_fs_type: Option<String>,
    pub data_fs_type: Option<String>,
    pub overlay_data_fs_type: Option<String>,
    pub data_partition_present: bool,
    pub data_mountpoint_present: bool,
    pub overlay_data_mountpoint_present: bool,
    pub ota_pending_present: bool,
    pub self_check_repairs: Vec<String>,
    pub self_check_failures: Vec<String>,
}

/// The layout of a squashfs A/B image, as derived from the DATA device and
/// probed on disk.
#[derive(Debug, Clone, Default, PartialEq, Eq)]
pub struct OtaLayoutProbe {
    pub slot_a_partition: String,
    pub slot_b_partition: String,
    pub data_partition: String,
    pub data_device: String,
    pub data_matches_expected: bool,
    pub slot_b_exists: bool,
    pub slot_b_has_ext4_signature: bool,
    pub active_marker: Option<String>,
    pub reserve_marker: Option<String>,
    pub slot_a_bytes: Option<u64>,
    pub slot_b_bytes: Option<u64>,
}

/// What the OTA checks read from the system.
#[derive(Debug, Clone, Default, PartialEq, Eq)]
pub struct OtaProbe {
    pub active_label_present: bool,
    pub reserve_label_present: bool,
    pub layout: Option<OtaLayoutProbe>,
}

pub open spec fn issue_views(v: Seq<StorageHealthIssue>) -> Seq<IssueView> {
    v.map_values(|i: StorageHealthIssue| i@)
}

pub open spec fn opt_is(o: Option<String>, lit: Seq<char>) -> bool {
    o is Some && o->0@ == lit
}

/// A self-check repair that is routine and not worth reporting.
pub open spec fn benign_repair(code: Seq<char>) -> bool {
    code == "helios_state_dirs_created"@
}

pub fn is_benign_self_repair(code: &str) -> (r: bool)
    ensures
        r == benign_repair(code@),
{
    seq_eq(code, "helios_state_dirs_created")
}

/// The human phrase for a self-check code; unknown codes stand for themselves.
pub open spec fn code_label(code: Seq<char>) -> Seq<char> {
    if code == "data_partition_mounted"@ {
        "mounted the DATA partition"@
    } else if code == "overlay_data_bound"@ {
        "restored the /.overlay-data bind mount"@
    } else if code == "helios_state_dirs_created"@ {
        "created missing HeliOS state directories"@
    } else if code == "data_partition_mount_failed"@ {
        "mounting the DATA partition failed"@
    } else if code == "overlay_data_bind_failed"@ {
        "restoring the /.overlay-data bind mount failed"@
    } else if code == "helios_state_dirs_failed"@ {
        "creating required HeliOS state directories failed"@
    } else if code == "helios_api_missing"@ {
        "required binary /usr/bin/helios-api is missing"@
    } else if code == "helios_api_tools_missing"@ {
        "required helper binary /usr/bin/helios-api-tools is missing"@
    } else if code == "helios_engine_missing"@ {
        "required binary /usr/bin/helios-engine is missing"@
    } else if code == "helios_peripherals_missing"@ {
        "required binary /usr/bin/helios-peripherals is missing"@
    } else if code == "helios_updater_missing"@ {
        "required binary /usr/bin/helios-updater is missing"@
    } else {
        code
    }
}

/// The labels of `codes`, joined by ", ".
pub open spec fn describe_codes(codes: Seq<Seq<char>>) -> Seq<char>
    decreases codes.len(),
{
    if codes.len() == 0 {
        Seq::empty()
    } else if codes.len() == 1 {
        code_label(codes[0])
    } else {
        describe_codes(codes.drop_last()) + ", "@ + code_label(codes.last())
    }
}

fn code_label_exec(code: &str) -> (r: Option<&'static str>)
    ensures
        r matches Some(l) ==> l@ == code_label(code@),
        r is None ==> code_label(code@) == code@,
{
    if seq_eq(code, "data_partition_mounted") {
        Some("mounted the DATA partition")
    } else if seq_eq(code, "overlay_data_bound") {
        Some("restored the /.overlay-data bind mount")
    } else if seq_eq(code, "helios_state_dirs_created") {
        Some("created missing HeliOS state directories")
    } else if seq_eq(code, "data_partition_mount_failed") {
        Some("mounting the DATA partition failed")
    } else if seq_eq(code, "overlay_data_bind_failed") {
        Some("restoring the /.overlay-data bind mount failed")
    } else if seq_eq(code, "helios_state_dirs_failed") {
        Some("creating required HeliOS state directories failed")
    } else if seq_eq(code, "helios_api_missing") {
        Some("required binary /usr/bin/helios-api is missing")
    } else if seq_eq(code, "helios_api_tools_missing") {
        Some("required helper binary /usr/bin/helios-api-tools is missing")
    } else if seq_eq(code, "helios_engine_missing") {
        Some("required binary /usr/bin/helios-engine is missing")
    } else if seq_eq(code, "helios_peripherals_missing") {
        Some("required binary /usr/bin/helios-peripherals is missing")
    } else if seq_eq(code, "helios_updater_missing") {
        Some("required binary /usr/bin/helios-updater is missing")
    } else {
        None
    }
}

fn append_label(out: &mut String, code: &str)
    ensures
        final(out)@ == old(out)@ + code_label(code@),
{
    match code_label_exec(code) {
        Some(known) => out.append(known),
        None => out.append(code),
    }
}

/// Describes self-check codes in words, joined by ", ".
pub fn describe_self_check_codes(codes: &[String]) -> (r: String)
    ensures
        r@ == describe_codes(views(codes@)),
{
    let mut out = String::new();
    let n = codes.len();
    let mut i: usize = 0;
    while i < n
        invariant
            n == codes@.len(),
            i <= n,
            out@ == describe_codes(views(codes@.subrange(0, i as int))),
        decreases n - i,
    {
        let ghost prev = views(codes@.subrange(0, i as int));
        let ghost next = views(codes@.subrange(0, i + 1));
        assert(next.drop_last() =~= prev);
        if i > 0 {
            out.append(", ");
        } else {
            assert(prev.len() == 0);
        }
        append_label(&mut out, codes[i].as_str());
        proof {
            if i > 0 {
                assert(out@ =~= describe_codes(prev) + ", "@ + code_label(next.last()));
            } else {
                assert(out@ =~= code_label(next[0]));
            }
        }
        i = i + 1;
    }
    assert(codes@.subrange(0, n as int) =~= codes@);
    out
}

/// The repairs worth reporting, in order.
pub open spec fn visible_repairs(codes: Seq<Seq<char>>) -> Seq<Seq<char>>
    decreases codes.len(),
{
    if codes.len() == 0 {
        Seq::empty()
    } else if benign_repair(codes.last()) {
        visible_repairs(codes.drop_last())
    } else {
        visible_repairs(codes.drop_last()).push(codes.last())
    }
}

fn filter_visible_repairs(codes: &Vec<String>) -> (r: Vec<String>)
    ensures
        views(r@) == visible_repairs(views(codes@)),
{
    let mut out: Vec<String> = Vec::new();
    let n = codes.len();
    let mut i: usize = 0;
    while i < n
        invariant
            n == codes@.len(),
            i <= n,
            views(out@) == visible_repairs(views(codes@.subrange(0, i as int))),
        decreases n - i,
    {
        let ghost prev = views(codes@.subrange(0, i as int));
        let ghost next = views(codes@.subrange(0, i + 1));
        assert(next.drop_last() =~= prev);
        if !is_benign_self_repair(codes[i].as_str()) {
            out.push(codes[i].clone());
            assert(views(out@) =~= visible_repairs(prev).push(next.last()));
        }
        i = i + 1;
    }
    assert(codes@.subrange(0, n as int) =~= codes@);
    out
}

/// A segment of issues that is present only when `cond` holds.
pub open spec fn when(cond: bool, issue: IssueView) -> Seq<IssueView> {
    if cond {
        seq![issue]
    } else {
        Seq::empty()
    }
}

pub open spec fn overlay_issues(s: StorageProbeSnapshot) -> Seq<IssueView> {
    if opt_is(s.root_fs_type, "overlay"@) {
        if !s.overlay_data_mountpoint_present {
            seq![
                ("overlay_storage_missing"@,
                "Overlay root is active but the writable backing store at /.overlay-data is not mounted."@),
            ]
        } else {
            when(
                opt_is(s.overlay_data_fs_type, "tmpfs"@),
                ("overlay_tmpfs_fallback"@,
                "Writable overlay is backed by tmpfs; OS changes and diagnostics will be lost on reboot."@),
            )
        }
    } else {
        Seq::empty()
    }
}

pub open spec fn data_issues(s: StorageProbeSnapshot) -> Seq<IssueView> {
    if s.data_mountpoint_present {
        when(
            opt_is(s.data_fs_type, "tmpfs"@),
            ("data_partition_ephemeral"@,
            "Persistent state path /var/lib/helios is on tmpfs; recordings, settings, and logs are ephemeral."@),
        )
    } else if s.data_partition_present {
        seq![
            ("data_partition_unmounted"@,
            "DATA partition exists but is not mounted at /var/lib/helios."@),
        ]
    } else {
        when(
            opt_is(s.root_fs_type, "overlay"@) || opt_is(s.root_fs_type, "squashfs"@),
            ("data_partition_missing"@,
            "DATA partition is missing; persistent state is unavailable on this boot."@),
        )
    }
}

pub open spec fn squashfs_issues(s: StorageProbeSnapshot) -> Seq<IssueView> {
    when(
        opt_is(s.root_fs_type, "squashfs"@),
        ("root_overlay_missing"@,
        "Root filesystem is mounted directly as squashfs without a writable overlay."@),
    )
}

pub open spec fn failure_issues(s: StorageProbeSnapshot) -> Seq<IssueView> {
    when(
        s.self_check_failures@.len() > 0,
        ("self_repair_failed"@,
        "Automatic OS self-check could not complete all safe repairs: "@ + describe_codes(
            views(s.self_check_failures@),
        ) + "."@),
    )
}

pub open spec fn pending_issues(s: StorageProbeSnapshot) -> Seq<IssueView> {
    when(
        s.ota_pending_present,
        ("ota_pending_confirmation"@,
        "An OTA update is still pending confirmation on this boot; rollback may occur if confirmation does not complete."@),
    )
}

pub open spec fn repair_issues(s: StorageProbeSnapshot) -> Seq<IssueView> {
    let visible = visible_repairs(views(s.self_check_repairs@));
    when(
        visible.len() > 0,
        ("self_repair_applied"@,
        "Automatic OS self-check repaired this boot: "@ + describe_codes(visible) + "."@),
    )
}

/// Every issue that a probe gives rise to, in the order they are reported.
pub open spec fn health_issues(s: StorageProbeSnapshot, ota: OtaProbe) -> Seq<IssueView> {
    overlay_issues(s) + data_issues(s) + squashfs_issues(s) + ota_issues(s.root_fs_type, ota)
        + failure_issues(s) + pending_issues(s) + repair_issues(s)
}

fn opt_eq(o: &Option<String>, lit: &str) -> (r: bool)
    ensures
        r == (o is Some && o->0@ == lit@),
{
    match o {
        Some(s) => seq_eq(s.as_str(), lit),
        None => false,
    }
}

fn new_issue(code: &'static str, description: &str) -> (r: StorageHealthIssue)
    ensures
        r@ == (code@, description@),
{
    StorageHealthIssue { code, description: owned(description) }
}

fn push_issue(issues: &mut Vec<StorageHealthIssue>, issue: StorageHealthIssue)
    ensures
        issue_views(final(issues)@) == issue_views(old(issues)@).push(issue@),
{
    issues.push(issue);
    assert(issue_views(issues@) =~= issue_views(old(issues)@).push(issue@));
}

fn push_overlay_issues(issues: &mut Vec<StorageHealthIssue>, snapshot: &StorageProbeSnapshot)
    ensures
        issue_views(final(issues)@) == issue_views(old(issues)@) + overlay_issues(*snapshot),
{
    if opt_eq(&snapshot.root_fs_type, "overlay") {
        if !snapshot.overlay_data_mountpoint_present {
            push_issue(issues, new_issue("overlay_storage_missing", "Overlay root is active but the writable backing store at /.overlay-data is not mounted."));
        } else if opt_eq(&snapshot.overlay_data_fs_type, "tmpfs") {
            push_issue(issues, new_issue("overlay_tmpfs_fallback", "Writable overlay is backed by tmpfs; OS changes and diagnostics will be lost on reboot."));
        }
    }
    assert(issue_views(issues@) =~= issue_views(old(issues)@) + overlay_issues(*snapshot));
}

fn push_data_issues(issues: &mut Vec<StorageHealthIssue>, snapshot: &StorageProbeSnapshot)
    ensures
        issue_views(final(issues)@) == issue_views(old(issues)@) + data_issues(*snapshot),
{
    if snapshot.data_mountpoint_present {
        if opt_eq(&snapshot.data_fs_type, "tmpfs") {
            push_issue(issues, new_issue("data_partition_ephemeral", "Persistent state path /var/lib/helios is on tmpfs; recordings, settings, and logs are ephemeral."));
        }
    } else if snapshot.data_partition_present {
        push_issue(issues, new_issue("data_partition_unmounted", "DATA partition exists but is not mounted at /var/lib/helios."));
    } else if opt_eq(&snapshot.root_fs_type, "overlay") || opt_eq(&snapshot.root_fs_type, "squashfs") {
        push_issue(issues, new_issue("data_partition_missing", "DATA partition is missing; persistent state is unavailable on this boot."));
    }
    assert(issue_views(issues@) =~= issue_views(old(issues)@) + data_issues(*snapshot));
}

fn push_squashfs_issues(issues: &mut Vec<StorageHealthIssue>, snapshot: &StorageProbeSnapshot)
    ensures
        issue_views(final(issues)@) == issue_views(old(issues)@) + squashfs_issues(*snapshot),
{
    if opt_eq(&snapshot.root_fs_type, "squashfs") {
        push_issue(issues, new_issue("root_overlay_missing", "Root filesystem is mounted directly as squashfs without a writable overlay."));
    }
    assert(issue_views(issues@) =~= issue_views(old(issues)@) + squashfs_issues(*snapshot));
}

fn push_ota_issues(issues: &mut Vec<StorageHealthIssue>, snapshot: &StorageProbeSnapshot, ota: &OtaProbe)
    ensures
        issue_views(final(issues)@) == issue_views(old(issues)@) + ota_issues(snapshot.root_fs_type, *ota),
{
    let mut found = evaluate_ota_health(&snapshot.root_fs_type, ota);
    let ghost found_view = found@;
    issues.append(&mut found);
    assert(issue_views(issues@) =~= issue_views(old(issues)@) + issue_views(found_view));
}

fn push_failure_issues(issues: &mut Vec<StorageHealthIssue>, snapshot: &StorageProbeSnapshot)
    ensures
        issue_views(final(issues)@) == issue_views(old(issues)@) + failure_issues(*snapshot),
{
    if snapshot.self_check_failures.len() > 0 {
        let mut description = owned("Automatic OS self-check could not complete all safe repairs: ");
        let described = describe_self_check_codes(snapshot.self_check_failures.as_slice());
        description.append(described.as_str());
        description.append(".");
        push_issue(issues, StorageHealthIssue { code: "self_repair_failed", description });
    }
    assert(issue_views(issues@) =~= issue_views(old(issues)@) + failure_issues(*snapshot));
}

fn push_pending_issues(issues: &mut Vec<StorageHealthIssue>, snapshot: &StorageProbeSnapshot)
    ensures
        issue_views(final(issues)@) == issue_views(old(issues)@) + pending_issues(*snapshot),
{
    if snapshot.ota_pending_present {
        push_issue(issues, new_issue("ota_pending_confirmation", "An OTA update is still pending confirmation on this boot; rollback may occur if confirmation does not complete."));
    }
    assert(issue_views(issues@) =~= issue_views(old(issues)@) + pending_issues(*snapshot));
}

fn push_repair_issues(issues: &mut Vec<StorageHealthIssue>, snapshot: &StorageProbeSnapshot)
    ensures
        issue_views(final(issues)@) == issue_views(old(issues)@) + repair_issues(*snapshot),
{
    let visible = filter_visible_repairs(&snapshot.self_check_repairs);
    if visible.len() > 0 {
        let mut description = owned("Automatic OS self-check repaired this boot: ");
        let described = describe_self_check_codes(visible.as_slice());
        description.append(described.as_str());
        description.append(".");
        push_issue(issues, StorageHealthIssue { code: "self_repair_applied", description });
    }
    assert(issue_views(issues@) =~= issue_views(old(issues)@) + repair_issues(*snapshot));
}

fn clone_opt(o: &Option<String>) -> (r: Option<String>)
    ensures
        r == *o,
{
    match o {
        Some(s) => Some(s.clone()),
        None => None,
    }
}

/// Turns a probe of the system into the storage health the API reports.
pub fn evaluate_storage_health(snapshot: &StorageProbeSnapshot, ota: &OtaProbe) -> (r: StorageHealthSnapshot)
    ensures
        issue_views(r.issues@) == health_issues(*snapshot, *ota),
        r.root_fs_type == snapshot.root_fs_type,
        r.data_fs_type == snapshot.data_fs_type,
        r.overlay_data_fs_type == snapshot.overlay_data_fs_type,
{
    let mut issues: Vec<StorageHealthIssue> = Vec::new();
    push_overlay_issues(&mut issues, snapshot);
    push_data_issues(&mut issues, snapshot);
    push_squashfs_issues(&mut issues, snapshot);
    push_ota_issues(&mut issues, snapshot, ota);
    push_failure_issues(&mut issues, snapshot);
    push_pending_issues(&mut issues, snapshot);
    push_repair_issues(&mut issues, snapshot);
    assert(issue_views(issues@) =~= health_issues(*snapshot, *ota));
    StorageHealthSnapshot {
        root_fs_type: clone_opt(&snapshot.root_fs_type),
        data_fs_type: clone_opt(&snapshot.data_fs_type),
        overlay_data_fs_type: clone_opt(&snapshot.overlay_data_fs_type),
        issues,
    }
}

/// Which slot a boot marker names, if it names one.
pub open spec fn marker_is_slot(m: Option<String>) -> bool {
    opt_is(m, "ROOT_A"@) || opt_is(m, "ROOT_B"@)
}

/// The size of the slot that a marker names, when it names one.
pub open spec fn slot_size(layout: OtaLayoutProbe, slot: Seq<char>) -> Option<u64> {
    if slot == "ROOT_A"@ {
        layout.slot_a_bytes
    } else if slot == "ROOT_B"@ {
        layout.slot_b_bytes
    } else {
        None
    }
}

pub fn slot_size_for_marker(layout: &OtaLayoutProbe, slot: &str) -> (r: Option<u64>)
    ensures
        r == slot_size(*layout, slot@),
{
    if seq_eq(slot, "ROOT_A") {
        layout.slot_a_bytes
    } else if seq_eq(slot, "ROOT_B") {
        layout.slot_b_bytes
    } else {
        None
    }
}

/// Mebibytes, rounded down.
pub open spec fn mib(bytes: u64) -> nat {
    (bytes / 1048576u64) as nat
}

/// The description of a reserve slot that is too small.
pub open spec fn too_small_description(reserve: Seq<char>, active: Seq<char>, reserve_bytes: u64, active_bytes: u64) -> Seq<char> {
    "Inactive squashfs slot "@ + reserve + " is smaller than the active slot "@ + active + " ("@
        + decimal(mib(reserve_bytes)) + " MiB vs "@ + decimal(mib(active_bytes))
        + " MiB) and may not fit the next OTA."@
}

pub open spec fn size_issues(l: OtaLayoutProbe) -> Seq<IssueView> {
    if l.active_marker is Some && l.reserve_marker is Some {
        let active = l.active_marker->0@;
        let reserve = l.reserve_marker->0@;
        let a = slot_size(l, active);
        let b = slot_size(l, reserve);
        if a is Some && b is Some && b->0 < a->0 {
            seq![
                ("ota_inactive_slot_too_small"@,
                too_small_description(reserve, active, b->0, a->0)),
            ]
        } else {
            Seq::empty()
        }
    } else {
        Seq::empty()
    }
}

pub open spec fn mismatch_description(l: OtaLayoutProbe) -> Seq<char> {
    "DATA is mounted from "@ + l.data_device@ + " but squashfs OTA expects "@ + l.data_partition@
        + " so the inactive root slot cannot be identified safely."@
}

/// The OTA issues for a root filesystem type and what the OTA probe found.
pub open spec fn ota_issues(root: Option<String>, ota: OtaProbe) -> Seq<IssueView> {
    if ota.active_label_present && ota.reserve_label_present {
        Seq::empty()
    } else if !(opt_is(root, "overlay"@) || opt_is(root, "squashfs"@)) {
        Seq::empty()
    } else if ota.layout is None {
        seq![
            ("ota_layout_unsupported"@,
            "This squashfs image does not expose a dedicated inactive root slot and DATA partition layout, so normal OTA updates are unavailable."@),
        ]
    } else {
        let l = ota.layout->0;
        if !l.data_matches_expected {
            seq![("ota_layout_unsupported"@, mismatch_description(l))]
        } else if !l.slot_b_exists {
            seq![
                ("ota_inactive_slot_missing"@,
                "Inactive squashfs root slot ROOT_B is missing; OTA cannot stage a second root image."@),
            ]
        } else {
            when(
                l.slot_b_has_ext4_signature,
                ("ota_inactive_slot_unprepared"@,
                "Inactive squashfs root slot still contains an ext4 filesystem signature from an older layout and was not prepared as a raw reserve slot."@),
            ) + when(
                !(marker_is_slot(l.active_marker) && marker_is_slot(l.reserve_marker)),
                ("ota_boot_metadata_missing"@,
                "BOOT is missing squashfs OTA slot metadata; the updater cannot prove which slot is active versus inactive."@),
            ) + size_issues(l)
        }
    }
}

/// The OTA readiness issues for an A/B squashfs image.
pub fn evaluate_ota_health(root_fs: &Option<String>, ota: &OtaProbe) -> (r: Vec<StorageHealthIssue>)
    ensures
        issue_views(r@) == ota_issues(*root_fs, *ota),
{
    let mut issues: Vec<StorageHealthIssue> = Vec::new();
    if ota.active_label_present && ota.reserve_label_present {
        assert(issue_views(issues@) =~= ota_issues(*root_fs, *ota));
        return issues;
    }
    if !(opt_eq(root_fs, "overlay") || opt_eq(root_fs, "squashfs")) {
        assert(issue_views(issues@) =~= ota_issues(*root_fs, *ota));
        return issues;
    }
    let layout = match &ota.layout {
        Some(layout) => layout,
        None => {
            push_issue(&mut issues, new_issue("ota_layout_unsupported", "This squashfs image does not expose a dedicated inactive root slot and DATA partition layout, so normal OTA updates are unavailable."));
            assert(issue_views(issues@) =~= ota_issues(*root_fs, *ota));
            return issues;
        },
    };
    if !layout.data_matches_expected {
        let mut description = owned("DATA is mounted from ");
        description.append(layout.data_device.as_str());
        description.append(" but squashfs OTA expects ");
        description.append(layout.data_partition.as_str());
        description.append(" so the inactive root slot cannot be identified safely.");
        push_issue(&mut issues, StorageHealthIssue { code: "ota_layout_unsupported", description });
        assert(issue_views(issues@) =~= ota_issues(*root_fs, *ota));
        return issues;
    }
    if !layout.slot_b_exists {
        push_issue(&mut issues, new_issue("ota_inactive_slot_missing", "Inactive squashfs root slot ROOT_B is missing; OTA cannot stage a second root image."));
        assert(issue_views(issues@) =~= ota_issues(*root_fs, *ota));
        return issues;
    }
    let ghost l = *layout;
    if layout.slot_b_has_ext4_signature {
        push_issue(&mut issues, new_issue("ota_inactive_slot_unprepared", "Inactive squashfs root slot still contains an ext4 filesystem signature from an older layout and was not prepared as a raw reserve slot."));
    }
    let ghost first = issue_views(issues@);
    let active_ok = opt_eq(&layout.active_marker, "ROOT_A") || opt_eq(&layout.active_marker, "ROOT_B");
    let reserve_ok = opt_eq(&layout.reserve_marker, "ROOT_A") || opt_eq(&layout.reserve_marker, "ROOT_B");
    if !active_ok || !reserve_ok {
        push_issue(&mut issues, new_issue("ota_boot_metadata_missing", "BOOT is missing squashfs OTA slot metadata; the updater cannot prove which slot is active versus inactive."));
    }
    let ghost second = issue_views(issues@);
    if let (Some(active_slot), Some(reserve_slot)) = (&layout.active_marker, &layout.reserve_marker) {
        let active_bytes = slot_size_for_marker(layout, active_slot.as_str());
        let reserve_bytes = slot_size_for_marker(layout, reserve_slot.as_str());
        if let (Some(a), Some(b)) = (active_bytes, reserve_bytes) {
            if b < a {
                let mut description = owned("Inactive squashfs slot ");
                description.append(reserve_slot.as_str());
                description.append(" is smaller than the active slot ");
                description.append(active_slot.as_str());
                description.append(" (");
                push_decimal(&mut description, b / (1024 * 1024));
                description.append(" MiB vs ");
                push_decimal(&mut description, a / (1024 * 1024));
                description.append(" MiB) and may not fit the next OTA.");
                assert(description@ =~= too_small_description(reserve_slot@, active_slot@, b, a));
                push_issue(&mut issues, StorageHealthIssue { code: "ota_inactive_slot_too_small", description });
            }
        }
    }
    assert(issue_views(issues@) =~= second + size_issues(l));
    assert(issue_views(issues@) =~= ota_issues(*root_fs, *ota));
    issues
}

// ---------------------------------------------------------------------------
// What the OTA checks promise.

/// Some issue in `s` carries `code`.
pub open spec fn has_code(s: Seq<IssueView>, code: Seq<char>) -> bool {
    exists|i: int| 0 <= i < s.len() && (#[trigger] s[i]).0 == code
}

proof fn lemma_has_code_concat(a: Seq<IssueView>, b: Seq<IssueView>, code: Seq<char>)
    ensures
        has_code(a + b, code) <==> (has_code(a, code) || has_code(b, code)),
{
    let s = a + b;
    if has_code(s, code) {
        let i = choose|i: int| 0 <= i < s.len() && (#[trigger] s[i]).0 == code;
        if i < a.len() {
            assert(a[i] == s[i]);
        } else {
            assert(b[i - a.len()] == s[i]);
        }
    }
    if has_code(a, code) {
        let i = choose|i: int| 0 <= i < a.len() && (#[trigger] a[i]).0 == code;
        assert(s[i] == a[i]);
    }
    if has_code(b, code) {
        let i = choose|i: int| 0 <= i < b.len() && (#[trigger] b[i]).0 == code;
        assert(s[a.len() + i] == b[i]);
    }
}

proof fn lemma_has_code_one(x: IssueView, code: Seq<char>)
    ensures
        has_code(seq![x], code) <==> x.0 == code,
{
    if x.0 == code {
        assert(seq![x][0] == x);
    }
}

/// The sizes the reserve-slot check compares, `(active, reserve)` in bytes:
/// known when the OTA checks get that far (the two root labels are not both
/// present, the root is an overlay or squashfs, the layout is known, DATA is
/// where it should be, slot B exists) and both slot markers name slots whose
/// sizes were read.
pub open spec fn compared_slot_sizes(root: Option<String>, ota: OtaProbe) -> Option<(u64, u64)> {
    if ota.active_label_present && ota.reserve_label_present {
        None
    } else if !(opt_is(root, "overlay"@) || opt_is(root, "squashfs"@)) {
        None
    } else {
        match ota.layout {
            None => None,
            Some(l) => if !l.data_matches_expected || !l.slot_b_exists {
                None
            } else {
                match (l.active_marker, l.reserve_marker) {
                    (Some(active), Some(reserve)) => match (slot_size(l, active@), slot_size(l, reserve@)) {
                        (Some(a), Some(b)) => Some((a, b)),
                        _ => None,
                    },
                    _ => None,
                }
            },
        }
    }
}

/// The reserve slot is reported too small exactly when its size is
/// strictly below the active slot's: two slots of the same size are fine.
pub proof fn law_reserve_too_small_only_when_strictly_smaller(root: Option<String>, ota: OtaProbe)
    ensures
        has_code(ota_issues(root, ota), "ota_inactive_slot_too_small"@) <==> (compared_slot_sizes(root, ota) matches Some(
            (a, b),
        ) && b < a),
{
    let code = "ota_inactive_slot_too_small"@;
    reveal_strlit("ota_inactive_slot_too_small");
    reveal_strlit("ota_layout_unsupported");
    reveal_strlit("ota_inactive_slot_missing");
    reveal_strlit("ota_inactive_slot_unprepared");
    reveal_strlit("ota_boot_metadata_missing");
    assert(has_code(Seq::<IssueView>::empty(), code) == false);
    assert(code.len() == 27);
    assert("ota_layout_unsupported"@.len() == 22);
    assert("ota_inactive_slot_missing"@.len() == 25);
    if ota.active_label_present && ota.reserve_label_present {
        assert(ota_issues(root, ota) =~= Seq::<IssueView>::empty());
        assert(has_code(ota_issues(root, ota), code) <==> (compared_slot_sizes(root, ota) matches Some((a, b)) && b < a));
    } else if !(opt_is(root, "overlay"@) || opt_is(root, "squashfs"@)) {
        assert(ota_issues(root, ota) =~= Seq::<IssueView>::empty());
        assert(has_code(ota_issues(root, ota), code) <==> (compared_slot_sizes(root, ota) matches Some((a, b)) && b < a));
    } else if ota.layout is None {
        lemma_has_code_one(ota_issues(root, ota)[0], code);
        assert(ota_issues(root, ota) =~= seq![ota_issues(root, ota)[0]]);
        assert(ota_issues(root, ota)[0].0 == "ota_layout_unsupported"@);
        assert(has_code(ota_issues(root, ota), code) <==> (compared_slot_sizes(root, ota) matches Some((a, b)) && b < a));
    } else {
        let l = ota.layout->0;
        if !l.data_matches_expected {
            lemma_has_code_one(("ota_layout_unsupported"@, mismatch_description(l)), code);
            assert(ota_issues(root, ota) == seq![("ota_layout_unsupported"@, mismatch_description(l))]);
            assert(has_code(ota_issues(root, ota), code) <==> (compared_slot_sizes(root, ota) matches Some((a, b)) && b < a));
        } else if !l.slot_b_exists {
            lemma_has_code_one(ota_issues(root, ota)[0], code);
            assert(ota_issues(root, ota) =~= seq![ota_issues(root, ota)[0]]);
            assert(ota_issues(root, ota)[0].0 == "ota_inactive_slot_missing"@);
        } else {
            let w1 = when(
                l.slot_b_has_ext4_signature,
                ("ota_inactive_slot_unprepared"@,
                "Inactive squashfs root slot still contains an ext4 filesystem signature from an older layout and was not prepared as a raw reserve slot."@),
            );
            let w2 = when(
                !(marker_is_slot(l.active_marker) && marker_is_slot(l.reserve_marker)),
                ("ota_boot_metadata_missing"@,
                "BOOT is missing squashfs OTA slot metadata; the updater cannot prove which slot is active versus inactive."@),
            );
            let s3 = size_issues(l);
            assert(ota_issues(root, ota) == w1 + w2 + s3);
            lemma_has_code_concat(w1 + w2, s3, code);
            lemma_has_code_concat(w1, w2, code);
            assert(code.len() == 27);
            if l.slot_b_has_ext4_signature {
                lemma_has_code_one(w1[0], code);
                assert(w1 =~= seq![w1[0]]);
                assert(w1[0].0.len() == 28);
            } else {
                assert(w1 =~= Seq::<IssueView>::empty());
            }
            if !(marker_is_slot(l.active_marker) && marker_is_slot(l.reserve_marker)) {
                lemma_has_code_one(w2[0], code);
                assert(w2 =~= seq![w2[0]]);
                assert(w2[0].0.len() == 25);
            } else {
                assert(w2 =~= Seq::<IssueView>::empty());
            }
            if s3.len() > 0 {
                lemma_has_code_one(s3[0], code);
                assert(s3 =~= seq![s3[0]]);
                assert(has_code(s3, code));
            } else {
                assert(s3 =~= Seq::<IssueView>::empty());
                assert(!has_code(s3, code));
            }
            assert(has_code(s3, code) <==> (compared_slot_sizes(root, ota) matches Some((a, b)) && b < a));
            assert(!has_code(w1, code));
            assert(!has_code(w2, code));
            assert(has_code(ota_issues(root, ota), code) <==> (compared_slot_sizes(root, ota) matches Some((a, b)) && b < a));
        }
    }
}

/// The layout the slot checks look at: known when the OTA checks get past
/// the layout itself (the two root labels are not both present, the root is
/// an overlay or squashfs, the layout is known, DATA is where it should be
/// and slot B exists).
pub open spec fn checked_slot_layout(root: Option<String>, ota: OtaProbe) -> Option<OtaLayoutProbe> {
    if ota.active_label_present && ota.reserve_label_present {
        None
    } else if !(opt_is(root, "overlay"@) || opt_is(root, "squashfs"@)) {
        None
    } else {
        match ota.layout {
            Some(l) => if l.data_matches_expected && l.slot_b_exists {
                Some(l)
            } else {
                None
            },
            None => None,
        }
    }
}

/// Which codes the checks of a known layout raise.
proof fn lemma_slot_check_codes(root: Option<String>, ota: OtaProbe, code: Seq<char>)
    requires
        checked_slot_layout(root, ota) is Some,
    ensures
        ({
            let l = checked_slot_layout(root, ota)->0;
            has_code(ota_issues(root, ota), code) <==> ((l.slot_b_has_ext4_signature && code
                == "ota_inactive_slot_unprepared"@) || (!(marker_is_slot(l.active_marker) && marker_is_slot(
                l.reserve_marker,
            )) && code == "ota_boot_metadata_missing"@) || (size_issues(l).len() > 0 && code
                == "ota_inactive_slot_too_small"@))
        }),
{
    let l = ota.layout->0;
    let w1 = when(
        l.slot_b_has_ext4_signature,
        ("ota_inactive_slot_unprepared"@,
        "Inactive squashfs root slot still contains an ext4 filesystem signature from an older layout and was not prepared as a raw reserve slot."@),
    );
    let w2 = when(
        !(marker_is_slot(l.active_marker) && marker_is_slot(l.reserve_marker)),
        ("ota_boot_metadata_missing"@,
        "BOOT is missing squashfs OTA slot metadata; the updater cannot prove which slot is active versus inactive."@),
    );
    let s3 = size_issues(l);
    assert(ota_issues(root, ota) == w1 + w2 + s3);
    lemma_has_code_concat(w1 + w2, s3, code);
    lemma_has_code_concat(w1, w2, code);
    if l.slot_b_has_ext4_signature {
        lemma_has_code_one(w1[0], code);
        assert(w1 =~= seq![w1[0]]);
    } else {
        assert(w1 =~= Seq::<IssueView>::empty());
    }
    if !(marker_is_slot(l.active_marker) && marker_is_slot(l.reserve_marker)) {
        lemma_has_code_one(w2[0], code);
        assert(w2 =~= seq![w2[0]]);
    } else {
        assert(w2 =~= Seq::<IssueView>::empty());
    }
    if s3.len() > 0 {
        lemma_has_code_one(s3[0], code);
        assert(s3 =~= seq![s3[0]]);
        assert(s3[0].0 == "ota_inactive_slot_too_small"@);
    } else {
        assert(s3 =~= Seq::<IssueView>::empty());
    }
}

/// The OTA readiness checks: nothing is reported when both root labels are
/// present or the root is neither an overlay nor squashfs; slot B is
/// reported missing exactly when the layout is known, DATA is where it
/// should be and slot B is absent; once the layout checks pass, slot B is
/// reported unprepared exactly when it still carries an ext4 signature, and
/// the boot metadata is reported missing exactly when a slot marker does
/// not name `ROOT_A` or `ROOT_B`.
pub proof fn law_ota_readiness_checks(root: Option<String>, ota: OtaProbe)
    ensures
        (ota.active_label_present && ota.reserve_label_present) || !(opt_is(root, "overlay"@) || opt_is(
            root,
            "squashfs"@,
        )) ==> ota_issues(root, ota).len() == 0,
        has_code(ota_issues(root, ota), "ota_inactive_slot_missing"@) <==> (!(ota.active_label_present
            && ota.reserve_label_present) && (opt_is(root, "overlay"@) || opt_is(root, "squashfs"@)) && (
        ota.layout matches Some(l) && l.data_matches_expected && !l.slot_b_exists)),
        has_code(ota_issues(root, ota), "ota_inactive_slot_unprepared"@) <==> (checked_slot_layout(
            root,
            ota,
        ) matches Some(l) && l.slot_b_has_ext4_signature),
        has_code(ota_issues(root, ota), "ota_boot_metadata_missing"@) <==> (checked_slot_layout(
            root,
            ota,
        ) matches Some(l) && !((opt_is(l.active_marker, "ROOT_A"@) || opt_is(l.active_marker, "ROOT_B"@)) && (
        opt_is(l.reserve_marker, "ROOT_A"@) || opt_is(l.reserve_marker, "ROOT_B"@)))),
{
    reveal_strlit("ota_inactive_slot_too_small");
    reveal_strlit("ota_layout_unsupported");
    reveal_strlit("ota_inactive_slot_missing");
    reveal_strlit("ota_inactive_slot_unprepared");
    reveal_strlit("ota_boot_metadata_missing");
    let missing = "ota_inactive_slot_missing"@;
    let unprepared = "ota_inactive_slot_unprepared"@;
    let meta = "ota_boot_metadata_missing"@;
    let small = "ota_inactive_slot_too_small"@;
    let unsupported = "ota_layout_unsupported"@;
    assert(missing.len() == 25 && meta.len() == 25 && unprepared.len() == 28 && small.len() == 27
        && unsupported.len() == 22);
    assert(missing != meta) by {
        assert(missing[4] != meta[4]);
    }
    if checked_slot_layout(root, ota) is Some {
        lemma_slot_check_codes(root, ota, missing);
        lemma_slot_check_codes(root, ota, unprepared);
        lemma_slot_check_codes(root, ota, meta);
    } else if ota.active_label_present && ota.reserve_label_present {
        assert(ota_issues(root, ota) =~= Seq::<IssueView>::empty());
    } else if !(opt_is(root, "overlay"@) || opt_is(root, "squashfs"@)) {
        assert(ota_issues(root, ota) =~= Seq::<IssueView>::empty());
    } else {
        let x = ota_issues(root, ota)[0];
        assert(ota_issues(root, ota) =~= seq![x]);
        lemma_has_code_one(x, missing);
        lemma_has_code_one(x, unprepared);
        lemma_has_code_one(x, meta);
        if ota.layout is None {
            assert(x.0 == unsupported);
        } else if !ota.layout->0.data_matches_expected {
            assert(x.0 == unsupported);
        } else {
            assert(x.0 == missing);
        }
    }
}

} // verus!
