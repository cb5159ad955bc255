//! Mounted disks: which mounts count as disks, how they are named, and the
//! arithmetic on the figures the filesystem reports.

use vstd::prelude::*;
use crate::text::{
    chars_of, contains_seq_exec, mul_saturating, eq_exec, lines, lines_exec, opt_view, starts_with,
    starts_with_exec, string_of, strip_all_prefix, strip_all_prefix_exec, trim, trim_exec,
    trim_start_char, trim_start_char_exec, views, words, words_exec,
};

verus! {

/// Size and free space of a filesystem, in bytes.
#[derive(Debug, Clone, Copy, PartialEq, Eq, Structural)]
pub struct FsUsage {
    pub total_bytes: u64,
    pub available_bytes: u64,
}

/// Size and free space of a named mount, in bytes.
#[derive(Debug, Clone, PartialEq, Eq)]
pub struct MountUsage {
    pub mount: String,
    pub total_bytes: u64,
    pub available_bytes: u64,
}

/// A mount line that names a disk: its device, mount point and filesystem.
#[derive(Debug, Clone, PartialEq, Eq)]
pub struct DiskCandidate {
    pub device: String,
    pub mount: String,
    pub fs: String,
}

/// File contents as the probes use them: trimmed, and absent when nothing is
/// left.
pub open spec fn cleaned(raw: Seq<char>) -> Option<Seq<char>> {
    if trim(raw).len() == 0 {
        None
    } else {
        Some(trim(raw))
    }
}

/// Trims file contents and drops them when they are blank.
pub fn trimmed_nonempty(raw: &str) -> (r: Option<String>)
    ensures
        opt_view(r) == cleaned(raw@),
{
    let t = trim_exec(&chars_of(raw));
    if t.len() == 0 {
        None
    } else {
        Some(string_of(&t))
    }
}

/// The usage a `statvfs` result describes: block counts times the fragment
/// size, saturating.
pub fn usage_from_blocks(blocks: u64, available_blocks: u64, fragment_size: u64) -> (r: FsUsage)
    ensures
        r.total_bytes == (if blocks * fragment_size > u64::MAX {
            u64::MAX as int
        } else {
            blocks * fragment_size
        }),
        r.available_bytes == (if available_blocks * fragment_size > u64::MAX {
            u64::MAX as int
        } else {
            available_blocks * fragment_size
        }),
{
    FsUsage {
        total_bytes: mul_saturating(blocks, fragment_size),
        available_bytes: mul_saturating(available_blocks, fragment_size),
    }
}

/// Whole days between a creation time and now, both in seconds since the
/// epoch; `None` when the creation time is not positive.
pub fn age_days(created_secs: i64, now_secs: u64) -> (r: Option<u64>)
    ensures
        r == (if created_secs <= 0 {
            None
        } else if now_secs >= created_secs {
            Some(((now_secs - created_secs) / 86400) as u64)
        } else {
            Some(0u64)
        }),
{
    if created_secs <= 0 {
        return None;
    }
    let created = created_secs as u64;
    Some(now_secs.saturating_sub(created) / 86_400)
}

/// Filesystem types that hold user data.
pub open spec fn is_disk_fs_name(fs: Seq<char>) -> bool {
    ||| fs == "btrfs"@
    ||| fs == "ext4"@
    ||| fs == "xfs"@
    ||| fs == "f2fs"@
    ||| fs == "vfat"@
    ||| fs == "exfat"@
}

fn is_disk_fs(fs: &Vec<char>) -> (b: bool)
    ensures
        b == is_disk_fs_name(fs@),
{
    eq_exec(fs, &chars_of("btrfs")) || eq_exec(fs, &chars_of("ext4")) || eq_exec(
        fs,
        &chars_of("xfs"),
    ) || eq_exec(fs, &chars_of("f2fs")) || eq_exec(fs, &chars_of("vfat")) || eq_exec(
        fs,
        &chars_of("exfat"),
    )
}

/// Device, mount point and filesystem of a mount line that names a disk
/// filesystem on a `/dev/` device, other than `/boot`.
pub open spec fn disk_line(l: Seq<char>) -> Option<(Seq<char>, Seq<char>, Seq<char>)> {
    let w = words(l);
    if w.len() >= 3 && is_disk_fs_name(w[2]) && w[1] != "/boot"@ && starts_with(w[0], "/dev/"@) {
        Some((w[0], w[1], w[2]))
    } else {
        None
    }
}

/// The devices of a list of candidates.
pub open spec fn devices(cs: Seq<(Seq<char>, Seq<char>, Seq<char>)>) -> Seq<Seq<char>> {
    cs.map_values(|c: (Seq<char>, Seq<char>, Seq<char>)| c.0)
}

/// The disk candidates of a mounts table: each disk line whose device has
/// not been seen on an earlier disk line.
pub open spec fn disk_candidates(ls: Seq<Seq<char>>) -> Seq<(Seq<char>, Seq<char>, Seq<char>)>
    decreases ls.len(),
{
    if ls.len() == 0 {
        seq![]
    } else {
        let prev = disk_candidates(ls.drop_last());
        match disk_line(ls.last()) {
            Some(c) => if devices(prev).contains(c.0) {
                prev
            } else {
                prev.push(c)
            },
            None => prev,
        }
    }
}

/// The fields of candidates as character sequences.
pub open spec fn candidate_views(v: Seq<DiskCandidate>) -> Seq<(Seq<char>, Seq<char>, Seq<char>)> {
    v.map_values(|c: DiskCandidate| (c.device@, c.mount@, c.fs@))
}

/// The disk candidates in the contents of `/proc/mounts`, one per device, in
/// table order.
pub fn disk_candidates_from(input: &str) -> (r: Vec<DiskCandidate>)
    ensures
        candidate_views(r@) == disk_candidates(lines(input@)),
{
    let ls = lines_exec(&chars_of(input));
    let ghost vl = views(ls@);
    let boot = chars_of("/boot");
    let dev = chars_of("/dev/");
    let mut seen: Vec<Vec<char>> = Vec::new();
    let mut candidates: Vec<DiskCandidate> = Vec::new();
    let mut i: usize = 0;
    while i < ls.len()
        invariant
            i <= ls.len(),
            vl == views(ls@),
            boot@ == "/boot"@,
            dev@ == "/dev/"@,
            candidate_views(candidates@) == disk_candidates(vl.take(i as int)),
            views(seen@) == devices(disk_candidates(vl.take(i as int))),
        decreases ls.len() - i,
    {
        let ghost l = ls@[i as int]@;
        assert(vl.take(i + 1).last() == l);
        assert(vl.take(i + 1).drop_last() =~= vl.take(i as int));
        let w = words_exec(&ls[i]);
        if w.len() >= 3 {
            assert(views(w@)[0] == w@[0]@ && views(w@)[1] == w@[1]@ && views(w@)[2] == w@[2]@);
            if is_disk_fs(&w[2]) && !eq_exec(&w[1], &boot) && starts_with_exec(&w[0], &dev) {
                if !contains_seq_exec(&seen, &w[0]) {
                    let ghost before_c = candidate_views(candidates@);
                    let ghost before_s = views(seen@);
                    seen.push(w[0].clone());
                    candidates.push(
                        DiskCandidate {
                            device: string_of(&w[0]),
                            mount: string_of(&w[1]),
                            fs: string_of(&w[2]),
                        },
                    );
                    assert(candidate_views(candidates@) =~= before_c.push((w@[0]@, w@[1]@, w@[2]@)));
                    assert(views(seen@) =~= before_s.push(w@[0]@));
                    assert(devices(before_c.push((w@[0]@, w@[1]@, w@[2]@))) =~= devices(before_c).push(
                        w@[0]@,
                    ));
                }
            }
        }
        i += 1;
    }
    assert(vl.take(ls.len() as int) =~= vl);
    candidates
}

/// The display name of a mount point.
pub open spec fn pretty_mount_of(m: Seq<char>) -> Seq<char> {
    if m == "/"@ {
        "root"@
    } else if m == "/home"@ {
        "home"@
    } else if m == "/boot"@ {
        "boot"@
    } else {
        trim_start_char(strip_all_prefix(m, "/mnt/"@), '/')
    }
}

/// The display name of a mount point: `root`, `home` and `boot` for the
/// standard ones, otherwise the path without `/mnt/` and leading slashes.
pub fn pretty_mount(mount: &str) -> (r: String)
    ensures
        r@ == pretty_mount_of(mount@),
{
    let m = chars_of(mount);
    if eq_exec(&m, &chars_of("/")) {
        String::from_str("root")
    } else if eq_exec(&m, &chars_of("/home")) {
        String::from_str("home")
    } else if eq_exec(&m, &chars_of("/boot")) {
        String::from_str("boot")
    } else {
        let t = strip_all_prefix_exec(&m, &chars_of("/mnt/"));
        string_of(&trim_start_char_exec(&t, '/'))
    }
}

/// The usages of the candidates whose filesystem answered, each under its
/// display name.
pub open spec fn mount_usages(
    mounts: Seq<Seq<char>>,
    usages: Seq<Option<FsUsage>>,
) -> Seq<(Seq<char>, u64, u64)>
    decreases mounts.len(),
{
    if mounts.len() == 0 || usages.len() == 0 {
        seq![]
    } else {
        let prev = mount_usages(mounts.drop_last(), usages.drop_last());
        match usages.last() {
            Some(u) => prev.push((pretty_mount_of(mounts.last()), u.total_bytes, u.available_bytes)),
            None => prev,
        }
    }
}

/// The fields of mount usages as plain values.
pub open spec fn usage_views(v: Seq<MountUsage>) -> Seq<(Seq<char>, u64, u64)> {
    v.map_values(|u: MountUsage| (u.mount@, u.total_bytes, u.available_bytes))
}

/// The mount points of candidates.
pub open spec fn candidate_mounts(v: Seq<DiskCandidate>) -> Seq<Seq<char>> {
    v.map_values(|c: DiskCandidate| c.mount@)
}

/// Disk usage per candidate mount, given what the filesystem reported for
/// each candidate (`None` where it reported nothing); mounts without a report
/// are left out.
pub fn mounted_disk_usages(candidates: &Vec<DiskCandidate>, usages: &Vec<Option<FsUsage>>) -> (r:
    Vec<MountUsage>)
    requires
        candidates.len() == usages.len(),
    ensures
        usage_views(r@) == mount_usages(candidate_mounts(candidates@), usages@),
{
    let ghost ms = candidate_mounts(candidates@);
    let mut r: Vec<MountUsage> = Vec::new();
    let mut i: usize = 0;
    while i < candidates.len()
        invariant
            i <= candidates.len(),
            candidates.len() == usages.len(),
            ms == candidate_mounts(candidates@),
            usage_views(r@) == mount_usages(ms.take(i as int), usages@.take(i as int)),
        decreases candidates.len() - i,
    {
        assert(ms.take(i + 1).drop_last() =~= ms.take(i as int));
        assert(usages@.take(i + 1).drop_last() =~= usages@.take(i as int));
        assert(ms.take(i + 1).last() == candidates@[i as int].mount@);
        match usages[i] {
            Some(u) => {
                let ghost before = usage_views(r@);
                let name = pretty_mount(candidates[i].mount.as_str());
                r.push(
                    MountUsage {
                        mount: name,
                        total_bytes: u.total_bytes,
                        available_bytes: u.available_bytes,
                    },
                );
                assert(usage_views(r@) =~= before.push(
                    (pretty_mount_of(candidates@[i as int].mount@), u.total_bytes, u.available_bytes),
                ));
            },
            None => {},
        }
        i += 1;
    }
    assert(ms.take(candidates.len() as int) =~= ms);
    assert(usages@.take(candidates.len() as int) =~= usages@);
    r
}

/// Each device gives at most one disk: the candidates' devices are
/// distinct.
pub proof fn lemma_one_candidate_per_device(ls: Seq<Seq<char>>)
    ensures
        forall|i: int, j: int|
            0 <= i < j < disk_candidates(ls).len() ==> disk_candidates(ls)[i].0 != disk_candidates(
                ls,
            )[j].0,
    decreases ls.len(),
{
    if ls.len() > 0 {
        lemma_one_candidate_per_device(ls.drop_last());
        let prev = disk_candidates(ls.drop_last());
        match disk_line(ls.last()) {
            Some(c) => if !devices(prev).contains(c.0) {
                let cs = prev.push(c);
                assert forall|i: int, j: int| 0 <= i < j < cs.len() implies cs[i].0 != cs[j].0 by {
                    if j == prev.len() {
                        assert(devices(prev)[i] == prev[i].0);
                        if prev[i].0 == c.0 {
                            assert(devices(prev).contains(c.0));
                        }
                    }
                }
            },
            None => {},
        }
    }
}

} // verus!
