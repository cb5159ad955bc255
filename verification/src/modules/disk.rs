//! Used and total space of each mounted disk.

use vstd::prelude::*;
use crate::probe::filesystem::{usage_views, MountUsage};
use crate::render::text::{format_bytes, gib_text};
use crate::text::{chars_of, concat, join, join_exec, string_of, views};
use crate::modules::types::Module;
use crate::modules::registry::{key_name, ModuleKey};

verus! {

/// Used and total space of each mounted disk.
pub struct Disk;

impl Module for Disk {
    fn name(&self) -> (r: &'static str)
        ensures
            r@ == key_name(ModuleKey::Disk),
    {
        "disk"
    }

    fn label(&self) -> (r: &'static str)
        ensures
            r@ == "Disk"@,
    {
        "Disk"
    }
}

/// Bytes in use: total minus available, or 0 when more is available than
/// the total.
pub open spec fn used_of(total: u64, available: u64) -> nat {
    if total >= available {
        (total - available) as nat
    } else {
        0
    }
}

/// How a disk is shown: `root  1.0 GiB / 2.0 GiB`.
pub open spec fn disk_text(mount: Seq<char>, total: u64, available: u64) -> Seq<char> {
    mount + "  "@ + gib_text(used_of(total, available), 30) + " / "@ + gib_text(total as nat, 30)
}

/// The disk lines in order.
pub open spec fn disk_texts(us: Seq<(Seq<char>, u64, u64)>) -> Seq<Seq<char>> {
    us.map_values(|u: (Seq<char>, u64, u64)| disk_text(u.0, u.1, u.2))
}

/// The disk value: one line per disk, `unknown` without disks.
pub open spec fn disk_value_of(us: Seq<(Seq<char>, u64, u64)>) -> Seq<char> {
    if us.len() == 0 {
        "unknown"@
    } else {
        join(disk_texts(us), "\n"@)
    }
}

impl Disk {
    /// The disk value for the mounted disks' usage.
    pub fn value(disks: &Vec<MountUsage>) -> (r: String)
        ensures
            r@ == disk_value_of(usage_views(disks@)),
    {
        if disks.len() == 0 {
            return String::from_str("unknown");
        }
        let ghost us = usage_views(disks@);
        let mut lines: Vec<Vec<char>> = Vec::new();
        let mut i: usize = 0;
        while i < disks.len()
            invariant
                i <= disks.len(),
                us == usage_views(disks@),
                views(lines@) == disk_texts(us).take(i as int),
            decreases disks.len() - i,
        {
            let u = &disks[i];
            let used = if u.total_bytes >= u.available_bytes {
                u.total_bytes - u.available_bytes
            } else {
                0
            };
            let mut line = concat(&chars_of(u.mount.as_str()), &chars_of("  "));
            line = concat(&line, &chars_of(format_bytes(used).as_str()));
            line = concat(&line, &chars_of(" / "));
            line = concat(&line, &chars_of(format_bytes(u.total_bytes).as_str()));
            let ghost before = views(lines@);
            lines.push(line);
            assert(views(lines@) =~= before.push(disk_text(u.mount@, u.total_bytes, u.available_bytes)));
            i += 1;
            assert(disk_texts(us).take(i as int) =~= disk_texts(us).take(i - 1).push(
                disk_text(u.mount@, u.total_bytes, u.available_bytes),
            ));
        }
        assert(disk_texts(us).take(disks.len() as int) =~= disk_texts(us));
        string_of(&join_exec(&lines, &chars_of("\n")))
    }
}

} // verus!
