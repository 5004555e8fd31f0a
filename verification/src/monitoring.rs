//! What the system monitor shows: byte counts in words, and the disk that
//! stands for the system.

use vstd::prelude::*;
use crate::cleaning::format::{unit_size, with_unit};
use crate::decimal::{render_two_places, round_div, rounded, two_places};
use crate::text::{chars_of, contains_text, has_part};

verus! {

/// The unit in which the monitor shows `bytes`, from 0 (bytes) to 4
/// (terabytes): nothing is shown in bytes but zero, and a count under one
/// kilobyte is shown in kilobytes.
pub open spec fn monitor_unit_index(bytes: u64) -> nat {
    if bytes == 0 {
        0
    } else if bytes < 1048576 {
        1
    } else if bytes < 1073741824 {
        2
    } else if bytes < 1099511627776 {
        3
    } else {
        4
    }
}

/// The name of the unit `index` on the monitor.
pub open spec fn monitor_unit_name(index: nat) -> Seq<char> {
    if index == 0 {
        "B"@
    } else if index == 1 {
        "KB"@
    } else if index == 2 {
        "MB"@
    } else if index == 3 {
        "GB"@
    } else {
        "TB"@
    }
}

/// A byte count as the monitor shows it: the count in its unit with two
/// places after the point, a space and the unit's name. The last place is
/// rounded to the nearest, a tie to the even digit.
pub open spec fn monitor_bytes(bytes: u64) -> Seq<char> {
    let index = monitor_unit_index(bytes);
    two_places(rounded(bytes as nat * 100, unit_size(index))) + seq![' '] + monitor_unit_name(
        index,
    )
}

/// Renders a byte count for the monitor.
pub fn format_bytes(bytes: u64) -> (text: String)
    ensures
        text@ == monitor_bytes(bytes),
{
    let (unit, name): (u64, &str) = if bytes == 0 {
        (1, "B")
    } else if bytes < 1048576 {
        (1024, "KB")
    } else if bytes < 1073741824 {
        (1048576, "MB")
    } else if bytes < 1099511627776 {
        (1073741824, "GB")
    } else {
        (1099511627776, "TB")
    };
    let hundredths = round_div(bytes as u128 * 100, unit);
    assert(hundredths <= bytes as nat * 100) by (nonlinear_arith)
        requires
            hundredths == rounded(bytes as nat * 100, unit as nat),
            unit >= 1,
    ;
    with_unit(render_two_places(hundredths as u64), name)
}

/// What the system tells about a disk.
#[derive(Debug, Clone)]
pub struct DiskInfo {
    /// Where the disk is mounted.
    pub mount_point: String,
    /// The size of the disk in bytes.
    pub total_space: u64,
    /// The free space on the disk in bytes, at most its size.
    pub available_space: u64,
}

/// How full a disk is, in bytes.
#[derive(Clone, Copy, Debug, PartialEq, Eq, Structural)]
pub struct DiskUsage {
    pub used: u64,
    pub total: u64,
}

/// The free space of every disk is at most its size.
pub open spec fn disks_are_sound(disks: Seq<DiskInfo>) -> bool {
    forall|i: int| 0 <= i < disks.len() ==> (#[trigger] disks[i]).available_space
        <= disks[i].total_space
}

/// How full `disk` is.
pub open spec fn usage_of(disk: DiskInfo) -> DiskUsage {
    DiskUsage {
        used: (disk.total_space - disk.available_space) as u64,
        total: disk.total_space,
    }
}

/// A disk counts as the system's disk if it is mounted at a place with `C:`
/// or `/` in its name and holds more than ten billion bytes.
pub open spec fn is_system_disk(disk: DiskInfo) -> bool {
    (has_part(disk.mount_point@, "C:"@) || has_part(disk.mount_point@, "/"@)) && disk.total_space
        > 10_000_000_000
}

/// The position of the first system disk, or the number of disks where
/// there is none.
pub open spec fn first_system_disk(disks: Seq<DiskInfo>) -> int
    decreases disks.len(),
{
    if disks.len() == 0 || is_system_disk(disks[0]) {
        0
    } else {
        1 + first_system_disk(disks.skip(1))
    }
}

/// The largest disk of under ten trillion bytes, the first of them where
/// several are equally large; zero where there is none.
pub open spec fn largest_disk(disks: Seq<DiskInfo>) -> DiskUsage
    decreases disks.len(),
{
    if disks.len() == 0 {
        DiskUsage { used: 0, total: 0 }
    } else {
        let before = largest_disk(disks.drop_last());
        let disk = disks.last();
        if disk.total_space > before.total && disk.total_space < 10_000_000_000_000 {
            usage_of(disk)
        } else {
            before
        }
    }
}

/// The disk that the monitor shows: the first system disk, or, where there
/// is none, the largest disk.
pub open spec fn main_disk(disks: Seq<DiskInfo>) -> DiskUsage {
    let at = first_system_disk(disks);
    if at < disks.len() {
        usage_of(disks[at])
    } else {
        largest_disk(disks)
    }
}

/// Whether `disk` counts as the system's disk.
pub fn looks_like_system_disk(disk: &DiskInfo) -> (r: bool)
    ensures
        r == is_system_disk(*disk),
{
    if disk.total_space <= 10_000_000_000 {
        return false;
    }
    let mount = chars_of(disk.mount_point.as_str());
    let drive = chars_of("C:");
    let slash = chars_of("/");
    contains_text(&mount, &drive) || contains_text(&mount, &slash)
}

/// The usage of the disk that the monitor shows.
pub fn main_disk_usage(disks: &Vec<DiskInfo>) -> (usage: DiskUsage)
    requires
        disks_are_sound(disks@),
    ensures
        usage == main_disk(disks@),
{
    let mut i: usize = 0;
    proof {
        assert(disks@.skip(0) =~= disks@);
    }
    while i < disks.len()
        invariant
            i <= disks.len(),
            disks_are_sound(disks@),
            first_system_disk(disks@) == i + first_system_disk(disks@.skip(i as int)),
        decreases disks.len() - i,
    {
        proof {
            assert(disks@.skip(i as int)[0] == disks@[i as int]);
            assert(disks@.skip(i as int).skip(1) =~= disks@.skip(i + 1));
        }
        if looks_like_system_disk(&disks[i]) {
            return DiskUsage {
                used: disks[i].total_space - disks[i].available_space,
                total: disks[i].total_space,
            };
        }
        i += 1;
    }
    let mut best = DiskUsage { used: 0, total: 0 };
    let mut j: usize = 0;
    proof {
        assert(disks@.take(0) =~= Seq::<DiskInfo>::empty());
    }
    while j < disks.len()
        invariant
            j <= disks.len(),
            disks_are_sound(disks@),
            best == largest_disk(disks@.take(j as int)),
        decreases disks.len() - j,
    {
        proof {
            assert(disks@.take(j + 1).drop_last() =~= disks@.take(j as int));
            assert(disks@.take(j + 1).last() == disks@[j as int]);
        }
        let disk = &disks[j];
        if disk.total_space > best.total && disk.total_space < 10_000_000_000_000 {
            best = DiskUsage {
                used: disk.total_space - disk.available_space,
                total: disk.total_space,
            };
        }
        j += 1;
    }
    proof {
        assert(disks@.take(disks.len() as int) =~= disks@);
    }
    best
}

} // verus!
