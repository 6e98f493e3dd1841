//! Pure decisions of the boot-selection side.
//!
//! Partition and file enumeration walk firmware services and stay outside;
//! the judgements they make on plain values are verified here: recognising
//! a loadable image header, recognising the boot partition type, mapping a
//! menu row to the chosen loadable entry, and scoring console modes.

use vstd::prelude::*;

verus! {

/// The two magic bytes every loadable image file starts with.
pub open spec fn spec_is_pe_image(s: Seq<u8>) -> bool {
    s.len() >= 2 && s[0] == 0x4D && s[1] == 0x5A
}

/// Whether a file header starts a loadable (PE/COFF) image.
pub fn is_pe_image(header: &Vec<u8>) -> (r: bool)
    ensures
        r == spec_is_pe_image(header@),
{
    header.len() >= 2 && header[0] == 0x4D && header[1] == 0x5A
}

/// The partition type identifier of a system boot partition, as the
/// sixteen bytes of its on-disk layout.
pub open spec fn spec_boot_partition_guid() -> Seq<u8> {
    seq![
        0x28u8, 0x73u8, 0x2Au8, 0xC1u8, 0x1Fu8, 0xF8u8, 0xD2u8, 0x11u8,
        0xBAu8, 0x4Bu8, 0x00u8, 0xA0u8, 0xC9u8, 0x3Eu8, 0xC9u8, 0x3Bu8,
    ]
}

/// Whether a partition type identifier names the system boot partition.
pub fn is_boot_partition_guid(guid: &Vec<u8>) -> (r: bool)
    ensures
        r == (guid@ =~= spec_boot_partition_guid()),
{
    let expected: [u8; 16] = [
        0x28, 0x73, 0x2A, 0xC1, 0x1F, 0xF8, 0xD2, 0x11,
        0xBA, 0x4B, 0x00, 0xA0, 0xC9, 0x3E, 0xC9, 0x3B,
    ];
    if guid.len() != 16 {
        return false;
    }
    let mut i: usize = 0;
    while i < 16
        invariant
            i <= 16,
            guid@.len() == 16,
            expected@ =~= spec_boot_partition_guid(),
            forall|j: int| 0 <= j < i ==> guid@[j] == spec_boot_partition_guid()[j],
        decreases 16 - i,
    {
        if guid[i] != expected[i] {
            return false;
        }
        i = i + 1;
    }
    proof {
        assert(guid@ =~= spec_boot_partition_guid());
    }
    true
}

/// How many rows of a menu are selectable.
pub open spec fn count_selectable(s: Seq<bool>) -> nat
    decreases s.len(),
{
    if s.len() == 0 {
        0
    } else {
        count_selectable(s.drop_last()) + (if s.last() { 1nat } else { 0nat })
    }
}

proof fn lemma_count_selectable_mono(s: Seq<bool>, n: int)
    requires
        0 <= n <= s.len(),
    ensures
        count_selectable(s.take(n)) <= count_selectable(s),
    decreases s.len() - n,
{
    if n < s.len() {
        lemma_count_selectable_mono(s, n + 1);
        assert(s.take(n + 1).drop_last() =~= s.take(n));
        assert(s.take(n + 1).last() == s[n]);
    } else {
        assert(s.take(n) =~= s);
    }
}

/// Maps a chosen menu row to the position of its entry among the
/// selectable ones: the number of selectable rows at or before the chosen
/// row, less one.  `None` where the choice is out of range or no
/// selectable row is at or before it.
pub fn resolve_menu_index(selectable: &Vec<bool>, chosen: usize) -> (r: Option<usize>)
    ensures
        match r {
            Some(k) => {
                &&& chosen < selectable@.len()
                &&& count_selectable(selectable@.take(chosen as int + 1)) == k + 1
                &&& k < count_selectable(selectable@)
            },
            None => chosen >= selectable@.len()
                || count_selectable(selectable@.take(chosen as int + 1)) == 0,
        },
{
    let len = selectable.len();
    if chosen >= len {
        return None;
    }
    let mut count: usize = 0;
    let mut i: usize = 0;
    proof {
        assert(selectable@.take(0) =~= Seq::<bool>::empty());
    }
    while i < chosen + 1
        invariant
            i <= chosen + 1,
            chosen < len,
            len == selectable@.len(),
            count == count_selectable(selectable@.take(i as int)),
            count <= i,
        decreases chosen + 1 - i,
    {
        proof {
            assert(selectable@.take(i as int + 1).drop_last() =~= selectable@.take(i as int));
            assert(selectable@.take(i as int + 1).last() == selectable@[i as int]);
        }
        if selectable[i] {
            count = count + 1;
        }
        i = i + 1;
    }
    if count == 0 {
        None
    } else {
        proof {
            lemma_count_selectable_mono(selectable@, chosen as int + 1);
        }
        Some(count - 1)
    }
}

/// How far a console mode's cell count is from the preferred size of
/// 200 columns by 64 rows; the mode with the least score is chosen.
pub fn console_mode_score(rows: u32, columns: u32) -> (r: u64)
    ensures
        r == if rows * columns >= 12800 {
            rows * columns - 12800
        } else {
            12800 - rows * columns
        },
{
    proof {
        assert((rows as nat) * (columns as nat) < 0x1_0000_0000_0000_0000) by (nonlinear_arith)
            requires rows <= 0xFFFF_FFFFu32, columns <= 0xFFFF_FFFFu32,
        ;
    }
    let cells = rows as u64 * columns as u64;
    if cells >= 12800 {
        cells - 12800
    } else {
        12800 - cells
    }
}

} // verus!
