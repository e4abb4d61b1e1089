//! The supported GPUs: what a device-tree compatible string names, and which
//! manager variant drives a GPU with a given firmware version.
use vstd::prelude::*;

verus! {

#[derive(Clone, Copy, Debug, PartialEq, Eq, Structural)]
pub enum GpuGen {
    G13,
    G14,
}

#[derive(Clone, Copy, Debug, PartialEq, Eq, Structural)]
pub enum GpuVariant {
    P,
    G,
    S,
    C,
    D,
}

/// What the driver knows of one GPU model.
#[derive(Clone, Copy, Debug, PartialEq, Eq, Structural)]
pub struct HwConfig {
    /// The SoC number, as in `t8103`, read as hexadecimal digits.
    pub chip_id: u32,
    pub gpu_gen: GpuGen,
    pub gpu_variant: GpuVariant,
}

/// The manager variants: one per GPU generation and firmware version.
#[derive(Clone, Copy, Debug, PartialEq, Eq, Structural)]
pub enum ManagerKind {
    G13V12_3,
    G14V12_4,
    G13V13_5,
    G14V13_5,
    G14XV13_5,
}

/// The GPU model of a SoC number.
pub open spec fn hw_config_spec(chip_id: u32) -> Option<HwConfig> {
    if chip_id == 0x8103 {
        Some(HwConfig { chip_id, gpu_gen: GpuGen::G13, gpu_variant: GpuVariant::G })
    } else if chip_id == 0x8112 {
        Some(HwConfig { chip_id, gpu_gen: GpuGen::G14, gpu_variant: GpuVariant::G })
    } else if chip_id == 0x6000 {
        Some(HwConfig { chip_id, gpu_gen: GpuGen::G13, gpu_variant: GpuVariant::S })
    } else if chip_id == 0x6001 {
        Some(HwConfig { chip_id, gpu_gen: GpuGen::G13, gpu_variant: GpuVariant::C })
    } else if chip_id == 0x6002 {
        Some(HwConfig { chip_id, gpu_gen: GpuGen::G13, gpu_variant: GpuVariant::D })
    } else if chip_id == 0x6020 {
        Some(HwConfig { chip_id, gpu_gen: GpuGen::G14, gpu_variant: GpuVariant::S })
    } else if chip_id == 0x6021 {
        Some(HwConfig { chip_id, gpu_gen: GpuGen::G14, gpu_variant: GpuVariant::C })
    } else if chip_id == 0x6022 {
        Some(HwConfig { chip_id, gpu_gen: GpuGen::G14, gpu_variant: GpuVariant::D })
    } else {
        None
    }
}

/// The GPU model of a SoC number, if the driver supports it.
pub fn hw_config(chip_id: u32) -> (r: Option<HwConfig>)
    ensures
        r == hw_config_spec(chip_id),
{
    let (gpu_gen, gpu_variant) = if chip_id == 0x8103 {
        (GpuGen::G13, GpuVariant::G)
    } else if chip_id == 0x8112 {
        (GpuGen::G14, GpuVariant::G)
    } else if chip_id == 0x6000 {
        (GpuGen::G13, GpuVariant::S)
    } else if chip_id == 0x6001 {
        (GpuGen::G13, GpuVariant::C)
    } else if chip_id == 0x6002 {
        (GpuGen::G13, GpuVariant::D)
    } else if chip_id == 0x6020 {
        (GpuGen::G14, GpuVariant::S)
    } else if chip_id == 0x6021 {
        (GpuGen::G14, GpuVariant::C)
    } else if chip_id == 0x6022 {
        (GpuGen::G14, GpuVariant::D)
    } else {
        return None;
    };
    Some(HwConfig { chip_id, gpu_gen, gpu_variant })
}

/// The bytes `apple,agx-t` that start a supported compatible string.
pub open spec fn agx_prefix() -> Seq<u8> {
    seq![97u8, 112, 112, 108, 101, 44, 97, 103, 120, 45, 116]
}

/// The value of an ASCII hexadecimal digit (either case).
pub open spec fn hex_value(c: u8) -> Option<u32> {
    if 48 <= c <= 57 {
        Some((c - 48) as u32)
    } else if 97 <= c <= 102 {
        Some((c - 87) as u32)
    } else if 65 <= c <= 70 {
        Some((c - 55) as u32)
    } else {
        None
    }
}

/// The SoC number that a compatible string `apple,agx-tNNNN` names, with
/// exactly four hexadecimal digits.
pub open spec fn chip_of_compatible(name: Seq<u8>) -> Option<u32> {
    if name.len() == 15 && name.subrange(0, 11) == agx_prefix() && hex_value(name[11]) is Some
        && hex_value(name[12]) is Some && hex_value(name[13]) is Some && hex_value(
        name[14],
    ) is Some {
        Some(
            (hex_value(name[11]).unwrap() * 0x1000 + hex_value(name[12]).unwrap() * 0x100
                + hex_value(name[13]).unwrap() * 0x10 + hex_value(name[14]).unwrap()) as u32,
        )
    } else {
        None
    }
}

fn hex_digit(c: u8) -> (r: Option<u32>)
    ensures
        r == hex_value(c),
{
    if 48 <= c && c <= 57 {
        Some((c - 48) as u32)
    } else if 97 <= c && c <= 102 {
        Some((c - 87) as u32)
    } else if 65 <= c && c <= 70 {
        Some((c - 55) as u32)
    } else {
        None
    }
}

/// The SoC number named by a device-tree compatible string.
pub fn chip_from_compatible(name: &[u8]) -> (r: Option<u32>)
    ensures
        r == chip_of_compatible(name@),
{
    let prefix: [u8; 11] = [97, 112, 112, 108, 101, 44, 97, 103, 120, 45, 116];
    if name.len() != 15 {
        return None;
    }
    let mut i: usize = 0;
    while i < 11
        invariant
            name@.len() == 15,
            prefix@ == agx_prefix(),
            i <= 11,
            forall|j: int| 0 <= j < i ==> name@[j] == agx_prefix()[j],
        decreases 11 - i,
    {
        if name[i] != prefix[i] {
            proof {
                assert(name@.subrange(0, 11)[i as int] != agx_prefix()[i as int]);
            }
            return None;
        }
        i = i + 1;
    }
    assert(name@.subrange(0, 11) =~= agx_prefix());
    let d0 = match hex_digit(name[11]) {
        Some(d) => d,
        None => return None,
    };
    let d1 = match hex_digit(name[12]) {
        Some(d) => d,
        None => return None,
    };
    let d2 = match hex_digit(name[13]) {
        Some(d) => d,
        None => return None,
    };
    let d3 = match hex_digit(name[14]) {
        Some(d) => d,
        None => return None,
    };
    Some(d0 * 0x1000 + d1 * 0x100 + d2 * 0x10 + d3)
}

/// The GPU model a device-tree compatible string names, if supported.
pub fn hw_config_for_compatible(name: &[u8]) -> (r: Option<HwConfig>)
    ensures
        r == (match chip_of_compatible(name@) {
            Some(chip) => hw_config_spec(chip),
            None => None,
        }),
{
    match chip_from_compatible(name) {
        Some(chip) => hw_config(chip),
        None => None,
    }
}

/// The supported SoC numbers, in the order a node is matched against them.
pub open spec fn chip_table() -> Seq<u32> {
    seq![0x8103u32, 0x8112, 0x6000, 0x6001, 0x6002, 0x6020, 0x6021, 0x6022]
}

/// Whether one of `names` is the compatible string of SoC `chip`.
pub open spec fn names_chip(names: Seq<Vec<u8>>, chip: u32) -> bool {
    exists|i: int| 0 <= i < names.len() && chip_of_compatible(#[trigger] names[i]@) == Some(chip)
}

/// The first entry of the chip table, from index `k` on, that one of
/// `names` is compatible with.
pub open spec fn first_table_match(names: Seq<Vec<u8>>, k: int) -> Option<u32>
    decreases chip_table().len() - k,
{
    if k < 0 || k >= chip_table().len() {
        None
    } else if names_chip(names, chip_table()[k]) {
        Some(chip_table()[k])
    } else {
        first_table_match(names, k + 1)
    }
}

/// Whether one of `names` is the compatible string of SoC `chip`.
fn has_chip(names: &[Vec<u8>], chip: u32) -> (r: bool)
    ensures
        r == names_chip(names@, chip),
{
    let mut i: usize = 0;
    while i < names.len()
        invariant
            i <= names@.len(),
            forall|j: int| 0 <= j < i ==> chip_of_compatible(#[trigger] names@[j]@) != Some(chip),
        decreases names@.len() - i,
    {
        if chip_from_compatible(names[i].as_slice()) == Some(chip) {
            return true;
        }
        i = i + 1;
    }
    false
}

/// The GPU model of a node with compatible strings `names`: that of the
/// first supported chip, in table order (t8103, t8112, t6000, t6001,
/// t6002, t6020, t6021, t6022), that any of the strings names.
pub fn hw_config_for_compatibles(names: &[Vec<u8>]) -> (r: Option<HwConfig>)
    ensures
        r == (match first_table_match(names@, 0) {
            Some(chip) => hw_config_spec(chip),
            None => None,
        }),
{
    let table: [u32; 8] = [0x8103, 0x8112, 0x6000, 0x6001, 0x6002, 0x6020, 0x6021, 0x6022];
    assert(table@ =~= chip_table());
    let mut k: usize = 0;
    while k < 8
        invariant
            k <= 8,
            table@ == chip_table(),
            first_table_match(names@, 0) == first_table_match(names@, k as int),
        decreases 8 - k,
    {
        if has_chip(names, table[k]) {
            return hw_config(table[k]);
        }
        k = k + 1;
    }
    None
}

/// The manager variant for a GPU and its firmware version (three numbers).
pub open spec fn select_spec(gen: GpuGen, variant: GpuVariant, compat: Seq<u32>) -> Option<
    ManagerKind,
> {
    if compat == seq![12u32, 3, 0] && gen == GpuGen::G13 {
        Some(ManagerKind::G13V12_3)
    } else if compat == seq![12u32, 4, 0] && gen == GpuGen::G14 && variant == GpuVariant::G {
        Some(ManagerKind::G14V12_4)
    } else if compat == seq![13u32, 5, 0] && gen == GpuGen::G13 {
        Some(ManagerKind::G13V13_5)
    } else if compat == seq![13u32, 5, 0] && gen == GpuGen::G14 && variant == GpuVariant::G {
        Some(ManagerKind::G14V13_5)
    } else if compat == seq![13u32, 5, 0] && gen == GpuGen::G14 {
        Some(ManagerKind::G14XV13_5)
    } else {
        None
    }
}

/// Picks the manager variant for a GPU and its firmware version; `None` for
/// a combination the driver does not support.
pub fn select_manager(gen: GpuGen, variant: GpuVariant, compat: &[u32]) -> (r: Option<
    ManagerKind,
>)
    ensures
        r == select_spec(gen, variant, compat@),
{
    if compat.len() != 3 {
        proof {
            assert(compat@ != seq![12u32, 3, 0]);
            assert(compat@ != seq![12u32, 4, 0]);
            assert(compat@ != seq![13u32, 5, 0]);
        }
        return None;
    }
    let (a, b, c) = (compat[0], compat[1], compat[2]);
    assert(compat@ =~= seq![a, b, c]);
    if a == 12 && b == 3 && c == 0 {
        match gen {
            GpuGen::G13 => Some(ManagerKind::G13V12_3),
            GpuGen::G14 => None,
        }
    } else if a == 12 && b == 4 && c == 0 {
        match (gen, variant) {
            (GpuGen::G14, GpuVariant::G) => Some(ManagerKind::G14V12_4),
            _ => None,
        }
    } else if a == 13 && b == 5 && c == 0 {
        match (gen, variant) {
            (GpuGen::G13, _) => Some(ManagerKind::G13V13_5),
            (GpuGen::G14, GpuVariant::G) => Some(ManagerKind::G14V13_5),
            (GpuGen::G14, _) => Some(ManagerKind::G14XV13_5),
        }
    } else {
        None
    }
}

} // verus!
