//! Entity mapping: one parsed field row becomes one typed snapshot entity.
//! A row that is too short yields nothing; a malformed numeric field
//! degrades to a sentinel, never an error.

use vstd::prelude::*;

use crate::numeric::{gib_u32, parse_gib, size_text, size_text_str};
use crate::text::str_eq;

verus! {

/// A physical volume of one snapshot: a raw block device registered for
/// managed use, described by its device path and a display value.
pub struct PhysicalVolume {
    pub name: String,
    pub value: String,
}

/// A volume group of one snapshot: a capacity pool aggregating physical
/// volumes, described by its name and a display value.
pub struct VolumeGroup {
    pub name: String,
    pub value: String,
}

/// A logical volume of one snapshot: an allocatable unit carved out of a
/// volume group, described by its qualified name and a display value.
pub struct LogicalVolume {
    pub name: String,
    pub value: String,
}

/// Physical-volume health: `ok` when the missing-indicator field is unset,
/// `failed` otherwise.
pub open spec fn pv_health(missing: Seq<char>) -> Seq<char> {
    if missing.len() == 0 {
        "ok"@
    } else {
        "failed"@
    }
}

/// The display value of a physical volume: owning group, whole-gibibyte
/// size (blank when unknown), and health.
pub open spec fn pv_value(vg: Seq<char>, size_field: Seq<char>, missing: Seq<char>) -> Seq<char> {
    vg + ", "@ + size_text(gib_u32(size_field)) + "g, "@ + pv_health(missing)
}

/// Volume-group health: `ok` when the missing-physical-volume count field
/// is exactly `0`, else `failed(missing/total)` over the raw count fields.
pub open spec fn vg_health(missing: Seq<char>, total: Seq<char>) -> Seq<char> {
    if missing == "0"@ {
        "ok"@
    } else {
        "failed("@ + missing + "/"@ + total + ")"@
    }
}

/// The display value of a volume group: whole-gibibyte size (blank when
/// unknown) and health.
pub open spec fn vg_value(total: Seq<char>, missing: Seq<char>, size_field: Seq<char>) -> Seq<
    char,
> {
    size_text(gib_u32(size_field)) + "g, "@ + vg_health(missing, total)
}

/// Logical-volume health: the tool-reported health field verbatim, with an
/// empty field standing for `ok`.
pub open spec fn lv_health(health: Seq<char>) -> Seq<char> {
    if health.len() == 0 {
        "ok"@
    } else {
        health
    }
}

/// The display value of a logical volume: whole-gibibyte size (blank when
/// unknown), the active-state field verbatim, and health.
pub open spec fn lv_value(size_field: Seq<char>, active: Seq<char>, health: Seq<char>) -> Seq<
    char,
> {
    size_text(gib_u32(size_field)) + "g, "@ + active + ", "@ + lv_health(health)
}

/// Maps a field row `pv_name, vg_name, pv_size, pv_missing` to a physical
/// volume; a row with fewer than four fields yields nothing.
pub fn map_physical_volume(row: &Vec<String>) -> (r: Option<PhysicalVolume>)
    ensures
        (r is Some) <==> row@.len() >= 4,
        row@.len() >= 4 ==> r->0.name@ == row@[0]@ && r->0.value@ == pv_value(
            row@[1]@,
            row@[2]@,
            row@[3]@,
        ),
{
    if row.len() < 4 {
        return None;
    }
    let health: &str = if row[3].as_str().is_empty() {
        "ok"
    } else {
        "failed"
    };
    let size = size_text_str(parse_gib(row[2].as_str()));
    let mut value = row[1].clone();
    value.append(", ");
    value.append(size.as_str());
    value.append("g, ");
    value.append(health);
    Some(PhysicalVolume { name: row[0].clone(), value })
}

/// Maps a field row `vg_name, pv_count, vg_missing_pv_count, vg_size` to a
/// volume group; a row with fewer than four fields yields nothing.
pub fn map_volume_group(row: &Vec<String>) -> (r: Option<VolumeGroup>)
    ensures
        (r is Some) <==> row@.len() >= 4,
        row@.len() >= 4 ==> r->0.name@ == row@[0]@ && r->0.value@ == vg_value(
            row@[1]@,
            row@[2]@,
            row@[3]@,
        ),
{
    if row.len() < 4 {
        return None;
    }
    let health: String = if str_eq(row[2].as_str(), "0") {
        String::from_str("ok")
    } else {
        let mut h = String::from_str("failed(");
        h.append(row[2].as_str());
        h.append("/");
        h.append(row[1].as_str());
        h.append(")");
        h
    };
    let mut value = size_text_str(parse_gib(row[3].as_str()));
    value.append("g, ");
    value.append(health.as_str());
    Some(VolumeGroup { name: row[0].clone(), value })
}

/// Maps a field row `lv_full_name, lv_size, lv_active, lv_health_status` to
/// a logical volume; a row with fewer than four fields yields nothing.
pub fn map_logical_volume(row: &Vec<String>) -> (r: Option<LogicalVolume>)
    ensures
        (r is Some) <==> row@.len() >= 4,
        row@.len() >= 4 ==> r->0.name@ == row@[0]@ && r->0.value@ == lv_value(
            row@[1]@,
            row@[2]@,
            row@[3]@,
        ),
{
    if row.len() < 4 {
        return None;
    }
    let health: &str = if row[3].as_str().is_empty() {
        "ok"
    } else {
        row[3].as_str()
    };
    let mut value = size_text_str(parse_gib(row[1].as_str()));
    value.append("g, ");
    value.append(row[2].as_str());
    value.append(", ");
    value.append(health);
    Some(LogicalVolume { name: row[0].clone(), value })
}

/// A logical volume counts as active exactly when its trimmed active-state
/// field is the literal text `active`.
pub fn lv_is_active(attr: &str) -> (r: bool)
    ensures
        r == (attr@ == "active"@),
{
    str_eq(attr, "active")
}

} // verus!
