//! Snapshot assembly: each inventory tool's raw output is parsed and mapped
//! into one ordered entity sequence, and the three sequences are combined
//! into one snapshot. Any failed invocation fails the whole snapshot; no
//! partial inventory is ever returned.

use vstd::prelude::*;

use crate::mapper::{
    lv_value, map_logical_volume, map_physical_volume, map_volume_group, pv_value, vg_value,
    LogicalVolume, PhysicalVolume, VolumeGroup,
};
use crate::parser::{lemma_rows_have_min_fields, parse_records, rows_of, rows_view};

verus! {

/// One point-in-time inventory snapshot: the three entity sequences,
/// rebuilt from scratch on every request.
pub struct Snapshot {
    pub physical_volumes: Vec<PhysicalVolume>,
    pub volume_groups: Vec<VolumeGroup>,
    pub logical_volumes: Vec<LogicalVolume>,
}

/// The name and display value of the physical volume mapped from one row.
pub open spec fn pv_row_entity(row: Seq<Seq<char>>) -> (Seq<char>, Seq<char>) {
    (row[0], pv_value(row[1], row[2], row[3]))
}

/// The name and display value of the volume group mapped from one row.
pub open spec fn vg_row_entity(row: Seq<Seq<char>>) -> (Seq<char>, Seq<char>) {
    (row[0], vg_value(row[1], row[2], row[3]))
}

/// The name and display value of the logical volume mapped from one row.
pub open spec fn lv_row_entity(row: Seq<Seq<char>>) -> (Seq<char>, Seq<char>) {
    (row[0], lv_value(row[1], row[2], row[3]))
}

/// The physical volumes described by one tool output.
pub open spec fn pv_entities(text: Seq<char>) -> Seq<(Seq<char>, Seq<char>)> {
    rows_of(text, ',', 4).map_values(|row: Seq<Seq<char>>| pv_row_entity(row))
}

/// The volume groups described by one tool output.
pub open spec fn vg_entities(text: Seq<char>) -> Seq<(Seq<char>, Seq<char>)> {
    rows_of(text, ',', 4).map_values(|row: Seq<Seq<char>>| vg_row_entity(row))
}

/// The logical volumes described by one tool output.
pub open spec fn lv_entities(text: Seq<char>) -> Seq<(Seq<char>, Seq<char>)> {
    rows_of(text, ',', 4).map_values(|row: Seq<Seq<char>>| lv_row_entity(row))
}

/// The names and display values held by a physical-volume list.
pub open spec fn pv_list_view(v: Seq<PhysicalVolume>) -> Seq<(Seq<char>, Seq<char>)> {
    v.map_values(|p: PhysicalVolume| (p.name@, p.value@))
}

/// The names and display values held by a volume-group list.
pub open spec fn vg_list_view(v: Seq<VolumeGroup>) -> Seq<(Seq<char>, Seq<char>)> {
    v.map_values(|p: VolumeGroup| (p.name@, p.value@))
}

/// The names and display values held by a logical-volume list.
pub open spec fn lv_list_view(v: Seq<LogicalVolume>) -> Seq<(Seq<char>, Seq<char>)> {
    v.map_values(|p: LogicalVolume| (p.name@, p.value@))
}

/// Parses one physical-volume tool output and maps every kept row.
pub fn physical_volumes_from_output(stdout: &str) -> (r: Vec<PhysicalVolume>)
    ensures
        pv_list_view(r@) == pv_entities(stdout@),
{
    let rows = parse_records(stdout, ',', 4);
    let ghost rs = rows_of(stdout@, ',', 4);
    proof {
        lemma_rows_have_min_fields(crate::parser::split_on(stdout@, '\n'), ',', 4);
    }
    let mut out: Vec<PhysicalVolume> = Vec::new();
    let mut i: usize = 0;
    proof {
        assert(pv_list_view(out@) =~= rs.subrange(0, 0).map_values(
            |row: Seq<Seq<char>>| pv_row_entity(row),
        ));
    }
    while i < rows.len()
        invariant
            0 <= i <= rows.len(),
            rows_view(rows@) == rs,
            rs == rows_of(stdout@, ',', 4),
            forall|j: int| 0 <= j < rs.len() ==> (#[trigger] rs[j]).len() >= 4,
            pv_list_view(out@) == rs.subrange(0, i as int).map_values(
                |row: Seq<Seq<char>>| pv_row_entity(row),
            ),
        decreases rows.len() - i,
    {
        proof {
            assert(rows_view(rows@)[i as int] == crate::parser::fields_view(rows@[i as int]@));
        }
        let pv = map_physical_volume(&rows[i]).unwrap();
        proof {
            assert(pv_list_view(out@.push(pv)) =~= pv_list_view(out@).push((pv.name@, pv.value@)));
            assert(rs.subrange(0, i + 1) =~= rs.subrange(0, i as int).push(rs[i as int]));
            assert(rs.subrange(0, i + 1).map_values(|row: Seq<Seq<char>>| pv_row_entity(row))
                =~= rs.subrange(0, i as int).map_values(
                |row: Seq<Seq<char>>| pv_row_entity(row),
            ).push(pv_row_entity(rs[i as int])));
        }
        out.push(pv);
        i = i + 1;
    }
    proof {
        assert(rs.subrange(0, rs.len() as int) =~= rs);
    }
    out
}

/// Parses one volume-group tool output and maps every kept row.
pub fn volume_groups_from_output(stdout: &str) -> (r: Vec<VolumeGroup>)
    ensures
        vg_list_view(r@) == vg_entities(stdout@),
{
    let rows = parse_records(stdout, ',', 4);
    let ghost rs = rows_of(stdout@, ',', 4);
    proof {
        lemma_rows_have_min_fields(crate::parser::split_on(stdout@, '\n'), ',', 4);
    }
    let mut out: Vec<VolumeGroup> = Vec::new();
    let mut i: usize = 0;
    proof {
        assert(vg_list_view(out@) =~= rs.subrange(0, 0).map_values(
            |row: Seq<Seq<char>>| vg_row_entity(row),
        ));
    }
    while i < rows.len()
        invariant
            0 <= i <= rows.len(),
            rows_view(rows@) == rs,
            rs == rows_of(stdout@, ',', 4),
            forall|j: int| 0 <= j < rs.len() ==> (#[trigger] rs[j]).len() >= 4,
            vg_list_view(out@) == rs.subrange(0, i as int).map_values(
                |row: Seq<Seq<char>>| vg_row_entity(row),
            ),
        decreases rows.len() - i,
    {
        proof {
            assert(rows_view(rows@)[i as int] == crate::parser::fields_view(rows@[i as int]@));
        }
        let vg = map_volume_group(&rows[i]).unwrap();
        proof {
            assert(vg_list_view(out@.push(vg)) =~= vg_list_view(out@).push((vg.name@, vg.value@)));
            assert(rs.subrange(0, i + 1) =~= rs.subrange(0, i as int).push(rs[i as int]));
            assert(rs.subrange(0, i + 1).map_values(|row: Seq<Seq<char>>| vg_row_entity(row))
                =~= rs.subrange(0, i as int).map_values(
                |row: Seq<Seq<char>>| vg_row_entity(row),
            ).push(vg_row_entity(rs[i as int])));
        }
        out.push(vg);
        i = i + 1;
    }
    proof {
        assert(rs.subrange(0, rs.len() as int) =~= rs);
    }
    out
}

/// Parses one logical-volume tool output and maps every kept row.
pub fn logical_volumes_from_output(stdout: &str) -> (r: Vec<LogicalVolume>)
    ensures
        lv_list_view(r@) == lv_entities(stdout@),
{
    let rows = parse_records(stdout, ',', 4);
    let ghost rs = rows_of(stdout@, ',', 4);
    proof {
        lemma_rows_have_min_fields(crate::parser::split_on(stdout@, '\n'), ',', 4);
    }
    let mut out: Vec<LogicalVolume> = Vec::new();
    let mut i: usize = 0;
    proof {
        assert(lv_list_view(out@) =~= rs.subrange(0, 0).map_values(
            |row: Seq<Seq<char>>| lv_row_entity(row),
        ));
    }
    while i < rows.len()
        invariant
            0 <= i <= rows.len(),
            rows_view(rows@) == rs,
            rs == rows_of(stdout@, ',', 4),
            forall|j: int| 0 <= j < rs.len() ==> (#[trigger] rs[j]).len() >= 4,
            lv_list_view(out@) == rs.subrange(0, i as int).map_values(
                |row: Seq<Seq<char>>| lv_row_entity(row),
            ),
        decreases rows.len() - i,
    {
        proof {
            assert(rows_view(rows@)[i as int] == crate::parser::fields_view(rows@[i as int]@));
        }
        let lv = map_logical_volume(&rows[i]).unwrap();
        proof {
            assert(lv_list_view(out@.push(lv)) =~= lv_list_view(out@).push((lv.name@, lv.value@)));
            assert(rs.subrange(0, i + 1) =~= rs.subrange(0, i as int).push(rs[i as int]));
            assert(rs.subrange(0, i + 1).map_values(|row: Seq<Seq<char>>| lv_row_entity(row))
                =~= rs.subrange(0, i as int).map_values(
                |row: Seq<Seq<char>>| lv_row_entity(row),
            ).push(lv_row_entity(rs[i as int])));
        }
        out.push(lv);
        i = i + 1;
    }
    proof {
        assert(rs.subrange(0, rs.len() as int) =~= rs);
    }
    out
}

/// Combines the three tool outputs into one snapshot. Any failed invocation
/// fails the whole snapshot, the first failure's message is surfaced, and no
/// partial inventory is returned; when all three succeed, each output is
/// parsed and mapped independently.
pub fn build_snapshot(
    pvs_out: Result<String, String>,
    vgs_out: Result<String, String>,
    lvs_out: Result<String, String>,
) -> (r: Result<Snapshot, String>)
    ensures
        pvs_out is Err ==> r is Err && r->Err_0@ == pvs_out->Err_0@,
        pvs_out is Ok && vgs_out is Err ==> r is Err && r->Err_0@ == vgs_out->Err_0@,
        pvs_out is Ok && vgs_out is Ok && lvs_out is Err ==> r is Err && r->Err_0@
            == lvs_out->Err_0@,
        pvs_out is Ok && vgs_out is Ok && lvs_out is Ok ==> r is Ok && pv_list_view(
            r->Ok_0.physical_volumes@,
        ) == pv_entities(pvs_out->Ok_0@) && vg_list_view(r->Ok_0.volume_groups@) == vg_entities(
            vgs_out->Ok_0@,
        ) && lv_list_view(r->Ok_0.logical_volumes@) == lv_entities(lvs_out->Ok_0@),
{
    let pv_text = match pvs_out {
        Ok(t) => t,
        Err(e) => {
            return Err(e);
        },
    };
    let vg_text = match vgs_out {
        Ok(t) => t,
        Err(e) => {
            return Err(e);
        },
    };
    let lv_text = match lvs_out {
        Ok(t) => t,
        Err(e) => {
            return Err(e);
        },
    };
    Ok(
        Snapshot {
            physical_volumes: physical_volumes_from_output(pv_text.as_str()),
            volume_groups: volume_groups_from_output(vg_text.as_str()),
            logical_volumes: logical_volumes_from_output(lv_text.as_str()),
        },
    )
}

/// The message reported when an inventory tool could not be started.
pub fn spawn_failure_message(tool: &str, detail: &str) -> (r: String)
    ensures
        r@ == "Failed to execute "@ + tool@ + ": "@ + detail@,
{
    let mut m = String::from_str("Failed to execute ");
    m.append(tool);
    m.append(": ");
    m.append(detail);
    m
}

/// The message reported when an inventory tool ran but exited with failure.
pub fn run_failure_message(tool: &str, stderr_text: &str) -> (r: String)
    ensures
        r@ == tool@ + " command failed: "@ + stderr_text@,
{
    let mut m = String::from_str(tool);
    m.append(" command failed: ");
    m.append(stderr_text);
    m
}

/// The message reported when an inventory tool's output was not valid text.
pub fn decode_failure_message(tool: &str, detail: &str) -> (r: String)
    ensures
        r@ == "Failed to parse "@ + tool@ + " output: "@ + detail@,
{
    let mut m = String::from_str("Failed to parse ");
    m.append(tool);
    m.append(" output: ");
    m.append(detail);
    m
}

} // verus!
