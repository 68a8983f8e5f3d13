use lvm_inventory::inventory::{
    build_snapshot, decode_failure_message, logical_volumes_from_output,
    physical_volumes_from_output, run_failure_message, spawn_failure_message,
    volume_groups_from_output,
};

#[test]
fn volume_group_end_to_end() {
    let vgs = volume_groups_from_output("vgdata,3,0,100.00\n");
    assert_eq!(vgs.len(), 1);
    assert_eq!(vgs[0].name, "vgdata");
    assert_eq!(vgs[0].value, "100g, ok");
}

#[test]
fn physical_volumes_end_to_end() {
    let out = "  /dev/sda,vg0,100.00,\n\n  /dev/sdb,vg0,50.00,m\n";
    let pvs = physical_volumes_from_output(out);
    assert_eq!(pvs.len(), 2);
    assert_eq!(pvs[0].name, "/dev/sda");
    assert_eq!(pvs[0].value, "vg0, 100g, ok");
    assert_eq!(pvs[1].name, "/dev/sdb");
    assert_eq!(pvs[1].value, "vg0, 50g, failed");
}

#[test]
fn logical_volumes_end_to_end() {
    let lvs = logical_volumes_from_output("vg0/root,25.00,active,\nvg0/swap,2.00,inactive,\n");
    assert_eq!(lvs.len(), 2);
    assert_eq!(lvs[0].name, "vg0/root");
    assert_eq!(lvs[0].value, "25g, active, ok");
    assert_eq!(lvs[1].value, "2g, inactive, ok");
}

#[test]
fn snapshot_of_three_successes() {
    let snap = build_snapshot(
        Ok("/dev/sda,vgdata,100.00,\n".to_string()),
        Ok("vgdata,3,0,100.00\n".to_string()),
        Ok("vgdata/root,25.00,active,\n".to_string()),
    )
    .unwrap();
    assert_eq!(snap.physical_volumes.len(), 1);
    assert_eq!(snap.volume_groups.len(), 1);
    assert_eq!(snap.logical_volumes.len(), 1);
    assert_eq!(snap.volume_groups[0].name, "vgdata");
    assert_eq!(snap.volume_groups[0].value, "100g, ok");
}

#[test]
fn any_failure_fails_the_whole_snapshot() {
    let r = build_snapshot(
        Ok("/dev/sda,vgdata,100.00,\n".to_string()),
        Err("vgs command failed: boom".to_string()),
        Ok("vgdata/root,25.00,active,\n".to_string()),
    );
    let msg = r.err().unwrap();
    assert!(!msg.is_empty());
    assert_eq!(msg, "vgs command failed: boom");
}

#[test]
fn first_failure_is_surfaced() {
    let r = build_snapshot(
        Err("first".to_string()),
        Err("second".to_string()),
        Err("third".to_string()),
    );
    assert_eq!(r.err().unwrap(), "first");
}

#[test]
fn failure_messages_name_the_tool() {
    assert_eq!(
        spawn_failure_message("pvs", "No such file or directory"),
        "Failed to execute pvs: No such file or directory"
    );
    assert_eq!(run_failure_message("vgs", "boom"), "vgs command failed: boom");
    assert_eq!(
        decode_failure_message("lvs", "invalid utf-8"),
        "Failed to parse lvs output: invalid utf-8"
    );
}
