use lvm_inventory::mapper::{
    lv_is_active, map_logical_volume, map_physical_volume, map_volume_group,
};
use lvm_inventory::numeric::{parse_gib, size_text_str, u32_dec};

fn row(fields: &[&str]) -> Vec<String> {
    fields.iter().map(|f| f.to_string()).collect()
}

#[test]
fn physical_volume_ok() {
    let pv = map_physical_volume(&row(&["/dev/sda", "vg0", "100.00", ""])).unwrap();
    assert_eq!(pv.name, "/dev/sda");
    assert_eq!(pv.value, "vg0, 100g, ok");
}

#[test]
fn physical_volume_missing_indicator_means_failed() {
    let pv = map_physical_volume(&row(&["/dev/sdb", "vg0", "50.25", "m"])).unwrap();
    assert_eq!(pv.value, "vg0, 50g, failed");
}

#[test]
fn physical_volume_zero_size_renders_blank() {
    let pv = map_physical_volume(&row(&["/dev/sdc", "vg0", "0.00", ""])).unwrap();
    assert_eq!(pv.value, "vg0, g, ok");
}

#[test]
fn physical_volume_short_row_yields_none() {
    assert!(map_physical_volume(&row(&["/dev/sda", "vg0", "100.00"])).is_none());
}

#[test]
fn volume_group_no_missing_is_ok() {
    let vg = map_volume_group(&row(&["vgdata", "3", "0", "100.00"])).unwrap();
    assert_eq!(vg.name, "vgdata");
    assert_eq!(vg.value, "100g, ok");
}

#[test]
fn volume_group_missing_reports_raw_counts() {
    let vg = map_volume_group(&row(&["vgdata", "5", "2", "7.5"])).unwrap();
    assert_eq!(vg.value, "7g, failed(2/5)");
}

#[test]
fn volume_group_short_row_yields_none() {
    assert!(map_volume_group(&row(&["vgdata", "5", "0"])).is_none());
}

#[test]
fn logical_volume_health_passthrough() {
    let lv = map_logical_volume(&row(&["vg0/lv0", "10.00", "active", "degraded"])).unwrap();
    assert_eq!(lv.name, "vg0/lv0");
    assert_eq!(lv.value, "10g, active, degraded");
}

#[test]
fn logical_volume_empty_health_becomes_ok() {
    let lv = map_logical_volume(&row(&["vg0/lv1", "2.50", "inactive", ""])).unwrap();
    assert_eq!(lv.value, "2g, inactive, ok");
}

#[test]
fn logical_volume_short_row_yields_none() {
    assert!(map_logical_volume(&row(&["vg0/lv0", "10.00", "active"])).is_none());
}

#[test]
fn active_flag_requires_exact_match() {
    assert!(lv_is_active("active"));
    assert!(!lv_is_active("inactive"));
    assert!(!lv_is_active(""));
    assert!(!lv_is_active("active "));
    assert!(!lv_is_active("Active"));
}

#[test]
fn gib_parse_truncates_fractions() {
    assert_eq!(parse_gib("10"), 10);
    assert_eq!(parse_gib("4.99"), 4);
    assert_eq!(parse_gib("100.00"), 100);
    assert_eq!(parse_gib("100."), 100);
    assert_eq!(parse_gib("0.5"), 0);
}

#[test]
fn gib_parse_malformed_yields_zero_sentinel() {
    assert_eq!(parse_gib(""), 0);
    assert_eq!(parse_gib("abc"), 0);
    assert_eq!(parse_gib(".5"), 0);
    assert_eq!(parse_gib("1.2.3"), 0);
    assert_eq!(parse_gib("12x"), 0);
}

#[test]
fn gib_parse_clamps_huge_values() {
    assert_eq!(parse_gib("4294967295"), u32::MAX);
    assert_eq!(parse_gib("99999999999"), u32::MAX);
}

#[test]
fn size_rendering_blanks_zero() {
    assert_eq!(size_text_str(0), "");
    assert_eq!(size_text_str(7), "7");
    assert_eq!(size_text_str(100), "100");
    assert_eq!(u32_dec(0), "0");
    assert_eq!(u32_dec(4294967295), "4294967295");
}
