use snowflake_uid::{Config, ConfigError};

#[test]
fn construction_accepts_default_widths() {
    let cfg = Config::from(42, 11).unwrap();
    assert_eq!(cfg.timestamp_bit_count(), 42);
    assert_eq!(cfg.node_id_bit_count(), 11);
}

#[test]
fn construction_rejects_too_wide_fields() {
    // 60 + 5 + 4 = 69 > 63
    assert_eq!(Config::from(60, 5), Err(ConfigError::FieldsTooWide));
}

#[test]
fn construction_accepts_exact_budget() {
    // 48 + 11 + 4 = 63: the sequence field is at its four-bit floor
    let cfg = Config::from(48, 11).unwrap();
    assert_eq!(cfg.node_id_shift(), 4);
    // one more timestamp bit no longer fits
    assert_eq!(Config::from(49, 11), Err(ConfigError::FieldsTooWide));
}

#[test]
fn construction_rejects_huge_widths() {
    assert_eq!(Config::from(u64::MAX, 1), Err(ConfigError::FieldsTooWide));
    assert_eq!(Config::from(1, u64::MAX), Err(ConfigError::FieldsTooWide));
}

#[test]
fn default_equals_explicit_construction() {
    assert_eq!(Config::default(), Config::from(42, 11).unwrap());
}

#[test]
fn default_shifts() {
    let cfg = Config::default();
    assert_eq!(cfg.timestamp_shift(), 21);
    assert_eq!(cfg.node_id_shift(), 10);
}

#[test]
fn describe_default() {
    let summary = Config::default().describe();
    assert_eq!(summary.max_nodes, 2048);
    assert_eq!(summary.max_load_per_node, 1024);
    assert_eq!(summary.max_load_total, 2048 * 1024);
    // 2^42 milliseconds of timestamp headroom is about 139 years
    assert_eq!(summary.max_lifetime_years, 139);
}

#[test]
fn describe_custom_widths() {
    // a coarser window: more nodes, shorter lifetime
    let cfg = Config::from(40, 13).unwrap();
    let summary = cfg.describe();
    assert_eq!(summary.max_nodes, 8192);
    assert_eq!(summary.max_load_per_node, 1024);
    assert_eq!(summary.max_load_total, 8192 * 1024);
    assert_eq!(summary.max_lifetime_years, 34);
}
