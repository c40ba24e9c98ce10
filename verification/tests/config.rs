use clipwallet::config::{
    clamp_ring_capacity, clamp_spill_threshold, default_spill_threshold, effective_ring_capacity, load, ClipMode,
    Config, SPILL_THRESHOLD_MAX, SPILL_THRESHOLD_MIN,
};

fn config_from_toml(text: &str) -> Config {
    let table: toml::Table = toml::from_str(text).unwrap();
    let mode = table.get("mode").and_then(|v| v.as_str()).and_then(ClipMode::from_name).unwrap();
    let ring = table.get("ring_capacity").and_then(|v| v.as_integer()).map(|v| v as usize);
    let spill = table.get("spill_threshold_bytes").and_then(|v| v.as_integer()).map(|v| v as usize);
    Config::from_parts(mode, ring, spill)
}

#[test]
fn default_threshold_is_one_mib() {
    assert_eq!(Config::default().spill_threshold_bytes, 1024 * 1024);
}

#[test]
fn legacy_config_without_threshold_field_deserialises() {
    // Configs written before the spill threshold existed have no such key.
    let toml_str = "mode = \"dynamic\"\nring_capacity = 50\n";
    let cfg = config_from_toml(toml_str);
    assert_eq!(cfg.spill_threshold_bytes, default_spill_threshold());
}

#[test]
fn threshold_zero_disables_and_is_not_clamped() {
    let toml_str = "mode = \"dynamic\"\nspill_threshold_bytes = 0\n";
    let mut cfg = config_from_toml(toml_str);
    // mirror the clamping load() applies
    cfg.spill_threshold_bytes = clamp_spill_threshold(cfg.spill_threshold_bytes);
    assert_eq!(cfg.spill_threshold_bytes, 0);
}

#[test]
fn tiny_threshold_is_clamped_up() {
    let v = clamp_spill_threshold(16usize);
    assert_eq!(v, SPILL_THRESHOLD_MIN);
}

#[test]
fn huge_threshold_is_clamped_down_and_in_band_kept() {
    assert_eq!(clamp_spill_threshold(usize::MAX), SPILL_THRESHOLD_MAX);
    assert_eq!(clamp_spill_threshold(8192), 8192);
    assert_eq!(SPILL_THRESHOLD_MAX, 256 * 1024 * 1024);
}

#[test]
fn ring_capacity_is_clamped_into_band() {
    assert_eq!(clamp_ring_capacity(0), 10);
    assert_eq!(clamp_ring_capacity(9), 10);
    assert_eq!(clamp_ring_capacity(10), 10);
    assert_eq!(clamp_ring_capacity(120), 120);
    assert_eq!(clamp_ring_capacity(501), 500);
}

#[test]
fn load_without_stored_config_gives_defaults() {
    let cfg = load(None);
    assert_eq!(cfg.mode, ClipMode::Dynamic);
    assert_eq!(cfg.ring_capacity, 50);
    assert_eq!(cfg.spill_threshold_bytes, 1024 * 1024);
}

#[test]
fn load_clamps_a_stored_config() {
    let stored = Config { mode: ClipMode::Static, ring_capacity: 3, spill_threshold_bytes: 100 };
    let cfg = load(Some(stored));
    assert_eq!(cfg, Config { mode: ClipMode::Static, ring_capacity: 10, spill_threshold_bytes: 4096 });
    // Loading what was loaded changes nothing.
    assert_eq!(load(Some(cfg)), cfg);
}

#[test]
fn mode_names_round_trip() {
    assert_eq!(ClipMode::Static.name(), "static");
    assert_eq!(ClipMode::Dynamic.name(), "dynamic");
    assert_eq!(ClipMode::from_name("static"), Some(ClipMode::Static));
    assert_eq!(ClipMode::from_name("dynamic"), Some(ClipMode::Dynamic));
    assert_eq!(ClipMode::from_name("Static"), None);
    assert_eq!(ClipMode::from_name(""), None);
}

#[test]
fn command_line_capacity_overrides_config() {
    let cfg = Config::default();
    assert_eq!(effective_ring_capacity(None, &cfg), 50);
    assert_eq!(effective_ring_capacity(Some(200), &cfg), 200);
    assert_eq!(effective_ring_capacity(Some(5000), &cfg), 500);
    assert_eq!(cfg.with_mode(ClipMode::Static).mode, ClipMode::Static);
}
