use ion_telemetry::can::{
    get_can_filters_from_can_names, get_can_id_from_can_name, get_can_ids_from_can_names,
    CanDatabase, FilterSpec,
};
use ion_telemetry::mask_extended;

fn db_of(lines: &[&str]) -> CanDatabase {
    let owned: Vec<String> = lines.iter().map(|l| l.to_string()).collect();
    CanDatabase::load_from_lines(&owned)
}

#[test]
fn empty_database_resolves_nothing() {
    let db = CanDatabase::new();
    assert_eq!(db.id_for("anything"), None);
    assert_eq!(get_can_id_from_can_name(&db, "anything".to_string()), 0);
}

#[test]
fn engine_status_resolves() {
    let db = db_of(&["BO_ 100 EngineStatus: 8 Vector__XXX"]);
    assert_eq!(db.id_for("EngineStatus"), Some(100));
}

#[test]
fn overflow_id_is_masked() {
    let db = db_of(&["BO_ 4294967295 OverflowMsg:"]);
    assert_eq!(db.id_for("OverflowMsg"), Some(0x1FFFFFFF));
}

#[test]
fn high_bits_are_truncated() {
    // 0x30000000 & 0x1FFFFFFF == 0x10000000
    let db = db_of(&["BO_ 805306368 HighBits:"]);
    assert_eq!(db.id_for("HighBits"), Some(0x10000000));
}

#[test]
fn masking_is_idempotent_on_samples() {
    for id in [0u32, 1, 0x1FFFFFFF, 0x20000000, 0xFFFFFFFF, 12345678] {
        let once = mask_extended(id);
        assert_eq!(mask_extended(once), once);
    }
}

#[test]
fn absent_name_yields_none_and_zero_sentinel() {
    let db = db_of(&["BO_ 100 EngineStatus:"]);
    assert_eq!(db.id_for("NoSuchMessage"), None);
    assert_eq!(get_can_id_from_can_name(&db, "NoSuchMessage".to_string()), 0);
}

#[test]
fn batch_resolution_skips_misses() {
    let db = db_of(&["BO_ 10 a:", "BO_ 30 c:"]);
    let ids = get_can_ids_from_can_names(&db, &["a", "b", "c"]);
    assert_eq!(ids, vec![10, 30]);
}

#[test]
fn filters_keep_input_order_and_fixed_mask() {
    let db = db_of(&["BO_ 30 c:", "BO_ 10 a:"]);
    let filters = get_can_filters_from_can_names(&db, &["a", "b", "c"]);
    assert_eq!(filters.len(), 2);
    assert_eq!(filters[0], FilterSpec { id: 10, mask: 0x1FFFFFFF });
    assert_eq!(filters[1], FilterSpec { id: 30, mask: 0x1FFFFFFF });
}

#[test]
fn malformed_id_line_is_skipped() {
    let db = db_of(&["BO_ 12ab Broken:", "BO_ 7 Fine:"]);
    assert_eq!(db.id_for("Broken"), None);
    assert_eq!(db.id_for("Fine"), Some(7));
}

#[test]
fn out_of_range_id_line_is_skipped() {
    let db = db_of(&["BO_ 4294967296 TooBig:"]);
    assert_eq!(db.id_for("TooBig"), None);
}

#[test]
fn unrecognized_lines_are_ignored() {
    let db = db_of(&[
        "VERSION \"1.0\"",
        "",
        "CM_ BO_ 100 \"a comment\";",
        "BO_TX_BU_ 100 : Gateway;",
        "BO_ 42 Real: 8 Node",
        " BO_ 43 Indented:",
    ]);
    assert_eq!(db.id_for("Real"), Some(42));
    assert_eq!(db.id_for("Indented"), None);
    assert_eq!(db.id_for("\"a"), None);
}

#[test]
fn duplicate_name_last_definition_wins() {
    let db = db_of(&["BO_ 1 Twice:", "BO_ 2 Twice:"]);
    assert_eq!(db.id_for("Twice"), Some(2));
}

#[test]
fn trailing_colons_are_stripped_from_name() {
    let db = db_of(&["BO_ 5 Name::"]);
    assert_eq!(db.id_for("Name"), Some(5));
    assert_eq!(db.id_for("Name:"), None);
}

#[test]
fn definition_token_requires_a_space() {
    let db = db_of(&["BO_\t9 Tabbed:"]);
    assert_eq!(db.id_for("Tabbed"), None);
}

#[test]
fn fields_may_be_tab_separated_after_the_token() {
    let db = db_of(&["BO_ 9\tTabby: 8"]);
    assert_eq!(db.id_for("Tabby"), Some(9));
}

#[test]
fn definition_needs_name_field() {
    let db = db_of(&["BO_ 9"]);
    assert_eq!(get_can_ids_from_can_names(&db, &["9"]), Vec::<u32>::new());
}

#[test]
fn plus_signed_id_parses() {
    let db = db_of(&["BO_ +5 Plus:"]);
    assert_eq!(db.id_for("Plus"), Some(5));
}
