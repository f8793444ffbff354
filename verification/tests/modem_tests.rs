use ion_telemetry::modem::{find_modem_path, IonModemCli, ManagedObject};
use ion_telemetry::variant::{as_u32, Variant};

fn labelled(v: Variant) -> Variant {
    Variant::Labelled(Box::new(v))
}

fn cli() -> IonModemCli {
    IonModemCli::new_default()
}

#[test]
fn labelled_u32_round_trips() {
    assert_eq!(as_u32(&labelled(Variant::U32(1234))), Some(1234));
    assert_eq!(as_u32(&Variant::U32(7)), Some(7));
}

#[test]
fn float_shape_does_not_decode_as_u32() {
    let bits = 1.5f64.to_bits();
    assert_eq!(as_u32(&Variant::FloatBits(bits)), None);
    assert_eq!(as_u32(&labelled(Variant::FloatBits(bits))), None);
}

#[test]
fn signed_state_is_reinterpreted_unsigned() {
    assert_eq!(as_u32(&labelled(Variant::I32(-1))), Some(0xFFFF_FFFF));
    assert_eq!(as_u32(&Variant::I32(11)), Some(11));
}

#[test]
fn location_enabled_is_exactly_bit_two() {
    let c = cli();
    for (mask, expected) in [(0u32, false), (1, false), (2, false), (4, true), (5, true), (8, false), (11, false), (0xFFFF_FFFF, true)] {
        let results = vec![labelled(Variant::U32(mask))];
        assert_eq!(c.is_location_enabled(&results), expected, "mask {mask}");
    }
    assert!(!c.is_location_enabled(&Vec::new()));
    assert!(!c.is_location_enabled(&vec![Variant::Str("junk".to_string())]));
}

#[test]
fn modem_enabled_is_exactly_bit_three() {
    let c = cli();
    assert!(c.is_modem_enabled(&vec![labelled(Variant::I32(8))]));
    assert!(c.is_modem_enabled(&vec![labelled(Variant::U32(9))]));
    assert!(!c.is_modem_enabled(&vec![labelled(Variant::U32(7))]));
    assert!(c.is_modem_enabled(&vec![labelled(Variant::I32(-1))]));
    assert!(!c.is_modem_enabled(&Vec::new()));
}

#[test]
fn signal_quality_decodes_or_degrades_to_zero() {
    let c = cli();
    assert_eq!(c.get_signal_quality(&vec![labelled(Variant::U32(77))]), 77);
    assert_eq!(c.get_signal_quality(&Vec::new()), 0);
    assert_eq!(c.get_signal_quality(&vec![Variant::List(Vec::new())]), 0);
}

#[test]
fn signal_strength_reads_rsrp_bits() {
    let c = cli();
    let bits = (-104.25f64).to_bits();
    let mapping = Variant::Mapping(vec![
        (Variant::Str("rssi".to_string()), labelled(Variant::FloatBits(2.0f64.to_bits()))),
        (Variant::Str("rsrp".to_string()), labelled(Variant::FloatBits(bits))),
    ]);
    let results = vec![labelled(mapping)];
    assert_eq!(c.get_signal_strength_bits(&results), Some(bits));
    assert_eq!(f64::from_bits(bits) as f32, -104.25f32);
}

#[test]
fn signal_strength_misses_yield_none() {
    let c = cli();
    assert_eq!(c.get_signal_strength_bits(&Vec::new()), None);
    let no_rsrp = Variant::Mapping(vec![(
        Variant::Str("rssi".to_string()),
        labelled(Variant::FloatBits(0)),
    )]);
    assert_eq!(c.get_signal_strength_bits(&vec![labelled(no_rsrp)]), None);
    let wrong_shape = Variant::Mapping(vec![(
        Variant::Str("rsrp".to_string()),
        labelled(Variant::U32(3)),
    )]);
    assert_eq!(c.get_signal_strength_bits(&vec![labelled(wrong_shape)]), None);
}

#[test]
fn location_reads_nmea_index_four() {
    let c = cli();
    let nmea = "$GPGGA,123519,4807.038,N,01131.000,E,1,08,0.9,545.4,M,46.9,M,,*47";
    let responds = vec![Variant::Mapping(vec![
        (Variant::U32(1), labelled(Variant::U32(0))),
        (Variant::U32(4), labelled(Variant::Str(nmea.to_string()))),
    ])];
    assert_eq!(c.get_location(true, &responds), nmea);
}

#[test]
fn location_disabled_yields_empty_string() {
    let c = cli();
    let responds = vec![Variant::Mapping(vec![(
        Variant::U32(4),
        labelled(Variant::Str("$GPGGA,1".to_string())),
    )])];
    assert_eq!(c.get_location(false, &responds), "");
}

#[test]
fn location_misses_yield_empty_string() {
    let c = cli();
    assert_eq!(c.get_location(true, &Vec::new()), "");
    let no_four = vec![Variant::Mapping(vec![(
        Variant::U32(2),
        labelled(Variant::Str("$GPGGA,2".to_string())),
    )])];
    assert_eq!(c.get_location(true, &no_four), "");
    let not_a_string = vec![Variant::Mapping(vec![(Variant::U32(4), labelled(Variant::U32(9)))])];
    assert_eq!(c.get_location(true, &not_a_string), "");
}

#[test]
fn waiting_for_ready_binds_first_nonempty_path() {
    let mut c = cli();
    assert!(!c.is_ready());
    assert!(!c.waiting_for_ready(String::new()));
    assert!(!c.is_ready());
    assert!(c.waiting_for_ready("/org/freedesktop/ModemManager1/Modem/0".to_string()));
    assert!(c.is_ready());
}

#[test]
fn waiting_for_ready_is_idempotent_once_ready() {
    let mut c = cli();
    assert!(c.waiting_for_ready("/org/freedesktop/ModemManager1/Modem/0".to_string()));
    let bound = c.clone();
    assert!(c.waiting_for_ready(String::new()));
    assert!(c.waiting_for_ready("/some/other/path".to_string()));
    assert_eq!(c, bound);
}

#[test]
fn ready_flag_can_be_seeded_by_new() {
    let c = IonModemCli::new(
        "org.freedesktop.ModemManager1".to_string(),
        "/org/freedesktop/ModemManager1".to_string(),
        "/org/freedesktop/ModemManager1/Modem/3".to_string(),
        true,
    );
    assert!(c.is_ready());
}

#[test]
fn default_matches_new_default() {
    assert_eq!(IonModemCli::default(), IonModemCli::new_default());
}

#[test]
fn set_modem_properties_is_a_stub() {
    assert!(!cli().set_modem_properties());
}

#[test]
fn find_modem_path_takes_first_advertising_object() {
    let objects = vec![
        ManagedObject {
            path: "/org/freedesktop/ModemManager1".to_string(),
            interfaces: vec!["org.freedesktop.DBus.ObjectManager".to_string()],
        },
        ManagedObject {
            path: "/org/freedesktop/ModemManager1/Modem/0".to_string(),
            interfaces: vec![
                "org.freedesktop.DBus.Properties".to_string(),
                "org.freedesktop.ModemManager1.Modem".to_string(),
            ],
        },
        ManagedObject {
            path: "/org/freedesktop/ModemManager1/Modem/1".to_string(),
            interfaces: vec!["org.freedesktop.ModemManager1.Modem".to_string()],
        },
    ];
    assert_eq!(find_modem_path(&objects), "/org/freedesktop/ModemManager1/Modem/0");
}

#[test]
fn find_modem_path_without_modem_is_empty() {
    let objects = vec![ManagedObject {
        path: "/org/freedesktop/ModemManager1".to_string(),
        interfaces: vec!["org.freedesktop.DBus.ObjectManager".to_string()],
    }];
    assert_eq!(find_modem_path(&objects), "");
    assert_eq!(find_modem_path(&Vec::new()), "");
}
