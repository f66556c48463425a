use notch::battery::{battery_icon, icon, percentage, SupplyReading};

fn reading(capacity: Option<&str>, status: Option<&str>) -> SupplyReading {
    SupplyReading {
        capacity: capacity.map(|c| c.to_string()),
        status: status.map(|s| s.to_string()),
    }
}

#[test]
fn battery_icon_bands() {
    assert_eq!(battery_icon(0), "\u{f007a}");
    assert_eq!(battery_icon(10), "\u{f007a}");
    assert_eq!(battery_icon(11), "\u{f007b}");
    assert_eq!(battery_icon(20), "\u{f007b}");
    assert_eq!(battery_icon(21), "\u{f007c}");
    assert_eq!(battery_icon(35), "\u{f007d}");
    assert_eq!(battery_icon(50), "\u{f007e}");
    assert_eq!(battery_icon(55), "\u{f007f}");
    assert_eq!(battery_icon(70), "\u{f0080}");
    assert_eq!(battery_icon(71), "\u{f0081}");
    assert_eq!(battery_icon(90), "\u{f0082}");
    assert_eq!(battery_icon(91), "\u{f0079}");
    assert_eq!(battery_icon(100), "\u{f0079}");
    assert_eq!(battery_icon(u32::MAX), "\u{f0079}");
}

#[test]
fn percentage_takes_first_readable_supply() {
    let supplies = vec![
        reading(None, Some("Charging")),
        reading(Some("abc\n"), None),
        reading(Some(" 57\n"), None),
        reading(Some("12\n"), None),
    ];
    assert_eq!(percentage(&supplies), "57%");
}

#[test]
fn percentage_without_battery() {
    assert_eq!(percentage(&vec![]), "--");
    let supplies = vec![reading(None, None), reading(Some(""), None), reading(Some("-5"), None)];
    assert_eq!(percentage(&supplies), "--");
}

#[test]
fn percentage_reads_like_u32_parse() {
    assert_eq!(percentage(&vec![reading(Some("+042\n"), None)]), "42%");
    assert_eq!(percentage(&vec![reading(Some("0"), None)]), "0%");
    assert_eq!(percentage(&vec![reading(Some("\t4294967295 "), None)]), "4294967295%");
    // one past u32::MAX, a lone sign and inner blanks are refused
    let refused = vec![
        reading(Some("4294967296"), None),
        reading(Some("+"), None),
        reading(Some("4 2"), None),
    ];
    assert_eq!(percentage(&refused), "--");
    // trimming follows Unicode white space, not only ASCII
    assert_eq!(percentage(&vec![reading(Some("\u{3000}83\u{a0}"), None)]), "83%");
}

#[test]
fn icon_follows_status_of_first_battery() {
    let charging = vec![reading(Some("40\n"), Some("Charging\n"))];
    assert_eq!(icon(&charging), "\u{f0084}");
    let full = vec![reading(Some("100\n"), Some("  FULL\n"))];
    assert_eq!(icon(&full), "\u{f0079}");
    let discharging = vec![reading(Some("5\n"), Some("Discharging\n"))];
    assert_eq!(icon(&discharging), "\u{f007a}");
    let no_status = vec![reading(Some("95\n"), None)];
    assert_eq!(icon(&no_status), "\u{f0079}");
    let not_quite = vec![reading(Some("65\n"), Some("chargingx"))];
    assert_eq!(icon(&not_quite), "\u{f0080}");
}

#[test]
fn icon_skips_supplies_without_level() {
    let supplies = vec![
        reading(Some("n/a"), Some("Charging")),
        reading(Some("33"), Some("Not charging")),
    ];
    assert_eq!(icon(&supplies), "\u{f007d}");
}

#[test]
fn icon_without_battery() {
    assert_eq!(icon(&vec![]), "\u{f0083}");
    assert_eq!(icon(&vec![reading(None, Some("Full"))]), "\u{f0083}");
}

#[test]
fn readouts_agree_on_missing_battery() {
    let cases = vec![
        vec![],
        vec![reading(None, None)],
        vec![reading(Some("x"), Some("Full"))],
        vec![reading(Some("7"), Some("Full"))],
        vec![reading(Some("7"), None)],
    ];
    for supplies in cases {
        let none = percentage(&supplies) == "--";
        assert_eq!(none, icon(&supplies) == "\u{f0083}");
    }
}

#[test]
fn percentage_reads_back_written_level() {
    for v in [0u32, 7, 10, 99, 100, 65535, u32::MAX] {
        let supplies = vec![reading(Some(&format!("{v}\n")), None)];
        assert_eq!(percentage(&supplies), format!("{v}%"));
    }
}
