use bus_stop_display::special_service_entry::{
    find_special_service_entry, SpecialServiceEntry, SpecialServiceType,
};

#[test]
fn test_decode_special_service_entry() {
    let data = [0xEA, 0x07, 0x05, 0x19, 0x01]; // 2026-05-25
    let entry = SpecialServiceEntry::try_read_from_bytes(&data).unwrap();
    assert_eq!(entry.year, 2026);
    assert_eq!(entry.month, 5);
    assert_eq!(entry.day, 25);
    assert_eq!(entry.service_type(), SpecialServiceType::Saturday);
    assert!(entry.is_active_on(2026, 5, 25));
    assert!(!entry.is_active_on(2026, 5, 26));
}

#[test]
fn test_special_service_entry_size() {
    assert_eq!(SpecialServiceEntry::SIZE, 5);
}

#[test]
fn test_find_special_service_entry() {
    let data = [
        0xEA, 0x07, 0x05, 0x19, 0x01, // 2026-05-25
        0xEB, 0x07, 0x06, 0x20, 0x02, // 2027-06-32 (invalid date but for testing)
    ];
    let entry = find_special_service_entry(&data, 2026, 5, 25).unwrap();
    assert_eq!(entry.year, 2026);
    assert_eq!(entry.month, 5);
    assert_eq!(entry.day, 25);
    assert_eq!(entry.service_type(), SpecialServiceType::Saturday);

    let entry = find_special_service_entry(&data, 2027, 6, 32).unwrap();
    assert_eq!(entry.year, 2027);
    assert_eq!(entry.month, 6);
    assert_eq!(entry.day, 32);
    assert_eq!(entry.service_type(), SpecialServiceType::Sunday);

    let entry = find_special_service_entry(&data, 2028, 1, 1);
    assert!(entry.is_none());
}

#[test]
fn service_type_codes() {
    let kind = |code: u8| {
        SpecialServiceEntry::try_read_from_bytes(&[0xEA, 0x07, 1, 1, code])
            .unwrap()
            .service_type()
    };
    assert_eq!(kind(0), SpecialServiceType::Weekday);
    assert_eq!(kind(1), SpecialServiceType::Saturday);
    assert_eq!(kind(2), SpecialServiceType::Sunday);
    assert_eq!(kind(3), SpecialServiceType::Unknown(3));
    assert_eq!(kind(255), SpecialServiceType::Unknown(255));
}

#[test]
fn try_read_from_bytes_needs_exactly_one_entry() {
    assert!(SpecialServiceEntry::try_read_from_bytes(&[0xEA, 0x07, 5, 25]).is_none());
    assert!(SpecialServiceEntry::try_read_from_bytes(&[0xEA, 0x07, 5, 25, 1, 0]).is_none());
    assert!(SpecialServiceEntry::try_read_from_bytes(&[]).is_none());
}

#[test]
fn year_is_read_little_endian() {
    let entry = SpecialServiceEntry::try_read_from_bytes(&[0x07, 0xEA, 1, 1, 0]).unwrap();
    assert_eq!(entry.year, 0xEA07);
    assert!(!entry.is_active_on(2026, 1, 1));
}

#[test]
fn find_returns_first_entry_for_the_date() {
    let data = [
        0xEA, 0x07, 0x05, 0x19, 0x02, // 2026-05-25, Sunday service
        0xEA, 0x07, 0x05, 0x19, 0x01, // 2026-05-25 again, Saturday service
    ];
    let entry = find_special_service_entry(&data, 2026, 5, 25).unwrap();
    assert_eq!(entry.service_type(), SpecialServiceType::Sunday);
}

#[test]
fn find_in_short_or_empty_tables() {
    assert!(find_special_service_entry(&[], 2026, 5, 25).is_none());
    // Trailing bytes that do not fill an entry are not read.
    assert!(find_special_service_entry(&[0xEA, 0x07, 0x05, 0x19], 2026, 5, 25).is_none());
    let data = [0xEA, 0x07, 0x05, 0x19, 0x00, 0xEB];
    let entry = find_special_service_entry(&data, 2026, 5, 25).unwrap();
    assert_eq!(entry.service_type(), SpecialServiceType::Weekday);
}
