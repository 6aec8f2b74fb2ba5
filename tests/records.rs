use chocanon::date::{parse_service_date, CalendarDate};
use chocanon::record::{Consultation, LocationInfo, PersonInfo};

fn location() -> LocationInfo {
    LocationInfo::new("1234 Main st", "Portland", "OR", 56789).unwrap()
}

#[test]
fn person_within_limits_is_accepted() {
    let p = PersonInfo::new("Abcdefghijklmnopqrstuvwxy", 999999999, &location(), "a@b").unwrap();
    assert_eq!(p.name(), "Abcdefghijklmnopqrstuvwxy");
    assert_eq!(p.id(), 999999999);
    assert_eq!(p.email(), "a@b");
    assert_eq!(p.location().city(), "Portland");
    let zero = PersonInfo::new("Zero", 0, &location(), "z@z").unwrap();
    assert_eq!(zero.id(), 0);
}

#[test]
fn person_rejection_names_the_field() {
    let err = PersonInfo::new("Name", 1000000000, &location(), "a@b").unwrap_err();
    assert_eq!(err, "id must be less than or equal to 999999999: 1000000000");
    let err = PersonInfo::new("Abcdefghijklmnopqrstuvwxyz", 1, &location(), "a@b").unwrap_err();
    assert_eq!(err, "name must be less than or equal to 25 characters: Abcdefghijklmnopqrstuvwxyz");
    let err = PersonInfo::new("Name", 1, &location(), "nobody.example").unwrap_err();
    assert_eq!(err, "email does not have an '@' symbol: nobody.example");
}

#[test]
fn location_rejection_names_the_field() {
    let long = "A".repeat(26);
    assert!(LocationInfo::new(&long, "Portland", "OR", 1).unwrap_err().starts_with("address"));
    assert!(LocationInfo::new("Main", "Abcdefghijklmno", "OR", 1).unwrap_err().starts_with("city"));
    assert_eq!(
        LocationInfo::new("Main", "Portland", "ORE", 1).unwrap_err(),
        "state must be equal to 2 characters: ORE"
    );
    assert_eq!(
        LocationInfo::new("Main", "Portland", "OR", 100000).unwrap_err(),
        "zipcode must be less than or equal to 99999: 100000"
    );
    let l = LocationInfo::new("Main", "Abcdefghijklmn", "OR", 99999).unwrap();
    assert_eq!(l.zipcode(), 99999);
    assert_eq!(l.state(), "OR");
}

#[test]
fn service_date_format() {
    let ok = Consultation::new("01-13-2025 07:45:39", "01-13-2025", 1, 2, 3, "");
    assert!(ok.is_ok());
    let err = Consultation::new("01-13-2025 07:45:39", "13-01-2025", 1, 2, 3, "").unwrap_err();
    assert_eq!(err, "service date must match format MM-DD-YYYY: 13-01-2025");
    assert!(Consultation::new("01-13-2025 07:45:39", "01-32-2025", 1, 2, 3, "").is_err());
    assert!(Consultation::new("01-13-2025 07:45:39", "00-10-2025", 1, 2, 3, "").is_err());
    assert!(Consultation::new("01-13-2025 07:45:39", "12-31-2025", 1, 2, 3, "").is_ok());
    let d = parse_service_date("02-29-2024").unwrap();
    assert_eq!((d.year, d.month, d.day), (2024, 2, 29));
    assert!(parse_service_date("2024-02-29").is_none());
}

#[test]
fn consultation_limits() {
    let c99 = "c".repeat(99);
    let c100 = "c".repeat(100);
    assert!(Consultation::new("01-13-2025 07:45:39", "01-13-2025", 1, 2, 3, &c99).is_ok());
    assert!(Consultation::new("01-13-2025 07:45:39", "01-13-2025", 1, 2, 3, &c100)
        .unwrap_err()
        .starts_with("comments"));
    assert_eq!(
        Consultation::new("01-13-2025 07:45", "01-13-2025", 1, 2, 3, "").unwrap_err(),
        "current date time must be equal to 19 characters: 01-13-2025 07:45"
    );
    assert_eq!(
        Consultation::new("01-13-2025 07:45:39", "01-13-2025", 1000000000, 2, 3, "").unwrap_err(),
        "provider_id must be less than or equal to 999999999: 1000000000"
    );
    assert!(Consultation::new("01-13-2025 07:45:39", "01-13-2025", 1, 1000000000, 3, "")
        .unwrap_err()
        .starts_with("member_id"));
    assert_eq!(
        Consultation::new("01-13-2025 07:45:39", "01-13-2025", 1, 2, 1000000, "").unwrap_err(),
        "service_code must be less than or equal to 999999: 1000000"
    );
    let c = Consultation::new("01-13-2025 07:45:39", "01-13-2025", 7, 8, 9, "note").unwrap();
    assert_eq!(
        c.summary(),
        "Current date-time: 01-13-2025 07:45:39\nService date: 01-13-2025\nProvider ID: 7\nMember ID: 8\nService code: 9\nComments: note\n"
    );
}

#[test]
fn decimal_notation() {
    let c = Consultation::new("01-13-2025 07:45:39", "01-13-2025", 0, 999999999, 100, "").unwrap();
    assert!(c.summary().contains("Provider ID: 0\nMember ID: 999999999\nService code: 100\n"));
    let d = CalendarDate { year: 2025, month: 1, day: 13 };
    assert_eq!(d.ordinal_value(), 20250113);
}
