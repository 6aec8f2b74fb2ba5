use chocanon::db::{Error, DB};
use chocanon::record::{Consultation, LocationInfo, PersonInfo};

fn get_a_person() -> PersonInfo {
    let location = LocationInfo::new("1234 Main st", "Portland", "OR", 56789).unwrap();
    PersonInfo::new("Timmy Smith", 123456789, &location, "timmmy@pdx.edu").unwrap()
}

fn create_a_unique_person(name: &str, id: u32) -> PersonInfo {
    let location = LocationInfo::new("1234 Main st", "Portland", "OR", 56789).unwrap();
    let email = format!("{}@pdx.edu", name);
    PersonInfo::new(name, id, &location, &email).unwrap()
}

/// Creates a consultation with a date of yesterday.
fn create_a_unique_consultation(member_id: u32, provider_id: u32) -> Consultation {
    let date = (chrono::Local::now() - chrono::Duration::days(1)).format("%m-%d-%Y").to_string();
    let date_time = (chrono::Local::now() - chrono::Duration::days(1))
        .format("%m-%d-%Y %H:%M:%S")
        .to_string();
    Consultation::new(
        &date_time,
        &date,
        provider_id,
        member_id,
        123456,
        "This is a comment created by create_a_unique_consultation",
    )
    .unwrap()
}

fn get_a_consultation() -> Consultation {
    Consultation::new(
        "01-13-2025 03:45:25",
        "01-13-2025",
        123456789,
        987654321,
        123456,
        "This is a comment for a consultation create by 
            get_a_consultation.",
    )
    .unwrap()
}

#[test]
fn test_consultation_constructor() {
    match Consultation::new(
        "01-13-2025:07:45:39",
        "01-13-2025",
        123456789,
        123456789,
        123456,
        "This is a comment",
    ) {
        Ok(_) => (),
        Err(err) => panic!("test_consultation_constructor() ERROR: {}", err),
    }
    match Consultation::new(
        "01-13-2025:07:45:39",
        "01_13-2025",
        123456789,
        123456789,
        123456,
        "This is a comment",
    ) {
        Ok(_) => panic!("Invalid format should give an error"),
        Err(_) => (),
    }
}

#[test]
fn test_send_member_reports() {
    let mut db = DB::new();
    db.add_service(123456, "ServiceName123456", 9999).unwrap();
    db.add_member(&create_a_unique_person("MemberName1", 1)).unwrap();
    db.add_member(&create_a_unique_person("MemberName2", 2)).unwrap();
    db.add_member(&create_a_unique_person("MemberName3", 3)).unwrap();
    db.add_member(&create_a_unique_person("MemberName4", 4)).unwrap();
    db.add_provider(&create_a_unique_person("ProviderName1", 61)).unwrap();
    db.add_provider(&create_a_unique_person("ProviderName2", 62)).unwrap();
    db.add_consultation_record(&create_a_unique_consultation(1, 61)).unwrap();
    db.add_consultation_record(&create_a_unique_consultation(2, 61)).unwrap();
    db.add_consultation_record(&create_a_unique_consultation(2, 61)).unwrap();
    db.add_consultation_record(&create_a_unique_consultation(3, 61)).unwrap();
    db.add_consultation_record(&create_a_unique_consultation(3, 61)).unwrap();
    db.add_consultation_record(&create_a_unique_consultation(3, 61)).unwrap();
    match db.send_member_reports() {
        Ok(reports) => assert_eq!(reports.len(), 3),
        Err(err) => panic!("send_member_reports() ERROR: {:?}", err),
    }
}

#[test]
fn test_send_provider_reports() {
    let mut db = DB::new();
    db.add_service(123456, "ServiceName123456", 9999).unwrap();
    db.add_member(&create_a_unique_person("MemberName1", 1)).unwrap();
    db.add_member(&create_a_unique_person("MemberName2", 2)).unwrap();
    db.add_member(&create_a_unique_person("MemberName3", 3)).unwrap();
    db.add_member(&create_a_unique_person("MemberName4", 4)).unwrap();
    db.add_provider(&create_a_unique_person("ProviderName1", 61)).unwrap();
    db.add_provider(&create_a_unique_person("ProviderName2", 62)).unwrap();
    db.add_consultation_record(&create_a_unique_consultation(1, 61)).unwrap();
    db.add_consultation_record(&create_a_unique_consultation(2, 61)).unwrap();
    db.add_consultation_record(&create_a_unique_consultation(2, 61)).unwrap();
    db.add_consultation_record(&create_a_unique_consultation(3, 61)).unwrap();
    db.add_consultation_record(&create_a_unique_consultation(3, 62)).unwrap();
    db.add_consultation_record(&create_a_unique_consultation(3, 62)).unwrap();
    match db.send_provider_reports() {
        Ok(reports) => assert_eq!(reports.len(), 2),
        Err(err) => panic!("send_provider_reports() ERROR: {:?}", err),
    }
}

#[test]
fn db_test_send_manager_report() {
    let mut db = DB::new();
    db.add_consultation_record(&create_a_unique_consultation(1, 1)).unwrap();
    db.add_consultation_record(&create_a_unique_consultation(2, 2)).unwrap();
    db.add_consultation_record(&create_a_unique_consultation(3, 3)).unwrap();
    db.add_consultation_record(&create_a_unique_consultation(4, 4)).unwrap();
    db.add_consultation_record(&create_a_unique_consultation(5, 5)).unwrap();
    match db.send_manager_report() {
        Ok(report) => assert_eq!(report.body.matches("Current date-time: ").count(), 5),
        Err(err) => panic!("send_manager_report() ERROR: {:?}", err),
    }
}

#[test]
fn db_test_send_provider_directory() {
    let mut db = DB::new();
    db.add_service(111112, "Therapy2", 2099).unwrap();
    db.add_service(111111, "Therapy1", 1099).unwrap();
    db.add_service(111113, "Therapy3", 3099).unwrap();
    let listing = db.send_provider_directory("providername@pdx.edu").unwrap();
    assert_eq!(
        listing.body,
        "Therapy1, ID: 111111, Fee: 10.99\nTherapy2, ID: 111112, Fee: 20.99\nTherapy3, ID: 111113, Fee: 30.99\n"
    );
    assert_eq!(listing.to, "providername@pdx.edu");
}

#[test]
fn test_is_valid_member_id() {
    let mut db = DB::new();
    db.add_member(&create_a_unique_person("MemberName", 1)).unwrap();
    db.add_member(&create_a_unique_person("MemberName", 2)).unwrap();
    db.add_member(&create_a_unique_person("MemberName", 123456789)).unwrap();
    match db.is_valid_member_id(1) {
        Ok(valid) => {
            if !valid {
                panic!("Id should be valid")
            }
        }
        Err(err) => panic!("is_valid_member_id() ERROR: {:?}", err),
    }
    match db.is_valid_member_id(2) {
        Ok(valid) => {
            if !valid {
                panic!("Id should be valid")
            }
        }
        Err(err) => panic!("is_valid_member_id() ERROR: {:?}", err),
    }
    match db.is_valid_member_id(123456789) {
        Ok(valid) => {
            if !valid {
                panic!("Id should be valid")
            }
        }
        Err(err) => panic!("is_valid_member_id() ERROR: {:?}", err),
    }
    match db.is_valid_member_id(666666666) {
        Ok(exists) => {
            if exists {
                panic!("Member id should be invalid.");
            }
        }
        Err(_) => (),
    }
}

#[test]
fn test_is_valid_provider_id() {
    let mut db = DB::new();
    db.add_provider(&create_a_unique_person("ProviderName", 1)).unwrap();
    db.add_provider(&create_a_unique_person("ProviderName", 2)).unwrap();
    db.add_provider(&create_a_unique_person("ProviderName", 123456789)).unwrap();
    match db.is_valid_provider_id(1) {
        Ok(valid) => {
            if !valid {
                panic!("Id should be valid")
            }
        }
        Err(err) => panic!("is_valid_provider_id() ERROR: {:?}", err),
    }
    match db.is_valid_provider_id(2) {
        Ok(valid) => {
            if !valid {
                panic!("Id should be valid")
            }
        }
        Err(err) => panic!("is_valid_provider_id() ERROR: {:?}", err),
    }
    match db.is_valid_provider_id(123456789) {
        Ok(valid) => {
            if !valid {
                panic!("Id should be valid")
            }
        }
        Err(err) => panic!("is_valid_provider_id() ERROR: {:?}", err),
    }
    match db.is_valid_provider_id(666666666) {
        Ok(exists) => {
            if exists {
                panic!("Provider id should be invalid.");
            }
        }
        Err(_) => (),
    }
}

#[test]
fn test_is_valid_service_id() {
    let mut db = DB::new();
    db.add_service(1, "Therapy1", 9999).unwrap();
    db.add_service(2, "Therapy2", 9999).unwrap();
    db.add_service(123456, "Therapy3", 9999).unwrap();
    match db.is_valid_service_id(1) {
        Ok(valid) => {
            if !valid {
                panic!("Id should be valid")
            }
        }
        Err(err) => panic!("is_valid_service_id() ERROR: {:?}", err),
    }
    match db.is_valid_service_id(2) {
        Ok(valid) => {
            if !valid {
                panic!("Id should be valid")
            }
        }
        Err(err) => panic!("is_valid_service_id() ERROR: {:?}", err),
    }
    match db.is_valid_service_id(123456) {
        Ok(valid) => {
            if !valid {
                panic!("Id should be valid")
            }
        }
        Err(err) => panic!("is_valid_service_id() ERROR: {:?}", err),
    }
    match db.is_valid_service_id(666666666) {
        Ok(valid) => {
            if valid {
                panic!("Id should be invalid.");
            }
        }
        Err(_) => (),
    }
}

#[test]
fn test_add_member() {
    let mut db = DB::new();
    let person = get_a_person();
    match db.add_member(&person) {
        Ok(_) => (),
        Err(err) => panic!("add_member() ERROR: {:?}", err),
    }
    match db.add_member(&person) {
        Ok(_) => panic!("Member should already exist and not be added."),
        Err(_) => (),
    }
}

#[test]
fn test_add_provider() {
    let mut db = DB::new();
    let person = get_a_person();
    match db.add_provider(&person) {
        Ok(_) => (),
        Err(err) => panic!("add_provider() ERROR: {:?}", err),
    }
    match db.add_provider(&person) {
        Ok(_) => panic!("Provider should already exist and not be added."),
        Err(_) => (),
    }
}

#[test]
fn test_remove_member() {
    let mut db = DB::new();
    match db.remove_member(123456789) {
        Ok(_) => panic!("Member should not exist and not be able to be removed."),
        Err(_) => (),
    }
    db.add_member(&create_a_unique_person("MemberName", 123456789)).unwrap();
    match db.remove_member(123456789) {
        Ok(_) => (),
        Err(err) => panic!("remove_member() ERROR: {:?}", err),
    }
}

#[test]
fn test_remove_provider() {
    let mut db = DB::new();
    match db.remove_provider(123456789) {
        Ok(_) => panic!("Provider should not exist and not be able to be removed."),
        Err(_) => (),
    }
    db.add_provider(&create_a_unique_person("ProviderName", 123456789)).unwrap();
    match db.remove_provider(123456789) {
        Ok(_) => (),
        Err(err) => panic!("remove_provider() ERROR: {:?}", err),
    }
}

#[test]
fn test_add_consultation_record() {
    let mut db = DB::new();
    let consul = get_a_consultation();
    match db.add_consultation_record(&consul) {
        Ok(_) => (),
        Err(err) => panic!("add_consultation_record() ERROR: {:?}", err),
    }
}

#[test]
fn test_add_service() {
    let mut db = DB::new();
    db.add_service(123456, "Service1", 9999).unwrap();
    match db.add_service(123456, "Serv", 9999) {
        Ok(_) => panic!("Error expected for duplicate ID."),
        Err(_) => (),
    }
    match db.add_service(222222, "", 9999) {
        Ok(_) => panic!("Error expected for empty name."),
        Err(_) => (),
    }
}

#[test]
fn test_get_service_name() {
    let mut db = DB::new();
    match db.get_service_name(123456) {
        Ok(_) => panic!("Error expected on empty database"),
        Err(_) => (),
    }
    db.add_service(123456, "Service1", 9999).unwrap();
    let name = db.get_service_name(123456).unwrap();
    if name != "Service1" {
        panic!("Name should match for retrieved name.");
    }
}

#[test]
fn test_get_member_info() {
    let mut db = DB::new();
    match db.add_member(&create_a_unique_person("PersonName", 123456789)) {
        Ok(_) => (),
        Err(err) => panic!("add_member() ERROR: {:?}", err),
    }
    match db.get_member_info(123456789) {
        Ok(info) => {
            assert_eq!(info.name(), "PersonName");
            assert_eq!(info.id(), 123456789);
        }
        Err(err) => panic!("get_member_info() ERROR: {:?}", err),
    }
    match db.get_member_info(777777777) {
        Ok(_) => panic!("Member info should give error when member does not exist"),
        Err(_) => (),
    }
}

#[test]
fn test_get_provider_info() {
    let mut db = DB::new();
    match db.add_provider(&create_a_unique_person("PersonName", 123456789)) {
        Ok(_) => (),
        Err(err) => panic!("add_provider() ERROR: {:?}", err),
    }
    match db.get_provider_info(123456789) {
        Ok(info) => {
            assert_eq!(info.name(), "PersonName");
            assert_eq!(info.id(), 123456789);
        }
        Err(err) => panic!("get_provider_info() ERROR: {:?}", err),
    }
    match db.get_provider_info(777777777) {
        Ok(_) => panic!("Provider info should give error when member does not exist"),
        Err(_) => (),
    }
}

#[test]
fn add_service_error_variants() {
    let mut db = DB::new();
    assert_eq!(db.add_service(1, "", 100), Err(Error::EmptyInput));
    assert_eq!(db.add_service(1000000, "Big", 100), Err(Error::OutOfRange));
    assert_eq!(db.add_service(999999, "Largest", 100), Ok(()));
    assert_eq!(db.add_service(999999, "Again", 100), Err(Error::DuplicateId));
    assert_eq!(db.get_service_name(999999).unwrap(), "Largest");
    assert_eq!(db.get_service_fee(999999), Ok(100));
    assert_eq!(db.get_service_fee(5), Err(Error::NotFound));
}
