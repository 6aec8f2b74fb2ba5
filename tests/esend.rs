use chocanon::esend::{
    send_manager_report, send_member_report, send_provider_directory, send_provider_report,
    Category,
};

#[test]
fn test_send_member_report() {
    let email = send_member_report("user", "chocanon", "matter", "testst", "God");
    assert!(
        email.category == Category::Member && email.category.folder() == "./emails/member",
        "send member report did not create a file"
    );
    assert_eq!(email.to, "user");
    assert_eq!(email.from, "chocanon");
    assert_eq!(email.subject, "matter");
    assert_eq!(email.body, "testst");
    assert_eq!(email.recipient_name, "God");
}

#[test]
fn test_send_provider_report() {
    let email = send_provider_report("user1", "Chocanon", "consults", "do this", "You");
    assert!(
        email.category == Category::Provider && email.category.folder() == "./emails/provider",
        "send provider report did not create a file"
    );
    assert_eq!(email.body, "do this");
}

#[test]
fn esend_test_send_manager_report() {
    let email = send_manager_report("Provider", "Chocanon", "Serious", "Office NOW!", "You");
    assert!(
        email.category == Category::Manager && email.category.folder() == "./emails/manager",
        "send manager report did not create a file"
    );
    assert_eq!(email.subject, "Serious");
}

#[test]
fn esend_test_send_provider_directory() {
    let email = send_provider_directory("user1", "Chocanon", "consults", "do this", "You");
    assert!(
        email.category == Category::Directory && email.category.folder() == "./emails/provider",
        "send provider directory did not create a file"
    );
    assert_eq!(email.to, "user1");
}

#[test]
fn delivered_file_name_and_text() {
    let email = send_member_report("test_to", "test_from", "test_subject", "test_body", "test_member_email");
    assert_eq!(
        email.file_name("12-01-2025_10:11:12"),
        "./emails/member/test_member_email_12-01-2025_10:11:12.txt"
    );
    assert_eq!(
        email.file_text("2025-12-01 10-11-12"),
        "To: test_to\nFrom: test_from\nSubject: test_subject\nDate: 2025-12-01 10-11-12\n\ntest_body\n\n"
    );
}
