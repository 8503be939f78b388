use uqgrd::grades::DetailActivity;
use uqgrd::notify::{alert_subject, alert_text, format_percent, mail_config, recipient_address, NotifyError};

#[test]
fn percent_has_two_decimals() {
    assert_eq!(format_percent(75_000), "75.00%");
    assert_eq!(format_percent(78_500), "78.50%");
}

#[test]
fn percent_rounds_to_hundredths() {
    assert_eq!(format_percent(78_504), "78.50%");
    assert_eq!(format_percent(78_505), "78.51%");
    assert_eq!(format_percent(5), "0.01%");
    assert_eq!(format_percent(0), "0.00%");
    assert_eq!(format_percent(-1_250), "-1.25%");
    assert_eq!(format_percent(100_000), "100.00%");
}

#[test]
fn recipient_is_institution_address() {
    assert_eq!(recipient_address("ABCD12345678"), "ABCD12345678@uqam.ca");
}

#[test]
fn subject_names_course() {
    assert_eq!(alert_subject("INF3173"), "UQAM Grade Update: INF3173");
}

#[test]
fn alert_body_with_grade() {
    let d = DetailActivity { total: Some(75_000), note: Some("B".to_string()) };
    assert_eq!(
        alert_text("INF3173", "Systèmes", &d),
        "New grade detected!\n\nCourse: INF3173 - Systèmes\nGrade: B\nTotal: 75.00%\n\nCheck here: https://monportail.uqam.ca"
    );
}

#[test]
fn alert_body_without_grade() {
    let d = DetailActivity { total: None, note: None };
    assert_eq!(
        alert_text("INF1120", "Programmation", &d),
        "New grade detected!\n\nCourse: INF1120 - Programmation\nGrade: N/A\nTotal: N/A\n\nCheck here: https://monportail.uqam.ca"
    );
}

#[test]
fn missing_sender_is_an_error() {
    assert!(mail_config(None, Some("p".to_string()), None).err() == Some(NotifyError::MissingUsername));
    assert!(mail_config(Some("u".to_string()), None, None).err() == Some(NotifyError::MissingPassword));
}

#[test]
fn relay_host_defaults() {
    let c = mail_config(Some("u@x".to_string()), Some("pw".to_string()), None).ok().unwrap();
    assert_eq!(c.host, "smtp.gmail.com");
    assert_eq!(c.username, "u@x");
    assert_eq!(c.password, "pw");
    let c = mail_config(Some("u".to_string()), Some("p".to_string()), Some("relay.example".to_string()))
        .ok()
        .unwrap();
    assert_eq!(c.host, "relay.example");
}
