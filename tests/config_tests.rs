use uqgrd::config::{interval_minutes, interval_seconds, parse_u64, Config, PasswordSource};
use uqgrd::menu::{menu_options, resolve_selection, MenuOption};
use uqgrd::portal::{Programme, SemesterResult};

#[test]
fn interval_defaults_to_sixty() {
    assert_eq!(interval_minutes(None), 60);
    assert_eq!(interval_minutes(Some("abc")), 60);
    assert_eq!(interval_minutes(Some("")), 60);
    assert_eq!(interval_minutes(Some("-5")), 60);
    assert_eq!(interval_minutes(Some(" 5")), 60);
    assert_eq!(interval_minutes(Some("15")), 15);
    assert_eq!(interval_minutes(Some("+15")), 15);
}

#[test]
fn parse_matches_std() {
    for s in ["0", "007", "18446744073709551615", "18446744073709551616", "+", "+1", "1a", "", "99999999999999999999"] {
        assert_eq!(parse_u64(s), s.parse::<u64>().ok(), "{}", s);
    }
}

#[test]
fn interval_seconds_saturate() {
    assert_eq!(interval_seconds(60), 3600);
    assert_eq!(interval_seconds(u64::MAX), u64::MAX);
}

#[test]
fn password_kept_in_file_only_when_unencrypted() {
    let plain = Config::for_storage("user", "secret", true);
    assert_eq!(plain.username, "user");
    assert_eq!(plain.password.as_deref(), Some("secret"));
    match plain.password_source() {
        PasswordSource::File(p) => assert_eq!(p, "secret"),
        PasswordSource::Keyring => panic!("expected the file"),
    }
    let secure = Config::for_storage("user", "secret", false);
    assert!(secure.password.is_none());
    assert!(matches!(secure.password_source(), PasswordSource::Keyring));
}

fn programme(title: &str) -> Programme {
    Programme { code_prog: "1".to_string(), titre_programme: title.to_string(), activites: vec![] }
}

#[test]
fn menu_lists_each_program() {
    let history = vec![
        SemesterResult { trimestre: 20251, programmes: vec![programme("Informatique"), programme("Mineure")] },
        SemesterResult { trimestre: 20243, programmes: vec![programme("Informatique")] },
    ];
    let opts = menu_options(&history);
    let labels: Vec<&str> = opts.iter().map(|o| o.label.as_str()).collect();
    assert_eq!(labels, vec!["Hiver 2025 - Informatique", "Hiver 2025 - Mineure", "Automne 2024 - Informatique"]);
    assert_eq!(opts[1].program_index, 1);
    assert_eq!(opts[2].semester_code, 20243);
    assert_eq!(resolve_selection(&history, &opts[1]), Some((0, 1)));
    assert_eq!(resolve_selection(&history, &opts[2]), Some((1, 0)));
    let stray = MenuOption { label: String::new(), semester_code: 20252, program_index: 0 };
    assert_eq!(resolve_selection(&history, &stray), None);
    let out_of_range = MenuOption { label: String::new(), semester_code: 20243, program_index: 3 };
    assert_eq!(resolve_selection(&history, &out_of_range), None);
}

#[test]
fn empty_history_has_no_options() {
    assert!(menu_options(&vec![]).is_empty());
}
