use screenwatchman::config::{check_time, check_window, is_outside_hours, set_config, CheckReport, Config};
use screenwatchman::store::Stored;
use screenwatchman::text::text_less;

fn night() -> Config {
    set_config("23:00", "07:00")
}

#[test]
fn late_night_is_outside() {
    let r = check_window(&"23:30".to_string(), &Stored::Present(night()));
    match r {
        CheckReport::Outside { now, sleep_time, wake_time } => {
            assert_eq!(now, "23:30");
            assert_eq!(sleep_time, "23:00");
            assert_eq!(wake_time, "07:00");
        }
        other => panic!("expected outside, got {:?}", other),
    }
}

#[test]
fn noon_is_within() {
    let r = check_window(&"12:00".to_string(), &Stored::Present(night()));
    match r {
        CheckReport::Within { now } => assert_eq!(now, "12:00"),
        other => panic!("expected within, got {:?}", other),
    }
}

#[test]
fn missing_config_asks_for_set() {
    assert!(matches!(check_window(&"12:00".to_string(), &Stored::Missing), CheckReport::NoConfig));
}

#[test]
fn corrupt_config_is_reported() {
    assert!(matches!(check_window(&"12:00".to_string(), &Stored::Corrupt), CheckReport::Unreadable));
}

#[test]
fn window_bounds() {
    let c = night();
    assert!(is_outside_hours("23:00", &c));
    assert!(is_outside_hours("00:00", &c));
    assert!(is_outside_hours("06:59", &c));
    assert!(!is_outside_hours("07:00", &c));
    assert!(!is_outside_hours("22:59", &c));
}

#[test]
fn same_day_window_flags_everything_outside_the_gap() {
    let c = set_config("09:00", "17:00");
    assert!(is_outside_hours("12:00", &c));
    assert!(is_outside_hours("08:00", &c));
    assert!(is_outside_hours("18:00", &c));
}

#[test]
fn set_config_keeps_text_verbatim() {
    let c = set_config(" 23:00 ", "7am");
    assert_eq!(c.sleep_time, " 23:00 ");
    assert_eq!(c.wake_time, "7am");
    let e = set_config("", "");
    assert_eq!(e.sleep_time, "");
    assert_eq!(e.wake_time, "");
}

#[test]
fn text_order_is_lexicographic() {
    assert!(text_less("07:00", "23:00"));
    assert!(!text_less("23:00", "07:00"));
    assert!(!text_less("12:00", "12:00"));
    assert!(text_less("12", "12:00"));
    assert!(!text_less("12:00", "12"));
    assert!(text_less("", "a"));
    assert!(!text_less("", ""));
    assert!(text_less("9:00", "é"));
    assert!(text_less("ab", "b"));
}

#[test]
fn check_time_reads_the_clock() {
    match check_time(&Stored::Present(set_config("99:99", "00:00"))) {
        CheckReport::Within { now } => {
            let b = now.as_bytes();
            assert_eq!(b.len(), 5);
            assert_eq!(b[2], b':');
            assert!(b[0].is_ascii_digit() && b[1].is_ascii_digit());
            assert!(b[3].is_ascii_digit() && b[4].is_ascii_digit());
            assert!(now.as_str() < "24:00");
        }
        other => panic!("expected within, got {:?}", other),
    }
    assert!(matches!(check_time(&Stored::Missing), CheckReport::NoConfig));
    assert!(matches!(check_time(&Stored::Corrupt), CheckReport::Unreadable));
}
