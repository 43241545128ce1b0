use batlimit::battery::{candidate_names, candidate_paths, named_path};
use batlimit::{Action, Battery, BatteryError, Percent, Plan};

fn bat0() -> Battery {
    Battery::new(Some("BAT0"), true, &vec![]).unwrap()
}

const LIMIT_FILE: &str = "/sys/class/power_supply/BAT0/charge_control_end_threshold";

#[test]
fn candidates_in_order() {
    assert_eq!(candidate_names(), vec!["BAT0", "BAT1", "BATT", "BATC"]);
    assert_eq!(
        candidate_paths(),
        vec![
            "/sys/class/power_supply/BAT0",
            "/sys/class/power_supply/BAT1",
            "/sys/class/power_supply/BATT",
            "/sys/class/power_supply/BATC",
        ]
    );
}

#[test]
fn named_battery_is_taken_where_it_exists() {
    let battery = Battery::new(Some("CMB1"), true, &vec![false, false, false, false]).unwrap();
    assert_eq!(battery.path(), "/sys/class/power_supply/CMB1");
    let battery = Battery::new(Some("CMB1"), true, &vec![true, true, true, true]).unwrap();
    assert_eq!(battery.path(), "/sys/class/power_supply/CMB1");
    let battery = Battery::new(Some("BATT"), true, &vec![]).unwrap();
    assert_eq!(battery.path(), "/sys/class/power_supply/BATT");
    assert_eq!(named_path("CMB1"), "/sys/class/power_supply/CMB1");
}

#[test]
fn named_battery_that_is_absent_gives_way_to_a_candidate() {
    let battery = Battery::new(Some("CMB1"), false, &vec![false, true, false, false]).unwrap();
    assert_eq!(battery.path(), "/sys/class/power_supply/BAT1");
}

#[test]
fn named_battery_that_is_absent_is_not_found() {
    assert_eq!(
        Battery::new(Some("CMB1"), false, &vec![false, false, false, false]).unwrap_err(),
        BatteryError::NotFound
    );
    assert_eq!(Battery::new(Some("CMB1"), false, &vec![]).unwrap_err(), BatteryError::NotFound);
}

#[test]
fn empty_name_counts_as_none() {
    let battery = Battery::new(Some(""), true, &vec![false, true, false, false]).unwrap();
    assert_eq!(battery.path(), "/sys/class/power_supply/BAT1");
    let battery = Battery::new(Some(""), false, &vec![false, true, false, false]).unwrap();
    assert_eq!(battery.path(), "/sys/class/power_supply/BAT1");
}

#[test]
fn first_existing_candidate_is_taken() {
    let battery = Battery::new(None, false, &vec![true, true, true, true]).unwrap();
    assert_eq!(battery.path(), "/sys/class/power_supply/BAT0");
    let battery = Battery::new(None, false, &vec![false, false, true, true]).unwrap();
    assert_eq!(battery.path(), "/sys/class/power_supply/BATT");
    let battery = Battery::new(None, true, &vec![false, false, false, true]).unwrap();
    assert_eq!(battery.path(), "/sys/class/power_supply/BATC");
}

#[test]
fn battery_not_found() {
    let error = Battery::new(None, false, &vec![false, false, false, false]).unwrap_err();
    assert_eq!(error, BatteryError::NotFound);
    assert_eq!(error.message(), "Battery not found");
    assert_eq!(Battery::new(None, false, &vec![]).unwrap_err(), BatteryError::NotFound);
    assert_eq!(Battery::new(None, true, &vec![]).unwrap_err(), BatteryError::NotFound);
    assert_eq!(
        Battery::new(Some(""), true, &vec![false, false]).unwrap_err(),
        BatteryError::NotFound
    );
    assert_eq!(
        Battery::new(None, false, &vec![false, false, false, false, true]).unwrap_err(),
        BatteryError::NotFound
    );
}

#[test]
fn attribute_files_of_the_battery() {
    let battery = bat0();
    assert_eq!(battery.limit_path(), LIMIT_FILE);
    assert_eq!(
        battery.start_path(),
        "/sys/class/power_supply/BAT0/charge_control_start_threshold"
    );
    let paths = battery.attribute_paths();
    assert_eq!(paths.len(), 16);
    assert_eq!(paths[0], "/sys/class/power_supply/BAT0/manufacturer");
    assert_eq!(paths[5], "/sys/class/power_supply/BAT0/charge_full");
    assert_eq!(paths[15], LIMIT_FILE);
}

#[test]
fn limit_is_read_from_its_file() {
    let battery = bat0();
    assert_eq!(battery.get_limit(Some("80\n")), Ok(Percent(80)));
    assert_eq!(battery.get_limit(Some("  1 ")), Ok(Percent(1)));
    assert_eq!(battery.get_limit(Some("99")), Ok(Percent(99)));
}

#[test]
fn unreadable_limit_names_the_file() {
    let error = bat0().get_limit(None).unwrap_err();
    assert_eq!(error, BatteryError::Unreadable { path: LIMIT_FILE.to_string() });
    assert_eq!(error.message(), format!("Failed to read from {}", LIMIT_FILE));
}

#[test]
fn unparseable_limit_names_the_file() {
    let battery = bat0();
    for text in ["100\n", "0", "", "\n", "eighty", "8 0"] {
        let error = battery.get_limit(Some(text)).unwrap_err();
        assert_eq!(error, BatteryError::InvalidLimit { path: LIMIT_FILE.to_string() });
        assert_eq!(
            error.message(),
            format!(
                "Failed to parse battery limit from {}: Percent must be a number between 1 and 99",
                LIMIT_FILE
            )
        );
    }
}

#[test]
fn limit_change_is_reported() {
    let plan = bat0().limit(Some("60\n"), &Percent(80)).unwrap();
    assert_eq!(
        plan,
        Plan {
            actions: vec![Action::Write {
                path: LIMIT_FILE.to_string(),
                content: "80".to_string()
            }],
            message: "\x1b[1;31m60\x1b[0m% -> \x1b[1;32m80\x1b[0m%".to_string(),
        }
    );
}

#[test]
fn unchanged_limit_is_written_and_reported() {
    let plan = bat0().limit(Some("80\n"), &Percent(80)).unwrap();
    assert_eq!(
        plan,
        Plan {
            actions: vec![Action::Write {
                path: LIMIT_FILE.to_string(),
                content: "80".to_string()
            }],
            message: "Unchanged: \x1b[1;32m80\x1b[0m%".to_string(),
        }
    );
}

#[test]
fn limit_is_not_set_when_the_old_one_cannot_be_read() {
    assert_eq!(
        bat0().limit(None, &Percent(80)),
        Err(BatteryError::Unreadable { path: LIMIT_FILE.to_string() })
    );
    assert_eq!(
        bat0().limit(Some("100"), &Percent(80)),
        Err(BatteryError::InvalidLimit { path: LIMIT_FILE.to_string() })
    );
}

#[test]
fn clear_writes_one_hundred() {
    assert_eq!(
        bat0().clear(),
        Plan {
            actions: vec![Action::Write {
                path: LIMIT_FILE.to_string(),
                content: "100".to_string()
            }],
            message: "Cleared charge limit".to_string(),
        }
    );
}

#[test]
fn commands_of_the_actions() {
    let write = Action::Write { path: "/a".to_string(), content: "x".to_string() };
    assert_eq!(write.command(), vec!["tee", "/a"]);
    let enable = Action::Enable { unit: "batlimit-sleep.service".to_string() };
    assert_eq!(
        enable.command(),
        vec!["systemctl", "enable", "--now", "batlimit-sleep.service", "--quiet"]
    );
    let disable = Action::Disable { unit: "batlimit-sleep.service".to_string() };
    assert_eq!(
        disable.command(),
        vec!["systemctl", "disable", "--now", "batlimit-sleep.service", "--quiet"]
    );
    let remove = Action::Remove { path: "/a".to_string() };
    assert_eq!(remove.command(), vec!["rm", "/a"]);
}
