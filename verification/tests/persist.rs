use batlimit::persist::install_unit;
use batlimit::template::{render, UNIT_TEMPLATE};
use batlimit::unit::{
    agree, limit_pattern_text, locate_unit, name_unit, read_capture, read_unit, target_names,
    unit_paths, Reading,
};
use batlimit::{Action, Battery, BatteryError, Percent};

const TARGETS: [&str; 6] =
    ["hibernate", "hybrid-sleep", "multi-user", "sleep", "suspend", "suspend-then-hibernate"];

fn battery(name: &str) -> Battery {
    Battery::new(Some(name), true, &vec![]).unwrap()
}

fn unit_text(name: &str, target: &str, limit: u8, start: Option<u8>) -> String {
    let start = match start {
        Some(level) => format!(
            "echo {} >/sys/class/power_supply/{}/charge_control_start_threshold; ",
            level, name
        ),
        None => String::new(),
    };
    format!(
        "[Unit]\n\
         Description=Restore the battery charge limit after {target}\n\
         After={target}.target\n\
         StartLimitBurst=0\n\
         \n\
         [Service]\n\
         Type=oneshot\n\
         Restart=on-failure\n\
         ExecStartPre=/bin/sh -c '{start}true'\n\
         ExecStart=/bin/sh -c 'echo {limit} >/sys/class/power_supply/{name}/charge_control_end_threshold'\n\
         \n\
         [Install]\n\
         WantedBy={target}.target\n"
    )
}

/// What the unit files hold once the actions are carried out, in the order
/// of the targets.
fn written(actions: &Vec<Action>) -> Vec<Option<String>> {
    let mut files = Vec::new();
    for path in unit_paths() {
        let mut held = None;
        for action in actions {
            match action {
                Action::Write { path: to, content } if *to == path => {
                    held = Some(format!("{}\n", content));
                }
                Action::Remove { path: gone } if *gone == path => {
                    held = None;
                }
                _ => {}
            }
        }
        files.push(held);
    }
    files
}

#[test]
fn targets_and_their_units() {
    assert_eq!(target_names(), TARGETS.to_vec());
    assert_eq!(name_unit("sleep"), "batlimit-sleep.service");
    assert_eq!(locate_unit("sleep"), "/etc/systemd/system/batlimit-sleep.service");
    let paths = unit_paths();
    assert_eq!(paths.len(), 6);
    for i in 0..6 {
        assert_eq!(paths[i], format!("/etc/systemd/system/batlimit-{}.service", TARGETS[i]));
    }
}

#[test]
fn limit_pattern_is_written_out() {
    assert_eq!(
        limit_pattern_text(),
        "(?m)^ExecStart=/bin/sh -c 'echo ([0-9]+) >/sys/class/power_supply/BAT./charge_control_end_threshold'$"
    );
}

#[test]
fn template_is_filled_in() {
    let entries = vec![
        ("start".to_string(), "echo 78 >/start; ".to_string()),
        ("limit".to_string(), "80".to_string()),
        ("path".to_string(), "/limit".to_string()),
        ("target".to_string(), "sleep".to_string()),
    ];
    let text = render(&entries);
    assert_ne!(text, UNIT_TEMPLATE);
    assert_eq!(
        text,
        "[Unit]\n\
         Description=Restore the battery charge limit after sleep\n\
         After=sleep.target\n\
         StartLimitBurst=0\n\
         \n\
         [Service]\n\
         Type=oneshot\n\
         Restart=on-failure\n\
         ExecStartPre=/bin/sh -c 'echo 78 >/start; true'\n\
         ExecStart=/bin/sh -c 'echo 80 >/limit'\n\
         \n\
         [Install]\n\
         WantedBy=sleep.target\n"
    );
}

#[test]
fn template_takes_the_later_entry_and_drops_the_unnamed() {
    let entries = vec![
        ("limit".to_string(), "70".to_string()),
        ("limit".to_string(), "80".to_string()),
        ("path".to_string(), "/limit".to_string()),
    ];
    let text = render(&entries);
    assert!(text.contains("ExecStart=/bin/sh -c 'echo 80 >/limit'\n"));
    assert!(text.contains("ExecStartPre=/bin/sh -c 'true'\n"));
    assert!(text.contains("After=.target\n"));
}

#[test]
fn unit_is_installed_in_two_steps() {
    let (write, enable) = install_unit("suspend", "text".to_string());
    assert_eq!(
        write,
        Action::Write {
            path: "/etc/systemd/system/batlimit-suspend.service".to_string(),
            content: "text".to_string()
        }
    );
    assert_eq!(enable, Action::Enable { unit: "batlimit-suspend.service".to_string() });
}

#[test]
fn persist_writes_and_enables_a_unit_for_each_target() {
    let plan = battery("BAT0").persist(Some(Percent(80)), None, true).unwrap();
    assert_eq!(plan.message, "Systemd services created and enabled with limit 80");
    assert_eq!(plan.actions.len(), 12);
    for i in 0..6 {
        assert_eq!(
            plan.actions[2 * i],
            Action::Write {
                path: format!("/etc/systemd/system/batlimit-{}.service", TARGETS[i]),
                content: unit_text("BAT0", TARGETS[i], 80, Some(78)),
            }
        );
        assert_eq!(
            plan.actions[2 * i + 1],
            Action::Enable { unit: format!("batlimit-{}.service", TARGETS[i]) }
        );
    }
}

#[test]
fn persist_without_start_threshold() {
    let plan = battery("BAT1").persist(Some(Percent(60)), None, false).unwrap();
    assert_eq!(
        plan.actions[0],
        Action::Write {
            path: "/etc/systemd/system/batlimit-hibernate.service".to_string(),
            content: unit_text("BAT1", "hibernate", 60, None),
        }
    );
}

#[test]
fn persist_takes_the_current_limit_when_none_is_given() {
    let plan = battery("BAT0").persist(None, Some(" 75\n"), true).unwrap();
    assert_eq!(plan.message, "Systemd services created and enabled with limit 75");
    assert_eq!(
        plan.actions[6],
        Action::Write {
            path: "/etc/systemd/system/batlimit-sleep.service".to_string(),
            content: unit_text("BAT0", "sleep", 75, Some(73)),
        }
    );
}

#[test]
fn persist_prefers_the_given_limit() {
    let plan = battery("BAT0").persist(Some(Percent(50)), Some("75\n"), false).unwrap();
    assert_eq!(plan.message, "Systemd services created and enabled with limit 50");
}

#[test]
fn persist_needs_a_limit() {
    let limit_file = "/sys/class/power_supply/BAT0/charge_control_end_threshold".to_string();
    assert_eq!(
        battery("BAT0").persist(None, None, true),
        Err(BatteryError::Unreadable { path: limit_file.clone() })
    );
    assert_eq!(
        battery("BAT0").persist(None, Some("100\n"), false),
        Err(BatteryError::InvalidLimit { path: limit_file })
    );
}

#[test]
fn start_threshold_lies_two_below_the_limit() {
    let plan = battery("BAT0").persist(Some(Percent(2)), None, true).unwrap();
    assert_eq!(
        plan.actions[0],
        Action::Write {
            path: "/etc/systemd/system/batlimit-hibernate.service".to_string(),
            content: unit_text("BAT0", "hibernate", 2, Some(0)),
        }
    );
    let plan = battery("BAT0").persist(Some(Percent(99)), None, true).unwrap();
    assert_eq!(
        plan.actions[0],
        Action::Write {
            path: "/etc/systemd/system/batlimit-hibernate.service".to_string(),
            content: unit_text("BAT0", "hibernate", 99, Some(97)),
        }
    );
}

#[test]
fn limit_too_low_for_a_start_threshold() {
    let error = battery("BAT0").persist(Some(Percent(1)), None, true).unwrap_err();
    assert_eq!(error, BatteryError::NoStartThreshold { limit: Percent(1) });
    assert_eq!(error.message(), "Limit 1 is too low for a start threshold");
    assert!(battery("BAT0").persist(Some(Percent(1)), None, false).is_ok());
    assert_eq!(
        battery("BAT0").persist(None, Some("1"), true),
        Err(BatteryError::NoStartThreshold { limit: Percent(1) })
    );
}

#[test]
fn persisted_limit_is_read_back() {
    for name in ["BAT0", "BAT1", "BATT", "BATC"] {
        for start_supported in [false, true] {
            for limit in 2u8..=99 {
                let battery = battery(name);
                let plan = battery.persist(Some(Percent(limit)), None, start_supported).unwrap();
                let files = written(&plan.actions);
                assert!(files.iter().all(|file| file.is_some()));
                assert_eq!(battery.get_persist(&files), Some(Percent(limit)));
            }
        }
    }
    let battery = battery("BAT0");
    let plan = battery.persist(Some(Percent(1)), None, false).unwrap();
    assert_eq!(battery.get_persist(&written(&plan.actions)), Some(Percent(1)));
}

#[test]
fn checked_plan_is_the_plan_that_is_read_back() {
    for start_supported in [false, true] {
        for limit in 2u8..=99 {
            let battery = battery("BAT0");
            let plan = battery.persist_checked(Percent(limit), start_supported).unwrap();
            assert_eq!(plan, battery.persist(Some(Percent(limit)), None, start_supported).unwrap());
            assert_eq!(battery.get_persist(&written(&plan.actions)), Some(Percent(limit)));
        }
    }
    assert!(battery("BATC").persist_checked(Percent(1), false).is_some());
}

#[test]
fn checked_plan_is_withheld_where_it_would_not_be_read_back() {
    assert_eq!(battery("CMB0").persist_checked(Percent(80), false), None);
    assert_eq!(battery("BAT10").persist_checked(Percent(80), true), None);
    assert_eq!(battery("BAT0").persist_checked(Percent(1), true), None);
    assert_eq!(battery("BAT0").persist_checked(Percent(0), false), None);
    assert_eq!(battery("BAT0").persist_checked(Percent(100), false), None);
}

#[test]
fn targets_without_an_entry_count_as_missing() {
    let battery = battery("BAT0");
    let plan = battery.persist(Some(Percent(80)), None, true).unwrap();
    let mut files = written(&plan.actions);
    files.push(Some("more".to_string()));
    assert_eq!(battery.get_persist(&files), Some(Percent(80)));
    files.truncate(6);
    assert_eq!(battery.get_persist(&files), Some(Percent(80)));
    for kept in 1..6 {
        files.truncate(kept);
        assert_eq!(battery.get_persist(&files), Some(Percent(0)));
    }
    assert_eq!(battery.get_persist(&vec![None, None]), None);
}

#[test]
fn persisted_limit_of_another_device_is_not_found() {
    let battery = battery("CMB0");
    let plan = battery.persist(Some(Percent(80)), None, false).unwrap();
    assert_eq!(battery.get_persist(&written(&plan.actions)), Some(Percent(0)));
}

#[test]
fn changed_unit_file_is_inconsistent() {
    let battery = battery("BAT0");
    let plan = battery.persist(Some(Percent(80)), None, true).unwrap();
    for changed in 0..6 {
        let mut files = written(&plan.actions);
        files[changed] = Some(unit_text("BAT0", TARGETS[changed], 70, Some(68)));
        assert_eq!(battery.get_persist(&files), Some(Percent(0)));
    }
}

#[test]
fn missing_or_garbled_unit_file_is_inconsistent() {
    let battery = battery("BAT0");
    let plan = battery.persist(Some(Percent(80)), None, true).unwrap();
    for changed in 0..6 {
        let mut files = written(&plan.actions);
        files[changed] = None;
        assert_eq!(battery.get_persist(&files), Some(Percent(0)));
        files[changed] = Some(String::new());
        assert_eq!(battery.get_persist(&files), Some(Percent(0)));
        files[changed] = Some(unit_text("BAT0", TARGETS[changed], 100, None));
        assert_eq!(battery.get_persist(&files), Some(Percent(0)));
        files[changed] = Some(unit_text("BAT0", TARGETS[changed], 0, None));
        assert_eq!(battery.get_persist(&files), Some(Percent(0)));
    }
}

#[test]
fn no_unit_files_no_persisted_limit() {
    let battery = battery("BAT0");
    assert_eq!(battery.get_persist(&vec![None, None, None, None, None, None]), None);
    assert_eq!(battery.get_persist(&vec![]), None);
}

#[test]
fn unpersist_disables_and_removes_the_units_that_exist() {
    let plan = battery("BAT0").unpersist(&vec![true, false, false, true, false, false]);
    assert_eq!(plan.message, "Systemd services disabled and removed");
    assert_eq!(
        plan.actions,
        vec![
            Action::Disable { unit: "batlimit-hibernate.service".to_string() },
            Action::Remove { path: "/etc/systemd/system/batlimit-hibernate.service".to_string() },
            Action::Disable { unit: "batlimit-sleep.service".to_string() },
            Action::Remove { path: "/etc/systemd/system/batlimit-sleep.service".to_string() },
        ]
    );
    assert_eq!(battery("BAT0").unpersist(&vec![false; 6]).actions, vec![]);
    assert_eq!(battery("BAT0").unpersist(&vec![]).actions, vec![]);
    assert_eq!(battery("BAT0").unpersist(&vec![true; 9]).actions.len(), 12);
}

#[test]
fn unpersisted_limit_is_absent() {
    let battery = battery("BAT0");
    let mut actions = battery.persist(Some(Percent(80)), None, true).unwrap().actions;
    let exists: Vec<bool> = written(&actions).iter().map(|file| file.is_some()).collect();
    assert_eq!(exists, vec![true; 6]);
    actions.extend(battery.unpersist(&exists).actions);
    let files = written(&actions);
    assert_eq!(files, vec![None, None, None, None, None, None]);
    assert_eq!(battery.get_persist(&files), None);
}

#[test]
fn unit_file_is_read() {
    assert_eq!(read_unit(&unit_text("BAT0", "sleep", 80, Some(78))), Reading::Limit(Percent(80)));
    assert_eq!(read_unit(&unit_text("BATT", "sleep", 5, None)), Reading::Limit(Percent(5)));
    assert_eq!(read_unit(&unit_text("BAT0", "sleep", 100, None)), Reading::Garbled);
    assert_eq!(read_unit(&unit_text("BAT10", "sleep", 80, None)), Reading::Garbled);
    assert_eq!(read_unit(""), Reading::Garbled);
    assert_eq!(
        read_unit(
            "ExecStart=/bin/sh -c 'echo 42 >/sys/class/power_supply/BAT0/charge_control_end_threshold'"
        ),
        Reading::Limit(Percent(42))
    );
    assert_eq!(
        read_unit(
            " ExecStart=/bin/sh -c 'echo 42 >/sys/class/power_supply/BAT0/charge_control_end_threshold'"
        ),
        Reading::Garbled
    );
    assert_eq!(
        read_unit(
            "x\nExecStart=/bin/sh -c 'echo 007 >/sys/class/power_supply/BATx/charge_control_end_threshold'\ny"
        ),
        Reading::Limit(Percent(7))
    );
}

#[test]
fn captured_level_is_judged() {
    assert_eq!(read_capture(Some("80")), Reading::Limit(Percent(80)));
    assert_eq!(read_capture(Some("1")), Reading::Limit(Percent(1)));
    assert_eq!(read_capture(Some("99")), Reading::Limit(Percent(99)));
    assert_eq!(read_capture(Some("0")), Reading::Garbled);
    assert_eq!(read_capture(Some("100")), Reading::Garbled);
    assert_eq!(read_capture(Some("")), Reading::Garbled);
    assert_eq!(read_capture(None), Reading::Garbled);
}

#[test]
fn agreement_of_the_targets() {
    let limit = |n: u8| Reading::Limit(Percent(n));
    assert_eq!(agree(&vec![]), None);
    assert_eq!(agree(&vec![Reading::Missing]), None);
    assert_eq!(agree(&vec![Reading::Missing; 6]), None);
    assert_eq!(agree(&vec![limit(80)]), Some(Percent(80)));
    assert_eq!(agree(&vec![limit(80); 6]), Some(Percent(80)));
    assert_eq!(agree(&vec![limit(80), limit(80), limit(81)]), Some(Percent(0)));
    assert_eq!(agree(&vec![limit(81), limit(80), limit(80)]), Some(Percent(0)));
    assert_eq!(agree(&vec![Reading::Missing, limit(80)]), Some(Percent(0)));
    assert_eq!(agree(&vec![limit(80), Reading::Missing]), Some(Percent(0)));
    assert_eq!(agree(&vec![limit(80), Reading::Garbled]), Some(Percent(0)));
    assert_eq!(agree(&vec![Reading::Garbled]), Some(Percent(0)));
    assert_eq!(agree(&vec![Reading::Garbled, Reading::Missing]), Some(Percent(0)));
    assert_eq!(agree(&vec![Reading::Missing, Reading::Garbled]), Some(Percent(0)));
}
