use crate::capture::{capture_first_group, first_group, pattern_compiles};
use crate::percent::{percent_of, Percent};
use vstd::prelude::*;
use vstd::string::*;

verus! {

/// The name that the generated service units start with.
pub const NAME: &'static str = "batlimit";

/// Where the generated service units lie, up to the target's name.
pub const UNITPATH: &'static str = "/etc/systemd/system/batlimit";

/// The directory of the power supply devices.
pub const KEYPATH: &'static str = "/sys/class/power_supply";

/// The attribute that holds the level at which charging stops.
pub const LIMITKEY: &'static str = "charge_control_end_threshold";

/// The attribute that holds the level at which charging starts.
pub const STARTKEY: &'static str = "charge_control_start_threshold";

/// The system targets that a charge limit is persisted for.
pub open spec fn targets() -> Seq<Seq<char>> {
    seq![
        "hibernate"@,
        "hybrid-sleep"@,
        "multi-user"@,
        "sleep"@,
        "suspend"@,
        "suspend-then-hibernate"@,
    ]
}

/// The system targets, in the order of `targets`.
pub fn target_names() -> (names: Vec<&'static str>)
    ensures
        names.len() == targets().len(),
        forall|i: int| 0 <= i < names.len() ==> (#[trigger] names[i])@ == targets()[i],
{
    vec!["hibernate", "hybrid-sleep", "multi-user", "sleep", "suspend", "suspend-then-hibernate"]
}

/// The name of the service unit for `target`.
pub open spec fn unit_name(target: Seq<char>) -> Seq<char> {
    NAME@ + "-"@ + target + ".service"@
}

/// The file that holds the service unit for `target`.
pub open spec fn unit_path(target: Seq<char>) -> Seq<char> {
    UNITPATH@ + "-"@ + target + ".service"@
}

/// Names the service unit for `target`.
pub fn name_unit(target: &str) -> (name: String)
    ensures
        name@ == unit_name(target@),
{
    let mut name = NAME.to_owned();
    name.append("-");
    name.append(target);
    name.append(".service");
    name
}

/// Names the file of the service unit for `target`.
pub fn locate_unit(target: &str) -> (path: String)
    ensures
        path@ == unit_path(target@),
{
    let mut path = UNITPATH.to_owned();
    path.append("-");
    path.append(target);
    path.append(".service");
    path
}

/// The files of the service units of all targets, in the order of `targets`.
pub fn unit_paths() -> (paths: Vec<String>)
    ensures
        paths.len() == targets().len(),
        forall|i: int| 0 <= i < paths.len() ==> (#[trigger] paths[i])@ == unit_path(targets()[i]),
{
    let names = target_names();
    let mut paths: Vec<String> = Vec::new();
    let mut i: usize = 0;
    while i < names.len()
        invariant
            i <= names.len(),
            names.len() == targets().len(),
            forall|j: int| 0 <= j < names.len() ==> (#[trigger] names[j])@ == targets()[j],
            paths.len() == i,
            forall|j: int| 0 <= j < i ==> (#[trigger] paths[j])@ == unit_path(targets()[j]),
        decreases names.len() - i,
    {
        paths.push(locate_unit(names[i]));
        i = i + 1;
    }
    paths
}

/// The pattern that finds, in the text of a service unit, the line that sets
/// the charge limit, with the level as its first capture group.
pub open spec fn limit_pattern() -> Seq<char> {
    "(?m)^ExecStart=/bin/sh -c 'echo ([0-9]+) >"@ + KEYPATH@ + "/BAT./"@ + LIMITKEY@ + "'$"@
}

/// Writes out the pattern that finds the charge limit in a service unit.
pub fn limit_pattern_text() -> (pattern: String)
    ensures
        pattern@ == limit_pattern(),
{
    let mut pattern = "(?m)^ExecStart=/bin/sh -c 'echo ([0-9]+) >".to_owned();
    pattern.append(KEYPATH);
    pattern.append("/BAT./");
    pattern.append(LIMITKEY);
    pattern.append("'$");
    pattern
}

/// What the service unit of one target says about the charge limit.
#[derive(Clone, Copy, Debug, PartialEq, Eq, Structural)]
pub enum Reading {
    /// The target has no unit file.
    Missing,
    /// The unit file is there, but no valid limit can be found in it.
    Garbled,
    /// The unit file sets this limit.
    Limit(Percent),
}

/// What a unit file says, given the text that the limit pattern captured in
/// it: the captured level where it is a valid one.
pub open spec fn reading_of_capture(capture: Option<Seq<char>>) -> Reading {
    match capture {
        Some(level) => match percent_of(level) {
            Some(p) => Reading::Limit(p),
            None => Reading::Garbled,
        },
        None => Reading::Garbled,
    }
}

/// What the unit file with the text `text` says about the charge limit.
pub open spec fn reading_of_unit(text: Seq<char>) -> Reading {
    if pattern_compiles(limit_pattern()) {
        reading_of_capture(first_group(limit_pattern(), text))
    } else {
        Reading::Garbled
    }
}

/// What a target says whose unit file holds `file`, or is absent.
pub open spec fn reading_of_file(file: Option<Seq<char>>) -> Reading {
    match file {
        Some(text) => reading_of_unit(text),
        None => Reading::Missing,
    }
}

/// Judges a unit file by the text that the limit pattern captured in it.
pub fn read_capture(capture: Option<&str>) -> (reading: Reading)
    ensures
        reading == reading_of_capture(
            match capture {
                Some(level) => Some(level@),
                None => None,
            },
        ),
{
    match capture {
        Some(level) => match Percent::from_str(level) {
            Ok(p) => Reading::Limit(p),
            Err(_) => Reading::Garbled,
        },
        None => Reading::Garbled,
    }
}

/// Looks for the charge limit in the text of a unit file.
pub fn read_unit(text: &str) -> (reading: Reading)
    ensures
        reading == reading_of_unit(text@),
{
    let pattern = limit_pattern_text();
    match capture_first_group(pattern.as_str(), text) {
        Ok(Some(level)) => read_capture(Some(level.as_str())),
        Ok(None) => read_capture(None),
        Err(_) => Reading::Garbled,
    }
}

/// The limit that the targets agree on. `None` where no target has a unit
/// file. The level 0 where the targets are inconsistent: a unit file is
/// missing while another is there, one is garbled, or two set different
/// limits. Else the limit that every unit file sets.
pub open spec fn agreement(readings: Seq<Reading>) -> Option<Percent> {
    let first = readings[0];
    if forall|i: int| 0 <= i < readings.len() ==> (#[trigger] readings[i]) is Missing {
        None
    } else if first is Limit && forall|i: int|
        0 <= i < readings.len() ==> #[trigger] readings[i] == first {
        Some(first->Limit_0)
    } else {
        Some(Percent(0))
    }
}

/// Works out the limit that the targets agree on.
pub fn agree(readings: &Vec<Reading>) -> (limit: Option<Percent>)
    ensures
        limit == agreement(readings@),
{
    let ghost first = readings[0];
    let mut all_missing = true;
    let mut all_same = true;
    let mut i: usize = 0;
    while i < readings.len()
        invariant
            i <= readings.len(),
            first == readings[0],
            all_missing == (forall|j: int| 0 <= j < i ==> (#[trigger] readings[j]) is Missing),
            all_same == (forall|j: int| 0 <= j < i ==> #[trigger] readings[j] == first),
        decreases readings.len() - i,
    {
        match readings[i] {
            Reading::Missing => {},
            _ => {
                all_missing = false;
            },
        }
        if readings[i] != readings[0] {
            all_same = false;
        }
        i = i + 1;
    }
    if all_missing {
        None
    } else {
        match readings[0] {
            Reading::Limit(p) => {
                if all_same {
                    Some(p)
                } else {
                    Some(Percent(0))
                }
            },
            _ => Some(Percent(0)),
        }
    }
}

} // verus!
