use crate::action::{Action, Plan, PlanView, Step};
use crate::error::{BatteryError, BatteryErrorView};
use crate::percent::{percent_of, Percent};
use crate::text::{join, joined, trim, trimmed};
use crate::unit::{KEYPATH, LIMITKEY, STARTKEY};
use vstd::prelude::*;
use vstd::string::*;

verus! {

/// The battery devices that are looked for when none is named, in order.
pub open spec fn candidates() -> Seq<Seq<char>> {
    seq!["BAT0"@, "BAT1"@, "BATT"@, "BATC"@]
}

/// The names of the battery devices that are looked for when none is named.
pub fn candidate_names() -> (names: Vec<&'static str>)
    ensures
        names.len() == candidates().len(),
        forall|i: int| 0 <= i < names.len() ==> (#[trigger] names[i])@ == candidates()[i],
{
    vec!["BAT0", "BAT1", "BATT", "BATC"]
}

/// The directories of the battery devices that are looked for when none is
/// named, in order.
pub fn candidate_paths() -> (paths: Vec<String>)
    ensures
        paths.len() == candidates().len(),
        forall|i: int|
            0 <= i < paths.len() ==> (#[trigger] paths[i])@ == joined(KEYPATH@, candidates()[i]),
{
    let names = candidate_names();
    let mut paths: Vec<String> = Vec::new();
    let mut i: usize = 0;
    while i < names.len()
        invariant
            i <= names.len(),
            names.len() == candidates().len(),
            forall|j: int| 0 <= j < names.len() ==> (#[trigger] names[j])@ == candidates()[j],
            paths.len() == i,
            forall|j: int|
                0 <= j < i ==> (#[trigger] paths[j])@ == joined(KEYPATH@, candidates()[j]),
        decreases names.len() - i,
    {
        paths.push(join(KEYPATH, names[i]));
        i = i + 1;
    }
    paths
}

/// The first candidate from `from` on whose directory exists. `exists` says
/// of each candidate in turn whether its directory does; a candidate beyond
/// the end of `exists` counts as absent.
pub open spec fn first_existing(exists: Seq<bool>, from: nat) -> Option<nat>
    decreases candidates().len() - from,
{
    if from >= candidates().len() || from >= exists.len() {
        None
    } else if exists[from as int] {
        Some(from)
    } else {
        first_existing(exists, from + 1)
    }
}

/// The directory of the battery to use: that of the device `name` where a
/// name is given, is not empty, and its directory exists (`named_exists`);
/// else that of the first candidate that exists. `None` where no directory
/// exists.
pub open spec fn located(name: Option<Seq<char>>, named_exists: bool, exists: Seq<bool>) -> Option<
    Seq<char>,
> {
    if name is Some && name->0.len() > 0 && named_exists {
        Some(joined(KEYPATH@, name->0))
    } else {
        match first_existing(exists, 0) {
            Some(i) => Some(joined(KEYPATH@, candidates()[i as int])),
            None => None,
        }
    }
}

/// The directory of the battery device `name`.
pub fn named_path(name: &str) -> (path: String)
    ensures
        path@ == joined(KEYPATH@, name@),
{
    join(KEYPATH, name)
}

/// What the file of the charge limit says: the level that its text denotes,
/// white space around it set aside. An error that names the file where the
/// file at `path` could not be read (`contents` is `None`) or holds no level.
pub open spec fn limit_read(path: Seq<char>, contents: Option<Seq<char>>) -> Result<
    Percent,
    BatteryErrorView,
> {
    match contents {
        None => Err(BatteryErrorView::Unreadable { path }),
        Some(text) => match percent_of(trimmed(text)) {
            Some(limit) => Ok(limit),
            None => Err(BatteryErrorView::InvalidLimit { path }),
        },
    }
}

/// What the user is told once the limit `new` has taken the place of `old`.
pub open spec fn limit_message(old: Percent, new: Percent) -> Seq<char> {
    if old == new {
        "Unchanged: \x1b[1;32m"@ + new.text() + "\x1b[0m%"@
    } else {
        "\x1b[1;31m"@ + old.text() + "\x1b[0m% -> \x1b[1;32m"@ + new.text() + "\x1b[0m%"@
    }
}

/// The view of a result whose error is a `BatteryError`.
pub open spec fn outcome<T>(r: Result<T, BatteryError>) -> Result<T, BatteryErrorView> {
    match r {
        Ok(t) => Ok(t),
        Err(e) => Err(e@),
    }
}

/// The view of a result that is a plan or a `BatteryError`.
pub open spec fn planned(r: Result<Plan, BatteryError>) -> Result<PlanView, BatteryErrorView> {
    match r {
        Ok(plan) => Ok(plan@),
        Err(e) => Err(e@),
    }
}

/// The battery that is worked on, known by the directory of its device.
#[derive(Debug)]
pub struct Battery {
    bat_path: String,
}

impl View for Battery {
    type V = Seq<char>;

    /// The directory of the battery's device.
    closed spec fn view(&self) -> Seq<char> {
        self.bat_path@
    }
}

impl Battery {
    /// Picks the battery to work on. `name` is the device that the user
    /// named, if any, and `named_exists` says whether its directory exists;
    /// `exists` says of each candidate in turn whether its directory exists.
    /// Fails where no directory exists.
    pub fn new(name: Option<&str>, named_exists: bool, exists: &Vec<bool>) -> (r: Result<
        Battery,
        BatteryError,
    >)
        ensures
            match located(name.deep_view(), named_exists, exists@) {
                Some(path) => r is Ok && r->Ok_0@ == path,
                None => r is Err && r->Err_0@ == BatteryErrorView::NotFound,
            },
    {
        match name {
            Some(name) => {
                if named_exists && name.unicode_len() > 0 {
                    return Ok(Battery { bat_path: named_path(name) });
                }
            },
            None => {},
        }
        let names = candidate_names();
        let mut i: usize = 0;
        while i < names.len() && i < exists.len()
            invariant
                i <= names.len(),
                names.len() == candidates().len(),
                forall|j: int| 0 <= j < names.len() ==> (#[trigger] names[j])@ == candidates()[j],
                first_existing(exists@, 0) == first_existing(exists@, i as nat),
                !(name.deep_view() is Some && name.deep_view()->0.len() > 0 && named_exists),
            decreases names.len() - i,
        {
            if exists[i] {
                return Ok(Battery { bat_path: join(KEYPATH, names[i]) });
            }
            i = i + 1;
        }
        Err(BatteryError::NotFound)
    }

    /// The directory of the battery's device.
    pub fn path(&self) -> (path: &str)
        ensures
            path@ == self@,
    {
        self.bat_path.as_str()
    }

    /// The file that holds the charge limit.
    pub fn limit_path(&self) -> (path: String)
        ensures
            path@ == joined(self@, LIMITKEY@),
    {
        join(self.bat_path.as_str(), LIMITKEY)
    }

    /// The file that holds the start threshold, on devices that have one.
    pub fn start_path(&self) -> (path: String)
        ensures
            path@ == joined(self@, STARTKEY@),
    {
        join(self.bat_path.as_str(), STARTKEY)
    }

    /// Reads the charge limit from what its file holds; `contents` is `None`
    /// where the file could not be read.
    pub fn get_limit(&self, contents: Option<&str>) -> (r: Result<Percent, BatteryError>)
        ensures
            outcome(r) == limit_read(joined(self@, LIMITKEY@), contents.deep_view()),
    {
        match contents {
            None => Err(BatteryError::Unreadable { path: self.limit_path() }),
            Some(text) => {
                let level = trim(text);
                match Percent::from_str(level.as_str()) {
                    Ok(limit) => Ok(limit),
                    Err(_) => Err(BatteryError::InvalidLimit { path: self.limit_path() }),
                }
            },
        }
    }

    /// Plans to set the charge limit to `limit`: one write to the file of the
    /// limit, and a message that tells the old limit from the new. `contents`
    /// is what the file holds now, `None` where it could not be read; then
    /// nothing is planned.
    pub fn limit(&self, contents: Option<&str>, limit: &Percent) -> (r: Result<Plan, BatteryError>)
        ensures
            planned(r) == (match limit_read(joined(self@, LIMITKEY@), contents.deep_view()) {
                Ok(old) => Ok(
                    PlanView {
                        steps: seq![
                            Step::Write { path: joined(self@, LIMITKEY@), content: limit.text() },
                        ],
                        message: limit_message(old, *limit),
                    },
                ),
                Err(e) => Err(e),
            }),
    {
        let old = match self.get_limit(contents) {
            Ok(old) => old,
            Err(e) => {
                return Err(e);
            },
        };
        let mut actions: Vec<Action> = Vec::new();
        actions.push(Action::Write { path: self.limit_path(), content: limit.to_string() });
        let mut message: String;
        if old == *limit {
            message = "Unchanged: \x1b[1;32m".to_owned();
        } else {
            message = "\x1b[1;31m".to_owned();
            message.append(old.to_string().as_str());
            message.append("\x1b[0m% -> \x1b[1;32m");
        }
        message.append(limit.to_string().as_str());
        message.append("\x1b[0m%");
        let plan = Plan { actions, message };
        assert(plan@.steps =~= seq![
            Step::Write { path: joined(self@, LIMITKEY@), content: limit.text() },
        ]);
        Ok(plan)
    }

    /// Plans to clear the charge limit: the level 100, which stands for no
    /// limit, is written to the file of the limit.
    pub fn clear(&self) -> (plan: Plan)
        ensures
            plan@ == (PlanView {
                steps: seq![Step::Write { path: joined(self@, LIMITKEY@), content: "100"@ }],
                message: "Cleared charge limit"@,
            }),
    {
        let mut actions: Vec<Action> = Vec::new();
        actions.push(Action::Write { path: self.limit_path(), content: "100".to_owned() });
        let plan = Plan { actions, message: "Cleared charge limit".to_owned() };
        assert(plan@.steps =~= seq![
            Step::Write { path: joined(self@, LIMITKEY@), content: "100"@ },
        ]);
        plan
    }
}

} // verus!
