use crate::action::{carry_out, steps_of, Action, Plan, PlanView, Step};
use crate::battery::{limit_read, planned, Battery};
use crate::error::{BatteryError, BatteryErrorView};
use crate::percent::Percent;
use crate::template::{filled_in, render, UNIT_TEMPLATE};
use crate::text::{decimal, format_decimal, joined};
use crate::unit::{
    agree, agreement, locate_unit, name_unit, read_unit, reading_of_file, target_names, targets,
    unit_name, unit_path, Reading, LIMITKEY, STARTKEY,
};
use vstd::prelude::*;
use vstd::string::*;

verus! {

/// How far below the charge limit the start threshold is put.
pub const INTERVAL: u8 = 2;

/// The command that a service unit runs to set the start threshold: empty
/// where the device has none.
pub open spec fn start_command(bat_path: Seq<char>, limit: Percent, start_supported: bool) -> Seq<
    char,
> {
    if start_supported {
        "echo "@ + decimal((limit.0 - INTERVAL) as nat) + " >"@ + joined(bat_path, STARTKEY@)
            + "; "@
    } else {
        ""@
    }
}

/// What the placeholders of the unit template are replaced by.
pub open spec fn unit_entries(
    bat_path: Seq<char>,
    limit: Percent,
    start_supported: bool,
    target: Seq<char>,
) -> Seq<(Seq<char>, Seq<char>)> {
    seq![
        ("start"@, start_command(bat_path, limit, start_supported)),
        ("limit"@, limit.text()),
        ("path"@, joined(bat_path, LIMITKEY@)),
        ("target"@, target),
    ]
}

/// The text of the service unit that sets `limit` after `target`.
pub open spec fn unit_text(
    bat_path: Seq<char>,
    limit: Percent,
    start_supported: bool,
    target: Seq<char>,
) -> Seq<char> {
    filled_in(UNIT_TEMPLATE@, unit_entries(bat_path, limit, start_supported, target))
}

/// The steps that persist `limit` for the first `n` targets: for each target
/// in turn its unit file is written, then the unit is enabled.
pub open spec fn persist_steps(
    bat_path: Seq<char>,
    limit: Percent,
    start_supported: bool,
    n: nat,
) -> Seq<Step>
    decreases n,
{
    if n == 0 {
        Seq::empty()
    } else {
        let target = targets()[n - 1];
        persist_steps(bat_path, limit, start_supported, (n - 1) as nat).push(
            Step::Write {
                path: unit_path(target),
                content: unit_text(bat_path, limit, start_supported, target),
            },
        ).push(Step::Enable { unit: unit_name(target) })
    }
}

/// The limit to persist: the one that is given, else the one that the file
/// of the charge limit holds.
pub open spec fn limit_to_persist(
    bat_path: Seq<char>,
    percent: Option<Percent>,
    contents: Option<Seq<char>>,
) -> Result<Percent, BatteryErrorView> {
    match percent {
        Some(limit) => Ok(limit),
        None => limit_read(joined(bat_path, LIMITKEY@), contents),
    }
}

/// What persisting a limit comes to: the steps for all targets and a message
/// that names the limit; an error where no limit is given and none can be
/// read, or where the device has a start threshold and the limit is less
/// than the interval between the two.
pub open spec fn persist_plan(
    bat_path: Seq<char>,
    percent: Option<Percent>,
    contents: Option<Seq<char>>,
    start_supported: bool,
) -> Result<PlanView, BatteryErrorView> {
    match limit_to_persist(bat_path, percent, contents) {
        Err(e) => Err(e),
        Ok(limit) => if start_supported && limit.0 < INTERVAL {
            Err(BatteryErrorView::NoStartThreshold { limit })
        } else {
            Ok(
                PlanView {
                    steps: persist_steps(bat_path, limit, start_supported, targets().len()),
                    message: "Systemd services created and enabled with limit "@ + limit.text(),
                },
            )
        },
    }
}

/// The steps that remove the persisted limit from the first `n` targets: for
/// each target that has a unit file, the unit is disabled, then the file is
/// removed. `exists` says of each target in turn whether it has a unit file;
/// a target beyond the end of `exists` counts as having none.
pub open spec fn unpersist_steps(exists: Seq<bool>, n: nat) -> Seq<Step>
    decreases n,
{
    if n == 0 {
        Seq::empty()
    } else if n - 1 < exists.len() && exists[n - 1] {
        let target = targets()[n - 1];
        unpersist_steps(exists, (n - 1) as nat).push(Step::Disable { unit: unit_name(target) }).push(
            Step::Remove { path: unit_path(target) },
        )
    } else {
        unpersist_steps(exists, (n - 1) as nat)
    }
}

/// What the unit files of the targets say, one reading for each target.
/// `files` holds for each target in turn what its unit file holds, or `None`
/// where the target has no unit file; a target beyond the end of `files`
/// counts as having none.
pub open spec fn readings(files: Seq<Option<Seq<char>>>) -> Seq<Reading> {
    Seq::new(
        targets().len(),
        |i: int|
            if i < files.len() {
                reading_of_file(files[i])
            } else {
                Reading::Missing
            },
    )
}

/// The two steps that persist a limit for `target`, given the text of its
/// service unit.
pub fn install_unit(target: &str, content: String) -> (actions: (Action, Action))
    ensures
        actions.0@ == (Step::Write { path: unit_path(target@), content: content@ }),
        actions.1@ == (Step::Enable { unit: unit_name(target@) }),
{
    (
        Action::Write { path: locate_unit(target), content },
        Action::Enable { unit: name_unit(target) },
    )
}

impl Battery {
    /// Plans to persist a charge limit across restarts and sleep: `percent`
    /// where it is given, else the limit that is set now. `contents` is what
    /// the file of the limit holds, `None` where it could not be read;
    /// `start_supported` says whether the device has a start threshold.
    pub fn persist(
        &self,
        percent: Option<Percent>,
        contents: Option<&str>,
        start_supported: bool,
    ) -> (r: Result<Plan, BatteryError>)
        ensures
            planned(r) == persist_plan(self@, percent, contents.deep_view(), start_supported),
    {
        let limit = match percent {
            Some(limit) => limit,
            None => match self.get_limit(contents) {
                Ok(limit) => limit,
                Err(e) => {
                    return Err(e);
                },
            },
        };
        let mut start = String::new();
        if start_supported {
            if limit.0 < INTERVAL {
                return Err(BatteryError::NoStartThreshold { limit });
            }
            start.append("echo ");
            start.append(format_decimal((limit.0 - INTERVAL) as u64).as_str());
            start.append(" >");
            start.append(self.start_path().as_str());
            start.append("; ");
        }
        proof {
            reveal_strlit("");
        }
        assert(start@ =~= start_command(self@, limit, start_supported));
        let level = limit.to_string();
        let path = self.limit_path();
        let names = target_names();
        let mut actions: Vec<Action> = Vec::new();
        let mut i: usize = 0;
        assert(steps_of(actions@) =~= persist_steps(self@, limit, start_supported, 0));
        while i < names.len()
            invariant
                i <= names.len(),
                names.len() == targets().len(),
                forall|j: int| 0 <= j < names.len() ==> (#[trigger] names[j])@ == targets()[j],
                start@ == start_command(self@, limit, start_supported),
                level@ == limit.text(),
                path@ == joined(self@, LIMITKEY@),
                steps_of(actions@) == persist_steps(self@, limit, start_supported, i as nat),
            decreases names.len() - i,
        {
            let mut entries: Vec<(String, String)> = Vec::new();
            entries.push(("start".to_owned(), start.clone()));
            entries.push(("limit".to_owned(), level.clone()));
            entries.push(("path".to_owned(), path.clone()));
            entries.push(("target".to_owned(), names[i].to_owned()));
            assert(entries.deep_view() =~= unit_entries(
                self@,
                limit,
                start_supported,
                targets()[i as int],
            ));
            let content = render(&entries);
            let (write, enable) = install_unit(names[i], content);
            let ghost before = actions@;
            actions.push(write);
            actions.push(enable);
            assert(steps_of(actions@) =~= steps_of(before).push(write@).push(enable@));
            i = i + 1;
        }
        let mut message = "Systemd services created and enabled with limit ".to_owned();
        message.append(level.as_str());
        Ok(Plan { actions, message })
    }

    /// Plans to remove the persisted limit. `exists` says of each target in
    /// turn whether it has a unit file.
    pub fn unpersist(&self, exists: &Vec<bool>) -> (plan: Plan)
        ensures
            plan@ == (PlanView {
                steps: unpersist_steps(exists@, targets().len()),
                message: "Systemd services disabled and removed"@,
            }),
    {
        let names = target_names();
        let mut actions: Vec<Action> = Vec::new();
        let mut i: usize = 0;
        assert(steps_of(actions@) =~= unpersist_steps(exists@, 0));
        while i < names.len()
            invariant
                i <= names.len(),
                names.len() == targets().len(),
                forall|j: int| 0 <= j < names.len() ==> (#[trigger] names[j])@ == targets()[j],
                steps_of(actions@) == unpersist_steps(exists@, i as nat),
            decreases names.len() - i,
        {
            if i < exists.len() && exists[i] {
                let disable = Action::Disable { unit: name_unit(names[i]) };
                let remove = Action::Remove { path: locate_unit(names[i]) };
                let ghost before = actions@;
                actions.push(disable);
                actions.push(remove);
                assert(steps_of(actions@) =~= steps_of(before).push(disable@).push(remove@));
            }
            i = i + 1;
        }
        Plan { actions, message: "Systemd services disabled and removed".to_owned() }
    }

    /// Tells which limit is persisted, from the unit files of the targets:
    /// `files` holds for each target in turn what its unit file holds, or
    /// `None` where it has none; a target beyond the end of `files` counts as
    /// having none. `None` where no target has a unit file, the level 0
    /// where the unit files are inconsistent, else the limit that all of
    /// them set.
    pub fn get_persist(&self, files: &Vec<Option<String>>) -> (limit: Option<Percent>)
        ensures
            limit == agreement(readings(files.deep_view())),
    {
        let count = target_names().len();
        let mut found: Vec<Reading> = Vec::new();
        let mut i: usize = 0;
        while i < count
            invariant
                i <= count,
                count == targets().len(),
                found.len() == i,
                forall|j: int|
                    0 <= j < i ==> #[trigger] found[j] == readings(files.deep_view())[j],
            decreases count - i,
        {
            let reading = if i < files.len() {
                match &files[i] {
                    Some(text) => read_unit(text.as_str()),
                    None => Reading::Missing,
                }
            } else {
                Reading::Missing
            };
            found.push(reading);
            i = i + 1;
        }
        assert(found@ =~= readings(files.deep_view()));
        agree(&found)
    }

    /// Plans to persist `limit` and makes sure that it will be read back:
    /// the plan of `persist` for the given limit, where the text of every
    /// service unit, as it will stand in its file, sets `limit` in the eyes
    /// of the check. `None` where `persist` fails or one of the units would
    /// not be read back so.
    pub fn persist_checked(&self, limit: Percent, start_supported: bool) -> (r: Option<Plan>)
        ensures
            r is Some <==> persist_plan(self@, Some(limit), None, start_supported) is Ok && forall|
                i: int,
            |
                0 <= i < targets().len() ==> reading_of_file(
                    Some(#[trigger] unit_text(self@, limit, start_supported, targets()[i]) + "\n"@),
                ) == Reading::Limit(limit),
            r matches Some(plan) ==> persist_plan(self@, Some(limit), None, start_supported) == Ok::<
                PlanView,
                BatteryErrorView,
            >(plan@) && forall|files: Map<Seq<char>, Seq<char>>|
                agreement(readings(unit_files(#[trigger] carry_out(plan@.steps, files)))) == Some(
                    limit,
                ),
    {
        let plan = match self.persist(Some(limit), None, start_supported) {
            Ok(plan) => plan,
            Err(_) => {
                return None;
            },
        };
        let count = target_names().len();
        proof {
            lemma_persist_steps(self@, limit, start_supported, targets().len());
        }
        let mut i: usize = 0;
        while i < count
            invariant
                i <= count,
                count == targets().len(),
                plan@.steps == persist_steps(self@, limit, start_supported, targets().len()),
                plan.actions.len() == 2 * count,
                forall|j: int|
                    0 <= j < targets().len() ==> (#[trigger] plan@.steps[2 * j]) == (Step::Write {
                        path: unit_path(targets()[j]),
                        content: unit_text(self@, limit, start_supported, targets()[j]),
                    }),
                forall|j: int|
                    0 <= j < i ==> reading_of_file(
                        Some(
                            #[trigger] unit_text(self@, limit, start_supported, targets()[j])
                                + "\n"@,
                        ),
                    ) == Reading::Limit(limit),
            decreases count - i,
        {
            assert(plan@.steps[2 * i] == plan.actions[2 * i as int]@);
            match &plan.actions[2 * i] {
                Action::Write { path, content } => {
                    let mut text = content.clone();
                    text.append("\n");
                    if read_unit(text.as_str()) != Reading::Limit(limit) {
                        return None;
                    }
                },
                _ => {
                    return None;
                },
            }
            i = i + 1;
        }
        proof {
            assert forall|files: Map<Seq<char>, Seq<char>>|
                agreement(readings(unit_files(#[trigger] carry_out(plan@.steps, files)))) == Some(
                    limit,
                ) by {
                lemma_persisted_limit_is_read_back(self@, limit, start_supported, files);
            }
        }
        Some(plan)
    }
}

/// The steps that persist a limit for `n` targets are two for each target,
/// the first of them the write to the target's unit file.
pub proof fn lemma_persist_steps(
    bat_path: Seq<char>,
    limit: Percent,
    start_supported: bool,
    n: nat,
)
    requires
        n <= targets().len(),
    ensures
        persist_steps(bat_path, limit, start_supported, n).len() == 2 * n,
        forall|i: int|
            0 <= i < n ==> (#[trigger] persist_steps(bat_path, limit, start_supported, n)[2 * i])
                == (Step::Write {
                path: unit_path(targets()[i]),
                content: unit_text(bat_path, limit, start_supported, targets()[i]),
            }),
    decreases n,
{
    if n > 0 {
        lemma_persist_steps(bat_path, limit, start_supported, (n - 1) as nat);
        let before = persist_steps(bat_path, limit, start_supported, (n - 1) as nat);
        let now = persist_steps(bat_path, limit, start_supported, n);
        assert forall|i: int| 0 <= i < n implies (#[trigger] now[2 * i]) == (Step::Write {
            path: unit_path(targets()[i]),
            content: unit_text(bat_path, limit, start_supported, targets()[i]),
        }) by {
            if i < n - 1 {
                assert(now[2 * i] == before[2 * i]);
            }
        }
    }
}

/// What the unit files of the targets hold among `files`, in the order of the
/// targets: `None` for a target that has no unit file.
pub open spec fn unit_files(files: Map<Seq<char>, Seq<char>>) -> Seq<Option<Seq<char>>> {
    Seq::new(
        targets().len(),
        |i: int|
            if files.contains_key(unit_path(targets()[i])) {
                Some(files[unit_path(targets()[i])])
            } else {
                None
            },
    )
}

/// No two targets share a unit file.
pub proof fn lemma_unit_paths_differ(i: int, j: int)
    requires
        0 <= i < targets().len(),
        0 <= j < targets().len(),
        i != j,
    ensures
        unit_path(targets()[i]) != unit_path(targets()[j]),
{
    reveal_strlit("hibernate");
    reveal_strlit("hybrid-sleep");
    reveal_strlit("multi-user");
    reveal_strlit("sleep");
    reveal_strlit("suspend");
    reveal_strlit("suspend-then-hibernate");
    assert(unit_path(targets()[i]).len() != unit_path(targets()[j]).len());
}

/// Carrying out steps and one more is carrying out the steps, then the one.
pub proof fn lemma_carry_out_push(steps: Seq<Step>, step: Step, files: Map<Seq<char>, Seq<char>>)
    ensures
        carry_out(steps.push(step), files) == step.apply(carry_out(steps, files)),
{
    assert(steps.push(step).drop_last() =~= steps);
}

/// Once a limit is persisted for the first `n` targets, the unit file of
/// each of them holds the text of its service unit and a line break, and
/// every other file is as it was.
pub proof fn lemma_persist_writes_units(
    bat_path: Seq<char>,
    limit: Percent,
    start_supported: bool,
    files: Map<Seq<char>, Seq<char>>,
    n: nat,
)
    requires
        n <= targets().len(),
    ensures
        ({
            let after = carry_out(persist_steps(bat_path, limit, start_supported, n), files);
            &&& forall|i: int|
                0 <= i < n ==> after.contains_key(#[trigger] unit_path(targets()[i])) && after[unit_path(
                    targets()[i],
                )] == unit_text(bat_path, limit, start_supported, targets()[i]) + "\n"@
            &&& forall|path: Seq<char>|
                (forall|i: int| 0 <= i < n ==> path != unit_path(targets()[i])) ==> (
                #[trigger] after.contains_key(path) == files.contains_key(path)) && after[path]
                    == files[path]
        }),
    decreases n,
{
    if n > 0 {
        let before = persist_steps(bat_path, limit, start_supported, (n - 1) as nat);
        let target = targets()[n - 1];
        let write = Step::Write {
            path: unit_path(target),
            content: unit_text(bat_path, limit, start_supported, target),
        };
        let enable = Step::Enable { unit: unit_name(target) };
        lemma_persist_writes_units(bat_path, limit, start_supported, files, (n - 1) as nat);
        lemma_carry_out_push(before, write, files);
        lemma_carry_out_push(before.push(write), enable, files);
        let after = carry_out(persist_steps(bat_path, limit, start_supported, n), files);
        assert(after == carry_out(before, files).insert(
            unit_path(target),
            unit_text(bat_path, limit, start_supported, target) + "\n"@,
        ));
        assert forall|i: int| 0 <= i < n implies after.contains_key(
            #[trigger] unit_path(targets()[i]),
        ) && after[unit_path(targets()[i])] == unit_text(
            bat_path,
            limit,
            start_supported,
            targets()[i],
        ) + "\n"@ by {
            if i < n - 1 {
                lemma_unit_paths_differ(i, n - 1);
            }
        }
    }
}

/// A persisted limit is read back: once the plan to persist `limit` is
/// carried out, whatever files there were before, the targets agree on
/// `limit`. This holds where the limit pattern finds `limit` in the text of
/// each service unit, which is for the pattern and the template to fulfil; it
/// fails where the pattern does not match, as for a battery whose name is not
/// `BAT` and one more character.
pub proof fn lemma_persisted_limit_is_read_back(
    bat_path: Seq<char>,
    limit: Percent,
    start_supported: bool,
    files: Map<Seq<char>, Seq<char>>,
)
    requires
        forall|i: int|
            0 <= i < targets().len() ==> reading_of_file(
                Some(#[trigger] unit_text(bat_path, limit, start_supported, targets()[i]) + "\n"@),
            ) == Reading::Limit(limit),
    ensures
        agreement(
            readings(
                unit_files(
                    carry_out(
                        persist_steps(bat_path, limit, start_supported, targets().len()),
                        files,
                    ),
                ),
            ),
        ) == Some(limit),
{
    lemma_persist_writes_units(bat_path, limit, start_supported, files, targets().len());
    let after = carry_out(
        persist_steps(bat_path, limit, start_supported, targets().len()),
        files,
    );
    let found = readings(unit_files(after));
    assert forall|i: int| 0 <= i < found.len() implies #[trigger] found[i] == Reading::Limit(
        limit,
    ) by {
        assert(after.contains_key(unit_path(targets()[i])));
        assert(unit_files(after)[i] == Some(
            unit_text(bat_path, limit, start_supported, targets()[i]) + "\n"@,
        ));
    }
    assert(found[0] == Reading::Limit(limit));
}

/// Targets that all set the same limit agree on it.
pub proof fn lemma_same_limit_agreed(found: Seq<Reading>, limit: Percent)
    requires
        found.len() > 0,
        forall|i: int| 0 <= i < found.len() ==> #[trigger] found[i] == Reading::Limit(limit),
    ensures
        agreement(found) == Some(limit),
{
    assert(found[0] == Reading::Limit(limit));
}

/// A unit file that sets another limit than the rest makes the targets
/// inconsistent: where every unit file among `files` sets `limit`, and the
/// file of one target is changed to a text that sets `other`, the check
/// reports the level 0.
pub proof fn lemma_changed_unit_is_inconsistent(
    files: Seq<Option<Seq<char>>>,
    limit: Percent,
    changed: int,
    text: Seq<char>,
    other: Percent,
)
    requires
        files.len() >= targets().len(),
        forall|i: int|
            0 <= i < targets().len() ==> reading_of_file(#[trigger] files[i]) == Reading::Limit(
                limit,
            ),
        0 <= changed < targets().len(),
        reading_of_file(Some(text)) == Reading::Limit(other),
        other != limit,
    ensures
        agreement(readings(files)) == Some(limit),
        agreement(readings(files.update(changed, Some(text)))) == Some(Percent(0)),
{
    let before = readings(files);
    assert(before[0] == Reading::Limit(limit));
    assert forall|i: int| 0 <= i < before.len() implies #[trigger] before[i] == before[0] by {
        assert(reading_of_file(files[i]) == Reading::Limit(limit));
    }
    let after = readings(files.update(changed, Some(text)));
    let kept = if changed == 0 {
        1int
    } else {
        0int
    };
    assert(after[changed] == Reading::Limit(other));
    assert(reading_of_file(files[kept]) == Reading::Limit(limit));
    assert(after[kept] == Reading::Limit(limit));
    assert(after[changed] != after[kept]);
}

/// Once the persisted limit is removed from the first `n` targets, none of
/// them has a unit file, and every other file is as it was.
pub proof fn lemma_unpersist_removes_units(files: Map<Seq<char>, Seq<char>>, exists: Seq<bool>, n: nat)
    requires
        n <= targets().len(),
        exists.len() >= n,
        forall|i: int|
            0 <= i < n ==> #[trigger] exists[i] == files.contains_key(unit_path(targets()[i])),
    ensures
        ({
            let after = carry_out(unpersist_steps(exists, n), files);
            &&& forall|i: int| 0 <= i < n ==> !after.contains_key(#[trigger] unit_path(targets()[i]))
            &&& forall|path: Seq<char>|
                (forall|i: int| 0 <= i < n ==> path != unit_path(targets()[i])) ==> (
                #[trigger] after.contains_key(path) == files.contains_key(path)) && after[path]
                    == files[path]
        }),
    decreases n,
{
    if n > 0 {
        lemma_unpersist_removes_units(files, exists, (n - 1) as nat);
        let before = unpersist_steps(exists, (n - 1) as nat);
        let target = targets()[n - 1];
        let after = carry_out(unpersist_steps(exists, n), files);
        if exists[n - 1] {
            let disable = Step::Disable { unit: unit_name(target) };
            let remove = Step::Remove { path: unit_path(target) };
            lemma_carry_out_push(before, disable, files);
            lemma_carry_out_push(before.push(disable), remove, files);
            assert(after == carry_out(before, files).remove(unit_path(target)));
        } else {
            assert(after == carry_out(before, files));
            assert(!files.contains_key(unit_path(target)));
            assert forall|i: int| 0 <= i < n - 1 implies unit_path(target) != unit_path(
                targets()[i],
            ) by {
                lemma_unit_paths_differ(n - 1, i);
            }
            assert(after.contains_key(unit_path(target)) == files.contains_key(unit_path(target)));
        }
    }
}

/// After the persisted limit is removed, the check finds none: once the plan
/// to unpersist is carried out, made for the unit files that exist, no target
/// has a unit file and the targets agree on nothing.
pub proof fn lemma_unpersisted_limit_is_absent(files: Map<Seq<char>, Seq<char>>, exists: Seq<bool>)
    requires
        exists.len() == targets().len(),
        forall|i: int|
            0 <= i < targets().len() ==> #[trigger] exists[i] == files.contains_key(
                unit_path(targets()[i]),
            ),
    ensures
        ({
            let after = carry_out(unpersist_steps(exists, targets().len()), files);
            &&& forall|i: int|
                0 <= i < targets().len() ==> !after.contains_key(#[trigger] unit_path(targets()[i]))
            &&& agreement(readings(unit_files(after))) is None
        }),
{
    lemma_unpersist_removes_units(files, exists, targets().len());
    let after = carry_out(unpersist_steps(exists, targets().len()), files);
    let found = readings(unit_files(after));
    assert forall|i: int| 0 <= i < found.len() implies (#[trigger] found[i]) is Missing by {
        assert(!after.contains_key(unit_path(targets()[i])));
        assert(unit_files(after)[i] is None);
    }
}

} // verus!
