use vstd::prelude::*;
use vstd::string::*;

verus! {

/// A step that needs root privileges, for the caller to carry out.
#[derive(Debug, PartialEq, Eq)]
pub enum Action {
    /// Write `content` and a line break to the file at `path`.
    Write { path: String, content: String },
    /// Enable the service unit `unit` and start it at once.
    Enable { unit: String },
    /// Disable the service unit `unit` and stop it at once.
    Disable { unit: String },
    /// Remove the file at `path`.
    Remove { path: String },
}

/// A step with its texts as sequences of characters.
pub enum Step {
    Write { path: Seq<char>, content: Seq<char> },
    Enable { unit: Seq<char> },
    Disable { unit: Seq<char> },
    Remove { path: Seq<char> },
}

impl View for Action {
    type V = Step;

    open spec fn view(&self) -> Step {
        match self {
            Action::Write { path, content } => Step::Write { path: path@, content: content@ },
            Action::Enable { unit } => Step::Enable { unit: unit@ },
            Action::Disable { unit } => Step::Disable { unit: unit@ },
            Action::Remove { path } => Step::Remove { path: path@ },
        }
    }
}

impl Step {
    /// The command that carries the step out when it is run as root. A
    /// `Write` takes the content and a line break on its standard input.
    pub open spec fn command(self) -> Seq<Seq<char>> {
        match self {
            Step::Write { path, content } => seq!["tee"@, path],
            Step::Enable { unit } => seq!["systemctl"@, "enable"@, "--now"@, unit, "--quiet"@],
            Step::Disable { unit } => seq!["systemctl"@, "disable"@, "--now"@, unit, "--quiet"@],
            Step::Remove { path } => seq!["rm"@, path],
        }
    }

    /// The files after the step, given the files before it, each file a path
    /// with what it holds.
    pub open spec fn apply(self, files: Map<Seq<char>, Seq<char>>) -> Map<Seq<char>, Seq<char>> {
        match self {
            Step::Write { path, content } => files.insert(path, content + "\n"@),
            Step::Remove { path } => files.remove(path),
            _ => files,
        }
    }
}

/// The steps that stand for `actions`.
pub open spec fn steps_of(actions: Seq<Action>) -> Seq<Step> {
    Seq::new(actions.len(), |i: int| actions[i]@)
}

/// The files after all of `steps`, carried out in order.
pub open spec fn carry_out(steps: Seq<Step>, files: Map<Seq<char>, Seq<char>>) -> Map<
    Seq<char>,
    Seq<char>,
>
    decreases steps.len(),
{
    if steps.len() == 0 {
        files
    } else {
        steps.last().apply(carry_out(steps.drop_last(), files))
    }
}

impl Action {
    /// The command that carries the action out when it is run as root.
    pub fn command(&self) -> (words: Vec<String>)
        ensures
            words.deep_view() == self@.command(),
    {
        let mut words: Vec<String> = Vec::new();
        match self {
            Action::Write { path, content } => {
                words.push("tee".to_owned());
                words.push(path.clone());
            },
            Action::Enable { unit } => {
                words.push("systemctl".to_owned());
                words.push("enable".to_owned());
                words.push("--now".to_owned());
                words.push(unit.clone());
                words.push("--quiet".to_owned());
            },
            Action::Disable { unit } => {
                words.push("systemctl".to_owned());
                words.push("disable".to_owned());
                words.push("--now".to_owned());
                words.push(unit.clone());
                words.push("--quiet".to_owned());
            },
            Action::Remove { path } => {
                words.push("rm".to_owned());
                words.push(path.clone());
            },
        }
        assert(words.deep_view() =~= self@.command());
        words
    }
}

/// What an operation asks of the caller: the steps to carry out, and what to
/// tell the user once all of them have succeeded.
#[derive(Debug, PartialEq, Eq)]
pub struct Plan {
    pub actions: Vec<Action>,
    pub message: String,
}

/// A plan with its texts as sequences of characters.
pub struct PlanView {
    pub steps: Seq<Step>,
    pub message: Seq<char>,
}

impl View for Plan {
    type V = PlanView;

    open spec fn view(&self) -> PlanView {
        PlanView { steps: steps_of(self.actions@), message: self.message@ }
    }
}

} // verus!
