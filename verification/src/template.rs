use vstd::prelude::*;
use vstd::string::*;

verus! {

/// The text of a service unit, with placeholders for the target's name, the
/// command that sets the start threshold, the limit, and the file that takes
/// the limit.
pub const UNIT_TEMPLATE: &'static str = "[Unit]\n\
Description=Restore the battery charge limit after ${target}\n\
After=${target}.target\n\
StartLimitBurst=0\n\
\n\
[Service]\n\
Type=oneshot\n\
Restart=on-failure\n\
ExecStartPre=/bin/sh -c '${start}true'\n\
ExecStart=/bin/sh -c 'echo ${limit} >${path}'\n\
\n\
[Install]\n\
WantedBy=${target}.target\n";

/// The text that `text_template` makes of `template` when the placeholders
/// named in `entries` are replaced by the values beside them, a later entry
/// of the same name taking the place of an earlier one.
pub uninterp spec fn filled_in(template: Seq<char>, entries: Seq<(Seq<char>, Seq<char>)>) -> Seq<
    char,
>;

/// Parses `template` with `text_template::Template::from`, fills it in with
/// `Template::fill_in` from a table of the entries, and returns the text.
/// Believed without proof: the text depends on the template and the entries
/// alone. The template is to be ASCII: the parser cuts placeholders at
/// positions that it counts in characters.
#[verifier::external_body]
pub(crate) fn fill_in(template: &str, entries: &Vec<(String, String)>) -> (text: String)
    requires
        template.is_ascii(),
    ensures
        text@ == filled_in(template@, entries.deep_view()),
{
    let table: std::collections::HashMap<&str, &str> = entries.iter().map(
        |entry| (entry.0.as_str(), entry.1.as_str()),
    ).collect();
    text_template::Template::from(template).fill_in(&table).to_string()
}

/// The unit template holds ASCII characters only.
pub proof fn lemma_template_ascii()
    ensures
        UNIT_TEMPLATE.is_ascii(),
{
    reveal_strlit("[Unit]\n\
Description=Restore the battery charge limit after ${target}\n\
After=${target}.target\n\
StartLimitBurst=0\n\
\n\
[Service]\n\
Type=oneshot\n\
Restart=on-failure\n\
ExecStartPre=/bin/sh -c '${start}true'\n\
ExecStart=/bin/sh -c 'echo ${limit} >${path}'\n\
\n\
[Install]\n\
WantedBy=${target}.target\n");
}

/// Fills in the unit template.
pub fn render(entries: &Vec<(String, String)>) -> (text: String)
    ensures
        text@ == filled_in(UNIT_TEMPLATE@, entries.deep_view()),
{
    proof {
        lemma_template_ascii();
    }
    fill_in(UNIT_TEMPLATE, entries)
}

} // verus!
