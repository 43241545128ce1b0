use crate::battery::Battery;
use crate::percent::Percent;
use crate::persist::readings;
use crate::text::{
    decimal, final_segment, format_decimal, join, joined, last_segment, pad, padded,
    parse_unsigned, read_unsigned, trim, trimmed,
};
use crate::unit::agreement;
use vstd::prelude::*;
use vstd::string::*;

verus! {

/// What an attribute of the battery is to the report.
#[derive(Clone, Copy, Debug, PartialEq, Eq, Structural)]
pub enum Role {
    /// It is shown, and nothing else.
    Detail,
    /// It tells how much the battery holds now when it is full.
    Capacity,
    /// It tells how much the battery was made to hold.
    DesignCapacity,
}

/// An attribute of the battery that the report shows.
#[derive(Clone, Copy, Debug)]
pub struct Attribute {
    /// The name of the file that holds the attribute.
    pub key: &'static str,
    /// The words that the report puts before the value.
    pub label: &'static str,
    /// The unit that the report puts behind the value.
    pub unit: &'static str,
    pub role: Role,
}

/// The attributes that the report shows, in the order in which it shows them.
pub open spec fn attributes() -> Seq<Attribute> {
    seq![
        Attribute { key: "manufacturer", label: "Brand", unit: "", role: Role::Detail },
        Attribute { key: "model_name", label: "Model", unit: "", role: Role::Detail },
        Attribute { key: "technology", label: "Battery Type", unit: "", role: Role::Detail },
        Attribute { key: "status", label: "Charge Status", unit: "", role: Role::Detail },
        Attribute {
            key: "capacity_level",
            label: "Battery Condition",
            unit: "",
            role: Role::Detail,
        },
        Attribute {
            key: "charge_full",
            label: "Current Max. Capacity",
            unit: " \u{3bc}Ah",
            role: Role::Capacity,
        },
        Attribute {
            key: "power_now",
            label: "Current Max. Capacity",
            unit: " \u{3bc}Ah",
            role: Role::Detail,
        },
        Attribute {
            key: "energy_now",
            label: "Current Max. Capacity",
            unit: " \u{3bc}Ah",
            role: Role::Detail,
        },
        Attribute {
            key: "energy_full",
            label: "Current Max. Capacity",
            unit: " \u{3bc}Ah",
            role: Role::Capacity,
        },
        Attribute {
            key: "charge_full_design",
            label: "Design Max. Capacity",
            unit: " \u{3bc}Ah",
            role: Role::DesignCapacity,
        },
        Attribute {
            key: "energy_full_design",
            label: "Design Max. Capacity",
            unit: " \u{3bc}Ah",
            role: Role::DesignCapacity,
        },
        Attribute {
            key: "voltage_min_design",
            label: "Min. Voltage",
            unit: " \u{3bc}V",
            role: Role::Detail,
        },
        Attribute {
            key: "voltage_now",
            label: "Current Voltage",
            unit: " \u{3bc}V",
            role: Role::Detail,
        },
        Attribute { key: "capacity", label: "Charge Level", unit: "%", role: Role::Detail },
        Attribute {
            key: "charge_control_start_threshold",
            label: "Charge Start",
            unit: "%",
            role: Role::Detail,
        },
        Attribute {
            key: "charge_control_end_threshold",
            label: "Charge Limit",
            unit: "%",
            role: Role::Detail,
        },
    ]
}

/// The attributes that the report shows.
pub fn attribute_table() -> (table: Vec<Attribute>)
    ensures
        table@ == attributes(),
{
    let table = vec![
        Attribute { key: "manufacturer", label: "Brand", unit: "", role: Role::Detail },
        Attribute { key: "model_name", label: "Model", unit: "", role: Role::Detail },
        Attribute { key: "technology", label: "Battery Type", unit: "", role: Role::Detail },
        Attribute { key: "status", label: "Charge Status", unit: "", role: Role::Detail },
        Attribute {
            key: "capacity_level",
            label: "Battery Condition",
            unit: "",
            role: Role::Detail,
        },
        Attribute {
            key: "charge_full",
            label: "Current Max. Capacity",
            unit: " \u{3bc}Ah",
            role: Role::Capacity,
        },
        Attribute {
            key: "power_now",
            label: "Current Max. Capacity",
            unit: " \u{3bc}Ah",
            role: Role::Detail,
        },
        Attribute {
            key: "energy_now",
            label: "Current Max. Capacity",
            unit: " \u{3bc}Ah",
            role: Role::Detail,
        },
        Attribute {
            key: "energy_full",
            label: "Current Max. Capacity",
            unit: " \u{3bc}Ah",
            role: Role::Capacity,
        },
        Attribute {
            key: "charge_full_design",
            label: "Design Max. Capacity",
            unit: " \u{3bc}Ah",
            role: Role::DesignCapacity,
        },
        Attribute {
            key: "energy_full_design",
            label: "Design Max. Capacity",
            unit: " \u{3bc}Ah",
            role: Role::DesignCapacity,
        },
        Attribute {
            key: "voltage_min_design",
            label: "Min. Voltage",
            unit: " \u{3bc}V",
            role: Role::Detail,
        },
        Attribute {
            key: "voltage_now",
            label: "Current Voltage",
            unit: " \u{3bc}V",
            role: Role::Detail,
        },
        Attribute { key: "capacity", label: "Charge Level", unit: "%", role: Role::Detail },
        Attribute {
            key: "charge_control_start_threshold",
            label: "Charge Start",
            unit: "%",
            role: Role::Detail,
        },
        Attribute {
            key: "charge_control_end_threshold",
            label: "Charge Limit",
            unit: "%",
            role: Role::Detail,
        },
    ];
    assert(table@ =~= attributes());
    table
}

/// One line of the report about an attribute.
pub struct Row {
    pub label: Seq<char>,
    pub value: Seq<char>,
    pub unit: Seq<char>,
}

/// An attribute that could be read, with its value.
pub struct Entry {
    pub label: &'static str,
    pub value: String,
    pub unit: &'static str,
}

impl View for Entry {
    type V = Row;

    open spec fn view(&self) -> Row {
        Row { label: self.label@, value: self.value@, unit: self.unit@ }
    }
}

/// The rows that stand for `entries`.
pub open spec fn rows_of(entries: Seq<Entry>) -> Seq<Row> {
    Seq::new(entries.len(), |k: int| entries[k]@)
}

/// Whether the file of the attribute `i` could be read.
pub open spec fn present(files: Seq<Option<Seq<char>>>, i: int) -> bool {
    0 <= i < files.len() && files[i] is Some
}

/// The row of the attribute `i`: its label, what its file holds without the
/// white space around it, and its unit.
pub open spec fn row(files: Seq<Option<Seq<char>>>, i: int) -> Row {
    Row { label: attributes()[i].label@, value: trimmed(files[i]->0), unit: attributes()[i].unit@ }
}

/// The rows of the first `n` attributes: one for each attribute whose file
/// could be read, in the order of the attributes.
pub open spec fn rows(files: Seq<Option<Seq<char>>>, n: nat) -> Seq<Row>
    decreases n,
{
    if n == 0 {
        Seq::empty()
    } else if present(files, n - 1) {
        rows(files, (n - 1) as nat).push(row(files, n - 1))
    } else {
        rows(files, (n - 1) as nat)
    }
}

/// The length of the longest label among `rows`, 0 where there is no row.
pub open spec fn widest(rows: Seq<Row>) -> nat
    decreases rows.len(),
{
    if rows.len() == 0 {
        0
    } else {
        let before = widest(rows.drop_last());
        if rows.last().label.len() > before {
            rows.last().label.len()
        } else {
            before
        }
    }
}

/// A line of the report: the label, filled up to `width`, two spaces, and
/// what the line says.
pub open spec fn line(label: Seq<char>, width: nat, said: Seq<char>) -> Seq<char> {
    padded(label, width) + "  "@ + said + "\n"@
}

/// The lines of `rows`, one after the other.
pub open spec fn lines(rows: Seq<Row>, width: nat) -> Seq<char>
    decreases rows.len(),
{
    if rows.len() == 0 {
        Seq::empty()
    } else {
        lines(rows.drop_last(), width) + line(
            rows.last().label,
            width,
            rows.last().value + rows.last().unit,
        )
    }
}

/// Gathers the attributes that could be read. `files` holds, for each
/// attribute of the table in turn, what its file holds, or `None` where it
/// could not be read; an attribute beyond the end of `files` counts as unread.
pub fn collect(files: &Vec<Option<String>>) -> (entries: Vec<Entry>)
    ensures
        rows_of(entries@) == rows(files.deep_view(), attributes().len()),
{
    let table = attribute_table();
    let mut entries: Vec<Entry> = Vec::new();
    let mut i: usize = 0;
    assert(rows_of(entries@) =~= rows(files.deep_view(), 0));
    while i < table.len()
        invariant
            i <= table.len(),
            table@ == attributes(),
            rows_of(entries@) == rows(files.deep_view(), i as nat),
        decreases table.len() - i,
    {
        if i < files.len() {
            match &files[i] {
                Some(raw) => {
                    let value = trim(raw.as_str());
                    let ghost before = entries@;
                    let entry = Entry { label: table[i].label, value, unit: table[i].unit };
                    assert(entry@ == row(files.deep_view(), i as int));
                    entries.push(entry);
                    assert(rows_of(entries@) =~= rows_of(before).push(entry@));
                },
                None => {},
            }
        }
        i = i + 1;
    }
    entries
}

/// Measures the longest label among `entries`.
pub fn measure(entries: &Vec<Entry>) -> (width: usize)
    ensures
        width == widest(rows_of(entries@)),
{
    let mut width: usize = 0;
    let mut k: usize = 0;
    assert(rows_of(entries@).subrange(0, 0) =~= Seq::<Row>::empty());
    while k < entries.len()
        invariant
            k <= entries.len(),
            width == widest(rows_of(entries@).subrange(0, k as int)),
        decreases entries.len() - k,
    {
        let len = entries[k].label.unicode_len();
        proof {
            let upto = rows_of(entries@).subrange(0, k + 1);
            assert(upto.drop_last() =~= rows_of(entries@).subrange(0, k as int));
            assert(upto.last() == entries[k as int]@);
        }
        if len > width {
            width = len;
        }
        k = k + 1;
    }
    assert(rows_of(entries@).subrange(0, k as int) =~= rows_of(entries@));
    width
}

/// Writes one line of the report.
pub fn write_line(label: &str, width: usize, said: &str) -> (text: String)
    ensures
        text@ == line(label@, width as nat, said@),
{
    let mut text = pad(label, width);
    text.append("  ");
    text.append(said);
    text.append("\n");
    text
}

/// Writes the lines of `entries`, the labels filled up to `width`.
pub fn write_lines(entries: &Vec<Entry>, width: usize) -> (text: String)
    ensures
        text@ == lines(rows_of(entries@), width as nat),
{
    let mut text = String::new();
    let mut k: usize = 0;
    assert(rows_of(entries@).subrange(0, 0) =~= Seq::<Row>::empty());
    while k < entries.len()
        invariant
            k <= entries.len(),
            text@ == lines(rows_of(entries@).subrange(0, k as int), width as nat),
        decreases entries.len() - k,
    {
        let mut said = entries[k].value.clone();
        said.append(entries[k].unit);
        let row_text = write_line(entries[k].label, width, said.as_str());
        proof {
            let upto = rows_of(entries@).subrange(0, k + 1);
            assert(upto.drop_last() =~= rows_of(entries@).subrange(0, k as int));
            assert(upto.last() == entries[k as int]@);
        }
        text.append(row_text.as_str());
        k = k + 1;
    }
    assert(rows_of(entries@).subrange(0, k as int) =~= rows_of(entries@));
    text
}

/// The value of the first attribute among the first `n` that has the role
/// `role` and could be read.
pub open spec fn first_value(files: Seq<Option<Seq<char>>>, role: Role, n: nat) -> Option<
    Seq<char>,
>
    decreases n,
{
    if n == 0 {
        None
    } else {
        match first_value(files, role, (n - 1) as nat) {
            Some(value) => Some(value),
            None => if present(files, n - 1) && attributes()[n - 1].role == role {
                Some(trimmed(files[n - 1]->0))
            } else {
                None
            },
        }
    }
}

/// The number that `text` denotes where it is an unsigned decimal number of
/// 32 bits, else `fallback`.
pub open spec fn number_or(text: Seq<char>, fallback: nat) -> nat {
    match parse_unsigned(text, u32::MAX as nat) {
        Some(n) => n,
        None => fallback,
    }
}

/// The health of the battery in percent: what it holds now when full, over
/// what it was made to hold. A capacity that is no number counts as 0, a
/// design capacity that is no number as 1. `None` where one of the two could
/// not be read, or the design capacity is 0.
pub open spec fn health(files: Seq<Option<Seq<char>>>) -> Option<nat> {
    let n = attributes().len();
    match (first_value(files, Role::Capacity, n), first_value(files, Role::DesignCapacity, n)) {
        (Some(now), Some(design)) => {
            let full = number_or(design, 1);
            if full == 0 {
                None
            } else {
                Some(100 * number_or(now, 0) / full)
            }
        },
        _ => None,
    }
}

/// What the report says of the persisted limit.
pub open spec fn persist_state(persisted: Option<Percent>) -> Seq<char> {
    match persisted {
        None => "NO"@,
        Some(limit) => if limit.0 == 0 {
            "INCONSISTENT"@
        } else {
            limit.text() + "%"@
        },
    }
}

/// What the report says of the battery's health.
pub open spec fn health_state(health: Option<nat>) -> Seq<char> {
    match health {
        Some(percent) => decimal(percent) + "%"@,
        None => "NO INFO"@,
    }
}

/// The report on the battery at `bat_path`: its name in brackets, a line for
/// each attribute that could be read, the persisted limit, and the health.
/// All labels are filled up to the longest label of an attribute line.
pub open spec fn report_text(
    bat_path: Seq<char>,
    files: Seq<Option<Seq<char>>>,
    persisted: Option<Percent>,
) -> Seq<char> {
    let shown = rows(files, attributes().len());
    let width = widest(shown);
    "["@ + last_segment(bat_path) + "]\n"@ + lines(shown, width) + line(
        "Persist state"@,
        width,
        persist_state(persisted),
    ) + line("health"@, width, health_state(health(files)))
}

/// Finds the value of the first attribute that has the role `role` and could
/// be read.
pub fn find_value(files: &Vec<Option<String>>, role: Role) -> (value: Option<String>)
    ensures
        value.deep_view() == first_value(files.deep_view(), role, attributes().len()),
{
    let table = attribute_table();
    let mut i: usize = 0;
    while i < table.len()
        invariant
            i <= table.len(),
            table@ == attributes(),
            first_value(files.deep_view(), role, i as nat) is None,
        decreases table.len() - i,
    {
        if i < files.len() && table[i].role == role {
            match &files[i] {
                Some(raw) => {
                    let value = trim(raw.as_str());
                    proof {
                        lemma_first_value_stays(files.deep_view(), role, i + 1, table.len() as int);
                    }
                    return Some(value);
                },
                None => {},
            }
        }
        i = i + 1;
    }
    None
}

/// A value that is found among the first attributes is the one found among
/// all of them.
pub proof fn lemma_first_value_stays(
    files: Seq<Option<Seq<char>>>,
    role: Role,
    found: int,
    n: int,
)
    requires
        0 <= found <= n,
        first_value(files, role, found as nat) is Some,
    ensures
        first_value(files, role, n as nat) == first_value(files, role, found as nat),
    decreases n - found,
{
    if found < n {
        lemma_first_value_stays(files, role, found, n - 1);
    }
}

/// Works out the health of the battery in percent.
pub fn measure_health(files: &Vec<Option<String>>) -> (percent: Option<u64>)
    ensures
        match health(files.deep_view()) {
            Some(h) => percent == Some(h as u64),
            None => percent is None,
        },
{
    let now = find_value(files, Role::Capacity);
    let design = find_value(files, Role::DesignCapacity);
    match (now, design) {
        (Some(now), Some(design)) => {
            let holds: u64 = match read_unsigned(now.as_str(), u32::MAX) {
                Some(n) => n as u64,
                None => 0,
            };
            let full: u64 = match read_unsigned(design.as_str(), u32::MAX) {
                Some(n) => n as u64,
                None => 1,
            };
            if full == 0 {
                None
            } else {
                Some(100 * holds / full)
            }
        },
        _ => None,
    }
}

/// Writes the report on the battery at `bat_path`. `files` holds, for each
/// attribute of the table in turn, what its file holds, or `None` where it
/// could not be read. `persisted` is the limit that the service units agree
/// on.
pub fn report(bat_path: &str, files: &Vec<Option<String>>, persisted: Option<Percent>) -> (text:
    String)
    ensures
        text@ == report_text(bat_path@, files.deep_view(), persisted),
{
    let entries = collect(files);
    let width = measure(&entries);
    let mut text = "[".to_owned();
    text.append(final_segment(bat_path).as_str());
    text.append("]\n");
    text.append(write_lines(&entries, width).as_str());
    let state = match persisted {
        None => "NO".to_owned(),
        Some(limit) => {
            if limit.0 == 0 {
                "INCONSISTENT".to_owned()
            } else {
                let mut state = limit.to_string();
                state.append("%");
                state
            }
        },
    };
    text.append(write_line("Persist state", width, state.as_str()).as_str());
    let condition = match measure_health(files) {
        Some(percent) => {
            let mut condition = format_decimal(percent);
            condition.append("%");
            condition
        },
        None => "NO INFO".to_owned(),
    };
    text.append(write_line("health", width, condition.as_str()).as_str());
    text
}

impl Battery {
    /// The files of the attributes that the report shows, in the order of the
    /// attributes.
    pub fn attribute_paths(&self) -> (paths: Vec<String>)
        ensures
            paths.len() == attributes().len(),
            forall|i: int|
                0 <= i < paths.len() ==> (#[trigger] paths[i])@ == joined(
                    self@,
                    attributes()[i].key@,
                ),
    {
        let table = attribute_table();
        let mut paths: Vec<String> = Vec::new();
        let mut i: usize = 0;
        while i < table.len()
            invariant
                i <= table.len(),
                table@ == attributes(),
                paths.len() == i,
                forall|j: int|
                    0 <= j < i ==> (#[trigger] paths[j])@ == joined(self@, attributes()[j].key@),
            decreases table.len() - i,
        {
            paths.push(join(self.path(), table[i].key));
            i = i + 1;
        }
        paths
    }

    /// Writes the report on the battery. `attributes` holds, for each
    /// attribute of the report in turn, what its file holds, or `None` where
    /// it could not be read; `units` holds the same for the unit file of each
    /// target.
    pub fn info(&self, attributes: &Vec<Option<String>>, units: &Vec<Option<String>>) -> (text:
        String)
        ensures
            text@ == report_text(
                self@,
                attributes.deep_view(),
                agreement(readings(units.deep_view())),
            ),
    {
        let persisted = self.get_persist(units);
        report(self.path(), attributes, persisted)
    }
}

/// How many of the first `n` attributes could be read.
pub open spec fn readable(files: Seq<Option<Seq<char>>>, n: nat) -> nat
    decreases n,
{
    if n == 0 {
        0
    } else if present(files, n - 1) {
        readable(files, (n - 1) as nat) + 1
    } else {
        readable(files, (n - 1) as nat)
    }
}

/// Whether `shown` is the row of one of the first `n` attributes, and the
/// file of that attribute could be read.
pub open spec fn row_of_readable(files: Seq<Option<Seq<char>>>, n: nat, shown: Row) -> bool {
    exists|i: int| 0 <= i < n && present(files, i) && shown == row(files, i)
}

/// Whether `rows` holds the row `shown`.
pub open spec fn holds_row(rows: Seq<Row>, shown: Row) -> bool {
    exists|k: int| 0 <= k < rows.len() && rows[k] == shown
}

/// The report has one row for each attribute that could be read and none for
/// the others: there are as many rows as readable attributes, every row is
/// that of a readable attribute, and every readable attribute has its row.
pub proof fn lemma_rows_are_readable(files: Seq<Option<Seq<char>>>, n: nat)
    ensures
        rows(files, n).len() == readable(files, n),
        forall|k: int|
            0 <= k < rows(files, n).len() ==> row_of_readable(files, n, #[trigger] rows(files, n)[k]),
        forall|i: int|
            0 <= i < n && present(files, i) ==> holds_row(rows(files, n), #[trigger] row(files, i)),
    decreases n,
{
    if n > 0 {
        let before = rows(files, (n - 1) as nat);
        let now = rows(files, n);
        lemma_rows_are_readable(files, (n - 1) as nat);
        assert forall|k: int| 0 <= k < now.len() implies row_of_readable(
            files,
            n,
            #[trigger] now[k],
        ) by {
            if k < before.len() {
                assert(row_of_readable(files, (n - 1) as nat, before[k]));
                let i = choose|i: int|
                    0 <= i < n - 1 && present(files, i) && before[k] == row(files, i);
                assert(0 <= i < n && present(files, i) && now[k] == row(files, i));
            } else {
                assert(present(files, n - 1) && now[k] == row(files, n - 1));
            }
        }
        assert forall|i: int| 0 <= i < n && present(files, i) implies holds_row(
            now,
            #[trigger] row(files, i),
        ) by {
            if i < n - 1 {
                assert(holds_row(before, row(files, i)));
                let k = choose|k: int| 0 <= k < before.len() && before[k] == row(files, i);
                assert(now[k] == row(files, i));
            } else {
                assert(now[now.len() - 1] == row(files, i));
            }
        }
    }
}

/// No label among `rows` is longer than the widest.
pub proof fn lemma_label_fits(rows: Seq<Row>, k: int)
    requires
        0 <= k < rows.len(),
    ensures
        rows[k].label.len() <= widest(rows),
    decreases rows.len(),
{
    if k < rows.len() - 1 {
        lemma_label_fits(rows.drop_last(), k);
    }
}

/// Whether what `text` says starts at the column `column`: before it stands
/// the label, then nothing but spaces, two of them at least; behind it a line
/// break ends the line.
pub open spec fn aligned_at(text: Seq<char>, column: int, label: Seq<char>, said: Seq<char>) -> bool {
    &&& label.len() + 2 <= column
    &&& text.len() == column + said.len() + 1
    &&& text.subrange(0, label.len() as int) == label
    &&& forall|j: int| label.len() <= j < column ==> text[j] == ' '
    &&& text.subrange(column, column + said.len()) == said
    &&& text[column + said.len()] == '\n'
}

/// A line whose label fits the width says what it says two columns behind
/// the width.
pub proof fn lemma_line_aligned(label: Seq<char>, width: nat, said: Seq<char>)
    requires
        label.len() <= width,
    ensures
        aligned_at(line(label, width, said), (width + 2) as int, label, said),
{
    reveal_strlit("  ");
    reveal_strlit("\n");
    let text = line(label, width, said);
    assert(text.subrange(0, label.len() as int) =~= label);
    let column = (width + 2) as int;
    assert(text.subrange(column, column + said.len()) =~= said);
}

/// The rows of the report are aligned: whatever attributes could be read,
/// each row says its value and unit at one and the same column, two behind
/// the longest label that is shown.
pub proof fn lemma_rows_aligned(files: Seq<Option<Seq<char>>>, k: int)
    requires
        0 <= k < rows(files, attributes().len()).len(),
    ensures
        ({
            let shown = rows(files, attributes().len());
            aligned_at(
                line(shown[k].label, widest(shown), shown[k].value + shown[k].unit),
                (widest(shown) + 2) as int,
                shown[k].label,
                shown[k].value + shown[k].unit,
            )
        }),
{
    let shown = rows(files, attributes().len());
    lemma_label_fits(shown, k);
    lemma_line_aligned(shown[k].label, widest(shown), shown[k].value + shown[k].unit);
}

} // verus!
