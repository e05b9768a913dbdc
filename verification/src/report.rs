//! Laying out a snapshot: four rows for a terminal, each a label, a value
//! and a short description between ANSI escape codes.

use crate::number::{decimal, push_decimal};
use crate::snapshot::{Info, Snapshot};
use vstd::prelude::*;
use vstd::string::StringExecFns;

verus! {

/// The terminal styles that a row is written in.
#[derive(Clone, Copy, Debug, PartialEq, Eq, Structural)]
pub enum Style {
    Reset,
    Bold,
    Normal,
    Italic,
    Blue,
    Red,
    Yellow,
    Cyan,
    Gray,
}

impl Style {
    /// The escape code that switches the style on.
    pub open spec fn escape(self) -> Seq<char> {
        match self {
            Style::Reset => "\x1b[0m"@,
            Style::Bold => "\x1b[1m"@,
            Style::Normal => "\x1b[22m"@,
            Style::Italic => "\x1b[3m"@,
            Style::Blue => "\x1b[34m"@,
            Style::Red => "\x1b[31m"@,
            Style::Yellow => "\x1b[33m"@,
            Style::Cyan => "\x1b[36m"@,
            Style::Gray => "\x1b[90m"@,
        }
    }

    /// The escape code that switches the style on.
    pub fn code(self) -> (code: &'static str)
        ensures
            code@ == self.escape(),
    {
        match self {
            Style::Reset => "\x1b[0m",
            Style::Bold => "\x1b[1m",
            Style::Normal => "\x1b[22m",
            Style::Italic => "\x1b[3m",
            Style::Blue => "\x1b[34m",
            Style::Red => "\x1b[31m",
            Style::Yellow => "\x1b[33m",
            Style::Cyan => "\x1b[36m",
            Style::Gray => "\x1b[90m",
        }
    }
}

/// One row: the label in the row's colour and of normal weight, a tab, the
/// value in bold, two spaces, the description in gray italics of normal
/// weight, and the reset of all styles.
pub open spec fn styled_row(
    name: Seq<char>,
    value: Seq<char>,
    desc: Seq<char>,
    color: Seq<char>,
) -> Seq<char> {
    color + Style::Normal.escape() + name + "\t"@ + Style::Bold.escape() + value + "  "@
        + Style::Gray.escape() + Style::Normal.escape() + Style::Italic.escape() + desc
        + Style::Reset.escape()
}

/// The glyph that shows which way the charge goes: up while charging, down
/// otherwise.
pub open spec fn charging_glyph(is_charging: bool) -> char {
    if is_charging {
        '⇡'
    } else {
        '⇣'
    }
}

/// What a row shows for the percentage of `part` in a whole of zero: no
/// number, but the word for an infinite quotient with the sign of `part`,
/// or the word for an undefined one where `part` is zero too.
pub open spec fn percent_of_nothing(part: int) -> Seq<char> {
    if part > 0 {
        "inf"@
    } else if part < 0 {
        "-inf"@
    } else {
        "NaN"@
    }
}

/// The value of a row that sets one capacity against another: the
/// percentage, then both capacities in mAh. The percentage is the text
/// that the caller worked out, unless the whole is zero: a division by
/// zero is shown in words, whatever the caller gave.
pub open spec fn ratio_value(percent: Seq<char>, part: int, whole: int) -> Seq<char> {
    (if whole == 0 {
        percent_of_nothing(part)
    } else {
        percent
    }) + "% ("@ + decimal(part) + "/"@ + decimal(whole) + " mAh)"@
}

/// The value of the temperature row, from the degrees as the caller worked
/// them out.
pub open spec fn temperature_text(degrees: Seq<char>) -> Seq<char> {
    degrees + " °C"@
}

impl Snapshot {
    /// The value of the health row: the most that the battery holds now,
    /// against what it was made for.
    pub open spec fn health_value(self, percent: Seq<char>) -> Seq<char> {
        ratio_value(percent, self.max_capacity, self.design_capacity)
    }

    /// The value of the cycles row.
    pub open spec fn cycles_value(self) -> Seq<char> {
        decimal(self.cycles_count)
    }

    /// The value of the charge row: what the battery holds at this moment,
    /// against the most that it holds now, and the charging glyph.
    pub open spec fn charge_value(self, percent: Seq<char>) -> Seq<char> {
        ratio_value(percent, self.current_capacity, self.max_capacity) + " "@
            + seq![charging_glyph(self.is_charging)]
    }

    /// The four rows of the report, in the order in which they are shown:
    /// health in blue, temperature in red, cycles in yellow, charge in cyan.
    pub open spec fn rows(
        self,
        health_percent: Seq<char>,
        degrees: Seq<char>,
        charge_percent: Seq<char>,
    ) -> Seq<Seq<char>> {
        seq![
            styled_row(
                "Raw Health"@,
                self.health_value(health_percent),
                "Raw battery health"@,
                Style::Blue.escape(),
            ),
            styled_row(
                "Temperature"@,
                temperature_text(degrees),
                "Battery temperature"@,
                Style::Red.escape(),
            ),
            styled_row("Cycles count"@, self.cycles_value(), "Cycles count"@, Style::Yellow.escape()),
            styled_row(
                "Charge info"@,
                self.charge_value(charge_percent),
                "Charge percent"@,
                Style::Cyan.escape(),
            ),
        ]
    }

    /// The report as one text: the four rows, a line feed after each.
    pub open spec fn report(
        self,
        health_percent: Seq<char>,
        degrees: Seq<char>,
        charge_percent: Seq<char>,
    ) -> Seq<char> {
        let rows = self.rows(health_percent, degrees, charge_percent);
        rows[0] + "\n"@ + rows[1] + "\n"@ + rows[2] + "\n"@ + rows[3] + "\n"@
    }
}

/// Lays out one row.
pub fn format_opt(name: &str, value: &str, desc: &str, color: &str) -> (row: String)
    ensures
        row@ == styled_row(name@, value@, desc@, color@),
{
    let mut row: String = String::from_str(color);
    row.append(Style::Normal.code());
    row.append(name);
    row.append("\t");
    row.append(Style::Bold.code());
    row.append(value);
    row.append("  ");
    row.append(Style::Gray.code());
    row.append(Style::Normal.code());
    row.append(Style::Italic.code());
    row.append(desc);
    row.append(Style::Reset.code());
    row
}

/// Picks the glyph that shows which way the charge goes.
pub fn charging_symbol(is_charging: bool) -> (glyph: char)
    ensures
        glyph == charging_glyph(is_charging),
{
    if is_charging {
        '⇡'
    } else {
        '⇣'
    }
}

/// Writes the value of a row that sets one capacity against another.
/// `percent` is the percentage of `part` in `whole` as the caller worked it
/// out; it is not read where `whole` is zero.
pub fn format_ratio(percent: &str, part: isize, whole: isize) -> (value: String)
    ensures
        value@ == ratio_value(percent@, part as int, whole as int),
{
    let shown: &str = if whole != 0 {
        percent
    } else if part > 0 {
        "inf"
    } else if part < 0 {
        "-inf"
    } else {
        "NaN"
    };
    let mut value: String = String::from_str(shown);
    value.append("% (");
    push_decimal(&mut value, part);
    value.append("/");
    push_decimal(&mut value, whole);
    value.append(" mAh)");
    value
}

/// Writes the value of the temperature row.
pub fn format_temperature(degrees: &str) -> (value: String)
    ensures
        value@ == temperature_text(degrees@),
{
    let mut value: String = String::from_str(degrees);
    value.append(" °C");
    value
}

impl Info {
    /// Writes the value of the health row.
    pub fn health_value(&self, percent: &str) -> (value: String)
        ensures
            value@ == self@.health_value(percent@),
    {
        format_ratio(percent, self.max_capacity, self.design_capacity)
    }

    /// Writes the value of the cycles row.
    pub fn cycles_value(&self) -> (value: String)
        ensures
            value@ == self@.cycles_value(),
    {
        let mut value: String = String::new();
        push_decimal(&mut value, self.cycles_count);
        assert(value@ == decimal(self.cycles_count as int));
        value
    }

    /// Writes the value of the charge row.
    pub fn charge_value(&self, percent: &str) -> (value: String)
        ensures
            value@ == self@.charge_value(percent@),
    {
        let mut value: String = format_ratio(percent, self.current_capacity, self.max_capacity);
        value.append(" ");
        let ghost before = value@;
        value.push(charging_symbol(self.is_charging));
        assert(value@ == before + seq![charging_glyph(self.is_charging)]);
        value
    }

    /// Lays out the four rows of the report. The two percentages and the
    /// degrees are the caller's: they come in as the texts to show. A
    /// percentage of a capacity of zero is shown in words instead.
    pub fn rows(&self, health_percent: &str, degrees: &str, charge_percent: &str) -> (rows: Vec<
        String,
    >)
        ensures
            rows@.len() == 4,
            forall|i: int|
                0 <= i < 4 ==> (#[trigger] rows@[i])@ == self@.rows(
                    health_percent@,
                    degrees@,
                    charge_percent@,
                )[i],
    {
        let health: String = self.health_value(health_percent);
        let temperature: String = format_temperature(degrees);
        let cycles: String = self.cycles_value();
        let charge: String = self.charge_value(charge_percent);
        let mut rows: Vec<String> = Vec::new();
        rows.push(
            format_opt("Raw Health", health.as_str(), "Raw battery health", Style::Blue.code()),
        );
        rows.push(
            format_opt(
                "Temperature",
                temperature.as_str(),
                "Battery temperature",
                Style::Red.code(),
            ),
        );
        rows.push(format_opt("Cycles count", cycles.as_str(), "Cycles count", Style::Yellow.code()));
        rows.push(
            format_opt("Charge info", charge.as_str(), "Charge percent", Style::Cyan.code()),
        );
        rows
    }

    /// Prints the report to the end of `out`: the four rows, a line feed
    /// after each. The two percentages and the degrees are the caller's.
    pub fn print(&self, out: &mut String, health_percent: &str, degrees: &str, charge_percent: &str)
        ensures
            final(out)@ == old(out)@ + self@.report(health_percent@, degrees@, charge_percent@),
    {
        let rows: Vec<String> = self.rows(health_percent, degrees, charge_percent);
        let ghost shown = self@.rows(health_percent@, degrees@, charge_percent@);
        let mut i: usize = 0;
        while i < 4
            invariant
                i <= 4,
                rows@.len() == 4,
                forall|j: int| 0 <= j < 4 ==> (#[trigger] rows@[j])@ == shown[j],
                out@ == old(out)@ + printed(shown, i as int),
            decreases 4 - i,
        {
            out.append(rows[i].as_str());
            out.append("\n");
            assert(out@ == old(out)@ + printed(shown, i + 1));
            i += 1;
        }
        assert(printed(shown, 4) == self@.report(health_percent@, degrees@, charge_percent@)) by {
            reveal_with_fuel(printed, 5);
        }
    }
}

/// The first `n` of the given rows as one text, a line feed after each.
pub open spec fn printed(rows: Seq<Seq<char>>, n: int) -> Seq<char>
    decreases n,
{
    if n <= 0 {
        Seq::empty()
    } else {
        printed(rows, n - 1) + rows[n - 1] + "\n"@
    }
}

} // verus!
