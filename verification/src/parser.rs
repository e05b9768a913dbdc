//! Reading a report: line by line, each line a key and a value around the
//! first `=`, each known key setting one field of the snapshot.

use crate::snapshot::{Field, Info, ParseError, Snapshot};
use crate::text::{
    after_first, before_first, lemma_prefix_len_bounds, lemma_prefix_len_is, lines, split_once,
    strip, stripped, to_chars, CharClass,
};
use vstd::prelude::*;

verus! {

/// The key of a line: what stands before its first `=` (the whole line
/// where it has none), without the white space around it and then without
/// the double quotes around what is left.
pub open spec fn line_key(line: Seq<char>) -> Seq<char> {
    stripped(stripped(before_first(line, '='), CharClass::Whitespace), CharClass::Quote)
}

/// The value of a line: all that stands after its first `=`, without the
/// white space around it. A line without `=` has none.
pub open spec fn line_value(line: Seq<char>) -> Option<Seq<char>> {
    match after_first(line, '=') {
        Some(rest) => Some(stripped(rest, CharClass::Whitespace)),
        None => None,
    }
}

/// The field that a line speaks of, if its key is a known one.
pub open spec fn line_field(line: Seq<char>) -> Option<Field> {
    Field::of_key(line_key(line))
}

/// The snapshot after one more line. A line whose key is not known leaves
/// it as it is. A line with a known key sets that field from its value, and
/// is an error where it has no value or one that the field cannot take.
pub open spec fn step(snap: Snapshot, line: Seq<char>) -> Result<Snapshot, ParseError> {
    match line_field(line) {
        None => Ok(snap),
        Some(field) => match line_value(line) {
            None => Err(ParseError::MissingValue(field)),
            Some(text) => snap.assign(field, text),
        },
    }
}

/// The snapshot after the given lines, read in order from `snap`; the error
/// of the first line that fails, where one does.
pub open spec fn fold(snap: Snapshot, report: Seq<Seq<char>>) -> Result<Snapshot, ParseError>
    decreases report.len(),
{
    if report.len() == 0 {
        Ok(snap)
    } else {
        match step(snap, report[0]) {
            Ok(next) => fold(next, report.drop_first()),
            Err(e) => Err(e),
        }
    }
}

/// The snapshot that a report gives: its lines read in order, from the
/// empty snapshot.
pub open spec fn parse(text: Seq<char>) -> Result<Snapshot, ParseError> {
    fold(Snapshot::empty(), lines(text))
}

/// A line without `=` has no value. It is passed over where its key is
/// not a known one, and is an error where it is: either way no snapshot
/// comes of it but the one it met.
pub proof fn lemma_line_without_separator(snap: Snapshot, line: Seq<char>)
    requires
        !line.contains('='),
    ensures
        line_value(line) is None,
        line_field(line) is None ==> step(snap, line) == Ok::<Snapshot, ParseError>(snap),
        line_field(line) matches Some(field) ==> step(snap, line) == Err::<
            Snapshot,
            ParseError,
        >(ParseError::MissingValue(field)),
        step(snap, line) matches Ok(next) ==> next == snap,
{
    assert forall|i: int| 0 <= i < line.len() implies CharClass::Except('=').contains(
        #[trigger] line[i],
    ) by {
        if line[i] == '=' {
            assert(line.contains('='));
        }
    }
    lemma_prefix_len_is(line, CharClass::Except('='), line.len() as int);
}

/// A line whose key is not a known one leaves the snapshot as it is,
/// whatever else the line holds.
pub proof fn lemma_unknown_key_ignored(snap: Snapshot, line: Seq<char>)
    requires
        Field::of_key(line_key(line)) is None,
    ensures
        step(snap, line) == Ok::<Snapshot, ParseError>(snap),
{
}

/// Whether a value can be given to a field does not depend on the snapshot,
/// nor does what the field then holds; the other fields stay.
pub proof fn lemma_assign(a: Snapshot, b: Snapshot, field: Field, text: Seq<char>)
    ensures
        a.assign(field, text) is Ok <==> b.assign(field, text) is Ok,
        a.assign(field, text) is Err ==> a.assign(field, text) == b.assign(field, text),
        a.assign(field, text) matches Ok(x) ==> {
            &&& b.assign(field, text) matches Ok(y)
            &&& x.same_in(y, field)
            &&& forall|other: Field| other != field ==> #[trigger] x.same_in(a, other)
        },
{
}

/// A field that no line of the report names is, after the report, what it
/// was before.
pub proof fn lemma_unnamed_field_kept(snap: Snapshot, report: Seq<Seq<char>>, field: Field)
    requires
        forall|j: int| 0 <= j < report.len() ==> line_field(#[trigger] report[j]) != Some(field),
    ensures
        fold(snap, report) matches Ok(out) ==> out.same_in(snap, field),
    decreases report.len(),
{
    if report.len() > 0 {
        if let Ok(next) = step(snap, report[0]) {
            let rest = report.drop_first();
            assert forall|j: int| 0 <= j < rest.len() implies line_field(#[trigger] rest[j])
                != Some(field) by {
                assert(rest[j] == report[j + 1]);
            }
            if let Some(named) = line_field(report[0]) {
                lemma_assign(snap, snap, named, line_value(report[0])->Some_0);
                assert(next.same_in(snap, field));
            }
            lemma_unnamed_field_kept(next, rest, field);
        }
    }
}

/// Where several lines of a report name one field, the last of them wins:
/// after the report the field holds what that line's value alone gives it.
pub proof fn lemma_last_line_wins(snap: Snapshot, report: Seq<Seq<char>>, i: int, field: Field)
    requires
        0 <= i < report.len(),
        line_field(report[i]) == Some(field),
        forall|j: int| i < j < report.len() ==> line_field(#[trigger] report[j]) != Some(field),
    ensures
        fold(snap, report) matches Ok(out) ==> {
            &&& line_value(report[i]) matches Some(text)
            &&& snap.assign(field, text) matches Ok(set)
            &&& out.same_in(set, field)
        },
    decreases report.len(),
{
    if let Ok(next) = step(snap, report[0]) {
        let rest = report.drop_first();
        if i == 0 {
            assert forall|j: int| 0 <= j < rest.len() implies line_field(#[trigger] rest[j])
                != Some(field) by {
                assert(rest[j] == report[j + 1]);
            }
            lemma_unnamed_field_kept(next, rest, field);
        } else {
            assert(rest[i - 1] == report[i]);
            assert forall|j: int| i - 1 < j < rest.len() implies line_field(#[trigger] rest[j])
                != Some(field) by {
                assert(rest[j] == report[j + 1]);
            }
            lemma_last_line_wins(next, rest, i - 1, field);
            if fold(next, rest) is Ok {
                lemma_assign(next, snap, field, line_value(report[i])->Some_0);
            }
        }
    }
}

/// A report that can be read from one snapshot can be read from any other,
/// and in each field the two results either agree or hold what their
/// snapshots held before.
pub proof fn lemma_fold_from_two(a: Snapshot, b: Snapshot, report: Seq<Seq<char>>, field: Field)
    ensures
        fold(a, report) matches Ok(x) ==> {
            &&& fold(b, report) matches Ok(y)
            &&& (x.same_in(y, field) || (x.same_in(a, field) && y.same_in(b, field)))
        },
    decreases report.len(),
{
    if report.len() > 0 {
        if let Ok(next_a) = step(a, report[0]) {
            if let Some(named) = line_field(report[0]) {
                lemma_assign(a, b, named, line_value(report[0])->Some_0);
                lemma_assign(b, a, named, line_value(report[0])->Some_0);
            }
            let next_b = step(b, report[0])->Ok_0;
            lemma_fold_from_two(next_a, next_b, report.drop_first(), field);
        }
    }
}

/// Reading is idempotent: a report read a second time, into the snapshot
/// that it gave, gives that snapshot again.
pub proof fn lemma_fold_idempotent(snap: Snapshot, report: Seq<Seq<char>>)
    ensures
        fold(snap, report) matches Ok(out) ==> fold(out, report) == Ok::<Snapshot, ParseError>(
            out,
        ),
{
    if let Ok(out) = fold(snap, report) {
        lemma_fold_from_two(snap, out, report, Field::IsCharging);
        lemma_fold_from_two(snap, out, report, Field::MaxCapacity);
        lemma_fold_from_two(snap, out, report, Field::CurrentCapacity);
        lemma_fold_from_two(snap, out, report, Field::DesignCapacity);
        lemma_fold_from_two(snap, out, report, Field::CycleCount);
        lemma_fold_from_two(snap, out, report, Field::Temperature);
    }
}

/// A report that parses gives the same snapshot when its lines are read
/// once more into what it gave.
pub proof fn lemma_parse_idempotent(text: Seq<char>)
    ensures
        parse(text) matches Ok(out) ==> fold(out, lines(text)) == parse(text),
{
    lemma_fold_idempotent(Snapshot::empty(), lines(text));
}

impl Info {
    /// Reads one line into the snapshot. On an error the snapshot stays as
    /// it was.
    pub fn apply_line(&mut self, line: &[char]) -> (r: Result<(), ParseError>)
        ensures
            match step(old(self)@, line@) {
                Ok(next) => r is Ok && final(self)@ == next,
                Err(e) => r == Err::<(), ParseError>(e) && final(self)@ == old(self)@,
            },
    {
        let (head, tail) = split_once(line, '=');
        let key: &[char] = strip(strip(head, CharClass::Whitespace), CharClass::Quote);
        match Field::lookup(key) {
            None => Ok(()),
            Some(field) => match tail {
                None => Err(ParseError::MissingValue(field)),
                Some(rest) => self.assign(field, strip(rest, CharClass::Whitespace)),
            },
        }
    }
}

/// Reads a report, given as its characters.
pub fn parse_chars(text: &[char]) -> (r: Result<Info, ParseError>)
    ensures
        match parse(text@) {
            Ok(snap) => r is Ok && r->Ok_0@ == snap,
            Err(e) => r is Err && r->Err_0 == e,
        },
{
    let mut info: Info = Info::new();
    let mut rest: &[char] = text;
    loop
        invariant
            parse(text@) == fold(info@, lines(rest@)),
        decreases rest@.len(),
    {
        let (line, tail) = split_once(rest, '\n');
        proof {
            lemma_prefix_len_bounds(rest@, CharClass::Except('\n'));
            let report = lines(rest@);
            assert(report[0] == line@);
            match tail {
                Some(t) => {
                    assert(report.drop_first() == lines(t@));
                },
                None => {
                    assert(report.drop_first() == Seq::<Seq<char>>::empty());
                },
            }
        }
        match info.apply_line(line) {
            Err(e) => {
                return Err(e);
            },
            Ok(()) => {},
        }
        match tail {
            None => {
                assert(fold(info@, Seq::<Seq<char>>::empty()) == Ok::<Snapshot, ParseError>(info@));
                return Ok(info);
            },
            Some(t) => {
                rest = t;
            },
        }
    }
}

/// Reads a report.
pub fn parse_report(text: &str) -> (r: Result<Info, ParseError>)
    ensures
        match parse(text@) {
            Ok(snap) => r is Ok && r->Ok_0@ == snap,
            Err(e) => r is Err && r->Err_0 == e,
        },
{
    let chars: Vec<char> = to_chars(text);
    parse_chars(chars.as_slice())
}

} // verus!
