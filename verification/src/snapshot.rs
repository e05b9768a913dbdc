//! The battery snapshot, the fields that a report can set, and what can go
//! wrong when it sets one.

use crate::number::{check_float_literal, is_float_literal, isize_value, parse_isize};
use crate::text::spells;
use vstd::prelude::*;
use vstd::string::StringExecFns;

verus! {

/// A field of the snapshot that a line of the report can set.
#[derive(Clone, Copy, Debug, PartialEq, Eq, Structural)]
pub enum Field {
    IsCharging,
    MaxCapacity,
    CurrentCapacity,
    DesignCapacity,
    CycleCount,
    Temperature,
}

/// Why a report was given up.
#[derive(Clone, Copy, Debug, PartialEq, Eq, Structural)]
pub enum ParseError {
    /// A line names the field and has no `=`, so no value.
    MissingValue(Field),
    /// The value that a line gives the field is not a number of its kind.
    InvalidNumber(Field),
}

impl Field {
    /// The key under which a report gives the field.
    pub open spec fn key(self) -> Seq<char> {
        match self {
            Field::IsCharging => "IsCharging"@,
            Field::MaxCapacity => "AppleRawMaxCapacity"@,
            Field::CurrentCapacity => "AppleRawCurrentCapacity"@,
            Field::DesignCapacity => "DesignCapacity"@,
            Field::CycleCount => "CycleCount"@,
            Field::Temperature => "Temperature"@,
        }
    }

    /// The field that a key stands for: the first in the table whose key it
    /// is, `None` for every other text.
    pub open spec fn of_key(key: Seq<char>) -> Option<Field> {
        if key == Field::IsCharging.key() {
            Some(Field::IsCharging)
        } else if key == Field::MaxCapacity.key() {
            Some(Field::MaxCapacity)
        } else if key == Field::CurrentCapacity.key() {
            Some(Field::CurrentCapacity)
        } else if key == Field::DesignCapacity.key() {
            Some(Field::DesignCapacity)
        } else if key == Field::CycleCount.key() {
            Some(Field::CycleCount)
        } else if key == Field::Temperature.key() {
            Some(Field::Temperature)
        } else {
            None
        }
    }

    /// Looks a key up in the table of fields.
    pub fn lookup(key: &[char]) -> (field: Option<Field>)
        ensures
            field == Field::of_key(key@),
    {
        if spells(key, "IsCharging") {
            Some(Field::IsCharging)
        } else if spells(key, "AppleRawMaxCapacity") {
            Some(Field::MaxCapacity)
        } else if spells(key, "AppleRawCurrentCapacity") {
            Some(Field::CurrentCapacity)
        } else if spells(key, "DesignCapacity") {
            Some(Field::DesignCapacity)
        } else if spells(key, "CycleCount") {
            Some(Field::CycleCount)
        } else if spells(key, "Temperature") {
            Some(Field::Temperature)
        } else {
            None
        }
    }
}

/// What a snapshot holds, as mathematical values.
pub struct Snapshot {
    pub temperature: Seq<char>,
    pub cycles_count: int,
    pub design_capacity: int,
    pub max_capacity: int,
    pub current_capacity: int,
    pub is_charging: bool,
}

/// The state of a battery at one moment, as a report gives it.
#[derive(Debug, PartialEq, Eq)]
pub struct Info {
    /// The temperature reading as the report writes it: the literal of a
    /// decimal fraction, in hundredths of a degree Celsius.
    pub temperature: String,
    /// How many charge cycles the battery has been through.
    pub cycles_count: isize,
    /// The capacity that the battery was made for, in mAh.
    pub design_capacity: isize,
    /// The most that the battery can hold now, in mAh.
    pub max_capacity: isize,
    /// What the battery holds at this moment, in mAh.
    pub current_capacity: isize,
    /// Whether the battery is being charged.
    pub is_charging: bool,
}

impl View for Info {
    type V = Snapshot;

    open spec fn view(&self) -> Snapshot {
        Snapshot {
            temperature: self.temperature@,
            cycles_count: self.cycles_count as int,
            design_capacity: self.design_capacity as int,
            max_capacity: self.max_capacity as int,
            current_capacity: self.current_capacity as int,
            is_charging: self.is_charging,
        }
    }
}

impl Snapshot {
    /// The snapshot before any line was read: every number zero, not charging.
    pub open spec fn empty() -> Snapshot {
        Snapshot {
            temperature: "0"@,
            cycles_count: 0,
            design_capacity: 0,
            max_capacity: 0,
            current_capacity: 0,
            is_charging: false,
        }
    }

    /// Whether two snapshots hold the same in `field`.
    pub open spec fn same_in(self, other: Snapshot, field: Field) -> bool {
        match field {
            Field::IsCharging => self.is_charging == other.is_charging,
            Field::MaxCapacity => self.max_capacity == other.max_capacity,
            Field::CurrentCapacity => self.current_capacity == other.current_capacity,
            Field::DesignCapacity => self.design_capacity == other.design_capacity,
            Field::CycleCount => self.cycles_count == other.cycles_count,
            Field::Temperature => self.temperature == other.temperature,
        }
    }

    /// The snapshot with `field` set from `text`, the value of a line
    /// without the white space around it. The flag is set where the text is
    /// `Yes` and cleared for every other text; a count takes the value of
    /// an integer literal that an `isize` holds; the temperature takes the
    /// text itself where it is the literal of a decimal fraction. Any other
    /// text is an error, and sets nothing.
    pub open spec fn assign(self, field: Field, text: Seq<char>) -> Result<Snapshot, ParseError> {
        match field {
            Field::IsCharging => Ok(Snapshot { is_charging: text == "Yes"@, ..self }),
            Field::MaxCapacity => match isize_value(text) {
                Some(v) => Ok(Snapshot { max_capacity: v as int, ..self }),
                None => Err(ParseError::InvalidNumber(field)),
            },
            Field::CurrentCapacity => match isize_value(text) {
                Some(v) => Ok(Snapshot { current_capacity: v as int, ..self }),
                None => Err(ParseError::InvalidNumber(field)),
            },
            Field::DesignCapacity => match isize_value(text) {
                Some(v) => Ok(Snapshot { design_capacity: v as int, ..self }),
                None => Err(ParseError::InvalidNumber(field)),
            },
            Field::CycleCount => match isize_value(text) {
                Some(v) => Ok(Snapshot { cycles_count: v as int, ..self }),
                None => Err(ParseError::InvalidNumber(field)),
            },
            Field::Temperature => if is_float_literal(text) {
                Ok(Snapshot { temperature: text, ..self })
            } else {
                Err(ParseError::InvalidNumber(field))
            },
        }
    }
}

/// The text `s` as a string of its own.
pub fn string_of(s: &[char]) -> (out: String)
    ensures
        out@ == s@,
{
    let mut out: String = String::new();
    let mut i: usize = 0;
    while i < s.len()
        invariant
            i <= s.len(),
            out@ == s@.take(i as int),
        decreases s.len() - i,
    {
        out.push(s[i]);
        assert(s@.take(i + 1) == s@.take(i as int).push(s@[i as int]));
        i += 1;
    }
    assert(s@.take(i as int) == s@);
    out
}

impl Info {
    /// The snapshot before any line was read.
    pub fn new() -> (info: Info)
        ensures
            info@ == Snapshot::empty(),
    {
        Info {
            temperature: String::from_str("0"),
            cycles_count: 0,
            design_capacity: 0,
            max_capacity: 0,
            current_capacity: 0,
            is_charging: false,
        }
    }

    /// Sets `field` from `text`, the value of a line without the white space
    /// around it. On an error the snapshot stays as it was.
    pub fn assign(&mut self, field: Field, text: &[char]) -> (r: Result<(), ParseError>)
        ensures
            match old(self)@.assign(field, text@) {
                Ok(next) => r is Ok && final(self)@ == next,
                Err(e) => r == Err::<(), ParseError>(e) && final(self)@ == old(self)@,
            },
    {
        match field {
            Field::IsCharging => {
                self.is_charging = spells(text, "Yes");
                Ok(())
            },
            Field::Temperature => {
                if check_float_literal(text) {
                    self.temperature = string_of(text);
                    Ok(())
                } else {
                    Err(ParseError::InvalidNumber(field))
                }
            },
            _ => match parse_isize(text) {
                None => Err(ParseError::InvalidNumber(field)),
                Some(v) => {
                    match field {
                        Field::MaxCapacity => {
                            self.max_capacity = v;
                        },
                        Field::CurrentCapacity => {
                            self.current_capacity = v;
                        },
                        Field::DesignCapacity => {
                            self.design_capacity = v;
                        },
                        _ => {
                            self.cycles_count = v;
                        },
                    }
                    Ok(())
                },
            },
        }
    }
}

impl Clone for Info {
    fn clone(&self) -> (copy: Info)
        ensures
            copy@ == self@,
    {
        Info {
            temperature: self.temperature.clone(),
            cycles_count: self.cycles_count,
            design_capacity: self.design_capacity,
            max_capacity: self.max_capacity,
            current_capacity: self.current_capacity,
            is_charging: self.is_charging,
        }
    }
}

impl Default for Info {
    fn default() -> (info: Info)
        ensures
            info@ == Snapshot::empty(),
    {
        Info::new()
    }
}

} // verus!
