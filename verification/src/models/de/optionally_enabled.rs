//! A switch that the service sends as `null`, as a bare boolean, or as an
//! object whose `enabled` key holds the switch.

use vstd::prelude::*;
use vstd::string::StringExecFns;

verus! {

/// The value under one key of an object, as far as a switch depends on it.
#[derive(Debug, Clone, Copy, PartialEq, Eq, Structural)]
pub enum EntryValue {
    Null,
    Bool(bool),
    /// A number, a string, a list or an object.
    Other,
}

/// A received value, as far as a switch depends on it.
#[derive(Debug, Clone, PartialEq, Eq)]
pub enum SwitchValue {
    Null,
    Bool(bool),
    /// An object: its keys with their values, in the order received.
    Object(Vec<(String, EntryValue)>),
    /// A number, a string or a list.
    Other,
}

/// Why a received value is no switch.
#[derive(Debug, Clone, Copy, PartialEq, Eq, Structural)]
pub enum SwitchError {
    /// The value is neither `null`, a boolean nor an object.
    InvalidType,
    /// The `enabled` key of the object holds neither `null` nor a boolean.
    InvalidEnabled,
}

/// What one entry of an object does to the switch read so far: an `enabled`
/// key sets it, or fails where its value is no switch; any other key is
/// passed over, whatever it holds.
pub open spec fn read_entry(so_far: Option<bool>, key: Seq<char>, value: EntryValue) -> Result<
    Option<bool>,
    SwitchError,
> {
    if key == "enabled"@ {
        match value {
            EntryValue::Null => Ok(None),
            EntryValue::Bool(b) => Ok(Some(b)),
            EntryValue::Other => Err(SwitchError::InvalidEnabled),
        }
    } else {
        Ok(so_far)
    }
}

/// The switch that an object's entries give, read in order: the last
/// `enabled` key decides, and the first one that holds no switch fails.
pub open spec fn read_entries(entries: Seq<(String, EntryValue)>) -> Result<
    Option<bool>,
    SwitchError,
>
    decreases entries.len(),
{
    if entries.len() == 0 {
        Ok(None)
    } else {
        match read_entries(entries.drop_last()) {
            Err(e) => Err(e),
            Ok(so_far) => read_entry(so_far, entries.last().0@, entries.last().1),
        }
    }
}

/// The switch that a received value stands for.
pub open spec fn switch_spec(value: SwitchValue) -> Result<Option<bool>, SwitchError> {
    match value {
        SwitchValue::Null => Ok(None),
        SwitchValue::Bool(b) => Ok(Some(b)),
        SwitchValue::Object(entries) => read_entries(entries@),
        SwitchValue::Other => Err(SwitchError::InvalidType),
    }
}

/// Decodes a switch: a bare boolean is the switch, an object gives what its
/// `enabled` key holds and ignores its other keys, and `null` is no value.
pub fn optionally_enabled(value: &SwitchValue) -> (switch: Result<Option<bool>, SwitchError>)
    ensures
        switch == switch_spec(*value),
{
    match value {
        SwitchValue::Bool(b) => Ok(Some(*b)),
        SwitchValue::Object(entries) => {
            let enabled = String::from_str("enabled");
            let mut switch: Result<Option<bool>, SwitchError> = Ok(None);
            let mut i: usize = 0;
            assert(entries@.take(0) =~= Seq::empty());
            while i < entries.len()
                invariant
                    i <= entries.len(),
                    enabled@ == "enabled"@,
                    switch == read_entries(entries@.take(i as int)),
                decreases entries.len() - i,
            {
                assert(entries@.take(i + 1).drop_last() =~= entries@.take(i as int));
                if switch.is_ok() && entries[i].0 == enabled {
                    switch = match entries[i].1 {
                        EntryValue::Null => Ok(None),
                        EntryValue::Bool(b) => Ok(Some(b)),
                        EntryValue::Other => Err(SwitchError::InvalidEnabled),
                    };
                }
                i += 1;
            }
            assert(entries@.take(entries.len() as int) =~= entries@);
            switch
        },
        SwitchValue::Null => Ok(None),
        SwitchValue::Other => Err(SwitchError::InvalidType),
    }
}

} // verus!
