//! Change-history records: snapshots of whole pool states with
//! human-readable descriptions, categories, and relative timestamps.
//!
//! Reading the clock is the host's business: a record stores the creation
//! time it is given (seconds since the host's epoch), and formatting takes
//! the current time the same way.

use vstd::prelude::*;
use vstd::string::StringExecFns;

use crate::pool::ObjectPool;

verus! {

/// Categories of changes for grouping and display.
#[derive(Clone, Copy, Debug, PartialEq, Eq, Structural)]
pub enum ChangeCategory {
    /// A new object was added.
    ObjectAdded,
    /// An object was deleted.
    ObjectDeleted,
    /// An object's properties were modified.
    ObjectModified,
    /// An object was renamed.
    ObjectRenamed,
    /// Multiple objects were changed at once.
    BulkChange,
    /// Initial state or other uncategorized change.
    Other,
}

/// A change to the object pool, with metadata for history tracking.
#[derive(Clone, Debug)]
pub struct Change {
    /// Human-readable description of what changed.
    pub description: String,
    /// The state of the object pool after this change was applied.
    pub pool_state: ObjectPool,
    /// When this change was made, in seconds since the host's epoch.
    pub timestamp_secs: u64,
    /// Category for grouping and filtering.
    pub category: ChangeCategory,
}

/// The decimal digit character for one digit value.
pub open spec fn spec_digit_char(d: int) -> char {
    if d == 0 {
        '0'
    } else if d == 1 {
        '1'
    } else if d == 2 {
        '2'
    } else if d == 3 {
        '3'
    } else if d == 4 {
        '4'
    } else if d == 5 {
        '5'
    } else if d == 6 {
        '6'
    } else if d == 7 {
        '7'
    } else if d == 8 {
        '8'
    } else {
        '9'
    }
}

/// The decimal digit string of a nonnegative number, no leading zeroes
/// (a single zero for zero).
pub open spec fn spec_digits(n: int) -> Seq<char>
    decreases n,
{
    if n < 10 {
        seq![spec_digit_char(n)]
    } else {
        spec_digits(n / 10).push(spec_digit_char(n % 10))
    }
}

/// The relative-time string for an elapsed duration in seconds: whole
/// seconds under a minute, whole minutes under an hour, whole hours under
/// a day, else whole days.
pub open spec fn spec_format_elapsed(secs: int) -> Seq<char> {
    if secs < 60 {
        spec_digits(secs) + "s ago"@
    } else if secs < 3600 {
        spec_digits(secs / 60) + "m ago"@
    } else if secs < 86400 {
        spec_digits(secs / 3600) + "h ago"@
    } else {
        spec_digits(secs / 86400) + "d ago"@
    }
}

/// What `formatted_time` returns: the relative-time string for the time
/// elapsed since the record's creation, or "just now" when the clock reads
/// earlier than the record (the clock went backwards).
pub open spec fn spec_formatted_time(timestamp: int, now: int) -> Seq<char> {
    if now < timestamp {
        "just now"@
    } else {
        spec_format_elapsed(now - timestamp)
    }
}

/// The icon string for a change category.
pub open spec fn spec_category_icon(c: ChangeCategory) -> Seq<char> {
    match c {
        ChangeCategory::ObjectAdded => "âž•"@,
        ChangeCategory::ObjectDeleted => "ðŸ—‘"@,
        ChangeCategory::ObjectModified => "âœ"@,
        ChangeCategory::ObjectRenamed => "ðŸ“"@,
        ChangeCategory::BulkChange => "ðŸ“¦"@,
        ChangeCategory::Other => "â€¢"@,
    }
}

/// The RGB colour hint for a change category.
pub open spec fn spec_category_color(c: ChangeCategory) -> Seq<u8> {
    match c {
        ChangeCategory::ObjectAdded => seq![0u8, 200u8, 0u8],
        ChangeCategory::ObjectDeleted => seq![200u8, 0u8, 0u8],
        ChangeCategory::ObjectModified => seq![0u8, 100u8, 200u8],
        ChangeCategory::ObjectRenamed => seq![150u8, 100u8, 200u8],
        ChangeCategory::BulkChange => seq![200u8, 150u8, 0u8],
        ChangeCategory::Other => seq![128u8, 128u8, 128u8],
    }
}

/// The string of one decimal digit.
fn digit_str(d: u64) -> (s: &'static str)
    requires
        d < 10,
    ensures
        s@ == seq![spec_digit_char(d as int)],
{
    if d == 0 {
        proof {
            reveal_strlit("0");
        }
        "0"
    } else if d == 1 {
        proof {
            reveal_strlit("1");
        }
        "1"
    } else if d == 2 {
        proof {
            reveal_strlit("2");
        }
        "2"
    } else if d == 3 {
        proof {
            reveal_strlit("3");
        }
        "3"
    } else if d == 4 {
        proof {
            reveal_strlit("4");
        }
        "4"
    } else if d == 5 {
        proof {
            reveal_strlit("5");
        }
        "5"
    } else if d == 6 {
        proof {
            reveal_strlit("6");
        }
        "6"
    } else if d == 7 {
        proof {
            reveal_strlit("7");
        }
        "7"
    } else if d == 8 {
        proof {
            reveal_strlit("8");
        }
        "8"
    } else {
        proof {
            reveal_strlit("9");
        }
        "9"
    }
}

/// The decimal string of a number.
pub fn u64_to_decimal(n: u64) -> (s: String)
    ensures
        s@ == spec_digits(n as int),
    decreases n,
{
    if n < 10 {
        String::from_str(digit_str(n))
    } else {
        let mut s = u64_to_decimal(n / 10);
        s.append(digit_str(n % 10));
        proof {
            assert(spec_digits(n as int / 10).push(spec_digit_char(n as int % 10)) =~= spec_digits(
                n as int / 10,
            ) + seq![spec_digit_char(n as int % 10)]);
        }
        s
    }
}

impl Change {
    /// A new change record from a description, the resulting pool state,
    /// a category and the creation time the host read from its clock.
    pub fn new(
        description: String,
        pool_state: ObjectPool,
        category: ChangeCategory,
        timestamp_secs: u64,
    ) -> (c: Change)
        ensures
            c.description == description,
            c.pool_state == pool_state,
            c.category == category,
            c.timestamp_secs == timestamp_secs,
    {
        Change { description, pool_state, timestamp_secs, category }
    }

    /// The relative-time display string for this record, against the
    /// current clock reading.
    pub fn formatted_time(&self, now_secs: u64) -> (s: String)
        ensures
            s@ == spec_formatted_time(self.timestamp_secs as int, now_secs as int),
    {
        if now_secs < self.timestamp_secs {
            proof {
                reveal_strlit("just now");
            }
            String::from_str("just now")
        } else {
            let secs = now_secs - self.timestamp_secs;
            if secs < 60 {
                let mut s = u64_to_decimal(secs);
                s.append("s ago");
                s
            } else if secs < 3600 {
                let mut s = u64_to_decimal(secs / 60);
                s.append("m ago");
                s
            } else if secs < 86400 {
                let mut s = u64_to_decimal(secs / 3600);
                s.append("h ago");
                s
            } else {
                let mut s = u64_to_decimal(secs / 86400);
                s.append("d ago");
                s
            }
        }
    }

    /// An icon for this record's category.
    pub fn category_icon(&self) -> (s: &'static str)
        ensures
            s@ == spec_category_icon(self.category),
    {
        match self.category {
            ChangeCategory::ObjectAdded => "âž•",
            ChangeCategory::ObjectDeleted => "ðŸ—‘",
            ChangeCategory::ObjectModified => "âœ",
            ChangeCategory::ObjectRenamed => "ðŸ“",
            ChangeCategory::BulkChange => "ðŸ“¦",
            ChangeCategory::Other => "â€¢",
        }
    }

    /// A colour hint for this record's category, as RGB.
    pub fn category_color(&self) -> (c: [u8; 3])
        ensures
            c@ == spec_category_color(self.category),
    {
        let c: [u8; 3] = match self.category {
            ChangeCategory::ObjectAdded => [0, 200, 0],
            ChangeCategory::ObjectDeleted => [200, 0, 0],
            ChangeCategory::ObjectModified => [0, 100, 200],
            ChangeCategory::ObjectRenamed => [150, 100, 200],
            ChangeCategory::BulkChange => [200, 150, 0],
            ChangeCategory::Other => [128, 128, 128],
        };
        proof {
            assert(c@ =~= spec_category_color(self.category));
        }
        c
    }
}

} // verus!
