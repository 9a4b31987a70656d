//! Drop priorities.

use crate::text::{chars_eq_str, chars_of, lower, lower_chars, trim, trim_chars, trim_end, trim_start};
use vstd::prelude::*;

verus! {

#[derive(Debug, Clone, Copy, PartialEq, Eq, Structural, PartialOrd, Ord, Hash)]
pub enum Priority {
    Bulk,
    Normal,
    Important,
    Urgent,
}

impl Default for Priority {
    fn default() -> (p: Self)
        ensures
            p == Priority::Normal,
    {
        Priority::Normal
    }
}

/// Wire value of a priority: Bulk 0, Normal 1, Important 2, Urgent 3.
pub open spec fn priority_value(p: Priority) -> u8 {
    match p {
        Priority::Bulk => 0,
        Priority::Normal => 1,
        Priority::Important => 2,
        Priority::Urgent => 3,
    }
}

/// The priority a wire value stands for: 0 Bulk, 2 Important, 3 Urgent, anything else Normal.
pub open spec fn priority_of_value(v: u8) -> Priority {
    if v == 0 {
        Priority::Bulk
    } else if v == 2 {
        Priority::Important
    } else if v == 3 {
        Priority::Urgent
    } else {
        Priority::Normal
    }
}

/// The priority a CLI name stands for, after trimming and ASCII lower-casing.
pub open spec fn priority_of_cli(s: Seq<char>) -> Option<Priority> {
    let t = lower(trim(s));
    if t == "background"@ || t == "bulk"@ {
        Some(Priority::Bulk)
    } else if t == "normal"@ {
        Some(Priority::Normal)
    } else if t == "high"@ || t == "important"@ {
        Some(Priority::Important)
    } else if t == "critical"@ || t == "urgent"@ {
        Some(Priority::Urgent)
    } else {
        None
    }
}

impl Priority {
    pub fn as_u8(self) -> (v: u8)
        ensures
            v == priority_value(self),
    {
        match self {
            Self::Bulk => 0,
            Self::Normal => 1,
            Self::Important => 2,
            Self::Urgent => 3,
        }
    }

    /// Unknown wire values read as Normal.
    pub fn from_u8(v: u8) -> (p: Self)
        ensures
            v <= 3 ==> priority_value(p) == v,
            v > 3 ==> p == Priority::Normal,
            p == priority_of_value(v),
    {
        match v {
            0 => Self::Bulk,
            2 => Self::Important,
            3 => Self::Urgent,
            _ => Self::Normal,
        }
    }

    /// Per-peer share of transfer slots. Urgent cannot monopolize the link.
    pub fn slot_weight(self) -> (w: u32)
        ensures
            w == match self {
                Priority::Bulk => 1u32,
                Priority::Normal => 2u32,
                Priority::Important => 3u32,
                Priority::Urgent => 3u32,
            },
    {
        match self {
            Self::Bulk => 1,
            Self::Normal => 2,
            Self::Important => 3,
            Self::Urgent => 3,
        }
    }

    /// CLI names: background/bulk, normal, high/important, critical/urgent.
    pub fn parse_cli(s: &str) -> (p: Option<Self>)
        ensures
            p == priority_of_cli(s@),
    {
        let cs = chars_of(s);
        let t = trim_chars(&cs);
        let l = lower_chars(&t);
        if chars_eq_str(&l, "background") || chars_eq_str(&l, "bulk") {
            Some(Self::Bulk)
        } else if chars_eq_str(&l, "normal") {
            Some(Self::Normal)
        } else if chars_eq_str(&l, "high") || chars_eq_str(&l, "important") {
            Some(Self::Important)
        } else if chars_eq_str(&l, "critical") || chars_eq_str(&l, "urgent") {
            Some(Self::Urgent)
        } else {
            None
        }
    }

    pub fn cli_name(self) -> (s: &'static str)
        ensures
            s@ == match self {
                Priority::Bulk => "bulk"@,
                Priority::Normal => "normal"@,
                Priority::Important => "high"@,
                Priority::Urgent => "critical"@,
            },
    {
        match self {
            Self::Bulk => "bulk",
            Self::Normal => "normal",
            Self::Important => "high",
            Self::Urgent => "critical",
        }
    }
}

/// The CLI name of a priority parses back to that priority.
pub proof fn lemma_cli_name_roundtrip(p: Priority, name: Seq<char>)
    requires
        name == match p {
            Priority::Bulk => "bulk"@,
            Priority::Normal => "normal"@,
            Priority::Important => "high"@,
            Priority::Urgent => "critical"@,
        },
    ensures
        priority_of_cli(name) == Some(p),
{
    reveal_strlit("bulk");
    reveal_strlit("normal");
    reveal_strlit("high");
    reveal_strlit("critical");
    reveal_strlit("background");
    reveal_strlit("important");
    reveal_strlit("urgent");
    assert(trim_start(name) == name);
    assert(trim_end(name) == name);
    assert(lower(name) =~= name);
}

/// `from_u8` inverts `as_u8`: reading the wire value of a priority gives that priority back.
pub proof fn lemma_wire_roundtrip(p: Priority)
    ensures
        priority_value(p) <= 3,
        priority_of_value(priority_value(p)) == p,
{
}

} // verus!
