//! Lengths of time.

use vstd::prelude::*;

verus! {

/// A length of time: seconds, and nanoseconds below one second.
#[derive(Debug, Clone, Copy, PartialEq, Eq, Structural)]
pub struct Span {
    pub seconds: u64,
    pub nanoseconds: u32,
}

/// How `std::time::Duration` is spelled by its `Debug` form, for so many
/// seconds and nanoseconds.
pub uninterp spec fn duration_text(seconds: u64, nanoseconds: u32) -> Seq<char>;

/// The `Debug` form of `std::time::Duration`, such as `30s` or `500ms`. The
/// spelling is a function of the length; what it is is left unsaid.
#[verifier::external_body]
fn spell_duration(seconds: u64, nanoseconds: u32) -> (r: String)
    requires
        nanoseconds < 1_000_000_000,
    ensures
        r@ == duration_text(seconds, nanoseconds),
{
    format!("{:?}", std::time::Duration::new(seconds, nanoseconds))
}

impl Span {
    /// Whether the nanoseconds stay below one second.
    pub open spec fn well_formed(self) -> bool {
        self.nanoseconds < 1_000_000_000
    }

    /// The length in nanoseconds.
    pub open spec fn length(self) -> int {
        self.seconds * 1_000_000_000 + self.nanoseconds
    }

    /// So many whole seconds.
    pub fn from_secs(seconds: u64) -> (r: Span)
        ensures
            r == (Span { seconds, nanoseconds: 0 }),
            r.well_formed(),
    {
        Span { seconds, nanoseconds: 0 }
    }

    /// So many milliseconds.
    pub fn from_millis(milliseconds: u64) -> (r: Span)
        ensures
            r.length() == milliseconds * 1_000_000,
            r.well_formed(),
    {
        Span {
            seconds: milliseconds / 1000,
            nanoseconds: ((milliseconds % 1000) * 1_000_000) as u32,
        }
    }

    /// How the length is spelled.
    pub open spec fn text(self) -> Seq<char> {
        duration_text(self.seconds, self.nanoseconds)
    }

    /// Spells the length.
    pub fn to_text(&self) -> (r: String)
        requires
            self.well_formed(),
        ensures
            r@ == self.text(),
    {
        spell_duration(self.seconds, self.nanoseconds)
    }

    /// The shorter of two lengths.
    pub open spec fn shorter(self, other: Span) -> Span {
        if self.length() <= other.length() {
            self
        } else {
            other
        }
    }

    /// The shorter of two lengths.
    pub fn min(self, other: Span) -> (r: Span)
        requires
            self.well_formed(),
            other.well_formed(),
        ensures
            r == self.shorter(other),
    {
        if self.seconds < other.seconds || (self.seconds == other.seconds && self.nanoseconds
            <= other.nanoseconds) {
            self
        } else {
            other
        }
    }

    /// Whether the length is at least `other`.
    pub fn at_least(self, other: Span) -> (r: bool)
        requires
            self.well_formed(),
            other.well_formed(),
        ensures
            r == (self.length() >= other.length()),
    {
        self.seconds > other.seconds || (self.seconds == other.seconds && self.nanoseconds
            >= other.nanoseconds)
    }

    /// What is left of the length after `other`; nothing where `other` is
    /// longer.
    pub open spec fn rest(self, other: Span) -> Span {
        if self.length() <= other.length() {
            Span { seconds: 0, nanoseconds: 0 }
        } else if self.nanoseconds >= other.nanoseconds {
            Span {
                seconds: (self.seconds - other.seconds) as u64,
                nanoseconds: (self.nanoseconds - other.nanoseconds) as u32,
            }
        } else {
            Span {
                seconds: (self.seconds - other.seconds - 1) as u64,
                nanoseconds: (self.nanoseconds + 1_000_000_000 - other.nanoseconds) as u32,
            }
        }
    }

    /// What is left of the length after `other`.
    pub fn saturating_sub(self, other: Span) -> (r: Span)
        requires
            self.well_formed(),
            other.well_formed(),
        ensures
            r == self.rest(other),
            r.well_formed(),
            self.length() >= other.length() ==> r.length() == self.length() - other.length(),
            self.length() <= other.length() ==> r.length() == 0,
    {
        if other.at_least(self) {
            Span { seconds: 0, nanoseconds: 0 }
        } else if self.nanoseconds >= other.nanoseconds {
            Span {
                seconds: self.seconds - other.seconds,
                nanoseconds: self.nanoseconds - other.nanoseconds,
            }
        } else {
            Span {
                seconds: self.seconds - other.seconds - 1,
                nanoseconds: self.nanoseconds + 1_000_000_000 - other.nanoseconds,
            }
        }
    }
}

/// The shorter of two lengths is one of them and no longer than either, and
/// what is left of a length and what was taken make it up again.
pub proof fn lengths_add_up(a: Span, b: Span)
    requires
        a.well_formed(),
        b.well_formed(),
    ensures
        a.shorter(b) == a || a.shorter(b) == b,
        a.shorter(b).length() <= a.length(),
        a.shorter(b).length() <= b.length(),
        a.rest(b).well_formed(),
        b.length() <= a.length() ==> a.rest(b).length() + b.length() == a.length(),
        b.length() >= a.length() ==> a.rest(b).length() == 0,
{
}

} // verus!
