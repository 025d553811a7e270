//! The `<dateTime.iso8601>` leaf: an instant with a fixed offset from UTC,
//! read and written as RFC 3339 text.

use vstd::prelude::*;

verus! {

/// What `chrono::DateTime::parse_from_rfc3339` makes of a text: seconds since
/// the epoch, nanoseconds within the second, and the offset's seconds east of
/// UTC; `None` where it refuses the text.
pub uninterp spec fn rfc3339_parts(text: Seq<char>) -> Option<(i64, u32, i32)>;

/// The text that `chrono::DateTime::to_rfc3339` gives for an instant and an
/// offset; `None` where chrono cannot represent them.
pub uninterp spec fn rfc3339_text(secs: i64, nanos: u32, offset: i32) -> Option<Seq<char>>;

/// Calls `chrono::DateTime::parse_from_rfc3339` and reads the result's
/// `timestamp`, `timestamp_subsec_nanos` and `offset().local_minus_utc()`.
/// The contract only names the outcome.
#[verifier::external_body]
fn parse_rfc3339(text: &str) -> (r: Option<(i64, u32, i32)>)
    ensures
        r == rfc3339_parts(text@),
{
    let parsed = chrono::DateTime::parse_from_rfc3339(text).ok()?;
    Some((parsed.timestamp(), parsed.timestamp_subsec_nanos(), parsed.offset().local_minus_utc()))
}

/// Builds the instant with `chrono::DateTime::from_timestamp`, the offset
/// with `chrono::FixedOffset::east_opt`, and calls `to_rfc3339` on the two.
/// The contract only names the outcome.
#[verifier::external_body]
fn format_rfc3339(secs: i64, nanos: u32, offset: i32) -> (r: Option<String>)
    ensures
        match r {
            Some(text) => rfc3339_text(secs, nanos, offset) == Some(text@),
            None => rfc3339_text(secs, nanos, offset) is None,
        },
{
    let instant = chrono::DateTime::from_timestamp(secs, nanos)?;
    let zone = chrono::FixedOffset::east_opt(offset)?;
    Some(instant.with_timezone(&zone).to_rfc3339())
}

/// Whether an instant survives the wire: it has an RFC 3339 text, and that
/// text reads back as the same instant and offset.
pub open spec fn survives_wire(secs: i64, nanos: u32, offset: i32) -> bool {
    match rfc3339_text(secs, nanos, offset) {
        Some(text) => rfc3339_parts(text) == Some((secs, nanos, offset)),
        None => false,
    }
}

/// An instant with a fixed offset from UTC.
#[derive(Clone, Copy, Debug, PartialEq, Eq)]
pub struct DateTime {
    secs: i64,
    nanos: u32,
    offset: i32,
}

impl DateTime {
    #[verifier::type_invariant]
    spec fn well_formed(self) -> bool {
        survives_wire(self.secs, self.nanos, self.offset)
    }

    /// Seconds since the epoch, nanoseconds within the second, offset in
    /// seconds east of UTC.
    pub closed spec fn parts(self) -> (i64, u32, i32) {
        (self.secs, self.nanos, self.offset)
    }

    /// Whether this value survives the wire. Every value that executable
    /// code holds does.
    pub open spec fn valid(self) -> bool {
        survives_wire(self.parts().0, self.parts().1, self.parts().2)
    }

    /// The RFC 3339 text of a valid value.
    pub open spec fn wire_text(self) -> Seq<char> {
        rfc3339_text(self.parts().0, self.parts().1, self.parts().2).unwrap()
    }

    /// Two values with the same parts are the same value.
    pub proof fn lemma_parts_determine(self, other: DateTime)
        requires
            self.parts() == other.parts(),
        ensures
            self == other,
    {
    }

    /// The value with the given parts, where chrono can write it down and
    /// read it back unchanged.
    pub fn from_parts(secs: i64, nanos: u32, offset: i32) -> (r: Option<DateTime>)
        ensures
            match r {
                Some(dt) => dt.parts() == (secs, nanos, offset) && dt.valid(),
                None => !survives_wire(secs, nanos, offset),
            },
    {
        match format_rfc3339(secs, nanos, offset) {
            Some(text) => match parse_rfc3339(text.as_str()) {
                Some((s, n, o)) => {
                    if s == secs && n == nanos && o == offset {
                        Some(DateTime { secs, nanos, offset })
                    } else {
                        None
                    }
                },
                None => None,
            },
            None => None,
        }
    }

    /// Reads RFC 3339 text. `None` where chrono refuses the text, or where
    /// the instant it reads would not survive the wire.
    pub fn parse_from_rfc3339(text: &str) -> (r: Option<DateTime>)
        ensures
            r == DateTime::parsed(text@),
            match r {
                Some(dt) => rfc3339_parts(text@) == Some(dt.parts()) && dt.valid(),
                None => rfc3339_parts(text@) matches Some(parts) ==> !survives_wire(
                    parts.0,
                    parts.1,
                    parts.2,
                ),
            },
    {
        match parse_rfc3339(text) {
            Some((secs, nanos, offset)) => {
                let r = DateTime::from_parts(secs, nanos, offset);
                proof {
                    if let Some(dt) = r {
                        dt.lemma_parts_determine(DateTime { secs, nanos, offset });
                    }
                }
                r
            },
            None => None,
        }
    }

    /// What `parse_from_rfc3339` returns for a text.
    pub closed spec fn parsed(text: Seq<char>) -> Option<DateTime> {
        match rfc3339_parts(text) {
            Some((secs, nanos, offset)) => if survives_wire(secs, nanos, offset) {
                Some(DateTime { secs, nanos, offset })
            } else {
                None
            },
            None => None,
        }
    }

    /// What a text reads as: the parts that chrono reads, where they
    /// survive the wire.
    pub proof fn lemma_parsed(text: Seq<char>)
        ensures
            match DateTime::parsed(text) {
                Some(dt) => rfc3339_parts(text) == Some(dt.parts()) && dt.valid(),
                None => rfc3339_parts(text) matches Some(parts) ==> !survives_wire(
                    parts.0,
                    parts.1,
                    parts.2,
                ),
            },
    {
    }

    /// A valid value is what its own text reads as.
    pub proof fn lemma_round_trip(self)
        requires
            self.valid(),
        ensures
            DateTime::parsed(self.wire_text()) == Some(self),
    {
    }

    /// The RFC 3339 text of this value.
    pub fn to_rfc3339(&self) -> (r: String)
        ensures
            self.valid(),
            r@ == self.wire_text(),
    {
        proof {
            use_type_invariant(self);
        }
        match format_rfc3339(self.secs, self.nanos, self.offset) {
            Some(text) => text,
            None => String::new(),
        }
    }

    /// Seconds since 1970-01-01T00:00:00Z.
    pub fn timestamp(&self) -> (r: i64)
        ensures
            r == self.parts().0,
            self.valid(),
    {
        proof {
            use_type_invariant(self);
        }
        self.secs
    }

    /// Nanoseconds within the second; above 999,999,999 in a leap second.
    pub fn timestamp_subsec_nanos(&self) -> (r: u32)
        ensures
            r == self.parts().1,
    {
        self.nanos
    }

    /// The offset, in seconds east of UTC.
    pub fn offset_seconds(&self) -> (r: i32)
        ensures
            r == self.parts().2,
    {
        self.offset
    }
}

} // verus!
