use vstd::prelude::*;

use time::format_description::OwnedFormatItem;
use time::OffsetDateTime;

verus! {

#[verifier::external_type_specification]
#[verifier::external_body]
pub struct ExOffsetDateTime(OffsetDateTime);

#[verifier::external_type_specification]
#[verifier::external_body]
pub struct ExOwnedFormatItem(OwnedFormatItem);

/// Whether the date-time library accepts `description` as a format
/// description (its first syntax version).
pub uninterp spec fn description_accepted(description: Seq<char>) -> bool;

/// The description of the timestamp that log lines start with:
/// `YYYY-MM-DDThh:mm:ss.mmm ` with a three-digit fraction and a trailing space.
pub const STANDARD_DESCRIPTION: &'static str =
    "[year]-[month]-[day]T[hour]:[minute]:[second].[subsecond digits:3] ";

/// Relies on `time::format_description::parse_owned::<1>`: it parses a
/// format description, or refuses it; the outcome depends on the text alone.
#[verifier::external_body]
fn parse_description(description: &str) -> (r: Option<OwnedFormatItem>)
    ensures
        r is Some <==> description_accepted(description@),
{
    time::format_description::parse_owned::<1>(description).ok()
}

/// Relies on `time::OffsetDateTime::now_local`: the current time in the
/// local offset, or nothing where that offset cannot be determined.
#[verifier::external_body]
fn now_local() -> (r: Option<OffsetDateTime>) {
    OffsetDateTime::now_local().ok()
}

/// Relies on `time::OffsetDateTime::format`: `moment` written out as `items`
/// describe, or nothing where a component cannot be written.
#[verifier::external_body]
fn format_moment(moment: OffsetDateTime, items: &OwnedFormatItem) -> (r: Option<String>) {
    moment.format(items).ok()
}

/// A timestamp format: its description, parsed once when the format is made.
#[derive(Debug)]
pub struct TimeFormat {
    description: String,
    items: Option<OwnedFormatItem>,
}

impl TimeFormat {
    /// The description the format was made from.
    pub closed spec fn text(&self) -> Seq<char> {
        self.description@
    }

    /// Whether the description was accepted, so that timestamps can be
    /// written in this format.
    pub closed spec fn usable(&self) -> bool {
        self.items is Some
    }

    /// Parses `description` once, keeping it beside what it parsed to.
    pub fn parse(description: &str) -> (r: TimeFormat)
        ensures
            r.text() == description@,
            r.usable() == description_accepted(description@),
    {
        TimeFormat { description: description.to_owned(), items: parse_description(description) }
    }

    /// The format of log line timestamps: `YYYY-MM-DDThh:mm:ss.mmm `.
    pub fn standard() -> (r: TimeFormat)
        ensures
            r.text() == STANDARD_DESCRIPTION@,
            r.usable() == description_accepted(STANDARD_DESCRIPTION@),
    {
        TimeFormat::parse(STANDARD_DESCRIPTION)
    }

    /// An empty format: timestamps in it are empty.
    pub fn empty() -> (r: TimeFormat)
        ensures
            r.text() == Seq::<char>::empty(),
            r.usable() == description_accepted(Seq::<char>::empty()),
    {
        let description: &str = "";
        proof {
            reveal_strlit("");
            assert(description@ =~= Seq::<char>::empty());
        }
        TimeFormat::parse(description)
    }

    /// The description the format was made from.
    pub fn description(&self) -> (r: &str)
        ensures
            r@ == self.text(),
    {
        self.description.as_str()
    }

    /// Whether two formats come from the same description.
    pub fn same_as(&self, other: &TimeFormat) -> (r: bool)
        ensures
            r == (self.text() == other.text()),
    {
        self.description == other.description
    }

    /// The current local time written in this format. There is none where
    /// the description was refused, where the local offset cannot be
    /// determined, or where the time cannot be written in this format.
    pub fn now(&self) -> (r: Option<String>)
        ensures
            !self.usable() ==> r is None,
    {
        match &self.items {
            None => None,
            Some(items) => match now_local() {
                None => None,
                Some(moment) => format_moment(moment, items),
            },
        }
    }
}

} // verus!
