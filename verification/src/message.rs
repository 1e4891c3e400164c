//! One SMS record, its rendering for the chat and its point in time.
use vstd::prelude::*;
use crate::text::{contains_run, decimal, decimal_string, lemma_middle_is_contained};

verus! {

/// An absolute point in time: whole seconds since the Unix epoch (UTC) and the
/// nanoseconds past that second. Within a leap second `nanos` goes on counting
/// and may exceed 999,999,999; no bound is placed on it. Instants are ordered
/// by seconds, then nanoseconds.
#[derive(Clone, Copy, Debug, PartialEq, Eq, Structural)]
pub struct Instant {
    pub secs: i64,
    pub nanos: u32,
}

impl Instant {
    /// `self` lies strictly before `other`.
    pub open spec fn earlier_than(self, other: Instant) -> bool {
        self.secs < other.secs || (self.secs == other.secs && self.nanos < other.nanos)
    }

    /// Tells whether `self` lies strictly before `other`.
    pub fn is_before(&self, other: &Instant) -> (r: bool)
        ensures
            r == self.earlier_than(*other),
    {
        self.secs < other.secs || (self.secs == other.secs && self.nanos < other.nanos)
    }
}

/// Declares `chrono::format::ParseError`, the error of a failed parse, as an
/// opaque type: it is handed on, and nothing is read out of it.
#[verifier::external_type_specification]
#[verifier::external_body]
pub struct ExParseError(chrono::format::ParseError);

/// What `chrono` reads out of `raw` under the format `format`: the seconds since
/// the Unix epoch and the nanoseconds of the instant, or `None` where it rejects the text.
pub uninterp spec fn parsed_instant(raw: Seq<char>, format: Seq<char>) -> Option<(i64, u32)>;

/// Calls `chrono::DateTime::parse_from_str` and reads the result's `timestamp` and
/// `timestamp_subsec_nanos`. Trusted: the call succeeds exactly where `parsed_instant`
/// is `Some`, and then hands back that instant. Nothing is claimed of the error.
#[verifier::external_body]
fn parse_instant(raw: &str, format: &str) -> (r: Result<Instant, chrono::format::ParseError>)
    ensures
        r.is_ok() == parsed_instant(raw@, format@).is_some(),
        r matches Ok(t) ==> parsed_instant(raw@, format@) == Some((t.secs, t.nanos)),
{
    match chrono::DateTime::parse_from_str(raw, format) {
        Ok(dt) => Ok(Instant { secs: dt.timestamp(), nanos: dt.timestamp_subsec_nanos() }),
        Err(e) => Err(e),
    }
}

/// The format of a message's timestamp: date, time of day and offset from UTC.
pub const TIMESTAMP_FORMAT: &'static str = "%Y-%m-%d %H:%M:%S %z";

/// One SMS record as the gateway reports it.
#[derive(Clone, Debug, PartialEq, Eq)]
pub struct Message {
    pub from: String,
    pub index: u32,
    pub text: String,
    pub timestamp: String,
}

/// The part of the rich rendering that stands before the sender.
pub open spec fn html_head(index: u32) -> Seq<char> {
    decimal(index as nat) + ") <b>"@
}

impl Message {
    /// The rich rendering: the index, the sender in bold, the timestamp in
    /// italics and the body as a preformatted block.
    pub open spec fn html_text(&self) -> Seq<char> {
        html_head(self.index) + self.from@ + "</b>\n<i>"@ + self.timestamp@ + "</i>\n<pre>"@
            + self.text@ + "</pre>"@
    }

    /// The plain rendering, one line per field.
    pub open spec fn plain_text(&self) -> Seq<char> {
        "Timestamp: "@ + self.timestamp@ + "\nFrom: "@ + self.from@ + "\nText: "@ + self.text@
    }

    /// The instant that the timestamp denotes, if it is well formed.
    pub open spec fn instant(&self) -> Option<Instant> {
        match parsed_instant(self.timestamp@, TIMESTAMP_FORMAT@) {
            Some((secs, nanos)) => Some(Instant { secs, nanos }),
            None => None,
        }
    }

    /// Renders the message for a chat that understands HTML.
    pub fn to_html(&self) -> (r: String)
        ensures
            r@ == self.html_text(),
    {
        let mut s = decimal_string(self.index as u64);
        s.append(") <b>");
        s.append(self.from.as_str());
        s.append("</b>\n<i>");
        s.append(self.timestamp.as_str());
        s.append("</i>\n<pre>");
        s.append(self.text.as_str());
        s.append("</pre>");
        s
    }

    /// Renders the message as plain text.
    pub fn to_text(&self) -> (r: String)
        ensures
            r@ == self.plain_text(),
    {
        let mut s = String::from_str("Timestamp: ");
        s.append(self.timestamp.as_str());
        s.append("\nFrom: ");
        s.append(self.from.as_str());
        s.append("\nText: ");
        s.append(self.text.as_str());
        s
    }

    /// Parses the timestamp. Succeeds exactly where the timestamp is well formed.
    pub fn datetime(&self) -> (r: Result<Instant, chrono::format::ParseError>)
        ensures
            r.is_ok() == self.instant().is_some(),
            r matches Ok(t) ==> self.instant() == Some(t),
    {
        parse_instant(self.timestamp.as_str(), TIMESTAMP_FORMAT)
    }
}

/// Rendering loses nothing: the rich text of a message holds its sender, its
/// timestamp and its body, each character for character.
pub proof fn lemma_html_keeps_content(m: Message)
    ensures
        contains_run(m.html_text(), m.from@),
        contains_run(m.html_text(), m.timestamp@),
        contains_run(m.html_text(), m.text@),
{
    let a = html_head(m.index);
    let b = "</b>\n<i>"@;
    let c = "</i>\n<pre>"@;
    let d = "</pre>"@;
    lemma_middle_is_contained(a, m.from@, b + m.timestamp@ + c + m.text@ + d);
    assert(a + m.from@ + (b + m.timestamp@ + c + m.text@ + d) =~= m.html_text());
    lemma_middle_is_contained(a + m.from@ + b, m.timestamp@, c + m.text@ + d);
    assert((a + m.from@ + b) + m.timestamp@ + (c + m.text@ + d) =~= m.html_text());
    lemma_middle_is_contained(a + m.from@ + b + m.timestamp@ + c, m.text@, d);
}

/// The plain text of a message holds its sender and its body unchanged.
pub proof fn lemma_plain_keeps_content(m: Message)
    ensures
        contains_run(m.plain_text(), m.from@),
        contains_run(m.plain_text(), m.text@),
{
    let a = "Timestamp: "@ + m.timestamp@ + "\nFrom: "@;
    let b = "\nText: "@;
    lemma_middle_is_contained(a, m.from@, b + m.text@);
    assert(a + m.from@ + (b + m.text@) =~= m.plain_text());
    lemma_middle_is_contained(a + m.from@ + b, m.text@, Seq::<char>::empty());
    assert(a + m.from@ + b + m.text@ + Seq::<char>::empty() =~= m.plain_text());
}

} // verus!
