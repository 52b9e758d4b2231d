//! One record of the failure log.

use vstd::prelude::*;
use vstd::string::*;
use crate::error::LogError;
use crate::text::{fields_of, join_fields, joined, lemma_join_split_roundtrip, texts};

verus! {

/// What `str::parse::<i64>` makes of a text: the number it denotes, if any.
pub uninterp spec fn parsed_i64(s: Seq<char>) -> Option<i64>;

/// What `str::parse::<u16>` makes of a text: the number it denotes, if any.
pub uninterp spec fn parsed_u16(s: Seq<char>) -> Option<u16>;

/// Calls `str::parse::<i64>`. The result is the named value `parsed_i64` of
/// the text; nothing more is claimed of it.
#[verifier::external_body]
fn parse_i64(s: &str) -> (r: Option<i64>)
    ensures
        r == parsed_i64(s@),
{
    s.parse::<i64>().ok()
}

/// Calls `str::parse::<u16>`. The result is the named value `parsed_u16` of
/// the text; nothing more is claimed of it.
#[verifier::external_body]
fn parse_u16(s: &str) -> (r: Option<u16>)
    ensures
        r == parsed_u16(s@),
{
    s.parse::<u16>().ok()
}

/// One failure that a command reported.
#[derive(Debug, Clone)]
pub struct ErrorLog {
    /// The line as it is written to the log.
    pub raw: String,
    /// Seconds since the epoch at which the command ran.
    pub timestamp: i64,
    /// `error`, `warning` or another kind.
    pub error_type: String,
    pub error_code: Option<String>,
    pub error_message: String,
    pub file_source: Option<String>,
    pub file_line: Option<u16>,
    pub file_col: Option<u16>,
}

/// The mathematical value of an `ErrorLog`.
pub struct ErrorLogView {
    pub raw: Seq<char>,
    pub timestamp: i64,
    pub error_type: Seq<char>,
    pub error_code: Option<Seq<char>>,
    pub error_message: Seq<char>,
    pub file_source: Option<Seq<char>>,
    pub file_line: Option<u16>,
    pub file_col: Option<u16>,
}

/// The view of an optional string.
pub open spec fn optional_text(s: Option<String>) -> Option<Seq<char>> {
    match s {
        Some(t) => Some(t@),
        None => None,
    }
}

impl View for ErrorLog {
    type V = ErrorLogView;

    open spec fn view(&self) -> ErrorLogView {
        ErrorLogView {
            raw: self.raw@,
            timestamp: self.timestamp,
            error_type: self.error_type@,
            error_code: optional_text(self.error_code),
            error_message: self.error_message@,
            file_source: optional_text(self.file_source),
            file_line: self.file_line,
            file_col: self.file_col,
        }
    }
}

/// The views of a sequence of records.
pub open spec fn records(v: Seq<ErrorLog>) -> Seq<ErrorLogView> {
    v.map_values(|r: ErrorLog| r@)
}

/// A field that may hold the word `none` for an absent value.
pub open spec fn optional_field(field: Seq<char>) -> Option<Seq<char>> {
    if field == "none"@ {
        None
    } else {
        Some(field)
    }
}

/// A line or column field: absent unless the text is a whole number that
/// also fits sixteen bits without sign.
pub open spec fn position_field(field: Seq<char>) -> Option<u16> {
    if parsed_i64(field) is Some {
        parsed_u16(field)
    } else {
        None
    }
}

/// The record that seven or more fields denote, given the numbers that were
/// read from the first, sixth and seventh of them.
pub open spec fn record_of(
    fields: Seq<Seq<char>>,
    timestamp: i64,
    file_line: Option<u16>,
    file_col: Option<u16>,
) -> ErrorLogView
    recommends
        fields.len() >= 7,
{
    ErrorLogView {
        raw: joined(fields),
        timestamp,
        error_type: fields[1],
        error_code: optional_field(fields[2]),
        error_message: fields[3],
        file_source: optional_field(fields[4]),
        file_line,
        file_col,
    }
}

/// The record that seven or more fields decode to, if the first is a
/// timestamp.
pub open spec fn decoded(fields: Seq<Seq<char>>) -> Option<ErrorLogView>
    recommends
        fields.len() >= 7,
{
    match parsed_i64(fields[0]) {
        Some(timestamp) => Some(
            record_of(fields, timestamp, position_field(fields[5]), position_field(fields[6])),
        ),
        None => None,
    }
}

/// The record that a line decodes to, if it has seven fields and the first
/// is a timestamp.
pub open spec fn decoded_line(line: Seq<char>) -> Option<ErrorLogView> {
    if fields_of(line).len() >= 7 {
        decoded(fields_of(line))
    } else {
        None
    }
}

/// A line of seven or more fields decodes to a record whose `raw` is that
/// very line, whatever the fields hold.
pub proof fn lemma_decode_keeps_line(line: Seq<char>)
    requires
        decoded_line(line) is Some,
    ensures
        decoded_line(line).unwrap().raw == line,
{
    lemma_join_split_roundtrip(line);
}

/// An owned copy of a field unless it holds the word `none`.
fn read_optional(field: &String) -> (r: Option<String>)
    ensures
        optional_text(r) == optional_field(field@),
{
    let none = String::from_str("none");
    if *field == none {
        None
    } else {
        Some(field.clone())
    }
}

/// The number in a line or column field, if there is one.
fn read_position(field: &String) -> (r: Option<u16>)
    ensures
        r == position_field(field@),
{
    match parse_i64(field.as_str()) {
        Some(_) => parse_u16(field.as_str()),
        None => None,
    }
}

impl ErrorLog {
    /// Builds a record from its fields and from the numbers already read
    /// from the first, sixth and seventh of them.
    pub fn from_parts(
        input: Vec<String>,
        timestamp: i64,
        file_line: Option<u16>,
        file_col: Option<u16>,
    ) -> (log: ErrorLog)
        requires
            input@.len() >= 7,
        ensures
            log@ == record_of(texts(input@), timestamp, file_line, file_col),
    {
        ErrorLog {
            raw: join_fields(&input),
            timestamp,
            error_type: input[1].clone(),
            error_code: read_optional(&input[2]),
            error_message: input[3].clone(),
            file_source: read_optional(&input[4]),
            file_line,
            file_col,
        }
    }

    /// Decodes a record from the fields of one line. The first field must be
    /// a timestamp; a line or column that is no number is left out.
    pub fn try_new(input: Vec<String>) -> (r: Result<ErrorLog, LogError>)
        requires
            input@.len() >= 7,
        ensures
            match r {
                Ok(log) => decoded(texts(input@)) == Some(log@),
                Err(e) => e == LogError::InvalidTimestamp && decoded(texts(input@)) is None,
            },
    {
        match parse_i64(input[0].as_str()) {
            Some(timestamp) => {
                let file_line = read_position(&input[5]);
                let file_col = read_position(&input[6]);
                Ok(ErrorLog::from_parts(input, timestamp, file_line, file_col))
            },
            None => Err(LogError::InvalidTimestamp),
        }
    }

    /// Decodes one line of the log.
    pub fn decode_line(line: &str) -> (r: Result<ErrorLog, LogError>)
        ensures
            match r {
                Ok(log) => decoded_line(line@) == Some(log@) && log@.raw == line@,
                Err(e) => decoded_line(line@) is None && e == (if fields_of(line@).len() < 7 {
                    LogError::MissingFields
                } else {
                    LogError::InvalidTimestamp
                }),
            },
    {
        let fields = crate::text::split_fields(line);
        if fields.len() < 7 {
            Err(LogError::MissingFields)
        } else {
            let r = ErrorLog::try_new(fields);
            proof {
                if r is Ok {
                    lemma_decode_keeps_line(line@);
                }
            }
            r
        }
    }

    /// Whether the record is of the kind `error`.
    pub fn is_error(&self) -> (r: bool)
        ensures
            r == is_error(self@),
    {
        let kind = String::from_str("error");
        self.error_type == kind
    }

    /// The code to look up in the compiler's explanations: the letter `E`
    /// before the record's code, if it has one.
    pub fn rustc_error_code(&self) -> (r: Option<String>)
        ensures
            optional_text(r) == (match self@.error_code {
                Some(code) => Some("E"@ + code),
                None => None,
            }),
    {
        match &self.error_code {
            Some(code) => Some(String::from_str("E").concat(code.as_str())),
            None => None,
        }
    }
}

/// Whether a record is of the kind `error`.
pub open spec fn is_error(r: ErrorLogView) -> bool {
    r.error_type == "error"@
}

} // verus!
