//! Flight plans from SimBrief: the address to ask, and what becomes of the
//! answer. The request itself is the host's.

use crate::simulator::{clone_text, text_of, StoredFlightPlan, StoredFlightPlanView};
use crate::text::{decimal, decimal_text, str_to_uppercase, trim, trimmed, uppercase};
use vstd::prelude::*;
use vstd::utf8::encode_utf8;

verus! {

/// The latest flight plan of a SimBrief user.
#[derive(Debug, Clone, PartialEq, Eq)]
pub struct SimbriefPlan {
    pub username: String,
    pub callsign: Option<String>,
    pub aircraft_icao: Option<String>,
    pub departure_icao: Option<String>,
    pub arrival_icao: Option<String>,
    pub route: Option<String>,
    pub ofp_id: Option<String>,
    pub created_at: Option<String>,
}

/// A SimBrief plan as the texts it holds.
pub struct SimbriefPlanView {
    pub username: Seq<char>,
    pub callsign: Option<Seq<char>>,
    pub aircraft_icao: Option<Seq<char>>,
    pub departure_icao: Option<Seq<char>>,
    pub arrival_icao: Option<Seq<char>>,
    pub route: Option<Seq<char>>,
    pub ofp_id: Option<Seq<char>>,
    pub created_at: Option<Seq<char>>,
}

impl View for SimbriefPlan {
    type V = SimbriefPlanView;

    open spec fn view(&self) -> SimbriefPlanView {
        SimbriefPlanView {
            username: self.username@,
            callsign: text_of(self.callsign),
            aircraft_icao: text_of(self.aircraft_icao),
            departure_icao: text_of(self.departure_icao),
            arrival_icao: text_of(self.arrival_icao),
            route: text_of(self.route),
            ofp_id: text_of(self.ofp_id),
            created_at: text_of(self.created_at),
        }
    }
}

impl Default for SimbriefPlan {
    /// The plan of nobody, holding nothing.
    fn default() -> (plan: Self)
        ensures
            plan@ == (SimbriefPlanView {
                username: Seq::<char>::empty(),
                callsign: None,
                aircraft_icao: None,
                departure_icao: None,
                arrival_icao: None,
                route: None,
                ofp_id: None,
                created_at: None,
            }),
    {
        SimbriefPlan {
            username: String::new(),
            callsign: None,
            aircraft_icao: None,
            departure_icao: None,
            arrival_icao: None,
            route: None,
            ofp_id: None,
            created_at: None,
        }
    }
}

/// The fields of SimBrief's answer that the plan is made of, as they came.
#[derive(Debug, Clone, PartialEq, Eq)]
pub struct SimbriefResponse {
    /// `general.route`
    pub route: Option<String>,
    /// `general.ofp_id`
    pub ofp_id: Option<String>,
    /// `general.created`
    pub created: Option<String>,
    /// `aircraft.icao_code`
    pub aircraft_icao: Option<String>,
    /// `origin.icao_code`
    pub origin_icao: Option<String>,
    /// `destination.icao_code`
    pub destination_icao: Option<String>,
    /// `atc.callsign`
    pub callsign: Option<String>,
}

/// SimBrief's answer as the texts it holds.
pub struct SimbriefResponseView {
    pub route: Option<Seq<char>>,
    pub ofp_id: Option<Seq<char>>,
    pub created: Option<Seq<char>>,
    pub aircraft_icao: Option<Seq<char>>,
    pub origin_icao: Option<Seq<char>>,
    pub destination_icao: Option<Seq<char>>,
    pub callsign: Option<Seq<char>>,
}

impl View for SimbriefResponse {
    type V = SimbriefResponseView;

    open spec fn view(&self) -> SimbriefResponseView {
        SimbriefResponseView {
            route: text_of(self.route),
            ofp_id: text_of(self.ofp_id),
            created: text_of(self.created),
            aircraft_icao: text_of(self.aircraft_icao),
            origin_icao: text_of(self.origin_icao),
            destination_icao: text_of(self.destination_icao),
            callsign: text_of(self.callsign),
        }
    }
}

/// Why no plan was fetched.
#[derive(Debug, Clone, PartialEq, Eq)]
pub enum SimbriefError {
    /// The username is empty or white space.
    UsernameRequired,
    /// The request could not be made; the text is the host's.
    RequestFailed(String),
    /// SimBrief answered with this status instead of success.
    HttpStatus(u16),
    /// The answer could not be read; the text is the host's.
    ParseFailed(String),
}

/// A text that is present and not empty, or nothing.
pub open spec fn present(text: Seq<char>) -> Option<Seq<char>> {
    if text.len() == 0 {
        None
    } else {
        Some(text)
    }
}

/// A field as a plain text: trimmed, and nothing where nothing is left.
pub open spec fn normal_text(field: Option<Seq<char>>) -> Option<Seq<char>> {
    match field {
        Some(text) => present(trimmed(text)),
        None => None,
    }
}

/// A field as an ICAO code: trimmed and upper-cased, and nothing where
/// nothing is left.
pub open spec fn normal_icao(field: Option<Seq<char>>) -> Option<Seq<char>> {
    match field {
        Some(text) => present(uppercase(trimmed(text))),
        None => None,
    }
}

/// A text as a field: nothing where it is empty.
pub fn non_empty(text: String) -> (field: Option<String>)
    ensures
        text_of(field) == present(text@),
{
    if text.as_str().unicode_len() == 0 {
        None
    } else {
        Some(text)
    }
}

/// Normalises an ICAO code: trimmed and upper-cased; nothing where nothing
/// is left of it.
pub fn norm_icao(s: Option<String>) -> (code: Option<String>)
    ensures
        text_of(code) == normal_icao(text_of(s)),
{
    match s {
        Some(v) => non_empty(str_to_uppercase(trim(v.as_str()))),
        None => None,
    }
}

/// Normalises a text: trimmed; nothing where nothing is left of it.
pub fn norm_str(s: Option<String>) -> (text: Option<String>)
    ensures
        text_of(text) == normal_text(text_of(s)),
{
    match s {
        Some(v) => non_empty(trim(v.as_str()).to_owned()),
        None => None,
    }
}

/// Whether a byte stands for itself in a URL: a letter, a digit, or one of
/// `-`, `.`, `_`, `~`.
pub open spec fn unreserved(byte: u8) -> bool {
    ||| 0x30 <= byte <= 0x39
    ||| 0x41 <= byte <= 0x5A
    ||| 0x61 <= byte <= 0x7A
    ||| byte == 0x2D
    ||| byte == 0x2E
    ||| byte == 0x5F
    ||| byte == 0x7E
}

/// The upper-case hexadecimal digit of a number below sixteen.
pub open spec fn upper_hex_digit(digit: u8) -> char {
    if digit < 10 {
        (0x30 + digit) as u8 as char
    } else {
        (0x41 + digit - 10) as u8 as char
    }
}

/// Bytes percent-encoded: an unreserved byte stands for itself, any other
/// becomes `%` and its two upper-case hexadecimal digits.
pub open spec fn percent_encoded(bytes: Seq<u8>) -> Seq<char>
    decreases bytes.len(),
{
    if bytes.len() == 0 {
        Seq::empty()
    } else {
        (if unreserved(bytes[0]) {
            seq![bytes[0] as char]
        } else {
            seq!['%', upper_hex_digit(bytes[0] / 16), upper_hex_digit(bytes[0] % 16)]
        }) + percent_encoded(bytes.drop_first())
    }
}

/// `urlencoding::encode`: the UTF-8 bytes of the text, percent-encoded. Every
/// byte except ASCII letters, digits and `-`, `.`, `_`, `~` becomes `%` and
/// two upper-case hexadecimal digits.
#[verifier::external_body]
fn url_encode(text: &str) -> (encoded: String)
    ensures
        encoded@ == percent_encoded(encode_utf8(text@)),
{
    urlencoding::encode(text).into_owned()
}

/// The address of the latest plan of a user.
pub open spec fn plan_url(username: Seq<char>) -> Seq<char> {
    "https://www.simbrief.com/api/xml.fetcher.php?json=1&username="@ + percent_encoded(
        encode_utf8(trimmed(username)),
    )
}

/// The address to ask for the latest plan of `username`, or the refusal of a
/// username that is empty or white space.
pub fn request_url(username: &str) -> (outcome: Result<String, SimbriefError>)
    ensures
        trimmed(username@).len() == 0 ==> outcome == Err::<String, SimbriefError>(
            SimbriefError::UsernameRequired,
        ),
        trimmed(username@).len() > 0 ==> (outcome matches Ok(url) && url@ == plan_url(username@)),
{
    let name = trim(username);
    if name.unicode_len() == 0 {
        return Err(SimbriefError::UsernameRequired);
    }
    let url = "https://www.simbrief.com/api/xml.fetcher.php?json=1&username=".to_owned();
    Ok(url.concat(url_encode(name).as_str()))
}

/// Judges the status of SimBrief's answer: the codes from 200 to 299 are
/// success, any other is an error that names the code.
pub fn check_status(code: u16) -> (outcome: Result<(), SimbriefError>)
    ensures
        200 <= code < 300 ==> outcome == Ok::<(), SimbriefError>(()),
        !(200 <= code < 300) ==> outcome == Err::<(), SimbriefError>(
            SimbriefError::HttpStatus(code),
        ),
{
    if 200 <= code && code < 300 {
        Ok(())
    } else {
        Err(SimbriefError::HttpStatus(code))
    }
}

/// The plan that an answer holds for a user.
pub open spec fn plan_of(username: Seq<char>, body: SimbriefResponseView) -> SimbriefPlanView {
    SimbriefPlanView {
        username: trimmed(username),
        callsign: normal_text(body.callsign),
        aircraft_icao: normal_icao(body.aircraft_icao),
        departure_icao: normal_icao(body.origin_icao),
        arrival_icao: normal_icao(body.destination_icao),
        route: normal_text(body.route),
        ofp_id: normal_text(body.ofp_id),
        created_at: normal_text(body.created),
    }
}

/// Makes the plan of an answer: the username trimmed, every field
/// normalised.
pub fn plan_from_response(username: &str, body: SimbriefResponse) -> (plan: SimbriefPlan)
    ensures
        plan@ == plan_of(username@, body@),
{
    SimbriefPlan {
        username: trim(username).to_owned(),
        callsign: norm_str(body.callsign),
        aircraft_icao: norm_icao(body.aircraft_icao),
        departure_icao: norm_icao(body.origin_icao),
        arrival_icao: norm_icao(body.destination_icao),
        route: norm_str(body.route),
        ofp_id: norm_str(body.ofp_id),
        created_at: norm_str(body.created),
    }
}

/// The flight plan to store for a fetched plan.
pub open spec fn stored_plan_of(plan: SimbriefPlanView) -> StoredFlightPlanView {
    StoredFlightPlanView {
        callsign: plan.callsign,
        aircraft_icao: plan.aircraft_icao,
        departure_icao: plan.departure_icao,
        arrival_icao: plan.arrival_icao,
        route: plan.route,
        source: Some("simbrief"@),
    }
}

/// Makes the flight plan to store for a fetched plan: its identity and
/// route, with `simbrief` as source.
pub fn stored_plan(plan: &SimbriefPlan) -> (stored: StoredFlightPlan)
    ensures
        stored@ == stored_plan_of(plan@),
{
    StoredFlightPlan {
        callsign: clone_text(&plan.callsign),
        aircraft_icao: clone_text(&plan.aircraft_icao),
        departure_icao: clone_text(&plan.departure_icao),
        arrival_icao: clone_text(&plan.arrival_icao),
        route: clone_text(&plan.route),
        source: Some("simbrief".to_owned()),
    }
}

impl SimbriefError {
    /// The error in words.
    pub open spec fn message_text(self) -> Seq<char> {
        match self {
            SimbriefError::UsernameRequired => "SimBrief username is required"@,
            SimbriefError::RequestFailed(detail) => "SimBrief request failed: "@ + detail@,
            SimbriefError::HttpStatus(code) => "SimBrief request failed: HTTP "@ + decimal_text(
                code as nat,
            ),
            SimbriefError::ParseFailed(detail) => "Failed to parse SimBrief response: "@
                + detail@,
        }
    }

    /// The error in words.
    pub fn message(&self) -> (text: String)
        ensures
            text@ == self.message_text(),
    {
        match self {
            SimbriefError::UsernameRequired => "SimBrief username is required".to_owned(),
            SimbriefError::RequestFailed(detail) => {
                "SimBrief request failed: ".to_owned().concat(detail.as_str())
            },
            SimbriefError::HttpStatus(code) => {
                "SimBrief request failed: HTTP ".to_owned().concat(decimal(*code as u64).as_str())
            },
            SimbriefError::ParseFailed(detail) => {
                "Failed to parse SimBrief response: ".to_owned().concat(detail.as_str())
            },
        }
    }
}

} // verus!
