//! Opening hours: the state of a place (open, closed, unknown) and the calls
//! into `opening_hours` and `chrono` that evaluate an `opening_hours` tag now.
use vstd::prelude::*;
use chrono::NaiveDateTime;
use opening_hours::OpeningHours;

verus! {

/// The state of a place at some time, as `opening_hours::RuleKind` gives it.
#[derive(Clone, Copy, Debug, PartialEq, Eq, Structural)]
pub enum RuleKind {
    Open,
    Closed,
    Unknown,
}

impl RuleKind {
    /// The lower-case name of the state (`open`, `closed`, `unknown`).
    pub fn as_str(&self) -> (res: &'static str)
        ensures
            res@ == match *self {
                RuleKind::Open => "open"@,
                RuleKind::Closed => "closed"@,
                RuleKind::Unknown => "unknown"@,
            },
    {
        match self {
            RuleKind::Open => "open",
            RuleKind::Closed => "closed",
            RuleKind::Unknown => "unknown",
        }
    }

    /// The CSS class of a listed place in this state: `open`, `closed`, or
    /// none when unknown.
    pub fn class_name(&self) -> (res: &'static str)
        ensures
            res@ == match *self {
                RuleKind::Open => "open"@,
                RuleKind::Closed => "closed"@,
                RuleKind::Unknown => ""@,
            },
    {
        match self {
            RuleKind::Open => "open",
            RuleKind::Closed => "closed",
            RuleKind::Unknown => "",
        }
    }

    /// The French label of the state shown in a place's popup.
    pub fn label(&self) -> (res: &'static str)
        ensures
            res@ == match *self {
                RuleKind::Open => "Ouvert"@,
                RuleKind::Closed => "Fermé"@,
                RuleKind::Unknown => ""@,
            },
    {
        match self {
            RuleKind::Open => "Ouvert",
            RuleKind::Closed => "Fermé",
            RuleKind::Unknown => "",
        }
    }
}

/// The decimal digit `d` (`0` to `9`) as a character.
pub open spec fn digit_char(d: int) -> char {
    (48 + d) as char
}

/// `n` written in decimal.
pub open spec fn decimal_text(n: nat) -> Seq<char>
    decreases n,
{
    if n < 10 {
        seq![digit_char(n as int)]
    } else {
        decimal_text(n / 10).push(digit_char((n % 10) as int))
    }
}

/// `n` written in decimal with at least two digits.
pub open spec fn two_digits_text(n: int) -> Seq<char> {
    if n < 10 {
        seq![digit_char(0), digit_char(n)]
    } else {
        decimal_text(n as nat)
    }
}

/// The digit `d` (below 10) as a one-character string.
fn digit(d: u32) -> (res: &'static str)
    requires
        d < 10,
    ensures
        res@ == seq![digit_char(d as int)],
{
    let digits = "0123456789";
    proof {
        reveal_strlit("0123456789");
    }
    let i = d as usize;
    let res = digits.substring_char(i, i + 1);
    assert(res@ =~= seq![digit_char(d as int)]);
    res
}

/// `n` written in decimal.
fn decimal(n: u32) -> (res: String)
    ensures
        res@ == decimal_text(n as nat),
    decreases n,
{
    if n < 10 {
        String::from_str(digit(n))
    } else {
        let mut res = decimal(n / 10);
        res.append(digit(n % 10));
        res
    }
}

/// `n` written with at least two digits, as `format!("{:02}", n)` writes it.
pub fn two_digits(n: u32) -> (res: String)
    ensures
        res@ == two_digits_text(n as int),
{
    if n < 10 {
        let mut res = String::from_str(digit(0));
        res.append(digit(n));
        assert(res@ =~= two_digits_text(n as int));
        res
    } else {
        decimal(n)
    }
}

/// The legend of a time range in a day's timeline: `hh:mm - hh:mm` when the
/// place is open, nothing otherwise.
pub open spec fn legend_text(kind: RuleKind, start_hour: u32, start_minute: u32, end_hour: u32, end_minute: u32) -> Seq<char> {
    if kind == RuleKind::Open {
        two_digits_text(start_hour as int) + ":"@ + two_digits_text(start_minute as int) + " - "@
            + two_digits_text(end_hour as int) + ":"@ + two_digits_text(end_minute as int)
    } else {
        Seq::empty()
    }
}

/// The legend of a range of a day's timeline, from its state and its bounds.
pub fn legend(kind: RuleKind, start_hour: u32, start_minute: u32, end_hour: u32, end_minute: u32) -> (res: String)
    ensures
        res@ == legend_text(kind, start_hour, start_minute, end_hour, end_minute),
{
    if kind == RuleKind::Open {
        let mut res = two_digits(start_hour);
        res.append(":");
        res.append(two_digits(start_minute).as_str());
        res.append(" - ");
        res.append(two_digits(end_hour).as_str());
        res.append(":");
        res.append(two_digits(end_minute).as_str());
        res
    } else {
        String::new()
    }
}

/// The French names of the days of the week, Monday first.
pub open spec fn weekday_text(day: int) -> Seq<char> {
    if day == 0 {
        "Lundi"@
    } else if day == 1 {
        "Mardi"@
    } else if day == 2 {
        "Mercredi"@
    } else if day == 3 {
        "Jeudi"@
    } else if day == 4 {
        "Vendredi"@
    } else if day == 5 {
        "Samedi"@
    } else {
        "Dimanche"@
    }
}

/// The French name of the day `day` days after Monday.
pub fn weekday_name(day: u32) -> (res: &'static str)
    requires
        day < 7,
    ensures
        res@ == weekday_text(day as int),
{
    match day {
        0 => "Lundi",
        1 => "Mardi",
        2 => "Mercredi",
        3 => "Jeudi",
        4 => "Vendredi",
        5 => "Samedi",
        _ => "Dimanche",
    }
}

/// `chrono::NaiveDateTime`, a date and time without time zone.
#[verifier::external_type_specification]
#[verifier::external_body]
pub struct ExNaiveDateTime(chrono::NaiveDateTime);

/// An `opening_hours::OpeningHours`, which Verus cannot declare (its
/// parameter is bound by the crate's `Localize` trait), so this struct is
/// hidden from Verus; the page reads the expression's ranges through `inner`.
#[verifier::external_body]
pub struct Expression {
    pub inner: OpeningHours,
}

/// A parsed `opening_hours` expression and the text it was parsed from.
pub struct Hours {
    source: String,
    expression: Expression,
}

impl View for Hours {
    type V = Seq<char>;

    /// The text the expression was parsed from. The parsed expression is left
    /// out: an `Hours` is only made by `parse_opening_hours`, which parses
    /// exactly this text, so what the library asks of the expression
    /// (`opening_state`) is stated over the text.
    closed spec fn view(&self) -> Seq<char> {
        self.source@
    }
}

impl Hours {
    /// The parsed expression, for the page's timeline. Verus sees nothing
    /// inside an `Expression`, so nothing is stated of it beyond being the one
    /// parsed from `self@`.
    pub fn expression(&self) -> &Expression {
        &self.expression
    }
}

/// A local date and time, read by the page as a naive date and time.
pub struct Moment {
    seconds: i64,
    time: NaiveDateTime,
}

impl View for Moment {
    type V = i64;

    /// The seconds from 1970-01-01 00:00:00 to this date and time, counted
    /// as if it were UTC (`NaiveDateTime::and_utc().timestamp()`). The chrono
    /// value is left out: `local_now` and `moment_at` make it together with
    /// these seconds, and it is the date and time they count to (the clock's
    /// fraction of a second aside, which no opening-hours boundary can see).
    closed spec fn view(&self) -> i64 {
        self.seconds
    }
}

/// The seconds of chrono's first date and time, -262143-01-01 00:00:00.
pub const FIRST_SECOND: i64 = -8_334_601_228_800;

/// The seconds of chrono's last whole second, 262142-12-31 23:59:59.
pub const LAST_SECOND: i64 = 8_210_266_876_799;

/// The last second at which a state can be asked for: `OpeningHours::state`
/// looks one minute ahead, and chrono panics past its last date and time.
pub const LAST_STATE_SECOND: i64 = 8_210_266_876_739;

impl Moment {
    /// The date and time `seconds` after 1970-01-01 00:00:00, when chrono can
    /// represent it: from `FIRST_SECOND` to `LAST_SECOND`.
    pub fn from_seconds(seconds: i64) -> (res: Option<Moment>)
        ensures
            res is Some <==> FIRST_SECOND <= seconds <= LAST_SECOND,
            res matches Some(m) ==> m@ == seconds,
    {
        moment_at(seconds)
    }

    /// The seconds of this date and time.
    pub fn seconds(&self) -> (res: i64)
        ensures
            res == self@,
    {
        self.seconds
    }
}

/// Whether `opening_hours` accepts `text` as an opening-hours expression.
pub uninterp spec fn opening_hours_valid(text: Seq<char>) -> bool;

/// What `OpeningHours::state` says of the expression parsed from `text` at
/// the date and time `time` (in the seconds of [`Moment`]).
pub uninterp spec fn opening_state(text: Seq<char>, time: i64) -> RuleKind;

/// `OpeningHours::parse`: the parsed expression, or `None` when the parser
/// refuses `text`. Trusted: it succeeds exactly when `opening_hours_valid(text@)`,
/// and what it returns is parsed from `text`.
#[verifier::external_body]
pub(crate) fn parse_opening_hours(text: &str) -> (res: Option<Hours>)
    ensures
        res is Some <==> opening_hours_valid(text@),
        res matches Some(h) ==> h@ == text@,
{
    #[allow(deprecated)]
    OpeningHours::parse(text).ok().map(|inner| Hours { source: text.to_string(), expression: Expression { inner } })
}

/// `chrono::Local::now().naive_local()`: the local date and time, with its
/// seconds (`and_utc().timestamp()`). Trusted: it is a date and time that
/// chrono represents (`naive_local` panics otherwise), so its seconds lie
/// from `FIRST_SECOND` to `LAST_SECOND`; which one it is, is the clock's.
#[verifier::external_body]
pub(crate) fn local_now() -> (res: Moment)
    ensures
        FIRST_SECOND <= res@ <= LAST_SECOND,
{
    let time = chrono::Local::now().naive_local();
    Moment { seconds: time.and_utc().timestamp(), time }
}

/// `chrono::DateTime::from_timestamp(seconds, 0)`, as a naive date and time:
/// `None` when chrono cannot represent it. Trusted: it succeeds exactly from
/// `FIRST_SECOND` to `LAST_SECOND` (the seconds of `NaiveDate::MIN` and of
/// the last second of `NaiveDate::MAX`), and a moment it gives has the seconds
/// it was asked for (chrono documents the round trip with `timestamp`).
#[verifier::external_body]
fn moment_at(seconds: i64) -> (res: Option<Moment>)
    ensures
        res is Some <==> FIRST_SECOND <= seconds <= LAST_SECOND,
        res matches Some(m) ==> m@ == seconds,
{
    chrono::DateTime::from_timestamp(seconds, 0).map(|d| Moment { seconds, time: d.naive_utc() })
}

/// `OpeningHours::state`: the state of `hours` at `time`, read from the kind
/// of the pair it returns. It adds a minute to `time`, which chrono refuses
/// (by a panic) past its last date and time, hence the bound. Trusted: it is
/// `opening_state` of the expression's text and of the time.
#[verifier::external_body]
pub(crate) fn state_at(hours: &Hours, time: &Moment) -> (res: RuleKind)
    requires
        time@ <= LAST_STATE_SECOND,
    ensures
        res == opening_state(hours@, time@),
{
    match hours.expression.inner.state(time.time).0 {
        opening_hours::RuleKind::Open => RuleKind::Open,
        opening_hours::RuleKind::Closed => RuleKind::Closed,
        opening_hours::RuleKind::Unknown => RuleKind::Unknown,
    }
}

} // verus!
