//! The timezone to work in: the first of the places that can name one that
//! does, as long as what it names is a timezone.
use vstd::prelude::*;
use crate::text::{chars_of, held, push_str, skip_char, strip_start, string_of, trim, trimmed_bounds};

verus! {

/// Where a timezone's name was found.
#[derive(Clone, Copy, Debug, PartialEq, Eq, Structural)]
pub enum Source {
    Flag,
    JatabagTz,
    Tz,
    OperatingSystem,
}

impl Source {
    /// How the source is named to the user.
    pub open spec fn label_spec(self) -> Seq<char> {
        match self {
            Source::Flag => "--timezone"@,
            Source::JatabagTz => "JATABAG_TZ"@,
            Source::Tz => "TZ"@,
            Source::OperatingSystem => "the operating system"@,
        }
    }

    /// How the source is named to the user.
    pub fn label(self) -> (label: &'static str)
        ensures
            label@ == self.label_spec(),
    {
        match self {
            Source::Flag => "--timezone",
            Source::JatabagTz => "JATABAG_TZ",
            Source::Tz => "TZ",
            Source::OperatingSystem => "the operating system",
        }
    }
}

/// A timezone's name, and where it was found.
pub struct Timezone {
    name: String,
    source: Source,
}

impl View for Timezone {
    type V = (Seq<char>, Source);

    closed spec fn view(&self) -> (Seq<char>, Source) {
        (self.name@, self.source)
    }
}

impl Timezone {
    pub fn name(&self) -> (name: &str)
        ensures
            name@ == self@.0,
    {
        self.name.as_str()
    }

    pub fn source(&self) -> (source: Source)
        ensures
            source == self@.1,
    {
        self.source
    }
}

pub enum Error {
    /// The first source to name a timezone named one this system does not know.
    Unrecognized { name: String, source: Source },
    /// No source names a timezone.
    Undetermined,
}

/// A candidate as a pair of plain values: its source, and what it holds.
pub open spec fn candidate_view(c: (Source, Option<String>)) -> (Source, Option<Seq<char>>) {
    (c.0, held(c.1))
}

/// The first candidate that holds more than whitespace, with the name it
/// holds: trimmed, and without the colons POSIX allows in front of a name.
pub open spec fn first_named(cs: Seq<(Source, Option<Seq<char>>)>) -> Option<(Source, Seq<char>)>
    decreases cs.len(),
{
    if cs.len() == 0 {
        None
    } else {
        match cs[0].1 {
            Some(value) if trim(value).len() > 0 => Some((cs[0].0, strip_start(trim(value), ':'))),
            _ => first_named(cs.drop_first()),
        }
    }
}

/// The first candidate that names a timezone, as `first_named` gives it.
pub fn first_name(candidates: &Vec<(Source, Option<String>)>) -> (named: Option<(Source, String)>)
    ensures
        match named {
            Some((source, name)) => first_named(candidates@.map_values(|c| candidate_view(c)))
                == Some((source, name@)),
            None => first_named(candidates@.map_values(|c| candidate_view(c))) is None,
        },
{
    let ghost cs = candidates@.map_values(|c| candidate_view(c));
    let mut i: usize = 0;
    assert(cs.skip(0) == cs);
    while i < candidates.len()
        invariant
            i <= candidates@.len() == cs.len(),
            cs == candidates@.map_values(|c| candidate_view(c)),
            first_named(cs.skip(i as int)) == first_named(cs),
        decreases candidates.len() - i,
    {
        assert(cs.skip(i as int)[0] == cs[i as int]);
        assert(cs.skip(i as int).drop_first() == cs.skip(i + 1));
        match &candidates[i].1 {
            Some(value) => {
                let v = chars_of(value.as_str());
                let (lo, hi) = trimmed_bounds(&v);
                if lo < hi {
                    let start = skip_char(&v, lo, hi, ':');
                    return Some((candidates[i].0, string_of(&v, start, hi)));
                }
            },
            None => {},
        }
        i += 1;
    }
    None
}

/// Whether `jiff::tz::TimeZone::posix` reads `rule` as a POSIX TZ rule.
pub uninterp spec fn posix_rule_parses(rule: Seq<char>) -> bool;

/// `jiff::tz::TimeZone::posix`: whether `rule` parses as a POSIX TZ rule.
/// Claimed: the answer is the named function of the rule.
#[verifier::external_body]
fn parses_as_posix_rule(rule: &str) -> (parses: bool)
    ensures
        parses == posix_rule_parses(rule@),
{
    jiff::tz::TimeZone::posix(rule).is_ok()
}

/// `jiff::tz::TimeZone::get`: whether the time zone database on this machine
/// holds `name`. Nothing is claimed of the answer: it rests on what the
/// machine's database holds.
#[verifier::external_body]
fn in_time_zone_database(name: &str) -> bool {
    jiff::tz::TimeZone::get(name).is_ok()
}

/// Whether `name`, found in `source`, names a timezone, given whether the
/// time zone database holds it: one the database holds or, from `TZ` only, a
/// POSIX rule.
fn recognized(name: &str, source: Source, in_database: bool) -> (known: bool)
    ensures
        known == (in_database || (source == Source::Tz && posix_rule_parses(name@))),
{
    in_database || (source == Source::Tz && parses_as_posix_rule(name))
}

/// The answer for a name found in `source`, given whether it is recognized.
pub fn verdict(name: String, source: Source, recognized: bool) -> (r: Result<Timezone, Error>)
    ensures
        recognized ==> (r matches Ok(tz) && tz@ == (name@, source)),
        !recognized ==> (r matches Err(Error::Unrecognized { name: n, source: s }) && n@ == name@
            && s == source),
{
    if recognized {
        Ok(Timezone { name, source })
    } else {
        Err(Error::Unrecognized { name, source })
    }
}

/// The answer for a name found in `source`, given whether the time zone
/// database on this machine holds it: the timezone when the database holds it
/// or, from `TZ` only, when it is a POSIX rule; otherwise an error naming it
/// and its source.
pub fn decide(name: String, source: Source, in_database: bool) -> (r: Result<Timezone, Error>)
    ensures
        (r is Ok) == (in_database || (source == Source::Tz && posix_rule_parses(name@))),
        r matches Ok(tz) ==> tz@ == (name@, source),
        r matches Err(e) ==> (e matches Error::Unrecognized { name: n, source: s } && n@ == name@
            && s == source),
{
    let known = recognized(name.as_str(), source, in_database);
    verdict(name, source, known)
}

/// What picking among `cs` may answer: nothing named gives `Undetermined`;
/// otherwise the first name decides, either as the timezone or as an error
/// naming it and its source, and a POSIX rule from `TZ` is accepted.
pub open spec fn pick_outcome(
    cs: Seq<(Source, Option<Seq<char>>)>,
    r: Result<Timezone, Error>,
) -> bool {
    match first_named(cs) {
        None => r matches Err(Error::Undetermined),
        Some((source, name)) => {
            &&& r matches Ok(tz) ==> tz@ == (name, source)
            &&& r matches Err(e) ==> (e matches Error::Unrecognized { name: n, source: s } && n@
                == name && s == source)
            &&& source == Source::Tz && posix_rule_parses(name) ==> r is Ok
        },
    }
}

/// The timezone the first candidate holding more than whitespace names; an
/// error if it names none this system knows, without falling through to a
/// later candidate; an error too if no candidate holds a name. Whether the
/// time zone database holds the name is asked of the machine's database.
pub fn pick(candidates: Vec<(Source, Option<String>)>) -> (r: Result<Timezone, Error>)
    ensures
        pick_outcome(candidates@.map_values(|c| candidate_view(c)), r),
{
    match first_name(&candidates) {
        None => Err(Error::Undetermined),
        Some((source, name)) => {
            let in_database = in_time_zone_database(name.as_str());
            decide(name, source, in_database)
        },
    }
}

/// The places a timezone can be named, in the order they are asked: the
/// `--timezone` flag, then `JATABAG_TZ`, then `TZ`, then the operating system.
pub open spec fn sources(
    flag: Option<Seq<char>>,
    jatabag_tz: Option<Seq<char>>,
    tz: Option<Seq<char>>,
    operating_system: Option<Seq<char>>,
) -> Seq<(Source, Option<Seq<char>>)> {
    seq![
        (Source::Flag, flag),
        (Source::JatabagTz, jatabag_tz),
        (Source::Tz, tz),
        (Source::OperatingSystem, operating_system),
    ]
}

/// The timezone to work in, from the `--timezone` flag, else `JATABAG_TZ`,
/// else `TZ`, else the operating system's, as `pick` picks among them.
pub fn resolve(
    flag: Option<String>,
    jatabag_tz: Option<String>,
    tz: Option<String>,
    operating_system: Option<String>,
) -> (r: Result<Timezone, Error>)
    ensures
        pick_outcome(sources(held(flag), held(jatabag_tz), held(tz), held(operating_system)), r),
{
    let ghost expected = sources(held(flag), held(jatabag_tz), held(tz), held(operating_system));
    let candidates = vec![
        (Source::Flag, flag),
        (Source::JatabagTz, jatabag_tz),
        (Source::Tz, tz),
        (Source::OperatingSystem, operating_system),
    ];
    assert(candidates@.map_values(|c| candidate_view(c)) == expected);
    pick(candidates)
}

/// Whether `s` is written by `Debug` as it stands: printable ASCII other than
/// the double quote and the backslash.
pub open spec fn plain(s: Seq<char>) -> bool {
    forall|i: int| 0 <= i < s.len() ==> ' ' <= #[trigger] s[i] <= '~' && s[i] != '"' && s[i] != '\\'
}

/// `<str as Debug>::fmt`, through `format!`: `name` between double quotes,
/// each character escaped as `char::escape_debug` escapes it.
/// Claimed: a name of plain characters is written between the quotes as it stands.
#[verifier::external_body]
fn quoted(name: &str) -> (q: String)
    ensures
        plain(name@) ==> q@ == seq!['"'] + name@ + seq!['"'],
{
    format!("{:?}", name)
}

impl Error {
    /// What the error tells the user.
    pub fn message(&self) -> (message: String)
        ensures
            match self {
                Error::Unrecognized { name, source } => exists|q: Seq<char>|
                    message@ == source.label_spec() + " names the timezone "@ + q
                        + ", which is not one this system knows"@ && (plain(name@) ==> q
                        == seq!['"'] + name@ + seq!['"']),
                Error::Undetermined => message@
                    == "no timezone found: the operating system reports none, and neither JATABAG_TZ nor TZ is set. Pass --timezone to name one"@,
            },
    {
        let mut message = String::new();
        match self {
            Error::Unrecognized { name, source } => {
                let q = quoted(name.as_str());
                push_str(&mut message, source.label());
                push_str(&mut message, " names the timezone ");
                push_str(&mut message, q.as_str());
                push_str(&mut message, ", which is not one this system knows");
                assert(message@ == source.label_spec() + " names the timezone "@ + q@
                    + ", which is not one this system knows"@);
            },
            Error::Undetermined => push_str(
                &mut message,
                "no timezone found: the operating system reports none, and neither JATABAG_TZ nor TZ is set. Pass --timezone to name one",
            ),
        }
        message
    }
}

} // verus!
