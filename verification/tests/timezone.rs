use jata::timezone::{decide, pick, resolve, verdict, Error, Source};

fn candidate(source: Source, value: &str) -> (Source, Option<String>) {
    (source, Some(value.to_owned()))
}

#[test]
fn takes_the_first_source_that_has_a_value() {
    let picked = pick(vec![
        (Source::Flag, None),
        candidate(Source::JatabagTz, "Asia/Tokyo"),
        candidate(Source::Tz, "Europe/Berlin"),
    ])
    .ok()
    .unwrap();

    assert_eq!("Asia/Tokyo", picked.name());
    assert_eq!(Source::JatabagTz, picked.source());
}

#[test]
fn steps_over_a_source_holding_only_whitespace() {
    let picked = pick(vec![
        candidate(Source::Tz, "   "),
        candidate(Source::OperatingSystem, "Europe/Berlin"),
    ])
    .ok()
    .unwrap();

    assert_eq!(Source::OperatingSystem, picked.source());
}

#[test]
fn strips_the_colon_posix_allows_in_front_of_a_name() {
    let picked = pick(vec![candidate(Source::Tz, ":America/Chicago")])
        .ok()
        .unwrap();

    assert_eq!("America/Chicago", picked.name());
}

#[test]
fn accepts_a_posix_rule_from_tz() {
    let picked = pick(vec![candidate(Source::Tz, "EST5EDT,M3.2.0,M11.1.0")])
        .ok()
        .unwrap();

    assert_eq!("EST5EDT,M3.2.0,M11.1.0", picked.name());
}

#[test]
fn rejects_a_posix_rule_from_any_source_but_tz() {
    let error = pick(vec![candidate(Source::Flag, "EST5EDT,M3.2.0,M11.1.0")])
        .err()
        .unwrap();

    assert!(matches!(error, Error::Unrecognized { .. }));
}

#[test]
fn fails_rather_than_falling_through_to_a_later_source() {
    let error = pick(vec![
        candidate(Source::Tz, "Mars/Olympus"),
        candidate(Source::OperatingSystem, "Europe/Berlin"),
    ])
    .err()
    .unwrap();

    assert!(matches!(
        error,
        Error::Unrecognized {
            source: Source::Tz,
            ..
        }
    ));
}

#[test]
fn reports_no_timezone_when_every_source_is_empty() {
    let error = pick(vec![(Source::Flag, None), (Source::Tz, None)])
        .err()
        .unwrap();

    assert!(matches!(error, Error::Undetermined));
}

#[test]
fn trims_a_name_and_names_its_source() {
    let picked = pick(vec![candidate(Source::Flag, "  UTC \t")]).ok().unwrap();

    assert_eq!("UTC", picked.name());
    assert_eq!("--timezone", picked.source().label());
    assert_eq!("the operating system", Source::OperatingSystem.label());
}

#[test]
fn reports_an_unknown_name_in_quotes_and_where_it_came_from() {
    let error = pick(vec![candidate(Source::JatabagTz, "Mars/Olympus")])
        .err()
        .unwrap();

    assert_eq!(
        "JATABAG_TZ names the timezone \"Mars/Olympus\", which is not one this system knows",
        error.message()
    );
    assert_eq!(
        "no timezone found: the operating system reports none, and neither JATABAG_TZ nor TZ is set. Pass --timezone to name one",
        Error::Undetermined.message()
    );
}

#[test]
fn answers_with_the_name_given_whether_or_not_it_is_known() {
    let known = verdict("Asia/Tokyo".to_owned(), Source::Tz, true).ok().unwrap();
    assert_eq!("Asia/Tokyo", known.name());
    assert_eq!(Source::Tz, known.source());

    let unknown = verdict("Nowhere".to_owned(), Source::Flag, false).err().unwrap();
    assert!(matches!(
        unknown,
        Error::Unrecognized { ref name, source: Source::Flag } if name == "Nowhere"
    ));
}

#[test]
fn keeps_colons_inside_a_name_and_drops_every_leading_one() {
    let picked = pick(vec![candidate(Source::Tz, "::Europe/Berlin")]).ok().unwrap();

    assert_eq!("Europe/Berlin", picked.name());
}

#[test]
fn decides_by_the_database_and_by_posix_rules_from_tz_only() {
    let held = decide("Europe/Berlin".to_owned(), Source::Flag, true).ok().unwrap();
    assert_eq!("Europe/Berlin", held.name());
    assert_eq!(Source::Flag, held.source());

    assert!(decide("EST5EDT,M3.2.0,M11.1.0".to_owned(), Source::Tz, false).is_ok());
    assert!(matches!(
        decide("EST5EDT,M3.2.0,M11.1.0".to_owned(), Source::Flag, false),
        Err(Error::Unrecognized { source: Source::Flag, .. })
    ));
    assert!(matches!(
        decide("Mars/Olympus".to_owned(), Source::Tz, false),
        Err(Error::Unrecognized { source: Source::Tz, .. })
    ));
}

#[test]
fn resolves_the_flag_before_the_environment_and_the_system() {
    let some = |s: &str| Some(s.to_owned());

    let flag = resolve(some("Asia/Tokyo"), some("Europe/Berlin"), some("UTC"), some("UTC"))
        .ok()
        .unwrap();
    assert_eq!(Source::Flag, flag.source());

    let jatabag = resolve(None, some("Europe/Berlin"), some("UTC"), some("UTC")).ok().unwrap();
    assert_eq!(Source::JatabagTz, jatabag.source());
    assert_eq!("Europe/Berlin", jatabag.name());

    let tz = resolve(None, some(" "), some("UTC"), some("Asia/Tokyo")).ok().unwrap();
    assert_eq!(Source::Tz, tz.source());

    let system = resolve(None, None, None, some("Asia/Tokyo")).ok().unwrap();
    assert_eq!(Source::OperatingSystem, system.source());

    assert!(matches!(resolve(None, None, None, None), Err(Error::Undetermined)));
}
