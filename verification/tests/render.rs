use jata::render::{FocusOptions, Options, Position, Sort, SortScope, TagMode};

fn options() -> Options {
    Options {
        ids: false,
        tags: false,
        no_context: false,
        links: false,
        filter_tags: Vec::new(),
        tag_mode: TagMode::Or,
        without: false,
        under: None,
        pressure: None,
    }
}

fn pairs(query: &[(&str, &str)]) -> Vec<(String, String)> {
    query
        .iter()
        .map(|(key, value)| (key.to_string(), value.to_string()))
        .collect()
}

#[test]
fn asks_for_nothing_the_user_did_not_ask_for() {
    assert!(options().query().is_empty());
}

#[test]
fn names_every_setting_as_the_server_reads_it() {
    let query = Options {
        ids: true,
        tags: true,
        no_context: true,
        links: true,
        filter_tags: vec!["errands".to_owned(), "home".to_owned()],
        tag_mode: TagMode::And,
        without: true,
        under: Some("01a0653f-a1fd-72f7-bda8-f68b632d520f".to_owned()),
        pressure: Some(85),
    }
    .query();

    assert_eq!(
        pairs(&[
            ("plaintext[ids]", "on"),
            ("plaintext[tags]", "on"),
            ("plaintext[links]", "on"),
            ("plaintext[context]", "off"),
            ("filter[tags][]", "errands"),
            ("filter[tags][]", "home"),
            ("filter[mode]", "and"),
            ("filter[not]", "1"),
            ("t_nid", "01a0653f-a1fd-72f7-bda8-f68b632d520f"),
            ("pressure", "85"),
        ]),
        query
    );
}

#[test]
fn leaves_the_tag_mode_to_the_server_without_tags_or_when_any_matches() {
    let mut and_without_tags = options();
    and_without_tags.tag_mode = TagMode::And;
    assert!(and_without_tags.query().is_empty());

    let mut or = options();
    or.filter_tags = vec!["errands".to_owned()];
    assert_eq!(pairs(&[("filter[tags][]", "errands")]), or.query());
}

#[test]
fn writes_a_pressure_in_decimal() {
    for (pressure, written) in [(0u8, "0"), (7, "7"), (10, "10"), (100, "100"), (255, "255")] {
        let mut settings = options();
        settings.pressure = Some(pressure);
        assert_eq!(pairs(&[("pressure", written)]), settings.query());
    }
}

#[test]
fn asks_for_the_focus_view_and_its_order() {
    let plain = FocusOptions {
        flat: false,
        sort: None,
        sort_scope: None,
    };
    assert_eq!(pairs(&[("view", "focus")]), plain.query());

    let sorted = FocusOptions {
        flat: true,
        sort: Some(Sort::StaleMost),
        sort_scope: Some(SortScope::Categories),
    };
    assert_eq!(
        pairs(&[
            ("view", "focus"),
            ("plaintext[flat]", "on"),
            ("sort", "stale-most"),
            ("sort_scope", "categories"),
        ]),
        sorted.query()
    );
}

#[test]
fn spells_each_choice_in_kebab_case() {
    let sorts = [
        (Sort::Default, "default"),
        (Sort::CreatedNewest, "created-newest"),
        (Sort::CreatedOldest, "created-oldest"),
        (Sort::StaleMost, "stale-most"),
        (Sort::StaleLeast, "stale-least"),
        (Sort::WeightLightest, "weight-lightest"),
        (Sort::WeightHeaviest, "weight-heaviest"),
    ];
    for (sort, spelled) in sorts {
        assert_eq!(spelled, sort.spelling());
    }
    assert_eq!("tasks", SortScope::Tasks.spelling());
    assert_eq!("both", SortScope::Both.spelling());
    assert_eq!("top", Position::Top.spelling());
    assert_eq!("bottom", Position::Bottom.spelling());
}
