use jata::cli::{
    added_message, already_kept, already_kept_message, deleted_message, naming_tasks,
    new_task_fields, nothing_to_keep,
    timezone_line, NO_TREE_ID,
};
use jata::render::Position;
use jata::timezone::{pick, Source};

fn pairs(query: &[(&str, &str)]) -> Vec<(String, String)> {
    query
        .iter()
        .map(|(key, value)| (key.to_string(), value.to_string()))
        .collect()
}

#[test]
fn asks_for_a_render_that_names_every_task() {
    assert_eq!(
        pairs(&[("plaintext[ids]", "on"), ("plaintext[context]", "off")]),
        naming_tasks()
    );
}

#[test]
fn sends_a_new_task_with_only_what_was_given() {
    assert_eq!(
        pairs(&[("mode", "one"), ("l", "Buy milk")]),
        new_task_fields("Buy milk", None, None, false, None)
    );
    assert_eq!(
        pairs(&[
            ("mode", "one"),
            ("l", "Ship it"),
            ("c", "the new release"),
            ("n", "01a0653f-a1fd-72f7-bda8-f68b632d520f"),
            ("category", "1"),
            ("p", "bottom"),
        ]),
        new_task_fields(
            "Ship it",
            Some("the new release".to_owned()),
            Some("01a0653f-a1fd-72f7-bda8-f68b632d520f".to_owned()),
            true,
            Some(Position::Bottom),
        )
    );
}

#[test]
fn reports_what_was_done() {
    assert_eq!("added \"Buy milk\"", added_message("Buy milk"));
    assert_eq!("deleted \"Buy milk\"", deleted_message("Buy milk", false));
    assert_eq!(
        "deleted \"Errands\" and everything under it",
        deleted_message("Errands", true)
    );
    assert_eq!("2 already kept", already_kept_message(2));
    assert!(NO_TREE_ID.starts_with("no tree id in that — "));
}

#[test]
fn prints_a_timezone_with_its_source_when_asked() {
    let timezone = pick(vec![(Source::Tz, Some("Asia/Tokyo".to_owned()))])
        .ok()
        .unwrap();

    assert_eq!("Asia/Tokyo", timezone_line(&timezone, false));
    assert_eq!("Asia/Tokyo (from TZ)", timezone_line(&timezone, true));
}

#[test]
fn reports_a_text_without_ids_and_the_ids_kept_already() {
    assert_eq!(Some(NO_TREE_ID.to_owned()), nothing_to_keep(&[]));
    assert_eq!(None, nothing_to_keep(&[1]));
    assert_eq!(Some("1 already kept".to_owned()), already_kept(3, 2));
    assert_eq!(None, already_kept(2, 2));
}
