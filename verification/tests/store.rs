use jata::store::{absorb, keep, parse, render, Store};
use std::path::PathBuf;

const ONE: u128 = 0x2e4e68639bfe4c37b64faa6da5ba51eb;
const TWO: u128 = 0x0193a1b2c3d47e5f8a9b0c1d2e3f4a5b;

/// What keeping `ids` does to a store whose file holds `contents`: the ids it
/// answers with, and what the file holds after.
fn add(contents: &str, ids: &[u128]) -> (Vec<u128>, String) {
    let (added, after) = keep(contents, ids);
    (added, after.unwrap_or_else(|| contents.to_owned()))
}

#[test]
fn keeps_an_id_that_was_not_held() {
    let (added, file) = add("", &[ONE]);

    assert_eq!(vec![ONE], added);
    assert_eq!(vec![ONE], parse(&file));
}

#[test]
fn answers_with_only_the_ids_it_had_not_seen() {
    let (_, file) = add("", &[ONE]);
    let (added, file) = add(&file, &[ONE, TWO]);

    assert_eq!(vec![TWO], added);
    assert_eq!(vec![ONE, TWO], parse(&file));
}

#[test]
fn reads_nothing_before_anything_is_kept() {
    assert!(parse("").is_empty());
}

#[test]
fn steps_over_a_line_that_is_not_an_id() {
    assert_eq!(
        vec![ONE],
        parse(&format!(
            "\n  {}  \nnot an id\n",
            uuid::Uuid::from_u128(ONE).hyphenated()
        ))
    );
}

#[test]
fn writes_each_id_hyphenated_on_a_line_of_its_own() {
    assert_eq!(
        "2e4e6863-9bfe-4c37-b64f-aa6da5ba51eb\n0193a1b2-c3d4-7e5f-8a9b-0c1d2e3f4a5b\n",
        render(&[ONE, TWO])
    );
    assert_eq!("", render(&[]));
}

#[test]
fn reads_back_what_it_wrote() {
    let ids = [TWO, ONE, 0, u128::MAX];

    assert_eq!(ids.to_vec(), parse(&render(&ids)));
}

#[test]
fn keeping_the_same_ids_twice_adds_nothing_the_second_time() {
    let mut kept = vec![ONE];
    let first = absorb(&mut kept, &[TWO, ONE, TWO]);
    let second = absorb(&mut kept, &[TWO, ONE, TWO]);

    assert_eq!(vec![TWO], first);
    assert!(second.is_empty());
    assert_eq!(vec![ONE, TWO], kept);
}

#[test]
fn reads_ids_in_any_case_and_forms_the_file_may_hold() {
    let contents = "2E4E6863-9BFE-4C37-B64F-AA6DA5BA51EB\r\n{0193a1b2-c3d4-7e5f-8a9b-0c1d2e3f4a5b}\n";

    assert_eq!(vec![ONE, TWO], parse(contents));
}

#[test]
fn keeps_the_path_it_was_opened_at() {
    let store = Store::at(PathBuf::from("/tmp/jatabag/trees.txt"));

    assert_eq!(&PathBuf::from("/tmp/jatabag/trees.txt"), store.path());
}

#[test]
fn leaves_the_file_alone_when_every_id_is_held() {
    let (_, file) = add("", &[ONE, TWO]);
    let (added, after) = keep(&file, &[TWO, ONE]);

    assert!(added.is_empty());
    assert!(after.is_none());
}

#[test]
fn reads_the_simple_and_urn_forms_and_steps_over_other_lengths() {
    let contents = "2e4e68639bfe4c37b64faa6da5ba51eb\nURN:uuid:0193a1b2-c3d4-7e5f-8a9b-0c1d2e3f4a5b\n{2e4e6863-9bfe-4c37-b64f-aa6da5ba51eb\n2e4e6863-9bfe-4c37-b64f-aa6da5ba51ebb\n";

    assert_eq!(vec![ONE, TWO], parse(contents));
}
