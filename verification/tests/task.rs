use jata::task::{from_plaintext, Task};

const ID: &str = "01a0653f-a1fd-72f7-bda8-f68b632d520f";

fn hyphenated(id: u128) -> String {
    uuid::Uuid::from_u128(id).hyphenated().to_string()
}

fn lines(body: &str) -> Vec<String> {
    from_plaintext(body)
        .iter()
        .map(|task: &Task| task.line().to_owned())
        .collect()
}

fn text(line: &str) -> String {
    from_plaintext(&format!("{line} ^{ID}"))[0].text().to_owned()
}

#[test]
fn reads_a_task_and_keeps_the_line_it_was_drawn_on() {
    let tasks = from_plaintext(&format!("- Buy milk ^{ID}"));

    assert_eq!(1, tasks.len());
    assert_eq!(ID, hyphenated(tasks[0].id));
    assert_eq!("- Buy milk", tasks[0].line());
}

#[test]
fn keeps_the_indent_a_subtask_is_drawn_with() {
    assert_eq!(
        vec!["  - Design the listing"],
        lines(&format!("  - Design the listing ^{ID}"))
    );
}

#[test]
fn reads_a_category_as_readily_as_a_task() {
    assert_eq!(vec!["# Errands"], lines(&format!("# Errands ^{ID}")));
}

#[test]
fn passes_over_the_lines_that_carry_no_marker() {
    let body = format!("- Buy milk ^{ID}\n\n  a note about milk\n\n---\n");

    assert_eq!(vec!["- Buy milk"], lines(&body));
}

#[test]
fn passes_over_a_caret_that_is_not_followed_by_an_id() {
    assert!(lines("- Read Knuth vol ^2").is_empty());
    assert!(lines("- Caret at the end ^").is_empty());
    assert!(lines(&format!("- Not an id ^{}", "z".repeat(36))).is_empty());
}

#[test]
fn passes_over_an_id_that_is_not_behind_a_caret() {
    assert!(lines(&format!("- Buy milk {ID}")).is_empty());
}

#[test]
fn passes_over_an_id_that_is_not_where_the_marker_goes() {
    assert!(lines(&format!("- Talk about ^{ID} with them")).is_empty());
}

#[test]
fn takes_the_marker_at_the_end_and_leaves_a_caret_in_the_text() {
    let tasks = from_plaintext(&format!("- Mark it ^here ^{ID}"));

    assert_eq!(
        vec!["- Mark it ^here"],
        lines(&format!("- Mark it ^here ^{ID}"))
    );
    assert_eq!("Mark it ^here", tasks[0].text());
}

#[test]
fn drops_the_indent_and_the_task_marker() {
    assert_eq!("Design the listing", text("    - Design the listing"));
}

#[test]
fn drops_a_category_marker_however_deep() {
    assert_eq!("Errands", text("# Errands"));
    assert_eq!("Errands", text("### Errands"));
}

#[test]
fn keeps_a_dash_that_belongs_to_the_task() {
    assert_eq!("- dash first", text("- - dash first"));
}

#[test]
fn reads_every_task_of_a_render_in_order_with_its_id() {
    let two = "0193a1b2-c3d4-7e5f-8a9b-0c1d2e3f4a5b";
    let body = format!("# Errands ^{ID}\r\n  - Buy milk   ^{two}  \r\nnote\n");
    let tasks = from_plaintext(&body);

    assert_eq!(2, tasks.len());
    assert_eq!(ID, hyphenated(tasks[0].id));
    assert_eq!(two, hyphenated(tasks[1].id));
    assert_eq!("# Errands", tasks[0].line());
    assert_eq!("  - Buy milk", tasks[1].line());
    assert_eq!("Errands", tasks[0].text());
    assert_eq!("Buy milk", tasks[1].text());
}

#[test]
fn reads_an_uppercase_marker_and_nothing_from_an_empty_render() {
    let tasks = from_plaintext(&format!("- Shout ^{}", ID.to_uppercase()));

    assert_eq!(ID, hyphenated(tasks[0].id));
    assert!(from_plaintext("").is_empty());
    assert!(from_plaintext("\n\n").is_empty());
}

#[test]
fn passes_over_a_marker_with_a_character_beyond_ascii() {
    let marker = format!("{}é", &ID[..35]);

    assert!(lines(&format!("- Accent ^{marker}")).is_empty());
}

#[test]
fn keeps_a_heading_marker_without_a_space_and_a_bare_line() {
    assert_eq!("Errands", text("#Errands"));
    assert_eq!("plain words", text("  plain words"));
    assert_eq!("-nodash", text("-nodash"));
}

#[test]
fn reads_a_joined_render_as_the_tasks_of_each_part() {
    let two = "0193a1b2-c3d4-7e5f-8a9b-0c1d2e3f4a5b";
    let a = format!("# Errands ^{ID}\nnote\r");
    let b = format!("  - Buy milk ^{two}");
    let joined = from_plaintext(&format!("{a}\n{b}"));
    let apart: Vec<Task> = from_plaintext(&a)
        .into_iter()
        .chain(from_plaintext(&b))
        .collect();

    assert_eq!(apart.len(), joined.len());
    for (one, other) in apart.iter().zip(joined.iter()) {
        assert_eq!(one.id, other.id);
        assert_eq!(one.line(), other.line());
    }
}

#[test]
fn names_a_task_by_the_id_of_its_marker() {
    let tasks = from_plaintext(&format!("- Buy milk ^{ID}"));

    assert_eq!(tasks[0].id, tasks[0].id());
    assert_eq!(ID, jata::id::hyphenated_text(tasks[0].id()));
}
