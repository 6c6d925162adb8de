use jata::pick::{a_task, one_of, settle, Error, Pending, Picked};
use jata::task::from_plaintext;

const ONE: u128 = 0x2e4e68639bfe4c37b64faa6da5ba51eb;
const TWO: u128 = 0x0193a1b2c3d47e5f8a9b0c1d2e3f4a5b;

#[test]
fn has_no_tree_to_work_on_when_none_is_kept() {
    assert!(matches!(one_of(Vec::new()), Err(Error::Nothing)));
}

#[test]
fn works_on_the_only_tree_kept_without_asking() {
    assert!(matches!(one_of(vec![ONE]), Ok(Pending::Settled(ONE))));
}

#[test]
fn asks_which_of_several_trees() {
    match one_of(vec![ONE, TWO]) {
        Ok(Pending::Choose(trees)) => assert_eq!(vec![ONE, TWO], trees),
        _ => panic!("expected a choice"),
    }
}

#[test]
fn asks_which_task_even_of_one_and_has_none_of_an_empty_tree() {
    assert!(matches!(a_task(Vec::new()), Err(Error::NoTasks)));
    let tasks = from_plaintext("- Buy milk ^01a0653f-a1fd-72f7-bda8-f68b632d520f");
    match a_task(tasks) {
        Ok(Pending::Choose(tasks)) => assert_eq!(1, tasks.len()),
        _ => panic!("expected a choice"),
    }
}

#[test]
fn reads_how_a_picker_ended() {
    assert!(matches!(settle(Picked::Chosen(ONE), "tree"), Ok(ONE)));
    assert!(matches!(settle::<u128>(Picked::Dismissed, "tree"), Err(Error::Abandoned)));
    assert!(matches!(settle::<u128>(Picked::Interrupted, "tree"), Err(Error::Abandoned)));
    assert!(matches!(
        settle::<u128>(Picked::NotInteractive, "task"),
        Err(Error::NotInteractive("task"))
    ));
    assert!(matches!(
        settle::<u128>(Picked::Failed("broken pipe".to_owned()), "task"),
        Err(Error::Failed(ref cause)) if cause == "broken pipe"
    ));
}

#[test]
fn tells_the_user_what_went_wrong() {
    assert_eq!("no trees kept — run jata with a link to keep one", Error::Nothing.message());
    assert_eq!("that tree has no tasks", Error::NoTasks.message());
    assert_eq!("nothing chosen", Error::Abandoned.message());
    assert_eq!(
        "choosing a tree needs a terminal to choose in",
        Error::NotInteractive("tree").message()
    );
    assert_eq!("broken pipe", Error::Failed("broken pipe".to_owned()).message());
}
