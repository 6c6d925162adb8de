use jata::api::{
    answered, base, delete_body, rejected, task_delete_url, task_url, text_url, timezone_cookie,
    Error,
};

const TREE: u128 = 0x2e4e68639bfe4c37b64faa6da5ba51eb;
const TASK: u128 = 0x01a0653fa1fd72f7bda8f68b632d520f;

#[test]
fn takes_the_flag_over_the_environment_and_the_default() {
    assert_eq!("https://a.test", base(Some("https://a.test"), Some("https://b.test")));
    assert_eq!("https://b.test", base(None, Some("https://b.test")));
    assert_eq!("https://jatabag.com", base(None, None));
}

#[test]
fn falls_back_to_the_default_for_a_blank_address() {
    assert_eq!("https://jatabag.com", base(Some("   "), Some("https://b.test")));
    assert_eq!("https://jatabag.com", base(None, Some("")));
}

#[test]
fn trims_an_address_and_its_trailing_slashes() {
    assert_eq!("https://a.test", base(Some("  https://a.test/// \n"), None));
    assert_eq!("https://a.test/x", base(None, Some("https://a.test/x/")));
}

#[test]
fn addresses_a_trees_render_and_its_tasks() {
    assert_eq!(
        "https://a.test/tree/2e4e6863-9bfe-4c37-b64f-aa6da5ba51eb.txt",
        text_url("https://a.test", TREE)
    );
    assert_eq!(
        "https://a.test/tree/2e4e6863-9bfe-4c37-b64f-aa6da5ba51eb/task",
        task_url("https://a.test", TREE)
    );
    assert_eq!(
        "https://a.test/tree/2e4e6863-9bfe-4c37-b64f-aa6da5ba51eb/task/01a0653f-a1fd-72f7-bda8-f68b632d520f",
        task_delete_url("https://a.test", TREE, TASK)
    );
}

#[test]
fn sends_the_timezone_and_the_purge_as_the_server_reads_them() {
    assert_eq!("tz=Asia/Tokyo", timezone_cookie("Asia/Tokyo"));
    assert_eq!("c=1", delete_body(true));
    assert_eq!("", delete_body(false));
}

#[test]
fn takes_every_status_up_to_303_as_success_and_refuses_the_rest() {
    assert!(answered(200).is_ok());
    assert!(answered(302).is_ok());
    assert!(answered(303).is_ok());
    assert!(matches!(answered(304), Err(Error::Refused { code: 304 })));
    assert!(matches!(answered(199), Err(Error::Refused { code: 199 })));
}

#[test]
fn reads_a_404_as_a_missing_tree_and_reports_it() {
    let missing = rejected(404, TREE, "https://a.test");
    assert!(matches!(missing, Error::Missing { tree: TREE, .. }));
    assert_eq!(
        "https://a.test has no tree 2e4e6863-9bfe-4c37-b64f-aa6da5ba51eb — it may have been deleted, or the trees may live somewhere else (set JATABAG_URL or pass --url)",
        missing.message()
    );

    let status = rejected(500, TREE, "https://a.test");
    assert!(matches!(status, Error::Status { code: 500, tree: TREE }));
    assert_eq!("2e4e6863-9bfe-4c37-b64f-aa6da5ba51eb answered 500", status.message());
}

#[test]
fn reports_each_other_error() {
    let unreachable = Error::Unreachable {
        url: "https://a.test/tree/x.txt".to_owned(),
        cause: "connection refused".to_owned(),
    };
    assert_eq!("https://a.test/tree/x.txt: connection refused", unreachable.message());
    assert_eq!("cut short", Error::Unreadable("cut short".to_owned()).message());
    assert_eq!(
        "the tree refused the task, answering 422",
        Error::Refused { code: 422 }.message()
    );
}
