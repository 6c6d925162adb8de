//! The server's side of things: where the trees live, the addresses of a
//! tree's render and of its tasks, and what its answers mean. The requests
//! themselves are the program's to make.
use vstd::prelude::*;
use crate::id::{hyphenate, hyphenated};
use crate::text::{
    back_over_char, chars_of, decimal, decimal_string, push_str, strip_end, string_of, trim,
    trimmed_bounds,
};

verus! {

/// Where the trees live when nothing says otherwise.
pub const DEFAULT_BASE: &'static str = "https://jatabag.com";

pub enum Error {
    /// The request went unanswered.
    Unreachable { url: String, cause: String },
    /// The server holds no such tree.
    Missing { tree: u128, base: String },
    /// The server answered with an error status.
    Status { code: u16, tree: u128 },
    /// The answer's body could not be read.
    Unreadable(String),
    /// The server answered a change with something other than success.
    Refused { code: u16 },
}

/// The base address chosen: the flag when given, otherwise the environment's;
/// the default when that is missing or blank; trimmed, and without trailing
/// slashes.
pub open spec fn chosen_base(flag: Option<Seq<char>>, env: Option<Seq<char>>) -> Seq<char> {
    let given = match flag {
        Some(f) => Some(f),
        None => env,
    };
    let chosen = match given {
        Some(url) if trim(url).len() > 0 => url,
        _ => "https://jatabag.com"@,
    };
    strip_end(trim(chosen), '/')
}

/// The base address of the server, from `--url` when given, else from
/// `JATABAG_URL` (as `env`), else the default.
pub fn base(flag: Option<&str>, env: Option<&str>) -> (url: String)
    ensures
        url@ == chosen_base(
            match flag {
                Some(f) => Some(f@),
                None => None,
            },
            match env {
                Some(e) => Some(e@),
                None => None,
            },
        ),
{
    let given = match flag {
        Some(f) => Some(f),
        None => env,
    };
    let mut chosen = DEFAULT_BASE;
    match given {
        Some(url) => {
            let v = chars_of(url);
            let (lo, hi) = trimmed_bounds(&v);
            if lo < hi {
                chosen = url;
            }
        },
        None => {},
    }
    proof {
        reveal_strlit("https://jatabag.com");
    }
    let v = chars_of(chosen);
    let (lo, hi) = trimmed_bounds(&v);
    let end = back_over_char(&v, lo, hi, '/');
    string_of(&v, lo, end)
}

/// The address of a tree's plaintext render.
pub open spec fn text_url_spec(base: Seq<char>, tree: u128) -> Seq<char> {
    base + "/tree/"@ + hyphenated(tree) + ".txt"@
}

/// The address a tree's new tasks are posted to.
pub open spec fn task_url_spec(base: Seq<char>, tree: u128) -> Seq<char> {
    base + "/tree/"@ + hyphenated(tree) + "/task"@
}

/// The address of one of a tree's tasks.
pub open spec fn task_delete_url_spec(base: Seq<char>, tree: u128, task: u128) -> Seq<char> {
    base + "/tree/"@ + hyphenated(tree) + "/task/"@ + hyphenated(task)
}

/// The address of a tree's plaintext render.
pub fn text_url(base: &str, tree: u128) -> (url: String)
    ensures
        url@ == text_url_spec(base@, tree),
{
    let mut url = String::new();
    push_str(&mut url, base);
    push_str(&mut url, "/tree/");
    push_str(&mut url, hyphenate(tree).as_str());
    push_str(&mut url, ".txt");
    url
}

/// The address a tree's new tasks are posted to.
pub fn task_url(base: &str, tree: u128) -> (url: String)
    ensures
        url@ == task_url_spec(base@, tree),
{
    let mut url = String::new();
    push_str(&mut url, base);
    push_str(&mut url, "/tree/");
    push_str(&mut url, hyphenate(tree).as_str());
    push_str(&mut url, "/task");
    url
}

/// The address of one of a tree's tasks, which a deletion is sent to.
pub fn task_delete_url(base: &str, tree: u128, task: u128) -> (url: String)
    ensures
        url@ == task_delete_url_spec(base@, tree, task),
{
    let mut url = String::new();
    push_str(&mut url, base);
    push_str(&mut url, "/tree/");
    push_str(&mut url, hyphenate(tree).as_str());
    push_str(&mut url, "/task/");
    push_str(&mut url, hyphenate(task).as_str());
    url
}

/// The cookie that tells the server which timezone a change is made in.
pub fn timezone_cookie(timezone: &str) -> (cookie: String)
    ensures
        cookie@ == "tz="@ + timezone@,
{
    let mut cookie = String::new();
    push_str(&mut cookie, "tz=");
    push_str(&mut cookie, timezone);
    cookie
}

/// The form a deletion sends: whether the task's subtree goes with it.
pub fn delete_body(purge: bool) -> (body: &'static str)
    ensures
        body@ == (if purge { "c=1"@ } else { ""@ }),
{
    if purge {
        "c=1"
    } else {
        ""
    }
}

/// What a change's answer means: any status from 200 to 303 is success, and
/// every other one a refusal.
pub fn answered(code: u16) -> (r: Result<(), Error>)
    ensures
        200 <= code <= 303 <==> r is Ok,
        !(200 <= code <= 303) ==> (r matches Err(Error::Refused { code: c }) && c == code),
{
    if 200 <= code && code <= 303 {
        Ok(())
    } else {
        Err(Error::Refused { code })
    }
}

/// What an error status from the server means for `tree`: 404, that the
/// server at `base` holds no such tree; anything else, the status itself.
pub fn rejected(code: u16, tree: u128, base: &str) -> (e: Error)
    ensures
        code == 404 ==> (e matches Error::Missing { tree: t, base: b } && t == tree && b@ == base@),
        code != 404 ==> (e matches Error::Status { code: c, tree: t } && c == code && t == tree),
{
    if code == 404 {
        Error::Missing { tree, base: base.to_owned() }
    } else {
        Error::Status { code, tree }
    }
}

impl Error {
    /// What the error tells the user.
    pub open spec fn message_spec(&self) -> Seq<char> {
        match self {
            Error::Unreachable { url, cause } => url@ + ": "@ + cause@,
            Error::Missing { tree, base } => base@ + " has no tree "@ + hyphenated(*tree)
                + " \u{2014} it may have been deleted, or the trees may live somewhere else (set JATABAG_URL or pass --url)"@,
            Error::Status { code, tree } => hyphenated(*tree) + " answered "@ + decimal(
                *code as nat,
            ),
            Error::Unreadable(cause) => cause@,
            Error::Refused { code } => "the tree refused the task, answering "@ + decimal(
                *code as nat,
            ),
        }
    }

    /// What the error tells the user.
    pub fn message(&self) -> (message: String)
        ensures
            message@ == self.message_spec(),
    {
        let mut message = String::new();
        match self {
            Error::Unreachable { url, cause } => {
                push_str(&mut message, url.as_str());
                push_str(&mut message, ": ");
                push_str(&mut message, cause.as_str());
            },
            Error::Missing { tree, base } => {
                push_str(&mut message, base.as_str());
                push_str(&mut message, " has no tree ");
                push_str(&mut message, hyphenate(*tree).as_str());
                push_str(
                    &mut message,
                    " \u{2014} it may have been deleted, or the trees may live somewhere else (set JATABAG_URL or pass --url)",
                );
            },
            Error::Status { code, tree } => {
                push_str(&mut message, hyphenate(*tree).as_str());
                push_str(&mut message, " answered ");
                push_str(&mut message, decimal_string(*code as u64).as_str());
            },
            Error::Unreadable(cause) => {
                push_str(&mut message, cause.as_str());
            },
            Error::Refused { code } => {
                push_str(&mut message, "the tree refused the task, answering ");
                push_str(&mut message, decimal_string(*code as u64).as_str());
            },
        }
        message
    }
}

} // verus!
