//! What the commands send and what they report, apart from the requests,
//! the picking and the printing themselves.
use vstd::prelude::*;
use crate::render::{
    lemma_concat_contains, lemma_single_contains, lemma_spellings_distinct, pairs_view, Position,
};
use crate::text::{decimal, decimal_string, held, push_str};
use crate::timezone::Timezone;

verus! {

/// What is said when the text handed over holds no tree id.
pub const NO_TREE_ID: &'static str =
    "no tree id in that \u{2014} a tree id looks like 2e4e6863-9bfe-4c37-b64f-aa6da5ba51eb";

/// The render that names every task, which is the one a task can be picked out of.
pub fn naming_tasks() -> (query: Vec<(String, String)>)
    ensures
        pairs_view(query@) == seq![("plaintext[ids]"@, "on"@), ("plaintext[context]"@, "off"@)],
{
    let query = vec![
        ("plaintext[ids]".to_owned(), "on".to_owned()),
        ("plaintext[context]".to_owned(), "off".to_owned()),
    ];
    assert(pairs_view(query@) == seq![("plaintext[ids]"@, "on"@), ("plaintext[context]"@, "off"@)]);
    query
}

/// The form fields that create a task.
pub open spec fn new_task_spec(
    text: Seq<char>,
    notes: Option<Seq<char>>,
    under: Option<Seq<char>>,
    category: bool,
    position: Option<Position>,
) -> Seq<(Seq<char>, Seq<char>)> {
    seq![("mode"@, "one"@), ("l"@, text)] + match notes {
        Some(n) => seq![("c"@, n)],
        None => Seq::empty(),
    } + match under {
        Some(u) => seq![("n"@, u)],
        None => Seq::empty(),
    } + if category {
        seq![("category"@, "1"@)]
    } else {
        Seq::empty()
    } + match position {
        Some(p) => seq![("p"@, p.spelling_spec())],
        None => Seq::empty(),
    }
}

/// The form begins with the mode and the task's text, and holds each other
/// field exactly when it is given, whatever the others are: the notes, the
/// parent, the category flag, and the position by its own spelling.
pub proof fn lemma_new_task_fields(
    text: Seq<char>,
    notes: Option<Seq<char>>,
    under: Option<Seq<char>>,
    category: bool,
    position: Option<Position>,
)
    ensures
        new_task_spec(text, notes, under, category, position)[0] == ("mode"@, "one"@),
        new_task_spec(text, notes, under, category, position)[1] == ("l"@, text),
        forall|v: Seq<char>|
            #![trigger new_task_spec(text, notes, under, category, position).contains(("c"@, v))]
            new_task_spec(text, notes, under, category, position).contains(("c"@, v)) <==> notes
                == Some(v),
        forall|v: Seq<char>|
            #![trigger new_task_spec(text, notes, under, category, position).contains(("n"@, v))]
            new_task_spec(text, notes, under, category, position).contains(("n"@, v)) <==> under
                == Some(v),
        new_task_spec(text, notes, under, category, position).contains(("category"@, "1"@))
            == category,
        forall|v: Seq<char>|
            #![trigger new_task_spec(text, notes, under, category, position).contains(("p"@, v))]
            new_task_spec(text, notes, under, category, position).contains(("p"@, v)) <==> (
            position matches Some(p) && p.spelling_spec() == v),
        position == Some(Position::Top) ==> new_task_spec(
            text,
            notes,
            under,
            category,
            position,
        ).contains(("p"@, "top"@)),
        position == Some(Position::Bottom) ==> new_task_spec(
            text,
            notes,
            under,
            category,
            position,
        ).contains(("p"@, "bottom"@)),
{
    reveal_strlit("mode");
    reveal_strlit("l");
    reveal_strlit("c");
    reveal_strlit("n");
    reveal_strlit("category");
    reveal_strlit("p");
    assert("mode"@.len() == 4);
    assert("l"@.len() == 1);
    assert("c"@.len() == 1);
    assert("n"@.len() == 1);
    assert("category"@.len() == 8);
    assert("p"@.len() == 1);
    assert("l"@[0] != "c"@[0] && "l"@[0] != "n"@[0] && "l"@[0] != "p"@[0]);
    assert("c"@[0] != "n"@[0] && "c"@[0] != "p"@[0] && "n"@[0] != "p"@[0]);
    assert("l"@ != "c"@ && "l"@ != "n"@ && "l"@ != "p"@);
    assert("c"@ != "n"@ && "c"@ != "p"@ && "n"@ != "p"@);
    assert("mode"@ != "c"@ && "mode"@ != "n"@ && "mode"@ != "p"@ && "mode"@ != "category"@);
    assert("category"@ != "c"@ && "category"@ != "n"@ && "category"@ != "p"@);
    let a: Seq<(Seq<char>, Seq<char>)> = seq![("mode"@, "one"@), ("l"@, text)];
    let nb: Option<(Seq<char>, Seq<char>)> = match notes {
        Some(n) => Some(("c"@, n)),
        None => None,
    };
    let ub: Option<(Seq<char>, Seq<char>)> = match under {
        Some(u) => Some(("n"@, u)),
        None => None,
    };
    let cb: Option<(Seq<char>, Seq<char>)> = if category {
        Some(("category"@, "1"@))
    } else {
        None
    };
    let pb: Option<(Seq<char>, Seq<char>)> = match position {
        Some(p) => Some(("p"@, p.spelling_spec())),
        None => None,
    };
    let b: Seq<(Seq<char>, Seq<char>)> = match nb {
        Some(q) => seq![q],
        None => Seq::empty(),
    };
    let c: Seq<(Seq<char>, Seq<char>)> = match ub {
        Some(q) => seq![q],
        None => Seq::empty(),
    };
    let d: Seq<(Seq<char>, Seq<char>)> = match cb {
        Some(q) => seq![q],
        None => Seq::empty(),
    };
    let e: Seq<(Seq<char>, Seq<char>)> = match pb {
        Some(q) => seq![q],
        None => Seq::empty(),
    };
    let all = new_task_spec(text, notes, under, category, position);
    assert(all == a + b + c + d + e);
    assert forall|x: (Seq<char>, Seq<char>)| #[trigger] all.contains(x) <==> (x == (
        "mode"@,
        "one"@,
    ) || x == ("l"@, text) || nb == Some(x) || ub == Some(x) || cb == Some(x) || pb == Some(
        x,
    )) by {
        lemma_concat_contains(a, b, x);
        lemma_concat_contains(a + b, c, x);
        lemma_concat_contains(a + b + c, d, x);
        lemma_concat_contains(a + b + c + d, e, x);
        lemma_single_contains(nb, x);
        lemma_single_contains(ub, x);
        lemma_single_contains(cb, x);
        lemma_single_contains(pb, x);
        if a.contains(x) {
            let i = choose|i: int| 0 <= i < a.len() && a[i] == x;
            assert(i == 0 || i == 1);
        }
        if x == ("mode"@, "one"@) {
            assert(a[0] == x);
        }
        if x == ("l"@, text) {
            assert(a[1] == x);
        }
    }
    assert(all.contains(("category"@, "1"@)) == category);
    assert(position == Some(Position::Top) ==> all.contains(("p"@, "top"@)));
    assert(position == Some(Position::Bottom) ==> all.contains(("p"@, "bottom"@)));
}

/// Two forms that differ in their position alone are different forms.
pub proof fn lemma_new_task_positions(
    text: Seq<char>,
    notes: Option<Seq<char>>,
    under: Option<Seq<char>>,
    category: bool,
    a: Position,
    b: Position,
)
    requires
        a != b,
    ensures
        new_task_spec(text, notes, under, category, Some(a)) != new_task_spec(
            text,
            notes,
            under,
            category,
            Some(b),
        ),
{
    lemma_spellings_distinct();
    lemma_new_task_fields(text, notes, under, category, Some(a));
    lemma_new_task_fields(text, notes, under, category, Some(b));
    assert(new_task_spec(text, notes, under, category, Some(a)).contains(("p"@, a.spelling_spec())));
    assert(!new_task_spec(text, notes, under, category, Some(b)).contains(("p"@, a.spelling_spec())));
}

/// The form fields that create a task: its text, and its notes, parent,
/// kind and position when given.
pub fn new_task_fields(
    text: &str,
    notes: Option<String>,
    under: Option<String>,
    category: bool,
    position: Option<Position>,
) -> (fields: Vec<(String, String)>)
    ensures
        pairs_view(fields@) == new_task_spec(
            text@,
            held(notes),
            held(under),
            category,
            position,
        ),
        forall|v: Seq<char>|
            #![trigger pairs_view(fields@).contains(("p"@, v))]
            pairs_view(fields@).contains(("p"@, v)) <==> (position matches Some(p)
                && p.spelling_spec() == v),
{
    proof {
        lemma_new_task_fields(text@, held(notes), held(under), category, position);
    }
    let mut fields = vec![("mode".to_owned(), "one".to_owned()), ("l".to_owned(), text.to_owned())];
    let ghost mut expected = seq![("mode"@, "one"@), ("l"@, text@)];
    assert(pairs_view(fields@) == expected);
    match notes {
        Some(n) => {
            let ghost nv = n@;
            fields.push(("c".to_owned(), n));
            proof { expected = expected.push(("c"@, nv)); }
        },
        None => {},
    }
    assert(pairs_view(fields@) == expected);
    match under {
        Some(u) => {
            let ghost uv = u@;
            fields.push(("n".to_owned(), u));
            proof { expected = expected.push(("n"@, uv)); }
        },
        None => {},
    }
    assert(pairs_view(fields@) == expected);
    if category {
        fields.push(("category".to_owned(), "1".to_owned()));
        proof { expected = expected.push(("category"@, "1"@)); }
    }
    assert(pairs_view(fields@) == expected);
    match position {
        Some(p) => {
            fields.push(("p".to_owned(), p.spelling()));
            proof { expected = expected.push(("p"@, p.spelling_spec())); }
        },
        None => {},
    }
    assert(pairs_view(fields@) == expected);
    fields
}

/// What is said once a task is added.
pub fn added_message(text: &str) -> (message: String)
    ensures
        message@ == "added \""@ + text@ + "\""@,
{
    let mut message = String::new();
    push_str(&mut message, "added \"");
    push_str(&mut message, text);
    push_str(&mut message, "\"");
    message
}

/// What is said once a task is deleted, and its subtree with it when purged.
pub fn deleted_message(text: &str, purge: bool) -> (message: String)
    ensures
        message@ == "deleted \""@ + text@ + "\""@ + (if purge {
            " and everything under it"@
        } else {
            ""@
        }),
{
    let mut message = String::new();
    push_str(&mut message, "deleted \"");
    push_str(&mut message, text);
    push_str(&mut message, "\"");
    if purge {
        push_str(&mut message, " and everything under it");
    } else {
        proof { reveal_strlit(""); }
        assert(message@ + ""@ == message@);
    }
    message
}

/// The timezone's name, and where it was found when that is asked for.
pub fn timezone_line(timezone: &Timezone, with_source: bool) -> (line: String)
    ensures
        line@ == timezone@.0 + (if with_source {
            " (from "@ + timezone@.1.label_spec() + ")"@
        } else {
            ""@
        }),
{
    let mut line = String::new();
    push_str(&mut line, timezone.name());
    if with_source {
        push_str(&mut line, " (from ");
        push_str(&mut line, timezone.source().label());
        push_str(&mut line, ")");
    } else {
        proof { reveal_strlit(""); }
        assert(line@ + ""@ == line@);
    }
    line
}

/// What is said of the ids handed over that were kept already.
pub fn already_kept_message(known: usize) -> (message: String)
    ensures
        message@ == decimal(known as nat) + " already kept"@,
{
    let mut message = decimal_string(known as u64);
    push_str(&mut message, " already kept");
    message
}

/// What keeping the ids found in a text says before anything is kept: that
/// the text held no tree id, when it held none.
pub fn nothing_to_keep(found: &[u128]) -> (report: Option<String>)
    ensures
        report is Some <==> found@.len() == 0,
        report matches Some(m) ==> m@ == NO_TREE_ID@,
{
    if found.len() == 0 {
        Some(NO_TREE_ID.to_owned())
    } else {
        None
    }
}

/// What keeping `found` ids, of which `added` were new, says of the rest:
/// how many were kept already, when any were.
pub fn already_kept(found: usize, added: usize) -> (report: Option<String>)
    requires
        added <= found,
    ensures
        report is Some <==> added < found,
        report matches Some(m) ==> m@ == decimal((found - added) as nat) + " already kept"@,
{
    let known = found - added;
    if known > 0 {
        Some(already_kept_message(known))
    } else {
        None
    }
}

} // verus!
