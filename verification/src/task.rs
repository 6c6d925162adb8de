//! Tasks as a tree's plaintext render draws them: one per line, each line
//! ending in a marker, a caret and the task's hyphenated id.
use vstd::prelude::*;
use vstd::string::StrSliceExecFns;
use vstd::utf8::{encode_utf8, is_ascii_chars, is_ascii_chars_encode_utf8};
use crate::id::{
    hyphenated, hyphenated_value, lemma_hyphenated_plain, lemma_hyphenated_reads_back, parse_id,
};
use crate::text::{
    back_over_spaces, chars_of, drop_cr, first_newline, lemma_first_newline_bounds,
    lemma_lines_last, lemma_lines_step, line_bounds, lines, skip_char, skip_spaces, strip_start,
    string_of, trim_end, trim_start,
};

verus! {

/// The caret that opens a marker.
pub const CARET: char = '^';

/// How many characters a marker takes: the caret and a hyphenated id.
pub const MARKER: usize = 37;

#[derive(Clone)]
pub struct Task {
    pub id: u128,
    line: String,
}

impl View for Task {
    /// The task's id and the line it was drawn on, without its marker.
    type V = (u128, Seq<char>);

    closed spec fn view(&self) -> (u128, Seq<char>) {
        (self.id, self.line@)
    }
}

/// The id a line's marker names: `t` must end in a caret followed by 36 ASCII
/// characters that spell an id in the hyphenated form.
pub open spec fn marker_id(t: Seq<char>) -> Option<u128> {
    if t.len() >= 37 && t[t.len() - 37] == '^' && is_ascii_chars(
        t.subrange(t.len() - 36, t.len() as int),
    ) {
        hyphenated_value(encode_utf8(t.subrange(t.len() - 36, t.len() as int)))
    } else {
        None
    }
}

/// The task a line draws, if it ends (trailing whitespace aside) in a marker:
/// its id, and the line before the marker without trailing whitespace.
pub open spec fn marked(line: Seq<char>) -> Option<(u128, Seq<char>)> {
    let t = trim_end(line);
    match marker_id(t) {
        Some(id) => Some((id, trim_end(t.take(t.len() - 37)))),
        None => None,
    }
}

/// The tasks drawn by `ls`, in order, passing over the lines without a marker.
pub open spec fn marked_all(ls: Seq<Seq<char>>) -> Seq<(u128, Seq<char>)>
    decreases ls.len(),
{
    if ls.len() == 0 {
        Seq::empty()
    } else {
        match marked(ls.last()) {
            Some(task) => marked_all(ls.drop_last()).push(task),
            None => marked_all(ls.drop_last()),
        }
    }
}

/// A task's text: its line without indent, and without the `- ` that marks a
/// task or the run of `#` (and the space after it) that marks a category.
pub open spec fn task_text(line: Seq<char>) -> Seq<char> {
    let bare = trim_start(line);
    if bare.len() >= 2 && bare[0] == '-' && bare[1] == ' ' {
        bare.skip(2)
    } else {
        let heading = strip_start(bare, '#');
        if heading.len() < bare.len() {
            trim_start(heading)
        } else {
            bare
        }
    }
}

/// The views of `tasks`, in order.
pub open spec fn task_views(tasks: Seq<Task>) -> Seq<(u128, Seq<char>)> {
    tasks.map_values(|t: Task| t@)
}

impl Task {
    /// The id the task's marker names.
    pub fn id(&self) -> (id: u128)
        ensures
            id == self@.0,
    {
        self.id
    }

    /// The line the task was drawn on, without its marker.
    pub fn line(&self) -> (line: &str)
        ensures
            line@ == self@.1,
    {
        self.line.as_str()
    }

    /// What the task says: its line without indent and without the task or
    /// category marker it starts with.
    pub fn text(&self) -> (text: &str)
        ensures
            text@ == task_text(self@.1),
    {
        let line = self.line.as_str();
        let v = chars_of(line);
        let n = v.len();
        let i = skip_spaces(&v, 0, n);
        assert(v@.subrange(0, n as int) == v@);
        let ghost bare = v@.subrange(i as int, n as int);
        if n - i >= 2 && v[i] == '-' && v[i + 1] == ' ' {
            assert(bare.skip(2) == v@.subrange(i + 2, n as int));
            return line.substring_char(i + 2, n);
        }
        let h = skip_char(&v, i, n, '#');
        if h > i {
            let j = skip_spaces(&v, h, n);
            line.substring_char(j, n)
        } else {
            line.substring_char(i, n)
        }
    }
}

/// The task the line `v[lo..hi]` draws, if it ends in a marker.
fn marked_in(v: &Vec<char>, lo: usize, hi: usize) -> (task: Option<Task>)
    requires
        lo <= hi <= v.len(),
    ensures
        match task {
            Some(t) => marked(v@.subrange(lo as int, hi as int)) == Some(t@),
            None => marked(v@.subrange(lo as int, hi as int)) is None,
        },
{
    let e = back_over_spaces(v, lo, hi);
    let ghost t = v@.subrange(lo as int, e as int);
    if e - lo < MARKER {
        return None;
    }
    let caret = e - MARKER;
    assert(t[t.len() - 37] == v@[caret as int]);
    assert(t.subrange(t.len() - 36, t.len() as int) == v@.subrange(caret + 1, e as int));
    if v[caret] != CARET {
        return None;
    }
    let marker = string_of(v, caret + 1, e);
    if !marker.as_str().is_ascii() {
        return None;
    }
    proof {
        is_ascii_chars_encode_utf8(marker@);
    }
    match parse_id(marker.as_str().as_bytes()) {
        Some(id) => {
            let te = back_over_spaces(v, lo, caret);
            assert(t.take(t.len() - 37) == v@.subrange(lo as int, caret as int));
            Some(Task { id, line: string_of(v, lo, te) })
        },
        None => None,
    }
}

/// The tasks of a plaintext render, in the order they are drawn: each line
/// that ends in a marker is a task, and every other line is passed over.
pub fn from_plaintext(body: &str) -> (tasks: Vec<Task>)
    ensures
        task_views(tasks@) == marked_all(lines(body@)),
{
    let v = chars_of(body);
    let bounds = line_bounds(&v);
    let ghost ls = lines(v@);
    let mut tasks: Vec<Task> = Vec::new();
    let mut k: usize = 0;
    while k < bounds.len()
        invariant
            k <= bounds@.len() == ls.len(),
            ls == lines(v@),
            forall|m: int|
                #![trigger bounds@[m]]
                0 <= m < bounds@.len() ==> bounds@[m].0 <= bounds@[m].1 <= v@.len()
                    && v@.subrange(bounds@[m].0 as int, bounds@[m].1 as int) == ls[m],
            task_views(tasks@) == marked_all(ls.take(k as int)),
        decreases bounds.len() - k,
    {
        let (lo, hi) = bounds[k];
        assert(ls.take(k + 1).drop_last() == ls.take(k as int));
        assert(ls.take(k + 1).last() == ls[k as int]);
        match marked_in(&v, lo, hi) {
            Some(task) => {
                tasks.push(task);
                assert(task_views(tasks@) == marked_all(ls.take(k as int)).push(task@));
            },
            None => {},
        }
        k += 1;
    }
    assert(ls.take(bounds.len() as int) == ls);
    tasks
}

/// A line made of any text `t`, a space, a caret and an id's hyphenated form
/// draws the task with that id, on the line `t` without trailing whitespace:
/// whatever characters `t` holds, only the marker is read.
pub proof fn lemma_marked_line(t: Seq<char>, id: u128)
    ensures
        marked(t + seq![' ', '^'] + hyphenated(id)) == Some((id, trim_end(t))),
{
    let h = hyphenated(id);
    let l = t + seq![' ', '^'] + h;
    lemma_hyphenated_plain(id);
    lemma_hyphenated_reads_back(id);
    assert(is_ascii_chars(h));
    is_ascii_chars_encode_utf8(h);
    assert(l.len() == t.len() + 38);
    assert(l.last() == h[35]);
    assert(trim_end(l) == l);
    assert(l[l.len() - 37] == '^');
    assert(l.subrange(l.len() - 36, l.len() as int) == h);
    assert(encode_utf8(h).len() == 36);
    assert(marker_id(l) == Some(id));
    let before = t + seq![' '];
    assert(l.take(l.len() - 37) == before);
    assert(before.drop_last() == t);
    assert(trim_end(before) == trim_end(t));
}

/// A render of one line, any text without a line feed followed by a space, a
/// caret and an id's hyphenated form, draws exactly one task: that id, on that
/// text without trailing whitespace.
pub proof fn lemma_marked_line_alone(t: Seq<char>, id: u128)
    requires
        forall|j: int| 0 <= j < t.len() ==> t[j] != '\n',
    ensures
        marked_all(lines(t + seq![' ', '^'] + hyphenated(id))) == seq![(id, trim_end(t))],
{
    let l = t + seq![' ', '^'] + hyphenated(id);
    lemma_hyphenated_plain(id);
    assert forall|j: int| 0 <= j < l.len() implies l[j] != '\n' by {
        if j >= t.len() + 2 {
            assert(l[j] == hyphenated(id)[j - t.len() - 2]);
        }
    }
    lemma_lines_last(l);
    lemma_marked_line(t, id);
    let one = seq![l];
    assert(one.last() == l);
    assert(one.drop_last().len() == 0);
    assert(marked_all(one.drop_last()) == Seq::<(u128, Seq<char>)>::empty());
}

/// The tasks drawn by two runs of lines are those of each, in turn.
pub proof fn lemma_marked_all_concat(s: Seq<Seq<char>>, t: Seq<Seq<char>>)
    ensures
        marked_all(s + t) == marked_all(s) + marked_all(t),
    decreases t.len(),
{
    if t.len() == 0 {
        assert(s + t == s);
    } else {
        lemma_marked_all_concat(s, t.drop_last());
        assert((s + t).drop_last() == s + t.drop_last());
        assert((s + t).last() == t.last());
    }
}

/// A carriage return at the end of a line draws no different task.
proof fn lemma_marked_drop_cr(x: Seq<char>)
    ensures
        marked(drop_cr(x)) == marked(x),
{
    if x.len() > 0 && x.last() == '\r' {
        assert(trim_end(x) == trim_end(x.drop_last()));
    }
}

/// The tasks of a render joined from `a` and `b` at a line feed are the tasks
/// of `a` followed by the tasks of `b`.
pub proof fn lemma_tasks_of_joined(a: Seq<char>, b: Seq<char>)
    ensures
        marked_all(lines(a + seq!['\n'] + b)) == marked_all(lines(a)) + marked_all(lines(b)),
    decreases a.len(),
{
    let j = a + seq!['\n'] + b;
    lemma_first_newline_bounds(a);
    let k = first_newline(a) as int;
    if k == a.len() {
        assert forall|i: int| 0 <= i < k implies j[i] != '\n' by {
            assert(j[i] == a[i]);
        }
        lemma_lines_step(j, k);
        assert(j.take(k) == a);
        assert(j.skip(k + 1) == b);
        lemma_marked_all_concat(seq![drop_cr(a)], lines(b));
        lemma_marked_drop_cr(a);
        let one = seq![drop_cr(a)];
        assert(one.drop_last().len() == 0);
        assert(marked_all(one.drop_last()) == Seq::<(u128, Seq<char>)>::empty());
        if a.len() == 0 {
            assert(trim_end(a).len() == 0);
            assert(marked(a) is None);
            assert(marked_all(lines(a)) == Seq::<(u128, Seq<char>)>::empty());
        } else {
            lemma_lines_last(a);
            let only = seq![a];
            assert(only.drop_last().len() == 0);
            assert(marked_all(only.drop_last()) == Seq::<(u128, Seq<char>)>::empty());
        }
    } else {
        assert forall|i: int| 0 <= i < k implies j[i] != '\n' by {
            assert(j[i] == a[i]);
        }
        assert(j[k] == a[k]);
        lemma_lines_step(j, k);
        lemma_lines_step(a, k);
        let rest = a.skip(k + 1);
        assert(j.take(k) == a.take(k));
        assert(j.skip(k + 1) == rest + seq!['\n'] + b);
        lemma_tasks_of_joined(rest, b);
        let head = seq![drop_cr(a.take(k))];
        lemma_marked_all_concat(head, lines(rest + seq!['\n'] + b));
        lemma_marked_all_concat(head, lines(rest));
    }
}

} // verus!
