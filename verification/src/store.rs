//! The tree ids kept on this machine: one per line, hyphenated, in a file in
//! the directory the platform sets aside for this program's configuration.
//! What the file holds and what a read makes of it is decided here; the
//! reading and writing of the file itself is the program's.
use vstd::prelude::*;
use vstd::utf8::encode_utf8;
use std::path::PathBuf;
use crate::id::{
    ascii_uuid, holds, hyphenate, hyphenated, lemma_hyphenated_plain, lemma_hyphenated_reads_back,
    parse_id,
};
use crate::text::{
    back_over_spaces, chars_of, drop_cr, first_newline, lemma_first_newline_at,
    lemma_first_newline_bounds, lemma_lines_step, line_bounds, lines, push_str, skip_spaces,
    string_of, trim, trim_end, trim_start,
};

verus! {

#[verifier::external_type_specification]
#[verifier::external_body]
pub struct ExPathBuf(PathBuf);

/// The name the platform's configuration directory for this program goes by.
pub const APPLICATION: &'static str = "jatabag";

/// The name of the file in that directory that keeps the ids.
pub const FILE_NAME: &'static str = "trees.txt";

/// Where the kept tree ids live.
pub struct Store {
    path: PathBuf,
}

impl Store {
    /// The file the store keeps its ids in.
    pub closed spec fn file(&self) -> PathBuf {
        self.path
    }

    /// The store kept in the file at `path`.
    pub fn at(path: PathBuf) -> (store: Store)
        ensures
            store.file() == path,
    {
        Store { path }
    }

    /// The file the store keeps its ids in.
    pub fn path(&self) -> (path: &PathBuf)
        ensures
            *path == self.file(),
    {
        &self.path
    }
}

/// The id a kept line names: the line, trimmed, read as an id.
pub open spec fn line_id(line: Seq<char>) -> Option<u128> {
    ascii_uuid(encode_utf8(trim(line)))
}

/// The ids named by `ls`, in order, stepping over the lines that name none.
pub open spec fn ids_in(ls: Seq<Seq<char>>) -> Seq<u128>
    decreases ls.len(),
{
    if ls.len() == 0 {
        Seq::empty()
    } else {
        match line_id(ls.last()) {
            Some(id) => ids_in(ls.drop_last()).push(id),
            None => ids_in(ls.drop_last()),
        }
    }
}

/// What a read of the file makes of its contents.
pub open spec fn read_back(contents: Seq<char>) -> Seq<u128> {
    ids_in(lines(contents))
}

/// What the file holds when it keeps `ids`: each hyphenated, on a line of its own.
pub open spec fn rendered(ids: Seq<u128>) -> Seq<char>
    decreases ids.len(),
{
    if ids.len() == 0 {
        Seq::empty()
    } else {
        rendered(ids.drop_last()) + hyphenated(ids.last()) + seq!['\n']
    }
}

/// The ids of `ids` that `kept` (growing as they are taken) does not yet
/// hold, in order.
pub open spec fn fresh(kept: Seq<u128>, ids: Seq<u128>) -> Seq<u128>
    decreases ids.len(),
{
    if ids.len() == 0 {
        Seq::empty()
    } else if kept.contains(ids[0]) {
        fresh(kept, ids.drop_first())
    } else {
        seq![ids[0]] + fresh(kept.push(ids[0]), ids.drop_first())
    }
}

/// Whether no value stands twice in `s`.
pub open spec fn distinct(s: Seq<u128>) -> bool {
    forall|i: int, j: int| 0 <= i < j < s.len() ==> s[i] != s[j]
}

/// The ids that a store's contents name, in the order they are kept, stepping
/// over any line that is not an id.
pub fn parse(contents: &str) -> (ids: Vec<u128>)
    ensures
        ids@ == read_back(contents@),
{
    let v = chars_of(contents);
    let bounds = line_bounds(&v);
    let ghost ls = lines(v@);
    let mut ids: Vec<u128> = Vec::new();
    let mut k: usize = 0;
    while k < bounds.len()
        invariant
            k <= bounds@.len() == ls.len(),
            ls == lines(v@),
            forall|m: int|
                #![trigger bounds@[m]]
                0 <= m < bounds@.len() ==> bounds@[m].0 <= bounds@[m].1 <= v@.len()
                    && v@.subrange(bounds@[m].0 as int, bounds@[m].1 as int) == ls[m],
            ids@ == ids_in(ls.take(k as int)),
        decreases bounds.len() - k,
    {
        let (lo, hi) = bounds[k];
        let i = skip_spaces(&v, lo, hi);
        let j = back_over_spaces(&v, i, hi);
        let line = string_of(&v, i, j);
        assert(line@ == trim(ls[k as int]));
        assert(ls.take(k + 1).drop_last() == ls.take(k as int));
        assert(ls.take(k + 1).last() == ls[k as int]);
        match parse_id(line.as_str().as_bytes()) {
            Some(id) => ids.push(id),
            None => {},
        }
        k += 1;
    }
    assert(ls.take(bounds.len() as int) == ls);
    ids
}

/// Lines of text that ends in a line feed, followed by more text, are the
/// lines of each.
pub proof fn lemma_lines_concat(a: Seq<char>, b: Seq<char>)
    requires
        a.len() == 0 || a.last() == '\n',
    ensures
        lines(a + b) == lines(a) + lines(b),
    decreases a.len(),
{
    if a.len() == 0 {
        assert(a + b == b);
    } else {
        lemma_first_newline_bounds(a);
        let k = first_newline(a) as int;
        assert(k < a.len()) by {
            if k == a.len() {
                assert(a[a.len() - 1] != '\n');
            }
        }
        let ab = a + b;
        assert forall|j: int| 0 <= j < k implies ab[j] != '\n' by {
            assert(ab[j] == a[j]);
        }
        assert(ab[k] == a[k]);
        lemma_lines_step(ab, k);
        lemma_lines_step(a, k);
        assert(ab.take(k) == a.take(k));
        let rest = a.skip(k + 1);
        assert(ab.skip(k + 1) == rest + b);
        if rest.len() > 0 {
            assert(rest.last() == a.last());
        }
        lemma_lines_concat(rest, b);
        assert(lines(a + b) == seq![drop_cr(a.take(k))] + (lines(rest) + lines(b)));
    }
}

/// A kept line is the hyphenated id and nothing else.
proof fn lemma_one_line(id: u128)
    ensures
        lines(hyphenated(id) + seq!['\n']) == seq![hyphenated(id)],
        trim(hyphenated(id)) == hyphenated(id),
{
    let h = hyphenated(id);
    lemma_hyphenated_plain(id);
    let t = h + seq!['\n'];
    assert forall|j: int| 0 <= j < 36 implies t[j] != '\n' by {
        assert(t[j] == h[j]);
    }
    lemma_lines_step(t, 36);
    assert(t.take(36) == h);
    assert(h.last() == h[35]);
    assert(drop_cr(h) == h);
    assert(t.skip(37).len() == 0);
    assert(trim_start(h) == h);
    assert(trim_end(h) == h);
}

/// What is read back of the rendered `ids` is `ids`.
pub proof fn lemma_read_back(ids: Seq<u128>)
    ensures
        read_back(rendered(ids)) == ids,
    decreases ids.len(),
{
    if ids.len() > 0 {
        let init = ids.drop_last();
        let last = ids.last();
        lemma_read_back(init);
        lemma_hyphenated_reads_back(last);
        let front = rendered(init);
        if front.len() > 0 {
            assert(front.last() == '\n');
        }
        assert(rendered(ids) == front + (hyphenated(last) + seq!['\n']));
        lemma_lines_concat(front, hyphenated(last) + seq!['\n']);
        lemma_one_line(last);
        let ls = lines(rendered(ids));
        assert(ls == lines(front).push(hyphenated(last)));
        assert(ls.drop_last() == lines(front));
        assert(ls.last() == hyphenated(last));
        assert(ids == init.push(last));
    }
}

/// The contents of a store that keeps `ids`: each hyphenated, on a line of
/// its own. A read of these contents gives back `ids`.
pub fn render(ids: &[u128]) -> (contents: String)
    ensures
        contents@ == rendered(ids@),
        read_back(contents@) == ids@,
{
    let mut contents = String::new();
    let mut i: usize = 0;
    while i < ids.len()
        invariant
            i <= ids@.len(),
            contents@ == rendered(ids@.take(i as int)),
        decreases ids.len() - i,
    {
        let line = hyphenate(ids[i]);
        push_str(&mut contents, line.as_str());
        push_str(&mut contents, "\n");
        proof {
            reveal_strlit("\n");
            let t = ids@.take(i + 1);
            assert(t.drop_last() == ids@.take(i as int));
            assert(t.last() == ids@[i as int]);
        }
        i += 1;
    }
    assert(ids@.take(ids@.len() as int) == ids@);
    proof {
        lemma_read_back(ids@);
    }
    contents
}

/// Keeps `ids` in `kept`, and answers with the ones it did not hold already,
/// in the order they come, each once.
pub fn absorb(kept: &mut Vec<u128>, ids: &[u128]) -> (added: Vec<u128>)
    ensures
        added@ == fresh(old(kept)@, ids@),
        final(kept)@ == old(kept)@ + added@,
{
    let ghost start = kept@;
    let mut added: Vec<u128> = Vec::new();
    let mut i: usize = 0;
    assert(ids@.skip(0) == ids@);
    while i < ids.len()
        invariant
            i <= ids@.len(),
            kept@ == start + added@,
            added@ + fresh(kept@, ids@.skip(i as int)) == fresh(start, ids@),
        decreases ids.len() - i,
    {
        let id = ids[i];
        let ghost rest = ids@.skip(i as int);
        assert(rest[0] == id);
        assert(rest.drop_first() == ids@.skip(i + 1));
        if !holds(kept, id) {
            let ghost before = added@;
            kept.push(id);
            added.push(id);
            assert(added@ == before + seq![id]);
            assert(before + (seq![id] + fresh(kept@, ids@.skip(i + 1))) == added@ + fresh(
                kept@,
                ids@.skip(i + 1),
            ));
        }
        i += 1;
    }
    assert(ids@.skip(i as int).len() == 0);
    assert(added@ + fresh(kept@, ids@.skip(i as int)) == added@);
    added
}

/// Keeping `ids` in a store whose file holds `contents`: the ids it did not
/// hold already, in the order they come, each once, and no more of them than
/// were handed over; and, when there are any, what the file is to hold
/// afterwards: the ids kept before followed by them, one hyphenated id to a
/// line, which reads back as just that.
pub fn keep(contents: &str, ids: &[u128]) -> (r: (Vec<u128>, Option<String>))
    ensures
        r.0@ == fresh(read_back(contents@), ids@),
        r.0@.len() <= ids@.len(),
        r.0@.len() == 0 <==> r.1 is None,
        r.1 matches Some(after) ==> after@ == rendered(read_back(contents@) + r.0@),
        r.1 matches Some(after) ==> read_back(after@) == read_back(contents@) + r.0@,
{
    let mut kept = parse(contents);
    let added = absorb(&mut kept, ids);
    proof {
        lemma_fresh(read_back(contents@), ids@);
    }
    if added.len() == 0 {
        (added, None)
    } else {
        let after = render(kept.as_slice());
        (added, Some(after))
    }
}

/// What keeping `ids` answers with: ids of `ids` only, none held before, each
/// once, and so no more of them than were handed over; and afterwards every
/// id of `ids` is held.
pub proof fn lemma_fresh(kept: Seq<u128>, ids: Seq<u128>)
    ensures
        fresh(kept, ids).len() <= ids.len(),
        forall|i: int|
            0 <= i < fresh(kept, ids).len() ==> !kept.contains(#[trigger] fresh(kept, ids)[i])
                && ids.contains(fresh(kept, ids)[i]),
        distinct(fresh(kept, ids)),
        forall|x: u128| ids.contains(x) ==> #[trigger] (kept + fresh(kept, ids)).contains(x),
    decreases ids.len(),
{
    if ids.len() > 0 {
        let x0 = ids[0];
        let rest = ids.drop_first();
        assert forall|x: u128| rest.contains(x) implies ids.contains(x) by {
            let j = choose|j: int| 0 <= j < rest.len() && rest[j] == x;
            assert(ids[j + 1] == x);
        }
        assert(ids.contains(x0));
        if kept.contains(x0) {
            lemma_fresh(kept, rest);
            assert forall|x: u128| ids.contains(x) implies #[trigger] (kept + fresh(
                kept,
                ids,
            )).contains(x) by {
                let j = choose|j: int| 0 <= j < ids.len() && ids[j] == x;
                if j == 0 {
                    let m = choose|m: int| 0 <= m < kept.len() && kept[m] == x;
                    assert((kept + fresh(kept, ids))[m] == x);
                } else {
                    assert(rest[j - 1] == x);
                }
            }
        } else {
            let k2 = kept.push(x0);
            let f2 = fresh(k2, rest);
            lemma_fresh(k2, rest);
            let f = fresh(kept, ids);
            assert(f == seq![x0] + f2);
            assert(kept + f == k2 + f2);
            assert forall|i: int| 0 <= i < f.len() implies !kept.contains(#[trigger] f[i])
                && ids.contains(f[i]) by {
                if i > 0 {
                    assert(f[i] == f2[i - 1]);
                    if kept.contains(f[i]) {
                        let m = choose|m: int| 0 <= m < kept.len() && kept[m] == f[i];
                        assert(k2[m] == f[i]);
                    }
                }
            }
            assert forall|i: int, j: int| 0 <= i < j < f.len() implies f[i] != f[j] by {
                assert(f[j] == f2[j - 1]);
                if i == 0 {
                    assert(k2[kept.len() as int] == x0);
                } else {
                    assert(f[i] == f2[i - 1]);
                }
            }
            assert forall|x: u128| ids.contains(x) implies #[trigger] (kept + f).contains(x) by {
                let j = choose|j: int| 0 <= j < ids.len() && ids[j] == x;
                if j == 0 {
                    assert((kept + f)[kept.len() as int] == x);
                } else {
                    assert(rest[j - 1] == x);
                }
            }
        }
    }
}

/// Keeping ids that are all held already adds none.
pub proof fn lemma_fresh_of_held(kept: Seq<u128>, ids: Seq<u128>)
    requires
        forall|x: u128| ids.contains(x) ==> kept.contains(x),
    ensures
        fresh(kept, ids) == Seq::<u128>::empty(),
    decreases ids.len(),
{
    if ids.len() > 0 {
        let rest = ids.drop_first();
        assert(ids.contains(ids[0]));
        assert forall|x: u128| rest.contains(x) implies kept.contains(x) by {
            let j = choose|j: int| 0 <= j < rest.len() && rest[j] == x;
            assert(ids[j + 1] == x);
        }
        lemma_fresh_of_held(kept, rest);
    }
}

/// Keeping the same ids a second time keeps nothing more and answers with none.
pub proof fn lemma_keep_twice(kept: Seq<u128>, ids: Seq<u128>)
    ensures
        fresh(kept + fresh(kept, ids), ids) == Seq::<u128>::empty(),
{
    lemma_fresh(kept, ids);
    lemma_fresh_of_held(kept + fresh(kept, ids), ids);
}

/// A store that holds each id once still holds each id once after keeping more.
pub proof fn lemma_keep_distinct(kept: Seq<u128>, ids: Seq<u128>)
    requires
        distinct(kept),
    ensures
        distinct(kept + fresh(kept, ids)),
{
    lemma_fresh(kept, ids);
    let f = fresh(kept, ids);
    let all = kept + f;
    assert forall|i: int, j: int| 0 <= i < j < all.len() implies all[i] != all[j] by {
        if j >= kept.len() {
            assert(all[j] == f[j - kept.len()]);
            if i < kept.len() {
                assert(kept[i] == all[i]);
                assert(!kept.contains(f[j - kept.len()]));
            } else {
                assert(all[i] == f[i - kept.len()]);
            }
        }
    }
}

} // verus!
