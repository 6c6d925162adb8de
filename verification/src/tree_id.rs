//! Tree ids in pasted text.
use vstd::prelude::*;
use vstd::slice::slice_subrange;
use vstd::string::StringSliceAdditionalSpecFns;
use crate::id::{holds, hyphenated_value, parse_id};

verus! {

/// How many bytes an id takes in its hyphenated form.
pub const HYPHENATED_LEN: usize = 36;

/// What a scan of `b` from byte `at` adds to `found`: where the 36 bytes at
/// `at` spell an id in the hyphenated form, that id unless already found; and then a scan from the
/// next byte, so that ids overlapping one another are each read.
pub open spec fn scan(b: Seq<u8>, at: int, found: Seq<u128>) -> Seq<u128>
    decreases b.len() - at,
{
    if at < 0 || at + 36 > b.len() {
        found
    } else {
        match hyphenated_value(b.subrange(at, at + 36)) {
            Some(id) => scan(
                b,
                at + 1,
                if found.contains(id) {
                    found
                } else {
                    found.push(id)
                },
            ),
            None => scan(b, at + 1, found),
        }
    }
}

/// Whether some 36 bytes of `b` spell `id` in the hyphenated form.
pub open spec fn read_in(b: Seq<u8>, id: u128) -> bool {
    exists|at: int| 0 <= at && at + 36 <= b.len() && #[trigger] hyphenated_value(b.subrange(at, at + 36)) == Some(id)
}

/// Every tree id held anywhere in `text`, in the order they appear, each one
/// canonicalized and listed once.
///
/// Ids are read wherever they sit rather than only where a url would put them,
/// because what gets pasted is whatever was to hand: an address bar, a share
/// sheet, a line of a chat log. A tree names itself the same in all of them.
pub fn extract(text: &str) -> (found: Vec<u128>)
    ensures
        found@ == scan(text.spec_bytes(), 0, Seq::empty()),
        forall|i: int, j: int| 0 <= i < j < found@.len() ==> found@[i] != found@[j],
        forall|i: int| 0 <= i < found@.len() ==> read_in(text.spec_bytes(), #[trigger] found@[i]),
        forall|id: u128| read_in(text.spec_bytes(), id) ==> found@.contains(id),
{
    let bytes = text.as_bytes();
    let ghost b = text.spec_bytes();
    let mut found: Vec<u128> = Vec::new();
    let mut at: usize = 0;
    while bytes.len() >= HYPHENATED_LEN && at <= bytes.len() - HYPHENATED_LEN
        invariant
            bytes@ == b,
            at <= b.len(),
            scan(b, at as int, found@) == scan(b, 0, Seq::empty()),
            forall|i: int, j: int| 0 <= i < j < found@.len() ==> found@[i] != found@[j],
            forall|i: int| 0 <= i < found@.len() ==> read_in(b, #[trigger] found@[i]),
            forall|p: int|
                0 <= p < at && p + 36 <= b.len() ==> match #[trigger] hyphenated_value(
                    b.subrange(p, p + 36),
                ) {
                    Some(id) => found@.contains(id),
                    None => true,
                },
        decreases b.len() - at,
    {
        let window = slice_subrange(bytes, at, at + HYPHENATED_LEN);
        match parse_id(window) {
            None => {
                at += 1;
            },
            Some(id) => {
                assert(hyphenated_value(b.subrange(at as int, at + 36)) == Some(id));
                let ghost earlier = found@;
                if !holds(&found, id) {
                    let ghost before = found@;
                    found.push(id);
                    assert(found@[before.len() as int] == id);
                    assert forall|x: u128| before.contains(x) implies found@.contains(x) by {
                        let j = choose|j: int| 0 <= j < before.len() && before[j] == x;
                        assert(found@[j] == x);
                    }
                    assert forall|i: int| 0 <= i < found@.len() implies read_in(
                        b,
                        #[trigger] found@[i],
                    ) by {
                        if i < before.len() {
                            assert(found@[i] == before[i]);
                        }
                    }
                    assert forall|i: int, j: int| 0 <= i < j < found@.len() implies found@[i]
                        != found@[j] by {
                        if j == before.len() {
                            assert(found@[i] == before[i]);
                            assert(before.contains(before[i]));
                        }
                    }
                }
                assert(found@.contains(id));
                assert forall|p: int|
                    0 <= p < at + 1 && p + 36 <= b.len() implies match #[trigger] hyphenated_value(
                        b.subrange(p, p + 36),
                    ) {
                        Some(x) => found@.contains(x),
                        None => true,
                    } by {
                    if p < at {
                        if let Some(x) = hyphenated_value(b.subrange(p, p + 36)) {
                            assert(earlier.contains(x));
                        }
                    }
                }
                at += 1;
            },
        }
    }
    assert forall|id: u128| read_in(b, id) implies found@.contains(id) by {
        let p = choose|p: int| 0 <= p && p + 36 <= b.len() && #[trigger] hyphenated_value(b.subrange(p, p + 36)) == Some(id);
        assert(p < at);
    }
    found
}

} // verus!
