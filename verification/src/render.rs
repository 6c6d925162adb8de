//! The lens settings a plain-text render honours, named here as they are
//! named in the query the server reads.
use vstd::prelude::*;
use crate::text::{decimal, decimal_string};

verus! {

#[derive(Clone, Copy, Debug, PartialEq, Eq, Structural)]
pub enum TagMode {
    Or,
    And,
}

#[derive(Clone, Copy, Debug, PartialEq, Eq, Structural)]
pub enum Sort {
    Default,
    CreatedNewest,
    CreatedOldest,
    StaleMost,
    StaleLeast,
    WeightLightest,
    WeightHeaviest,
}

#[derive(Clone, Copy, Debug, PartialEq, Eq, Structural)]
pub enum SortScope {
    Tasks,
    Categories,
    Both,
}

#[derive(Clone, Copy, Debug, PartialEq, Eq, Structural)]
pub enum Position {
    Top,
    Bottom,
}

/// A query as pairs of plain values.
pub open spec fn pairs_view(q: Seq<(String, String)>) -> Seq<(Seq<char>, Seq<char>)> {
    q.map_values(|p: (String, String)| (p.0@, p.1@))
}

/// The pair `(key, value)` when `on`, and nothing otherwise.
pub open spec fn switch(on: bool, key: Seq<char>, value: Seq<char>) -> Seq<(Seq<char>, Seq<char>)> {
    if on {
        seq![(key, value)]
    } else {
        Seq::empty()
    }
}

/// Appends the pair `(key, value)` to `q`.
fn push_pair(q: &mut Vec<(String, String)>, key: &str, value: String)
    ensures
        pairs_view(final(q)@) == pairs_view(old(q)@).push((key@, value@)),
{
    q.push((key.to_owned(), value));
    assert(pairs_view(q@) == pairs_view(old(q)@).push((key@, value@)));
}

impl Sort {
    /// How the order is spelled on the command line and in the query.
    pub open spec fn spelling_spec(self) -> Seq<char> {
        match self {
            Sort::Default => "default"@,
            Sort::CreatedNewest => "created-newest"@,
            Sort::CreatedOldest => "created-oldest"@,
            Sort::StaleMost => "stale-most"@,
            Sort::StaleLeast => "stale-least"@,
            Sort::WeightLightest => "weight-lightest"@,
            Sort::WeightHeaviest => "weight-heaviest"@,
        }
    }

    /// How the order is spelled on the command line and in the query.
    pub fn spelling(self) -> (s: String)
        ensures
            s@ == self.spelling_spec(),
    {
        let word = match self {
            Sort::Default => "default",
            Sort::CreatedNewest => "created-newest",
            Sort::CreatedOldest => "created-oldest",
            Sort::StaleMost => "stale-most",
            Sort::StaleLeast => "stale-least",
            Sort::WeightLightest => "weight-lightest",
            Sort::WeightHeaviest => "weight-heaviest",
        };
        word.to_owned()
    }
}

impl SortScope {
    /// How the scope is spelled on the command line and in the query.
    pub open spec fn spelling_spec(self) -> Seq<char> {
        match self {
            SortScope::Tasks => "tasks"@,
            SortScope::Categories => "categories"@,
            SortScope::Both => "both"@,
        }
    }

    /// How the scope is spelled on the command line and in the query.
    pub fn spelling(self) -> (s: String)
        ensures
            s@ == self.spelling_spec(),
    {
        let word = match self {
            SortScope::Tasks => "tasks",
            SortScope::Categories => "categories",
            SortScope::Both => "both",
        };
        word.to_owned()
    }
}

impl Position {
    /// How the position is spelled on the command line and in the form.
    pub open spec fn spelling_spec(self) -> Seq<char> {
        match self {
            Position::Top => "top"@,
            Position::Bottom => "bottom"@,
        }
    }

    /// How the position is spelled on the command line and in the form.
    pub fn spelling(self) -> (s: String)
        ensures
            s@ == self.spelling_spec(),
    {
        let word = match self {
            Position::Top => "top",
            Position::Bottom => "bottom",
        };
        word.to_owned()
    }
}

/// Each order, scope and position is spelled by a word of its own: no
/// spelling is empty, and no two of one kind share a spelling.
pub proof fn lemma_spellings_distinct()
    ensures
        forall|a: Sort| #[trigger] a.spelling_spec().len() > 0,
        forall|a: Sort, b: Sort| a != b ==> #[trigger] a.spelling_spec() != #[trigger] b.spelling_spec(),
        forall|a: SortScope| #[trigger] a.spelling_spec().len() > 0,
        forall|a: SortScope, b: SortScope|
            a != b ==> #[trigger] a.spelling_spec() != #[trigger] b.spelling_spec(),
        forall|a: Position| #[trigger] a.spelling_spec().len() > 0,
        forall|a: Position, b: Position|
            a != b ==> #[trigger] a.spelling_spec() != #[trigger] b.spelling_spec(),
{
    reveal_strlit("default");
    reveal_strlit("created-newest");
    reveal_strlit("created-oldest");
    reveal_strlit("stale-most");
    reveal_strlit("stale-least");
    reveal_strlit("weight-lightest");
    reveal_strlit("weight-heaviest");
    reveal_strlit("tasks");
    reveal_strlit("categories");
    reveal_strlit("both");
    reveal_strlit("top");
    reveal_strlit("bottom");
    assert forall|a: Sort, b: Sort| a != b implies #[trigger] a.spelling_spec()
        != #[trigger] b.spelling_spec() by {
        let (x, y) = (a.spelling_spec(), b.spelling_spec());
        if x.len() == y.len() {
            assert(x[0] != y[0] || x[x.len() - 1] != y[y.len() - 1] || x[8] != y[8]);
        }
    }
    assert forall|a: SortScope, b: SortScope| a != b implies #[trigger] a.spelling_spec()
        != #[trigger] b.spelling_spec() by {
        let (x, y) = (a.spelling_spec(), b.spelling_spec());
        assert(x.len() != y.len());
    }
    assert forall|a: Position, b: Position| a != b implies #[trigger] a.spelling_spec()
        != #[trigger] b.spelling_spec() by {
        let (x, y) = (a.spelling_spec(), b.spelling_spec());
        assert(x.len() != y.len());
    }
}

/// A pair stands in two runs of pairs joined exactly when it stands in one of them.
pub proof fn lemma_concat_contains(
    a: Seq<(Seq<char>, Seq<char>)>,
    b: Seq<(Seq<char>, Seq<char>)>,
    x: (Seq<char>, Seq<char>),
)
    ensures
        (a + b).contains(x) <==> (a.contains(x) || b.contains(x)),
{
    if (a + b).contains(x) {
        let i = choose|i: int| 0 <= i < (a + b).len() && (a + b)[i] == x;
        if i < a.len() {
            assert(a[i] == x);
        } else {
            assert(b[i - a.len()] == x);
        }
    }
    if a.contains(x) {
        let i = choose|i: int| 0 <= i < a.len() && a[i] == x;
        assert((a + b)[i] == x);
    }
    if b.contains(x) {
        let i = choose|i: int| 0 <= i < b.len() && b[i] == x;
        assert((a + b)[i + a.len()] == x);
    }
}

/// A switch holds a pair exactly when it is on and the pair is its own.
pub proof fn lemma_switch_contains(on: bool, key: Seq<char>, value: Seq<char>, x: (Seq<char>, Seq<char>))
    ensures
        switch(on, key, value).contains(x) <==> (on && x == (key, value)),
{
    if on {
        assert(switch(on, key, value)[0] == (key, value));
    }
}

/// At most one pair, and the pair it holds when it holds one.
pub proof fn lemma_single_contains(
    p: Option<(Seq<char>, Seq<char>)>,
    x: (Seq<char>, Seq<char>),
)
    ensures
        (match p {
            Some(q) => seq![q],
            None => Seq::<(Seq<char>, Seq<char>)>::empty(),
        }).contains(x) <==> p == Some(x),
{
    if let Some(q) = p {
        assert(seq![q][0] == q);
    }
}

/// The keys of a tree's query name nine different settings.
proof fn lemma_query_keys()
    ensures
        "plaintext[ids]"@ != "plaintext[tags]"@,
        "plaintext[ids]"@ != "plaintext[links]"@,
        "plaintext[ids]"@ != "plaintext[context]"@,
        "plaintext[ids]"@ != "filter[tags][]"@,
        "plaintext[ids]"@ != "filter[mode]"@,
        "plaintext[ids]"@ != "filter[not]"@,
        "plaintext[ids]"@ != "t_nid"@,
        "plaintext[ids]"@ != "pressure"@,
        "plaintext[tags]"@ != "plaintext[links]"@,
        "plaintext[tags]"@ != "plaintext[context]"@,
        "plaintext[tags]"@ != "filter[tags][]"@,
        "plaintext[tags]"@ != "filter[mode]"@,
        "plaintext[tags]"@ != "filter[not]"@,
        "plaintext[tags]"@ != "t_nid"@,
        "plaintext[tags]"@ != "pressure"@,
        "plaintext[links]"@ != "plaintext[context]"@,
        "plaintext[links]"@ != "filter[tags][]"@,
        "plaintext[links]"@ != "filter[mode]"@,
        "plaintext[links]"@ != "filter[not]"@,
        "plaintext[links]"@ != "t_nid"@,
        "plaintext[links]"@ != "pressure"@,
        "plaintext[context]"@ != "filter[tags][]"@,
        "plaintext[context]"@ != "filter[mode]"@,
        "plaintext[context]"@ != "filter[not]"@,
        "plaintext[context]"@ != "t_nid"@,
        "plaintext[context]"@ != "pressure"@,
        "filter[tags][]"@ != "filter[mode]"@,
        "filter[tags][]"@ != "filter[not]"@,
        "filter[tags][]"@ != "t_nid"@,
        "filter[tags][]"@ != "pressure"@,
        "filter[mode]"@ != "filter[not]"@,
        "filter[mode]"@ != "t_nid"@,
        "filter[mode]"@ != "pressure"@,
        "filter[not]"@ != "t_nid"@,
        "filter[not]"@ != "pressure"@,
        "t_nid"@ != "pressure"@,
{
    reveal_strlit("plaintext[ids]");
    reveal_strlit("plaintext[tags]");
    reveal_strlit("plaintext[links]");
    reveal_strlit("plaintext[context]");
    reveal_strlit("filter[tags][]");
    reveal_strlit("filter[mode]");
    reveal_strlit("filter[not]");
    reveal_strlit("t_nid");
    reveal_strlit("pressure");
    assert("plaintext[ids]"@.len() == 14);
    assert("plaintext[tags]"@.len() == 15);
    assert("plaintext[links]"@.len() == 16);
    assert("plaintext[context]"@.len() == 18);
    assert("filter[tags][]"@.len() == 14);
    assert("filter[mode]"@.len() == 12);
    assert("filter[not]"@.len() == 11);
    assert("t_nid"@.len() == 5);
    assert("pressure"@.len() == 8);
    assert("plaintext[ids]"@[0] != "filter[tags][]"@[0]);
}

/// The lens settings of a tree's render.
pub struct Options {
    /// Append each task's id, which is what addresses it in every other command
    pub ids: bool,
    /// Append each task's inline #tags
    pub tags: bool,
    /// Leave out the note lines beneath tasks
    pub no_context: bool,
    /// Write linked tasks as [text](url)
    pub links: bool,
    /// Keep only tasks carrying these tags
    pub filter_tags: Vec<String>,
    /// Whether several tags must all match, or any of them
    pub tag_mode: TagMode,
    /// Keep the tasks the tags do not match
    pub without: bool,
    /// The task whose subtree alone is rendered, with it at the top
    pub under: Option<String>,
    /// Treat tasks above this percent as over-pressure
    pub pressure: Option<u8>,
}

impl Options {
    /// The switches that are on: task ids, tags, links, and context when left out.
    pub open spec fn switches_spec(&self) -> Seq<(Seq<char>, Seq<char>)> {
        switch(self.ids, "plaintext[ids]"@, "on"@) + switch(self.tags, "plaintext[tags]"@, "on"@)
            + switch(self.links, "plaintext[links]"@, "on"@) + switch(
            self.no_context,
            "plaintext[context]"@,
            "off"@,
        )
    }

    /// One pair for each tag filtered on, in order.
    pub open spec fn filters_spec(&self) -> Seq<(Seq<char>, Seq<char>)> {
        self.filter_tags@.map_values(|t: String| ("filter[tags][]"@, t@))
    }

    /// How the tags combine, whether the filter is inverted, where the tree is
    /// read from and the pressure threshold, each only when asked for.
    pub open spec fn narrowing_spec(&self) -> Seq<(Seq<char>, Seq<char>)> {
        switch(
            self.filter_tags@.len() > 0 && self.tag_mode == TagMode::And,
            "filter[mode]"@,
            "and"@,
        ) + switch(self.without, "filter[not]"@, "1"@) + match self.under {
            Some(task) => seq![("t_nid"@, task@)],
            None => Seq::empty(),
        } + match self.pressure {
            Some(p) => seq![("pressure"@, decimal(p as nat))],
            None => Seq::empty(),
        }
    }

    /// The query for these settings: only the ones that were asked for.
    pub open spec fn query_spec(&self) -> Seq<(Seq<char>, Seq<char>)> {
        self.switches_spec() + self.filters_spec() + self.narrowing_spec()
    }

    /// Where a pair stands in the query: in the switches, the tag filters, or
    /// what narrows the render.
    proof fn lemma_query_parts(&self, x: (Seq<char>, Seq<char>))
        ensures
            self.query_spec().contains(x) <==> (
            switch(self.ids, "plaintext[ids]"@, "on"@).contains(x)
                || switch(self.tags, "plaintext[tags]"@, "on"@).contains(x)
                || switch(self.links, "plaintext[links]"@, "on"@).contains(x)
                || switch(self.no_context, "plaintext[context]"@, "off"@).contains(x)
                || self.filters_spec().contains(x)
                || switch(
                self.filter_tags@.len() > 0 && self.tag_mode == TagMode::And,
                "filter[mode]"@,
                "and"@,
            ).contains(x) || switch(self.without, "filter[not]"@, "1"@).contains(x)
                || (match self.under {
                Some(task) => seq![("t_nid"@, task@)],
                None => Seq::empty(),
            }).contains(x) || (match self.pressure {
                Some(p) => seq![("pressure"@, decimal(p as nat))],
                None => Seq::empty(),
            }).contains(x)),
    {
        let s1 = switch(self.ids, "plaintext[ids]"@, "on"@);
        let s2 = switch(self.tags, "plaintext[tags]"@, "on"@);
        let s3 = switch(self.links, "plaintext[links]"@, "on"@);
        let s4 = switch(self.no_context, "plaintext[context]"@, "off"@);
        let n1 = switch(
            self.filter_tags@.len() > 0 && self.tag_mode == TagMode::And,
            "filter[mode]"@,
            "and"@,
        );
        let n2 = switch(self.without, "filter[not]"@, "1"@);
        let n3: Seq<(Seq<char>, Seq<char>)> = match self.under {
            Some(task) => seq![("t_nid"@, task@)],
            None => Seq::empty(),
        };
        let n4: Seq<(Seq<char>, Seq<char>)> = match self.pressure {
            Some(p) => seq![("pressure"@, decimal(p as nat))],
            None => Seq::empty(),
        };
        lemma_concat_contains(s1, s2, x);
        lemma_concat_contains(s1 + s2, s3, x);
        lemma_concat_contains(s1 + s2 + s3, s4, x);
        lemma_concat_contains(n1, n2, x);
        lemma_concat_contains(n1 + n2, n3, x);
        lemma_concat_contains(n1 + n2 + n3, n4, x);
        lemma_concat_contains(self.switches_spec(), self.filters_spec(), x);
        lemma_concat_contains(self.switches_spec() + self.filters_spec(), self.narrowing_spec(), x);
    }

    /// Each tag filtered on is sent under `filter[tags][]`, and nothing else is.
    proof fn lemma_filters_contain(&self, x: (Seq<char>, Seq<char>))
        ensures
            self.filters_spec().contains(x) <==> (x.0 == "filter[tags][]"@ && exists|i: int|
                0 <= i < self.filter_tags@.len() && #[trigger] self.filter_tags@[i]@ == x.1),
    {
        let f = self.filters_spec();
        if f.contains(x) {
            let i = choose|i: int| 0 <= i < f.len() && f[i] == x;
            assert(self.filter_tags@[i]@ == x.1);
        }
        if x.0 == "filter[tags][]"@ && exists|i: int|
            0 <= i < self.filter_tags@.len() && #[trigger] self.filter_tags@[i]@ == x.1 {
            let i = choose|i: int| 0 <= i < self.filter_tags@.len() && #[trigger] self.filter_tags@[i]@ == x.1;
            assert(f[i] == x);
        }
    }

    /// The pairs of the query: each switch that is on, each tag filtered on,
    /// and the task and pressure when given.
    proof fn lemma_query_contains(&self, x: (Seq<char>, Seq<char>))
        ensures
            self.query_spec().contains(x) <==> (
            (self.ids && x == ("plaintext[ids]"@, "on"@))
                || (self.tags && x == ("plaintext[tags]"@, "on"@))
                || (self.links && x == ("plaintext[links]"@, "on"@))
                || (self.no_context && x == ("plaintext[context]"@, "off"@))
                || (x.0 == "filter[tags][]"@ && exists|i: int|
                0 <= i < self.filter_tags@.len() && #[trigger] self.filter_tags@[i]@ == x.1)
                || ((self.filter_tags@.len() > 0 && self.tag_mode == TagMode::And) && x == (
                "filter[mode]"@,
                "and"@,
            )) || (self.without && x == ("filter[not]"@, "1"@))
                || (self.under matches Some(u) && x == ("t_nid"@, u@))
                || (self.pressure matches Some(p) && x == ("pressure"@, decimal(p as nat)))),
    {
        let mode_on = self.filter_tags@.len() > 0 && self.tag_mode == TagMode::And;
        let under: Option<(Seq<char>, Seq<char>)> = match self.under {
            Some(task) => Some(("t_nid"@, task@)),
            None => None,
        };
        let pressure: Option<(Seq<char>, Seq<char>)> = match self.pressure {
            Some(p) => Some(("pressure"@, decimal(p as nat))),
            None => None,
        };
        self.lemma_query_parts(x);
        self.lemma_filters_contain(x);
        lemma_switch_contains(self.ids, "plaintext[ids]"@, "on"@, x);
        lemma_switch_contains(self.tags, "plaintext[tags]"@, "on"@, x);
        lemma_switch_contains(self.links, "plaintext[links]"@, "on"@, x);
        lemma_switch_contains(self.no_context, "plaintext[context]"@, "off"@, x);
        lemma_switch_contains(mode_on, "filter[mode]"@, "and"@, x);
        lemma_switch_contains(self.without, "filter[not]"@, "1"@, x);
        lemma_single_contains(under, x);
        lemma_single_contains(pressure, x);
    }

    /// Each setting is sent exactly when it is asked for, whatever the others
    /// are: the ids, tags, links and left-out context switches; that every tag
    /// must match, only when there are tags; the inverted filter; each tag
    /// filtered on; the task the render is read from; and the pressure, in
    /// decimal.
    pub proof fn lemma_query_settings(&self)
        ensures
            self.query_spec().contains(("plaintext[ids]"@, "on"@)) == self.ids,
            self.query_spec().contains(("plaintext[tags]"@, "on"@)) == self.tags,
            self.query_spec().contains(("plaintext[links]"@, "on"@)) == self.links,
            self.query_spec().contains(("plaintext[context]"@, "off"@)) == self.no_context,
            self.query_spec().contains(("filter[mode]"@, "and"@)) == (self.filter_tags@.len() > 0
                && self.tag_mode == TagMode::And),
            self.query_spec().contains(("filter[not]"@, "1"@)) == self.without,
            forall|t: Seq<char>|
                #![trigger self.query_spec().contains(("filter[tags][]"@, t))]
                self.query_spec().contains(("filter[tags][]"@, t)) <==> exists|i: int|
                    0 <= i < self.filter_tags@.len() && #[trigger] self.filter_tags@[i]@ == t,
            forall|v: Seq<char>|
                #![trigger self.query_spec().contains(("t_nid"@, v))]
                self.query_spec().contains(("t_nid"@, v)) <==> (self.under matches Some(u) && u@
                    == v),
            forall|v: Seq<char>|
                #![trigger self.query_spec().contains(("pressure"@, v))]
                self.query_spec().contains(("pressure"@, v)) <==> (self.pressure matches Some(p)
                    && decimal(p as nat) == v),
    {
        lemma_query_keys();
        self.lemma_query_contains(("plaintext[ids]"@, "on"@));
        self.lemma_query_contains(("plaintext[tags]"@, "on"@));
        self.lemma_query_contains(("plaintext[links]"@, "on"@));
        self.lemma_query_contains(("plaintext[context]"@, "off"@));
        self.lemma_query_contains(("filter[mode]"@, "and"@));
        self.lemma_query_contains(("filter[not]"@, "1"@));
        assert forall|t: Seq<char>| #![trigger self.query_spec().contains(("filter[tags][]"@, t))]
            self.query_spec().contains(("filter[tags][]"@, t)) <==> exists|i: int|
                0 <= i < self.filter_tags@.len() && #[trigger] self.filter_tags@[i]@ == t by {
            self.lemma_query_contains(("filter[tags][]"@, t));
        }
        assert forall|v: Seq<char>| #![trigger self.query_spec().contains(("t_nid"@, v))]
            self.query_spec().contains(("t_nid"@, v)) <==> (self.under matches Some(u) && u@
                == v) by {
            self.lemma_query_contains(("t_nid"@, v));
        }
        assert forall|v: Seq<char>| #![trigger self.query_spec().contains(("pressure"@, v))]
            self.query_spec().contains(("pressure"@, v)) <==> (self.pressure matches Some(p)
                && decimal(p as nat) == v) by {
            self.lemma_query_contains(("pressure"@, v));
        }
    }

    fn push_switches(&self, query: &mut Vec<(String, String)>)
        ensures
            pairs_view(final(query)@) == pairs_view(old(query)@) + self.switches_spec(),
    {
        let ghost start = pairs_view(query@);
        if self.ids {
            push_pair(query, "plaintext[ids]", "on".to_owned());
        }
        assert(pairs_view(query@) == start + switch(self.ids, "plaintext[ids]"@, "on"@));
        let ghost s1 = pairs_view(query@);
        if self.tags {
            push_pair(query, "plaintext[tags]", "on".to_owned());
        }
        assert(pairs_view(query@) == s1 + switch(self.tags, "plaintext[tags]"@, "on"@));
        let ghost s2 = pairs_view(query@);
        if self.links {
            push_pair(query, "plaintext[links]", "on".to_owned());
        }
        assert(pairs_view(query@) == s2 + switch(self.links, "plaintext[links]"@, "on"@));
        let ghost s3 = pairs_view(query@);
        if self.no_context {
            push_pair(query, "plaintext[context]", "off".to_owned());
        }
        assert(pairs_view(query@) == s3 + switch(self.no_context, "plaintext[context]"@, "off"@));
        assert(pairs_view(query@) == start + self.switches_spec());
    }

    fn push_filters(&self, query: &mut Vec<(String, String)>)
        ensures
            pairs_view(final(query)@) == pairs_view(old(query)@) + self.filters_spec(),
    {
        let ghost before = pairs_view(query@);
        let mut i: usize = 0;
        while i < self.filter_tags.len()
            invariant
                i <= self.filter_tags@.len(),
                pairs_view(query@) == before + self.filter_tags@.take(i as int).map_values(
                    |t: String| ("filter[tags][]"@, t@),
                ),
            decreases self.filter_tags.len() - i,
        {
            push_pair(query, "filter[tags][]", self.filter_tags[i].clone());
            assert(self.filter_tags@.take(i + 1).map_values(|t: String| ("filter[tags][]"@, t@))
                == self.filter_tags@.take(i as int).map_values(
                |t: String| ("filter[tags][]"@, t@),
            ).push(("filter[tags][]"@, self.filter_tags@[i as int]@)));
            i += 1;
        }
        assert(self.filter_tags@.take(i as int) == self.filter_tags@);
    }

    fn push_narrowing(&self, query: &mut Vec<(String, String)>)
        ensures
            pairs_view(final(query)@) == pairs_view(old(query)@) + self.narrowing_spec(),
    {
        let ghost start = pairs_view(query@);
        let and = self.filter_tags.len() > 0 && self.tag_mode == TagMode::And;
        if and {
            push_pair(query, "filter[mode]", "and".to_owned());
        }
        assert(pairs_view(query@) == start + switch(and, "filter[mode]"@, "and"@));
        let ghost s1 = pairs_view(query@);
        if self.without {
            push_pair(query, "filter[not]", "1".to_owned());
        }
        assert(pairs_view(query@) == s1 + switch(self.without, "filter[not]"@, "1"@));
        let ghost s2 = pairs_view(query@);
        match &self.under {
            Some(task) => push_pair(query, "t_nid", task.clone()),
            None => {},
        }
        let ghost s3 = pairs_view(query@);
        match self.pressure {
            Some(pressure) => push_pair(query, "pressure", decimal_string(pressure as u64)),
            None => {},
        }
        assert(pairs_view(query@) == start + self.narrowing_spec());
    }

    /// Only the settings that were asked for, so the server's own defaults
    /// answer for everything else.
    pub fn query(&self) -> (query: Vec<(String, String)>)
        ensures
            pairs_view(query@) == self.query_spec(),
            pairs_view(query@).contains(("plaintext[ids]"@, "on"@)) == self.ids,
            pairs_view(query@).contains(("plaintext[tags]"@, "on"@)) == self.tags,
            pairs_view(query@).contains(("plaintext[links]"@, "on"@)) == self.links,
            pairs_view(query@).contains(("plaintext[context]"@, "off"@)) == self.no_context,
            pairs_view(query@).contains(("filter[not]"@, "1"@)) == self.without,
    {
        proof {
            self.lemma_query_settings();
        }
        let mut query: Vec<(String, String)> = Vec::new();
        self.push_switches(&mut query);
        self.push_filters(&mut query);
        self.push_narrowing(&mut query);
        assert(pairs_view(query@) == Seq::<(Seq<char>, Seq<char>)>::empty() + self.switches_spec()
            + self.filters_spec() + self.narrowing_spec());
        query
    }
}

/// The settings particular to the Focus view.
pub struct FocusOptions {
    /// Collapse each category to a single breadcrumb heading
    pub flat: bool,
    /// How tasks are ordered within each group
    pub sort: Option<Sort>,
    /// How far the sort reaches
    pub sort_scope: Option<SortScope>,
}

impl FocusOptions {
    /// The query for the Focus view with these settings.
    pub open spec fn query_spec(&self) -> Seq<(Seq<char>, Seq<char>)> {
        seq![("view"@, "focus"@)] + switch(self.flat, "plaintext[flat]"@, "on"@) + match self.sort {
            Some(sort) => seq![("sort"@, sort.spelling_spec())],
            None => Seq::empty(),
        } + match self.sort_scope {
            Some(scope) => seq![("sort_scope"@, scope.spelling_spec())],
            None => Seq::empty(),
        }
    }

    /// The Focus view is always asked for, and each of its settings is sent
    /// exactly when it is given, whatever the others are: the flat layout, the
    /// order by its spelling, and the scope of the order by its spelling.
    pub proof fn lemma_focus_settings(&self)
        ensures
            self.query_spec()[0] == ("view"@, "focus"@),
            self.query_spec().contains(("plaintext[flat]"@, "on"@)) == self.flat,
            forall|v: Seq<char>|
                #![trigger self.query_spec().contains(("sort"@, v))]
                self.query_spec().contains(("sort"@, v)) <==> (self.sort matches Some(s)
                    && s.spelling_spec() == v),
            forall|v: Seq<char>|
                #![trigger self.query_spec().contains(("sort_scope"@, v))]
                self.query_spec().contains(("sort_scope"@, v)) <==> (self.sort_scope matches Some(
                    s,
                ) && s.spelling_spec() == v),
    {
        reveal_strlit("view");
        reveal_strlit("plaintext[flat]");
        reveal_strlit("sort");
        reveal_strlit("sort_scope");
        assert("view"@.len() == 4);
        assert("plaintext[flat]"@.len() == 15);
        assert("sort"@.len() == 4);
        assert("sort_scope"@.len() == 10);
        assert("view"@[0] != "sort"@[0]);
        assert("view"@ != "sort"@);
        assert("view"@ != "plaintext[flat]"@);
        assert("view"@ != "sort_scope"@);
        assert("plaintext[flat]"@ != "sort"@);
        assert("plaintext[flat]"@ != "sort_scope"@);
        assert("sort"@ != "sort_scope"@);
        let a: Seq<(Seq<char>, Seq<char>)> = seq![("view"@, "focus"@)];
        let b = switch(self.flat, "plaintext[flat]"@, "on"@);
        let c: Seq<(Seq<char>, Seq<char>)> = match self.sort {
            Some(sort) => seq![("sort"@, sort.spelling_spec())],
            None => Seq::empty(),
        };
        let d: Seq<(Seq<char>, Seq<char>)> = match self.sort_scope {
            Some(scope) => seq![("sort_scope"@, scope.spelling_spec())],
            None => Seq::empty(),
        };
        let sort: Option<(Seq<char>, Seq<char>)> = match self.sort {
            Some(sort) => Some(("sort"@, sort.spelling_spec())),
            None => None,
        };
        let scope: Option<(Seq<char>, Seq<char>)> = match self.sort_scope {
            Some(scope) => Some(("sort_scope"@, scope.spelling_spec())),
            None => None,
        };
        assert(self.query_spec() == a + b + c + d);
        assert forall|x: (Seq<char>, Seq<char>)| #[trigger] self.query_spec().contains(x) <==> (x
            == ("view"@, "focus"@) || (self.flat && x == ("plaintext[flat]"@, "on"@)) || sort
            == Some(x) || scope == Some(x)) by {
            lemma_concat_contains(a, b, x);
            lemma_concat_contains(a + b, c, x);
            lemma_concat_contains(a + b + c, d, x);
            lemma_single_contains(Some(("view"@, "focus"@)), x);
            lemma_switch_contains(self.flat, "plaintext[flat]"@, "on"@, x);
            lemma_single_contains(sort, x);
            lemma_single_contains(scope, x);
        }
        assert(self.query_spec().contains(("plaintext[flat]"@, "on"@)) == self.flat);
    }

    /// The query for the Focus view with these settings.
    pub fn query(&self) -> (query: Vec<(String, String)>)
        ensures
            pairs_view(query@) == self.query_spec(),
            pairs_view(query@).contains(("plaintext[flat]"@, "on"@)) == self.flat,
    {
        proof {
            self.lemma_focus_settings();
        }
        let mut query: Vec<(String, String)> = Vec::new();
        push_pair(&mut query, "view", "focus".to_owned());
        if self.flat {
            push_pair(&mut query, "plaintext[flat]", "on".to_owned());
        }
        match self.sort {
            Some(sort) => push_pair(&mut query, "sort", sort.spelling()),
            None => {},
        }
        match self.sort_scope {
            Some(scope) => push_pair(&mut query, "sort_scope", scope.spelling()),
            None => {},
        }
        assert(pairs_view(query@) == self.query_spec());
        query
    }
}

} // verus!
