//! The query trees and the tag classifier.
//!
//! An untyped [`Query`] over raw string keys, as an external parser produces
//! it, is classified into a typed [`TagQuery`] whose keys are [`TagName`]s:
//! a leading `~` sigil marks a plaintext tag (sigil stripped), every other
//! key an encrypted tag. Classification is purely syntactic and preserves
//! the tree shape exactly.

use vstd::prelude::*;
use vstd::string::StrSliceExecFns;
use vstd::string::StringExecFns;

use crate::error::Error;

verus! {

/// A classified tag key.
///
/// `Encrypted` names are stored and queried only in encrypted form and
/// support equality-class comparisons; `Plaintext` names live unencrypted in
/// the side index and support the full comparison set. The derived order
/// (encrypted names before plaintext ones, then by payload) keeps values
/// stable in ordered containers.
#[derive(Clone, Debug, PartialEq, Eq, PartialOrd, Ord)]
pub enum TagName {
    Encrypted(String),
    Plaintext(String),
}

/// The mathematical model of a [`TagName`].
pub enum SpecTagName {
    Encrypted(Seq<char>),
    Plaintext(Seq<char>),
}

impl View for TagName {
    type V = SpecTagName;

    open spec fn view(&self) -> SpecTagName {
        match self {
            TagName::Encrypted(s) => SpecTagName::Encrypted(s@),
            TagName::Plaintext(s) => SpecTagName::Plaintext(s@),
        }
    }
}

/// Classification of one raw key: a leading `~` yields a plaintext name with
/// the sigil stripped; every other key yields an encrypted name.
pub open spec fn spec_classify(k: Seq<char>) -> SpecTagName {
    if k.len() > 0 && k[0] == '~' {
        SpecTagName::Plaintext(k.subrange(1, k.len() as int))
    } else {
        SpecTagName::Encrypted(k)
    }
}

/// The raw form of a classified name: plaintext names regain the `~` sigil.
pub open spec fn spec_raw(n: SpecTagName) -> Seq<char> {
    match n {
        SpecTagName::Encrypted(s) => s,
        SpecTagName::Plaintext(s) => seq!['~'] + s,
    }
}

/// Classification round-trip: rendering a classified key in raw form
/// reproduces the raw key, for every raw key.
pub proof fn lemma_classify_round_trip(k: Seq<char>)
    ensures
        spec_raw(spec_classify(k)) == k,
{
    if k.len() > 0 && k[0] == '~' {
        assert(seq!['~'] + k.subrange(1, k.len() as int) =~= k);
    }
}

/// Classify one raw key by the sigil convention.
pub fn classify(key: &str) -> (t: TagName)
    ensures
        t@ == spec_classify(key@),
{
    let len = key.unicode_len();
    if len > 0 && key.get_char(0) == '~' {
        let payload = key.substring_char(1, len);
        TagName::Plaintext(String::from_str(payload))
    } else {
        TagName::Encrypted(key.to_owned())
    }
}

impl TagName {
    /// Render this name back in its raw form.
    pub fn to_string(&self) -> (r: String)
        ensures
            r@ == spec_raw(self@),
    {
        match self {
            TagName::Encrypted(s) => s.clone(),
            TagName::Plaintext(s) => {
                let mut r = String::from_str("~");
                r.append(s.as_str());
                proof {
                    reveal_strlit("~");
                    assert(r@ =~= spec_raw(self@));
                }
                r
            },
        }
    }
}

/// An untyped boolean filter over raw string keys and values, as produced by
/// an external parser. Comparison leaves carry one key and one literal
/// value; `In` tests membership in a value list; `And`/`Or` combine zero or
/// more subqueries in insertion order; `Not` negates one subquery.
#[derive(Debug, PartialEq, Eq)]
pub enum Query {
    Eq(String, String),
    Neq(String, String),
    Gt(String, String),
    Gte(String, String),
    Lt(String, String),
    Lte(String, String),
    Like(String, String),
    In(String, Vec<String>),
    And(Vec<Query>),
    Or(Vec<Query>),
    Not(Box<Query>),
}

/// The typed counterpart of [`Query`]: the same tree shape with every key
/// classified into a [`TagName`].
#[derive(Debug, PartialEq, Eq)]
pub enum TagQuery {
    Eq(TagName, String),
    Neq(TagName, String),
    Gt(TagName, String),
    Gte(TagName, String),
    Lt(TagName, String),
    Lte(TagName, String),
    Like(TagName, String),
    In(TagName, Vec<String>),
    And(Vec<TagQuery>),
    Or(Vec<TagQuery>),
    Not(Box<TagQuery>),
}

/// The mathematical model of a [`Query`].
pub enum SpecQuery {
    Eq(Seq<char>, Seq<char>),
    Neq(Seq<char>, Seq<char>),
    Gt(Seq<char>, Seq<char>),
    Gte(Seq<char>, Seq<char>),
    Lt(Seq<char>, Seq<char>),
    Lte(Seq<char>, Seq<char>),
    Like(Seq<char>, Seq<char>),
    In(Seq<char>, Seq<Seq<char>>),
    And(Seq<SpecQuery>),
    Or(Seq<SpecQuery>),
    Not(Box<SpecQuery>),
}

/// The mathematical model of a [`TagQuery`].
pub enum SpecTagQuery {
    Eq(SpecTagName, Seq<char>),
    Neq(SpecTagName, Seq<char>),
    Gt(SpecTagName, Seq<char>),
    Gte(SpecTagName, Seq<char>),
    Lt(SpecTagName, Seq<char>),
    Lte(SpecTagName, Seq<char>),
    Like(SpecTagName, Seq<char>),
    In(SpecTagName, Seq<Seq<char>>),
    And(Seq<SpecTagQuery>),
    Or(Seq<SpecTagQuery>),
    Not(Box<SpecTagQuery>),
}

/// The views of a sequence of strings.
pub open spec fn spec_str_views(vs: Seq<String>) -> Seq<Seq<char>> {
    vs.map_values(|v: String| v@)
}

/// The model of an untyped query.
pub open spec fn spec_query_view(q: Query) -> SpecQuery
    decreases q, 1int,
{
    match q {
        Query::Eq(k, v) => SpecQuery::Eq(k@, v@),
        Query::Neq(k, v) => SpecQuery::Neq(k@, v@),
        Query::Gt(k, v) => SpecQuery::Gt(k@, v@),
        Query::Gte(k, v) => SpecQuery::Gte(k@, v@),
        Query::Lt(k, v) => SpecQuery::Lt(k@, v@),
        Query::Lte(k, v) => SpecQuery::Lte(k@, v@),
        Query::Like(k, v) => SpecQuery::Like(k@, v@),
        Query::In(k, vs) => SpecQuery::In(k@, spec_str_views(vs@)),
        Query::And(qs) => SpecQuery::And(spec_query_views(qs@)),
        Query::Or(qs) => SpecQuery::Or(spec_query_views(qs@)),
        Query::Not(sub) => SpecQuery::Not(Box::new(spec_query_view(*sub))),
    }
}

/// The models of a sequence of untyped queries.
pub open spec fn spec_query_views(qs: Seq<Query>) -> Seq<SpecQuery>
    decreases qs, 0int,
{
    if qs.len() == 0 {
        Seq::empty()
    } else {
        seq![spec_query_view(qs[0])] + spec_query_views(qs.drop_first())
    }
}

/// The model of a typed query.
pub open spec fn spec_tag_query_view(q: TagQuery) -> SpecTagQuery
    decreases q, 1int,
{
    match q {
        TagQuery::Eq(n, v) => SpecTagQuery::Eq(n@, v@),
        TagQuery::Neq(n, v) => SpecTagQuery::Neq(n@, v@),
        TagQuery::Gt(n, v) => SpecTagQuery::Gt(n@, v@),
        TagQuery::Gte(n, v) => SpecTagQuery::Gte(n@, v@),
        TagQuery::Lt(n, v) => SpecTagQuery::Lt(n@, v@),
        TagQuery::Lte(n, v) => SpecTagQuery::Lte(n@, v@),
        TagQuery::Like(n, v) => SpecTagQuery::Like(n@, v@),
        TagQuery::In(n, vs) => SpecTagQuery::In(n@, spec_str_views(vs@)),
        TagQuery::And(qs) => SpecTagQuery::And(spec_tag_query_views(qs@)),
        TagQuery::Or(qs) => SpecTagQuery::Or(spec_tag_query_views(qs@)),
        TagQuery::Not(sub) => SpecTagQuery::Not(Box::new(spec_tag_query_view(*sub))),
    }
}

/// The models of a sequence of typed queries.
pub open spec fn spec_tag_query_views(qs: Seq<TagQuery>) -> Seq<SpecTagQuery>
    decreases qs, 0int,
{
    if qs.len() == 0 {
        Seq::empty()
    } else {
        seq![spec_tag_query_view(qs[0])] + spec_tag_query_views(qs.drop_first())
    }
}

impl View for Query {
    type V = SpecQuery;

    open spec fn view(&self) -> SpecQuery {
        spec_query_view(*self)
    }
}

impl View for TagQuery {
    type V = SpecTagQuery;

    open spec fn view(&self) -> SpecTagQuery {
        spec_tag_query_view(*self)
    }
}

/// Length and elements of [`spec_query_views`].
pub proof fn lemma_query_views_props(qs: Seq<Query>)
    ensures
        spec_query_views(qs).len() == qs.len(),
        forall|i: int|
            0 <= i < qs.len() ==> #[trigger] spec_query_views(qs)[i] == spec_query_view(qs[i]),
    decreases qs.len(),
{
    if qs.len() > 0 {
        lemma_query_views_props(qs.drop_first());
        assert forall|i: int|
            0 <= i < qs.len() implies #[trigger] spec_query_views(qs)[i] == spec_query_view(
            qs[i],
        ) by {
            if i > 0 {
                assert(qs.drop_first()[i - 1] == qs[i]);
            }
        }
    }
}

/// Length and elements of [`spec_tag_query_views`].
pub proof fn lemma_tag_query_views_props(qs: Seq<TagQuery>)
    ensures
        spec_tag_query_views(qs).len() == qs.len(),
        forall|i: int|
            0 <= i < qs.len() ==> #[trigger] spec_tag_query_views(qs)[i] == spec_tag_query_view(
                qs[i],
            ),
    decreases qs.len(),
{
    if qs.len() > 0 {
        lemma_tag_query_views_props(qs.drop_first());
        assert forall|i: int|
            0 <= i < qs.len() implies #[trigger] spec_tag_query_views(qs)[i]
            == spec_tag_query_view(qs[i]) by {
            if i > 0 {
                assert(qs.drop_first()[i - 1] == qs[i]);
            }
        }
    }
}

/// Classification of a whole untyped query: every leaf key is classified,
/// values are kept unchanged, and the tree shape is preserved exactly.
pub open spec fn spec_classify_query(q: SpecQuery) -> SpecTagQuery
    decreases q, 1int,
{
    match q {
        SpecQuery::Eq(k, v) => SpecTagQuery::Eq(spec_classify(k), v),
        SpecQuery::Neq(k, v) => SpecTagQuery::Neq(spec_classify(k), v),
        SpecQuery::Gt(k, v) => SpecTagQuery::Gt(spec_classify(k), v),
        SpecQuery::Gte(k, v) => SpecTagQuery::Gte(spec_classify(k), v),
        SpecQuery::Lt(k, v) => SpecTagQuery::Lt(spec_classify(k), v),
        SpecQuery::Lte(k, v) => SpecTagQuery::Lte(spec_classify(k), v),
        SpecQuery::Like(k, v) => SpecTagQuery::Like(spec_classify(k), v),
        SpecQuery::In(k, vs) => SpecTagQuery::In(spec_classify(k), vs),
        SpecQuery::And(qs) => SpecTagQuery::And(spec_classify_queries(qs)),
        SpecQuery::Or(qs) => SpecTagQuery::Or(spec_classify_queries(qs)),
        SpecQuery::Not(sub) => SpecTagQuery::Not(Box::new(spec_classify_query(*sub))),
    }
}

/// Classification of a sequence of untyped queries, element by element.
pub open spec fn spec_classify_queries(qs: Seq<SpecQuery>) -> Seq<SpecTagQuery>
    decreases qs, 0int,
{
    if qs.len() == 0 {
        Seq::empty()
    } else {
        seq![spec_classify_query(qs[0])] + spec_classify_queries(qs.drop_first())
    }
}

/// Length and elements of [`spec_classify_queries`].
pub proof fn lemma_classify_queries_props(qs: Seq<SpecQuery>)
    ensures
        spec_classify_queries(qs).len() == qs.len(),
        forall|i: int|
            0 <= i < qs.len() ==> #[trigger] spec_classify_queries(qs)[i] == spec_classify_query(
                qs[i],
            ),
    decreases qs.len(),
{
    if qs.len() > 0 {
        lemma_classify_queries_props(qs.drop_first());
        assert forall|i: int|
            0 <= i < qs.len() implies #[trigger] spec_classify_queries(qs)[i]
            == spec_classify_query(qs[i]) by {
            if i > 0 {
                assert(qs.drop_first()[i - 1] == qs[i]);
            }
        }
    }
}

/// Copy a list of values, preserving each value's characters.
fn clone_values(vs: &Vec<String>) -> (r: Vec<String>)
    ensures
        spec_str_views(r@) == spec_str_views(vs@),
{
    let mut r: Vec<String> = Vec::new();
    let mut i: usize = 0;
    while i < vs.len()
        invariant
            i <= vs.len(),
            r.len() == i,
            forall|j: int| 0 <= j < i ==> #[trigger] r@[j]@ == vs@[j]@,
        decreases vs.len() - i,
    {
        r.push(vs[i].clone());
        i += 1;
    }
    proof {
        assert(spec_str_views(r@) =~= spec_str_views(vs@));
    }
    r
}

/// Classify every key of one untyped query.
fn classify_tree(query: &Query) -> (r: TagQuery)
    ensures
        r@ == spec_classify_query(query@),
    decreases *query, 1int,
{
    match query {
        Query::Eq(k, v) => TagQuery::Eq(classify(k.as_str()), v.clone()),
        Query::Neq(k, v) => TagQuery::Neq(classify(k.as_str()), v.clone()),
        Query::Gt(k, v) => TagQuery::Gt(classify(k.as_str()), v.clone()),
        Query::Gte(k, v) => TagQuery::Gte(classify(k.as_str()), v.clone()),
        Query::Lt(k, v) => TagQuery::Lt(classify(k.as_str()), v.clone()),
        Query::Lte(k, v) => TagQuery::Lte(classify(k.as_str()), v.clone()),
        Query::Like(k, v) => TagQuery::Like(classify(k.as_str()), v.clone()),
        Query::In(k, vs) => TagQuery::In(classify(k.as_str()), clone_values(vs)),
        Query::And(qs) => TagQuery::And(classify_trees(qs)),
        Query::Or(qs) => TagQuery::Or(classify_trees(qs)),
        Query::Not(sub) => TagQuery::Not(Box::new(classify_tree(&*sub))),
    }
}

/// Classify every key of a list of untyped queries, in order.
fn classify_trees(qs: &Vec<Query>) -> (r: Vec<TagQuery>)
    ensures
        spec_tag_query_views(r@) == spec_classify_queries(spec_query_views(qs@)),
    decreases qs@, 0int,
{
    let mut r: Vec<TagQuery> = Vec::new();
    let mut i: usize = 0;
    while i < qs.len()
        invariant
            i <= qs.len(),
            r.len() == i,
            forall|j: int| 0 <= j < i ==> #[trigger] r@[j]@ == spec_classify_query(qs@[j]@),
        decreases qs.len() - i,
    {
        let t = classify_tree(&qs[i]);
        r.push(t);
        i += 1;
    }
    proof {
        lemma_query_views_props(qs@);
        lemma_tag_query_views_props(r@);
        lemma_classify_queries_props(spec_query_views(qs@));
        assert forall|j: int| 0 <= j < r@.len() implies spec_tag_query_views(r@)[j]
            == spec_classify_queries(spec_query_views(qs@))[j] by {
            assert(r@[j]@ == spec_classify_query(qs@[j]@));
            assert(spec_query_views(qs@)[j] == spec_query_view(qs@[j]));
        }
        assert(spec_tag_query_views(r@) =~= spec_classify_queries(spec_query_views(qs@)));
    }
    r
}

impl TagQuery {
    /// Classify every raw key of `query` by the sigil convention and
    /// validate the result. Classification itself cannot fail, so the call
    /// succeeds whenever validation does; today validation is permissive,
    /// so every untyped query is accepted.
    pub fn from_query(query: Query) -> (r: Result<TagQuery, Error>)
        ensures
            r is Ok,
            r->Ok_0@ == spec_classify_query(query@),
    {
        let result = classify_tree(&query);
        match result.validate() {
            Ok(()) => Ok(result),
            Err(e) => Err(e),
        }
    }

    /// Check the semantic rules on a classified query.
    ///
    /// Deliberately permissive: ordering and pattern comparisons on
    /// encrypted tags are accepted although only equality-class comparisons
    /// are meaningful for them. This is the extension point where that rule
    /// would be enforced; until then callers must not rely on such
    /// comparisons being rejected.
    pub fn validate(&self) -> (r: Result<(), Error>)
        ensures
            r is Ok,
    {
        Ok(())
    }
}

} // verus!
