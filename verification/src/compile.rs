//! The query compiler: a recursive descent over a typed query that drives a
//! caller-supplied encoder through a fixed protocol. Negation is never handed
//! to the encoder; a polarity accumulator flips comparison operators and
//! conjunction kinds at the leaves instead (De Morgan pushdown).

use vstd::prelude::*;

use crate::error::Error;
use crate::ops::CompareOp;
use crate::ops::ConjunctionOp;
use crate::query::SpecTagName;
use crate::query::SpecTagQuery;
use crate::query::TagName;
use crate::query::TagQuery;
use crate::query::lemma_tag_query_views_props;
use crate::query::spec_str_views;
use crate::query::spec_tag_query_views;

verus! {

/// The protocol a target encoder supplies to the compiler.
///
/// An encoder renders names and values into its argument form `Arg` and
/// combines them into clauses of type `Clause`. Each operation may mutate
/// the encoder (for example a parameter counter) and may fail; a failure
/// aborts the whole compilation and reaches the caller verbatim. Each
/// implementation models its operations with the `spec_` functions, so the
/// compiler's output is a deterministic function of the encoder state and
/// the query tree.
///
/// `Arg` values are only ever consumed by the `encode_*_clause` calls of the
/// same compilation; the compiler never stores them across calls.
pub trait TagQueryEncoder: Sized {
    type Arg;

    type Clause;

    /// The model of [`Self::encode_name`]: post-state and result from the
    /// pre-state and the classified name. An implementation written inside
    /// verified code overrides these models; one written outside leaves
    /// them at the unspecified default, and nothing is provable about it.
    open spec fn spec_encode_name(self, name: SpecTagName) -> (Self, Result<Self::Arg, Error>) {
        vstd::pervasive::arbitrary()
    }

    /// The model of [`Self::encode_value`].
    open spec fn spec_encode_value(self, value: Seq<char>, is_plaintext: bool) -> (
        Self,
        Result<Self::Arg, Error>,
    ) {
        vstd::pervasive::arbitrary()
    }

    /// The model of [`Self::encode_op_clause`].
    open spec fn spec_encode_op_clause(
        self,
        op: CompareOp,
        enc_name: Self::Arg,
        enc_value: Self::Arg,
        is_plaintext: bool,
    ) -> (Self, Result<Self::Clause, Error>) {
        vstd::pervasive::arbitrary()
    }

    /// The model of [`Self::encode_in_clause`].
    open spec fn spec_encode_in_clause(
        self,
        enc_name: Self::Arg,
        enc_values: Seq<Self::Arg>,
        is_plaintext: bool,
        negate: bool,
    ) -> (Self, Result<Self::Clause, Error>) {
        vstd::pervasive::arbitrary()
    }

    /// The model of [`Self::encode_conj_clause`].
    open spec fn spec_encode_conj_clause(self, op: ConjunctionOp, clauses: Seq<Self::Clause>) -> (
        Self,
        Result<Self::Clause, Error>,
    ) {
        vstd::pervasive::arbitrary()
    }

    /// Render a classified tag name into the encoder's argument form.
    fn encode_name(&mut self, name: &TagName) -> (r: Result<Self::Arg, Error>)
        ensures
            (*final(self), r) == old(self).spec_encode_name(name@),
    ;

    /// Render a literal value, given whether it targets the plaintext or the
    /// encrypted storage path.
    fn encode_value(&mut self, value: &String, is_plaintext: bool) -> (r: Result<Self::Arg, Error>)
        ensures
            (*final(self), r) == old(self).spec_encode_value(value@, is_plaintext),
    ;

    /// Produce a single comparison clause.
    fn encode_op_clause(
        &mut self,
        op: CompareOp,
        enc_name: Self::Arg,
        enc_value: Self::Arg,
        is_plaintext: bool,
    ) -> (r: Result<Self::Clause, Error>)
        ensures
            (*final(self), r) == old(self).spec_encode_op_clause(
                op,
                enc_name,
                enc_value,
                is_plaintext,
            ),
    ;

    /// Produce a membership clause; `negate` selects its negated form, which
    /// is not expressible as a single swapped comparison operator.
    fn encode_in_clause(
        &mut self,
        enc_name: Self::Arg,
        enc_values: Vec<Self::Arg>,
        is_plaintext: bool,
        negate: bool,
    ) -> (r: Result<Self::Clause, Error>)
        ensures
            (*final(self), r) == old(self).spec_encode_in_clause(
                enc_name,
                enc_values@,
                is_plaintext,
                negate,
            ),
    ;

    /// Combine zero or more child clauses, in order, under one conjunction
    /// kind. The compiler passes an empty sequence for an empty conjunction;
    /// the degenerate zero- and one-child cases are the encoder's decision
    /// and each implementation must document and test its choice.
    fn encode_conj_clause(&mut self, op: ConjunctionOp, clauses: Vec<Self::Clause>) -> (r: Result<
        Self::Clause,
        Error,
    >)
        ensures
            (*final(self), r) == old(self).spec_encode_conj_clause(op, clauses@),
    ;
}

/// Compilation of a comparison leaf: encode the name, then the value, then
/// materialize the operator clause, with the operator flipped exactly when
/// the polarity accumulator is set.
pub open spec fn spec_compile_op<E: TagQueryEncoder>(
    e: E,
    op: CompareOp,
    name: SpecTagName,
    value: Seq<char>,
    negate: bool,
) -> (E, Result<E::Clause, Error>) {
    let is_plaintext = name is Plaintext;
    let (e1, rn) = e.spec_encode_name(name);
    match rn {
        Err(err) => (e1, Err(err)),
        Ok(n) => {
            let (e2, rv) = e1.spec_encode_value(value, is_plaintext);
            match rv {
                Err(err) => (e2, Err(err)),
                Ok(v) => {
                    let op2 = if negate {
                        op.spec_negate()
                    } else {
                        op
                    };
                    e2.spec_encode_op_clause(op2, n, v, is_plaintext)
                },
            }
        },
    }
}

/// Compilation of a list of membership values, left to right, failing fast.
pub open spec fn spec_compile_values<E: TagQueryEncoder>(
    e: E,
    values: Seq<Seq<char>>,
    is_plaintext: bool,
) -> (E, Result<Seq<E::Arg>, Error>)
    decreases values.len(),
{
    if values.len() == 0 {
        (e, Ok(Seq::empty()))
    } else {
        let (e1, r0) = e.spec_encode_value(values[0], is_plaintext);
        match r0 {
            Err(err) => (e1, Err(err)),
            Ok(a) => {
                let (e2, rr) = spec_compile_values(e1, values.drop_first(), is_plaintext);
                match rr {
                    Err(err) => (e2, Err(err)),
                    Ok(rest) => (e2, Ok(seq![a] + rest)),
                }
            },
        }
    }
}

/// Compilation of a membership leaf: encode the name and every value, then
/// materialize the membership clause carrying the accumulator as its
/// `negate` flag.
pub open spec fn spec_compile_in<E: TagQueryEncoder>(
    e: E,
    name: SpecTagName,
    values: Seq<Seq<char>>,
    negate: bool,
) -> (E, Result<E::Clause, Error>) {
    let is_plaintext = name is Plaintext;
    let (e1, rn) = e.spec_encode_name(name);
    match rn {
        Err(err) => (e1, Err(err)),
        Ok(n) => {
            let (e2, rv) = spec_compile_values(e1, values, is_plaintext);
            match rv {
                Err(err) => (e2, Err(err)),
                Ok(vs) => e2.spec_encode_in_clause(n, vs, is_plaintext, negate),
            }
        },
    }
}

/// Compilation of a whole typed query at a given polarity: the encoder state
/// it leaves behind and the result it produces. `Not` emits nothing itself;
/// it compiles its subquery at the opposite polarity.
pub open spec fn spec_compile<E: TagQueryEncoder>(e: E, q: SpecTagQuery, negate: bool) -> (
    E,
    Result<E::Clause, Error>,
)
    decreases q, 2int,
{
    match q {
        SpecTagQuery::Eq(n, v) => spec_compile_op(e, CompareOp::Eq, n, v, negate),
        SpecTagQuery::Neq(n, v) => spec_compile_op(e, CompareOp::Neq, n, v, negate),
        SpecTagQuery::Gt(n, v) => spec_compile_op(e, CompareOp::Gt, n, v, negate),
        SpecTagQuery::Gte(n, v) => spec_compile_op(e, CompareOp::Gte, n, v, negate),
        SpecTagQuery::Lt(n, v) => spec_compile_op(e, CompareOp::Lt, n, v, negate),
        SpecTagQuery::Lte(n, v) => spec_compile_op(e, CompareOp::Lte, n, v, negate),
        SpecTagQuery::Like(n, v) => spec_compile_op(e, CompareOp::Like, n, v, negate),
        SpecTagQuery::In(n, vs) => spec_compile_in(e, n, vs, negate),
        SpecTagQuery::And(qs) => spec_compile_conj(e, ConjunctionOp::And, qs, negate),
        SpecTagQuery::Or(qs) => spec_compile_conj(e, ConjunctionOp::Or, qs, negate),
        SpecTagQuery::Not(sub) => spec_compile(e, *sub, !negate),
    }
}

/// Compilation of a conjunction node: the kind is flipped to its De Morgan
/// dual exactly when the accumulator is set, while the children are compiled
/// at the unchanged accumulator.
pub open spec fn spec_compile_conj<E: TagQueryEncoder>(
    e: E,
    op: ConjunctionOp,
    qs: Seq<SpecTagQuery>,
    negate: bool,
) -> (E, Result<E::Clause, Error>)
    decreases qs, 1int,
{
    let op2 = if negate {
        op.spec_negate()
    } else {
        op
    };
    let (e1, rcs) = spec_compile_list(e, qs, negate);
    match rcs {
        Err(err) => (e1, Err(err)),
        Ok(cs) => e1.spec_encode_conj_clause(op2, cs),
    }
}

/// Compilation of a list of subqueries, left to right, failing fast.
pub open spec fn spec_compile_list<E: TagQueryEncoder>(
    e: E,
    qs: Seq<SpecTagQuery>,
    negate: bool,
) -> (E, Result<Seq<E::Clause>, Error>)
    decreases qs, 0int,
{
    if qs.len() == 0 {
        (e, Ok(Seq::empty()))
    } else {
        let (e1, r0) = spec_compile(e, qs[0], negate);
        match r0 {
            Err(err) => (e1, Err(err)),
            Ok(c) => {
                let (e2, rr) = spec_compile_list(e1, qs.drop_first(), negate);
                match rr {
                    Err(err) => (e2, Err(err)),
                    Ok(cs) => (e2, Ok(seq![c] + cs)),
                }
            },
        }
    }
}

/// The conjunction node of kind `op` over `qs`.
pub open spec fn spec_conj_query(op: ConjunctionOp, qs: Seq<SpecTagQuery>) -> SpecTagQuery {
    match op {
        ConjunctionOp::And => SpecTagQuery::And(qs),
        ConjunctionOp::Or => SpecTagQuery::Or(qs),
    }
}

/// Each query of `qs` wrapped in one `Not`.
pub open spec fn spec_not_all(qs: Seq<SpecTagQuery>) -> Seq<SpecTagQuery> {
    Seq::new(qs.len(), |i: int| SpecTagQuery::Not(Box::new(qs[i])))
}

/// Double negation identity: for every encoder state and polarity, a query
/// wrapped in two `Not`s compiles to exactly the state and result of the
/// query itself.
pub proof fn lemma_double_negation<E: TagQueryEncoder>(e: E, q: SpecTagQuery, negate: bool)
    ensures
        spec_compile(e, SpecTagQuery::Not(Box::new(SpecTagQuery::Not(Box::new(q)))), negate)
            == spec_compile(e, q, negate),
{
    assert(spec_compile(e, SpecTagQuery::Not(Box::new(SpecTagQuery::Not(Box::new(q)))), negate)
        == spec_compile(e, SpecTagQuery::Not(Box::new(q)), !negate));
}

/// Compiling negated subqueries at one polarity is compiling the originals
/// at the opposite polarity.
proof fn lemma_compile_list_flip<E: TagQueryEncoder>(e: E, qs: Seq<SpecTagQuery>, negate: bool)
    ensures
        spec_compile_list(e, spec_not_all(qs), negate) == spec_compile_list(e, qs, !negate),
    decreases qs.len(),
{
    if qs.len() == 0 {
        assert(spec_not_all(qs) =~= Seq::<SpecTagQuery>::empty());
    } else {
        assert(spec_not_all(qs)[0] == SpecTagQuery::Not(Box::new(qs[0])));
        assert(spec_compile(e, SpecTagQuery::Not(Box::new(qs[0])), negate) == spec_compile(
            e,
            qs[0],
            !negate,
        ));
        let (e1, r0) = spec_compile(e, qs[0], !negate);
        assert(spec_not_all(qs).drop_first() =~= spec_not_all(qs.drop_first()));
        lemma_compile_list_flip(e1, qs.drop_first(), negate);
    }
}

/// De Morgan pushdown: for every encoder state and polarity, compiling
/// `Not` of a conjunction equals compiling the dual conjunction of the
/// negated children.
pub proof fn lemma_de_morgan<E: TagQueryEncoder>(
    e: E,
    op: ConjunctionOp,
    qs: Seq<SpecTagQuery>,
    negate: bool,
)
    ensures
        spec_compile(e, SpecTagQuery::Not(Box::new(spec_conj_query(op, qs))), negate)
            == spec_compile(e, spec_conj_query(op.spec_negate(), spec_not_all(qs)), negate),
{
    lemma_compile_list_flip(e, qs, negate);
    match op {
        ConjunctionOp::And => {
            assert(spec_compile(e, SpecTagQuery::Not(Box::new(SpecTagQuery::And(qs))), negate)
                == spec_compile(e, SpecTagQuery::And(qs), !negate));
            assert(spec_compile(e, SpecTagQuery::And(qs), !negate) == spec_compile_conj(
                e,
                ConjunctionOp::And,
                qs,
                !negate,
            ));
            assert(spec_compile(e, SpecTagQuery::Or(spec_not_all(qs)), negate)
                == spec_compile_conj(e, ConjunctionOp::Or, spec_not_all(qs), negate));
            assert(spec_compile_conj(e, ConjunctionOp::And, qs, !negate) == spec_compile_conj(
                e,
                ConjunctionOp::Or,
                spec_not_all(qs),
                negate,
            ));
        },
        ConjunctionOp::Or => {
            assert(spec_compile(e, SpecTagQuery::Not(Box::new(SpecTagQuery::Or(qs))), negate)
                == spec_compile(e, SpecTagQuery::Or(qs), !negate));
            assert(spec_compile(e, SpecTagQuery::Or(qs), !negate) == spec_compile_conj(
                e,
                ConjunctionOp::Or,
                qs,
                !negate,
            ));
            assert(spec_compile(e, SpecTagQuery::And(spec_not_all(qs)), negate)
                == spec_compile_conj(e, ConjunctionOp::And, spec_not_all(qs), negate));
            assert(spec_compile_conj(e, ConjunctionOp::Or, qs, !negate) == spec_compile_conj(
                e,
                ConjunctionOp::And,
                spec_not_all(qs),
                negate,
            ));
        },
    }
}

/// De Morgan on a two-element conjunction: `Not(And([a, b]))` compiles as
/// `Or([Not(a), Not(b)])`, and dually for `Or`.
pub proof fn lemma_de_morgan_pair<E: TagQueryEncoder>(
    e: E,
    op: ConjunctionOp,
    a: SpecTagQuery,
    b: SpecTagQuery,
)
    ensures
        spec_compile(e, SpecTagQuery::Not(Box::new(spec_conj_query(op, seq![a, b]))), false)
            == spec_compile(
            e,
            spec_conj_query(
                op.spec_negate(),
                seq![
                    SpecTagQuery::Not(Box::new(a)),
                    SpecTagQuery::Not(Box::new(b)),
                ],
            ),
            false,
        ),
{
    lemma_de_morgan(e, op, seq![a, b], false);
    assert(spec_not_all(seq![a, b]) =~= seq![
        SpecTagQuery::Not(Box::new(a)),
        SpecTagQuery::Not(Box::new(b)),
    ]);
}

impl TagQuery {
    /// Compile this query by driving `enc` in a single left-to-right,
    /// depth-first pass; negation is pushed down to the leaves, so the
    /// encoder never sees a `Not`. The result, and the encoder state left
    /// behind, are exactly those of [`spec_compile`] at negative polarity
    /// off; any encoder failure is returned verbatim.
    pub fn encode<V, E>(&self, enc: &mut E) -> (r: Result<V, Error>) where E: TagQueryEncoder<
        Clause = V,
    >
        ensures
            (*final(enc), r) == spec_compile(*old(enc), self@, false),
    {
        encode_tag_query(self, enc, false)
    }
}

/// Compile one query node at the polarity `negate`.
fn encode_tag_query<V, E>(query: &TagQuery, enc: &mut E, negate: bool) -> (r: Result<
    V,
    Error,
>) where E: TagQueryEncoder<Clause = V>
    ensures
        (*final(enc), r) == spec_compile(*old(enc), query@, negate),
    decreases *query, 1int,
{
    match query {
        TagQuery::Eq(name, value) => encode_tag_op(CompareOp::Eq, name, value, enc, negate),
        TagQuery::Neq(name, value) => encode_tag_op(CompareOp::Neq, name, value, enc, negate),
        TagQuery::Gt(name, value) => encode_tag_op(CompareOp::Gt, name, value, enc, negate),
        TagQuery::Gte(name, value) => encode_tag_op(CompareOp::Gte, name, value, enc, negate),
        TagQuery::Lt(name, value) => encode_tag_op(CompareOp::Lt, name, value, enc, negate),
        TagQuery::Lte(name, value) => encode_tag_op(CompareOp::Lte, name, value, enc, negate),
        TagQuery::Like(name, value) => encode_tag_op(CompareOp::Like, name, value, enc, negate),
        TagQuery::In(name, values) => encode_tag_in(name, values, enc, negate),
        TagQuery::And(subqueries) => encode_tag_conj(ConjunctionOp::And, subqueries, enc, negate),
        TagQuery::Or(subqueries) => encode_tag_conj(ConjunctionOp::Or, subqueries, enc, negate),
        TagQuery::Not(subquery) => encode_tag_query(&*subquery, enc, !negate),
    }
}

/// Compile a comparison leaf.
fn encode_tag_op<V, E>(
    op: CompareOp,
    name: &TagName,
    value: &String,
    enc: &mut E,
    negate: bool,
) -> (r: Result<V, Error>) where E: TagQueryEncoder<Clause = V>
    ensures
        (*final(enc), r) == spec_compile_op(*old(enc), op, name@, value@, negate),
{
    let is_plaintext = match name {
        TagName::Plaintext(_) => true,
        _ => false,
    };
    let enc_name = match enc.encode_name(name) {
        Ok(a) => a,
        Err(err) => {
            return Err(err);
        },
    };
    let enc_value = match enc.encode_value(value, is_plaintext) {
        Ok(a) => a,
        Err(err) => {
            return Err(err);
        },
    };
    let op = if negate {
        op.negate()
    } else {
        op
    };
    enc.encode_op_clause(op, enc_name, enc_value, is_plaintext)
}

/// Compile a membership leaf.
#[verifier::loop_isolation(false)]
fn encode_tag_in<V, E>(
    name: &TagName,
    values: &Vec<String>,
    enc: &mut E,
    negate: bool,
) -> (r: Result<V, Error>) where E: TagQueryEncoder<Clause = V>
    ensures
        (*final(enc), r) == spec_compile_in(*old(enc), name@, spec_str_views(values@), negate),
{
    let is_plaintext = match name {
        TagName::Plaintext(_) => true,
        _ => false,
    };
    let enc_name = match enc.encode_name(name) {
        Ok(a) => a,
        Err(err) => {
            return Err(err);
        },
    };
    let ghost e0 = *enc;
    let ghost vs = spec_str_views(values@);
    let mut enc_values: Vec<E::Arg> = Vec::new();
    let mut i: usize = 0;
    proof {
        assert(vs.skip(0) =~= vs);
        let (ef, rr) = spec_compile_values(e0, vs, is_plaintext);
        if rr is Ok {
            assert(Seq::<E::Arg>::empty() + rr->Ok_0 =~= rr->Ok_0);
        }
    }
    while i < values.len()
        invariant
            i <= values.len(),
            vs == spec_str_views(values@),
            ({
                let (ef, rr) = spec_compile_values(*enc, vs.skip(i as int), is_plaintext);
                spec_compile_values(e0, vs, is_plaintext) == (match rr {
                    Err(err) => (ef, Err::<Seq<E::Arg>, Error>(err)),
                    Ok(rest) => (ef, Ok(enc_values@ + rest)),
                })
            }),
        decreases values.len() - i,
    {
        let ghost pre = *enc;
        let rv = enc.encode_value(&values[i], is_plaintext);
        proof {
            assert(vs.skip(i as int)[0] == vs[i as int]);
            assert(vs[i as int] == values@[i as int]@);
            assert(vs.skip(i as int).drop_first() =~= vs.skip(i as int + 1));
        }
        match rv {
            Ok(a) => {
                proof {
                    let (ef, rr) = spec_compile_values(*enc, vs.skip(i as int + 1), is_plaintext);
                    if rr is Ok {
                        assert(enc_values@ + (seq![a] + rr->Ok_0) =~= enc_values@.push(a)
                            + rr->Ok_0);
                    }
                }
                enc_values.push(a);
                i += 1;
            },
            Err(err) => {
                proof {
                    assert(spec_compile_values(pre, vs.skip(i as int), is_plaintext) == (
                        *enc,
                        Err::<Seq<E::Arg>, Error>(err),
                    ));
                }
                return Err(err);
            },
        }
    }
    proof {
        assert(vs.skip(i as int) =~= Seq::<Seq<char>>::empty());
        assert(enc_values@ + Seq::<E::Arg>::empty() =~= enc_values@);
    }
    enc.encode_in_clause(enc_name, enc_values, is_plaintext, negate)
}

/// Compile a conjunction node.
#[verifier::loop_isolation(false)]
fn encode_tag_conj<V, E>(
    op: ConjunctionOp,
    subqueries: &Vec<TagQuery>,
    enc: &mut E,
    negate: bool,
) -> (r: Result<V, Error>) where E: TagQueryEncoder<Clause = V>
    ensures
        (*final(enc), r) == spec_compile_conj(
            *old(enc),
            op,
            spec_tag_query_views(subqueries@),
            negate,
        ),
    decreases subqueries@, 0int,
{
    let op2 = if negate {
        op.negate()
    } else {
        op
    };
    let ghost e0 = *enc;
    let ghost vs = spec_tag_query_views(subqueries@);
    proof {
        lemma_tag_query_views_props(subqueries@);
    }
    let mut clauses: Vec<V> = Vec::new();
    let mut i: usize = 0;
    proof {
        assert(vs.skip(0) =~= vs);
        let (ef, rr) = spec_compile_list(e0, vs, negate);
        if rr is Ok {
            assert(Seq::<V>::empty() + rr->Ok_0 =~= rr->Ok_0);
        }
    }
    while i < subqueries.len()
        invariant
            i <= subqueries.len(),
            vs == spec_tag_query_views(subqueries@),
            vs.len() == subqueries@.len(),
            forall|j: int| 0 <= j < subqueries@.len() ==> #[trigger] vs[j] == subqueries@[j]@,
            ({
                let (ef, rr) = spec_compile_list(*enc, vs.skip(i as int), negate);
                spec_compile_list(e0, vs, negate) == (match rr {
                    Err(err) => (ef, Err::<Seq<V>, Error>(err)),
                    Ok(rest) => (ef, Ok(clauses@ + rest)),
                })
            }),
        decreases subqueries.len() - i,
    {
        let ghost pre = *enc;
        let rc = encode_tag_query(&subqueries[i], enc, negate);
        proof {
            assert(vs.skip(i as int)[0] == vs[i as int]);
            assert(vs.skip(i as int).drop_first() =~= vs.skip(i as int + 1));
        }
        match rc {
            Ok(c) => {
                proof {
                    let (ef, rr) = spec_compile_list(*enc, vs.skip(i as int + 1), negate);
                    if rr is Ok {
                        assert(clauses@ + (seq![c] + rr->Ok_0) =~= clauses@.push(c) + rr->Ok_0);
                    }
                }
                clauses.push(c);
                i += 1;
            },
            Err(err) => {
                proof {
                    assert(spec_compile_list(pre, vs.skip(i as int), negate) == (
                        *enc,
                        Err::<Seq<V>, Error>(err),
                    ));
                }
                return Err(err);
            },
        }
    }
    proof {
        assert(vs.skip(i as int) =~= Seq::<SpecTagQuery>::empty());
        assert(clauses@ + Seq::<V>::empty() =~= clauses@);
    }
    enc.encode_conj_clause(op2, clauses)
}

} // verus!
