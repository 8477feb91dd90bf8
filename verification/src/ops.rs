//! The closed operator sets of the query language: comparison operators for
//! leaf clauses and conjunction operators for composite clauses, each with a
//! canonical textual symbol and an involutive negation.

use vstd::prelude::*;

verus! {

/// A comparison operator appearing at a leaf of a tag query.
#[derive(Clone, Copy, Debug, PartialEq, Eq)]
pub enum CompareOp {
    Eq,
    Neq,
    Gt,
    Gte,
    Lt,
    Lte,
    Like,
    NotLike,
}

impl CompareOp {
    /// The canonical textual symbol of this operator.
    pub open spec fn spec_sql_str(self) -> Seq<char> {
        match self {
            CompareOp::Eq => "="@,
            CompareOp::Neq => "!="@,
            CompareOp::Gt => ">"@,
            CompareOp::Gte => ">="@,
            CompareOp::Lt => "<"@,
            CompareOp::Lte => "<="@,
            CompareOp::Like => "LIKE"@,
            CompareOp::NotLike => "NOT LIKE"@,
        }
    }

    /// The logical negation of this operator.
    pub open spec fn spec_negate(self) -> Self {
        match self {
            CompareOp::Eq => CompareOp::Neq,
            CompareOp::Neq => CompareOp::Eq,
            CompareOp::Gt => CompareOp::Lte,
            CompareOp::Gte => CompareOp::Lt,
            CompareOp::Lt => CompareOp::Gte,
            CompareOp::Lte => CompareOp::Gt,
            CompareOp::Like => CompareOp::NotLike,
            CompareOp::NotLike => CompareOp::Like,
        }
    }

    /// Render this operator as its canonical textual symbol.
    pub fn as_sql_str(&self) -> (r: &'static str)
        ensures
            r@ == self.spec_sql_str(),
    {
        match self {
            CompareOp::Eq => "=",
            CompareOp::Neq => "!=",
            CompareOp::Gt => ">",
            CompareOp::Gte => ">=",
            CompareOp::Lt => "<",
            CompareOp::Lte => "<=",
            CompareOp::Like => "LIKE",
            CompareOp::NotLike => "NOT LIKE",
        }
    }

    /// Return the operator that holds exactly when this one does not.
    pub fn negate(&self) -> (r: Self)
        ensures
            r == self.spec_negate(),
    {
        match self {
            CompareOp::Eq => CompareOp::Neq,
            CompareOp::Neq => CompareOp::Eq,
            CompareOp::Gt => CompareOp::Lte,
            CompareOp::Gte => CompareOp::Lt,
            CompareOp::Lt => CompareOp::Gte,
            CompareOp::Lte => CompareOp::Gt,
            CompareOp::Like => CompareOp::NotLike,
            CompareOp::NotLike => CompareOp::Like,
        }
    }
}

/// Negating a comparison operator twice yields the original operator.
pub proof fn lemma_compare_op_negate_involutive(op: CompareOp)
    ensures
        op.spec_negate().spec_negate() == op,
{
}

/// A conjunction operator combining a sequence of subclauses.
#[derive(Clone, Copy, Debug, PartialEq, Eq)]
pub enum ConjunctionOp {
    And,
    Or,
}

impl ConjunctionOp {
    /// The canonical textual joiner of this conjunction.
    pub open spec fn spec_sql_str(self) -> Seq<char> {
        match self {
            ConjunctionOp::And => " AND "@,
            ConjunctionOp::Or => " OR "@,
        }
    }

    /// The De Morgan dual of this conjunction.
    pub open spec fn spec_negate(self) -> Self {
        match self {
            ConjunctionOp::And => ConjunctionOp::Or,
            ConjunctionOp::Or => ConjunctionOp::And,
        }
    }

    /// Render this conjunction as its canonical textual joiner.
    pub fn as_sql_str(&self) -> (r: &'static str)
        ensures
            r@ == self.spec_sql_str(),
    {
        match self {
            ConjunctionOp::And => " AND ",
            ConjunctionOp::Or => " OR ",
        }
    }

    /// Return the De Morgan dual of this conjunction.
    pub fn negate(&self) -> (r: Self)
        ensures
            r == self.spec_negate(),
    {
        match self {
            ConjunctionOp::And => ConjunctionOp::Or,
            ConjunctionOp::Or => ConjunctionOp::And,
        }
    }
}

/// Negating a conjunction operator twice yields the original operator.
pub proof fn lemma_conjunction_op_negate_involutive(op: ConjunctionOp)
    ensures
        op.spec_negate().spec_negate() == op,
{
}

} // verus!
