use wql::compile::TagQueryEncoder;
use wql::error::Error;
use wql::ops::CompareOp;
use wql::ops::ConjunctionOp;
use wql::query::classify;
use wql::query::Query;
use wql::query::TagName;
use wql::query::TagQuery;

/// A reference textual encoder: names render in raw form, values as
/// themselves, clauses as SQL-like text. An empty conjunction renders as
/// `()`.
struct TestEncoder {}

fn join(parts: &[String], sep: &str) -> String {
    let mut r = String::new();
    for (i, p) in parts.iter().enumerate() {
        if i > 0 {
            r.push_str(sep);
        }
        r.push_str(p);
    }
    r
}

impl TagQueryEncoder for TestEncoder {
    type Arg = String;
    type Clause = String;

    fn encode_name(&mut self, name: &TagName) -> Result<String, Error> {
        Ok(name.to_string())
    }

    fn encode_value(&mut self, value: &String, _is_plaintext: bool) -> Result<String, Error> {
        Ok(value.clone())
    }

    fn encode_op_clause(
        &mut self,
        op: CompareOp,
        name: String,
        value: String,
        _is_plaintext: bool,
    ) -> Result<String, Error> {
        Ok(format!("{} {} {}", name, op.as_sql_str(), value))
    }

    fn encode_in_clause(
        &mut self,
        name: String,
        values: Vec<String>,
        _is_plaintext: bool,
        negate: bool,
    ) -> Result<String, Error> {
        let op = if negate { "NOT IN " } else { "IN" };
        let value = join(&values, ", ");
        Ok(format!("{} {} ({})", name, op, value))
    }

    fn encode_conj_clause(
        &mut self,
        op: ConjunctionOp,
        clauses: Vec<String>,
    ) -> Result<String, Error> {
        let mut r = String::new();
        r.push_str("(");
        r.push_str(&join(&clauses, op.as_sql_str()));
        r.push_str(")");
        Ok(r)
    }
}

/// An encoder that fails on every value, to observe error propagation.
struct FailingEncoder {}

impl TagQueryEncoder for FailingEncoder {
    type Arg = String;
    type Clause = String;

    fn encode_name(&mut self, name: &TagName) -> Result<String, Error> {
        Ok(name.to_string())
    }

    fn encode_value(&mut self, _value: &String, _is_plaintext: bool) -> Result<String, Error> {
        Err(Error::Encoding("no values here".to_string()))
    }

    fn encode_op_clause(
        &mut self,
        _op: CompareOp,
        _name: String,
        _value: String,
        _is_plaintext: bool,
    ) -> Result<String, Error> {
        Ok(String::new())
    }

    fn encode_in_clause(
        &mut self,
        _name: String,
        _values: Vec<String>,
        _is_plaintext: bool,
        _negate: bool,
    ) -> Result<String, Error> {
        Ok(String::new())
    }

    fn encode_conj_clause(
        &mut self,
        _op: ConjunctionOp,
        _clauses: Vec<String>,
    ) -> Result<String, Error> {
        Ok(String::new())
    }
}

#[test]
fn test_from_query() {
    let query = Query::And(vec![
        Query::Eq("enctag".to_string(), "encval".to_string()),
        Query::Eq("~plaintag".to_string(), "plainval".to_string()),
    ]);
    let result = TagQuery::from_query(query).unwrap();
    assert_eq!(
        result,
        TagQuery::And(vec![
            TagQuery::Eq(
                TagName::Encrypted("enctag".to_string()),
                "encval".to_string(),
            ),
            TagQuery::Eq(
                TagName::Plaintext("plaintag".to_string()),
                "plainval".to_string(),
            ),
        ])
    );
}

#[test]
fn test_serialize() {
    let query = TagQuery::And(vec![
        TagQuery::Eq(
            TagName::Encrypted("enctag".to_string()),
            "encval".to_string(),
        ),
        TagQuery::Eq(
            TagName::Plaintext("plaintag".to_string()),
            "plainval".to_string(),
        ),
    ]);
    let result = query.to_json();
    assert_eq!(
        result,
        r#"{"$and":[{"enctag":"encval"},{"~plaintag":"plainval"}]}"#
    );
}

#[test]
fn test_simple_and() {
    let condition_1 = TagQuery::And(vec![
        TagQuery::Eq(
            TagName::Encrypted("enctag".to_string()),
            "encval".to_string(),
        ),
        TagQuery::Eq(
            TagName::Plaintext("plaintag".to_string()),
            "plainval".to_string(),
        ),
    ]);
    let condition_2 = TagQuery::And(vec![
        TagQuery::Eq(
            TagName::Encrypted("enctag".to_string()),
            "encval".to_string(),
        ),
        TagQuery::Not(Box::new(TagQuery::Eq(
            TagName::Plaintext("plaintag".to_string()),
            "eggs".to_string(),
        ))),
    ]);
    let query = TagQuery::Or(vec![condition_1, condition_2]);
    let mut enc = TestEncoder {};
    let query_str = query.encode(&mut enc).unwrap();
    assert_eq!(query_str, "((enctag = encval AND ~plaintag = plainval) OR (enctag = encval AND ~plaintag != eggs))")
}

#[test]
fn test_negate_conj() {
    let condition_1 = TagQuery::And(vec![
        TagQuery::Eq(
            TagName::Encrypted("enctag".to_string()),
            "encval".to_string(),
        ),
        TagQuery::Eq(
            TagName::Plaintext("plaintag".to_string()),
            "plainval".to_string(),
        ),
    ]);
    let condition_2 = TagQuery::And(vec![
        TagQuery::Eq(
            TagName::Encrypted("enctag".to_string()),
            "encval".to_string(),
        ),
        TagQuery::Not(Box::new(TagQuery::Eq(
            TagName::Plaintext("plaintag".to_string()),
            "eggs".to_string(),
        ))),
    ]);
    let query = TagQuery::Not(Box::new(TagQuery::Or(vec![condition_1, condition_2])));
    let mut enc = TestEncoder {};
    let query_str = query.encode(&mut enc).unwrap();
    assert_eq!(query_str, "((enctag != encval OR ~plaintag != plainval) AND (enctag != encval OR ~plaintag = eggs))")
}

#[test]
fn test_classify_round_trip() {
    for key in ["enctag", "~plaintag", "", "~", "~~double", "mid~sigil"] {
        assert_eq!(classify(key).to_string(), key);
    }
}

#[test]
fn test_classify_variants() {
    assert_eq!(
        classify("~plaintag"),
        TagName::Plaintext("plaintag".to_string())
    );
    assert_eq!(classify("enctag"), TagName::Encrypted("enctag".to_string()));
    assert_eq!(classify(""), TagName::Encrypted("".to_string()));
    assert_eq!(classify("~"), TagName::Plaintext("".to_string()));
}

#[test]
fn test_compare_op_negate_involution() {
    let ops = [
        CompareOp::Eq,
        CompareOp::Neq,
        CompareOp::Gt,
        CompareOp::Gte,
        CompareOp::Lt,
        CompareOp::Lte,
        CompareOp::Like,
        CompareOp::NotLike,
    ];
    for op in ops {
        assert_eq!(op.negate().negate(), op);
    }
    assert_eq!(CompareOp::Eq.negate(), CompareOp::Neq);
    assert_eq!(CompareOp::Gt.negate(), CompareOp::Lte);
    assert_eq!(CompareOp::Gte.negate(), CompareOp::Lt);
    assert_eq!(CompareOp::Like.negate(), CompareOp::NotLike);
}

#[test]
fn test_compare_op_sql_str() {
    assert_eq!(CompareOp::Eq.as_sql_str(), "=");
    assert_eq!(CompareOp::Neq.as_sql_str(), "!=");
    assert_eq!(CompareOp::Gt.as_sql_str(), ">");
    assert_eq!(CompareOp::Gte.as_sql_str(), ">=");
    assert_eq!(CompareOp::Lt.as_sql_str(), "<");
    assert_eq!(CompareOp::Lte.as_sql_str(), "<=");
    assert_eq!(CompareOp::Like.as_sql_str(), "LIKE");
    assert_eq!(CompareOp::NotLike.as_sql_str(), "NOT LIKE");
}

#[test]
fn test_conjunction_op_negate_involution() {
    assert_eq!(ConjunctionOp::And.negate().negate(), ConjunctionOp::And);
    assert_eq!(ConjunctionOp::Or.negate().negate(), ConjunctionOp::Or);
    assert_eq!(ConjunctionOp::And.negate(), ConjunctionOp::Or);
    assert_eq!(ConjunctionOp::Or.negate(), ConjunctionOp::And);
    assert_eq!(ConjunctionOp::And.as_sql_str(), " AND ");
    assert_eq!(ConjunctionOp::Or.as_sql_str(), " OR ");
}

fn sample_tree() -> TagQuery {
    TagQuery::Or(vec![
        TagQuery::Eq(TagName::Encrypted("a".to_string()), "1".to_string()),
        TagQuery::And(vec![
            TagQuery::Gt(TagName::Plaintext("b".to_string()), "2".to_string()),
            TagQuery::Not(Box::new(TagQuery::Like(
                TagName::Plaintext("c".to_string()),
                "3%".to_string(),
            ))),
        ]),
    ])
}

#[test]
fn test_double_negation_identity() {
    let plain = sample_tree().encode(&mut TestEncoder {}).unwrap();
    let doubled = TagQuery::Not(Box::new(TagQuery::Not(Box::new(sample_tree()))))
        .encode(&mut TestEncoder {})
        .unwrap();
    assert_eq!(plain, doubled);
}

#[test]
fn test_de_morgan_pushdown() {
    let a = TagQuery::Eq(TagName::Encrypted("a".to_string()), "1".to_string());
    let b = TagQuery::Lt(TagName::Plaintext("b".to_string()), "2".to_string());
    let not_and = TagQuery::Not(Box::new(TagQuery::And(vec![a, b])));
    let a2 = TagQuery::Eq(TagName::Encrypted("a".to_string()), "1".to_string());
    let b2 = TagQuery::Lt(TagName::Plaintext("b".to_string()), "2".to_string());
    let or_nots = TagQuery::Or(vec![
        TagQuery::Not(Box::new(a2)),
        TagQuery::Not(Box::new(b2)),
    ]);
    let left = not_and.encode(&mut TestEncoder {}).unwrap();
    let right = or_nots.encode(&mut TestEncoder {}).unwrap();
    assert_eq!(left, right);
    assert_eq!(left, "(a != 1 OR ~b >= 2)");

    let c = TagQuery::Neq(TagName::Encrypted("c".to_string()), "3".to_string());
    let d = TagQuery::Gte(TagName::Plaintext("d".to_string()), "4".to_string());
    let not_or = TagQuery::Not(Box::new(TagQuery::Or(vec![c, d])));
    let c2 = TagQuery::Neq(TagName::Encrypted("c".to_string()), "3".to_string());
    let d2 = TagQuery::Gte(TagName::Plaintext("d".to_string()), "4".to_string());
    let and_nots = TagQuery::And(vec![
        TagQuery::Not(Box::new(c2)),
        TagQuery::Not(Box::new(d2)),
    ]);
    let left = not_or.encode(&mut TestEncoder {}).unwrap();
    let right = and_nots.encode(&mut TestEncoder {}).unwrap();
    assert_eq!(left, right);
    assert_eq!(left, "(c = 3 AND ~d < 4)");
}

#[test]
fn test_empty_conjunctions() {
    // The compiler hands the encoder an empty clause list; this encoder
    // renders it as an empty pair of parentheses.
    let empty_and = TagQuery::And(vec![]).encode(&mut TestEncoder {}).unwrap();
    assert_eq!(empty_and, "()");
    let empty_or = TagQuery::Or(vec![]).encode(&mut TestEncoder {}).unwrap();
    assert_eq!(empty_or, "()");
    let negated = TagQuery::Not(Box::new(TagQuery::And(vec![])))
        .encode(&mut TestEncoder {})
        .unwrap();
    assert_eq!(negated, "()");
}

#[test]
fn test_in_clause() {
    let query = TagQuery::In(
        TagName::Plaintext("color".to_string()),
        vec!["red".to_string(), "blue".to_string()],
    );
    let s = query.encode(&mut TestEncoder {}).unwrap();
    assert_eq!(s, "~color IN (red, blue)");
    let negated = TagQuery::Not(Box::new(TagQuery::In(
        TagName::Plaintext("color".to_string()),
        vec!["red".to_string(), "blue".to_string()],
    )));
    let s = negated.encode(&mut TestEncoder {}).unwrap();
    assert_eq!(s, "~color NOT IN  (red, blue)");
}

#[test]
fn test_encoding_error_propagates() {
    let query = TagQuery::And(vec![TagQuery::Eq(
        TagName::Encrypted("a".to_string()),
        "1".to_string(),
    )]);
    let result = query.encode(&mut FailingEncoder {});
    assert_eq!(result, Err(Error::Encoding("no values here".to_string())));
}

#[test]
fn test_from_query_nested() {
    let query = Query::Not(Box::new(Query::Or(vec![
        Query::In(
            "~color".to_string(),
            vec!["red".to_string(), "blue".to_string()],
        ),
        Query::Lte("size".to_string(), "10".to_string()),
    ])));
    let result = TagQuery::from_query(query).unwrap();
    assert_eq!(
        result,
        TagQuery::Not(Box::new(TagQuery::Or(vec![
            TagQuery::In(
                TagName::Plaintext("color".to_string()),
                vec!["red".to_string(), "blue".to_string()],
            ),
            TagQuery::Lte(TagName::Encrypted("size".to_string()), "10".to_string()),
        ])))
    );
}

#[test]
fn test_validate_is_permissive() {
    // Ordering comparisons on encrypted tags are accepted today; this is the
    // documented compatibility decision.
    let query = TagQuery::Gt(TagName::Encrypted("enctag".to_string()), "5".to_string());
    assert_eq!(query.validate(), Ok(()));
}

#[test]
fn test_serialize_operator_forms() {
    let n = || TagName::Encrypted("k".to_string());
    let v = || "v".to_string();
    assert_eq!(TagQuery::Eq(n(), v()).to_json(), r#"{"k":"v"}"#);
    assert_eq!(TagQuery::Neq(n(), v()).to_json(), r#"{"k":{"$neq":"v"}}"#);
    assert_eq!(TagQuery::Gt(n(), v()).to_json(), r#"{"k":{"$gt":"v"}}"#);
    assert_eq!(TagQuery::Gte(n(), v()).to_json(), r#"{"k":{"$gte":"v"}}"#);
    assert_eq!(TagQuery::Lt(n(), v()).to_json(), r#"{"k":{"$lt":"v"}}"#);
    assert_eq!(TagQuery::Lte(n(), v()).to_json(), r#"{"k":{"$lte":"v"}}"#);
    assert_eq!(TagQuery::Like(n(), v()).to_json(), r#"{"k":{"$like":"v"}}"#);
    assert_eq!(
        TagQuery::In(
            TagName::Plaintext("k".to_string()),
            vec!["a".to_string(), "b".to_string()]
        )
        .to_json(),
        r#"{"~k":{"$in":["a","b"]}}"#
    );
    assert_eq!(
        TagQuery::Not(Box::new(TagQuery::Eq(n(), v()))).to_json(),
        r#"{"$not":{"k":"v"}}"#
    );
    assert_eq!(TagQuery::Or(vec![]).to_json(), r#"{"$or":[]}"#);
    assert_eq!(TagQuery::And(vec![]).to_json(), r#"{"$and":[]}"#);
}

#[test]
fn test_serialize_escapes() {
    let query = TagQuery::Eq(
        TagName::Encrypted("quo\"te".to_string()),
        "back\\slash\nnewline\ttab\u{1f}unit".to_string(),
    );
    assert_eq!(
        query.to_json(),
        "{\"quo\\\"te\":\"back\\\\slash\\nnewline\\ttab\\u001funit\"}"
    );
}
