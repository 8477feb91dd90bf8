//! Canonical textual serialization of typed queries, for interoperability
//! with the external parser that produces untyped trees.
//!
//! The canonical form is a small JSON object grammar: an equality leaf
//! `Eq(name, value)` is `{"name":"value"}` with the name in raw form (so a
//! plaintext tag regains its `~` sigil); the other comparisons wrap the
//! value in an operator object, `{"name":{"$neq":"value"}}` and likewise
//! `$gt`, `$gte`, `$lt`, `$lte`, `$like`; a membership leaf is
//! `{"name":{"$in":["v1","v2"]}}`; conjunctions are `{"$and":[...]}` and
//! `{"$or":[...]}`; negation is `{"$not":{...}}`. Strings are quoted with
//! `\"` and `\\` escapes, the short escapes `\b`, `\t`, `\n`, `\f`, `\r`,
//! and lowercase `\u00..` forms for the remaining control characters.

use vstd::prelude::*;
use vstd::string::StrSliceExecFns;

use crate::query::SpecTagName;
use crate::query::SpecTagQuery;
use crate::query::TagName;
use crate::query::TagQuery;
use crate::query::lemma_tag_query_views_props;
use crate::query::spec_raw;
use crate::query::spec_str_views;
use crate::query::spec_tag_query_views;

verus! {

/// The lowercase hexadecimal digit of a value below sixteen.
pub open spec fn spec_hex_digit(n: int) -> char {
    if n == 0 {
        '0'
    } else if n == 1 {
        '1'
    } else if n == 2 {
        '2'
    } else if n == 3 {
        '3'
    } else if n == 4 {
        '4'
    } else if n == 5 {
        '5'
    } else if n == 6 {
        '6'
    } else if n == 7 {
        '7'
    } else if n == 8 {
        '8'
    } else if n == 9 {
        '9'
    } else if n == 10 {
        'a'
    } else if n == 11 {
        'b'
    } else if n == 12 {
        'c'
    } else if n == 13 {
        'd'
    } else if n == 14 {
        'e'
    } else {
        'f'
    }
}

/// The escape of one character inside a quoted string.
pub open spec fn spec_escape_char(c: char) -> Seq<char> {
    if c == '"' {
        seq!['\\', '"']
    } else if c == '\\' {
        seq!['\\', '\\']
    } else if c == '\u{8}' {
        seq!['\\', 'b']
    } else if c == '\t' {
        seq!['\\', 't']
    } else if c == '\n' {
        seq!['\\', 'n']
    } else if c == '\u{c}' {
        seq!['\\', 'f']
    } else if c == '\r' {
        seq!['\\', 'r']
    } else if (c as u32) < 32 {
        seq![
            '\\',
            'u',
            '0',
            '0',
            spec_hex_digit(c as u32 as int / 16),
            spec_hex_digit(c as u32 as int % 16),
        ]
    } else {
        seq![c]
    }
}

/// The escape of a whole string, character by character.
pub open spec fn spec_escape(s: Seq<char>) -> Seq<char>
    decreases s.len(),
{
    if s.len() == 0 {
        Seq::empty()
    } else {
        spec_escape(s.drop_last()) + spec_escape_char(s.last())
    }
}

/// A string in quoted, escaped form.
pub open spec fn spec_quoted(s: Seq<char>) -> Seq<char> {
    seq!['"'] + spec_escape(s) + seq!['"']
}

/// A non-equality comparison leaf in canonical form: the raw name mapped to
/// an operator object.
pub open spec fn spec_serialize_cmp(op_key: Seq<char>, n: SpecTagName, v: Seq<char>) -> Seq<
    char,
> {
    seq!['{'] + spec_quoted(spec_raw(n)) + seq![':', '{', '"'] + op_key + seq!['"', ':']
        + spec_quoted(v) + seq!['}', '}']
}

/// The canonical textual form of a typed query.
pub open spec fn spec_serialize(q: SpecTagQuery) -> Seq<char>
    decreases q, 1int,
{
    match q {
        SpecTagQuery::Eq(n, v) => seq!['{'] + spec_quoted(spec_raw(n)) + seq![':'] + spec_quoted(v)
            + seq!['}'],
        SpecTagQuery::Neq(n, v) => spec_serialize_cmp("$neq"@, n, v),
        SpecTagQuery::Gt(n, v) => spec_serialize_cmp("$gt"@, n, v),
        SpecTagQuery::Gte(n, v) => spec_serialize_cmp("$gte"@, n, v),
        SpecTagQuery::Lt(n, v) => spec_serialize_cmp("$lt"@, n, v),
        SpecTagQuery::Lte(n, v) => spec_serialize_cmp("$lte"@, n, v),
        SpecTagQuery::Like(n, v) => spec_serialize_cmp("$like"@, n, v),
        SpecTagQuery::In(n, vs) => seq!['{'] + spec_quoted(spec_raw(n)) + (":{\"$in\":["@)
            + spec_serialize_values(vs) + ("]}}"@),
        SpecTagQuery::And(qs) => ("{\"$and\":["@) + spec_serialize_list(qs) + ("]}"@),
        SpecTagQuery::Or(qs) => ("{\"$or\":["@) + spec_serialize_list(qs) + ("]}"@),
        SpecTagQuery::Not(sub) => ("{\"$not\":"@) + spec_serialize(*sub) + seq!['}'],
    }
}

/// Subqueries in canonical form, joined by commas.
pub open spec fn spec_serialize_list(qs: Seq<SpecTagQuery>) -> Seq<char>
    decreases qs, 0int,
{
    if qs.len() == 0 {
        Seq::empty()
    } else if qs.len() == 1 {
        spec_serialize(qs[0])
    } else {
        spec_serialize(qs[0]) + seq![','] + spec_serialize_list(qs.drop_first())
    }
}

/// Quoted values, joined by commas.
pub open spec fn spec_serialize_values(vs: Seq<Seq<char>>) -> Seq<char>
    decreases vs.len(),
{
    if vs.len() == 0 {
        Seq::empty()
    } else if vs.len() == 1 {
        spec_quoted(vs[0])
    } else {
        spec_quoted(vs[0]) + seq![','] + spec_serialize_values(vs.drop_first())
    }
}

/// Appending one value to a joined value list inserts a comma exactly when
/// the list was not empty.
proof fn lemma_serialize_values_push(vs: Seq<Seq<char>>, v: Seq<char>)
    ensures
        spec_serialize_values(vs.push(v)) == if vs.len() == 0 {
            spec_quoted(v)
        } else {
            spec_serialize_values(vs) + seq![','] + spec_quoted(v)
        },
    decreases vs.len(),
{
    if vs.len() == 0 {
        assert(vs.push(v) =~= seq![v]);
    } else {
        assert(vs.push(v)[0] == vs[0]);
        assert(vs.push(v).drop_first() =~= vs.drop_first().push(v));
        lemma_serialize_values_push(vs.drop_first(), v);
        if vs.len() == 1 {
            assert(spec_serialize_values(vs.push(v)) =~= spec_serialize_values(vs) + seq![',']
                + spec_quoted(v));
        } else {
            assert(spec_quoted(vs[0]) + seq![','] + (spec_serialize_values(vs.drop_first())
                + seq![','] + spec_quoted(v)) =~= (spec_quoted(vs[0]) + seq![',']
                + spec_serialize_values(vs.drop_first())) + seq![','] + spec_quoted(v));
        }
    }
}

/// Appending one subquery to a joined list inserts a comma exactly when the
/// list was not empty.
proof fn lemma_serialize_list_push(qs: Seq<SpecTagQuery>, q: SpecTagQuery)
    ensures
        spec_serialize_list(qs.push(q)) == if qs.len() == 0 {
            spec_serialize(q)
        } else {
            spec_serialize_list(qs) + seq![','] + spec_serialize(q)
        },
    decreases qs.len(),
{
    if qs.len() == 0 {
        assert(qs.push(q) =~= seq![q]);
    } else {
        assert(qs.push(q)[0] == qs[0]);
        assert(qs.push(q).drop_first() =~= qs.drop_first().push(q));
        lemma_serialize_list_push(qs.drop_first(), q);
        if qs.len() == 1 {
            assert(spec_serialize_list(qs.push(q)) =~= spec_serialize_list(qs) + seq![',']
                + spec_serialize(q));
        } else {
            assert(spec_serialize(qs[0]) + seq![','] + (spec_serialize_list(qs.drop_first())
                + seq![','] + spec_serialize(q)) =~= (spec_serialize(qs[0]) + seq![',']
                + spec_serialize_list(qs.drop_first())) + seq![','] + spec_serialize(q));
        }
    }
}

/// Relies on String::push: appends exactly the one character `c`.
#[verifier::external_body]
fn push_char(out: &mut String, c: char)
    ensures
        final(out)@ == old(out)@ + seq![c],
{
    out.push(c);
}

/// The lowercase hexadecimal digit of `n`.
fn hex_digit(n: u8) -> (c: char)
    requires
        n < 16,
    ensures
        c == spec_hex_digit(n as int),
{
    match n {
        0 => '0',
        1 => '1',
        2 => '2',
        3 => '3',
        4 => '4',
        5 => '5',
        6 => '6',
        7 => '7',
        8 => '8',
        9 => '9',
        10 => 'a',
        11 => 'b',
        12 => 'c',
        13 => 'd',
        14 => 'e',
        _ => 'f',
    }
}

/// Append the escaped form of `s`.
#[verifier::loop_isolation(false)]
fn write_escaped(s: &str, out: &mut String)
    ensures
        final(out)@ == old(out)@ + spec_escape(s@),
{
    let n = s.unicode_len();
    let mut i: usize = 0;
    proof {
        assert(s@.take(0) =~= Seq::<char>::empty());
        assert(out@ + spec_escape(s@.take(0)) =~= out@);
    }
    while i < n
        invariant
            i <= n,
            out@ == old(out)@ + spec_escape(s@.take(i as int)),
        decreases n - i,
    {
        let c = s.get_char(i);
        if c == '"' {
            push_char(out, '\\');
            push_char(out, '"');
        } else if c == '\\' {
            push_char(out, '\\');
            push_char(out, '\\');
        } else if c == '\u{8}' {
            push_char(out, '\\');
            push_char(out, 'b');
        } else if c == '\t' {
            push_char(out, '\\');
            push_char(out, 't');
        } else if c == '\n' {
            push_char(out, '\\');
            push_char(out, 'n');
        } else if c == '\u{c}' {
            push_char(out, '\\');
            push_char(out, 'f');
        } else if c == '\r' {
            push_char(out, '\\');
            push_char(out, 'r');
        } else if (c as u32) < 32 {
            let code = c as u32;
            push_char(out, '\\');
            push_char(out, 'u');
            push_char(out, '0');
            push_char(out, '0');
            push_char(out, hex_digit((code / 16) as u8));
            push_char(out, hex_digit((code % 16) as u8));
        } else {
            push_char(out, c);
        }
        proof {
            assert(s@.take(i + 1).drop_last() =~= s@.take(i as int));
            assert(s@.take(i + 1).last() == s@[i as int]);
            assert(out@ =~= old(out)@ + spec_escape(s@.take(i + 1)));
        }
        i += 1;
    }
    proof {
        assert(s@.take(n as int) =~= s@);
    }
}

/// Append `s` in quoted, escaped form.
fn write_quoted(s: &str, out: &mut String)
    ensures
        final(out)@ == old(out)@ + spec_quoted(s@),
{
    push_char(out, '"');
    write_escaped(s, out);
    push_char(out, '"');
    proof {
        assert(final(out)@ =~= old(out)@ + spec_quoted(s@));
    }
}

/// Append the raw form of `name`, quoted and escaped.
fn write_quoted_name(name: &TagName, out: &mut String)
    ensures
        final(out)@ == old(out)@ + spec_quoted(spec_raw(name@)),
{
    let raw = name.to_string();
    write_quoted(raw.as_str(), out);
}

/// Append a non-equality comparison leaf in canonical form.
fn write_cmp(op_key: &str, name: &TagName, value: &String, out: &mut String)
    ensures
        final(out)@ == old(out)@ + spec_serialize_cmp(op_key@, name@, value@),
{
    push_char(out, '{');
    write_quoted_name(name, out);
    push_char(out, ':');
    push_char(out, '{');
    push_char(out, '"');
    out.append(op_key);
    push_char(out, '"');
    push_char(out, ':');
    write_quoted(value.as_str(), out);
    push_char(out, '}');
    push_char(out, '}');
    proof {
        assert(final(out)@ =~= old(out)@ + spec_serialize_cmp(op_key@, name@, value@));
    }
}

/// Append the canonical form of one query node.
#[verifier::loop_isolation(false)]
fn write_query(query: &TagQuery, out: &mut String)
    ensures
        final(out)@ == old(out)@ + spec_serialize(query@),
    decreases *query,
{
    match query {
        TagQuery::Eq(name, value) => {
            push_char(out, '{');
            write_quoted_name(name, out);
            push_char(out, ':');
            write_quoted(value.as_str(), out);
            push_char(out, '}');
            proof {
                assert(out@ =~= old(out)@ + spec_serialize(query@));
            }
        },
        TagQuery::Neq(name, value) => {
            write_cmp("$neq", name, value, out);
        },
        TagQuery::Gt(name, value) => {
            write_cmp("$gt", name, value, out);
        },
        TagQuery::Gte(name, value) => {
            write_cmp("$gte", name, value, out);
        },
        TagQuery::Lt(name, value) => {
            write_cmp("$lt", name, value, out);
        },
        TagQuery::Lte(name, value) => {
            write_cmp("$lte", name, value, out);
        },
        TagQuery::Like(name, value) => {
            write_cmp("$like", name, value, out);
        },
        TagQuery::In(name, values) => {
            let ghost vs = spec_str_views(values@);
            push_char(out, '{');
            write_quoted_name(name, out);
            out.append(":{\"$in\":[");
            let ghost entry = out@;
            let mut j: usize = 0;
            proof {
                assert(vs.take(0) =~= Seq::<Seq<char>>::empty());
            }
            while j < values.len()
                invariant
                    j <= values.len(),
                    out@ == entry + spec_serialize_values(vs.take(j as int)),
                decreases values.len() - j,
            {
                if j > 0 {
                    push_char(out, ',');
                }
                write_quoted(values[j].as_str(), out);
                proof {
                    lemma_serialize_values_push(vs.take(j as int), vs[j as int]);
                    assert(vs.take(j as int).push(vs[j as int]) =~= vs.take(j + 1));
                    assert(out@ =~= entry + spec_serialize_values(vs.take(j + 1)));
                }
                j += 1;
            }
            out.append("]}}");
            proof {
                assert(vs.take(values@.len() as int) =~= vs);
                assert(out@ =~= old(out)@ + spec_serialize(query@));
            }
        },
        TagQuery::And(subqueries) => {
            let ghost vs = spec_tag_query_views(subqueries@);
            proof {
                lemma_tag_query_views_props(subqueries@);
            }
            out.append("{\"$and\":[");
            let ghost entry = out@;
            let mut j: usize = 0;
            proof {
                assert(vs.take(0) =~= Seq::<SpecTagQuery>::empty());
            }
            while j < subqueries.len()
                invariant
                    j <= subqueries.len(),
                    out@ == entry + spec_serialize_list(vs.take(j as int)),
                decreases subqueries.len() - j,
            {
                if j > 0 {
                    push_char(out, ',');
                }
                write_query(&subqueries[j], out);
                proof {
                    lemma_serialize_list_push(vs.take(j as int), vs[j as int]);
                    assert(vs.take(j as int).push(vs[j as int]) =~= vs.take(j + 1));
                    assert(out@ =~= entry + spec_serialize_list(vs.take(j + 1)));
                }
                j += 1;
            }
            out.append("]}");
            proof {
                assert(vs.take(subqueries@.len() as int) =~= vs);
                assert(out@ =~= old(out)@ + spec_serialize(query@));
            }
        },
        TagQuery::Or(subqueries) => {
            let ghost vs = spec_tag_query_views(subqueries@);
            proof {
                lemma_tag_query_views_props(subqueries@);
            }
            out.append("{\"$or\":[");
            let ghost entry = out@;
            let mut j: usize = 0;
            proof {
                assert(vs.take(0) =~= Seq::<SpecTagQuery>::empty());
            }
            while j < subqueries.len()
                invariant
                    j <= subqueries.len(),
                    out@ == entry + spec_serialize_list(vs.take(j as int)),
                decreases subqueries.len() - j,
            {
                if j > 0 {
                    push_char(out, ',');
                }
                write_query(&subqueries[j], out);
                proof {
                    lemma_serialize_list_push(vs.take(j as int), vs[j as int]);
                    assert(vs.take(j as int).push(vs[j as int]) =~= vs.take(j + 1));
                    assert(out@ =~= entry + spec_serialize_list(vs.take(j + 1)));
                }
                j += 1;
            }
            out.append("]}");
            proof {
                assert(vs.take(subqueries@.len() as int) =~= vs);
                assert(out@ =~= old(out)@ + spec_serialize(query@));
            }
        },
        TagQuery::Not(subquery) => {
            out.append("{\"$not\":");
            write_query(&*subquery, out);
            push_char(out, '}');
            proof {
                assert(out@ =~= old(out)@ + spec_serialize(query@));
            }
        },
    }
}

impl TagQuery {
    /// Render this query in its canonical textual form.
    pub fn to_json(&self) -> (r: String)
        ensures
            r@ == spec_serialize(self@),
    {
        let mut out = String::new();
        write_query(self, &mut out);
        proof {
            assert(out@ =~= spec_serialize(self@));
        }
        out
    }
}

} // verus!
