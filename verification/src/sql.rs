//! SQL literal formatting: renders a present or absent value as literal
//! text safe for direct inclusion in a statement, optionally prefixed by
//! a comparison operator, and substitutes prepared fragments into a
//! statement template.

use vstd::prelude::*;
use crate::strings::{escape_quotes, push_escaped};
use crate::text::{chars_to_string, i64_dec_text, push_i64_dec, str_to_chars};
use crate::timestamp::{stamp_text, push_stamp_text, Timestamp};

verus! {

/// Comparison intent attached to a formatted value.
pub enum CompOp {
    Eq,
    NEq,
    Gt,
    GtEq,
    Lt,
    LtEq,
}

/// A value to be rendered as a SQL literal. The closed set of cases mirrors
/// the formatting rules: text is quoted and escaped, timestamps become
/// `datetime(...)` calls, and anything else supplies its natural display
/// text, which is written unescaped.
pub enum DbValue {
    /// Text: wrapped in single quotes with internal quotes doubled.
    Text(String),
    /// A timestamp whose fields are a UTC wall clock.
    TimestampUtc(Timestamp),
    /// A timestamp whose fields are a local wall clock; the engine is told
    /// to convert it, so the store always holds UTC.
    TimestampLocal(Timestamp),
    /// Any other value, shown by its display text, unescaped.
    Other(String),
}

impl DbValue {
    /// Wraps an integer as its decimal display text.
    pub fn from_i64(v: i64) -> (r: DbValue)
        ensures
            (r matches DbValue::Other(s) && s@ == i64_dec_text(v as int)),
    {
        let mut cs: Vec<char> = Vec::new();
        push_i64_dec(&mut cs, v);
        DbValue::Other(chars_to_string(&cs))
    }
}

/// Literal text of a bare value: quoted-and-escaped text, a `datetime()`
/// call for timestamps, or the display text of anything else.
pub open spec fn format_bare_text(v: DbValue) -> Seq<char> {
    match v {
        DbValue::Text(s) => "'"@ + escape_quotes(s@) + "'"@,
        DbValue::TimestampUtc(t) => "datetime('"@ + stamp_text(t) + "')"@,
        DbValue::TimestampLocal(t) => "datetime('"@ + stamp_text(t) + "', 'utc')"@,
        DbValue::Other(s) => s@,
    }
}

/// Literal text of an optional value: `NULL` when absent.
pub open spec fn format_optional_text(v: Option<DbValue>) -> Seq<char> {
    match v {
        None => "NULL"@,
        Some(x) => format_bare_text(x),
    }
}

/// The comparison symbol used before a present value.
pub open spec fn comp_symbol(op: CompOp) -> Seq<char> {
    match op {
        CompOp::Eq => " = "@,
        CompOp::NEq => " <> "@,
        CompOp::Gt => " > "@,
        CompOp::GtEq => " >= "@,
        CompOp::Lt => " < "@,
        CompOp::LtEq => " <= "@,
    }
}

/// The comparison text used for an absent value: inequality intent becomes
/// `IS NOT NULL`; every other intent becomes `IS NULL`.
pub open spec fn null_comp_text(op: CompOp) -> Seq<char> {
    match op {
        CompOp::NEq => " IS NOT NULL"@,
        _ => " IS NULL"@,
    }
}

/// Literal text of an optional value with its comparison prefix.
pub open spec fn format_comparison_text(v: Option<DbValue>, op: CompOp) -> Seq<char> {
    match v {
        None => null_comp_text(op),
        Some(x) => comp_symbol(op) + format_bare_text(x),
    }
}

/// Renders the shared inner form of a value, after `prefix`.
fn push_bare_value(out: &mut Vec<char>, v: &DbValue)
    ensures
        final(out)@ == old(out)@ + format_bare_text(*v),
{
    match v {
        DbValue::Text(s) => {
            proof {
                reveal_strlit("'");
            }
            out.push('\'');
            let cs = str_to_chars(s.as_str());
            push_escaped(out, &cs);
            out.push('\'');
            assert(out@ =~= old(out)@ + format_bare_text(*v));
        },
        DbValue::TimestampUtc(t) => {
            let mut head = str_to_chars("datetime('");
            out.append(&mut head);
            push_stamp_text(out, t);
            let mut tail = str_to_chars("')");
            out.append(&mut tail);
            assert(out@ =~= old(out)@ + format_bare_text(*v));
        },
        DbValue::TimestampLocal(t) => {
            let mut head = str_to_chars("datetime('");
            out.append(&mut head);
            push_stamp_text(out, t);
            let mut tail = str_to_chars("', 'utc')");
            out.append(&mut tail);
            assert(out@ =~= old(out)@ + format_bare_text(*v));
        },
        DbValue::Other(s) => {
            let mut cs = str_to_chars(s.as_str());
            out.append(&mut cs);
        },
    }
}

/// Formats a bare (always present) value as SQL literal text.
pub fn dbfmt_t(input: &DbValue) -> (r: String)
    ensures
        r@ == format_bare_text(*input),
{
    let mut out: Vec<char> = Vec::new();
    push_bare_value(&mut out, input);
    chars_to_string(&out)
}

/// Formats an optional value as SQL literal text; an absent value becomes
/// exactly `NULL`.
pub fn dbfmt(input: Option<DbValue>) -> (r: String)
    ensures
        r@ == format_optional_text(input),
{
    match input {
        None => {
            let out = str_to_chars("NULL");
            chars_to_string(&out)
        },
        Some(v) => dbfmt_t(&v),
    }
}

/// As `dbfmt`, but prefixed by the comparison operator: the symbol for a
/// present value, `IS`/`IS NOT` for an absent one.
pub fn dbfmt_comp(input: Option<DbValue>, comparison_operator: CompOp) -> (r: String)
    ensures
        r@ == format_comparison_text(input, comparison_operator),
{
    match input {
        None => {
            let out = match comparison_operator {
                CompOp::NEq => str_to_chars(" IS NOT NULL"),
                _ => str_to_chars(" IS NULL"),
            };
            chars_to_string(&out)
        },
        Some(v) => {
            let mut out = match comparison_operator {
                CompOp::Eq => str_to_chars(" = "),
                CompOp::NEq => str_to_chars(" <> "),
                CompOp::Gt => str_to_chars(" > "),
                CompOp::GtEq => str_to_chars(" >= "),
                CompOp::Lt => str_to_chars(" < "),
                CompOp::LtEq => str_to_chars(" <= "),
            };
            push_bare_value(&mut out, &v);
            chars_to_string(&out)
        },
    }
}

/// Substitutes each `{}` placeholder of `t`, in positional order, by the
/// corresponding replacement. Defined only when the count of replacements
/// equals the count of placeholders.
pub open spec fn subst_placeholders(t: Seq<char>, ps: Seq<Seq<char>>) -> Option<Seq<char>>
    decreases t.len(),
{
    if t.len() >= 2 && t[0] == '{' && t[1] == '}' {
        if ps.len() == 0 {
            None
        } else {
            match subst_placeholders(t.skip(2), ps.drop_first()) {
                Some(r) => Some(ps[0] + r),
                None => None,
            }
        }
    } else if t.len() == 0 {
        if ps.len() == 0 {
            Some(Seq::empty())
        } else {
            None
        }
    } else {
        match subst_placeholders(t.skip(1), ps) {
            Some(r) => Some(seq![t[0]] + r),
            None => None,
        }
    }
}

/// The replacement text contributed by one (field, value) pair: the field
/// name directly followed by the pre-formatted comparison-and-value text.
pub open spec fn pair_texts(ps: Seq<(String, String)>) -> Seq<Seq<char>> {
    ps.map_values(|p: (String, String)| p.0@ + p.1@)
}

/// Builds a SQL fragment by substituting each `{}` placeholder slot of the
/// template, in positional order, by `field` followed by `value` from the
/// corresponding pair. Fails (returns `None`) exactly when the count of
/// pairs differs from the count of placeholders.
#[verifier::loop_isolation(false)]
pub fn where_sql(template: &str, pairs: &Vec<(String, String)>) -> (r: Option<String>)
    ensures
        match r {
            Some(out) => subst_placeholders(template@, pair_texts(pairs@)) == Some(out@),
            None => subst_placeholders(template@, pair_texts(pairs@)) is None,
        },
{
    let cs = str_to_chars(template);
    let ghost texts = pair_texts(pairs@);
    let mut out: Vec<char> = Vec::new();
    let mut i: usize = 0;
    let mut j: usize = 0;
    proof {
        assert(cs@.skip(0) =~= cs@);
        assert(texts.skip(0) =~= texts);
    }
    while i < cs.len()
        invariant
            i <= cs@.len(),
            j <= pairs@.len(),
            texts.skip(j as int) =~= pair_texts(pairs@.skip(j as int)),
            match subst_placeholders(cs@.skip(i as int), texts.skip(j as int)) {
                Some(rest) => subst_placeholders(cs@, texts) == Some(out@ + rest),
                None => subst_placeholders(cs@, texts) is None,
            },
        decreases cs@.len() - i,
    {
        let ghost pre = out@;
        if i + 1 < cs.len() && cs[i] == '{' && cs[i + 1] == '}' {
            if j >= pairs.len() {
                proof {
                    assert(texts.skip(j as int).len() == 0);
                }
                return None;
            }
            let mut field = str_to_chars(pairs[j].0.as_str());
            out.append(&mut field);
            let mut value = str_to_chars(pairs[j].1.as_str());
            out.append(&mut value);
            proof {
                assert(texts.skip(j as int)[0] == texts[j as int]);
                assert(texts[j as int] == pairs@[j as int].0@ + pairs@[j as int].1@);
                assert(out@ =~= pre + texts.skip(j as int)[0]);
                assert(cs@.skip(i as int).skip(2) =~= cs@.skip(i + 2));
                assert(texts.skip(j as int).drop_first() =~= texts.skip(j + 1));
                match subst_placeholders(cs@.skip(i + 2), texts.skip(j + 1)) {
                    Some(rest) => {
                        assert(subst_placeholders(cs@.skip(i as int), texts.skip(j as int))
                            == Some(texts[j as int] + rest));
                        assert(pre + (texts[j as int] + rest) =~= out@ + rest);
                    },
                    None => {},
                }
            }
            i = i + 2;
            j = j + 1;
        } else {
            let c = cs[i];
            out.push(c);
            proof {
                assert(out@ =~= pre + seq![c]);
                assert(cs@.skip(i as int).skip(1) =~= cs@.skip(i + 1));
                match subst_placeholders(cs@.skip(i + 1), texts.skip(j as int)) {
                    Some(rest) => {
                        assert(subst_placeholders(cs@.skip(i as int), texts.skip(j as int))
                            == Some(seq![c] + rest));
                        assert(pre + (seq![c] + rest) =~= out@ + rest);
                    },
                    None => {},
                }
            }
            i = i + 1;
        }
    }
    proof {
        assert(cs@.skip(i as int) =~= Seq::<char>::empty());
    }
    if j < pairs.len() {
        proof {
            assert(texts.skip(j as int).len() > 0);
        }
        return None;
    }
    proof {
        assert(texts.skip(j as int).len() == 0);
        assert(out@ + Seq::<char>::empty() =~= out@);
    }
    Some(chars_to_string(&out))
}

} // verus!
