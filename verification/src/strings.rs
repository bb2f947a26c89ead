//! Small string helpers: taking a suffix by character count, and the
//! quote-escaping rule used for SQL text literals.

use vstd::prelude::*;
use crate::text::{str_to_chars, chars_to_string};

verus! {

/// The last `n` characters of `s`, or all of `s` when it is shorter.
pub open spec fn last_n_chars(s: Seq<char>, n: nat) -> Seq<char> {
    if n >= s.len() {
        s
    } else {
        s.skip(s.len() - n)
    }
}

/// Returns the last `n` characters of `s` as a new string.
#[verifier::loop_isolation(false)]
pub fn get_last_n_chars(s: &str, n: usize) -> (r: String)
    ensures
        r@ == last_n_chars(s@, n as nat),
{
    let cs = str_to_chars(s);
    let start: usize = if n >= cs.len() {
        0
    } else {
        cs.len() - n
    };
    let mut out: Vec<char> = Vec::new();
    let mut i: usize = start;
    while i < cs.len()
        invariant
            start <= i <= cs@.len(),
            out@ == cs@.subrange(start as int, i as int),
        decreases cs@.len() - i,
    {
        out.push(cs[i]);
        i = i + 1;
        assert(out@ =~= cs@.subrange(start as int, i as int));
    }
    proof {
        assert(out@ =~= last_n_chars(s@, n as nat));
    }
    chars_to_string(&out)
}

/// SQL text-literal escaping: every single-quote character is doubled.
pub open spec fn escape_quotes(s: Seq<char>) -> Seq<char>
    decreases s.len(),
{
    if s.len() == 0 {
        Seq::empty()
    } else if s[0] == '\'' {
        seq!['\'', '\''] + escape_quotes(s.drop_first())
    } else {
        seq![s[0]] + escape_quotes(s.drop_first())
    }
}

/// The matching unescape rule: each doubled single quote collapses to one.
pub open spec fn unescape_quotes(s: Seq<char>) -> Seq<char>
    decreases s.len(),
{
    if s.len() == 0 {
        Seq::empty()
    } else if s.len() >= 2 && s[0] == '\'' && s[1] == '\'' {
        seq!['\''] + unescape_quotes(s.skip(2))
    } else {
        seq![s[0]] + unescape_quotes(s.skip(1))
    }
}

/// Unescaping inverts escaping: text that went through the quote-doubling
/// rule is recovered exactly by the quote-collapsing rule.
pub proof fn lemma_escape_round_trip(s: Seq<char>)
    ensures
        unescape_quotes(escape_quotes(s)) == s,
    decreases s.len(),
{
    if s.len() == 0 {
        assert(unescape_quotes(escape_quotes(s)) =~= s);
    } else {
        lemma_escape_round_trip(s.drop_first());
        let rest = escape_quotes(s.drop_first());
        if s[0] == '\'' {
            let e = seq!['\'', '\''] + rest;
            assert(escape_quotes(s) == e);
            assert(e.skip(2) =~= rest);
            assert(unescape_quotes(e) == seq!['\''] + unescape_quotes(rest));
            assert(unescape_quotes(escape_quotes(s)) =~= s);
        } else {
            let e = seq![s[0]] + rest;
            assert(escape_quotes(s) == e);
            if rest.len() >= 1 && e.len() >= 2 && e[0] == '\'' && e[1] == '\'' {
                assert(false);
            }
            assert(e.skip(1) =~= rest);
            assert(unescape_quotes(e) == seq![s[0]] + unescape_quotes(rest));
            assert(unescape_quotes(escape_quotes(s)) =~= s);
        }
    }
}

/// Appends the quote-escaped form of `cs` to `out`.
#[verifier::loop_isolation(false)]
pub fn push_escaped(out: &mut Vec<char>, cs: &Vec<char>)
    ensures
        final(out)@ == old(out)@ + escape_quotes(cs@),
{
    let mut i: usize = 0;
    proof {
        assert(cs@.skip(0) =~= cs@);
    }
    while i < cs.len()
        invariant
            i <= cs@.len(),
            out@ + escape_quotes(cs@.skip(i as int)) == old(out)@ + escape_quotes(cs@),
        decreases cs@.len() - i,
    {
        let ghost pre = out@;
        let c = cs[i];
        if c == '\'' {
            out.push('\'');
            out.push('\'');
            proof {
                assert(out@ =~= pre + seq!['\'', '\'']);
            }
        } else {
            out.push(c);
            proof {
                assert(out@ =~= pre + seq![c]);
            }
        }
        proof {
            assert(cs@.skip(i as int).drop_first() =~= cs@.skip(i + 1));
            assert(escape_quotes(cs@.skip(i as int)) == (if c == '\'' {
                seq!['\'', '\'']
            } else {
                seq![c]
            }) + escape_quotes(cs@.skip(i + 1)));
            assert(out@ + escape_quotes(cs@.skip(i + 1)) =~= pre + escape_quotes(
                cs@.skip(i as int),
            ));
        }
        i = i + 1;
    }
    proof {
        assert(cs@.skip(cs@.len() as int) =~= Seq::<char>::empty());
        assert(out@ =~= old(out)@ + escape_quotes(cs@));
    }
}

/// Applies the quote-collapsing rule to a string.
#[verifier::loop_isolation(false)]
pub fn unescape_text(s: &str) -> (r: String)
    ensures
        r@ == unescape_quotes(s@),
{
    let cs = str_to_chars(s);
    let mut out: Vec<char> = Vec::new();
    let mut i: usize = 0;
    proof {
        assert(cs@.skip(0) =~= cs@);
    }
    while i < cs.len()
        invariant
            i <= cs@.len(),
            out@ + unescape_quotes(cs@.skip(i as int)) == unescape_quotes(cs@),
        decreases cs@.len() - i,
    {
        let ghost pre = out@;
        let c = cs[i];
        if c == '\'' && i + 1 < cs.len() && cs[i + 1] == '\'' {
            out.push('\'');
            proof {
                assert(out@ =~= pre + seq!['\'']);
                assert(cs@.skip(i as int).skip(2) =~= cs@.skip(i + 2));
                assert(out@ + unescape_quotes(cs@.skip(i + 2)) =~= pre + unescape_quotes(
                    cs@.skip(i as int),
                ));
            }
            i = i + 2;
        } else {
            out.push(c);
            proof {
                assert(out@ =~= pre + seq![c]);
                assert(cs@.skip(i as int).skip(1) =~= cs@.skip(i + 1));
                assert(out@ + unescape_quotes(cs@.skip(i + 1)) =~= pre + unescape_quotes(
                    cs@.skip(i as int),
                ));
            }
            i = i + 1;
        }
    }
    proof {
        assert(cs@.skip(cs@.len() as int) =~= Seq::<char>::empty());
        assert(out@ =~= unescape_quotes(s@));
    }
    chars_to_string(&out)
}

} // verus!
