//! Path text utilities. Paths are handled as plain text split on either
//! separator, so the same input gives the same answer on every platform.

use vstd::prelude::*;
use crate::text::{chars_to_string, str_to_chars};

verus! {

/// Both separators a path may carry, whichever platform wrote it.
pub open spec fn is_sep(c: char) -> bool {
    c == '/' || c == '\\'
}

/// Splitting with the piece collected so far: separators end a piece,
/// empty pieces are dropped.
pub open spec fn split_acc(s: Seq<char>, cur: Seq<char>) -> Seq<Seq<char>>
    decreases s.len(),
{
    if s.len() == 0 {
        if cur.len() == 0 {
            Seq::empty()
        } else {
            seq![cur]
        }
    } else if is_sep(s[0]) {
        (if cur.len() == 0 {
            Seq::empty()
        } else {
            seq![cur]
        }) + split_acc(s.skip(1), Seq::empty())
    } else {
        split_acc(s.skip(1), cur.push(s[0]))
    }
}

/// The non-empty pieces of a path, split on `/` and `\`.
pub open spec fn split_components(s: Seq<char>) -> Seq<Seq<char>> {
    split_acc(s, Seq::empty())
}

/// Pieces joined by `/`.
pub open spec fn join_slash(ps: Seq<Seq<char>>) -> Seq<char>
    decreases ps.len(),
{
    if ps.len() == 0 {
        Seq::empty()
    } else if ps.len() == 1 {
        ps[0]
    } else {
        ps[0] + seq!['/'] + join_slash(ps.drop_first())
    }
}

/// The components of `p` past the length of `b`: what remains of a path
/// under a base of that many components.
pub open spec fn relative_components(p: Seq<Seq<char>>, b: Seq<Seq<char>>) -> Seq<Seq<char>> {
    if b.len() >= p.len() {
        Seq::empty()
    } else {
        p.skip(b.len() as int)
    }
}

pub open spec fn components_view(v: Vec<Vec<char>>) -> Seq<Seq<char>> {
    v@.map_values(|c: Vec<char>| c@)
}

/// Splits path text into its non-empty components.
#[verifier::loop_isolation(false)]
fn split_path(s: &str) -> (r: Vec<Vec<char>>)
    ensures
        components_view(r) == split_components(s@),
{
    let cs = str_to_chars(s);
    let mut comps: Vec<Vec<char>> = Vec::new();
    let mut cur: Vec<char> = Vec::new();
    let mut i: usize = 0;
    proof {
        assert(cs@.skip(0) =~= cs@);
        assert(components_view(comps) + split_acc(cs@, cur@) =~= split_components(cs@));
    }
    while i < cs.len()
        invariant
            i <= cs@.len(),
            components_view(comps) + split_acc(cs@.skip(i as int), cur@) == split_components(cs@),
        decreases cs@.len() - i,
    {
        let ghost pre_comps = components_view(comps);
        let ghost pre_cur = cur@;
        let c = cs[i];
        proof {
            assert(cs@.skip(i as int).skip(1) =~= cs@.skip(i + 1));
            assert(cs@.skip(i as int)[0] == c);
        }
        if c == '/' || c == '\\' {
            proof {
                assert(is_sep(cs@.skip(i as int)[0]));
                assert(split_acc(cs@.skip(i as int), pre_cur) == (if pre_cur.len() == 0 {
                    Seq::<Seq<char>>::empty()
                } else {
                    seq![pre_cur]
                }) + split_acc(cs@.skip(i + 1), Seq::<char>::empty()));
            }
            if cur.len() > 0 {
                comps.push(cur);
                cur = Vec::new();
                proof {
                    assert(cur@ =~= Seq::<char>::empty());
                    let tail = split_acc(cs@.skip(i + 1), Seq::<char>::empty());
                    assert(split_acc(cs@.skip(i + 1), cur@) == tail);
                    assert(components_view(comps) =~= pre_comps + seq![pre_cur]);
                    assert(split_acc(cs@.skip(i as int), pre_cur) == seq![pre_cur] + tail);
                    assert(components_view(comps) + tail =~= pre_comps + (seq![pre_cur] + tail));
                    assert((components_view(comps) + tail) == pre_comps + (seq![pre_cur] + tail));
                    assert(pre_comps + (seq![pre_cur] + tail) =~= pre_comps + split_acc(
                        cs@.skip(i as int),
                        pre_cur,
                    ));
                    assert(components_view(comps) + split_acc(cs@.skip(i + 1), cur@) == pre_comps
                        + split_acc(cs@.skip(i as int), pre_cur));
                }
            } else {
                proof {
                    let tail = split_acc(cs@.skip(i + 1), Seq::<char>::empty());
                    assert(cur@ =~= Seq::<char>::empty());
                    assert(split_acc(cs@.skip(i + 1), cur@) == tail);
                    assert(split_acc(cs@.skip(i as int), pre_cur) == Seq::<Seq<char>>::empty()
                        + tail);
                    assert(Seq::<Seq<char>>::empty() + tail =~= tail);
                    assert(components_view(comps) + split_acc(cs@.skip(i + 1), cur@) == pre_comps
                        + split_acc(cs@.skip(i as int), pre_cur));
                }
            }
        } else {
            cur.push(c);
            proof {
                assert(cur@ =~= pre_cur.push(c));
                assert(split_acc(cs@.skip(i as int), pre_cur) == split_acc(
                    cs@.skip(i + 1),
                    pre_cur.push(c),
                ));
            }
        }
        i = i + 1;
    }
    proof {
        assert(cs@.skip(cs@.len() as int) =~= Seq::<char>::empty());
    }
    if cur.len() > 0 {
        let ghost pre_comps = components_view(comps);
        let ghost pre_cur = cur@;
        comps.push(cur);
        proof {
            assert(components_view(comps) =~= pre_comps + seq![pre_cur]);
            assert(components_view(comps) =~= split_components(cs@));
        }
    } else {
        proof {
            assert(components_view(comps) + Seq::<Seq<char>>::empty() =~= components_view(comps));
            assert(components_view(comps) =~= split_components(cs@));
        }
    }
    comps
}

pub proof fn lemma_join_push(ps: Seq<Seq<char>>, q: Seq<char>)
    requires
        ps.len() >= 1,
    ensures
        join_slash(ps.push(q)) == join_slash(ps) + seq!['/'] + q,
    decreases ps.len(),
{
    if ps.len() == 1 {
        assert(ps.push(q).drop_first() =~= seq![q]);
        assert(ps.push(q)[0] == ps[0]);
        assert(join_slash(seq![q]) == q);
        assert(join_slash(ps.push(q)) =~= ps[0] + seq!['/'] + q);
    } else {
        lemma_join_push(ps.drop_first(), q);
        assert(ps.push(q).drop_first() =~= ps.drop_first().push(q));
        assert(join_slash(ps.push(q)) == ps[0] + seq!['/'] + join_slash(ps.drop_first().push(q)));
        assert(join_slash(ps) + seq!['/'] + q =~= ps[0] + seq!['/'] + (join_slash(ps.drop_first())
            + seq!['/'] + q));
        assert(join_slash(ps.push(q)) =~= join_slash(ps) + seq!['/'] + q);
    }
}

/// Renders the components of `path` past those of `base`, joined by `/`
/// whatever separators the inputs used.
#[verifier::loop_isolation(false)]
pub fn path_to_agnostic_relative(path: &str, base: &str) -> (r: String)
    ensures
        r@ == join_slash(relative_components(split_components(path@), split_components(base@))),
{
    let comps = split_path(path);
    let base_comps = split_path(base);
    let start: usize = base_comps.len();
    let ghost rel = relative_components(split_components(path@), split_components(base@));
    let mut out: Vec<char> = Vec::new();
    if start >= comps.len() {
        proof {
            assert(rel =~= Seq::<Seq<char>>::empty());
        }
        return chars_to_string(&out);
    }
    let mut i: usize = start;
    while i < comps.len()
        invariant
            start <= i <= comps@.len(),
            start < comps@.len(),
            i > start ==> out@ == join_slash(components_view(comps).subrange(start as int, i as int)),
            i == start ==> out@ == Seq::<char>::empty(),
        decreases comps@.len() - i,
    {
        let ghost pre = out@;
        if i > start {
            out.push('/');
        }
        let mut piece: Vec<char> = Vec::new();
        let n = comps[i].len();
        let mut k: usize = 0;
        while k < n
            invariant
                k <= n,
                n == comps@[i as int]@.len(),
                i < comps@.len(),
                piece@ == comps@[i as int]@.subrange(0, k as int),
            decreases n - k,
        {
            piece.push(comps[i][k]);
            k = k + 1;
        }
        proof {
            assert(piece@ =~= components_view(comps)[i as int]);
        }
        out.append(&mut piece);
        proof {
            let cv = components_view(comps);
            if i == start {
                assert(cv.subrange(start as int, i + 1) =~= seq![cv[i as int]]);
                assert(out@ =~= join_slash(cv.subrange(start as int, i + 1)));
            } else {
                assert(cv.subrange(start as int, i as int).push(cv[i as int]) =~= cv.subrange(
                    start as int,
                    i + 1,
                ));
                lemma_join_push(cv.subrange(start as int, i as int), cv[i as int]);
                assert(out@ =~= join_slash(cv.subrange(start as int, i + 1)));
            }
        }
        i = i + 1;
    }
    proof {
        assert(components_view(comps).subrange(start as int, comps@.len() as int) =~= rel);
    }
    chars_to_string(&out)
}

/// The path text with any trailing separators removed, so that it ends
/// exactly at the end of its last component.
pub open spec fn strip_trailing_seps(s: Seq<char>) -> Seq<char>
    decreases s.len(),
{
    if s.len() > 0 && is_sep(s.last()) {
        strip_trailing_seps(s.drop_last())
    } else {
        s
    }
}

/// Appends `.` and the extension to the path's last component: trailing
/// separators are dropped first, so the extension lands on the component
/// itself and everything before it stays unchanged. An existing extension
/// is kept, with the new one after it.
#[verifier::loop_isolation(false)]
pub fn add_extension(path: &str, extension: &str) -> (r: String)
    ensures
        r@ == strip_trailing_seps(path@) + seq!['.'] + extension@,
{
    let mut out = str_to_chars(path);
    loop
        invariant
            strip_trailing_seps(out@) == strip_trailing_seps(path@),
        decreases out@.len(),
    {
        let n = out.len();
        if n == 0 {
            break;
        }
        let c = out[n - 1];
        if !(c == '/' || c == '\\') {
            break;
        }
        let ghost pre = out@;
        out.pop();
        proof {
            assert(pre.drop_last() =~= out@);
            assert(strip_trailing_seps(pre) == strip_trailing_seps(out@));
        }
    }
    proof {
        assert(strip_trailing_seps(out@) == out@);
    }
    out.push('.');
    let mut ext = str_to_chars(extension);
    out.append(&mut ext);
    assert(out@ =~= strip_trailing_seps(path@) + seq!['.'] + extension@);
    chars_to_string(&out)
}

} // verus!
