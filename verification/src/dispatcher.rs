use vstd::prelude::*;

use crate::process_timeouts::names_view;
use crate::validations::{is_whitespace_char, whitespace_char};

verus! {

// ---------------------------------------------------------------------------
// Channel id lists: a comma-separated string is split, each token trimmed
// of white space, and empty tokens dropped.
// ---------------------------------------------------------------------------

/// The comma-separated tokens of `s`, empties included: one more token
/// than there are commas.
pub open spec fn split_commas(s: Seq<char>) -> Seq<Seq<char>>
    decreases s.len(),
{
    if s.len() == 0 {
        seq![Seq::<char>::empty()]
    } else if s.last() == ',' {
        split_commas(s.drop_last()).push(Seq::<char>::empty())
    } else {
        let r = split_commas(s.drop_last());
        r.update(r.len() - 1, r.last().push(s.last()))
    }
}

/// `s` without leading white space.
pub open spec fn trim_start_spec(s: Seq<char>) -> Seq<char>
    decreases s.len(),
{
    if s.len() > 0 && whitespace_char(s[0]) {
        trim_start_spec(s.drop_first())
    } else {
        s
    }
}

/// `s` without trailing white space.
pub open spec fn trim_end_spec(s: Seq<char>) -> Seq<char>
    decreases s.len(),
{
    if s.len() > 0 && whitespace_char(s.last()) {
        trim_end_spec(s.drop_last())
    } else {
        s
    }
}

/// `s` without leading or trailing white space.
pub open spec fn trim_spec(s: Seq<char>) -> Seq<char> {
    trim_end_spec(trim_start_spec(s))
}

/// The channel ids of a comma-separated list: tokens trimmed, empties
/// dropped.
pub open spec fn parse_channel_ids_spec(s: Seq<char>) -> Seq<Seq<char>> {
    split_commas(s).map_values(|t: Seq<char>| trim_spec(t)).filter(|t: Seq<char>| t.len() > 0)
}

/// There is always at least one token.
proof fn lemma_split_commas_len(s: Seq<char>)
    ensures
        split_commas(s).len() >= 1,
    decreases s.len(),
{
    if s.len() > 0 {
        lemma_split_commas_len(s.drop_last());
    }
}

/// Appending a comma-free segment extends the last token and nothing else.
proof fn lemma_split_extend(p: Seq<char>, t: Seq<char>)
    requires
        forall|i: int| 0 <= i < t.len() ==> t[i] != ',',
    ensures
        split_commas(p + t) == split_commas(p).update(
            split_commas(p).len() - 1,
            split_commas(p).last() + t,
        ),
    decreases t.len(),
{
    lemma_split_commas_len(p);
    let r = split_commas(p);
    if t.len() == 0 {
        assert(p + t =~= p);
        assert(r.last() + t =~= r.last());
        assert(r.update(r.len() - 1, r.last() + t) =~= r);
    } else {
        assert((p + t).drop_last() =~= p + t.drop_last());
        assert((p + t).last() == t.last());
        assert(t.last() != ',') by {
            assert(t[t.len() - 1] != ',');
        }
        assert(forall|i: int| 0 <= i < t.drop_last().len() ==> t.drop_last()[i] == (
        #[trigger] t[i]));
        lemma_split_extend(p, t.drop_last());
        let r1 = split_commas(p + t.drop_last());
        assert(r1 == r.update(r.len() - 1, r.last() + t.drop_last()));
        assert(r1.len() == r.len());
        assert(r1.last() == r.last() + t.drop_last());
        assert(split_commas(p + t) == r1.update(r1.len() - 1, r1.last().push(t.last())));
        assert((r.last() + t.drop_last()).push(t.last()) =~= r.last() + t);
        assert(r1.update(r1.len() - 1, r1.last().push(t.last())) =~= r.update(
            r.len() - 1,
            r.last() + t,
        ));
    }
}

/// Where the leading white space ends, the trim of the front is a suffix.
proof fn lemma_trim_start_at(t: Seq<char>, d: int)
    requires
        0 <= d <= t.len(),
        forall|k: int| 0 <= k < d ==> whitespace_char(#[trigger] t[k]),
        d < t.len() ==> !whitespace_char(t[d]),
    ensures
        trim_start_spec(t) == t.skip(d),
    decreases d,
{
    if d == 0 {
        assert(t.skip(0) =~= t);
    } else {
        assert(whitespace_char(t[0]));
        assert(forall|k: int| 0 <= k < d - 1 ==> t.drop_first()[k] == (#[trigger] t[k + 1]));
        lemma_trim_start_at(t.drop_first(), d - 1);
        assert(t.drop_first().skip(d - 1) =~= t.skip(d));
    }
}

/// Where the trailing white space begins, the trim of the back is a
/// prefix.
proof fn lemma_trim_end_at(u: Seq<char>, e: int)
    requires
        0 <= e <= u.len(),
        forall|k: int| e <= k < u.len() ==> whitespace_char(#[trigger] u[k]),
        e > 0 ==> !whitespace_char(u[e - 1]),
    ensures
        trim_end_spec(u) == u.take(e),
    decreases u.len() - e,
{
    if e == u.len() {
        if e == 0 {
            assert(u.take(0) =~= u);
        } else {
            assert(!whitespace_char(u.last())) by {
                assert(u.last() == u[e - 1]);
            }
            assert(u.take(e) =~= u);
        }
    } else {
        assert(whitespace_char(u.last()));
        assert(forall|k: int| 0 <= k < u.drop_last().len() ==> u.drop_last()[k] == (
        #[trigger] u[k]));
        lemma_trim_end_at(u.drop_last(), e);
        assert(u.drop_last().take(e) =~= u.take(e));
    }
}

/// Splits a comma-separated channel id list, trims each entry, and drops
/// the empty ones, in order.
pub fn parse_channel_ids(channel_ids_csv: &str) -> (r: Vec<String>)
    ensures
        names_view(r@) == parse_channel_ids_spec(channel_ids_csv@),
{
    let n = channel_ids_csv.unicode_len();
    let mut out: Vec<String> = Vec::new();
    let mut tok_start: usize = 0;
    let mut i: usize = 0;
    proof {
        reveal(Seq::filter);
        let tmap = |t: Seq<char>| trim_spec(t);
        let tpred = |t: Seq<char>| t.len() > 0;
        assert(channel_ids_csv@.take(0) =~= Seq::<char>::empty());
        assert(names_view(out@) =~= Seq::<Seq<char>>::empty());
        assert(split_commas(channel_ids_csv@.take(0)).drop_last() =~= Seq::<Seq<char>>::empty());
        assert(Seq::<Seq<char>>::empty().map_values(tmap) =~= Seq::<Seq<char>>::empty());
        assert(Seq::<Seq<char>>::empty().filter(tpred) =~= Seq::<Seq<char>>::empty());
    }
    while i <= n
        invariant
            tok_start <= i <= n,
            n == channel_ids_csv@.len(),
            forall|k: int| tok_start <= k < i && k < n ==> channel_ids_csv@[k] != ',',
            tok_start > 0 ==> channel_ids_csv@[tok_start - 1] == ',',
            split_commas(channel_ids_csv@.take(tok_start as int)).last() =~= Seq::<char>::empty(),
            names_view(out@) == split_commas(
                channel_ids_csv@.take(tok_start as int),
            ).drop_last().map_values(|t: Seq<char>| trim_spec(t)).filter(
                |t: Seq<char>| t.len() > 0,
            ),
        decreases n + 1 - i,
    {
        let s = channel_ids_csv;
        let at_end = i == n;
        let at_comma = if at_end {
            false
        } else {
            s.get_char(i) == ','
        };
        if at_end || at_comma {
            // the token runs from tok_start to i; trim it
            let ghost done = split_commas(s@.take(tok_start as int));
            let ghost token = s@.subrange(tok_start as int, i as int);
            let mut a: usize = tok_start;
            while a < i && is_whitespace_char(s.get_char(a))
                invariant
                    tok_start <= a <= i <= n,
                    n == s@.len(),
                    forall|k: int| tok_start <= k < a ==> whitespace_char(#[trigger] s@[k]),
                decreases i - a,
            {
                a = a + 1;
            }
            let mut b: usize = i;
            while b > a && is_whitespace_char(s.get_char(b - 1))
                invariant
                    a <= b <= i <= n,
                    n == s@.len(),
                    forall|k: int| b <= k < i ==> whitespace_char(#[trigger] s@[k]),
                decreases b,
            {
                b = b - 1;
            }
            proof {
                assert(forall|k: int| 0 <= k < token.len() ==> token[k] == (
                #[trigger] s@[k + tok_start]));
                lemma_trim_start_at(token, a - tok_start);
                let u = token.skip(a - tok_start);
                assert(forall|k: int| 0 <= k < u.len() ==> u[k] == (#[trigger] s@[k + a]));
                lemma_trim_end_at(u, b - a);
                assert(trim_spec(token) =~= s@.subrange(a as int, b as int));
                // the tokens up to position i are the finished ones plus
                // this token
                lemma_split_extend(s@.take(tok_start as int), token);
                assert(s@.take(tok_start as int) + token =~= s@.take(i as int));
                lemma_split_commas_len(s@.take(tok_start as int));
                assert(done.last() + token =~= token);
                assert(split_commas(s@.take(i as int)) =~= done.update(done.len() - 1, token));
                assert(split_commas(s@.take(i as int)) =~= done.drop_last().push(token));
            }
            if a < b {
                let id = String::from_str(s.substring_char(a, b));
                out.push(id);
            }
            if at_comma {
                proof {
                    let tmap = |t: Seq<char>| trim_spec(t);
                    let tpred = |t: Seq<char>| t.len() > 0;
                    assert(s@.take(i + 1 as int).drop_last() =~= s@.take(i as int));
                    assert(s@.take(i + 1 as int).last() == ',');
                    let si = split_commas(s@.take(i as int));
                    assert(split_commas(s@.take(i + 1 as int)) == si.push(Seq::<char>::empty()));
                    assert(split_commas(s@.take(i + 1 as int)).drop_last() =~= si);
                    assert(si =~= done.drop_last().push(token));
                    let mapped = si.map_values(tmap);
                    assert(mapped =~= done.drop_last().map_values(tmap).push(trim_spec(token)));
                    assert(mapped.drop_last() =~= done.drop_last().map_values(tmap));
                    assert(mapped.last() == trim_spec(token));
                    reveal(Seq::filter);
                    assert(mapped.filter(tpred) == if tpred(trim_spec(token)) {
                        mapped.drop_last().filter(tpred).push(trim_spec(token))
                    } else {
                        mapped.drop_last().filter(tpred)
                    });
                    assert(trim_spec(token).len() > 0 <==> a < b) by {
                        assert(trim_spec(token) =~= s@.subrange(a as int, b as int));
                    }
                    if a < b {
                        assert(names_view(out@) =~= names_view(out@.drop_last()).push(
                            s@.subrange(a as int, b as int),
                        ));
                    }
                }
                tok_start = i + 1;
                i = i + 1;
            } else {
                // final token handled; leave the loop
                proof {
                    let tmap = |t: Seq<char>| trim_spec(t);
                    let tpred = |t: Seq<char>| t.len() > 0;
                    let sn = split_commas(s@.take(n as int));
                    assert(sn =~= done.drop_last().push(token));
                    let mapped = sn.map_values(tmap);
                    assert(mapped =~= done.drop_last().map_values(tmap).push(trim_spec(token)));
                    assert(mapped.drop_last() =~= done.drop_last().map_values(tmap));
                    reveal(Seq::filter);
                    assert(mapped.filter(tpred) == if tpred(trim_spec(token)) {
                        mapped.drop_last().filter(tpred).push(trim_spec(token))
                    } else {
                        mapped.drop_last().filter(tpred)
                    });
                    assert(trim_spec(token).len() > 0 <==> a < b) by {
                        assert(trim_spec(token) =~= s@.subrange(a as int, b as int));
                    }
                    if a < b {
                        assert(names_view(out@) =~= names_view(out@.drop_last()).push(
                            s@.subrange(a as int, b as int),
                        ));
                    }
                    assert(s@.take(n as int) =~= s@);
                    assert(names_view(out@) == parse_channel_ids_spec(s@));
                }
                return out;
            }
        } else {
            i = i + 1;
        }
    }
    out
}

/// Groundwork of dispatch isolation: the set of channels attempted is
/// fixed by the id list alone — every token whose trim is non-empty stands
/// in the parsed list, whatever becomes of any other channel's delivery.
pub proof fn lemma_dispatch_covers_all_channels(s: Seq<char>, k: int)
    requires
        0 <= k < split_commas(s).len(),
        trim_spec(split_commas(s)[k]).len() > 0,
    ensures
        parse_channel_ids_spec(s).contains(trim_spec(split_commas(s)[k])),
{
    let tmap = |t: Seq<char>| trim_spec(t);
    let tpred = |t: Seq<char>| t.len() > 0;
    let mapped = split_commas(s).map_values(tmap);
    assert(mapped[k] == trim_spec(split_commas(s)[k]));
    mapped.lemma_filter_contains(tpred, k);
}

} // verus!
