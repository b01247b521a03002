//! Address patterns of subscriptions: `*` matches exactly one segment,
//! `**` any number of segments.
use vstd::prelude::*;
use crate::text::{chars_eq, chars_of, split_chars, split_on, views};

verus! {

/// Whether pattern segments match address segments: `*` stands for one
/// segment, `**` for any number of segments (none included), any other
/// segment for itself.
pub open spec fn segments_match(p: Seq<Seq<char>>, a: Seq<Seq<char>>) -> bool
    decreases p.len(), a.len(),
{
    if p.len() == 0 {
        a.len() == 0
    } else if p[0] == "**"@ {
        segments_match(p.drop_first(), a) || (a.len() > 0 && segments_match(p, a.drop_first()))
    } else if a.len() == 0 {
        false
    } else if p[0] == "*"@ || p[0] == a[0] {
        segments_match(p.drop_first(), a.drop_first())
    } else {
        false
    }
}

/// Whether an address matches a pattern, both split at `/`.
pub open spec fn glob_matches(pattern: Seq<char>, address: Seq<char>) -> bool {
    segments_match(split_on(pattern, '/'), split_on(address, '/'))
}

fn is_one(s: &Vec<char>) -> (r: bool)
    ensures
        r == (s@ == "*"@),
{
    proof {
        reveal_strlit("*");
    }
    let r = s.len() == 1 && s[0] == '*';
    proof {
        if s@ == "*"@ {
            assert(s@[0] == '*');
        }
        if r {
            assert(s@ =~= "*"@);
        }
    }
    r
}

fn is_any(s: &Vec<char>) -> (r: bool)
    ensures
        r == (s@ == "**"@),
{
    proof {
        reveal_strlit("**");
    }
    let r = s.len() == 2 && s[0] == '*' && s[1] == '*';
    proof {
        if s@ == "**"@ {
            assert(s@[0] == '*' && s@[1] == '*');
        }
        if r {
            assert(s@ =~= "**"@);
        }
    }
    r
}

fn match_from(p: &Vec<Vec<char>>, a: &Vec<Vec<char>>, i: usize, j: usize) -> (r: bool)
    requires
        i <= p.len(),
        j <= a.len(),
    ensures
        r == segments_match(views(p@).skip(i as int), views(a@).skip(j as int)),
    decreases p.len() - i, a.len() - j,
{
    let ghost ps = views(p@).skip(i as int);
    let ghost as_ = views(a@).skip(j as int);
    if i == p.len() {
        return j == a.len();
    }
    assert(ps[0] == p@[i as int]@);
    assert(ps.drop_first() =~= views(p@).skip(i + 1));
    if j < a.len() {
        assert(as_[0] == a@[j as int]@);
        assert(as_.drop_first() =~= views(a@).skip(j + 1));
    }
    if is_any(&p[i]) {
        if match_from(p, a, i + 1, j) {
            return true;
        }
        if j < a.len() {
            return match_from(p, a, i, j + 1);
        }
        return false;
    }
    if j == a.len() {
        return false;
    }
    if is_one(&p[i]) || chars_eq(&p[i], &a[j]) {
        match_from(p, a, i + 1, j + 1)
    } else {
        false
    }
}

/// Whether `address` matches the subscription pattern `pattern`.
pub fn glob_match(pattern: &str, address: &str) -> (r: bool)
    ensures
        r == glob_matches(pattern@, address@),
{
    let pc = chars_of(pattern);
    let ac = chars_of(address);
    let ps = split_chars(&pc, '/');
    let asg = split_chars(&ac, '/');
    assert(views(ps@).skip(0) =~= views(ps@));
    assert(views(asg@).skip(0) =~= views(asg@));
    match_from(&ps, &asg, 0, 0)
}

/// `**` alone matches any sequence of segments, none included.
pub proof fn law_globstar_matches_all(a: Seq<Seq<char>>)
    ensures
        segments_match(seq!["**"@], a),
    decreases a.len(),
{
    let p = seq!["**"@];
    assert(p[0] == "**"@);
    assert(p.drop_first() =~= Seq::<Seq<char>>::empty());
    if a.len() > 0 {
        law_globstar_matches_all(a.drop_first());
        assert(segments_match(p, a.drop_first()));
    } else {
        assert(segments_match(p.drop_first(), a));
    }
}

/// `*` alone matches exactly one segment, whatever it holds.
pub proof fn law_star_matches_one(a: Seq<Seq<char>>)
    ensures
        segments_match(seq!["*"@], a) <==> a.len() == 1,
{
    reveal_strlit("*");
    reveal_strlit("**");
    let p = seq!["*"@];
    assert(p[0] != "**"@) by {
        assert(p[0].len() != "**"@.len());
    }
    assert(p.drop_first() =~= Seq::<Seq<char>>::empty());
    assert(p[0] == "*"@);
    if a.len() > 0 {
        assert(segments_match(p.drop_first(), a.drop_first()) == (a.drop_first().len() == 0));
    }
}

/// Whether no segment of a pattern is a wildcard.
pub open spec fn literal(p: Seq<Seq<char>>) -> bool {
    forall|i: int| 0 <= i < p.len() ==> #[trigger] p[i] != "*"@ && p[i] != "**"@
}

/// A pattern without wildcards matches exactly the address with the same
/// segments.
pub proof fn law_literal_matches_itself(p: Seq<Seq<char>>, a: Seq<Seq<char>>)
    requires
        literal(p),
    ensures
        segments_match(p, a) <==> p == a,
    decreases p.len(), a.len(),
{
    if p.len() > 0 {
        assert(p[0] != "*"@ && p[0] != "**"@);
        assert(literal(p.drop_first())) by {
            assert forall|i: int| 0 <= i < p.drop_first().len() implies #[trigger] p.drop_first()[i]
                != "*"@ && p.drop_first()[i] != "**"@ by {
                assert(p.drop_first()[i] == p[i + 1]);
            }
        }
        if a.len() > 0 {
            law_literal_matches_itself(p.drop_first(), a.drop_first());
            if p == a {
                assert(p.drop_first() =~= a.drop_first());
            }
            if p[0] == a[0] && p.drop_first() == a.drop_first() {
                assert(p =~= a) by {
                    assert forall|i: int| 0 <= i < p.len() implies p[i] == a[i] by {
                        if i > 0 {
                            assert(p[i] == p.drop_first()[i - 1]);
                            assert(a[i] == a.drop_first()[i - 1]);
                        }
                    }
                }
            }
        }
    } else {
        if a == p {
        }
        if a.len() == 0 {
            assert(a =~= p);
        }
    }
}

/// A `**` in front of a pattern that matches some segments also matches
/// those segments with any segments put before them.
proof fn lemma_globstar_skips(q: Seq<Seq<char>>, mid: Seq<Seq<char>>, a: Seq<Seq<char>>)
    requires
        segments_match(q, a),
    ensures
        segments_match(seq!["**"@] + q, mid + a),
    decreases mid.len(),
{
    let p = seq!["**"@] + q;
    assert(p[0] == "**"@);
    assert(p.drop_first() =~= q);
    if mid.len() == 0 {
        assert(mid + a =~= a);
    } else {
        lemma_globstar_skips(q, mid.drop_first(), a);
        assert((mid + a).drop_first() =~= mid.drop_first() + a);
    }
}

/// Literal segments in front of a pattern match themselves in front of
/// what the pattern matches.
proof fn lemma_literal_prefix(pre: Seq<Seq<char>>, q: Seq<Seq<char>>, a: Seq<Seq<char>>)
    requires
        literal(pre),
        segments_match(q, a),
    ensures
        segments_match(pre + q, pre + a),
    decreases pre.len(),
{
    if pre.len() == 0 {
        assert(pre + q =~= q);
        assert(pre + a =~= a);
    } else {
        let rest = pre.drop_first();
        assert(literal(rest)) by {
            assert forall|i: int| 0 <= i < rest.len() implies #[trigger] rest[i] != "*"@ && rest[i]
                != "**"@ by {
                assert(rest[i] == pre[i + 1]);
            }
        }
        lemma_literal_prefix(rest, q, a);
        assert(pre[0] != "*"@ && pre[0] != "**"@);
        assert((pre + q)[0] == pre[0]);
        assert((pre + a)[0] == pre[0]);
        assert((pre + q).drop_first() =~= rest + q);
        assert((pre + a).drop_first() =~= rest + a);
    }
}

/// A `**` matches any number of segments wherever it stands: between
/// literal segments before and after it, it matches whatever segments lie
/// between them in the address.
pub proof fn law_globstar_anywhere(pre: Seq<Seq<char>>, mid: Seq<Seq<char>>, suf: Seq<Seq<char>>)
    requires
        literal(pre),
        literal(suf),
    ensures
        segments_match(pre + seq!["**"@] + suf, pre + mid + suf),
{
    law_literal_matches_itself(suf, suf);
    lemma_globstar_skips(suf, mid, suf);
    lemma_literal_prefix(pre, seq!["**"@] + suf, mid + suf);
    assert(pre + seq!["**"@] + suf =~= pre + (seq!["**"@] + suf));
    assert(pre + mid + suf =~= pre + (mid + suf));
}

/// A `*` matches exactly one segment wherever it stands: between literal
/// segments before and after it, it matches any one segment.
pub proof fn law_star_anywhere(pre: Seq<Seq<char>>, x: Seq<char>, suf: Seq<Seq<char>>)
    requires
        literal(pre),
        literal(suf),
    ensures
        segments_match(pre + seq!["*"@] + suf, pre + seq![x] + suf),
{
    reveal_strlit("*");
    reveal_strlit("**");
    law_literal_matches_itself(suf, suf);
    let q = seq!["*"@] + suf;
    let a = seq![x] + suf;
    assert(q[0] == "*"@);
    assert(q[0] != "**"@) by {
        assert(q[0].len() != "**"@.len());
    }
    assert(q.drop_first() =~= suf);
    assert(a.drop_first() =~= suf);
    assert(segments_match(q, a));
    lemma_literal_prefix(pre, q, a);
    assert(pre + seq!["*"@] + suf =~= pre + q);
    assert(pre + seq![x] + suf =~= pre + a);
}

} // verus!
