//! Mappings between protocol addresses and CLASP addresses, with `*`
//! wildcards carried from one to the other.
use vstd::prelude::*;
use crate::text::{
    chars_eq, chars_from, chars_of, chars_upto, extend_chars, free_of, lemma_split_push_piece,
    lemma_split_single, split_chars, split_on, string_from_chars, views,
};

verus! {

/// Whether `pat` occurs in `s` at index `i`.
pub open spec fn occurs_at(s: Seq<char>, pat: Seq<char>, i: int) -> bool {
    0 <= i && i + pat.len() <= s.len() && s.subrange(i, i + pat.len()) == pat
}

/// The first index from `i` on at which `pat` occurs in `s`, as
/// `str::find` gives it.
pub open spec fn find_from(s: Seq<char>, pat: Seq<char>, i: int) -> Option<int>
    decreases s.len() + 1 - i,
{
    if i < 0 || i + pat.len() > s.len() {
        None
    } else if occurs_at(s, pat, i) {
        Some(i)
    } else {
        find_from(s, pat, i + 1)
    }
}

/// The first index from `i` on holding `c`.
pub open spec fn char_pos_from(s: Seq<char>, c: char, i: int) -> Option<int>
    decreases s.len() - i,
{
    if i < 0 || i >= s.len() {
        None
    } else if s[i] == c {
        Some(i)
    } else {
        char_pos_from(s, c, i + 1)
    }
}

/// `s` with its first `c` replaced by `w`, as `str::replacen(c, w, 1)`
/// gives it.
pub open spec fn replace_first(s: Seq<char>, c: char, w: Seq<char>) -> Seq<char> {
    match char_pos_from(s, c, 0) {
        Some(k) => s.take(k) + w + s.skip(k + 1),
        None => s,
    }
}

/// The walk over the pieces of a wildcard pattern from piece `k` on: each
/// non-empty piece must occur in what is left of the address; the text
/// before it (for all pieces but the first) fills the next `*` of the
/// result, and the address is consumed up to the end of the piece.
pub open spec fn capture_steps(
    parts: Seq<Seq<char>>,
    k: int,
    result: Seq<char>,
    remaining: Seq<char>,
) -> Option<(Seq<char>, Seq<char>)>
    decreases parts.len() - k,
{
    if k < 0 || k >= parts.len() {
        Some((result, remaining))
    } else if parts[k].len() == 0 {
        capture_steps(parts, k + 1, result, remaining)
    } else {
        match find_from(remaining, parts[k], 0) {
            None => None,
            Some(pos) => capture_steps(
                parts,
                k + 1,
                if k > 0 {
                    replace_first(result, '*', remaining.take(pos))
                } else {
                    result
                },
                remaining.skip(pos + parts[k].len()),
            ),
        }
    }
}

/// The CLASP address that the mapping `from` → `to` gives a protocol
/// address: for a pattern without `*`, `to` when the address is `from`;
/// for a pattern with `*`, the pieces between wildcards are found in turn
/// and what lies between them fills the wildcards of `to` (and what is left
/// after a trailing `*` fills one more), provided both patterns have as
/// many wildcards.
pub open spec fn mapped_address(from: Seq<char>, to: Seq<char>, addr: Seq<char>) -> Option<
    Seq<char>,
> {
    if from.contains('*') {
        let fp = split_on(from, '*');
        let tp = split_on(to, '*');
        if fp.len() != tp.len() {
            None
        } else {
            match capture_steps(fp, 0, to, addr) {
                None => None,
                Some((result, remaining)) => Some(
                    if from.last() == '*' && remaining.len() > 0 {
                        replace_first(result, '*', remaining)
                    } else {
                        result
                    },
                ),
            }
        }
    } else if addr == from {
        Some(to)
    } else {
        None
    }
}

/// The first index of `pat` in `s`.
pub fn find_chars(s: &[char], pat: &[char]) -> (r: Option<usize>)
    ensures
        match r {
            Some(i) => find_from(s@, pat@, 0) == Some(i as int),
            None => find_from(s@, pat@, 0) is None,
        },
{
    if pat.len() > s.len() {
        return None;
    }
    let mut i: usize = 0;
    while i <= s.len() - pat.len()
        invariant
            pat.len() <= s.len(),
            i <= s.len() - pat.len() + 1,
            find_from(s@, pat@, 0) == find_from(s@, pat@, i as int),
        decreases s.len() + 1 - i,
    {
        let mut j: usize = 0;
        let mut same = true;
        while j < pat.len()
            invariant
                i + pat.len() <= s.len(),
                j <= pat.len(),
                same == (forall|q: int| 0 <= q < j ==> s@[i + q] == pat@[q]),
            decreases pat.len() - j,
        {
            if s[i + j] != pat[j] {
                same = false;
            }
            j = j + 1;
        }
        if same {
            assert(s@.subrange(i as int, i + pat.len()) =~= pat@);
            return Some(i);
        }
        assert(!occurs_at(s@, pat@, i as int)) by {
            if occurs_at(s@, pat@, i as int) {
                let q = choose|q: int| 0 <= q < pat.len() && s@[i + q] != pat@[q];
                assert(s@.subrange(i as int, i + pat.len())[q] == s@[i + q]);
            }
        }
        i = i + 1;
    }
    None
}

/// `s` with its first `c` replaced by `w`.
pub fn replace_first_chars(s: &[char], c: char, w: &[char]) -> (r: Vec<char>)
    ensures
        r@ == replace_first(s@, c, w@),
{
    let mut k: usize = 0;
    while k < s.len()
        invariant
            k <= s.len(),
            char_pos_from(s@, c, 0) == char_pos_from(s@, c, k as int),
        decreases s.len() - k,
    {
        if s[k] == c {
            let mut r = chars_upto(s, k);
            extend_chars(&mut r, w);
            let rest = chars_from(s, k + 1);
            extend_chars(&mut r, &rest);
            return r;
        }
        k = k + 1;
    }
    chars_from(s, 0)
}

/// Whether `c` occurs in `s`.
fn contains_char(s: &[char], c: char) -> (r: bool)
    ensures
        r == s@.contains(c),
{
    let mut i: usize = 0;
    while i < s.len()
        invariant
            i <= s.len(),
            forall|j: int| 0 <= j < i ==> s@[j] != c,
        decreases s.len() - i,
    {
        if s[i] == c {
            return true;
        }
        i = i + 1;
    }
    false
}

/// A mapping from protocol addresses to CLASP addresses, with an optional
/// value transform `T` applied to the values it carries.
#[derive(Clone, Debug)]
pub struct AddressMapping<T> {
    /// Protocol address pattern.
    pub from: String,
    /// CLASP address pattern.
    pub to: String,
    /// Value transform.
    pub transform: Option<T>,
}

impl<T> AddressMapping<T> {
    /// A mapping from `from` to `to` without a transform.
    pub fn new(from: &str, to: &str) -> (m: Self)
        ensures
            m.from@ == from@,
            m.to@ == to@,
            m.transform is None,
    {
        AddressMapping { from: String::from_str(from), to: String::from_str(to), transform: None }
    }

    /// The mapping with a value transform.
    pub fn with_transform(self, transform: T) -> (m: Self)
        ensures
            m.from == self.from,
            m.to == self.to,
            m.transform == Some(transform),
    {
        AddressMapping { from: self.from, to: self.to, transform: Some(transform) }
    }

    /// The CLASP address for a protocol address, if this mapping applies.
    pub fn map_address(&self, addr: &str) -> (r: Option<String>)
        ensures
            match r {
                Some(s) => mapped_address(self.from@, self.to@, addr@) == Some(s@),
                None => mapped_address(self.from@, self.to@, addr@) is None,
            },
    {
        let from = chars_of(self.from.as_str());
        let to = chars_of(self.to.as_str());
        let a = chars_of(addr);
        if !contains_char(&from, '*') {
            if chars_eq(&a, &from) {
                return Some(self.to.clone());
            }
            return None;
        }
        let fp = split_chars(&from, '*');
        let tp = split_chars(&to, '*');
        if fp.len() != tp.len() {
            return None;
        }
        let ghost parts = split_on(from@, '*');
        let mut result = to;
        let mut remaining = a;
        let mut k: usize = 0;
        while k < fp.len()
            invariant
                k <= fp.len(),
                views(fp@) == parts,
                parts == split_on(self.from@, '*'),
                from@ == self.from@,
                from@.contains('*'),
                fp.len() == tp.len(),
                views(tp@) == split_on(self.to@, '*'),
                capture_steps(parts, 0, self.to@, addr@) == capture_steps(
                    parts,
                    k as int,
                    result@,
                    remaining@,
                ),
            decreases fp.len() - k,
        {
            assert(parts[k as int] == fp@[k as int]@);
            if fp[k].len() > 0 {
                match find_chars(&remaining, &fp[k]) {
                    None => {
                        return None;
                    },
                    Some(pos) => {
                        proof {
                            assert(find_from(remaining@, fp@[k as int]@, 0) == Some(pos as int));
                            lemma_find_bounds(remaining@, fp@[k as int]@, 0);
                            assert(pos + fp@[k as int]@.len() <= remaining@.len());
                        }
                        if k > 0 {
                            let captured = chars_upto(&remaining, pos);
                            result = replace_first_chars(&result, '*', &captured);
                        }
                        let plen = fp[k].len();
                        assert(plen == fp@[k as int]@.len());
                        let rl = remaining.len();
                        assert(pos + plen <= rl);
                        let end = pos + plen;
                        let rest = chars_from(&remaining, end);
                        remaining = rest;
                    },
                }
            }
            k = k + 1;
        }
        let n = from.len();
        if from[n - 1] == '*' && remaining.len() > 0 {
            result = replace_first_chars(&result, '*', &remaining);
        }
        Some(string_from_chars(&result))
    }
}

proof fn lemma_find_bounds(s: Seq<char>, pat: Seq<char>, i: int)
    ensures
        find_from(s, pat, i) matches Some(p) ==> i <= p && p + pat.len() <= s.len(),
    decreases s.len() + 1 - i,
{
    if !(i < 0 || i + pat.len() > s.len()) && !occurs_at(s, pat, i) {
        lemma_find_bounds(s, pat, i + 1);
    }
}

/// The address that the first applicable mapping of a list gives.
pub open spec fn first_mapped(ms: Seq<(Seq<char>, Seq<char>)>, addr: Seq<char>) -> Option<Seq<char>>
    decreases ms.len(),
{
    if ms.len() == 0 {
        None
    } else {
        match mapped_address(ms[0].0, ms[0].1, addr) {
            Some(r) => Some(r),
            None => first_mapped(ms.drop_first(), addr),
        }
    }
}

/// The patterns of a list of mappings.
pub open spec fn patterns<T>(ms: Seq<AddressMapping<T>>) -> Seq<(Seq<char>, Seq<char>)> {
    ms.map_values(|m: AddressMapping<T>| (m.from@, m.to@))
}

/// A list of mappings, tried in order, with the addresses already mapped
/// remembered.
#[derive(Debug)]
pub struct MappingTable<T> {
    mappings: Vec<AddressMapping<T>>,
    cache: Vec<(String, String)>,
}

impl<T> MappingTable<T> {
    /// Every remembered address maps to what the mappings give it.
    #[verifier::type_invariant]
    spec fn cache_agrees(self) -> bool {
        forall|i: int|
            0 <= i < self.cache@.len() ==> first_mapped(patterns(self.mappings@), #[trigger] self.cache@[i].0@)
                == Some(self.cache@[i].1@)
    }

    /// The mappings, in the order they were added.
    pub closed spec fn spec_mappings(&self) -> Seq<AddressMapping<T>> {
        self.mappings@
    }

    /// A table without mappings.
    pub fn new() -> (t: Self)
        ensures
            t.spec_mappings().len() == 0,
    {
        MappingTable { mappings: Vec::new(), cache: Vec::new() }
    }

    /// Adds a mapping after the others (and forgets the remembered
    /// addresses).
    pub fn add(&mut self, mapping: AddressMapping<T>)
        ensures
            final(self).spec_mappings() == old(self).spec_mappings().push(mapping),
    {
        let mut ms: Vec<AddressMapping<T>> = Vec::new();
        let mut cache: Vec<(String, String)> = Vec::new();
        std::mem::swap(&mut cache, &mut self.cache);
        std::mem::swap(&mut ms, &mut self.mappings);
        ms.push(mapping);
        self.mappings = ms;
    }

    /// The CLASP address of a protocol address: what the first applicable
    /// mapping gives, if any applies.
    pub fn map(&mut self, addr: &str) -> (r: Option<String>)
        ensures
            final(self).spec_mappings() == old(self).spec_mappings(),
            match r {
                Some(s) => first_mapped(patterns(old(self).spec_mappings()), addr@) == Some(s@),
                None => first_mapped(patterns(old(self).spec_mappings()), addr@) is None,
            },
    {
        proof {
            use_type_invariant(&*self);
        }
        let key = String::from_str(addr);
        let mut i: usize = 0;
        while i < self.cache.len()
            invariant
                i <= self.cache.len(),
                key@ == addr@,
                self.mappings@ == old(self).mappings@,
                forall|q: int|
                    0 <= q < self.cache@.len() ==> first_mapped(
                        patterns(self.mappings@),
                        #[trigger] self.cache@[q].0@,
                    ) == Some(self.cache@[q].1@),
            decreases self.cache.len() - i,
        {
            if self.cache[i].0 == key {
                return Some(self.cache[i].1.clone());
            }
            i = i + 1;
        }
        let ghost ps = patterns(self.mappings@);
        let mut j: usize = 0;
        assert(ps.skip(0) =~= ps);
        while j < self.mappings.len()
            invariant
                j <= self.mappings.len(),
                ps == patterns(self.mappings@),
                first_mapped(ps, addr@) == first_mapped(ps.skip(j as int), addr@),
                key@ == addr@,
                self.mappings@ == old(self).mappings@,
                forall|q: int|
                    0 <= q < self.cache@.len() ==> first_mapped(
                        patterns(self.mappings@),
                        #[trigger] self.cache@[q].0@,
                    ) == Some(self.cache@[q].1@),
            decreases self.mappings.len() - j,
        {
            let ghost rest = ps.skip(j as int);
            assert(rest[0] == (self.mappings@[j as int].from@, self.mappings@[j as int].to@));
            assert(rest.drop_first() =~= ps.skip(j + 1));
            match self.mappings[j].map_address(addr) {
                Some(res) => {
                    assert(first_mapped(rest, addr@) == Some(res@));
                    let mut cache: Vec<(String, String)> = Vec::new();
                    std::mem::swap(&mut cache, &mut self.cache);
                    let ghost old_cache = cache@;
                    cache.push((key, res.clone()));
                    assert forall|q: int| 0 <= q < cache@.len() implies first_mapped(
                        patterns(self.mappings@),
                        #[trigger] cache@[q].0@,
                    ) == Some(cache@[q].1@) by {
                        if q < old_cache.len() {
                            assert(cache@[q] == old_cache[q]);
                        }
                    }
                    self.cache = cache;
                    return Some(res);
                },
                None => {},
            }
            j = j + 1;
        }
        assert(ps.skip(self.mappings.len() as int) =~= Seq::<(Seq<char>, Seq<char>)>::empty());
        None
    }

    /// The transform of the first mapping that applies to the address and
    /// has one.
    pub fn transform(&self, addr: &str) -> (r: Option<&T>)
        ensures
            match r {
                Some(t) => exists|j: int|
                    0 <= j < self.spec_mappings().len() && mapped_address(
                        self.spec_mappings()[j].from@,
                        self.spec_mappings()[j].to@,
                        addr@,
                    ) is Some && #[trigger] self.spec_mappings()[j].transform == Some(*t)
                        && forall|q: int|
                        0 <= q < j ==> !(mapped_address(
                            self.spec_mappings()[q].from@,
                            self.spec_mappings()[q].to@,
                            addr@,
                        ) is Some && #[trigger] self.spec_mappings()[q].transform is Some),
                None => forall|j: int|
                    0 <= j < self.spec_mappings().len() ==> !(mapped_address(
                        self.spec_mappings()[j].from@,
                        self.spec_mappings()[j].to@,
                        addr@,
                    ) is Some && #[trigger] self.spec_mappings()[j].transform is Some),
            },
    {
        let mut j: usize = 0;
        while j < self.mappings.len()
            invariant
                j <= self.mappings.len(),
                forall|q: int|
                    0 <= q < j ==> !(mapped_address(
                        self.mappings@[q].from@,
                        self.mappings@[q].to@,
                        addr@,
                    ) is Some && #[trigger] self.mappings@[q].transform is Some),
            decreases self.mappings.len() - j,
        {
            let m = &self.mappings[j];
            if m.map_address(addr).is_some() {
                match &m.transform {
                    Some(t) => {
                        return Some(t);
                    },
                    None => {},
                }
            }
            j = j + 1;
        }
        None
    }
}

/// A mapping without wildcards applies to its own address only, and gives
/// its target unchanged.
pub proof fn law_literal_mapping(from: Seq<char>, to: Seq<char>, addr: Seq<char>)
    requires
        !from.contains('*'),
    ensures
        mapped_address(from, to, addr) == (if addr == from {
            Some(to)
        } else {
            None::<Seq<char>>
        }),
{
}

/// Pieces joined by `*`.
pub open spec fn star_join(ps: Seq<Seq<char>>) -> Seq<char>
    decreases ps.len(),
{
    if ps.len() == 0 {
        Seq::empty()
    } else if ps.len() == 1 {
        ps[0]
    } else {
        star_join(ps.drop_last()).push('*') + ps.last()
    }
}

/// The pieces `ps` with the texts `cs` between them:
/// `ps[0] + cs[0] + ps[1] + ... + cs[n - 1] + ps[n]`.
pub open spec fn interleave(ps: Seq<Seq<char>>, cs: Seq<Seq<char>>) -> Seq<char>
    decreases cs.len(),
{
    if ps.len() == 0 {
        Seq::empty()
    } else if cs.len() == 0 {
        ps[0]
    } else {
        ps[0] + cs[0] + interleave(ps.drop_first(), cs.drop_first())
    }
}

proof fn lemma_split_star_join(ps: Seq<Seq<char>>)
    requires
        ps.len() >= 1,
        forall|i: int| 0 <= i < ps.len() ==> free_of(#[trigger] ps[i], '*'),
    ensures
        split_on(star_join(ps), '*') == ps,
    decreases ps.len(),
{
    if ps.len() == 1 {
        lemma_split_single(ps[0], '*');
        assert(seq![ps[0]] =~= ps);
    } else {
        let front = ps.drop_last();
        assert forall|i: int| 0 <= i < front.len() implies free_of(#[trigger] front[i], '*') by {
            assert(front[i] == ps[i]);
        }
        lemma_split_star_join(front);
        assert(free_of(ps[ps.len() - 1], '*'));
        lemma_split_push_piece(star_join(front), ps.last(), '*');
        assert(front.push(ps.last()) =~= ps);
    }
}

proof fn lemma_star_join_front(x: Seq<char>, rest: Seq<Seq<char>>)
    requires
        rest.len() >= 1,
    ensures
        star_join(seq![x] + rest) == x.push('*') + star_join(rest),
    decreases rest.len(),
{
    let s = seq![x] + rest;
    if rest.len() == 1 {
        assert(s.drop_last() =~= seq![x]);
        assert(s.last() == rest[0]);
        assert(star_join(seq![x]) == x);
        assert(star_join(rest) == rest[0]);
        assert(star_join(s) == star_join(s.drop_last()).push('*') + s.last());
    } else {
        lemma_star_join_front(x, rest.drop_last());
        assert(s.drop_last() =~= seq![x] + rest.drop_last());
        assert(s.last() == rest.last());
        assert(star_join(s) == star_join(s.drop_last()).push('*') + s.last());
        assert(star_join(rest) == star_join(rest.drop_last()).push('*') + rest.last());
        assert((x.push('*') + star_join(rest.drop_last())).push('*') + rest.last() =~= x.push('*')
            + (star_join(rest.drop_last()).push('*') + rest.last()));
    }
}

proof fn lemma_char_pos(s: Seq<char>, c: char, i: int, p: int)
    requires
        0 <= i <= p < s.len(),
        s[p] == c,
        forall|j: int| i <= j < p ==> s[j] != c,
    ensures
        char_pos_from(s, c, i) == Some(p),
    decreases p - i,
{
    if i < p {
        lemma_char_pos(s, c, i + 1, p);
    }
}

/// Replacing the first `*` of a text whose first `*` follows `x`.
proof fn lemma_replace_after(x: Seq<char>, y: Seq<char>, w: Seq<char>)
    requires
        free_of(x, '*'),
    ensures
        replace_first(x.push('*') + y, '*', w) == x + w + y,
{
    let s = x.push('*') + y;
    assert forall|j: int| 0 <= j < x.len() implies s[j] != '*' by {
        assert(s[j] == x[j]);
    }
    lemma_char_pos(s, '*', 0, x.len() as int);
    assert(s.take(x.len() as int) =~= x);
    assert(s.skip(x.len() as int + 1) =~= y);
}

proof fn lemma_find_first(s: Seq<char>, pat: Seq<char>, i: int, p: int)
    requires
        0 <= i <= p,
        occurs_at(s, pat, p),
        forall|j: int| i <= j < p ==> !occurs_at(s, pat, j),
    ensures
        find_from(s, pat, i) == Some(p),
    decreases p - i,
{
    if i < p {
        lemma_find_first(s, pat, i + 1, p);
    }
}

/// The conditions under which a wildcard mapping is read piece by piece:
/// `n` wildcards in both patterns, a trailing one in `from`, non-empty
/// middle pieces, non-empty captured texts, no `*` in any piece or
/// captured text, and each middle piece found first right after the text
/// captured before it.
pub open spec fn plain_capture(ls: Seq<Seq<char>>, ts: Seq<Seq<char>>, cs: Seq<Seq<char>>) -> bool {
    let n = cs.len();
    &&& n >= 1
    &&& ls.len() == n + 1
    &&& ts.len() == n + 1
    &&& ls[n as int].len() == 0
    &&& forall|i: int| 0 <= i <= n ==> free_of(#[trigger] ls[i], '*')
    &&& forall|i: int| 0 <= i <= n ==> free_of(#[trigger] ts[i], '*')
    &&& forall|i: int| 0 <= i < n ==> free_of(#[trigger] cs[i], '*') && cs[i].len() > 0
    &&& forall|i: int| 1 <= i < n ==> (#[trigger] ls[i]).len() > 0
    &&& forall|i: int, j: int|
        1 <= i < n && 0 <= j < cs[i - 1].len() ==> !#[trigger] occurs_at(
            cs[i - 1] + ls[i],
            ls[i],
            j,
        )
}

proof fn lemma_capture_from(
    ls: Seq<Seq<char>>,
    ts: Seq<Seq<char>>,
    cs: Seq<Seq<char>>,
    k: int,
    pre: Seq<char>,
)
    requires
        plain_capture(ls, ts, cs),
        1 <= k <= cs.len(),
        free_of(pre, '*'),
    ensures
        capture_steps(
            ls,
            k,
            pre.push('*') + star_join(ts.skip(k)),
            cs[k - 1] + interleave(ls.skip(k), cs.skip(k)),
        ) matches Some((r, rem)) && rem.len() > 0 && replace_first(r, '*', rem) == pre + cs[k - 1]
            + interleave(ts.skip(k), cs.skip(k)),
    decreases cs.len() - k,
{
    let n = cs.len() as int;
    let c = cs[k - 1];
    let result = pre.push('*') + star_join(ts.skip(k));
    let remaining = c + interleave(ls.skip(k), cs.skip(k));
    assert(free_of(c, '*') && c.len() > 0);
    if k == n {
        assert(ls.skip(k) =~= seq![ls[n]]);
        assert(cs.skip(k) =~= Seq::<Seq<char>>::empty());
        assert(ts.skip(k) =~= seq![ts[n]]);
        assert(interleave(ls.skip(k), cs.skip(k)) == ls[n]);
        assert(remaining =~= c);
        assert(star_join(ts.skip(k)) == ts[n]);
        assert(interleave(ts.skip(k), cs.skip(k)) == ts[n]);
        lemma_replace_after(pre, ts[n], c);
        assert(capture_steps(ls, k + 1, result, remaining) == Some((result, remaining)));
        assert(capture_steps(ls, k, result, remaining) == Some((result, remaining)));
    } else {
        let l = ls[k];
        assert(l.len() > 0);
        assert(free_of(ts[k], '*'));
        let lrest = interleave(ls.skip(k + 1), cs.skip(k + 1));
        assert(ls.skip(k).drop_first() =~= ls.skip(k + 1));
        assert(cs.skip(k).drop_first() =~= cs.skip(k + 1));
        assert(ts.skip(k).drop_first() =~= ts.skip(k + 1));
        assert(ls.skip(k)[0] == l && cs.skip(k)[0] == cs[k] && ts.skip(k)[0] == ts[k]);
        assert(interleave(ls.skip(k), cs.skip(k)) == l + cs[k] + lrest);
        assert(remaining =~= (c + l) + (cs[k] + lrest));
        assert(occurs_at(remaining, l, c.len() as int)) by {
            assert(remaining.subrange(c.len() as int, c.len() as int + l.len() as int) =~= l);
        }
        assert forall|j: int| 0 <= j < c.len() implies !occurs_at(remaining, l, j) by {
            assert(!occurs_at(c + l, l, j));
            if occurs_at(remaining, l, j) {
                assert(remaining.subrange(j, j + l.len()) =~= (c + l).subrange(j, j + l.len()));
            }
        }
        lemma_find_first(remaining, l, 0, c.len() as int);
        assert(remaining.take(c.len() as int) =~= c);
        assert(ts.skip(k) =~= seq![ts[k]] + ts.skip(k + 1));
        lemma_star_join_front(ts[k], ts.skip(k + 1));
        lemma_replace_after(pre, star_join(ts.skip(k)), c);
        let pre2 = pre + c + ts[k];
        assert(free_of(pre2, '*')) by {
            assert forall|j: int| 0 <= j < pre2.len() implies pre2[j] != '*' by {
                if j < pre.len() {
                    assert(pre2[j] == pre[j]);
                } else if j < pre.len() + c.len() {
                    assert(pre2[j] == c[j - pre.len()]);
                } else {
                    assert(pre2[j] == ts[k][j - pre.len() - c.len()]);
                }
            }
        }
        assert(pre + c + star_join(ts.skip(k)) =~= pre2.push('*') + star_join(ts.skip(k + 1)));
        assert(remaining.skip(c.len() as int + l.len() as int) =~= cs[k] + lrest);
        lemma_capture_from(ls, ts, cs, k + 1, pre2);
        assert(capture_steps(ls, k, result, remaining) == capture_steps(
            ls,
            k + 1,
            pre2.push('*') + star_join(ts.skip(k + 1)),
            cs[k] + lrest,
        ));
        assert(interleave(ts.skip(k), cs.skip(k)) == ts[k] + cs[k] + interleave(
            ts.skip(k + 1),
            cs.skip(k + 1),
        ));
        assert(pre2 + cs[k] + interleave(ts.skip(k + 1), cs.skip(k + 1)) =~= pre + c + interleave(
            ts.skip(k),
            cs.skip(k),
        ));
    }
}

/// A mapping whose patterns have `n` wildcards each, the last at the end
/// of `from`, applied to an address in which each wildcard of `from`
/// stands for a non-empty text (each middle piece of `from` found first
/// right after the text before it), gives `to` with those texts in its
/// wildcards, in order, and no wildcard left, whatever `n` is.
pub proof fn law_wildcards_filled(ls: Seq<Seq<char>>, ts: Seq<Seq<char>>, cs: Seq<Seq<char>>)
    requires
        plain_capture(ls, ts, cs),
    ensures
        mapped_address(star_join(ls), star_join(ts), interleave(ls, cs)) == Some(interleave(ts, cs)),
{
    let from = star_join(ls);
    let to = star_join(ts);
    let addr = interleave(ls, cs);
    let remaining1 = cs[0] + interleave(ls.skip(1), cs.skip(1));
    let to1 = ts[0].push('*') + star_join(ts.skip(1));
    assert(split_on(from, '*') == ls) by {
        lemma_split_star_join(ls);
    }
    assert(split_on(to, '*') == ts) by {
        lemma_split_star_join(ts);
    }
    assert(from.len() > 0 && from.last() == '*') by {
        assert(ls.len() >= 2);
        assert(ls.last().len() == 0);
        assert(from == star_join(ls.drop_last()).push('*') + ls.last());
        assert(from =~= star_join(ls.drop_last()).push('*'));
    }
    assert(from.contains('*')) by {
        assert(from[from.len() - 1] == '*');
    }
    assert(to == to1) by {
        assert(ts =~= seq![ts[0]] + ts.skip(1));
        lemma_star_join_front(ts[0], ts.skip(1));
    }
    assert(addr == ls[0] + remaining1) by {
        assert(ls.drop_first() =~= ls.skip(1));
        assert(cs.drop_first() =~= cs.skip(1));
        assert(addr == ls[0] + cs[0] + interleave(ls.drop_first(), cs.drop_first()));
        assert(ls[0] + cs[0] + interleave(ls.skip(1), cs.skip(1)) =~= ls[0] + remaining1);
    }
    assert(capture_steps(ls, 0, to, addr) == capture_steps(ls, 1, to1, remaining1)) by {
        if ls[0].len() > 0 {
            assert(occurs_at(addr, ls[0], 0)) by {
                assert(addr.subrange(0, ls[0].len() as int) =~= ls[0]);
            }
            lemma_find_first(addr, ls[0], 0, 0);
            assert(addr.skip(ls[0].len() as int) =~= remaining1);
        } else {
            assert(addr =~= remaining1);
        }
    }
    lemma_capture_from(ls, ts, cs, 1, ts[0]);
    assert(interleave(ts, cs) == ts[0] + cs[0] + interleave(ts.skip(1), cs.skip(1))) by {
        assert(ts.drop_first() =~= ts.skip(1));
        assert(cs.drop_first() =~= cs.skip(1));
    }
}

} // verus!
