//! CLASP values and their mathematical model.
use vstd::prelude::*;

verus! {

/// A CLASP value. A floating-point value is carried as the bit pattern of
/// its IEEE-754 double (`f64::to_bits`), so that the library can store,
/// compare and route it without computing on it.
#[derive(Debug)]
pub enum ClaspValue {
    Null,
    Bool(bool),
    Int(i64),
    Float(u64),
    String(String),
    Bytes(Vec<u8>),
    Array(Vec<ClaspValue>),
    Dict(Vec<(String, ClaspValue)>),
}

/// The mathematical model of a [`ClaspValue`].
#[verifier::ext_equal]
pub enum ValueModel {
    Null,
    Bool(bool),
    Int(int),
    Float(u64),
    Str(Seq<char>),
    Bytes(Seq<u8>),
    Array(Seq<ValueModel>),
    Dict(Seq<(Seq<char>, ValueModel)>),
}

impl ClaspValue {
    /// The model of this value: strings by their characters, vectors by
    /// their contents.
    pub open spec fn model(&self) -> ValueModel
        decreases self,
    {
        match self {
            ClaspValue::Null => ValueModel::Null,
            ClaspValue::Bool(b) => ValueModel::Bool(*b),
            ClaspValue::Int(i) => ValueModel::Int(*i as int),
            ClaspValue::Float(bits) => ValueModel::Float(*bits),
            ClaspValue::String(s) => ValueModel::Str(s@),
            ClaspValue::Bytes(b) => ValueModel::Bytes(b@),
            ClaspValue::Array(a) => ValueModel::Array(
                Seq::new(
                    a.len() as nat,
                    |i: int|
                        if 0 <= i < a.len() {
                            a[i].model()
                        } else {
                            ValueModel::Null
                        },
                ),
            ),
            ClaspValue::Dict(m) => ValueModel::Dict(
                Seq::new(
                    m.len() as nat,
                    |i: int|
                        if 0 <= i < m.len() {
                            (m[i].0@, m[i].1.model())
                        } else {
                            (Seq::<char>::empty(), ValueModel::Null)
                        },
                ),
            ),
        }
    }

    /// A copy of this value with the same model.
    #[verifier::loop_isolation(false)]
    pub fn duplicate(&self) -> (r: ClaspValue)
        ensures
            r.model() == self.model(),
        decreases self,
    {
        match self {
            ClaspValue::Null => ClaspValue::Null,
            ClaspValue::Bool(b) => ClaspValue::Bool(*b),
            ClaspValue::Int(i) => ClaspValue::Int(*i),
            ClaspValue::Float(bits) => ClaspValue::Float(*bits),
            ClaspValue::String(s) => ClaspValue::String(s.clone()),
            ClaspValue::Bytes(b) => {
                let mut c: Vec<u8> = Vec::new();
                let mut i: usize = 0;
                while i < b.len()
                    invariant
                        i <= b.len(),
                        c@ == b@.take(i as int),
                    decreases b.len() - i,
                {
                    c.push(b[i]);
                    i = i + 1;
                    assert(c@ =~= b@.take(i as int));
                }
                assert(b@.take(b.len() as int) =~= b@);
                ClaspValue::Bytes(c)
            },
            ClaspValue::Array(a) => {
                let mut c: Vec<ClaspValue> = Vec::new();
                let mut i: usize = 0;
                while i < a.len()
                    invariant
                        i <= a.len(),
                        c.len() == i,
                        forall|j: int| 0 <= j < i ==> #[trigger] c[j].model() == a[j].model(),
                    decreases a.len() - i,
                {
                    let e = a[i].duplicate();
                    c.push(e);
                    i = i + 1;
                }
                let r = ClaspValue::Array(c);
                proof {
                    let s1 = r.model()->Array_0;
                    let s2 = self.model()->Array_0;
                    assert(s1.len() == c.len());
                    assert(s2.len() == a.len());
                    assert forall|j: int| 0 <= j < c.len() implies s1[j] == s2[j] by {
                        assert(s1[j] == c[j].model());
                        assert(s2[j] == a[j].model());
                    }
                    assert(s1 =~= s2);
                }
                r
            },
            ClaspValue::Dict(m) => {
                let mut c: Vec<(String, ClaspValue)> = Vec::new();
                let mut i: usize = 0;
                while i < m.len()
                    invariant
                        i <= m.len(),
                        c.len() == i,
                        forall|j: int|
                            0 <= j < i ==> #[trigger] c[j].0@ == m[j].0@ && c[j].1.model()
                                == m[j].1.model(),
                    decreases m.len() - i,
                {
                    let k = m[i].0.clone();
                    proof {
                        assert(decreases_to!(m[i as int] => m[i as int].1));
                    }
                    let e = m[i].1.duplicate();
                    c.push((k, e));
                    i = i + 1;
                }
                let r = ClaspValue::Dict(c);
                proof {
                    let s1 = r.model()->Dict_0;
                    let s2 = self.model()->Dict_0;
                    assert(s1.len() == c.len());
                    assert(s2.len() == m.len());
                    assert forall|j: int| 0 <= j < c.len() implies s1[j] == s2[j] by {
                        assert(s1[j] == (c[j].0@, c[j].1.model()));
                        assert(s2[j] == (m[j].0@, m[j].1.model()));
                    }
                    assert(s1 =~= s2);
                }
                r
            },
        }
    }
}

} // verus!

verus! {

/// Index of the first entry with key `key` of a sequence of keyed entries.
pub open spec fn dict_find<M>(entries: Seq<(Seq<char>, M)>, key: Seq<char>) -> Option<int>
    decreases entries.len(),
{
    if entries.len() == 0 {
        None
    } else if entries[0].0 == key {
        Some(0)
    } else {
        match dict_find(entries.drop_first(), key) {
            Some(i) => Some(i + 1),
            None => None,
        }
    }
}

/// The value of the first entry with key `key`, as a map lookup gives it.
pub open spec fn dict_get<M>(entries: Seq<(Seq<char>, M)>, key: Seq<char>) -> Option<M> {
    match dict_find(entries, key) {
        Some(i) => Some(entries[i].1),
        None => None,
    }
}

/// The entries with `key` bound to `value`: the first entry with that key
/// is replaced, or a new entry is appended when there is none.
pub open spec fn dict_put<M>(entries: Seq<(Seq<char>, M)>, key: Seq<char>, value: M) -> Seq<
    (Seq<char>, M),
> {
    match dict_find(entries, key) {
        Some(i) => entries.update(i, (key, value)),
        None => entries.push((key, value)),
    }
}

/// A lookup after a put gives the value put for its key and what was there
/// before for any other key.
pub proof fn law_get_after_put<M>(entries: Seq<(Seq<char>, M)>, key: Seq<char>, value: M, other: Seq<char>)
    requires
        other != key,
    ensures
        dict_get(dict_put(entries, key, value), key) == Some(value),
        dict_get(dict_put(entries, key, value), other) == dict_get(entries, other),
{
    lemma_dict_find_bounds(entries, key);
    lemma_dict_find_bounds(entries, other);
    let put = dict_put(entries, key, value);
    lemma_dict_find_bounds(put, other);
    match dict_find(entries, key) {
        Some(i) => {
            assert forall|j: int| 0 <= j < i implies #[trigger] put[j].0 != key by {
                lemma_dict_find_smallest(entries, key, j);
                assert(put[j] == entries[j]);
            }
            lemma_dict_find_first(put, key, i);
            match dict_find(entries, other) {
                Some(o) => {
                    assert(o != i);
                    assert forall|j: int| 0 <= j < o implies #[trigger] put[j].0 != other by {
                        lemma_dict_find_smallest(entries, other, j);
                    }
                    lemma_dict_find_first(put, other, o);
                },
                None => {},
            }
        },
        None => {
            lemma_dict_find_first(put, key, entries.len() as int);
            match dict_find(entries, other) {
                Some(o) => {
                    assert forall|j: int| 0 <= j < o implies #[trigger] put[j].0 != other by {
                        lemma_dict_find_smallest(entries, other, j);
                    }
                    lemma_dict_find_first(put, other, o);
                },
                None => {},
            }
        },
    }
}

/// No entry before the first one with a key has that key.
pub proof fn lemma_dict_find_smallest<M>(entries: Seq<(Seq<char>, M)>, key: Seq<char>, j: int)
    requires
        dict_find(entries, key) matches Some(i) && 0 <= j < i,
    ensures
        entries[j].0 != key,
    decreases entries.len(),
{
    lemma_dict_find_bounds(entries, key);
    if entries.len() > 0 && entries[0].0 != key && j > 0 {
        lemma_dict_find_smallest(entries.drop_first(), key, j - 1);
        assert(entries.drop_first()[j - 1] == entries[j]);
    }
}

/// The integer a value holds, if it is an integer.
pub open spec fn model_as_int(v: ValueModel) -> Option<int> {
    match v {
        ValueModel::Int(i) => Some(i),
        _ => None,
    }
}

/// The boolean a value holds, if it is a boolean.
pub open spec fn model_as_bool(v: ValueModel) -> Option<bool> {
    match v {
        ValueModel::Bool(b) => Some(b),
        _ => None,
    }
}

pub proof fn lemma_dict_find_bounds<M>(entries: Seq<(Seq<char>, M)>, key: Seq<char>)
    ensures
        dict_find(entries, key) matches Some(i) ==> 0 <= i < entries.len() && entries[i].0 == key,
        dict_find(entries, key) is None ==> forall|j: int|
            0 <= j < entries.len() ==> #[trigger] entries[j].0 != key,
    decreases entries.len(),
{
    if entries.len() > 0 {
        lemma_dict_find_bounds(entries.drop_first(), key);
        if entries[0].0 != key {
            assert forall|j: int| 1 <= j < entries.len() implies #[trigger] entries[j]
                == entries.drop_first()[j - 1] by {}
        }
    }
}

/// Finds the first entry of a dictionary with the given key.
pub fn dict_lookup(entries: &Vec<(String, ClaspValue)>, key: &str) -> (r: Option<usize>)
    ensures
        match r {
            Some(i) => dict_find(ClaspValue::Dict(*entries).model()->Dict_0, key@) == Some(i as int)
                && i < entries.len(),
            None => dict_find(ClaspValue::Dict(*entries).model()->Dict_0, key@) is None,
        },
{
    let ghost m = ClaspValue::Dict(*entries).model()->Dict_0;
    let kc = crate::text::chars_of(key);
    let mut i: usize = 0;
    while i < entries.len()
        invariant
            i <= entries.len(),
            m == ClaspValue::Dict(*entries).model()->Dict_0,
            m.len() == entries.len(),
            kc@ == key@,
            forall|j: int| 0 <= j < i ==> #[trigger] m[j].0 != key@,
        decreases entries.len() - i,
    {
        let ec = crate::text::chars_of(entries[i].0.as_str());
        assert(m[i as int].0 == entries[i as int].0@);
        if crate::text::chars_eq(&ec, &kc) {
            proof {
                lemma_dict_find_first(m, key@, i as int);
            }
            return Some(i);
        }
        i = i + 1;
    }
    proof {
        lemma_dict_find_bounds(m, key@);
        if dict_find(m, key@) is Some {
            let j = dict_find(m, key@)->0;
            assert(m[j].0 == key@);
        }
    }
    None
}

pub proof fn lemma_dict_find_first<M>(entries: Seq<(Seq<char>, M)>, key: Seq<char>, i: int)
    requires
        0 <= i < entries.len(),
        entries[i].0 == key,
        forall|j: int| 0 <= j < i ==> #[trigger] entries[j].0 != key,
    ensures
        dict_find(entries, key) == Some(i),
    decreases i,
{
    if i > 0 {
        assert forall|j: int| 0 <= j < i - 1 implies #[trigger] entries.drop_first()[j].0 != key by {
            assert(entries.drop_first()[j] == entries[j + 1]);
        }
        lemma_dict_find_first(entries.drop_first(), key, i - 1);
    }
}


/// The model of a list of keyed values.
pub open spec fn entries_model(v: Seq<(String, ClaspValue)>) -> Seq<(Seq<char>, ValueModel)> {
    v.map_values(|e: (String, ClaspValue)| (e.0@, e.1.model()))
}

/// The entries without those with key `key`.
pub open spec fn dict_without<M>(entries: Seq<(Seq<char>, M)>, key: Seq<char>) -> Seq<(Seq<char>, M)>
    decreases entries.len(),
{
    if entries.len() == 0 {
        entries
    } else if entries.last().0 == key {
        dict_without(entries.drop_last(), key)
    } else {
        dict_without(entries.drop_last(), key).push(entries.last())
    }
}

/// The model of a dictionary value is the model of its entries.
pub proof fn lemma_dict_model(v: Vec<(String, ClaspValue)>)
    ensures
        ClaspValue::Dict(v).model()->Dict_0 == entries_model(v@),
{
    assert(ClaspValue::Dict(v).model()->Dict_0 =~= entries_model(v@));
}

/// Binds `key` to `value`: the first entry with that key is replaced, or
/// the entry is appended.
pub fn dict_insert(entries: &mut Vec<(String, ClaspValue)>, key: &str, value: ClaspValue)
    ensures
        entries_model(final(entries)@) == dict_put(entries_model(old(entries)@), key@, value.model()),
{
    proof {
        lemma_dict_model(*entries);
    }
    let ghost m = entries_model(entries@);
    match dict_lookup(entries, key) {
        Some(i) => {
            proof {
                lemma_dict_find_bounds(m, key@);
            }
            entries.set(i, (String::from_str(key), value));
            assert(entries_model(entries@) =~= m.update(i as int, (key@, value.model())));
        },
        None => {
            entries.push((String::from_str(key), value));
            assert(entries_model(entries@) =~= m.push((key@, value.model())));
        },
    }
}

/// Drops every entry with key `key` and returns the value of the first.
pub fn dict_remove(entries: &mut Vec<(String, ClaspValue)>, key: &str) -> (r: Option<ClaspValue>)
    ensures
        entries_model(final(entries)@) == dict_without(entries_model(old(entries)@), key@),
        match r {
            Some(v) => dict_get(entries_model(old(entries)@), key@) == Some(v.model()),
            None => dict_get(entries_model(old(entries)@), key@) is None,
        },
{
    proof {
        lemma_dict_model(*entries);
    }
    let ghost m = entries_model(entries@);
    let found = match dict_lookup(entries, key) {
        Some(i) => {
            proof {
                lemma_dict_find_bounds(m, key@);
            }
            Some(entries[i].1.duplicate())
        },
        None => None,
    };
    let k = String::from_str(key);
    let mut kept: Vec<(String, ClaspValue)> = Vec::new();
    let mut i: usize = 0;
    while i < entries.len()
        invariant
            i <= entries.len(),
            k@ == key@,
            m == entries_model(entries@),
            entries_model(kept@) == dict_without(m.take(i as int), key@),
        decreases entries.len() - i,
    {
        assert(m.take(i + 1).drop_last() =~= m.take(i as int));
        if !(entries[i].0 == k) {
            let ghost before = kept@;
            kept.push((entries[i].0.clone(), entries[i].1.duplicate()));
            assert(entries_model(kept@) =~= entries_model(before).push(m[i as int]));
        } else {
            assert(m[i as int].0 == key@);
        }
        i = i + 1;
    }
    assert(m.take(entries.len() as int) =~= m);
    *entries = kept;
    found
}

/// After a key is dropped no entry has it.
pub proof fn law_get_after_remove<M>(entries: Seq<(Seq<char>, M)>, key: Seq<char>)
    ensures
        dict_get(dict_without(entries, key), key) is None,
    decreases entries.len(),
{
    if entries.len() > 0 {
        law_get_after_remove(entries.drop_last(), key);
        let w = dict_without(entries.drop_last(), key);
        lemma_dict_find_bounds(w, key);
        if entries.last().0 != key {
            let w2 = w.push(entries.last());
            lemma_dict_find_bounds(w2, key);
            if dict_find(w2, key) is Some {
                let j = dict_find(w2, key)->0;
                if j < w.len() {
                    assert(w2[j] == w[j]);
                }
            }
        }
    }
}

/// A lookup in entries with one more appended finds what it found before,
/// else the appended entry when it has the key.
pub proof fn lemma_get_push<M>(s: Seq<(Seq<char>, M)>, x: (Seq<char>, M), k: Seq<char>)
    ensures
        dict_get(s.push(x), k) == match dict_get(s, k) {
            Some(v) => Some(v),
            None => if x.0 == k {
                Some(x.1)
            } else {
                None
            },
        },
{
    let t = s.push(x);
    lemma_dict_find_bounds(s, k);
    match dict_find(s, k) {
        Some(i) => {
            assert forall|j: int| 0 <= j < i implies #[trigger] t[j].0 != k by {
                assert(t[j] == s[j]);
                lemma_dict_find_smallest(s, k, j);
            }
            assert(t[i] == s[i]);
            lemma_dict_find_first(t, k, i);
        },
        None => {
            if x.0 == k {
                assert forall|j: int| 0 <= j < s.len() implies #[trigger] t[j].0 != k by {
                    assert(t[j] == s[j]);
                }
                assert(t[s.len() as int] == x);
                lemma_dict_find_first(t, k, s.len() as int);
            } else {
                lemma_dict_find_bounds(t, k);
                if dict_find(t, k) is Some {
                    let j = dict_find(t, k)->0;
                    if j < s.len() {
                        assert(t[j] == s[j]);
                    }
                }
            }
        },
    }
}

/// Dropping one key leaves the lookups of every other key as they were.
pub proof fn lemma_get_without_other<M>(e: Seq<(Seq<char>, M)>, key: Seq<char>, other: Seq<char>)
    requires
        other != key,
    ensures
        dict_get(dict_without(e, key), other) == dict_get(e, other),
    decreases e.len(),
{
    if e.len() > 0 {
        lemma_get_without_other(e.drop_last(), key, other);
        assert(e =~= e.drop_last().push(e.last()));
        lemma_get_push(e.drop_last(), e.last(), other);
        if e.last().0 != key {
            lemma_get_push(dict_without(e.drop_last(), key), e.last(), other);
        }
    }
}

} // verus!
