//! The levels last received per universe and channel, so that a receiver
//! passes on only the channels whose level changed.
use vstd::prelude::*;
use std::collections::HashMap;
use crate::message::{is_plain_set, Message};
use crate::sacn::{channel_address, SacnBridge};
use crate::value::ClaspValue;

verus! {

broadcast use vstd::std_specs::hash::group_hash_axioms;

/// The key of channel `channel` of `universe` in a tracker's map: the
/// universe in the high 16 bits, the channel in the low 16 bits.
pub open spec fn level_key(universe: u16, channel: int) -> int {
    universe as int * 65536 + channel
}

/// The levels last received, by universe and channel.
#[derive(Debug)]
pub struct LevelTracker {
    levels: HashMap<u32, u8>,
}

/// Which channels of a packet carry a level different from the one last
/// received (or come first): their channel numbers and levels, in order.
/// `last` gives the level last received on each channel.
pub open spec fn changes_by(last: spec_fn(int) -> Option<u8>, data: Seq<u8>) -> Seq<(u16, u8)>
    decreases data.len(),
{
    if data.len() == 0 {
        Seq::empty()
    } else {
        let c = data.len() as int;
        changes_by(last, data.drop_last()) + if last(c) != Some(data.last()) {
            seq![(c as u16, data.last())]
        } else {
            Seq::empty()
        }
    }
}

/// The changed channels of a packet for a universe of a tracker.
pub open spec fn changed_channels(t: LevelTracker, universe: u16, data: Seq<u8>) -> Seq<(u16, u8)> {
    changes_by(|c: int| t.level(universe, c), data)
}

impl LevelTracker {
    /// The level last received on channel `channel` of `universe`.
    pub closed spec fn level(self, universe: u16, channel: int) -> Option<u8> {
        if 0 <= channel < 65536 && self.levels@.contains_key(level_key(universe, channel) as u32) {
            Some(self.levels@[level_key(universe, channel) as u32])
        } else {
            None
        }
    }

    /// A tracker that has received nothing.
    pub fn new() -> (t: Self)
        ensures
            forall|u: u16, c: int| #[trigger] t.level(u, c) is None,
    {
        LevelTracker { levels: HashMap::new() }
    }

    /// Takes a packet of levels for `universe` (channel `i + 1` at index
    /// `i`) and gives the SET of every channel whose level changed, in
    /// channel order, at `{namespace}/{universe}/{channel}`; the levels are
    /// remembered.
    pub fn observe(&mut self, namespace: &str, universe: u16, data: &[u8]) -> (r: Vec<Message>)
        requires
            data.len() < 65536,
        ensures
            r.len() == changed_channels(*old(self), universe, data@).len(),
            forall|i: int|
                0 <= i < r.len() ==> is_plain_set(
                    #[trigger] r@[i],
                    channel_address(
                        namespace@,
                        universe as nat,
                        changed_channels(*old(self), universe, data@)[i].0 as nat,
                    ),
                    ClaspValue::Int(changed_channels(*old(self), universe, data@)[i].1 as i64),
                ),
            forall|c: int|
                1 <= c <= data.len() ==> #[trigger] final(self).level(universe, c) == Some(
                    data@[c - 1],
                ),
            forall|u: u16, c: int|
                (u != universe || !(1 <= c <= data.len())) ==> #[trigger] final(self).level(u, c)
                    == old(self).level(u, c),
    {
        let ghost t0 = *self;
        let mut out: Vec<Message> = Vec::new();
        let mut i: usize = 0;
        while i < data.len()
            invariant
                i <= data.len(),
                data.len() < 65536,
                out.len() == changes_by(|c: int| t0.level(universe, c), data@.take(i as int)).len(),
                forall|j: int|
                    0 <= j < out.len() ==> is_plain_set(
                        #[trigger] out@[j],
                        channel_address(
                            namespace@,
                            universe as nat,
                            changes_by(|c: int| t0.level(universe, c), data@.take(i as int))[j].0 as nat,
                        ),
                        ClaspValue::Int(changes_by(|c: int| t0.level(universe, c), data@.take(i as int))[j].1 as i64),
                    ),
                forall|c: int| 1 <= c <= i ==> #[trigger] self.level(universe, c) == Some(data@[c - 1]),
                forall|u: u16, c: int|
                    (u != universe || !(1 <= c <= i)) ==> #[trigger] self.level(u, c) == t0.level(
                        u,
                        c,
                    ),
            decreases data.len() - i,
        {
            let ghost before = *self;
            let ghost prev_out = out@;
            let ch: u16 = (i + 1) as u16;
            let key: u32 = (universe as u32) * 65536 + (ch as u32);
            assert(key == level_key(universe, ch as int));
            let v = data[i];
            assert(data@.take(i + 1).drop_last() =~= data@.take(i as int));
            assert(data@.take(i + 1).last() == v);
            assert(t0.level(universe, ch as int) == before.level(universe, ch as int));
            let changed = match self.levels.get(&key) {
                Some(cur) => *cur != v,
                None => true,
            };
            assert(changed == (before.level(universe, ch as int) != Some(v)));
            if changed {
                let m = SacnBridge::to_clasp_message(namespace, universe, ch, v);
                out.push(m);
                self.levels.insert(key, v);
            }
            proof {
                let cc = changes_by(|c: int| t0.level(universe, c), data@.take(i + 1));
                let cp = changes_by(|c: int| t0.level(universe, c), data@.take(i as int));
                assert forall|j: int| 0 <= j < out.len() implies is_plain_set(
                    #[trigger] out@[j],
                    channel_address(namespace@, universe as nat, cc[j].0 as nat),
                    ClaspValue::Int(cc[j].1 as i64),
                ) by {
                    if j < prev_out.len() {
                        assert(out@[j] == prev_out[j]);
                        assert(cc[j] == cp[j]);
                    } else {
                        assert(cc[j] == (ch, v));
                    }
                }
                assert forall|u: u16, c: int| #[trigger] self.level(u, c) == if u == universe && c
                    == ch {
                    Some(v)
                } else {
                    before.level(u, c)
                } by {
                    if 0 <= c < 65536 {
                        lemma_key_bounds(u, c);
                        lemma_key_bounds(universe, ch as int);
                        if u != universe || c != ch {
                            lemma_key_distinct(u, c, universe, ch as int);
                        }
                    }
                }
            }
            i = i + 1;
        }
        assert(data@.take(data.len() as int) =~= data@);
        out
    }
}

/// Keys of channels fit in a `u32`.
proof fn lemma_key_bounds(u: u16, c: int)
    requires
        0 <= c < 65536,
    ensures
        0 <= level_key(u, c) <= u32::MAX,
{
    assert(u as int * 65536 <= 65535 * 65536) by (nonlinear_arith)
        requires
            u <= 65535,
    ;
}

/// Distinct channels have distinct keys.
proof fn lemma_key_distinct(u1: u16, c1: int, u2: u16, c2: int)
    requires
        0 <= c1 < 65536,
        0 <= c2 < 65536,
        u1 != u2 || c1 != c2,
    ensures
        level_key(u1, c1) != level_key(u2, c2),
{
    if u1 < u2 {
        assert(u1 as int * 65536 + 65536 <= u2 as int * 65536) by (nonlinear_arith)
            requires
                u1 < u2,
        ;
    } else if u2 < u1 {
        assert(u2 as int * 65536 + 65536 <= u1 as int * 65536) by (nonlinear_arith)
            requires
                u2 < u1,
        ;
    }
}

/// A level received again unchanged is not passed on; a changed one is.
pub proof fn law_unchanged_not_repeated(t: LevelTracker, universe: u16, level: u8)
    ensures
        t.level(universe, 1) == Some(level) ==> changed_channels(t, universe, seq![level]).len() == 0,
        t.level(universe, 1) != Some(level) ==> changed_channels(t, universe, seq![level]) == seq![
            (1u16, level),
        ],
{
    let d = seq![level];
    assert(d.drop_last() =~= Seq::<u8>::empty());
    assert(changed_channels(t, universe, d.drop_last()) == Seq::<(u16, u8)>::empty());
}

} // verus!
