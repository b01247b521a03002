//! DMX universes: 512-channel frames kept per universe number.
use vstd::prelude::*;
use std::collections::HashMap;

verus! {

broadcast use vstd::std_specs::hash::group_hash_axioms;

/// Number of channels in a DMX universe.
pub const DMX_CHANNELS: usize = 512;

/// The all-zero frame.
pub open spec fn zero_frame() -> Seq<u8> {
    Seq::new(512, |i: int| 0u8)
}

/// DMX frames by universe.
#[derive(Clone, Debug)]
pub struct UniverseFrames {
    frames: HashMap<u16, Vec<u8>>,
}

impl UniverseFrames {
    /// The frame of a universe, if there is one.
    pub closed spec fn frame(&self, universe: u16) -> Option<Seq<u8>> {
        if self.frames@.contains_key(universe) {
            Some(self.frames@[universe]@)
        } else {
            None
        }
    }

    /// Every frame holds 512 channels.
    pub open spec fn wf(&self) -> bool {
        forall|u: u16| #[trigger] self.frame(u) is Some ==> self.frame(u)->0.len() == 512
    }

    /// No frames.
    pub fn new() -> (f: Self)
        ensures
            f.wf(),
            forall|u: u16| #[trigger] f.frame(u) is None,
    {
        UniverseFrames { frames: HashMap::new() }
    }

    /// Adds an all-zero frame for `universe` when it has none.
    pub fn ensure(&mut self, universe: u16)
        requires
            old(self).wf(),
        ensures
            final(self).wf(),
            final(self).frame(universe) == Some(match old(self).frame(universe) {
                Some(f) => f,
                None => zero_frame(),
            }),
            forall|u: u16| u != universe ==> #[trigger] final(self).frame(u) == old(self).frame(u),
    {
        if self.frames.contains_key(&universe) {
            return;
        }
        let mut zeros: Vec<u8> = Vec::new();
        let mut k: usize = 0;
        while k < DMX_CHANNELS
            invariant
                k <= 512,
                zeros@ == Seq::new(k as nat, |i: int| 0u8),
            decreases 512 - k,
        {
            zeros.push(0u8);
            k = k + 1;
            assert(zeros@ =~= Seq::new(k as nat, |i: int| 0u8));
        }
        self.frames.insert(universe, zeros);
        assert forall|u: u16| #[trigger] self.frame(u) is Some implies self.frame(u)->0.len() == 512 by {
            if u != universe {
                assert(self.frame(u) == old(self).frame(u));
            }
        }
    }

    /// The level of channel index `index` (from 0) of `universe`'s frame.
    pub fn level(&self, universe: u16, index: usize) -> (r: u8)
        requires
            self.frame(universe) matches Some(f) && index < f.len(),
        ensures
            r == self.frame(universe)->0[index as int],
    {
        match self.frames.get(&universe) {
            Some(f) => f[index],
            None => 0,
        }
    }

    /// A copy of `universe`'s frame, if it has one.
    pub fn frame_copy(&self, universe: u16) -> (r: Option<Vec<u8>>)
        ensures
            match self.frame(universe) {
                Some(f) => r matches Some(v) && v@ == f,
                None => r is None,
            },
    {
        match self.frames.get(&universe) {
            Some(f) => Some(f.clone()),
            None => None,
        }
    }

    /// Sets channel `channel` (1 to 512) of `universe`'s frame.
    pub fn set_level(&mut self, universe: u16, channel: u16, level: u8)
        requires
            old(self).wf(),
            old(self).frame(universe) is Some,
            1 <= channel <= 512,
        ensures
            final(self).wf(),
            final(self).frame(universe) == Some(
                old(self).frame(universe)->0.update(channel - 1, level),
            ),
            forall|u: u16| u != universe ==> #[trigger] final(self).frame(u) == old(self).frame(u),
    {
        let ghost before = *self;
        assert(before.frame(universe)->0.len() == 512);
        match self.frames.remove(&universe) {
            Some(mut f) => {
                f.set((channel - 1) as usize, level);
                self.frames.insert(universe, f);
            },
            None => {},
        }
        assert forall|u: u16| u != universe implies #[trigger] self.frame(u) == before.frame(u) by {}
        assert(self.frame(universe) == Some(before.frame(universe)->0.update(channel - 1, level)));
        assert forall|u: u16| #[trigger] self.frame(u) is Some implies self.frame(u)->0.len() == 512 by {
            if u != universe {
                assert(self.frame(u) == before.frame(u));
            }
        }
    }
}

} // verus!
