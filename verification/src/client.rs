//! The client's view of the server: the parameter cache, subscriptions,
//! pending reads, announced signals and the last error, and what each
//! message from the server does to them.
use vstd::prelude::*;
use crate::message::{
    is_plain_set, plain_set, BundleMessage, ErrorMessage, Message, ParamValue, PublishMessage,
    SetMessage, SignalDefinition, SignalType, SubscribeMessage,
};
use crate::pattern::{glob_match, glob_matches};
use crate::value::{
    dict_find, dict_get, dict_put, law_get_after_put, lemma_dict_find_bounds, lemma_dict_find_first, ClaspValue, ValueModel,
};

verus! {

/// What the client must do after a message: call a subscription's callback
/// or complete a pending read.
#[derive(Debug)]
pub enum ClientAction {
    /// Call the callback of `subscription` with the value and the address.
    Notify { subscription: u32, address: String, value: ClaspValue },
    /// Complete the pending read of `address` with the value.
    Deliver { address: String, value: ClaspValue },
}

/// The model of a [`ClientAction`].
pub enum Effect {
    Notify(u32, Seq<char>, ValueModel),
    Deliver(Seq<char>, ValueModel),
}

/// The model of an action.
pub open spec fn action_model(a: ClientAction) -> Effect {
    match a {
        ClientAction::Notify { subscription, address, value } => Effect::Notify(
            subscription,
            address@,
            value.model(),
        ),
        ClientAction::Deliver { address, value } => Effect::Deliver(address@, value.model()),
    }
}

/// The models of a sequence of actions.
pub open spec fn actions_model(s: Seq<ClientAction>) -> Seq<Effect> {
    s.map_values(|a: ClientAction| action_model(a))
}

/// The model of the client state.
#[verifier::ext_equal]
pub struct StateModel {
    /// Cached parameter values by address.
    pub cache: Seq<(Seq<char>, ValueModel)>,
    /// Subscriptions: id and pattern.
    pub subs: Seq<(u32, Seq<char>)>,
    /// Addresses with a pending read.
    pub pending: Seq<Seq<char>>,
    /// Announced signals by address.
    pub signals: Seq<(Seq<char>, SignalDefinition)>,
    /// The last error the server reported.
    pub last_error: Option<ErrorMessage>,
}

/// The callbacks to call for a value at an address: those of the
/// subscriptions whose pattern matches the address, in subscription order.
pub open spec fn notifications(subs: Seq<(u32, Seq<char>)>, address: Seq<char>, v: ValueModel) -> Seq<
    Effect,
>
    decreases subs.len(),
{
    if subs.len() == 0 {
        Seq::empty()
    } else {
        notifications(subs.drop_last(), address, v) + if glob_matches(subs.last().1, address) {
            seq![Effect::Notify(subs.last().0, address, v)]
        } else {
            Seq::empty()
        }
    }
}

/// The sequence without any occurrence of `x`.
pub open spec fn without(s: Seq<Seq<char>>, x: Seq<char>) -> Seq<Seq<char>>
    decreases s.len(),
{
    if s.len() == 0 {
        s
    } else if s.last() == x {
        without(s.drop_last(), x)
    } else {
        without(s.drop_last(), x).push(s.last())
    }
}

/// A parameter value arriving for `address`: it is cached, completes a
/// pending read of that address, and goes to the matching subscriptions.
pub open spec fn apply_param(st: StateModel, address: Seq<char>, v: ValueModel) -> (
    StateModel,
    Seq<Effect>,
) {
    let delivered = st.pending.contains(address);
    (
        StateModel {
            cache: dict_put(st.cache, address, v),
            pending: if delivered {
                without(st.pending, address)
            } else {
                st.pending
            },
            ..st
        },
        (if delivered {
            seq![Effect::Deliver(address, v)]
        } else {
            Seq::empty()
        }) + notifications(st.subs, address, v),
    )
}

/// The parameters of a snapshot, applied in order.
pub open spec fn apply_params(st: StateModel, ps: Seq<ParamValue>) -> (StateModel, Seq<Effect>)
    decreases ps.len(),
{
    if ps.len() == 0 {
        (st, Seq::empty())
    } else {
        let (s1, e1) = apply_params(st, ps.drop_last());
        let (s2, e2) = apply_param(s1, ps.last().address@, ps.last().value.model());
        (s2, e1 + e2)
    }
}

/// The signals stored under their addresses, later ones replacing earlier
/// ones with the same address.
pub open spec fn add_signals(sigs: Seq<(Seq<char>, SignalDefinition)>, new: Seq<SignalDefinition>) -> Seq<
    (Seq<char>, SignalDefinition),
>
    decreases new.len(),
{
    if new.len() == 0 {
        sigs
    } else {
        dict_put(add_signals(sigs, new.drop_last()), new.last().address@, new.last())
    }
}

/// The value a PUBLISH carries to subscribers: its value, else its
/// payload, else null.
pub open spec fn published_value(p: PublishMessage) -> ValueModel {
    match p.value {
        Some(v) => v.model(),
        None => match p.payload {
            Some(v) => v.model(),
            None => ValueModel::Null,
        },
    }
}

/// What a message from the server does to the client state, and what the
/// client must do in turn.
pub open spec fn handle(st: StateModel, m: Message) -> (StateModel, Seq<Effect>)
    decreases m, 0nat,
{
    match m {
        Message::SetParam(set) => (
            StateModel { cache: dict_put(st.cache, set.address@, set.value.model()), ..st },
            notifications(st.subs, set.address@, set.value.model()),
        ),
        Message::Snapshot(snap) => apply_params(st, snap.params@),
        Message::Publish(p) => (st, notifications(st.subs, p.address@, published_value(p))),
        Message::Error(e) => (StateModel { last_error: Some(e), ..st }, Seq::empty()),
        Message::Announce(a) => (
            StateModel { signals: add_signals(st.signals, a.signals@), ..st },
            Seq::empty(),
        ),
        Message::Result(r) => (
            StateModel { signals: add_signals(st.signals, r.signals@), ..st },
            Seq::empty(),
        ),
        Message::Bundle(b) => handle_all(st, b.messages@),
        _ => (st, Seq::empty()),
    }
}

/// Messages handled in order.
pub open spec fn handle_all(st: StateModel, ms: Seq<Message>) -> (StateModel, Seq<Effect>)
    decreases ms, 1nat,
{
    if ms.len() == 0 {
        (st, Seq::empty())
    } else {
        let (s1, e1) = handle_all(st, ms.drop_last());
        let (s2, e2) = handle(s1, ms.last());
        (s2, e1 + e2)
    }
}

/// A copy of a signal definition.
pub fn duplicate_signal(s: &SignalDefinition) -> (r: SignalDefinition)
    ensures
        r == *s,
{
    SignalDefinition {
        address: s.address.clone(),
        signal_type: s.signal_type,
        description: match &s.description {
            Some(d) => Some(d.clone()),
            None => None,
        },
    }
}

/// A copy of an error message.
pub fn duplicate_error(e: &ErrorMessage) -> (r: ErrorMessage)
    ensures
        r == *e,
{
    ErrorMessage {
        code: e.code,
        message: e.message.clone(),
        address: match &e.address {
            Some(a) => Some(a.clone()),
            None => None,
        },
    }
}

/// The subscriptions without the one with id `id`.
pub open spec fn without_sub(subs: Seq<(u32, Seq<char>)>, id: u32) -> Seq<(u32, Seq<char>)>
    decreases subs.len(),
{
    if subs.len() == 0 {
        subs
    } else if subs.last().0 == id {
        without_sub(subs.drop_last(), id)
    } else {
        without_sub(subs.drop_last(), id).push(subs.last())
    }
}

/// The signals whose address matches a pattern, in order.
pub open spec fn matching_signals(sigs: Seq<(Seq<char>, SignalDefinition)>, pattern: Seq<char>) -> Seq<
    SignalDefinition,
>
    decreases sigs.len(),
{
    if sigs.len() == 0 {
        Seq::empty()
    } else if glob_matches(pattern, sigs.last().0) {
        matching_signals(sigs.drop_last(), pattern).push(sigs.last().1)
    } else {
        matching_signals(sigs.drop_last(), pattern)
    }
}

/// What a read of a parameter does: answer from the cache, or ask the
/// server.
#[derive(Debug)]
pub enum GetStep {
    /// The cached value.
    Cached(ClaspValue),
    /// The request to send; the read stays pending until a snapshot
    /// carries the address.
    Request(Message),
}

/// The client state. Its tables are keyed by addresses (text), for which
/// vstd specifies no hash map, so they are vectors whose models are the
/// maps; subscriptions are keyed by distinct ids.
#[derive(Debug)]
pub struct ClientState {
    /// Cached parameter values by address.
    pub params: Vec<(String, ClaspValue)>,
    /// Subscriptions: id and pattern.
    pub subscriptions: Vec<(u32, String)>,
    /// Addresses with a pending read.
    pub pending_gets: Vec<String>,
    /// Announced signals.
    pub signals: Vec<SignalDefinition>,
    /// The last error the server reported.
    pub last_error: Option<ErrorMessage>,
    /// The id of the next subscription.
    pub next_sub_id: u32,
}

/// The model of a parameter cache.
pub open spec fn cache_model(v: Seq<(String, ClaspValue)>) -> Seq<(Seq<char>, ValueModel)> {
    v.map_values(|e: (String, ClaspValue)| (e.0@, e.1.model()))
}

impl ClientState {
    /// The model of this state.
    pub open spec fn model(&self) -> StateModel {
        StateModel {
            cache: cache_model(self.params@),
            subs: self.subscriptions@.map_values(|e: (u32, String)| (e.0, e.1@)),
            pending: self.pending_gets@.map_values(|s: String| s@),
            signals: self.signals@.map_values(|s: SignalDefinition| (s.address@, s)),
            last_error: self.last_error,
        }
    }

    /// A state with nothing cached, no subscription, nothing pending, no
    /// signal and no error; the first subscription gets id 1.
    pub fn new() -> (s: Self)
        ensures
            s.model().cache.len() == 0,
            s.model().subs.len() == 0,
            distinct_ids(s.model().subs),
            s.model().pending.len() == 0,
            s.model().signals.len() == 0,
            s.model().last_error is None,
            s.next_sub_id == 1,
    {
        ClientState {
            params: Vec::new(),
            subscriptions: Vec::new(),
            pending_gets: Vec::new(),
            signals: Vec::new(),
            last_error: None,
            next_sub_id: 1,
        }
    }

    /// Appends the notifications of the subscriptions matching `address`.
    fn notify(&self, address: &String, value: &ClaspValue, effects: &mut Vec<ClientAction>)
        ensures
            actions_model(final(effects)@) == actions_model(old(effects)@) + notifications(
                self.model().subs,
                address@,
                value.model(),
            ),
    {
        let ghost subs = self.model().subs;
        let ghost start = actions_model(effects@);
        let mut i: usize = 0;
        while i < self.subscriptions.len()
            invariant
                i <= self.subscriptions.len(),
                subs == self.model().subs,
                subs.len() == self.subscriptions.len(),
                actions_model(effects@) == start + notifications(
                    subs.take(i as int),
                    address@,
                    value.model(),
                ),
            decreases self.subscriptions.len() - i,
        {
            let ghost before = effects@;
            assert(subs.take(i + 1).drop_last() =~= subs.take(i as int));
            assert(subs.take(i + 1).last() == (self.subscriptions@[i as int].0, self.subscriptions@[i as int].1@));
            if glob_match(self.subscriptions[i].1.as_str(), address.as_str()) {
                let a = ClientAction::Notify {
                    subscription: self.subscriptions[i].0,
                    address: address.clone(),
                    value: value.duplicate(),
                };
                effects.push(a);
                assert(actions_model(effects@) =~= actions_model(before).push(action_model(a)));
            }
            i = i + 1;
            assert(actions_model(effects@) =~= start + notifications(
                subs.take(i as int),
                address@,
                value.model(),
            ));
        }
        assert(subs.take(self.subscriptions.len() as int) =~= subs);
    }

    /// The index of the first cached entry of `address`.
    fn find_param(&self, address: &String) -> (r: Option<usize>)
        ensures
            match r {
                Some(i) => dict_find(self.model().cache, address@) == Some(i as int),
                None => dict_find(self.model().cache, address@) is None,
            },
    {
        let ghost m = self.model().cache;
        let mut i: usize = 0;
        while i < self.params.len()
            invariant
                i <= self.params.len(),
                m == self.model().cache,
                m.len() == self.params.len(),
                forall|j: int| 0 <= j < i ==> #[trigger] m[j].0 != address@,
            decreases self.params.len() - i,
        {
            assert(m[i as int].0 == self.params@[i as int].0@);
            if self.params[i].0 == *address {
                proof {
                    lemma_dict_find_first(m, address@, i as int);
                }
                return Some(i);
            }
            i = i + 1;
        }
        proof {
            lemma_dict_find_bounds(m, address@);
            if dict_find(m, address@) is Some {
                let j = dict_find(m, address@)->0;
                assert(m[j].0 == address@);
            }
        }
        None
    }

    /// Caches `value` under `address`.
    fn put_param(&mut self, address: &String, value: &ClaspValue)
        ensures
            final(self).model() == (StateModel {
                cache: dict_put(old(self).model().cache, address@, value.model()),
                ..old(self).model()
            }),
            final(self).next_sub_id == old(self).next_sub_id,
    {
        let ghost m = self.model().cache;
        let entry = (address.clone(), value.duplicate());
        match self.find_param(address) {
            Some(i) => {
                proof {
                    lemma_dict_find_bounds(m, address@);
                }
                self.params.set(i, entry);
                assert(self.model().cache =~= m.update(i as int, (address@, value.model())));
            },
            None => {
                self.params.push(entry);
                assert(self.model().cache =~= m.push((address@, value.model())));
            },
        }
        assert(self.model() =~= StateModel {
            cache: dict_put(old(self).model().cache, address@, value.model()),
            ..old(self).model()
        });
    }

    /// Whether a read of `address` is pending.
    fn is_pending(&self, address: &String) -> (r: bool)
        ensures
            r == self.model().pending.contains(address@),
    {
        let ghost p = self.model().pending;
        let mut i: usize = 0;
        while i < self.pending_gets.len()
            invariant
                i <= self.pending_gets.len(),
                p == self.model().pending,
                p.len() == self.pending_gets.len(),
                forall|j: int| 0 <= j < i ==> #[trigger] p[j] != address@,
            decreases self.pending_gets.len() - i,
        {
            assert(p[i as int] == self.pending_gets@[i as int]@);
            if self.pending_gets[i] == *address {
                return true;
            }
            i = i + 1;
        }
        false
    }

    /// Drops every pending read of `address`.
    fn drop_pending(&mut self, address: &String)
        ensures
            final(self).model() == (StateModel {
                pending: without(old(self).model().pending, address@),
                ..old(self).model()
            }),
            final(self).next_sub_id == old(self).next_sub_id,
    {
        let ghost p = self.model().pending;
        let mut kept: Vec<String> = Vec::new();
        let mut i: usize = 0;
        while i < self.pending_gets.len()
            invariant
                i <= self.pending_gets.len(),
                p == self.model().pending,
                p.len() == self.pending_gets.len(),
                kept@.map_values(|s: String| s@) == without(p.take(i as int), address@),
            decreases self.pending_gets.len() - i,
        {
            let ghost before = kept@;
            assert(p.take(i + 1).drop_last() =~= p.take(i as int));
            assert(p[i as int] == self.pending_gets@[i as int]@);
            if self.pending_gets[i] != *address {
                kept.push(self.pending_gets[i].clone());
                assert(kept@.map_values(|s: String| s@) =~= before.map_values(|s: String| s@).push(
                    p[i as int],
                ));
            }
            i = i + 1;
        }
        assert(p.take(self.pending_gets.len() as int) =~= p);
        self.pending_gets = kept;
        assert(self.model() =~= StateModel {
            pending: without(old(self).model().pending, address@),
            ..old(self).model()
        });
    }

    /// Stores a signal under its address.
    fn put_signal(&mut self, sig: &SignalDefinition)
        ensures
            final(self).model() == (StateModel {
                signals: dict_put(old(self).model().signals, sig.address@, *sig),
                ..old(self).model()
            }),
            final(self).next_sub_id == old(self).next_sub_id,
    {
        let ghost m = self.model().signals;
        let copy = duplicate_signal(sig);
        let mut i: usize = 0;
        while i < self.signals.len()
            invariant
                i <= self.signals.len(),
                m == self.model().signals,
                m.len() == self.signals.len(),
                forall|j: int| 0 <= j < i ==> #[trigger] m[j].0 != sig.address@,
                self.params == old(self).params,
                self.subscriptions == old(self).subscriptions,
                self.pending_gets == old(self).pending_gets,
                self.signals == old(self).signals,
                self.last_error == old(self).last_error,
                self.next_sub_id == old(self).next_sub_id,
                copy == *sig,
            decreases self.signals.len() - i,
        {
            assert(m[i as int].0 == self.signals@[i as int].address@);
            if self.signals[i].address == sig.address {
                proof {
                    lemma_dict_find_first(m, sig.address@, i as int);
                }
                self.signals.set(i, copy);
                assert(self.model().signals =~= m.update(i as int, (sig.address@, *sig)));
                assert(self.model() =~= StateModel {
                    signals: dict_put(old(self).model().signals, sig.address@, *sig),
                    ..old(self).model()
                });
                return;
            }
            i = i + 1;
        }
        proof {
            lemma_dict_find_bounds(m, sig.address@);
            if dict_find(m, sig.address@) is Some {
                let j = dict_find(m, sig.address@)->0;
                assert(m[j].0 == sig.address@);
            }
        }
        self.signals.push(copy);
        assert(self.model().signals =~= m.push((sig.address@, *sig)));
        assert(self.model() =~= StateModel {
            signals: dict_put(old(self).model().signals, sig.address@, *sig),
            ..old(self).model()
        });
    }

    /// Stores signals in order.
    fn put_signals(&mut self, sigs: &Vec<SignalDefinition>)
        ensures
            final(self).model() == (StateModel {
                signals: add_signals(old(self).model().signals, sigs@),
                ..old(self).model()
            }),
            final(self).next_sub_id == old(self).next_sub_id,
    {
        let ghost st = self.model();
        let mut i: usize = 0;
        while i < sigs.len()
            invariant
                i <= sigs.len(),
                self.model() == (StateModel {
                    signals: add_signals(st.signals, sigs@.take(i as int)),
                    ..st
                }),
                self.next_sub_id == old(self).next_sub_id,
            decreases sigs.len() - i,
        {
            assert(sigs@.take(i + 1).drop_last() =~= sigs@.take(i as int));
            self.put_signal(&sigs[i]);
            i = i + 1;
        }
        assert(sigs@.take(sigs.len() as int) =~= sigs@);
    }

    /// Handles one message from the server, appending what the client must
    /// do in turn.
    fn handle_into(&mut self, msg: &Message, effects: &mut Vec<ClientAction>)
        ensures
            final(self).model() == handle(old(self).model(), *msg).0,
            actions_model(final(effects)@) == actions_model(old(effects)@) + handle(
                old(self).model(),
                *msg,
            ).1,
            final(self).next_sub_id == old(self).next_sub_id,
        decreases msg,
    {
        let ghost st = self.model();
        let ghost e0 = actions_model(effects@);
        match msg {
            Message::SetParam(set) => {
                self.put_param(&set.address, &set.value);
                self.notify(&set.address, &set.value, effects);
            },
            Message::Snapshot(snap) => {
                let mut i: usize = 0;
                while i < snap.params.len()
                    invariant
                        i <= snap.params.len(),
                        self.model() == apply_params(st, snap.params@.take(i as int)).0,
                        actions_model(effects@) == e0 + apply_params(
                            st,
                            snap.params@.take(i as int),
                        ).1,
                        self.next_sub_id == old(self).next_sub_id,
                    decreases snap.params.len() - i,
                {
                    assert(snap.params@.take(i + 1).drop_last() =~= snap.params@.take(i as int));
                    let ghost e1 = actions_model(effects@);
                    let p = &snap.params[i];
                    self.apply_param_value(&p.address, &p.value, effects, true);
                    i = i + 1;
                    assert(actions_model(effects@) =~= e0 + apply_params(
                        st,
                        snap.params@.take(i as int),
                    ).1);
                }
                assert(snap.params@.take(snap.params.len() as int) =~= snap.params@);
            },
            Message::Publish(p) => {
                let v = match &p.value {
                    Some(v) => v.duplicate(),
                    None => match &p.payload {
                        Some(v) => v.duplicate(),
                        None => ClaspValue::Null,
                    },
                };
                self.notify(&p.address, &v, effects);
            },
            Message::Error(e) => {
                self.last_error = Some(duplicate_error(e));
                assert(self.model() =~= handle(st, *msg).0);
            },
            Message::Announce(a) => {
                self.put_signals(&a.signals);
            },
            Message::Result(r) => {
                self.put_signals(&r.signals);
            },
            Message::Bundle(b) => {
                let mut i: usize = 0;
                while i < b.messages.len()
                    invariant
                        i <= b.messages.len(),
                        *msg == Message::Bundle(*b),
                        self.model() == handle_all(st, b.messages@.take(i as int)).0,
                        actions_model(effects@) == e0 + handle_all(
                            st,
                            b.messages@.take(i as int),
                        ).1,
                        self.next_sub_id == old(self).next_sub_id,
                    decreases b.messages.len() - i,
                {
                    assert(b.messages@.take(i + 1).drop_last() =~= b.messages@.take(i as int));
                    proof {
                        assert(decreases_to!(*msg => (*msg)->Bundle_0));
                        assert((*msg)->Bundle_0 == *b);
                        assert(decreases_to!(*b => b.messages));
                        assert(decreases_to!(b.messages => b.messages@));
                        assert(decreases_to!(b.messages@ => b.messages@[i as int]));
                        assert(decreases_to!(*msg => b.messages@[i as int]));
                    }
                    self.handle_into(&b.messages[i], effects);
                    i = i + 1;
                    assert(actions_model(effects@) =~= e0 + handle_all(
                        st,
                        b.messages@.take(i as int),
                    ).1);
                }
                assert(b.messages@.take(b.messages.len() as int) =~= b.messages@);
            },
            _ => {
                assert(actions_model(effects@) =~= e0 + Seq::<Effect>::empty());
            },
        }
    }

    /// Handles a message from the server: updates the cache, completes
    /// pending reads, stores announced signals and errors, and returns the
    /// callbacks to call and reads to complete, in order.
    pub fn handle_message(&mut self, msg: &Message) -> (r: Vec<ClientAction>)
        ensures
            final(self).model() == handle(old(self).model(), *msg).0,
            actions_model(r@) == handle(old(self).model(), *msg).1,
            final(self).next_sub_id == old(self).next_sub_id,
    {
        let mut effects: Vec<ClientAction> = Vec::new();
        assert(actions_model(effects@) =~= Seq::<Effect>::empty());
        self.handle_into(msg, &mut effects);
        assert(actions_model(effects@) =~= Seq::<Effect>::empty() + handle(
            old(self).model(),
            *msg,
        ).1);
        effects
    }

    /// Applies one parameter value (a SET or a snapshot entry).
    fn apply_param_value(
        &mut self,
        address: &String,
        value: &ClaspValue,
        effects: &mut Vec<ClientAction>,
        complete_gets: bool,
    )
        requires
            !complete_gets ==> !old(self).model().pending.contains(address@),
        ensures
            final(self).model() == apply_param(old(self).model(), address@, value.model()).0,
            actions_model(final(effects)@) == actions_model(old(effects)@) + apply_param(
                old(self).model(),
                address@,
                value.model(),
            ).1,
            final(self).next_sub_id == old(self).next_sub_id,
    {
        let ghost st = self.model();
        self.put_param(address, value);
        let ghost e0 = actions_model(effects@);
        if complete_gets && self.is_pending(address) {
            self.drop_pending(address);
            let a = ClientAction::Deliver { address: address.clone(), value: value.duplicate() };
            effects.push(a);
            assert(actions_model(effects@) =~= e0.push(action_model(a)));
        }
        let ghost e1 = actions_model(effects@);
        self.notify(address, value, effects);
        assert(self.model() =~= apply_param(st, address@, value.model()).0);
        assert(actions_model(effects@) =~= e0 + apply_param(st, address@, value.model()).1);
    }
}

impl ClientState {
    /// Registers a subscription to `pattern` under the next id (replacing
    /// a subscription with that id) and returns the id and the SUBSCRIBE
    /// message to send. Ids count up from 1 and wrap around.
    pub fn subscribe(&mut self, pattern: &str) -> (r: (u32, Message))
        ensures
            r.0 == old(self).next_sub_id,
            final(self).next_sub_id == (if old(self).next_sub_id == u32::MAX {
                0
            } else {
                old(self).next_sub_id + 1
            }),
            final(self).model() == (StateModel {
                subs: without_sub(old(self).model().subs, r.0).push((r.0, pattern@)),
                ..old(self).model()
            }),
            r.1 matches Message::Subscribe(m) && m.id == r.0 && m.pattern@ == pattern@,
            distinct_ids(old(self).model().subs) ==> distinct_ids(final(self).model().subs),
    {
        proof {
            if distinct_ids(self.model().subs) {
                law_subscription_ids_distinct(self.model().subs, self.next_sub_id, pattern@);
            }
        }
        let id = self.next_sub_id;
        self.next_sub_id = id.wrapping_add(1);
        self.remove_subscription(id);
        self.subscriptions.push((id, String::from_str(pattern)));
        assert(self.model() =~= StateModel {
            subs: without_sub(old(self).model().subs, id).push((id, pattern@)),
            ..old(self).model()
        });
        (id, Message::Subscribe(SubscribeMessage { id, pattern: String::from_str(pattern) }))
    }

    /// Drops the subscription with id `id`.
    fn remove_subscription(&mut self, id: u32)
        ensures
            final(self).model() == (StateModel {
                subs: without_sub(old(self).model().subs, id),
                ..old(self).model()
            }),
            final(self).next_sub_id == old(self).next_sub_id,
    {
        let ghost subs = self.model().subs;
        let mut kept: Vec<(u32, String)> = Vec::new();
        let mut i: usize = 0;
        while i < self.subscriptions.len()
            invariant
                i <= self.subscriptions.len(),
                subs == self.model().subs,
                subs.len() == self.subscriptions.len(),
                kept@.map_values(|e: (u32, String)| (e.0, e.1@)) == without_sub(
                    subs.take(i as int),
                    id,
                ),
            decreases self.subscriptions.len() - i,
        {
            let ghost before = kept@;
            assert(subs.take(i + 1).drop_last() =~= subs.take(i as int));
            assert(subs[i as int] == (self.subscriptions@[i as int].0, self.subscriptions@[i as int].1@));
            if self.subscriptions[i].0 != id {
                kept.push((self.subscriptions[i].0, self.subscriptions[i].1.clone()));
                assert(kept@.map_values(|e: (u32, String)| (e.0, e.1@)) =~= before.map_values(
                    |e: (u32, String)| (e.0, e.1@),
                ).push(subs[i as int]));
            }
            i = i + 1;
        }
        assert(subs.take(self.subscriptions.len() as int) =~= subs);
        self.subscriptions = kept;
        assert(self.model() =~= StateModel {
            subs: without_sub(old(self).model().subs, id),
            ..old(self).model()
        });
    }

    /// The SUBSCRIBE messages that renew every subscription after a
    /// reconnection, one per subscription, in order.
    pub fn resubscribe_messages(&self) -> (r: Vec<Message>)
        ensures
            r@.len() == self.model().subs.len(),
            forall|i: int|
                0 <= i < r@.len() ==> (#[trigger] r@[i] matches Message::Subscribe(m) && m.id
                    == self.model().subs[i].0 && m.pattern@ == self.model().subs[i].1),
    {
        let mut r: Vec<Message> = Vec::new();
        let mut i: usize = 0;
        while i < self.subscriptions.len()
            invariant
                i <= self.subscriptions.len(),
                r@.len() == i,
                forall|j: int|
                    0 <= j < i ==> (#[trigger] r@[j] matches Message::Subscribe(m) && m.id
                        == self.subscriptions@[j].0 && m.pattern@ == self.subscriptions@[j].1@),
            decreases self.subscriptions.len() - i,
        {
            let (id, pattern) = (self.subscriptions[i].0, self.subscriptions[i].1.clone());
            r.push(Message::Subscribe(SubscribeMessage { id, pattern }));
            i = i + 1;
        }
        r
    }

    /// Drops the subscription `id` and returns the UNSUBSCRIBE message to
    /// send.
    pub fn unsubscribe(&mut self, id: u32) -> (m: Message)
        ensures
            final(self).model() == (StateModel {
                subs: without_sub(old(self).model().subs, id),
                ..old(self).model()
            }),
            final(self).next_sub_id == old(self).next_sub_id,
            m == Message::Unsubscribe(id),
            distinct_ids(old(self).model().subs) ==> distinct_ids(final(self).model().subs),
    {
        proof {
            if distinct_ids(self.model().subs) {
                law_subscription_ids_distinct(self.model().subs, id, Seq::empty());
            }
        }
        self.remove_subscription(id);
        Message::Unsubscribe(id)
    }

    /// The cached value of `address`.
    pub fn cached(&self, address: &str) -> (r: Option<ClaspValue>)
        ensures
            match r {
                Some(v) => dict_get(self.model().cache, address@) == Some(v.model()),
                None => dict_get(self.model().cache, address@) is None,
            },
    {
        let key = String::from_str(address);
        match self.find_param(&key) {
            Some(i) => {
                proof {
                    lemma_dict_find_bounds(self.model().cache, address@);
                }
                Some(self.params[i].1.duplicate())
            },
            None => None,
        }
    }

    /// A read of `address`: the cached value when there is one; else the
    /// address becomes pending (once) and the GET request is returned.
    pub fn get(&mut self, address: &str) -> (r: GetStep)
        ensures
            match dict_get(old(self).model().cache, address@) {
                Some(v) => (r matches GetStep::Cached(c) && c.model() == v) && final(self).model()
                    == old(self).model(),
                None => (r matches GetStep::Request(m) && m matches Message::Get(a) && a@
                    == address@) && final(self).model() == (StateModel {
                    pending: if old(self).model().pending.contains(address@) {
                        old(self).model().pending
                    } else {
                        old(self).model().pending.push(address@)
                    },
                    ..old(self).model()
                }),
            },
            final(self).next_sub_id == old(self).next_sub_id,
    {
        match self.cached(address) {
            Some(v) => GetStep::Cached(v),
            None => {
                let key = String::from_str(address);
                if !self.is_pending(&key) {
                    self.pending_gets.push(key);
                    assert(self.model() =~= StateModel {
                        pending: old(self).model().pending.push(address@),
                        ..old(self).model()
                    });
                }
                GetStep::Request(Message::Get(String::from_str(address)))
            },
        }
    }

    /// Gives up a pending read of `address` (after a timeout or a
    /// cancellation).
    pub fn cancel_get(&mut self, address: &str)
        ensures
            final(self).model() == (StateModel {
                pending: without(old(self).model().pending, address@),
                ..old(self).model()
            }),
            final(self).next_sub_id == old(self).next_sub_id,
    {
        let key = String::from_str(address);
        self.drop_pending(&key);
    }

    /// All announced signals.
    pub fn signals(&self) -> (r: Vec<SignalDefinition>)
        ensures
            r@ == self.signals@,
    {
        let mut r: Vec<SignalDefinition> = Vec::new();
        let mut i: usize = 0;
        while i < self.signals.len()
            invariant
                i <= self.signals.len(),
                r@ == self.signals@.take(i as int),
            decreases self.signals.len() - i,
        {
            r.push(duplicate_signal(&self.signals[i]));
            i = i + 1;
            assert(r@ =~= self.signals@.take(i as int));
        }
        assert(self.signals@.take(self.signals.len() as int) =~= self.signals@);
        r
    }

    /// The announced signals whose address matches `pattern`.
    pub fn query_signals(&self, pattern: &str) -> (r: Vec<SignalDefinition>)
        ensures
            r@ == matching_signals(self.model().signals, pattern@),
    {
        let ghost sigs = self.model().signals;
        let mut r: Vec<SignalDefinition> = Vec::new();
        let mut i: usize = 0;
        while i < self.signals.len()
            invariant
                i <= self.signals.len(),
                sigs == self.model().signals,
                sigs.len() == self.signals.len(),
                r@ == matching_signals(sigs.take(i as int), pattern@),
            decreases self.signals.len() - i,
        {
            assert(sigs.take(i + 1).drop_last() =~= sigs.take(i as int));
            assert(sigs[i as int] == (self.signals@[i as int].address@, self.signals@[i as int]));
            if glob_match(pattern, self.signals[i].address.as_str()) {
                r.push(duplicate_signal(&self.signals[i]));
            }
            i = i + 1;
        }
        assert(sigs.take(self.signals.len() as int) =~= sigs);
        r
    }

    /// The last error the server reported.
    pub fn last_error(&self) -> (r: Option<ErrorMessage>)
        ensures
            r == self.last_error,
    {
        match &self.last_error {
            Some(e) => Some(duplicate_error(e)),
            None => None,
        }
    }

    /// Forgets the last error.
    pub fn clear_error(&mut self)
        ensures
            final(self).model() == (StateModel { last_error: None, ..old(self).model() }),
            final(self).next_sub_id == old(self).next_sub_id,
    {
        self.last_error = None;
        assert(self.model() =~= StateModel { last_error: None, ..old(self).model() });
    }
}

/// The SET a client sends for `set`: no revision, not locked.
pub fn set_message(address: &str, value: ClaspValue) -> (m: Message)
    ensures
        is_plain_set(m, address@, value),
{
    plain_set(String::from_str(address), value)
}

/// The SET a client sends for `set_locked`: no revision, locking the
/// parameter.
pub fn set_locked_message(address: &str, value: ClaspValue) -> (m: Message)
    ensures
        m matches Message::SetParam(s) && s.address@ == address@ && s.value == value
            && s.revision is None && s.lock && !s.unlock,
{
    Message::SetParam(
        SetMessage {
            address: String::from_str(address),
            value,
            revision: None,
            lock: true,
            unlock: false,
        },
    )
}

/// The PUBLISH a client sends for `emit`: an event with the payload, stamped
/// with the server time `time`.
pub fn emit_message(address: &str, payload: ClaspValue, time: u64) -> (m: Message)
    ensures
        m matches Message::Publish(p) && p.address@ == address@ && p.signal == Some(
            SignalType::Event,
        ) && p.value is None && p.payload == Some(payload) && p.id is None && p.timestamp == Some(
            time,
        ),
{
    Message::Publish(
        PublishMessage {
            address: String::from_str(address),
            signal: Some(SignalType::Event),
            value: None,
            payload: Some(payload),
            id: None,
            timestamp: Some(time),
        },
    )
}

/// The PUBLISH a client sends for `stream`: a stream sample with the value,
/// stamped with the server time `time`.
pub fn stream_message(address: &str, value: ClaspValue, time: u64) -> (m: Message)
    ensures
        m matches Message::Publish(p) && p.address@ == address@ && p.signal == Some(
            SignalType::Stream,
        ) && p.value == Some(value) && p.payload is None && p.id is None && p.timestamp == Some(
            time,
        ),
{
    Message::Publish(
        PublishMessage {
            address: String::from_str(address),
            signal: Some(SignalType::Stream),
            value: Some(value),
            payload: None,
            id: None,
            timestamp: Some(time),
        },
    )
}

/// The BUNDLE a client sends for `bundle` (no time) or `bundle_at` (a
/// scheduled time).
pub fn bundle_message(messages: Vec<Message>, time: Option<u64>) -> (m: Message)
    ensures
        m matches Message::Bundle(b) && b.messages == messages && b.timestamp == time,
{
    Message::Bundle(BundleMessage { timestamp: time, messages })
}

/// A SET makes the address read back the value set, and leaves every
/// other address as it was.
pub proof fn law_read_after_set(st: StateModel, set: SetMessage, other: Seq<char>)
    requires
        other != set.address@,
    ensures
        dict_get(handle(st, Message::SetParam(set)).0.cache, set.address@) == Some(
            set.value.model(),
        ),
        dict_get(handle(st, Message::SetParam(set)).0.cache, other) == dict_get(st.cache, other),
{
    law_get_after_put(st.cache, set.address@, set.value.model(), other);
}

/// Every subscription has its own id.
pub open spec fn distinct_ids(subs: Seq<(u32, Seq<char>)>) -> bool {
    forall|i: int, j: int|
        0 <= i < subs.len() && 0 <= j < subs.len() && i != j ==> #[trigger] subs[i].0
            != #[trigger] subs[j].0
}

/// Some subscription has the id `id`.
pub open spec fn has_sub_id(subs: Seq<(u32, Seq<char>)>, id: u32) -> bool {
    exists|j: int| 0 <= j < subs.len() && #[trigger] subs[j].0 == id
}

/// Subscription `id` has a pattern that matches the address.
pub open spec fn matching_sub(subs: Seq<(u32, Seq<char>)>, id: u32, address: Seq<char>) -> bool {
    exists|j: int| 0 <= j < subs.len() && #[trigger] subs[j].0 == id && glob_matches(subs[j].1, address)
}

/// How often `e` occurs in `s`.
pub open spec fn occurrences(s: Seq<Effect>, e: Effect) -> nat
    decreases s.len(),
{
    if s.len() == 0 {
        0
    } else {
        occurrences(s.drop_last(), e) + if s.last() == e {
            1nat
        } else {
            0nat
        }
    }
}

proof fn lemma_distinct_prefix(subs: Seq<(u32, Seq<char>)>)
    requires
        subs.len() > 0,
        distinct_ids(subs),
    ensures
        distinct_ids(subs.drop_last()),
        !has_sub_id(subs.drop_last(), subs.last().0),
{
    let prev = subs.drop_last();
    assert forall|i: int, j: int|
        0 <= i < prev.len() && 0 <= j < prev.len() && i != j implies #[trigger] prev[i].0
            != #[trigger] prev[j].0 by {
        assert(prev[i] == subs[i] && prev[j] == subs[j]);
    }
    if has_sub_id(prev, subs.last().0) {
        let j = choose|j: int| 0 <= j < prev.len() && #[trigger] prev[j].0 == subs.last().0;
        assert(subs[j].0 == subs[subs.len() - 1].0);
    }
}

proof fn lemma_without_sub_distinct(subs: Seq<(u32, Seq<char>)>, id: u32)
    requires
        distinct_ids(subs),
    ensures
        distinct_ids(without_sub(subs, id)),
        forall|x: u32| !has_sub_id(subs, x) ==> !has_sub_id(without_sub(subs, id), x),
    decreases subs.len(),
{
    if subs.len() > 0 {
        let prev = subs.drop_last();
        let last = subs.last();
        lemma_distinct_prefix(subs);
        lemma_without_sub_distinct(prev, id);
        let w = without_sub(prev, id);
        assert forall|x: u32| !has_sub_id(subs, x) implies !has_sub_id(prev, x) by {
            if has_sub_id(prev, x) {
                let j = choose|j: int| 0 <= j < prev.len() && #[trigger] prev[j].0 == x;
                assert(subs[j].0 == x);
            }
        }
        if last.0 != id {
            let r = w.push(last);
            assert(!has_sub_id(w, last.0));
            assert forall|i: int, j: int|
                0 <= i < r.len() && 0 <= j < r.len() && i != j implies #[trigger] r[i].0
                    != #[trigger] r[j].0 by {
                if i < w.len() && j < w.len() {
                    assert(r[i] == w[i] && r[j] == w[j]);
                } else if i < w.len() {
                    assert(r[i] == w[i]);
                } else {
                    assert(r[j] == w[j]);
                }
            }
            assert forall|x: u32| !has_sub_id(subs, x) implies !has_sub_id(r, x) by {
                assert(subs[subs.len() - 1].0 != x);
                if has_sub_id(r, x) {
                    let k = choose|k: int| 0 <= k < r.len() && #[trigger] r[k].0 == x;
                    if k < w.len() {
                        assert(w[k].0 == x);
                    }
                }
            }
        }
    }
}

/// Subscribing (which replaces a subscription with the same id) and
/// unsubscribing keep subscription ids distinct.
pub proof fn law_subscription_ids_distinct(
    subs: Seq<(u32, Seq<char>)>,
    id: u32,
    pattern: Seq<char>,
)
    requires
        distinct_ids(subs),
    ensures
        distinct_ids(without_sub(subs, id)),
        distinct_ids(without_sub(subs, id).push((id, pattern))),
{
    lemma_without_sub_distinct(subs, id);
    lemma_without_sub(subs, id);
    let w = without_sub(subs, id);
    let r = w.push((id, pattern));
    assert forall|i: int, j: int|
        0 <= i < r.len() && 0 <= j < r.len() && i != j implies #[trigger] r[i].0
            != #[trigger] r[j].0 by {
        if i < w.len() && j < w.len() {
            assert(r[i] == w[i] && r[j] == w[j]);
        } else if i < w.len() {
            assert(r[i] == w[i]);
        } else {
            assert(r[j] == w[j]);
        }
    }
}

/// With distinct subscription ids, a value at an address reaches each
/// subscription whose pattern matches the address exactly once, and the
/// others not at all.
pub proof fn law_notified_once(subs: Seq<(u32, Seq<char>)>, address: Seq<char>, v: ValueModel, id: u32)
    requires
        distinct_ids(subs),
    ensures
        occurrences(notifications(subs, address, v), Effect::Notify(id, address, v)) == (if matching_sub(
            subs,
            id,
            address,
        ) {
            1nat
        } else {
            0nat
        }),
    decreases subs.len(),
{
    let e = Effect::Notify(id, address, v);
    if subs.len() == 0 {
        assert(!matching_sub(subs, id, address));
    } else {
        let prev = subs.drop_last();
        let last = subs.last();
        lemma_distinct_prefix(subs);
        law_notified_once(prev, address, v, id);
        let n0 = notifications(prev, address, v);
        assert(matching_sub(prev, id, address) ==> matching_sub(subs, id, address)) by {
            if matching_sub(prev, id, address) {
                let j = choose|j: int|
                    0 <= j < prev.len() && #[trigger] prev[j].0 == id && glob_matches(prev[j].1, address);
                assert(subs[j] == prev[j]);
            }
        }
        assert(matching_sub(subs, id, address) ==> matching_sub(prev, id, address) || (last.0 == id
            && glob_matches(last.1, address))) by {
            if matching_sub(subs, id, address) {
                let j = choose|j: int|
                    0 <= j < subs.len() && #[trigger] subs[j].0 == id && glob_matches(subs[j].1, address);
                if j < prev.len() {
                    assert(prev[j] == subs[j]);
                }
            }
        }
        if glob_matches(last.1, address) {
            let x = Effect::Notify(last.0, address, v);
            assert(notifications(subs, address, v) =~= n0.push(x));
            assert(n0.push(x).drop_last() =~= n0);
            if last.0 == id {
                assert(subs[subs.len() - 1].0 == id);
                if matching_sub(prev, id, address) {
                    let j = choose|j: int|
                        0 <= j < prev.len() && #[trigger] prev[j].0 == id && glob_matches(prev[j].1, address);
                    assert(has_sub_id(prev, last.0));
                }
            }
        } else {
            assert(notifications(subs, address, v) =~= n0);
        }
    }
}

/// A value at an address reaches subscription `id` exactly when `id`
/// subscribed with a pattern that matches the address.
pub proof fn law_notified_iff_matching(
    subs: Seq<(u32, Seq<char>)>,
    address: Seq<char>,
    v: ValueModel,
    id: u32,
)
    ensures
        notifications(subs, address, v).contains(Effect::Notify(id, address, v)) <==> exists|j: int|
            0 <= j < subs.len() && #[trigger] subs[j].0 == id && glob_matches(subs[j].1, address),
    decreases subs.len(),
{
    if subs.len() > 0 {
        let prev = subs.drop_last();
        law_notified_iff_matching(prev, address, v, id);
        let n0 = notifications(prev, address, v);
        let e = Effect::Notify(id, address, v);
        let tail = if glob_matches(subs.last().1, address) {
            seq![Effect::Notify(subs.last().0, address, v)]
        } else {
            Seq::<Effect>::empty()
        };
        assert(notifications(subs, address, v) == n0 + tail);
        if (n0 + tail).contains(e) {
            let k = choose|k: int| 0 <= k < (n0 + tail).len() && (n0 + tail)[k] == e;
            if k < n0.len() {
                assert(n0[k] == e);
                let j = choose|j: int|
                    0 <= j < prev.len() && #[trigger] prev[j].0 == id && glob_matches(
                        prev[j].1,
                        address,
                    );
                assert(subs[j] == prev[j]);
            } else {
                assert(subs[subs.len() - 1].0 == id);
            }
        }
        if exists|j: int|
            0 <= j < subs.len() && #[trigger] subs[j].0 == id && glob_matches(subs[j].1, address) {
            let j = choose|j: int|
                0 <= j < subs.len() && #[trigger] subs[j].0 == id && glob_matches(subs[j].1, address);
            if j < subs.len() - 1 {
                assert(prev[j] == subs[j]);
                assert(n0.contains(e));
                let k = choose|k: int| 0 <= k < n0.len() && n0[k] == e;
                assert((n0 + tail)[k] == e);
            } else {
                assert((n0 + tail)[n0.len() as int] == e);
            }
        }
    }
}

/// After unsubscribing, no subscription with that id is left, so no value
/// reaches it.
pub proof fn law_unsubscribed_not_notified(
    subs: Seq<(u32, Seq<char>)>,
    id: u32,
    address: Seq<char>,
    v: ValueModel,
)
    ensures
        forall|j: int| 0 <= j < without_sub(subs, id).len() ==> #[trigger] without_sub(subs, id)[j].0 != id,
        !notifications(without_sub(subs, id), address, v).contains(Effect::Notify(id, address, v)),
{
    lemma_without_sub(subs, id);
    law_notified_iff_matching(without_sub(subs, id), address, v, id);
}

proof fn lemma_without_sub(subs: Seq<(u32, Seq<char>)>, id: u32)
    ensures
        forall|j: int| 0 <= j < without_sub(subs, id).len() ==> #[trigger] without_sub(subs, id)[j].0 != id,
    decreases subs.len(),
{
    if subs.len() > 0 {
        lemma_without_sub(subs.drop_last(), id);
        let w = without_sub(subs.drop_last(), id);
        if subs.last().0 != id {
            assert forall|k: int| 0 <= k < w.push(subs.last()).len() implies #[trigger] w.push(
                subs.last(),
            )[k].0 != id by {
                if k < w.len() {
                    assert(w.push(subs.last())[k] == w[k]);
                }
            }
        }
    }
}

/// A snapshot entry for an address with a pending read completes that read
/// first, and the read is pending no more.
pub proof fn law_snapshot_completes_read(st: StateModel, address: Seq<char>, v: ValueModel)
    requires
        st.pending.contains(address),
    ensures
        apply_param(st, address, v).1[0] == Effect::Deliver(address, v),
        !apply_param(st, address, v).0.pending.contains(address),
        dict_get(apply_param(st, address, v).0.cache, address) == Some(v),
{
    lemma_without(st.pending, address);
    law_get_after_put(st.cache, address, v, address.push('/'));
}

proof fn lemma_without(s: Seq<Seq<char>>, x: Seq<char>)
    ensures
        !without(s, x).contains(x),
    decreases s.len(),
{
    if s.len() > 0 {
        lemma_without(s.drop_last(), x);
        let w = without(s.drop_last(), x);
        if s.last() != x {
            assert forall|k: int| 0 <= k < w.push(s.last()).len() implies w.push(s.last())[k]
                != x by {
                if k < w.len() {
                    assert(w.push(s.last())[k] == w[k]);
                }
            }
        }
    }
}

/// An error from the server is what `last_error` gives afterwards, until
/// it is cleared.
pub proof fn law_error_recorded(st: StateModel, e: ErrorMessage)
    ensures
        handle(st, Message::Error(e)).0.last_error == Some(e),
        handle(st, Message::Error(e)).0.cache == st.cache,
        handle(st, Message::Error(e)).1.len() == 0,
{
}

/// A bundle does what its messages do, one after the other.
pub proof fn law_bundle_in_order(st: StateModel, b: BundleMessage, m1: Message, m2: Message)
    requires
        b.messages@ =~= seq![m1, m2],
    ensures
        handle(st, Message::Bundle(b)).0 == handle(handle(st, m1).0, m2).0,
        handle(st, Message::Bundle(b)).1 == handle(st, m1).1 + handle(handle(st, m1).0, m2).1,
{
    let ms = b.messages@;
    assert(ms.drop_last() =~= seq![m1]);
    assert(ms.drop_last().drop_last() =~= Seq::<Message>::empty());
    assert(ms.last() == m2);
    assert(ms.drop_last().last() == m1);
    let e = handle_all(st, Seq::<Message>::empty());
    assert(e == (st, Seq::<Effect>::empty()));
    let one = handle_all(st, ms.drop_last());
    assert(one == (handle(st, m1).0, Seq::<Effect>::empty() + handle(st, m1).1));
    assert(Seq::<Effect>::empty() + handle(st, m1).1 =~= handle(st, m1).1);
}

} // verus!
