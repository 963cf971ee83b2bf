//! The surroundings of a contract call: what the call may read of its host,
//! and what it asks the host to do.

use vstd::prelude::*;

use crate::address::Address;

verus! {

/// How long a lasting ledger entry is kept alive when it is written, in ledgers.
pub const PERSISTENT_BUMP_LEDGERS: u32 = 518_400;

/// One request to the host. The host carries the requests of a call out in
/// the order in which they were made, and undoes all of them when one of them
/// fails or when the call is refused.
///
/// `K` names ledger entries of a contract and `E` is what it announces.
#[derive(Debug, PartialEq, Eq)]
pub enum Effect<K, E> {
    /// The call stands only if this address has authorised it.
    RequireAuth(Address),
    /// The call stands only if `amount` units of `token` move from `from` to `to`.
    Transfer { token: Address, from: Address, to: Address, amount: i128 },
    /// The entry under this key was written: the ledger takes the contract's value for it.
    Store(K),
    /// The entry under this key was removed.
    Remove(K),
    /// Keep the entry under this key alive: once it has fewer than `threshold`
    /// ledgers to live, give it `extend_to`.
    ExtendTtl { key: K, threshold: u32, extend_to: u32 },
    /// Announce this event.
    Publish(E),
}

/// What a call sees of its host, with the requests that it has made so far.
pub struct Env<K, E> {
    /// Seconds since the epoch, as the current ledger closes.
    pub timestamp: u64,
    /// The contract that is being called.
    pub contract: Address,
    pub effects: Vec<Effect<K, E>>,
}

impl<K, E> Env<K, E> {
    /// A host at the given time, asked for nothing yet.
    pub fn new(timestamp: u64, contract: Address) -> (env: Self)
        ensures
            env.timestamp == timestamp,
            env.contract == contract,
            env.effects@ == Seq::<Effect<K, E>>::empty(),
    {
        Env { timestamp, contract, effects: Vec::new() }
    }

    /// `self` is what became of `before` after the call asked for exactly
    /// `asked`, in that order.
    pub open spec fn after(self, before: Self, asked: Seq<Effect<K, E>>) -> bool {
        &&& self.timestamp == before.timestamp
        &&& self.contract == before.contract
        &&& self.effects@ =~= before.effects@ + asked
    }

    /// `self` is what became of `before` after one more request.
    pub open spec fn asked(self, before: Self, effect: Effect<K, E>) -> bool {
        &&& self.timestamp == before.timestamp
        &&& self.contract == before.contract
        &&& self.effects@ == before.effects@.push(effect)
    }

    pub fn require_auth(&mut self, address: Address)
        ensures
            final(self).asked(*old(self), Effect::RequireAuth(address)),
    {
        self.effects.push(Effect::RequireAuth(address));
    }

    pub fn transfer(&mut self, token: Address, from: Address, to: Address, amount: i128)
        ensures
            final(self).asked(*old(self), Effect::Transfer { token, from, to, amount }),
    {
        self.effects.push(Effect::Transfer { token, from, to, amount });
    }

    pub fn store(&mut self, key: K)
        ensures
            final(self).asked(*old(self), Effect::Store(key)),
    {
        self.effects.push(Effect::Store(key));
    }

    pub fn remove(&mut self, key: K)
        ensures
            final(self).asked(*old(self), Effect::Remove(key)),
    {
        self.effects.push(Effect::Remove(key));
    }

    /// Keeps a lasting entry alive for `PERSISTENT_BUMP_LEDGERS`.
    pub fn bump(&mut self, key: K)
        ensures
            final(self).asked(*old(self), bumped(key)),
    {
        self.effects.push(
            Effect::ExtendTtl {
                key,
                threshold: PERSISTENT_BUMP_LEDGERS,
                extend_to: PERSISTENT_BUMP_LEDGERS,
            },
        );
    }

    pub fn publish(&mut self, event: E)
        ensures
            final(self).asked(*old(self), Effect::Publish(event)),
    {
        self.effects.push(Effect::Publish(event));
    }
}

/// The request to keep a lasting entry alive.
pub open spec fn bumped<K, E>(key: K) -> Effect<K, E> {
    Effect::ExtendTtl {
        key,
        threshold: PERSISTENT_BUMP_LEDGERS,
        extend_to: PERSISTENT_BUMP_LEDGERS,
    }
}

/// The units of a token that a list of requests moves from one address to
/// another.
pub open spec fn moved<K, E>(
    asked: Seq<Effect<K, E>>,
    token: Address,
    from: Address,
    to: Address,
) -> int
    decreases asked.len(),
{
    if asked.len() == 0 {
        0
    } else {
        moved(asked.drop_last(), token, from, to) + match asked.last() {
            Effect::Transfer { token: t, from: f, to: r, amount } => if t == token && f == from && r
                == to {
                amount as int
            } else {
                0
            },
            _ => 0,
        }
    }
}

/// Nothing is moved by no requests. One more request moves its own units if it
/// is a transfer of that token between those addresses, and nothing if not.
pub proof fn law_moved<K, E>(
    asked: Seq<Effect<K, E>>,
    effect: Effect<K, E>,
    token: Address,
    from: Address,
    to: Address,
    amount: i128,
)
    ensures
        moved(Seq::<Effect<K, E>>::empty(), token, from, to) == 0,
        effect == (Effect::<K, E>::Transfer { token, from, to, amount }) ==> moved(
            asked.push(effect),
            token,
            from,
            to,
        ) == moved(asked, token, from, to) + amount,
        !(effect matches Effect::Transfer { token: t, from: f, to: r, .. } && t == token && f
            == from && r == to) ==> moved(asked.push(effect), token, from, to) == moved(
            asked,
            token,
            from,
            to,
        ),
{
    assert(asked.push(effect).drop_last() =~= asked);
}

/// What two lists of requests move, they move one after the other.
pub proof fn lemma_moved_add<K, E>(
    a: Seq<Effect<K, E>>,
    b: Seq<Effect<K, E>>,
    token: Address,
    from: Address,
    to: Address,
)
    ensures
        moved(a + b, token, from, to) == moved(a, token, from, to) + moved(b, token, from, to),
    decreases b.len(),
{
    if b.len() == 0 {
        assert(a + b =~= a);
    } else {
        lemma_moved_add(a, b.drop_last(), token, from, to);
        assert((a + b).drop_last() =~= a + b.drop_last());
    }
}

/// A call that asked for something has added exactly that to the requests, at
/// their end and in order, and changed neither the time nor the address.
pub proof fn law_after_adds_requests<K, E>(
    env: Env<K, E>,
    before: Env<K, E>,
    asked: Seq<Effect<K, E>>,
    effect: Effect<K, E>,
)
    ensures
        env.after(before, asked) <==> env.timestamp == before.timestamp && env.contract
            == before.contract && env.effects@ =~= before.effects@ + asked,
        env.asked(before, effect) ==> env.after(before, seq![effect]),
{
}

/// Keeping an entry alive gives it 518 400 ledgers.
pub proof fn law_bumped<K, E>(key: K)
    ensures
        bumped::<K, E>(key) == (Effect::<K, E>::ExtendTtl {
            key,
            threshold: 518_400,
            extend_to: 518_400,
        }),
{
}

} // verus!
