//! Referral chains over several levels. A player registers with the player who
//! referred them, and revenue is attributed to the levels above. This contract
//! only keeps track; rewards are paid elsewhere.
//!
//! The admin calls `init` with a commission rate for each level. New players
//! call `register`. `attribute_revenue` logs revenue and returns the chain, and
//! `get_referral_chain` tells where commissions go.

use vstd::prelude::*;

use crate::address::{Address, Key};
use crate::bps;
use crate::env::{bumped, Effect, Env};
use crate::table::Table;

verus! {

/// The most levels that commissions go up.
pub const MAX_DEPTH: u32 = 5;

#[derive(Copy, Clone, Debug, Eq, PartialEq, PartialOrd, Ord)]
pub enum Error {
    AlreadyInitialized,
    NotInitialized,
    NotAuthorized,
    AlreadyRegistered,
    SelfReferral,
    ReferrerNotRegistered,
    InvalidConfig,
    Overflow,
}

impl Error {
    /// The number by which callers of the contract know the error.
    pub fn code(self) -> (code: u32)
        ensures
            code == match self {
                Error::AlreadyInitialized => 1u32,
                Error::NotInitialized => 2,
                Error::NotAuthorized => 3,
                Error::AlreadyRegistered => 4,
                Error::SelfReferral => 5,
                Error::ReferrerNotRegistered => 6,
                Error::InvalidConfig => 7,
                Error::Overflow => 8,
            },
    {
        match self {
            Error::AlreadyInitialized => 1,
            Error::NotInitialized => 2,
            Error::NotAuthorized => 3,
            Error::AlreadyRegistered => 4,
            Error::SelfReferral => 5,
            Error::ReferrerNotRegistered => 6,
            Error::InvalidConfig => 7,
            Error::Overflow => 8,
        }
    }
}

/// The names of the contract's ledger entries.
#[derive(Clone, Copy, Debug, Eq, PartialEq)]
pub enum DataKey {
    Admin,
    CommissionRatesBps,
    Referrer(Address),
    ReferralCount(Address),
    TotalAttributed,
}

#[derive(Clone, Copy, Debug, Eq, PartialEq)]
pub struct ReferralChainEntry {
    pub address: Address,
    pub level: u32,
    pub commission_bps: u32,
}

#[derive(Clone, Copy, Debug, Eq, PartialEq)]
pub struct PlayerRegistered {
    pub player: Address,
    pub referrer: Option<Address>,
}

#[derive(Clone, Copy, Debug, Eq, PartialEq)]
pub struct RevenueAttributed {
    pub player: Address,
    pub gross_amount: i128,
    pub levels_attributed: u32,
}

#[derive(Clone, Copy, Debug, Eq, PartialEq)]
pub enum Event {
    PlayerRegistered(PlayerRegistered),
    RevenueAttributed(RevenueAttributed),
}

/// What `init` writes: the admin, and the commission rate of each level with
/// the direct referrer's first.
pub struct Config {
    pub admin: Address,
    pub commission_rates_bps: Vec<u32>,
}

/// What `init` writes, with the rates as a sequence.
#[verifier::ext_equal]
pub struct ConfigState {
    pub admin: Address,
    pub commission_rates_bps: Seq<u32>,
}

impl View for Config {
    type V = ConfigState;

    open spec fn view(&self) -> ConfigState {
        ConfigState { admin: self.admin, commission_rates_bps: self.commission_rates_bps@ }
    }
}

/// The contract's ledger entries. A player who registered without a referrer
/// has an entry of `None`.
pub struct ReferralTracker {
    pub config: Option<Config>,
    pub referrers: Table<Address, Option<Address>>,
    pub referral_counts: Table<Address, u32>,
    pub total_attributed: i128,
}

/// The contract's ledger entries as maps.
#[verifier::ext_equal]
pub struct ReferralTrackerState {
    pub config: Option<ConfigState>,
    pub referrers: Map<Address, Option<Address>>,
    pub referral_counts: Map<Address, u32>,
    pub total_attributed: i128,
}

impl View for ReferralTracker {
    type V = ReferralTrackerState;

    open spec fn view(&self) -> ReferralTrackerState {
        ReferralTrackerState {
            config: match self.config {
                Some(config) => Some(config@),
                None => None,
            },
            referrers: self.referrers@,
            referral_counts: self.referral_counts@,
            total_attributed: self.total_attributed,
        }
    }
}

impl ReferralTrackerState {
    /// The ledger before `init`.
    pub open spec fn empty() -> Self {
        ReferralTrackerState {
            config: None,
            referrers: Map::empty(),
            referral_counts: Map::empty(),
            total_attributed: 0,
        }
    }

    /// The request for an authorisation, once there is a contract to call.
    pub open spec fn auth_asks(self, address: Address) -> Seq<Effect<DataKey, Event>> {
        if self.config is Some {
            seq![Effect::RequireAuth(address)]
        } else {
            seq![]
        }
    }

    /// Only the admin may go on.
    pub open spec fn admin_result(self, caller: Address) -> Result<(), Error> {
        match self.config {
            None => Err(Error::NotInitialized),
            Some(config) => if caller == config.admin {
                Ok(())
            } else {
                Err(Error::NotAuthorized)
            },
        }
    }

    /// There is a rate for one level at least and for the deepest at most, and
    /// the rates together take no more than the whole.
    pub open spec fn rates_valid(rates: Seq<u32>) -> bool {
        &&& 0 < rates.len() <= MAX_DEPTH
        &&& bps::sum(rates) <= bps::WHOLE_BPS
    }

    pub open spec fn init_result(self, config: ConfigState) -> Result<(), Error> {
        if self.config is Some {
            Err(Error::AlreadyInitialized)
        } else if !Self::rates_valid(config.commission_rates_bps) {
            Err(Error::InvalidConfig)
        } else {
            Ok(())
        }
    }

    pub open spec fn after_init(self, config: ConfigState) -> Self {
        if self.init_result(config) is Ok {
            ReferralTrackerState { config: Some(config), ..self }
        } else {
            self
        }
    }

    pub open spec fn init_asks(self, config: ConfigState) -> Seq<Effect<DataKey, Event>> {
        if self.config is Some {
            seq![]
        } else if self.init_result(config) is Err {
            seq![Effect::RequireAuth(config.admin)]
        } else {
            seq![
                Effect::RequireAuth(config.admin),
                Effect::Store(DataKey::Admin),
                Effect::Store(DataKey::CommissionRatesBps),
            ]
        }
    }

    /// A player registers once, under somebody else who has registered or
    /// under nobody.
    pub open spec fn register_result(self, player: Address, referrer: Option<Address>) -> Result<
        (),
        Error,
    > {
        if self.config is None {
            Err(Error::NotInitialized)
        } else if self.referrers.contains_key(player) {
            Err(Error::AlreadyRegistered)
        } else if referrer == Some(player) {
            Err(Error::SelfReferral)
        } else if referrer is Some && !self.referrers.contains_key(referrer->0) {
            Err(Error::ReferrerNotRegistered)
        } else {
            Ok(())
        }
    }

    /// How many players have registered under a player.
    pub open spec fn referral_count(self, referrer: Address) -> u32 {
        if self.referral_counts.contains_key(referrer) {
            self.referral_counts[referrer]
        } else {
            0
        }
    }

    pub open spec fn after_register(self, player: Address, referrer: Option<Address>) -> Self {
        if self.register_result(player, referrer) is Ok {
            ReferralTrackerState {
                referrers: self.referrers.insert(player, referrer),
                referral_counts: match referrer {
                    Some(address) => self.referral_counts.insert(
                        address,
                        self.referral_count(address).saturating_add(1),
                    ),
                    None => self.referral_counts,
                },
                ..self
            }
        } else {
            self
        }
    }

    pub open spec fn register_asks(self, player: Address, referrer: Option<Address>) -> Seq<
        Effect<DataKey, Event>,
    > {
        self.auth_asks(player) + if self.register_result(player, referrer) is Ok {
            (match referrer {
                Some(address) => seq![Effect::Store(DataKey::ReferralCount(address))],
                None => seq![],
            }) + seq![
                Effect::Store(DataKey::Referrer(player)),
                bumped(DataKey::Referrer(player)),
                Effect::Publish(Event::PlayerRegistered(PlayerRegistered { player, referrer })),
            ]
        } else {
            seq![]
        }
    }

    /// The rates, none before `init`.
    pub open spec fn rates(self) -> Seq<u32> {
        match self.config {
            Some(config) => config.commission_rates_bps,
            None => seq![],
        }
    }

    /// Who referred a player, if anybody did.
    pub open spec fn referrer_of(self, player: Address) -> Option<Address> {
        if self.referrers.contains_key(player) {
            self.referrers[player]
        } else {
            None
        }
    }

    /// Who is `levels` levels above the referrer of a player, if anybody is.
    pub open spec fn ancestor(self, player: Address, levels: nat) -> Option<Address>
        decreases levels,
    {
        if levels == 0 {
            self.referrer_of(player)
        } else {
            match self.ancestor(player, (levels - 1) as nat) {
                Some(address) => self.referrer_of(address),
                None => None,
            }
        }
    }

    /// How many of the first `n` levels above a player have somebody on them.
    pub open spec fn levels(self, player: Address, n: nat) -> nat
        decreases n,
    {
        if n == 0 {
            0
        } else if self.ancestor(player, (n - 1) as nat) is Some {
            n
        } else {
            self.levels(player, (n - 1) as nat)
        }
    }

    /// Everybody above a player who has a commission rate, from the direct
    /// referrer upwards.
    pub open spec fn chain(self, player: Address) -> Seq<ReferralChainEntry> {
        Seq::new(
            self.levels(player, self.rates().len()),
            |level: int|
                ReferralChainEntry {
                    address: self.ancestor(player, level as nat)->0,
                    level: level as u32,
                    commission_bps: self.rates()[level],
                },
        )
    }

    pub open spec fn attribute_result(
        self,
        caller: Address,
        player: Address,
        gross_amount: i128,
    ) -> Result<Seq<ReferralChainEntry>, Error> {
        match self.admin_result(caller) {
            Err(e) => Err(e),
            Ok(_) => if i128::MIN <= self.total_attributed + gross_amount <= i128::MAX {
                Ok(self.chain(player))
            } else {
                Err(Error::Overflow)
            },
        }
    }

    pub open spec fn after_attribute(
        self,
        caller: Address,
        player: Address,
        gross_amount: i128,
    ) -> Self {
        if self.attribute_result(caller, player, gross_amount) is Ok {
            ReferralTrackerState {
                total_attributed: (self.total_attributed + gross_amount) as i128,
                ..self
            }
        } else {
            self
        }
    }

    pub open spec fn attribute_asks(
        self,
        caller: Address,
        player: Address,
        gross_amount: i128,
    ) -> Seq<Effect<DataKey, Event>> {
        self.auth_asks(caller) + match self.attribute_result(caller, player, gross_amount) {
            Ok(chain) => seq![
                Effect::Store(DataKey::TotalAttributed),
                Effect::Publish(
                    Event::RevenueAttributed(
                        RevenueAttributed {
                            player,
                            gross_amount,
                            levels_attributed: chain.len() as u32,
                        },
                    ),
                ),
            ],
            Err(_) => seq![],
        }
    }

    proof fn lemma_levels_none(self, player: Address, n: nat, level: nat)
        requires
            level <= n,
            level > 0 ==> self.ancestor(player, (level - 1) as nat) is Some,
            self.ancestor(player, level) is None,
        ensures
            self.levels(player, n) == level,
        decreases n,
    {
        if n > level {
            self.lemma_none_above(player, level, (n - 1) as nat);
            self.lemma_levels_none(player, (n - 1) as nat, level);
        }
    }

    proof fn lemma_none_above(self, player: Address, level: nat, above: nat)
        requires
            level <= above,
            self.ancestor(player, level) is None,
        ensures
            self.ancestor(player, above) is None,
        decreases above,
    {
        if above > level {
            self.lemma_none_above(player, level, (above - 1) as nat);
        }
    }
}

impl ReferralTracker {
    /// The contract before `init`.
    pub fn new() -> (tracker: Self)
        ensures
            tracker@ == ReferralTrackerState::empty(),
    {
        ReferralTracker {
            config: None,
            referrers: Table::new(),
            referral_counts: Table::new(),
            total_attributed: 0,
        }
    }

    /// Asks for the caller's authorisation, and refuses anyone but the admin.
    pub fn require_admin(&self, env: &mut Env<DataKey, Event>, caller: Address) -> (r: Result<
        (),
        Error,
    >)
        ensures
            r == self@.admin_result(caller),
            final(env).after(*old(env), self@.auth_asks(caller)),
    {
        match &self.config {
            None => Err(Error::NotInitialized),
            Some(config) => {
                env.require_auth(caller);
                if caller.same(&config.admin) {
                    Ok(())
                } else {
                    Err(Error::NotAuthorized)
                }
            },
        }
    }

    /// Sets the contract up with one rate for each level, the direct
    /// referrer's first.
    pub fn init(
        &mut self,
        env: &mut Env<DataKey, Event>,
        admin: Address,
        commission_rates_bps: Vec<u32>,
    ) -> (r: Result<(), Error>)
        ensures
            r is Err ==> final(self)@ == old(self)@,
            r == old(self)@.init_result(Config { admin, commission_rates_bps }@),
            final(self)@ == old(self)@.after_init(Config { admin, commission_rates_bps }@),
            final(env).after(
                *old(env),
                old(self)@.init_asks(Config { admin, commission_rates_bps }@),
            ),
    {
        if self.config.is_some() {
            return Err(Error::AlreadyInitialized);
        }
        env.require_auth(admin);
        if commission_rates_bps.len() == 0 || commission_rates_bps.len() > MAX_DEPTH as usize {
            return Err(Error::InvalidConfig);
        }
        let total: u32 = bps::total(&commission_rates_bps);
        if total > bps::WHOLE_BPS {
            return Err(Error::InvalidConfig);
        }
        self.config = Some(Config { admin, commission_rates_bps });
        env.store(DataKey::Admin);
        env.store(DataKey::CommissionRatesBps);
        Ok(())
    }

    /// A player registers, with a referrer or without one.
    pub fn register(
        &mut self,
        env: &mut Env<DataKey, Event>,
        player: Address,
        referrer: Option<Address>,
    ) -> (r: Result<(), Error>)
        ensures
            r is Err ==> final(self)@ == old(self)@,
            r == old(self)@.register_result(player, referrer),
            final(self)@ == old(self)@.after_register(player, referrer),
            final(env).after(*old(env), old(self)@.register_asks(player, referrer)),
    {
        if self.config.is_none() {
            return Err(Error::NotInitialized);
        }
        env.require_auth(player);
        if self.referrers.has(&player) {
            return Err(Error::AlreadyRegistered);
        }
        if let Some(address) = referrer {
            if address.same(&player) {
                return Err(Error::SelfReferral);
            }
            if !self.referrers.has(&address) {
                return Err(Error::ReferrerNotRegistered);
            }
            let count: u32 = self.get_referral_count(address);
            self.referral_counts.set(address, count.saturating_add(1));
            env.store(DataKey::ReferralCount(address));
        }
        self.referrers.set(player, referrer);
        env.store(DataKey::Referrer(player));
        env.bump(DataKey::Referrer(player));
        env.publish(Event::PlayerRegistered(PlayerRegistered { player, referrer }));
        Ok(())
    }

    /// Who referred a player, if anybody did.
    fn referrer(&self, player: &Address) -> (r: Option<Address>)
        ensures
            r == self@.referrer_of(*player),
    {
        match self.referrers.get(player) {
            Some(referrer) => *referrer,
            None => None,
        }
    }

    /// The referral chain of a player, as far up as there are rates.
    pub fn get_referral_chain(&self, player: Address) -> (chain: Vec<ReferralChainEntry>)
        requires
            self@.rates().len() <= u32::MAX,
        ensures
            chain@ == self@.chain(player),
    {
        let mut chain: Vec<ReferralChainEntry> = Vec::new();
        let rates: &Vec<u32> = match &self.config {
            Some(config) => &config.commission_rates_bps,
            None => {
                return chain;
            },
        };
        let mut current: Option<Address> = self.referrer(&player);
        let mut level: u32 = 0;
        while (level as usize) < rates.len()
            invariant
                level <= rates.len() <= u32::MAX,
                rates@ == self@.rates(),
                current == self@.ancestor(player, level as nat),
                level > 0 ==> self@.ancestor(player, (level - 1) as nat) is Some,
                chain.len() == level,
                forall|i: int|
                    0 <= i < level ==> #[trigger] chain@[i] == (ReferralChainEntry {
                        address: self@.ancestor(player, i as nat)->0,
                        level: i as u32,
                        commission_bps: rates@[i],
                    }),
            decreases rates.len() - level,
        {
            match current {
                None => {
                    proof {
                        self@.lemma_levels_none(player, rates@.len(), level as nat);
                        assert(chain@ =~= self@.chain(player));
                    }
                    return chain;
                },
                Some(address) => {
                    chain.push(
                        ReferralChainEntry {
                            address,
                            level,
                            commission_bps: rates[level as usize],
                        },
                    );
                    level = level + 1;
                    current = self.referrer(&address);
                },
            }
        }
        assert(chain@ =~= self@.chain(player));
        chain
    }

    /// Logs the revenue that a player brought in, and returns the referral
    /// chain so that commissions can be paid.
    pub fn attribute_revenue(
        &mut self,
        env: &mut Env<DataKey, Event>,
        caller: Address,
        player: Address,
        gross_amount: i128,
    ) -> (r: Result<Vec<ReferralChainEntry>, Error>)
        requires
            old(self)@.rates().len() <= u32::MAX,
        ensures
            r is Err ==> final(self)@ == old(self)@,
            match r {
                Ok(chain) => old(self)@.attribute_result(caller, player, gross_amount) == Ok::<
                    Seq<ReferralChainEntry>,
                    Error,
                >(chain@),
                Err(e) => old(self)@.attribute_result(caller, player, gross_amount) == Err::<
                    Seq<ReferralChainEntry>,
                    Error,
                >(e),
            },
            final(self)@ == old(self)@.after_attribute(caller, player, gross_amount),
            final(env).after(*old(env), old(self)@.attribute_asks(caller, player, gross_amount)),
    {
        if let Err(e) = self.require_admin(env, caller) {
            return Err(e);
        }
        let chain: Vec<ReferralChainEntry> = self.get_referral_chain(player);
        let levels_attributed: u32 = chain.len() as u32;
        self.total_attributed =
        match self.total_attributed.checked_add(gross_amount) {
            Some(total) => total,
            None => {
                return Err(Error::Overflow);
            },
        };
        env.store(DataKey::TotalAttributed);
        env.publish(
            Event::RevenueAttributed(
                RevenueAttributed { player, gross_amount, levels_attributed },
            ),
        );
        Ok(chain)
    }

    pub fn get_referral_count(&self, referrer: Address) -> (count: u32)
        ensures
            count == self@.referral_count(referrer),
    {
        match self.referral_counts.get(&referrer) {
            Some(count) => *count,
            None => 0,
        }
    }

    pub fn get_total_attributed(&self) -> (total: i128)
        ensures
            total == self@.total_attributed,
    {
        self.total_attributed
    }
}

/// One call that may change the contract's ledger entries.
pub enum Call {
    Init { config: ConfigState },
    Register { player: Address, referrer: Option<Address> },
    AttributeRevenue { caller: Address, player: Address, gross_amount: i128 },
}

impl ReferralTrackerState {
    pub open spec fn step(self, call: Call) -> Self {
        match call {
            Call::Init { config } => self.after_init(config),
            Call::Register { player, referrer } => self.after_register(player, referrer),
            Call::AttributeRevenue { caller, player, gross_amount } => self.after_attribute(
                caller,
                player,
                gross_amount,
            ),
        }
    }

    /// What becomes of the ledger when calls are made one after the other.
    pub open spec fn run(self, calls: Seq<Call>) -> Self
        decreases calls.len(),
    {
        if calls.len() == 0 {
            self
        } else {
            self.run(calls.drop_last()).step(calls.last())
        }
    }

    /// The admin whom the `init` among these calls set, if one succeeded.
    pub open spec fn admin_set(self, calls: Seq<Call>) -> Option<Address>
        decreases calls.len(),
    {
        if calls.len() == 0 {
            None
        } else {
            let before = self.admin_set(calls.drop_last());
            match calls.last() {
                Call::Init { config } => if self.run(calls.drop_last()).init_result(config) is Ok {
                    Some(config.admin)
                } else {
                    before
                },
                _ => before,
            }
        }
    }

    /// The revenue that these calls attribute.
    pub open spec fn attributed(self, calls: Seq<Call>) -> int
        decreases calls.len(),
    {
        if calls.len() == 0 {
            0
        } else {
            let before = self.attributed(calls.drop_last());
            match calls.last() {
                Call::AttributeRevenue { caller, player, gross_amount } => if self.run(
                    calls.drop_last(),
                ).attribute_result(caller, player, gross_amount) is Ok {
                    before + gross_amount
                } else {
                    before
                },
                _ => before,
            }
        }
    }

    /// The players who have registered under a player.
    pub open spec fn referred_by(self, referrer: Address) -> Set<Address> {
        self.referrers.dom().filter(|player: Address| self.referrers[player] == Some(referrer))
    }

    /// The rates are valid, every referrer is registered, and the count of
    /// each player is the number of those who registered under them, as far
    /// as it can be counted.
    pub open spec fn sound(self) -> bool {
        &&& self.config is Some ==> Self::rates_valid(self.config->0.commission_rates_bps)
        &&& self.config is None ==> self.referrers == Map::<Address, Option<Address>>::empty()
        &&& self.referrers.dom().finite()
        &&& forall|player: Address| #[trigger]
            self.referrers.contains_key(player) && self.referrers[player] is Some
                ==> self.referrers.contains_key(self.referrers[player]->0)
        &&& forall|referrer: Address| #[trigger]
            self.referral_count(referrer) == if self.referred_by(referrer).len() <= u32::MAX {
                self.referred_by(referrer).len()
            } else {
                u32::MAX as nat
            }
    }

    /// `rank` numbers the players so that everybody comes after their referrer.
    pub open spec fn ranked(self, rank: Map<Address, int>) -> bool {
        forall|player: Address| #[trigger]
            self.referrers.contains_key(player) && self.referrers[player] is Some
                ==> rank[self.referrers[player]->0] < rank[player]
    }
}

/// A contract is set up once: its admin and its rates stay what they are, and
/// setting it up again is refused.
pub proof fn law_set_up_once(s: ReferralTrackerState, calls: Seq<Call>, config: ConfigState)
    requires
        s.config is Some,
    ensures
        s.run(calls).config == s.config,
        s.run(calls).init_result(config) == Err::<(), Error>(Error::AlreadyInitialized),
    decreases calls.len(),
{
    if calls.len() > 0 {
        law_set_up_once(s, calls.drop_last(), config);
    }
}

/// Revenue is attributed only by the admin, and only with the admin's own
/// authorisation.
pub proof fn law_admin_only(
    s: ReferralTrackerState,
    caller: Address,
    player: Address,
    gross_amount: i128,
)
    requires
        s.attribute_result(caller, player, gross_amount) is Ok,
    ensures
        s.config is Some,
        caller == s.config->0.admin,
        s.attribute_asks(caller, player, gross_amount)[0] == Effect::<DataKey, Event>::RequireAuth(
            s.config->0.admin,
        ),
{
}

/// From an empty ledger, whatever calls were made, the check for the admin
/// knows no admin until an `init` succeeds. From then on it asks for the
/// caller's authorisation and lets nobody through but the admin whom that
/// `init` set.
pub proof fn law_admin_check(calls: Seq<Call>, caller: Address)
    ensures
        match ReferralTrackerState::empty().run(calls).config {
            Some(config) => ReferralTrackerState::empty().admin_set(calls) == Some(config.admin),
            None => ReferralTrackerState::empty().admin_set(calls) is None,
        },
        ReferralTrackerState::empty().run(calls).admin_result(caller)
            == match ReferralTrackerState::empty().admin_set(calls) {
            None => Err::<(), Error>(Error::NotInitialized),
            Some(admin) => if caller == admin {
                Ok(())
            } else {
                Err(Error::NotAuthorized)
            },
        },
        ReferralTrackerState::empty().run(calls).auth_asks(caller)
            == match ReferralTrackerState::empty().admin_set(calls) {
            None => Seq::<Effect<DataKey, Event>>::empty(),
            Some(_) => seq![Effect::RequireAuth(caller)],
        },
    decreases calls.len(),
{
    if calls.len() > 0 {
        law_admin_check(calls.drop_last(), caller);
    }
}

/// Whoever does not pass the check for the admin is given its error by every
/// call of the admin, which then changes nothing and asks for no more than
/// the check does.
pub proof fn law_others_are_refused(
    s: ReferralTrackerState,
    e: Error,
    caller: Address,
    player: Address,
    gross_amount: i128,
)
    requires
        s.admin_result(caller) == Err::<(), Error>(e),
    ensures
        s.attribute_result(caller, player, gross_amount) == Err::<
            Seq<ReferralChainEntry>,
            Error,
        >(e),
        s.after_attribute(caller, player, gross_amount) == s,
        s.attribute_asks(caller, player, gross_amount) == s.auth_asks(caller),
{
}

/// A registration lasts: a player's referrer never changes, and registering
/// again is refused.
pub proof fn law_registered_once(s: ReferralTrackerState, calls: Seq<Call>, player: Address)
    requires
        s.config is Some,
        s.referrers.contains_key(player),
    ensures
        s.run(calls).referrers.contains_key(player),
        s.run(calls).referrers[player] == s.referrers[player],
        forall|referrer: Option<Address>| #[trigger]
            s.run(calls).register_result(player, referrer) == Err::<(), Error>(
                Error::AlreadyRegistered,
            ),
    decreases calls.len(),
{
    if calls.len() > 0 {
        law_registered_once(s, calls.drop_last(), player);
        law_set_up_once(s, calls.drop_last(), s.config->0);
    }
}

/// From an empty ledger, whatever calls are made, everybody's referrer is
/// registered and the counts are right.
pub proof fn law_sound(calls: Seq<Call>)
    ensures
        ReferralTrackerState::empty().run(calls).sound(),
    decreases calls.len(),
{
    let empty = ReferralTrackerState::empty();
    if calls.len() == 0 {
        assert forall|referrer: Address| (#[trigger] empty.referral_count(referrer)) == 0
            && empty.referred_by(referrer).len() == 0 by {
            assert(empty.referred_by(referrer) =~= Set::<Address>::empty());
        }
    } else {
        law_sound(calls.drop_last());
        let s = empty.run(calls.drop_last());
        let t = empty.run(calls);
        match calls.last() {
            Call::Register { player, referrer } => {
                if s.register_result(player, referrer) is Ok {
                    assert forall|address: Address| #[trigger]
                        t.referral_count(address) == if t.referred_by(address).len() <= u32::MAX {
                            t.referred_by(address).len()
                        } else {
                            u32::MAX as nat
                        } by {
                        assert(s.referral_count(address) <= u32::MAX);
                        if referrer == Some(address) {
                            assert(t.referred_by(address) =~= s.referred_by(address).insert(
                                player,
                            ));
                        } else {
                            assert(t.referred_by(address) =~= s.referred_by(address));
                        }
                    }
                }
            },
            _ => {
                assert forall|address: Address| (#[trigger] t.referral_count(address))
                    == s.referral_count(address) && t.referred_by(address) == s.referred_by(
                    address,
                ) by {
                    assert(t.referred_by(address) =~= s.referred_by(address));
                }
            },
        }
    }
}

proof fn lemma_ranked(calls: Seq<Call>) -> (rank: Map<Address, int>)
    ensures
        ReferralTrackerState::empty().run(calls).ranked(rank),
        forall|player: Address|
            ReferralTrackerState::empty().run(calls).referrers.contains_key(player)
                ==> #[trigger] rank[player] < calls.len(),
    decreases calls.len(),
{
    if calls.len() == 0 {
        Map::empty()
    } else {
        let before = lemma_ranked(calls.drop_last());
        law_sound(calls.drop_last());
        match calls.last() {
            Call::Register { player, referrer } => {
                let s = ReferralTrackerState::empty().run(calls.drop_last());
                if s.register_result(player, referrer) is Ok {
                    before.insert(player, calls.len() - 1)
                } else {
                    before
                }
            },
            _ => before,
        }
    }
}

proof fn lemma_ancestor_rank(
    s: ReferralTrackerState,
    rank: Map<Address, int>,
    player: Address,
    level: nat,
)
    requires
        s.ranked(rank),
        s.sound(),
        s.ancestor(player, level) is Some,
    ensures
        rank[s.ancestor(player, level)->0] < rank[player],
        s.referrers.contains_key(s.ancestor(player, level)->0),
        level > 0 ==> s.ancestor(player, (level - 1) as nat) is Some
            && rank[s.ancestor(player, level)->0] < rank[s.ancestor(
            player,
            (level - 1) as nat,
        )->0],
    decreases level,
{
    if level > 0 {
        lemma_ancestor_rank(s, rank, player, (level - 1) as nat);
    }
}

proof fn lemma_ancestors_apart(
    s: ReferralTrackerState,
    rank: Map<Address, int>,
    player: Address,
    low: nat,
    high: nat,
)
    requires
        s.ranked(rank),
        s.sound(),
        low < high,
        s.ancestor(player, high) is Some,
    ensures
        s.ancestor(player, low) is Some,
        rank[s.ancestor(player, high)->0] < rank[s.ancestor(player, low)->0],
    decreases high,
{
    lemma_ancestor_rank(s, rank, player, high);
    if low + 1 < high {
        lemma_ancestors_apart(s, rank, player, low, (high - 1) as nat);
    }
}

proof fn lemma_levels(s: ReferralTrackerState, player: Address, n: nat)
    ensures
        s.levels(player, n) <= n,
        s.levels(player, n) > 0 ==> s.ancestor(player, (s.levels(player, n) - 1) as nat) is Some,
    decreases n,
{
    if n > 0 {
        lemma_levels(s, player, (n - 1) as nat);
    }
}

/// Whatever calls were made, a referral chain has no loop: nobody appears on
/// it twice, and the player is not on it.
pub proof fn law_chain_has_no_loop(calls: Seq<Call>, player: Address)
    ensures
        forall|i: int|
            0 <= i < ReferralTrackerState::empty().run(calls).chain(player).len() ==> (
            #[trigger] ReferralTrackerState::empty().run(calls).chain(player)[i]).address
                != player,
        forall|i: int, j: int|
            0 <= i < j < ReferralTrackerState::empty().run(calls).chain(player).len() ==> (
            #[trigger] ReferralTrackerState::empty().run(calls).chain(player)[i]).address != (
            #[trigger] ReferralTrackerState::empty().run(calls).chain(player)[j]).address,
{
    let s = ReferralTrackerState::empty().run(calls);
    let rank = lemma_ranked(calls);
    law_sound(calls);
    lemma_levels(s, player, s.rates().len());
    let chain = s.chain(player);
    let top = (s.levels(player, s.rates().len()) - 1) as nat;
    assert forall|i: int| 0 <= i < chain.len() implies (#[trigger] chain[i]).address != player by {
        if i < top {
            lemma_ancestors_apart(s, rank, player, i as nat, top);
        }
        lemma_ancestor_rank(s, rank, player, i as nat);
    }
    assert forall|i: int, j: int| 0 <= i < j < chain.len() implies (#[trigger] chain[i]).address
        != (#[trigger] chain[j]).address by {
        if j < top {
            lemma_ancestors_apart(s, rank, player, j as nat, top);
        }
        lemma_ancestors_apart(s, rank, player, i as nat, j as nat);
    }
}

/// The commissions of a list of chain entries.
pub open spec fn commissions(chain: Seq<ReferralChainEntry>) -> Seq<u32> {
    Seq::new(chain.len(), |i: int| chain[i].commission_bps)
}

/// A referral chain goes up `MAX_DEPTH` levels at most, level by level and
/// without gaps, and its commissions take no more than the whole.
pub proof fn law_chain_is_bounded(s: ReferralTrackerState, player: Address)
    requires
        s.sound(),
    ensures
        s.chain(player).len() <= MAX_DEPTH,
        forall|i: int|
            0 <= i < s.chain(player).len() ==> (#[trigger] s.chain(player)[i]).level == i
                && s.chain(player)[i].commission_bps == s.rates()[i],
        forall|i: int|
            0 <= i < s.chain(player).len() ==> Some((#[trigger] s.chain(player)[i]).address)
                == s.ancestor(player, i as nat),
        bps::sum(commissions(s.chain(player))) <= bps::WHOLE_BPS,
{
    let n = s.rates().len();
    lemma_levels(s, player, n);
    let levels = s.levels(player, n);
    assert(commissions(s.chain(player)) =~= s.rates().take(levels as int));
    bps::lemma_sum_take(s.rates(), levels as int);
    if s.config is None {
        assert(s.rates().take(levels as int) =~= seq![]);
    }
    assert forall|i: int| 0 <= i < s.chain(player).len() implies Some(
        (#[trigger] s.chain(player)[i]).address,
    ) == s.ancestor(player, i as nat) by {
        if s.ancestor(player, i as nat) is None {
            s.lemma_none_above(player, i as nat, (levels - 1) as nat);
        }
    }
}

/// A player who registered without a referrer has an empty chain, and one who
/// registered under another player has that player first, then the chain of
/// that player one level further up.
pub proof fn law_register_builds_chain(
    s: ReferralTrackerState,
    player: Address,
    referrer: Option<Address>,
    level: nat,
)
    requires
        s.sound(),
        s.register_result(player, referrer) is Ok,
    ensures
        s.after_register(player, referrer).ancestor(player, 0) == referrer,
        referrer is None ==> s.after_register(player, referrer).chain(player)
            == Seq::<ReferralChainEntry>::empty(),
        referrer is Some ==> s.after_register(player, referrer).chain(player).len() > 0
            && s.after_register(player, referrer).chain(player)[0] == (ReferralChainEntry {
            address: referrer->0,
            level: 0,
            commission_bps: s.rates()[0],
        }),
        referrer is Some ==> s.after_register(player, referrer).ancestor(player, level + 1)
            == s.ancestor(referrer->0, level),
    decreases level,
{
    let t = s.after_register(player, referrer);
    let n = t.rates().len();
    lemma_levels(t, player, n);
    if referrer is None {
        t.lemma_levels_none(player, n, 0);
        assert(t.chain(player) =~= seq![]);
    } else {
        lemma_some_level(t, player, n);
        if level == 0 {
            assert(t.ancestor(player, 1) == t.referrer_of(referrer->0));
        } else {
            law_register_builds_chain(s, player, referrer, (level - 1) as nat);
            lemma_ancestor_registered(s, referrer->0, (level - 1) as nat);
        }
    }
}

proof fn lemma_some_level(s: ReferralTrackerState, player: Address, n: nat)
    requires
        n > 0,
        s.ancestor(player, 0) is Some,
    ensures
        s.levels(player, n) > 0,
    decreases n,
{
    if n > 1 {
        lemma_some_level(s, player, (n - 1) as nat);
    }
}

proof fn lemma_ancestor_registered(s: ReferralTrackerState, player: Address, level: nat)
    requires
        s.sound(),
    ensures
        s.ancestor(player, level) is Some ==> s.referrers.contains_key(
            s.ancestor(player, level)->0,
        ),
    decreases level,
{
    if level > 0 {
        lemma_ancestor_registered(s, player, (level - 1) as nat);
    }
}

/// The total is all the revenue that was attributed.
pub proof fn law_total_is_attributed(calls: Seq<Call>)
    ensures
        ReferralTrackerState::empty().run(calls).total_attributed
            == ReferralTrackerState::empty().attributed(calls),
    decreases calls.len(),
{
    if calls.len() > 0 {
        law_total_is_attributed(calls.drop_last());
    }
}

/// A player registers only with their own authorisation.
pub proof fn law_player_authorises(
    s: ReferralTrackerState,
    player: Address,
    referrer: Option<Address>,
)
    requires
        s.register_result(player, referrer) is Ok,
    ensures
        s.register_asks(player, referrer)[0] == Effect::<DataKey, Event>::RequireAuth(player),
{
}

/// Before anything is called the ledger holds nothing.
pub proof fn law_starts_empty()
    ensures
        ReferralTrackerState::empty().config is None,
        ReferralTrackerState::empty().referrers == Map::<Address, Option<Address>>::empty(),
        ReferralTrackerState::empty().referral_counts == Map::<Address, u32>::empty(),
        ReferralTrackerState::empty().total_attributed == 0,
{
}

/// Without an admin nobody is asked and everybody is refused. Otherwise the
/// caller is asked for, the admin is let through, and all others are refused.
pub proof fn law_admin_is_let_through(s: ReferralTrackerState, caller: Address)
    ensures
        s.config is None ==> s.admin_result(caller) == Err::<(), Error>(Error::NotInitialized)
            && s.auth_asks(caller) == Seq::<Effect<DataKey, Event>>::empty(),
        s.config is Some ==> s.auth_asks(caller) =~= seq![Effect::RequireAuth(caller)],
        s.config is Some && caller == s.config->0.admin ==> s.admin_result(caller) == Ok::<
            (),
            Error,
        >(()),
        s.config is Some && caller != s.config->0.admin ==> s.admin_result(caller) == Err::<
            (),
            Error,
        >(Error::NotAuthorized),
{
}

/// A contract that is not set up yet is set up as asked if the policy is valid: what `init`
/// was given is written, nothing else changes, and the admin is asked for.
/// Otherwise nothing is written.
pub proof fn law_init_sets_up(s: ReferralTrackerState, config: ConfigState)
    ensures
        s.config is None && 0 < config.commission_rates_bps.len() <= 5 && bps::sum(
            config.commission_rates_bps,
        ) <= 10_000 ==> {
            &&& s.init_result(config) == Ok::<(), Error>(())
            &&& s.after_init(config) == (ReferralTrackerState { config: Some(config), ..s })
            &&& s.init_asks(config) =~= seq![
                Effect::RequireAuth(config.admin),
                Effect::Store(DataKey::Admin),
                Effect::Store(DataKey::CommissionRatesBps),
            ]
        },
        s.config is Some ==> {
            &&& s.init_result(config) == Err::<(), Error>(Error::AlreadyInitialized)
            &&& s.after_init(config) == s
            &&& s.init_asks(config) =~= Seq::<Effect<DataKey, Event>>::empty()
        },
        s.config is None && !(0 < config.commission_rates_bps.len() <= 5 && bps::sum(
            config.commission_rates_bps,
        ) <= 10_000) ==> {
            &&& s.init_result(config) == Err::<(), Error>(Error::InvalidConfig)
            &&& s.after_init(config) == s
            &&& s.init_asks(config) =~= seq![Effect::RequireAuth(config.admin)]
        },
{
}

/// A player may register once, under nobody or under somebody else who is
/// registered. The referrer is written as given, and only the referrer's count
/// goes up. `count` is what it was.
pub proof fn law_newcomer_can_register(
    s: ReferralTrackerState,
    player: Address,
    referrer: Option<Address>,
    count: u32,
)
    requires
        s.config is Some,
        !s.referrers.contains_key(player),
        referrer is Some ==> referrer->0 != player && s.referrers.contains_key(referrer->0),
        referrer is Some && s.referral_counts.contains_key(referrer->0) ==> count
            == s.referral_counts[referrer->0],
        referrer is Some && !s.referral_counts.contains_key(referrer->0) ==> count == 0,
    ensures
        s.register_result(player, referrer) == Ok::<(), Error>(()),
        referrer is None ==> {
            &&& s.after_register(player, referrer) == (ReferralTrackerState {
                referrers: s.referrers.insert(player, None),
                ..s
            })
            &&& s.register_asks(player, referrer) =~= seq![
                Effect::RequireAuth(player),
                Effect::Store(DataKey::Referrer(player)),
                Effect::ExtendTtl {
                key: DataKey::Referrer(player),
                threshold: 518_400,
                extend_to: 518_400,
            },
                Effect::Publish(
                    Event::PlayerRegistered(PlayerRegistered { player, referrer: None }),
                ),
            ]
        },
        referrer is Some ==> {
            &&& s.after_register(player, referrer) == (ReferralTrackerState {
                referrers: s.referrers.insert(player, referrer),
                referral_counts: s.referral_counts.insert(
                    referrer->0,
                    if count < u32::MAX {
                        (count + 1) as u32
                    } else {
                        u32::MAX
                    },
                ),
                ..s
            })
            &&& s.register_asks(player, referrer) =~= seq![
                Effect::RequireAuth(player),
                Effect::Store(DataKey::ReferralCount(referrer->0)),
                Effect::Store(DataKey::Referrer(player)),
                Effect::ExtendTtl {
                key: DataKey::Referrer(player),
                threshold: 518_400,
                extend_to: 518_400,
            },
                Effect::Publish(Event::PlayerRegistered(PlayerRegistered { player, referrer })),
            ]
        },
{
}

/// A registration is refused only for one of four reasons, each with its own
/// error. Then nothing is written.
pub proof fn law_register_is_refused_for_a_reason(
    s: ReferralTrackerState,
    player: Address,
    referrer: Option<Address>,
)
    ensures
        s.config is None ==> s.register_result(player, referrer) == Err::<(), Error>(
            Error::NotInitialized,
        ) && s.register_asks(player, referrer) =~= Seq::<Effect<DataKey, Event>>::empty(),
        s.config is Some && s.referrers.contains_key(player) ==> s.register_result(player, referrer)
            == Err::<(), Error>(Error::AlreadyRegistered),
        s.config is Some && !s.referrers.contains_key(player) && referrer == Some(player)
            ==> s.register_result(player, referrer) == Err::<(), Error>(Error::SelfReferral),
        s.config is Some && !s.referrers.contains_key(player) && referrer is Some && referrer->0
            != player && !s.referrers.contains_key(referrer->0) ==> s.register_result(
            player,
            referrer,
        ) == Err::<(), Error>(Error::ReferrerNotRegistered),
        s.register_result(player, referrer) is Err ==> s.after_register(player, referrer) == s,
        s.register_result(player, referrer) is Err && s.config is Some ==> s.register_asks(
            player,
            referrer,
        ) =~= seq![Effect::RequireAuth(player)],
{
}

/// The count of a player is what was last written for them.
pub proof fn law_count_is_what_was_written(s: ReferralTrackerState, player: Address)
    ensures
        s.referral_counts.contains_key(player) ==> s.referral_count(player)
            == s.referral_counts[player],
        !s.referral_counts.contains_key(player) ==> s.referral_count(player) == 0,
{
}

proof fn lemma_levels_end(s: ReferralTrackerState, player: Address, n: nat)
    requires
        s.levels(player, n) < n,
    ensures
        s.ancestor(player, s.levels(player, n)) is None,
    decreases n,
{
    if s.levels(player, (n - 1) as nat) < n - 1 {
        lemma_levels_end(s, player, (n - 1) as nat);
    } else {
        lemma_levels(s, player, (n - 1) as nat);
    }
}

/// A referral chain is complete. It begins with the player's referrer, if
/// there is one, and everybody on it is followed by their own referrer. It
/// ends only where there is no further referrer or no further rate, and the
/// entry of each level has the rate of that level.
pub proof fn law_chain_is_complete(s: ReferralTrackerState, player: Address)
    ensures
        s.config is None ==> s.chain(player) == Seq::<ReferralChainEntry>::empty(),
        s.config is Some ==> {
            let rates = s.config->0.commission_rates_bps;
            let chain = s.chain(player);
            &&& chain.len() <= rates.len()
            &&& forall|i: int|
                0 <= i < chain.len() ==> (#[trigger] chain[i]).level == i as u32
                    && chain[i].commission_bps == rates[i]
            &&& chain.len() > 0 ==> s.referrers.contains_key(player) && s.referrers[player] == Some(
                chain[0].address,
            )
            &&& forall|i: int, j: int|
                0 <= i && j == i + 1 && j < chain.len() ==> s.referrers.contains_key(
                    (#[trigger] chain[i]).address,
                ) && s.referrers[chain[i].address] == Some((#[trigger] chain[j]).address)
            &&& chain.len() == 0 && rates.len() > 0 && s.referrers.contains_key(player)
                ==> s.referrers[player] is None
            &&& 0 < chain.len() < rates.len() && s.referrers.contains_key(
                chain[chain.len() - 1].address,
            ) ==> s.referrers[chain[chain.len() - 1].address] is None
        },
{
    let depth = s.rates().len();
    lemma_levels(s, player, depth);
    let levels = s.levels(player, depth);
    let chain = s.chain(player);
    if s.config is None {
        assert(chain =~= seq![]);
    } else {
        assert forall|i: int| 0 <= i < levels implies Some((#[trigger] chain[i]).address)
            == s.ancestor(player, i as nat) by {
            if s.ancestor(player, i as nat) is None {
                s.lemma_none_above(player, i as nat, (levels - 1) as nat);
            }
        }
        if levels < depth {
            lemma_levels_end(s, player, depth);
        }
        assert forall|i: int, j: int|
            0 <= i && j == i + 1 && j < chain.len() implies s.referrers.contains_key(
            (#[trigger] chain[i]).address,
        ) && s.referrers[chain[i].address] == Some((#[trigger] chain[j]).address) by {
            assert(Some(chain[j].address) == s.ancestor(player, j as nat));
        }
        if levels > 0 {
            assert(Some(chain[0].address) == s.ancestor(player, 0));
            assert(Some(chain[levels - 1].address) == s.ancestor(player, (levels - 1) as nat));
        }
    }
}

/// Everybody above a player for whose level there is a rate is on the chain.
pub proof fn law_nobody_is_left_out(s: ReferralTrackerState, player: Address, level: nat)
    requires
        s.config is Some,
        level < s.config->0.commission_rates_bps.len(),
        s.ancestor(player, level) is Some,
    ensures
        level < s.chain(player).len(),
        s.chain(player)[level as int].address == s.ancestor(player, level)->0,
        s.chain(player)[level as int].commission_bps
            == s.config->0.commission_rates_bps[level as int],
{
    let depth = s.rates().len();
    if s.levels(player, depth) <= level {
        lemma_levels_end(s, player, depth);
        s.lemma_none_above(player, s.levels(player, depth), level);
    }
}

/// The level above a player is their referrer, and each level above that the
/// referrer of the one below.
pub proof fn law_ancestors_are_referrers(s: ReferralTrackerState, player: Address, level: nat)
    ensures
        s.ancestor(player, 0) == if s.referrers.contains_key(player) {
            s.referrers[player]
        } else {
            None
        },
        s.ancestor(player, level) is None ==> s.ancestor(player, level + 1) is None,
        s.ancestor(player, level) is Some ==> s.ancestor(player, level + 1)
            == if s.referrers.contains_key(s.ancestor(player, level)->0) {
            s.referrers[s.ancestor(player, level)->0]
        } else {
            None
        },
{
}

/// The admin may attribute any revenue to any player: it is added to the total
/// in full, the whole chain is handed back, and nothing else changes. It is
/// refused only if the total cannot be counted.
pub proof fn law_revenue_can_be_attributed(
    s: ReferralTrackerState,
    caller: Address,
    player: Address,
    gross_amount: i128,
)
    requires
        s.config is Some,
        caller == s.config->0.admin,
    ensures
        i128::MIN <= s.total_attributed + gross_amount <= i128::MAX ==> {
            &&& s.attribute_result(caller, player, gross_amount) == Ok::<
                Seq<ReferralChainEntry>,
                Error,
            >(s.chain(player))
            &&& s.after_attribute(caller, player, gross_amount) == (ReferralTrackerState {
                total_attributed: (s.total_attributed + gross_amount) as i128,
                ..s
            })
            &&& s.attribute_asks(caller, player, gross_amount) =~= seq![
                Effect::RequireAuth(caller),
                Effect::Store(DataKey::TotalAttributed),
                Effect::Publish(
                    Event::RevenueAttributed(
                        RevenueAttributed {
                            player,
                            gross_amount,
                            levels_attributed: s.chain(player).len() as u32,
                        },
                    ),
                ),
            ]
        },
        !(i128::MIN <= s.total_attributed + gross_amount <= i128::MAX) ==> {
            &&& s.attribute_result(caller, player, gross_amount) == Err::<
                Seq<ReferralChainEntry>,
                Error,
            >(Error::Overflow)
            &&& s.after_attribute(caller, player, gross_amount) == s
            &&& s.attribute_asks(caller, player, gross_amount) =~= seq![
                Effect::RequireAuth(caller),
            ]
        },
{
}

} // verus!
