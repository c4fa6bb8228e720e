//! The core ticket contract (tiers with a fixed supply, minting of numbered tickets),
//! the dynamic pricing rules, and the proxy that routes to the ticket services.
use vstd::prelude::*;
use crate::ticket::TicketError;
use crate::table::{Table, StrTable};
use crate::arith::{tdiv, fits_i128, div_i128};

verus! {

/// When the event starts and when refunds close.
#[derive(Debug, Clone, Copy, PartialEq, Eq, Structural)]
pub struct EventInfo {
    pub start_time: u64,
    pub refund_cutoff_time: u64,
}

/// A tier of tickets, identified by its symbol.
pub struct Tier {
    pub id: String,
    pub name: String,
    pub max_supply: u32,
    pub current_supply: u32,
    pub price: i128,
    pub active: bool,
    pub created_at: u64,
}

/// A minted ticket.
pub struct Ticket {
    pub id: u32,
    pub owner: u64,
    pub tier_id: String,
    pub purchased_at: u64,
    pub refunded: bool,
}

/// The value of a ticket: id, owner, tier, purchase time, refunded.
pub open spec fn ticket_view(t: Ticket) -> (u32, u64, Seq<char>, u64, bool) {
    (t.id, t.owner, t.tier_id@, t.purchased_at, t.refunded)
}

/// The state of the core ticket contract.
pub struct CoreTicketContract {
    /// None until the contract is initialized.
    pub admin: Option<u64>,
    pub event_info: Option<EventInfo>,
    /// The id of the next ticket.
    pub token_id_counter: u32,
    pub version: u32,
    pub name: Option<String>,
    pub symbol: Option<String>,
    pub uri: Option<String>,
    /// The tiers, by symbol.
    pub tiers: StrTable<Tier>,
    /// The tickets, by id.
    pub tickets: Table<Ticket>,
}

/// The supply figures and state of a tier: symbol, maximum, minted, price, active.
pub open spec fn tier_view(t: Tier) -> (Seq<char>, u32, u32, i128, bool) {
    (t.id@, t.max_supply, t.current_supply, t.price, t.active)
}

impl CoreTicketContract {
    /// The tiers' figures, by symbol.
    pub open spec fn tier_map(self) -> Map<Seq<char>, (Seq<char>, u32, u32, i128, bool)> {
        self.tiers.map().map_values(|t: Tier| tier_view(t))
    }

    /// The invariant: the tables are well formed; no tier has minted more than its
    /// maximum; every ticket's id is below the counter; an uninitialized contract has
    /// no tiers.
    pub open spec fn wf(self) -> bool {
        &&& self.tiers.wf()
        &&& self.tickets.wf()
        &&& forall|k: Seq<char>| #[trigger]
            self.tier_map().dom().contains(k) ==> self.tier_map()[k].2 <= self.tier_map()[k].1
        &&& forall|id: u64| #[trigger]
            self.tickets.map().dom().contains(id) ==> id < self.token_id_counter
        &&& self.admin is None ==> self.tiers.map().dom() == Set::<Seq<char>>::empty()
    }

    /// A contract that has not been initialized.
    pub fn new() -> (r: Self)
        ensures
            r.wf(),
            r.admin is None,
            r.event_info is None,
            r.token_id_counter == 0,
            r.version == 1,
            r.name is None,
            r.symbol is None,
            r.uri is None,
            r.tiers.map() == Map::<Seq<char>, Tier>::empty(),
            r.tickets.map() == Map::<u64, Ticket>::empty(),
    {
        let r = CoreTicketContract {
            admin: None,
            event_info: None,
            token_id_counter: 0,
            version: 1,
            name: None,
            symbol: None,
            uri: None,
            tiers: StrTable::new(),
            tickets: Table::new(),
        };
        assert(r.tiers.map().dom() =~= Set::<Seq<char>>::empty());
        r
    }

    /// Initializes the contract: administrator, event times, metadata, a ticket counter
    /// at 0 and version 1. Errors: a contract already initialized.
    pub fn initialize(
        &mut self,
        admin: u64,
        name: String,
        symbol: String,
        uri: String,
        start_time: u64,
        refund_cutoff_time: u64,
    ) -> (r: Result<(), TicketError>)
        requires
            old(self).wf(),
        ensures
            final(self).wf(),
            old(self).admin is Some <==> r is Err,
            r is Err ==> r == Err::<(), TicketError>(TicketError::AlreadyInitialized),
            r is Err ==> *final(self) == *old(self),
            r is Ok ==> {
                &&& final(self).admin == Some(admin)
                &&& final(self).event_info == Some(EventInfo { start_time, refund_cutoff_time })
                &&& final(self).token_id_counter == 0
                &&& final(self).version == 1
                &&& (final(self).name matches Some(n) && n@ == name@)
                &&& (final(self).symbol matches Some(s) && s@ == symbol@)
                &&& (final(self).uri matches Some(u) && u@ == uri@)
                &&& final(self).tiers == old(self).tiers
            },
    {
        if self.admin.is_some() {
            return Err(TicketError::AlreadyInitialized);
        }
        self.event_info = Some(EventInfo { start_time, refund_cutoff_time });
        self.admin = Some(admin);
        self.token_id_counter = 0;
        self.version = 1;
        self.name = Some(name);
        self.symbol = Some(symbol);
        self.uri = Some(uri);
        self.tickets = Table::new();
        Ok(())
    }

    /// Creates (or replaces) a tier with nothing minted. Errors: a contract not
    /// initialized.
    pub fn create_tier(
        &mut self,
        tier_id: String,
        name: String,
        max_supply: u32,
        price: i128,
        now: u64,
    ) -> (r: Result<(), TicketError>)
        requires
            old(self).wf(),
        ensures
            final(self).wf(),
            old(self).admin is None <==> r is Err,
            r is Err ==> r == Err::<(), TicketError>(TicketError::Unauthorized),
            r is Err ==> *final(self) == *old(self),
            r is Ok ==> {
                &&& final(self).tier_map() == old(self).tier_map().insert(
                    tier_id@,
                    (tier_id@, max_supply, 0u32, price, true),
                )
                &&& final(self).tickets == old(self).tickets
                &&& final(self).token_id_counter == old(self).token_id_counter
            },
    {
        if self.admin.is_none() {
            return Err(TicketError::Unauthorized);
        }
        let tier = Tier {
            id: tier_id.clone(),
            name,
            max_supply,
            current_supply: 0,
            price,
            active: true,
            created_at: now,
        };
        let ghost tv = tier_view(tier);
        let ghost m0 = self.tier_map();
        self.tiers.insert(tier_id, tier);
        assert(self.tier_map() =~= m0.insert(tier_id@, tv));
        Ok(())
    }

    /// What minting fails with, if anything, in this order: an unknown tier; an
    /// inactive tier; a quantity beyond the tier's remaining supply; ticket ids beyond
    /// `u32::MAX`.
    pub open spec fn mint_error(self, tier_id: Seq<char>, quantity: u32) -> Option<TicketError> {
        let t = self.tier_map()[tier_id];
        if !self.tier_map().dom().contains(tier_id) {
            Some(TicketError::TierNotFound)
        } else if !t.4 {
            Some(TicketError::TierNotActive)
        } else if t.2 + quantity > t.1 {
            Some(TicketError::TierSoldOut)
        } else if self.token_id_counter + quantity > u32::MAX {
            Some(TicketError::ArithmeticError)
        } else {
            None
        }
    }

    /// Mints `quantity` tickets of a tier to `to`: they take the next ids in order,
    /// which are returned, and the tier's minted count grows by `quantity`. Errors: see
    /// `mint_error`.
    pub fn mint_ticket(&mut self, to: u64, tier_id: &String, quantity: u32, now: u64) -> (r: Result<
        Vec<u32>,
        TicketError,
    >)
        requires
            old(self).wf(),
        ensures
            final(self).wf(),
            r is Err <==> old(self).mint_error(tier_id@, quantity) is Some,
            r matches Err(e) ==> old(self).mint_error(tier_id@, quantity) == Some(e),
            r is Err ==> *final(self) == *old(self),
            r matches Ok(ids) ==> {
                let t = old(self).tier_map()[tier_id@];
                let c = old(self).token_id_counter;
                &&& ids@ == Seq::new(quantity as nat, |k: int| (c + k) as u32)
                &&& final(self).token_id_counter == c + quantity
                &&& final(self).tier_map() == old(self).tier_map().insert(
                    tier_id@,
                    (t.0, t.1, (t.2 + quantity) as u32, t.3, t.4),
                )
                &&& forall|k: int|
                    0 <= k < quantity ==> {
                        &&& !old(self).tickets.map().dom().contains((c + k) as u64)
                        &&& #[trigger] ticket_view(final(self).tickets.map()[(c + k) as u64]) == (
                            (c + k) as u32,
                            to,
                            tier_id@,
                            now,
                            false,
                        )
                    }
                &&& final(self).tickets.map().dom() == old(self).tickets.map().dom().union(
                    Set::new(|id: u64| c <= id < c + quantity),
                )
                &&& forall|id: u64| #[trigger] old(self).tickets.map().dom().contains(id)
                    ==> final(self).tickets.map()[id] == old(self).tickets.map()[id]
                &&& final(self).tiers.map() == old(self).tiers.map().insert(
                    tier_id@,
                    Tier {
                        current_supply: (old(self).tiers.map()[tier_id@].current_supply + quantity) as u32,
                        ..old(self).tiers.map()[tier_id@]
                    },
                )
                &&& final(self).admin == old(self).admin
                &&& final(self).event_info == old(self).event_info
                &&& final(self).name == old(self).name
                &&& final(self).symbol == old(self).symbol
                &&& final(self).uri == old(self).uri
                &&& final(self).version == old(self).version
            },
    {
        let i = match self.tiers.find(tier_id) {
            Some(i) => i,
            None => {
                return Err(TicketError::TierNotFound);
            },
        };
        let t = &self.tiers.entries[i].1;
        assert(self.tier_map()[tier_id@] == tier_view(*t));
        if !t.active {
            return Err(TicketError::TierNotActive);
        }
        if t.current_supply as u64 + quantity as u64 > t.max_supply as u64 {
            return Err(TicketError::TierSoldOut);
        }
        if self.token_id_counter as u64 + quantity as u64 > u32::MAX as u64 {
            return Err(TicketError::ArithmeticError);
        }
        let new_supply = t.current_supply + quantity;
        let c = self.token_id_counter;
        let ghost old_tickets = self.tickets.map();
        let mut ids: Vec<u32> = Vec::new();
        let mut counter: u32 = c;
        let mut n: u32 = 0;
        while n < quantity
            invariant
                n <= quantity,
                counter == c + n,
                c + quantity <= u32::MAX,
                self.tickets.wf(),
                self.tiers == old(self).tiers,
                self.token_id_counter == old(self).token_id_counter,
                self.admin == old(self).admin,
                self.event_info == old(self).event_info,
                self.name == old(self).name,
                self.symbol == old(self).symbol,
                self.uri == old(self).uri,
                self.version == old(self).version,
                old_tickets == old(self).tickets.map(),
                forall|id: u64| #[trigger] old_tickets.dom().contains(id) ==> id < c,
                ids@ == Seq::new(n as nat, |k: int| (c + k) as u32),
                self.tickets.map().dom() == old_tickets.dom().union(
                    Set::new(|id: u64| c <= id < c + n),
                ),
                forall|id: u64| #[trigger] old_tickets.dom().contains(id) ==> self.tickets.map()[id] == old_tickets[id],
                forall|k: int|
                    0 <= k < n ==> {
                        &&& #[trigger] ticket_view(self.tickets.map()[(c + k) as u64]) == (
                            (c + k) as u32,
                            to,
                            tier_id@,
                            now,
                            false,
                        )
                    },
            decreases quantity - n,
        {
            let ticket = Ticket {
                id: counter,
                owner: to,
                tier_id: tier_id.clone(),
                purchased_at: now,
                refunded: false,
            };
            let ghost before = self.tickets.map();
            self.tickets.insert(counter as u64, ticket);
            ids.push(counter);
            assert(ids@ =~= Seq::new((n + 1) as nat, |k: int| (c + k) as u32));
            assert(self.tickets.map().dom() =~= old_tickets.dom().union(
                Set::new(|id: u64| c <= id < c + n + 1),
            ));
            counter = counter + 1;
            n = n + 1;
        }
        let mut tier = self.tiers.replace_at(
            i,
            Tier {
                id: String::new(),
                name: String::new(),
                max_supply: 0,
                current_supply: 0,
                price: 0,
                active: false,
                created_at: 0,
            },
        );
        tier.current_supply = new_supply;
        let ghost tv = tier_view(tier);
        let ghost tfull = tier;
        self.tiers.set_at(i, tier);
        assert(self.tier_map() =~= old(self).tier_map().insert(tier_id@, tv));
        assert(self.tiers.map() =~= old(self).tiers.map().insert(tier_id@, tfull));
        self.token_id_counter = counter;
        Ok(ids)
    }

    /// A ticket. Errors: an unknown id.
    pub fn get_ticket(&self, token_id: u32) -> (r: Result<Ticket, TicketError>)
        requires
            self.wf(),
        ensures
            !self.tickets.map().dom().contains(token_id as u64) <==> r is Err,
            r is Err ==> r == Err::<Ticket, TicketError>(TicketError::TicketInvalid),
            r matches Ok(t) ==> ticket_view(t) == ticket_view(self.tickets.map()[token_id as u64]),
    {
        match self.tickets.find(token_id as u64) {
            Some(i) => {
                let t = &self.tickets.entries[i].1;
                Ok(
                    Ticket {
                        id: t.id,
                        owner: t.owner,
                        tier_id: t.tier_id.clone(),
                        purchased_at: t.purchased_at,
                        refunded: t.refunded,
                    },
                )
            },
            None => Err(TicketError::TicketInvalid),
        }
    }

    /// A tier: symbol, name, maximum, minted, price, whether it is active, and when it
    /// was created. Errors: an unknown tier.
    pub fn get_tier(&self, tier_id: &String) -> (r: Result<Tier, TicketError>)
        requires
            self.wf(),
        ensures
            !self.tiers.map().dom().contains(tier_id@) <==> r is Err,
            r is Err ==> r == Err::<Tier, TicketError>(TicketError::TierNotFound),
            r matches Ok(t) ==> {
                let s = self.tiers.map()[tier_id@];
                &&& t.id@ == s.id@
                &&& t.name@ == s.name@
                &&& t.max_supply == s.max_supply
                &&& t.current_supply == s.current_supply
                &&& t.price == s.price
                &&& t.active == s.active
                &&& t.created_at == s.created_at
            },
    {
        match self.tiers.find(tier_id) {
            Some(i) => {
                let t = &self.tiers.entries[i].1;
                Ok(
                    Tier {
                        id: t.id.clone(),
                        name: t.name.clone(),
                        max_supply: t.max_supply,
                        current_supply: t.current_supply,
                        price: t.price,
                        active: t.active,
                        created_at: t.created_at,
                    },
                )
            },
            None => Err(TicketError::TierNotFound),
        }
    }

    /// The contract version.
    pub fn version(&self) -> (r: u32)
        ensures
            r == self.version,
    {
        self.version
    }

    /// The token name, or `Unknown` before initialization.
    pub fn name(&self) -> (r: String)
        ensures
            r@ == match self.name {
                Some(n) => n@,
                None => "Unknown"@,
            },
    {
        match &self.name {
            Some(n) => n.clone(),
            None => String::from_str("Unknown"),
        }
    }

    /// The token symbol, or `UNK` before initialization.
    pub fn symbol(&self) -> (r: String)
        ensures
            r@ == match self.symbol {
                Some(s) => s@,
                None => "UNK"@,
            },
    {
        match &self.symbol {
            Some(s) => s.clone(),
            None => String::from_str("UNK"),
        }
    }
}

/// Dynamic pricing parameters.
pub struct PricingConfig {
    pub oracle_address: u64,
    pub dex_pool_address: u64,
    pub price_floor: i128,
    pub price_ceiling: i128,
    pub update_frequency: u64,
    pub last_update_time: u64,
    pub is_frozen: bool,
    pub oracle_pair: String,
    pub oracle_reference_price: i128,
    pub max_oracle_age_seconds: u64,
}

/// The pricing rules.
pub struct PricingEngine;

/// The premium of a tier, in percent: 100 for tier 0, 120 for 1, 150 for 2, 200 above.
pub open spec fn tier_multiplier(tier: u32) -> int {
    if tier == 0 {
        100
    } else if tier == 1 {
        120
    } else if tier == 2 {
        150
    } else {
        200
    }
}

/// The bulk discount, in basis points: 5% above 10 tickets, 2% above 5.
pub open spec fn quantity_discount(quantity: u32) -> int {
    if quantity > 10 {
        500
    } else if quantity > 5 {
        200
    } else {
        0
    }
}

/// The oracle multiplier in force, in basis points: 1x when pricing is frozen or no
/// oracle price could be had, the oracle's otherwise.
pub open spec fn effective_multiplier(frozen: bool, fetched: Option<i128>) -> int {
    if frozen {
        10000
    } else {
        match fetched {
            Some(m) => m as int,
            None => 10000,
        }
    }
}

/// The price before bounds: the base price with the tier premium and the oracle
/// multiplier applied, less a 10% early-bird discount within a day of the last update
/// and the bulk discount; each division truncates.
pub open spec fn raw_price(
    base_price: int,
    tier: u32,
    quantity: u32,
    multiplier: int,
    early: bool,
) -> int {
    let early_bird = if early {
        tdiv(base_price * 1000, 10000)
    } else {
        0
    };
    let adjusted = tdiv(base_price * tier_multiplier(tier), 100);
    let final_price = tdiv(adjusted * multiplier, 10000);
    final_price - early_bird - tdiv(final_price * quantity_discount(quantity), 10000)
}

/// The price: `raw_price` raised to the floor, then lowered to the ceiling.
pub open spec fn bounded_price(raw: int, floor: int, ceiling: int) -> int {
    let a = if raw > floor {
        raw
    } else {
        floor
    };
    if a < ceiling {
        a
    } else {
        ceiling
    }
}

/// Every intermediate value of `raw_price` fits an `i128`.
pub open spec fn price_fits(base_price: int, tier: u32, quantity: u32, multiplier: int, early: bool) -> bool {
    let adjusted = tdiv(base_price * tier_multiplier(tier), 100);
    let final_price = tdiv(adjusted * multiplier, 10000);
    let early_bird = if early {
        tdiv(base_price * 1000, 10000)
    } else {
        0
    };
    &&& fits_i128(base_price * 1000)
    &&& fits_i128(base_price * tier_multiplier(tier))
    &&& fits_i128(adjusted * multiplier)
    &&& fits_i128(final_price * quantity_discount(quantity))
    &&& fits_i128(final_price - early_bird)
    &&& fits_i128(raw_price(base_price, tier, quantity, multiplier, early))
}

impl PricingEngine {
    /// The price of `quantity` tickets of a tier at `now` (see `raw_price` and
    /// `bounded_price`). `fetched_multiplier` is the oracle's multiplier in basis
    /// points, or None when no price could be had.
    pub fn calculate_price(
        config: &PricingConfig,
        base_price: i128,
        tier: u32,
        quantity: u32,
        now: u64,
        fetched_multiplier: Option<i128>,
    ) -> (r: i128)
        requires
            config.last_update_time + 86400 <= u64::MAX,
            price_fits(
                base_price as int,
                tier,
                quantity,
                effective_multiplier(config.is_frozen, fetched_multiplier),
                now < config.last_update_time + 86400,
            ),
        ensures
            r == bounded_price(
                raw_price(
                    base_price as int,
                    tier,
                    quantity,
                    effective_multiplier(config.is_frozen, fetched_multiplier),
                    now < config.last_update_time + 86400,
                ),
                config.price_floor as int,
                config.price_ceiling as int,
            ),
    {
        let early = now < config.last_update_time + 86400;
        let early_bird_discount: i128 = if early {
            div_i128(base_price * 1000, 10000)
        } else {
            0
        };
        let tier_mult: i128 = if tier == 0 {
            100
        } else if tier == 1 {
            120
        } else if tier == 2 {
            150
        } else {
            200
        };
        let qd: i128 = if quantity > 10 {
            500
        } else if quantity > 5 {
            200
        } else {
            0
        };
        let oracle_multiplier: i128 = if config.is_frozen {
            10000
        } else {
            match fetched_multiplier {
                Some(m) => m,
                None => 10000,
            }
        };
        let adjusted_price = div_i128(base_price * tier_mult, 100);
        let final_price = div_i128(adjusted_price * oracle_multiplier, 10000);
        let discounted = final_price - early_bird_discount - div_i128(final_price * qd, 10000);
        let a = if discounted > config.price_floor {
            discounted
        } else {
            config.price_floor
        };
        if a < config.price_ceiling {
            a
        } else {
            config.price_ceiling
        }
    }

    /// The price `calculate_price` gives, or None when a step of its arithmetic would
    /// leave `i128` (or the early-bird window would pass `u64::MAX`), where the
    /// computation cannot be carried out.
    #[verifier::spinoff_prover]
    #[verifier::rlimit(80)]
    pub fn try_calculate_price(
        config: &PricingConfig,
        base_price: i128,
        tier: u32,
        quantity: u32,
        now: u64,
        fetched_multiplier: Option<i128>,
    ) -> (r: Option<i128>)
        ensures
            r is Some <==> (config.last_update_time + 86400 <= u64::MAX && price_fits(
                base_price as int,
                tier,
                quantity,
                effective_multiplier(config.is_frozen, fetched_multiplier),
                now < config.last_update_time + 86400,
            )),
            r matches Some(p) ==> p == bounded_price(
                raw_price(
                    base_price as int,
                    tier,
                    quantity,
                    effective_multiplier(config.is_frozen, fetched_multiplier),
                    now < config.last_update_time + 86400,
                ),
                config.price_floor as int,
                config.price_ceiling as int,
            ),
    {
        if config.last_update_time > u64::MAX - 86400 {
            return None;
        }
        let early = now < config.last_update_time + 86400;
        let tier_mult: i128 = if tier == 0 {
            100
        } else if tier == 1 {
            120
        } else if tier == 2 {
            150
        } else {
            200
        };
        let qd: i128 = if quantity > 10 {
            500
        } else if quantity > 5 {
            200
        } else {
            0
        };
        let m: i128 = if config.is_frozen {
            10000
        } else {
            match fetched_multiplier {
                Some(m) => m,
                None => 10000,
            }
        };
        assert(tier_mult == tier_multiplier(tier));
        assert(qd == quantity_discount(quantity));
        assert(m == effective_multiplier(config.is_frozen, fetched_multiplier));
        let b1000 = match base_price.checked_mul(1000) {
            Some(v) => v,
            None => return None,
        };
        let bt = match base_price.checked_mul(tier_mult) {
            Some(v) => v,
            None => return None,
        };
        let adjusted = div_i128(bt, 100);
        let am = match adjusted.checked_mul(m) {
            Some(v) => v,
            None => return None,
        };
        let final_price = div_i128(am, 10000);
        let fq = match final_price.checked_mul(qd) {
            Some(v) => v,
            None => return None,
        };
        let early_bird: i128 = if early {
            div_i128(b1000, 10000)
        } else {
            0
        };
        let d1 = match final_price.checked_sub(early_bird) {
            Some(v) => v,
            None => return None,
        };
        let d2 = match d1.checked_sub(div_i128(fq, 10000)) {
            Some(v) => v,
            None => return None,
        };
        assert(d2 == raw_price(base_price as int, tier, quantity, m as int, early));
        Some(Self::calculate_price(config, base_price, tier, quantity, now, fetched_multiplier))
    }

    /// Checks a pricing configuration: the floor must be below the ceiling and the
    /// update frequency positive.
    pub fn validate_config(config: &PricingConfig) -> (r: Result<(), String>)
        ensures
            config.price_floor >= config.price_ceiling ==> (r matches Err(m) && m@
                == "Invalid price bounds"@),
            config.price_floor < config.price_ceiling && config.update_frequency == 0 ==> (r matches Err(
                m,
            ) && m@ == "Invalid update frequency"@),
            r is Ok <==> config.price_floor < config.price_ceiling && config.update_frequency != 0,
    {
        if config.price_floor >= config.price_ceiling {
            return Err(String::from_str("Invalid price bounds"));
        }
        if config.update_frequency == 0 {
            return Err(String::from_str("Invalid update frequency"));
        }
        Ok(())
    }

    /// Whether the prices are due for an update: the update frequency has passed since
    /// the last update.
    pub fn should_update_pricing(config: &PricingConfig, now: u64) -> (r: bool)
        requires
            config.last_update_time + config.update_frequency <= u64::MAX,
        ensures
            r == (now >= config.last_update_time + config.update_frequency),
    {
        now >= config.last_update_time + config.update_frequency
    }
}

/// Errors of the ticket proxy.
#[derive(Debug, Clone, Copy, PartialEq, Eq, Structural)]
pub enum ProxyError {
    AlreadyInitialized,
    NotInitialized,
    InvalidContractType,
}

/// The services the proxy routes to.
#[derive(Debug, Clone, Copy, PartialEq, Eq, Structural)]
pub struct TicketContractConfig {
    pub admin: u64,
    pub pricing_contract: u64,
    pub allocation_contract: u64,
    pub vrf_contract: u64,
    pub commitment_contract: u64,
}

/// The service a configuration update names.
#[derive(Debug, Clone, Copy, PartialEq, Eq, Structural)]
pub enum ContractType {
    Pricing,
    Allocation,
    Vrf,
    Commitment,
}

/// The proxy in front of the ticket services.
pub struct TicketProxyContract {
    pub config: Option<TicketContractConfig>,
    pub version: u32,
}

impl TicketProxyContract {
    /// A proxy that has not been initialized.
    pub fn new() -> (r: Self)
        ensures
            r.config is None,
            r.version == 1,
    {
        TicketProxyContract { config: None, version: 1 }
    }

    /// Records the administrator and the services. Errors: a proxy already
    /// initialized.
    pub fn initialize(
        &mut self,
        admin: u64,
        pricing_contract: u64,
        allocation_contract: u64,
        vrf_contract: u64,
        commitment_contract: u64,
    ) -> (r: Result<(), ProxyError>)
        ensures
            old(self).config is Some <==> r is Err,
            r is Err ==> r == Err::<(), ProxyError>(ProxyError::AlreadyInitialized) && *final(self)
                == *old(self),
            r is Ok ==> final(self).config == Some(
                TicketContractConfig {
                    admin,
                    pricing_contract,
                    allocation_contract,
                    vrf_contract,
                    commitment_contract,
                },
            ) && final(self).version == 1,
    {
        if self.config.is_some() {
            return Err(ProxyError::AlreadyInitialized);
        }
        self.config = Some(
            TicketContractConfig {
                admin,
                pricing_contract,
                allocation_contract,
                vrf_contract,
                commitment_contract,
            },
        );
        self.version = 1;
        Ok(())
    }

    /// The service named by a contract type: `pricing`, `allocation`, `vrf` or
    /// `commitment`.
    pub fn parse_contract_type(name: &String) -> (r: Option<ContractType>)
        ensures
            name@ == "pricing"@ <==> r == Some(ContractType::Pricing),
            name@ == "allocation"@ <==> r == Some(ContractType::Allocation),
            name@ == "vrf"@ <==> r == Some(ContractType::Vrf),
            name@ == "commitment"@ <==> r == Some(ContractType::Commitment),
    {
        proof {
            reveal_strlit("pricing");
            reveal_strlit("allocation");
            reveal_strlit("vrf");
            reveal_strlit("commitment");
            assert("pricing"@.len() == 7);
            assert("allocation"@.len() == 10);
            assert("vrf"@.len() == 3);
            assert("commitment"@.len() == 10);
            assert("allocation"@[0] != "commitment"@[0]);
        }
        if crate::access::str_eq(name, &String::from_str("pricing")) {
            Some(ContractType::Pricing)
        } else if crate::access::str_eq(name, &String::from_str("allocation")) {
            Some(ContractType::Allocation)
        } else if crate::access::str_eq(name, &String::from_str("vrf")) {
            Some(ContractType::Vrf)
        } else if crate::access::str_eq(name, &String::from_str("commitment")) {
            Some(ContractType::Commitment)
        } else {
            None
        }
    }

    /// Points one service at a new address. Errors: a proxy not initialized, then an
    /// unknown contract type.
    pub fn update_contract(&mut self, contract_type: &String, new_address: u64) -> (r: Result<
        (),
        ProxyError,
    >)
        ensures
            old(self).config is None ==> r == Err::<(), ProxyError>(ProxyError::NotInitialized),
            r is Err ==> *final(self) == *old(self),
            old(self).config matches Some(c) ==> match Self::contract_type_of(contract_type@) {
                None => r == Err::<(), ProxyError>(ProxyError::InvalidContractType),
                Some(t) => r is Ok && final(self).config == Some(
                    match t {
                        ContractType::Pricing => TicketContractConfig { pricing_contract: new_address, ..c },
                        ContractType::Allocation => TicketContractConfig {
                            allocation_contract: new_address,
                            ..c
                        },
                        ContractType::Vrf => TicketContractConfig { vrf_contract: new_address, ..c },
                        ContractType::Commitment => TicketContractConfig {
                            commitment_contract: new_address,
                            ..c
                        },
                    },
                ),
            },
    {
        let mut c = match self.config {
            Some(c) => c,
            None => {
                return Err(ProxyError::NotInitialized);
            },
        };
        match Self::parse_contract_type(contract_type) {
            Some(ContractType::Pricing) => c.pricing_contract = new_address,
            Some(ContractType::Allocation) => c.allocation_contract = new_address,
            Some(ContractType::Vrf) => c.vrf_contract = new_address,
            Some(ContractType::Commitment) => c.commitment_contract = new_address,
            None => {
                return Err(ProxyError::InvalidContractType);
            },
        }
        self.config = Some(c);
        Ok(())
    }

    /// The service named by a contract type, if any.
    pub open spec fn contract_type_of(name: Seq<char>) -> Option<ContractType> {
        if name == "pricing"@ {
            Some(ContractType::Pricing)
        } else if name == "allocation"@ {
            Some(ContractType::Allocation)
        } else if name == "vrf"@ {
            Some(ContractType::Vrf)
        } else if name == "commitment"@ {
            Some(ContractType::Commitment)
        } else {
            None
        }
    }

    /// The services. Errors: a proxy not initialized.
    pub fn get_config(&self) -> (r: Result<TicketContractConfig, ProxyError>)
        ensures
            match self.config {
                Some(c) => r == Ok::<TicketContractConfig, ProxyError>(c),
                None => r == Err::<TicketContractConfig, ProxyError>(ProxyError::NotInitialized),
            },
    {
        match self.config {
            Some(c) => Ok(c),
            None => Err(ProxyError::NotInitialized),
        }
    }

    /// The price of tickets; the pricing service is not consulted, so it is the base
    /// price. Errors: a proxy not initialized.
    pub fn calculate_price(&self, base_price: i128, tier: u32, quantity: u32) -> (r: Result<
        i128,
        ProxyError,
    >)
        ensures
            self.config is None <==> r is Err,
            r is Ok ==> r == Ok::<i128, ProxyError>(base_price),
    {
        if self.config.is_none() {
            return Err(ProxyError::NotInitialized);
        }
        Ok(base_price)
    }

    /// The tickets allocated to a user; the allocation service is not consulted, so
    /// none. Errors: a proxy not initialized.
    pub fn allocate_tickets(&self, user: u64, quantity: u32, preferences: &Vec<u32>) -> (r: Result<
        Vec<u32>,
        ProxyError,
    >)
        ensures
            self.config is None <==> r is Err,
            r matches Ok(v) ==> v@.len() == 0,
    {
        if self.config.is_none() {
            return Err(ProxyError::NotInitialized);
        }
        Ok(Vec::new())
    }

    /// Randomness for a seed; the randomness service is not consulted, so it is the
    /// seed. Errors: a proxy not initialized.
    pub fn request_randomness(&self, seed: Vec<u8>) -> (r: Result<Vec<u8>, ProxyError>)
        ensures
            self.config is None <==> r is Err,
            r matches Ok(v) ==> v@ == seed@,
    {
        if self.config.is_none() {
            return Err(ProxyError::NotInitialized);
        }
        Ok(seed)
    }

    /// A commitment to a value; the commitment service is not consulted, so it is the
    /// value. Errors: a proxy not initialized.
    pub fn create_commitment(&self, value: Vec<u8>, salt: &Vec<u8>) -> (r: Result<Vec<u8>, ProxyError>)
        ensures
            self.config is None <==> r is Err,
            r matches Ok(v) ==> v@ == value@,
    {
        if self.config.is_none() {
            return Err(ProxyError::NotInitialized);
        }
        Ok(value)
    }
}

/// Scaling by a factor and dividing by the same factor gives the value back.
proof fn lemma_tdiv_scale(x: int, k: int)
    requires
        k > 0,
    ensures
        tdiv(x * k, k) == x,
{
    if x >= 0 {
        assert((x * k) / k == x) by (nonlinear_arith)
            requires
                k > 0,
                x >= 0,
        ;
    } else {
        assert(x * k == -((-x) * k)) by (nonlinear_arith);
        assert(((-x) * k) / k == -x) by (nonlinear_arith)
            requires
                k > 0,
                x < 0,
        ;
    }
}

/// The tier premiums: with no oracle adjustment (pricing frozen, or no oracle price),
/// outside the early-bird day, for at most five tickets and with bounds that do not
/// bind, the price is the base price times 100% for tier 0, 120% for tier 1, 150% for
/// tier 2 and 200% for any higher tier, truncated.
pub proof fn law_tier_premium(
    base_price: int,
    tier: u32,
    quantity: u32,
    frozen: bool,
    floor: int,
    ceiling: int,
)
    requires
        quantity <= 5,
        floor <= tdiv(
            base_price * (if tier == 0 {
                100int
            } else if tier == 1 {
                120int
            } else if tier == 2 {
                150int
            } else {
                200int
            }),
            100,
        ) < ceiling,
    ensures
        bounded_price(
            raw_price(base_price, tier, quantity, effective_multiplier(frozen, None), false),
            floor,
            ceiling,
        ) == tdiv(
            base_price * (if tier == 0 {
                100int
            } else if tier == 1 {
                120int
            } else if tier == 2 {
                150int
            } else {
                200int
            }),
            100,
        ),
        tier == 2 ==> bounded_price(
            raw_price(base_price, tier, quantity, effective_multiplier(frozen, None), false),
            floor,
            ceiling,
        ) == tdiv(base_price * 150, 100),
{
    let adjusted = tdiv(base_price * tier_multiplier(tier), 100);
    lemma_tdiv_scale(adjusted, 10000);
    assert(tdiv(adjusted * 0, 10000) == 0);
}

} // verus!
