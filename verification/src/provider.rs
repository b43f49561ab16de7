//! Provider records: identity, listing data and reputation counters.

use crate::error::AgentAlphaError;
use crate::identity::Pubkey;
use vstd::prelude::*;

verus! {

/// The most characters a provider's name may have.
pub const MAX_NAME_LEN: usize = 64;

/// The most characters a provider's endpoint may have.
pub const MAX_ENDPOINT_LEN: usize = 256;

/// The most categories a provider may list.
pub const MAX_CATEGORIES: usize = 8;

/// The share of correct signals in basis points, rounded down; 0 before the
/// first signal.
pub open spec fn hit_rate(total_signals: nat, correct_signals: nat) -> nat {
    if total_signals == 0 {
        0
    } else {
        correct_signals * 10000 / total_signals
    }
}

/// The mean return per signal in basis points, rounded toward zero; 0 before
/// the first signal.
pub open spec fn avg_return(total_signals: nat, total_return_bps: int) -> int {
    if total_signals == 0 {
        0
    } else if total_return_bps >= 0 {
        total_return_bps / (total_signals as int)
    } else {
        -((-total_return_bps) / (total_signals as int))
    }
}

/// The failure, if any, that the listing data of a new provider meets.
pub open spec fn listing_error(
    name: Seq<char>,
    endpoint: Seq<char>,
    categories: Seq<u8>,
) -> Option<AgentAlphaError> {
    if name.len() > MAX_NAME_LEN {
        Some(AgentAlphaError::NameTooLong)
    } else if endpoint.len() > MAX_ENDPOINT_LEN {
        Some(AgentAlphaError::EndpointTooLong)
    } else if categories.len() > MAX_CATEGORIES {
        Some(AgentAlphaError::TooManyCategories)
    } else {
        None
    }
}

/// The failure, if any, that the fields supplied to an update meet. A field
/// that is not supplied is not looked at.
pub open spec fn update_error(
    name: Option<Seq<char>>,
    endpoint: Option<Seq<char>>,
) -> Option<AgentAlphaError> {
    if name is Some && name->Some_0.len() > MAX_NAME_LEN {
        Some(AgentAlphaError::NameTooLong)
    } else if endpoint is Some && endpoint->Some_0.len() > MAX_ENDPOINT_LEN {
        Some(AgentAlphaError::EndpointTooLong)
    } else {
        None
    }
}

/// The characters of an optional text.
pub open spec fn text_of(text: Option<String>) -> Option<Seq<char>> {
    match text {
        Some(t) => Some(t@),
        None => None,
    }
}

/// A registered signal provider.
#[derive(Debug)]
pub struct Provider {
    /// The principal that controls this record.
    pub authority: Pubkey,
    pub name: String,
    pub endpoint: String,
    pub categories: Vec<u8>,
    /// The fee asked per signal.
    pub price_lamports: u64,
    /// How many of this provider's signals have an outcome.
    pub total_signals: u64,
    /// How many of them were correct.
    pub correct_signals: u64,
    /// The sum of their returns, in basis points.
    pub total_return_bps: i64,
    pub created_at: i64,
    pub updated_at: i64,
}

/// What a provider record holds, as mathematical values.
pub struct ProviderView {
    pub authority: Seq<u8>,
    pub name: Seq<char>,
    pub endpoint: Seq<char>,
    pub categories: Seq<u8>,
    pub price_lamports: u64,
    pub total_signals: u64,
    pub correct_signals: u64,
    pub total_return_bps: i64,
    pub created_at: i64,
    pub updated_at: i64,
}

impl ProviderView {
    /// The record respects the size limits, and no more signals are counted
    /// correct than were counted at all.
    pub open spec fn wf(self) -> bool {
        &&& self.authority.len() == 32
        &&& self.name.len() <= MAX_NAME_LEN
        &&& self.endpoint.len() <= MAX_ENDPOINT_LEN
        &&& self.categories.len() <= MAX_CATEGORIES
        &&& self.correct_signals <= self.total_signals
    }

    /// The record of a provider that has just registered: the listing data as
    /// given, all counters at zero, both timestamps at `now`.
    pub open spec fn fresh(
        authority: Seq<u8>,
        name: Seq<char>,
        endpoint: Seq<char>,
        categories: Seq<u8>,
        price_lamports: u64,
        now: i64,
    ) -> ProviderView {
        ProviderView {
            authority,
            name,
            endpoint,
            categories,
            price_lamports,
            total_signals: 0,
            correct_signals: 0,
            total_return_bps: 0,
            created_at: now,
            updated_at: now,
        }
    }

    /// The record after an update at time `now`: each supplied field replaces
    /// the old one, the others stay.
    pub open spec fn updated(
        self,
        name: Option<Seq<char>>,
        endpoint: Option<Seq<char>>,
        price_lamports: Option<u64>,
        now: i64,
    ) -> ProviderView {
        ProviderView {
            name: if name is Some { name->Some_0 } else { self.name },
            endpoint: if endpoint is Some { endpoint->Some_0 } else { self.endpoint },
            price_lamports: if price_lamports is Some {
                price_lamports->Some_0
            } else {
                self.price_lamports
            },
            updated_at: now,
            ..self
        }
    }

    /// Whether the sum of returns stays within its range with this return
    /// added.
    pub open spec fn return_fits(self, return_bps: i32) -> bool {
        i64::MIN <= self.total_return_bps + return_bps <= i64::MAX
    }

    /// Whether the counters can take one more outcome with this return.
    pub open spec fn has_room(self, return_bps: i32) -> bool {
        &&& self.correct_signals <= self.total_signals < u64::MAX
        &&& i64::MIN <= self.total_return_bps + return_bps <= i64::MAX
    }

    /// The record after an outcome was counted at time `now`.
    pub open spec fn credited(self, was_correct: bool, return_bps: i32, now: i64) -> ProviderView {
        ProviderView {
            total_signals: (self.total_signals + 1) as u64,
            correct_signals: if was_correct {
                (self.correct_signals + 1) as u64
            } else {
                self.correct_signals
            },
            total_return_bps: (self.total_return_bps + return_bps) as i64,
            updated_at: now,
            ..self
        }
    }

    /// Whether this record can be a later state of `earlier`: the same owner
    /// and creation time, and counters that have not shrunk.
    pub open spec fn continues(self, earlier: ProviderView) -> bool {
        &&& self.authority == earlier.authority
        &&& self.created_at == earlier.created_at
        &&& self.total_signals >= earlier.total_signals
        &&& self.correct_signals >= earlier.correct_signals
    }

    pub open spec fn hit_rate_bps(self) -> nat {
        hit_rate(self.total_signals as nat, self.correct_signals as nat)
    }

    pub open spec fn avg_return_bps(self) -> int {
        avg_return(self.total_signals as nat, self.total_return_bps as int)
    }
}

impl View for Provider {
    type V = ProviderView;

    open spec fn view(&self) -> ProviderView {
        ProviderView {
            authority: self.authority@,
            name: self.name@,
            endpoint: self.endpoint@,
            categories: self.categories@,
            price_lamports: self.price_lamports,
            total_signals: self.total_signals,
            correct_signals: self.correct_signals,
            total_return_bps: self.total_return_bps,
            created_at: self.created_at,
            updated_at: self.updated_at,
        }
    }
}

impl Provider {
    /// Makes the record of a new provider owned by `authority`, or says which
    /// size limit the listing data breaks.
    pub fn create(
        authority: Pubkey,
        name: String,
        endpoint: String,
        categories: Vec<u8>,
        price_lamports: u64,
        now: i64,
    ) -> (made: Result<Provider, AgentAlphaError>)
        ensures
            match listing_error(name@, endpoint@, categories@) {
                Some(e) => made == Err::<Provider, AgentAlphaError>(e),
                None => made is Ok && made->Ok_0@ == ProviderView::fresh(
                    authority@,
                    name@,
                    endpoint@,
                    categories@,
                    price_lamports,
                    now,
                ) && made->Ok_0@.wf(),
            },
    {
        if name.as_str().unicode_len() > MAX_NAME_LEN {
            return Err(AgentAlphaError::NameTooLong);
        }
        if endpoint.as_str().unicode_len() > MAX_ENDPOINT_LEN {
            return Err(AgentAlphaError::EndpointTooLong);
        }
        if categories.len() > MAX_CATEGORIES {
            return Err(AgentAlphaError::TooManyCategories);
        }
        Ok(
            Provider {
                authority,
                name,
                endpoint,
                categories,
                price_lamports,
                total_signals: 0,
                correct_signals: 0,
                total_return_bps: 0,
                created_at: now,
                updated_at: now,
            },
        )
    }

    /// Replaces the supplied fields and stamps the record with `now`, or says
    /// which size limit a supplied field breaks and changes nothing.
    pub fn apply_update(
        &mut self,
        name: Option<String>,
        endpoint: Option<String>,
        price_lamports: Option<u64>,
        now: i64,
    ) -> (done: Result<(), AgentAlphaError>)
        ensures
            match update_error(text_of(name), text_of(endpoint)) {
                Some(e) => done == Err::<(), AgentAlphaError>(e) && *final(self) == *old(self),
                None => done is Ok && final(self)@ == old(self)@.updated(
                    text_of(name),
                    text_of(endpoint),
                    price_lamports,
                    now,
                ),
            },
            old(self)@.wf() ==> final(self)@.wf(),
    {
        if let Some(n) = &name {
            if n.as_str().unicode_len() > MAX_NAME_LEN {
                return Err(AgentAlphaError::NameTooLong);
            }
        }
        if let Some(e) = &endpoint {
            if e.as_str().unicode_len() > MAX_ENDPOINT_LEN {
                return Err(AgentAlphaError::EndpointTooLong);
            }
        }
        if let Some(n) = name {
            self.name = n;
        }
        if let Some(e) = endpoint {
            self.endpoint = e;
        }
        if let Some(p) = price_lamports {
            self.price_lamports = p;
        }
        self.updated_at = now;
        Ok(())
    }

    /// Whether the sum of returns stays within its range with this return
    /// added.
    pub fn return_fits(&self, return_bps: i32) -> (fits: bool)
        ensures
            fits == self@.return_fits(return_bps),
    {
        let sum: i128 = self.total_return_bps as i128 + return_bps as i128;
        sum >= i64::MIN as i128 && sum <= i64::MAX as i128
    }

    /// Whether the counters can take one more outcome with this return.
    pub fn can_credit(&self, return_bps: i32) -> (room: bool)
        ensures
            room == self@.has_room(return_bps),
    {
        let sum: i128 = self.total_return_bps as i128 + return_bps as i128;
        self.correct_signals <= self.total_signals && self.total_signals < u64::MAX && sum
            >= i64::MIN as i128 && sum <= i64::MAX as i128
    }

    /// Counts one more outcome at time `now`.
    pub fn credit(&mut self, was_correct: bool, return_bps: i32, now: i64)
        requires
            old(self)@.has_room(return_bps),
        ensures
            final(self)@ == old(self)@.credited(was_correct, return_bps, now),
            old(self)@.wf() ==> final(self)@.wf(),
    {
        self.total_signals = self.total_signals + 1;
        if was_correct {
            self.correct_signals = self.correct_signals + 1;
        }
        self.total_return_bps = self.total_return_bps + return_bps as i64;
        self.updated_at = now;
    }

    /// The share of correct signals in basis points, rounded down.
    pub fn hit_rate_bps(&self) -> (rate: u64)
        requires
            self.correct_signals <= self.total_signals,
        ensures
            rate == self@.hit_rate_bps(),
            rate <= 10000,
    {
        if self.total_signals == 0 {
            return 0;
        }
        let correct: u128 = self.correct_signals as u128;
        let total: u128 = self.total_signals as u128;
        assert((correct * 10000) / (total as int) <= 10000) by (nonlinear_arith)
            requires
                0 <= correct <= total,
                total > 0,
        ;
        let rate: u128 = correct * 10000 / total;
        rate as u64
    }

    /// The mean return per signal in basis points, rounded toward zero.
    pub fn avg_return_bps(&self) -> (mean: i64)
        ensures
            mean == self@.avg_return_bps(),
    {
        if self.total_signals == 0 {
            return 0;
        }
        let total: u128 = self.total_signals as u128;
        if self.total_return_bps >= 0 {
            let sum: u128 = self.total_return_bps as u128;
            assert((sum as int) / (total as int) <= sum) by (nonlinear_arith)
                requires
                    0 <= sum,
                    total > 0,
            ;
            let mean: u128 = sum / total;
            mean as i64
        } else {
            let sum: u128 = (-(self.total_return_bps as i128)) as u128;
            assert((sum as int) / (total as int) <= sum) by (nonlinear_arith)
                requires
                    0 <= sum,
                    total > 0,
            ;
            let mean: u128 = sum / total;
            (-(mean as i128)) as i64
        }
    }
}

} // verus!
