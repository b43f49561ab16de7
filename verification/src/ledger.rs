//! The ledger: a keyed store of provider and commitment records together
//! with the log of what happened to them.
//!
//! A provider record is kept under its owner's identity, a commitment under
//! the pair of its provider and the digest committed to, so a record's place
//! follows from stable identifiers alone and no key is ever taken twice.
//! Every operation is all or nothing: it either succeeds, changes the records
//! it names and appends one entry to the log, or fails and changes nothing.

use crate::commitment::{SignalCommit, SignalCommitView};
use crate::error::AgentAlphaError;
use crate::events::{
    log_view, Event, EventView, OutcomeRecorded, ProviderRegistered, SignalCommitted,
    SignalRevealed,
};
use crate::guard::{check_owner, check_reporter};
use crate::identity::{bytes32_eq, Pubkey};
use crate::laws::{
    law_commit_keeps_consistency, law_record_outcome_keeps_consistency,
    law_register_keeps_consistency, law_reveal_keeps_consistency,
};
use crate::model::{
    CommitKey, CommitSignal, LedgerView, RecordOutcome, RegisterProvider, RevealSignal,
    UpdateProvider,
};
use crate::provider::{text_of, Provider, ProviderView};
use crate::reputation::record_resolution;
use vstd::prelude::*;

verus! {

/// The ledger's state.
pub struct Ledger {
    reporter: Pubkey,
    providers: Vec<Provider>,
    commits: Vec<SignalCommit>,
    events: Vec<Event>,
}

/// Whether slot `i` holds the provider record with this key.
spec fn provider_at(ps: Seq<Provider>, i: int, key: Seq<u8>) -> bool {
    0 <= i < ps.len() && ps[i].authority@ == key
}

/// Whether slot `i` holds the commitment with this key.
spec fn commit_at(cs: Seq<SignalCommit>, i: int, key: CommitKey) -> bool {
    0 <= i < cs.len() && cs[i].provider@ == key.0 && cs[i].signal_hash@ == key.1
}

/// The stored provider records, each under its owner's identity.
spec fn providers_map(ps: Seq<Provider>) -> Map<Seq<u8>, ProviderView> {
    Map::new(
        |k: Seq<u8>| exists|i: int| provider_at(ps, i, k),
        |k: Seq<u8>| ps[choose|i: int| provider_at(ps, i, k)]@,
    )
}

/// The stored commitments, each under its provider and digest.
spec fn commits_map(cs: Seq<SignalCommit>) -> Map<CommitKey, SignalCommitView> {
    Map::new(
        |k: CommitKey| exists|i: int| commit_at(cs, i, k),
        |k: CommitKey| cs[choose|i: int| commit_at(cs, i, k)]@,
    )
}

/// No two slots hold records of the same owner.
spec fn distinct_providers(ps: Seq<Provider>) -> bool {
    forall|i: int, j: int|
        0 <= i < ps.len() && 0 <= j < ps.len() && i != j ==> ps[i].authority@ != ps[j].authority@
}

/// No two slots hold commitments of the same provider to the same digest.
spec fn distinct_commits(cs: Seq<SignalCommit>) -> bool {
    forall|i: int, j: int|
        0 <= i < cs.len() && 0 <= j < cs.len() && i != j ==> !(cs[i].provider@ == cs[j].provider@
            && cs[i].signal_hash@ == cs[j].signal_hash@)
}

/// The record in a slot is the one that the map holds under its key.
proof fn lemma_provider_found(ps: Seq<Provider>, i: int)
    requires
        distinct_providers(ps),
        0 <= i < ps.len(),
    ensures
        providers_map(ps).dom().contains(ps[i].authority@),
        providers_map(ps)[ps[i].authority@] == ps[i]@,
{
    let k = ps[i].authority@;
    assert(provider_at(ps, i, k));
    let j = choose|j: int| provider_at(ps, j, k);
    assert(provider_at(ps, j, k));
    assert(j == i);
}

/// The commitment in a slot is the one that the map holds under its key.
proof fn lemma_commit_found(cs: Seq<SignalCommit>, i: int)
    requires
        distinct_commits(cs),
        0 <= i < cs.len(),
    ensures
        commits_map(cs).dom().contains((cs[i].provider@, cs[i].signal_hash@)),
        commits_map(cs)[(cs[i].provider@, cs[i].signal_hash@)] == cs[i]@,
{
    let k = (cs[i].provider@, cs[i].signal_hash@);
    assert(commit_at(cs, i, k));
    let j = choose|j: int| commit_at(cs, j, k);
    assert(commit_at(cs, j, k));
    assert(j == i);
}

/// Appending a record with a new key inserts it into the map.
proof fn lemma_providers_push(ps: Seq<Provider>, p: Provider)
    requires
        distinct_providers(ps),
        forall|i: int| 0 <= i < ps.len() ==> ps[i].authority@ != p.authority@,
    ensures
        distinct_providers(ps.push(p)),
        providers_map(ps.push(p)) == providers_map(ps).insert(p.authority@, p@),
{
    let qs = ps.push(p);
    assert(distinct_providers(qs));
    assert forall|k: Seq<u8>|
        providers_map(qs).dom().contains(k) <==> #[trigger] providers_map(ps).insert(
            p.authority@,
            p@,
        ).dom().contains(k) by {
        if providers_map(qs).dom().contains(k) {
            let i = choose|i: int| provider_at(qs, i, k);
            if i < ps.len() {
                assert(provider_at(ps, i, k));
            }
        }
        if providers_map(ps).dom().contains(k) {
            let i = choose|i: int| provider_at(ps, i, k);
            assert(provider_at(qs, i, k));
        }
        if k == p.authority@ {
            assert(provider_at(qs, ps.len() as int, k));
        }
    }
    assert forall|k: Seq<u8>| #[trigger]
        providers_map(qs).dom().contains(k) implies providers_map(qs)[k] == providers_map(
        ps,
    ).insert(p.authority@, p@)[k] by {
        let i = choose|i: int| provider_at(qs, i, k);
        lemma_provider_found(qs, i);
        if i < ps.len() {
            lemma_provider_found(ps, i);
        }
    }
    assert(providers_map(qs) =~= providers_map(ps).insert(p.authority@, p@));
}

/// Commitments that belong to a registered provider still do after one more
/// provider was added.
proof fn lemma_providers_grow(ps: Seq<Provider>, p: Provider, cs: Seq<SignalCommit>)
    requires
        forall|i: int|
            0 <= i < cs.len() ==> exists|j: int| provider_at(ps, j, (#[trigger] cs[i]).provider@),
    ensures
        forall|i: int|
            0 <= i < cs.len() ==> exists|j: int|
                provider_at(ps.push(p), j, (#[trigger] cs[i]).provider@),
{
    assert forall|i: int| 0 <= i < cs.len() implies exists|j: int|
        provider_at(ps.push(p), j, (#[trigger] cs[i]).provider@) by {
        let j = choose|j: int| provider_at(ps, j, cs[i].provider@);
        assert(provider_at(ps.push(p), j, cs[i].provider@));
    }
}

/// Commitments that belong to a registered provider still do after provider
/// records changed in place.
proof fn lemma_providers_same_keys(ps: Seq<Provider>, qs: Seq<Provider>, cs: Seq<SignalCommit>)
    requires
        ps.len() == qs.len(),
        forall|j: int| 0 <= j < ps.len() ==> ps[j].authority@ == qs[j].authority@,
        forall|i: int|
            0 <= i < cs.len() ==> exists|j: int| provider_at(ps, j, (#[trigger] cs[i]).provider@),
    ensures
        forall|i: int|
            0 <= i < cs.len() ==> exists|j: int| provider_at(qs, j, (#[trigger] cs[i]).provider@),
{
    assert forall|i: int| 0 <= i < cs.len() implies exists|j: int|
        provider_at(qs, j, (#[trigger] cs[i]).provider@) by {
        let j = choose|j: int| provider_at(ps, j, cs[i].provider@);
        assert(provider_at(qs, j, cs[i].provider@));
    }
}

/// Commitments that belong to a registered provider still do after
/// commitment records changed in place.
proof fn lemma_commits_same_keys(cs: Seq<SignalCommit>, ds: Seq<SignalCommit>, ps: Seq<Provider>)
    requires
        cs.len() == ds.len(),
        forall|i: int| 0 <= i < cs.len() ==> cs[i].provider@ == ds[i].provider@,
        forall|i: int|
            0 <= i < cs.len() ==> exists|j: int| provider_at(ps, j, (#[trigger] cs[i]).provider@),
    ensures
        forall|i: int|
            0 <= i < ds.len() ==> exists|j: int| provider_at(ps, j, (#[trigger] ds[i]).provider@),
{
    assert forall|i: int| 0 <= i < ds.len() implies exists|j: int|
        provider_at(ps, j, (#[trigger] ds[i]).provider@) by {
        let j = choose|j: int| provider_at(ps, j, cs[i].provider@);
        assert(provider_at(ps, j, ds[i].provider@));
    }
}

/// Replacing a record by one with the same key replaces it in the map.
proof fn lemma_providers_update(ps: Seq<Provider>, i: int, p: Provider)
    requires
        distinct_providers(ps),
        0 <= i < ps.len(),
        p.authority@ == ps[i].authority@,
    ensures
        distinct_providers(ps.update(i, p)),
        providers_map(ps.update(i, p)) == providers_map(ps).insert(p.authority@, p@),
{
    let qs = ps.update(i, p);
    assert(distinct_providers(qs)) by {
        assert forall|a: int, b: int|
            0 <= a < qs.len() && 0 <= b < qs.len() && a != b implies qs[a].authority@
            != qs[b].authority@ by {
            assert(qs[a].authority@ == ps[a].authority@);
            assert(qs[b].authority@ == ps[b].authority@);
        }
    }
    assert forall|k: Seq<u8>|
        providers_map(qs).dom().contains(k) <==> #[trigger] providers_map(ps).insert(
            p.authority@,
            p@,
        ).dom().contains(k) by {
        if providers_map(qs).dom().contains(k) {
            let j = choose|j: int| provider_at(qs, j, k);
            assert(provider_at(ps, j, k));
        }
        if providers_map(ps).dom().contains(k) {
            let j = choose|j: int| provider_at(ps, j, k);
            assert(provider_at(qs, j, k));
        }
        if k == p.authority@ {
            assert(provider_at(qs, i, k));
        }
    }
    assert forall|k: Seq<u8>| #[trigger]
        providers_map(qs).dom().contains(k) implies providers_map(qs)[k] == providers_map(
        ps,
    ).insert(p.authority@, p@)[k] by {
        let j = choose|j: int| provider_at(qs, j, k);
        lemma_provider_found(qs, j);
        lemma_provider_found(ps, j);
    }
    assert(providers_map(qs) =~= providers_map(ps).insert(p.authority@, p@));
}

/// Appending a commitment with a new key inserts it into the map.
proof fn lemma_commits_push(cs: Seq<SignalCommit>, c: SignalCommit)
    requires
        distinct_commits(cs),
        forall|i: int|
            0 <= i < cs.len() ==> !(cs[i].provider@ == c.provider@ && cs[i].signal_hash@
                == c.signal_hash@),
    ensures
        distinct_commits(cs.push(c)),
        commits_map(cs.push(c)) == commits_map(cs).insert((c.provider@, c.signal_hash@), c@),
{
    let ds = cs.push(c);
    let key = (c.provider@, c.signal_hash@);
    assert(distinct_commits(ds));
    assert forall|k: CommitKey|
        commits_map(ds).dom().contains(k) <==> #[trigger] commits_map(cs).insert(
            key,
            c@,
        ).dom().contains(k) by {
        if commits_map(ds).dom().contains(k) {
            let i = choose|i: int| commit_at(ds, i, k);
            if i < cs.len() {
                assert(commit_at(cs, i, k));
            } else {
                assert(k.0 == key.0 && k.1 == key.1);
                assert(k == key);
            }
        }
        if commits_map(cs).dom().contains(k) {
            let i = choose|i: int| commit_at(cs, i, k);
            assert(commit_at(ds, i, k));
        }
        if k == key {
            assert(commit_at(ds, cs.len() as int, k));
        }
    }
    assert forall|k: CommitKey| #[trigger]
        commits_map(ds).dom().contains(k) implies commits_map(ds)[k] == commits_map(cs).insert(
        key,
        c@,
    )[k] by {
        let i = choose|i: int| commit_at(ds, i, k);
        lemma_commit_found(ds, i);
        assert(k == (ds[i].provider@, ds[i].signal_hash@));
        if i < cs.len() {
            lemma_commit_found(cs, i);
        }
    }
    assert(commits_map(ds) =~= commits_map(cs).insert(key, c@));
}

/// Replacing a commitment by one with the same key replaces it in the map.
proof fn lemma_commits_update(cs: Seq<SignalCommit>, i: int, c: SignalCommit)
    requires
        distinct_commits(cs),
        0 <= i < cs.len(),
        c.provider@ == cs[i].provider@,
        c.signal_hash@ == cs[i].signal_hash@,
    ensures
        distinct_commits(cs.update(i, c)),
        commits_map(cs.update(i, c)) == commits_map(cs).insert((c.provider@, c.signal_hash@), c@),
{
    let ds = cs.update(i, c);
    let key = (c.provider@, c.signal_hash@);
    assert(distinct_commits(ds)) by {
        assert forall|a: int, b: int|
            0 <= a < ds.len() && 0 <= b < ds.len() && a != b implies !(ds[a].provider@
            == ds[b].provider@ && ds[a].signal_hash@ == ds[b].signal_hash@) by {
            assert(ds[a].provider@ == cs[a].provider@ && ds[a].signal_hash@ == cs[a].signal_hash@);
            assert(ds[b].provider@ == cs[b].provider@ && ds[b].signal_hash@ == cs[b].signal_hash@);
        }
    }
    assert forall|k: CommitKey|
        commits_map(ds).dom().contains(k) <==> #[trigger] commits_map(cs).insert(
            key,
            c@,
        ).dom().contains(k) by {
        if commits_map(ds).dom().contains(k) {
            let j = choose|j: int| commit_at(ds, j, k);
            assert(commit_at(cs, j, k));
        }
        if commits_map(cs).dom().contains(k) {
            let j = choose|j: int| commit_at(cs, j, k);
            assert(commit_at(ds, j, k));
        }
        if k == key {
            assert(commit_at(ds, i, k));
        }
    }
    assert forall|k: CommitKey| #[trigger]
        commits_map(ds).dom().contains(k) implies commits_map(ds)[k] == commits_map(cs).insert(
        key,
        c@,
    )[k] by {
        let j = choose|j: int| commit_at(ds, j, k);
        lemma_commit_found(ds, j);
        lemma_commit_found(cs, j);
        assert(k == (ds[j].provider@, ds[j].signal_hash@));
    }
    assert(commits_map(ds) =~= commits_map(cs).insert(key, c@));
}

impl View for Ledger {
    type V = LedgerView;

    closed spec fn view(&self) -> LedgerView {
        LedgerView {
            reporter: self.reporter@,
            providers: providers_map(self.providers@),
            commits: commits_map(self.commits@),
            events: log_view(self.events@),
        }
    }
}

impl Ledger {
    /// The ledger's internal consistency: each key is taken once, each
    /// record is consistent, each commitment belongs to a registered
    /// provider, and the log agrees with the records.
    pub closed spec fn wf(&self) -> bool {
        &&& distinct_providers(self.providers@)
        &&& distinct_commits(self.commits@)
        &&& forall|i: int| 0 <= i < self.providers@.len() ==> (#[trigger] self.providers@[i])@.wf()
        &&& forall|i: int| 0 <= i < self.commits@.len() ==> (#[trigger] self.commits@[i])@.wf()
        &&& forall|i: int|
            0 <= i < self.commits@.len() ==> exists|j: int|
                provider_at(self.providers@, j, (#[trigger] self.commits@[i]).provider@)
        &&& self@.log_agrees()
        &&& self@.log_mirrors_records()
    }

    /// A consistent ledger holds consistent values.
    pub proof fn lemma_view_wf(&self)
        requires
            self.wf(),
        ensures
            self@.wf(),
    {
        let v = self@;
        assert forall|k: Seq<u8>| #[trigger] v.providers.dom().contains(k) implies v.providers[k].wf()
            && v.providers[k].authority == k by {
            let i = choose|i: int| provider_at(self.providers@, i, k);
            lemma_provider_found(self.providers@, i);
        }
        assert forall|k: CommitKey| #[trigger] v.commits.dom().contains(k) implies {
            &&& v.commits[k].wf()
            &&& v.commits[k].provider == k.0
            &&& v.commits[k].signal_hash == k.1
            &&& v.providers.dom().contains(k.0)
        } by {
            let i = choose|i: int| commit_at(self.commits@, i, k);
            lemma_commit_found(self.commits@, i);
            assert(k == (self.commits@[i].provider@, self.commits@[i].signal_hash@));
            let j = choose|j: int| provider_at(self.providers@, j, self.commits@[i].provider@);
            lemma_provider_found(self.providers@, j);
        }
    }

    /// An empty ledger whose outcomes `reporter` will record.
    pub fn new(reporter: Pubkey) -> (ledger: Ledger)
        ensures
            ledger.wf(),
            ledger@.reporter == reporter@,
            ledger@.providers == Map::<Seq<u8>, ProviderView>::empty(),
            ledger@.commits == Map::<CommitKey, SignalCommitView>::empty(),
            ledger@.events == Seq::<EventView>::empty(),
    {
        let ledger = Ledger {
            reporter,
            providers: Vec::new(),
            commits: Vec::new(),
            events: Vec::new(),
        };
        assert(ledger@.providers =~= Map::<Seq<u8>, ProviderView>::empty());
        assert(ledger@.commits =~= Map::<CommitKey, SignalCommitView>::empty());
        assert(ledger@.events =~= Seq::<EventView>::empty());
        ledger
    }

    /// The slot that holds the provider record with this key, if any.
    fn find_provider(&self, key: &Pubkey) -> (slot: Option<usize>)
        ensures
            match slot {
                Some(i) => provider_at(self.providers@, i as int, key@),
                None => forall|i: int| !provider_at(self.providers@, i, key@),
            },
    {
        let mut i: usize = 0;
        while i < self.providers.len()
            invariant
                i <= self.providers@.len(),
                forall|j: int| 0 <= j < i ==> !provider_at(self.providers@, j, key@),
            decreases self.providers@.len() - i,
        {
            if self.providers[i].authority.same_as(key) {
                return Some(i);
            }
            i += 1;
        }
        None
    }

    /// The slot that holds this provider's commitment to this digest, if any.
    fn find_commit(&self, provider: &Pubkey, signal_hash: &[u8; 32]) -> (slot: Option<usize>)
        ensures
            match slot {
                Some(i) => commit_at(self.commits@, i as int, (provider@, signal_hash@)),
                None => forall|i: int| !commit_at(self.commits@, i, (provider@, signal_hash@)),
            },
    {
        let mut i: usize = 0;
        while i < self.commits.len()
            invariant
                i <= self.commits@.len(),
                forall|j: int| 0 <= j < i ==> !commit_at(self.commits@, j, (provider@, signal_hash@)),
            decreases self.commits@.len() - i,
        {
            if self.commits[i].provider.same_as(provider) && bytes32_eq(
                &self.commits[i].signal_hash,
                signal_hash,
            ) {
                return Some(i);
            }
            i += 1;
        }
        None
    }

    /// The identity that may record outcomes.
    pub fn reporter(&self) -> (reporter: Pubkey)
        ensures
            reporter@ == self@.reporter,
    {
        self.reporter
    }

    /// The provider record kept under `key`, if there is one.
    pub fn provider(&self, key: &Pubkey) -> (found: Option<&Provider>)
        requires
            self.wf(),
        ensures
            match found {
                Some(p) => self@.providers.dom().contains(key@) && p@ == self@.providers[key@]
                    && p@.wf(),
                None => !self@.providers.dom().contains(key@),
            },
    {
        match self.find_provider(key) {
            Some(i) => {
                proof {
                    lemma_provider_found(self.providers@, i as int);
                }
                Some(&self.providers[i])
            },
            None => None,
        }
    }

    /// The commitment of `provider` to `signal_hash`, if there is one.
    pub fn commitment(&self, provider: &Pubkey, signal_hash: &[u8; 32]) -> (found: Option<
        &SignalCommit,
    >)
        requires
            self.wf(),
        ensures
            match found {
                Some(c) => self@.commits.dom().contains((provider@, signal_hash@)) && c@
                    == self@.commits[(provider@, signal_hash@)] && c@.wf(),
                None => !self@.commits.dom().contains((provider@, signal_hash@)),
            },
    {
        match self.find_commit(provider, signal_hash) {
            Some(i) => {
                proof {
                    lemma_commit_found(self.commits@, i as int);
                }
                Some(&self.commits[i])
            },
            None => None,
        }
    }

    /// The log, oldest entry first.
    pub fn events(&self) -> (log: &Vec<Event>)
        ensures
            log_view(log@) == self@.events,
    {
        &self.events
    }
}

/// Registers a provider owned by `ctx.authority`.
///
/// Fails with `IdentityAlreadyRegistered` if that owner has a record, else
/// with `NameTooLong`, `EndpointTooLong` or `TooManyCategories` if the
/// listing data breaks a size limit. On success the new record has all
/// counters at zero and both timestamps at `ctx.now`, and the log gains a
/// `ProviderRegistered` entry.
pub fn register_provider(
    ledger: &mut Ledger,
    ctx: RegisterProvider,
    name: String,
    endpoint: String,
    categories: Vec<u8>,
    price_lamports: u64,
) -> (done: Result<(), AgentAlphaError>)
    requires
        old(ledger).wf(),
    ensures
        final(ledger).wf(),
        match old(ledger)@.register_error(ctx, name@, endpoint@, categories@) {
            Some(e) => done == Err::<(), AgentAlphaError>(e) && final(ledger)@ == old(ledger)@,
            None => done is Ok && final(ledger)@ == old(ledger)@.after_register(
                ctx,
                name@,
                endpoint@,
                categories@,
                price_lamports,
            ),
        },
{
    if ledger.find_provider(&ctx.authority).is_some() {
        proof {
            let i = choose|i: int| provider_at(ledger.providers@, i, ctx.authority@);
            assert(provider_at(ledger.providers@, i, ctx.authority@));
        }
        return Err(AgentAlphaError::IdentityAlreadyRegistered);
    }
    let event = ProviderRegistered {
        provider: ctx.authority,
        authority: ctx.authority,
        name: name.clone(),
        endpoint: endpoint.clone(),
    };
    match Provider::create(ctx.authority, name, endpoint, categories, price_lamports, ctx.now) {
        Err(e) => Err(e),
        Ok(provider) => {
            proof {
                assert forall|i: int| 0 <= i < ledger.providers@.len() implies ledger.providers@[i].authority@
                    != provider.authority@ by {
                    assert(!provider_at(ledger.providers@, i, ctx.authority@));
                }
                lemma_providers_push(ledger.providers@, provider);
                lemma_providers_grow(ledger.providers@, provider, ledger.commits@);
            }
            ledger.providers.push(provider);
            ledger.events.push(Event::ProviderRegistered(event));
            proof {
                let after = old(ledger)@.after_register(
                    ctx,
                    provider@.name,
                    provider@.endpoint,
                    provider@.categories,
                    price_lamports,
                );
                assert(ledger@.events =~= after.events);
                assert(ledger@ == after);
                old(ledger).lemma_view_wf();
                law_register_keeps_consistency(
                    old(ledger)@,
                    ctx,
                    provider@.name,
                    provider@.endpoint,
                    provider@.categories,
                    price_lamports,
                );
            }
            Ok(())
        },
    }
}

/// Updates the provider record kept under `ctx.provider`.
///
/// Fails with `Unauthorized` unless that record exists and `ctx.authority`
/// owns it, else with `NameTooLong` or `EndpointTooLong` if a supplied field
/// breaks its size limit. On success each supplied field replaces the old
/// one, the others stay, and `updated_at` becomes `ctx.now`.
pub fn update_provider(
    ledger: &mut Ledger,
    ctx: UpdateProvider,
    name: Option<String>,
    endpoint: Option<String>,
    price_lamports: Option<u64>,
) -> (done: Result<(), AgentAlphaError>)
    requires
        old(ledger).wf(),
    ensures
        final(ledger).wf(),
        match old(ledger)@.update_provider_error(ctx, text_of(name), text_of(endpoint)) {
            Some(e) => done == Err::<(), AgentAlphaError>(e) && final(ledger)@ == old(ledger)@,
            None => done is Ok && final(ledger)@ == old(ledger)@.after_update(
                ctx,
                text_of(name),
                text_of(endpoint),
                price_lamports,
            ),
        },
{
    let slot = match ledger.find_provider(&ctx.provider) {
        Some(i) => i,
        None => {
            return Err(AgentAlphaError::Unauthorized);
        },
    };
    proof {
        lemma_provider_found(ledger.providers@, slot as int);
    }
    if let Err(e) = check_owner(&ledger.providers[slot], &ctx.authority) {
        return Err(e);
    }
    let done = ledger.providers[slot].apply_update(name, endpoint, price_lamports, ctx.now);
    proof {
        if done is Ok {
            lemma_providers_update(old(ledger).providers@, slot as int, ledger.providers@[slot as int]);
            assert(ledger.providers@ =~= old(ledger).providers@.update(
                slot as int,
                ledger.providers@[slot as int],
            ));
            lemma_providers_same_keys(old(ledger).providers@, ledger.providers@, ledger.commits@);
        } else {
            assert(ledger.providers@ =~= old(ledger).providers@);
        }
    }
    done
}

/// Commits the provider kept under `ctx.provider` to `signal_hash`.
///
/// Fails with `Unauthorized` unless that provider is registered and
/// `ctx.authority` owns it, else with `DuplicateCommitment` if the provider
/// committed to this digest before. On success a new commitment, neither
/// revealed nor resolved and stamped with `ctx.now`, is kept under the
/// provider and the digest, and the log gains a `SignalCommitted` entry.
pub fn commit_signal(ledger: &mut Ledger, ctx: CommitSignal, signal_hash: [u8; 32]) -> (done:
    Result<(), AgentAlphaError>)
    requires
        old(ledger).wf(),
    ensures
        final(ledger).wf(),
        match old(ledger)@.commit_error(ctx, signal_hash@) {
            Some(e) => done == Err::<(), AgentAlphaError>(e) && final(ledger)@ == old(ledger)@,
            None => done is Ok && final(ledger)@ == old(ledger)@.after_commit(ctx, signal_hash@),
        },
{
    let slot = match ledger.find_provider(&ctx.provider) {
        Some(i) => i,
        None => {
            return Err(AgentAlphaError::Unauthorized);
        },
    };
    proof {
        lemma_provider_found(ledger.providers@, slot as int);
    }
    if let Err(e) = check_owner(&ledger.providers[slot], &ctx.authority) {
        return Err(e);
    }
    if ledger.find_commit(&ctx.provider, &signal_hash).is_some() {
        proof {
            let i = choose|i: int| commit_at(ledger.commits@, i, (ctx.provider@, signal_hash@));
            assert(commit_at(ledger.commits@, i, (ctx.provider@, signal_hash@)));
        }
        return Err(AgentAlphaError::DuplicateCommitment);
    }
    let commit = SignalCommit::open(ctx.provider, signal_hash, ctx.now);
    proof {
        assert forall|i: int| 0 <= i < ledger.commits@.len() implies !(
        ledger.commits@[i].provider@ == commit.provider@ && ledger.commits@[i].signal_hash@
            == commit.signal_hash@) by {
            assert(!commit_at(ledger.commits@, i, (ctx.provider@, signal_hash@)));
        }
        lemma_commits_push(ledger.commits@, commit);
        assert(provider_at(ledger.providers@, slot as int, commit.provider@));
    }
    ledger.commits.push(commit);
    let event = SignalCommitted { provider: ctx.provider, signal_hash, committed_at: ctx.now };
    ledger.events.push(Event::SignalCommitted(event));
    proof {
        let after = old(ledger)@.after_commit(ctx, signal_hash@);
        assert(ledger@.events =~= after.events);
        assert(ledger@ == after);
        old(ledger).lemma_view_wf();
        law_commit_keeps_consistency(old(ledger)@, ctx, signal_hash@);
    }
    Ok(())
}

/// Reveals the prediction behind the commitment of `ctx.provider` to
/// `ctx.signal_hash`.
///
/// Fails with `Unauthorized` unless the provider is registered and
/// `ctx.authority` owns it, with `UnknownCommitment` if there is no such
/// commitment, with `AlreadyRevealed` if it was revealed before, with
/// `TokenTooLong`, `InvalidDirection`, `InvalidTimeframe` or
/// `InvalidConfidence` if the prediction is out of bounds, and with
/// `HashMismatch` if the digest of the prediction's canonical encoding is not
/// the committed one; the checks come in this order. On success the
/// commitment holds the prediction and is revealed as of `ctx.now`, and the
/// log gains a `SignalRevealed` entry.
pub fn reveal_signal(
    ledger: &mut Ledger,
    ctx: RevealSignal,
    token: String,
    direction: u8,
    entry_cents: u64,
    tp_cents: u64,
    sl_cents: u64,
    timeframe_hours: u8,
    confidence: u8,
) -> (done: Result<(), AgentAlphaError>)
    requires
        old(ledger).wf(),
    ensures
        final(ledger).wf(),
        match old(ledger)@.reveal_error(
            ctx,
            token@,
            direction,
            entry_cents,
            tp_cents,
            sl_cents,
            timeframe_hours,
            confidence,
        ) {
            Some(e) => done == Err::<(), AgentAlphaError>(e) && final(ledger)@ == old(ledger)@,
            None => done is Ok && final(ledger)@ == old(ledger)@.after_reveal(
                ctx,
                token@,
                direction,
                entry_cents,
                tp_cents,
                sl_cents,
                timeframe_hours,
                confidence,
            ),
        },
{
    let owner_slot = match ledger.find_provider(&ctx.provider) {
        Some(i) => i,
        None => {
            return Err(AgentAlphaError::Unauthorized);
        },
    };
    proof {
        lemma_provider_found(ledger.providers@, owner_slot as int);
    }
    if let Err(e) = check_owner(&ledger.providers[owner_slot], &ctx.authority) {
        return Err(e);
    }
    let slot = match ledger.find_commit(&ctx.provider, &ctx.signal_hash) {
        Some(i) => i,
        None => {
            return Err(AgentAlphaError::UnknownCommitment);
        },
    };
    proof {
        lemma_commit_found(ledger.commits@, slot as int);
    }
    let shown = token.clone();
    let done = ledger.commits[slot].reveal_prediction(
        token,
        direction,
        entry_cents,
        tp_cents,
        sl_cents,
        timeframe_hours,
        confidence,
        ctx.now,
    );
    if let Err(e) = done {
        assert(ledger.commits@ =~= old(ledger).commits@);
        return Err(e);
    }
    proof {
        lemma_commits_update(old(ledger).commits@, slot as int, ledger.commits@[slot as int]);
        assert(ledger.commits@ =~= old(ledger).commits@.update(
            slot as int,
            ledger.commits@[slot as int],
        ));
        lemma_commits_same_keys(old(ledger).commits@, ledger.commits@, ledger.providers@);
    }
    let event = SignalRevealed {
        provider: ctx.provider,
        signal_hash: ctx.signal_hash,
        token: shown,
        direction,
        entry_cents,
        tp_cents,
        sl_cents,
        timeframe_hours,
        confidence,
    };
    ledger.events.push(Event::SignalRevealed(event));
    proof {
        let after = old(ledger)@.after_reveal(
            ctx,
            shown@,
            direction,
            entry_cents,
            tp_cents,
            sl_cents,
            timeframe_hours,
            confidence,
        );
        assert(ledger@.events =~= after.events);
        assert(ledger@ == after);
        old(ledger).lemma_view_wf();
        law_reveal_keeps_consistency(
            old(ledger)@,
            ctx,
            shown@,
            direction,
            entry_cents,
            tp_cents,
            sl_cents,
            timeframe_hours,
            confidence,
        );
    }
    Ok(())
}

/// Records the outcome of the prediction behind the commitment of
/// `ctx.provider` to `ctx.signal_hash`, and counts it on the provider.
///
/// Fails with `Unauthorized` unless `ctx.oracle` is the designated reporter,
/// with `UnknownCommitment` if there is no such commitment, with
/// `NotRevealed` if it is not revealed yet, with `AlreadyResolved` if it has
/// an outcome, and with `InvalidOutcome` if `outcome` is none of 1, 2, 3; the
/// checks come in this order. On success the commitment holds the outcome
/// and whether it counts as correct, the provider's counters include it, and
/// the log gains an `OutcomeRecorded` entry with the provider's new counters.
///
/// The sum of the provider's returns must stay within its range; a caller
/// can find out with [`Provider::return_fits`].
pub fn record_outcome(
    ledger: &mut Ledger,
    ctx: RecordOutcome,
    outcome: u8,
    final_price_cents: u64,
    return_bps: i32,
) -> (done: Result<(), AgentAlphaError>)
    requires
        old(ledger).wf(),
        old(ledger)@.record_outcome_error(ctx, outcome) is None ==> old(
            ledger,
        )@.providers[ctx.provider@].return_fits(return_bps),
    ensures
        final(ledger).wf(),
        match old(ledger)@.record_outcome_error(ctx, outcome) {
            Some(e) => done == Err::<(), AgentAlphaError>(e) && final(ledger)@ == old(ledger)@,
            None => done is Ok && final(ledger)@ == old(ledger)@.after_record_outcome(
                ctx,
                outcome,
                final_price_cents,
                return_bps,
            ),
        },
{
    if let Err(e) = check_reporter(&ledger.reporter, &ctx.oracle) {
        return Err(e);
    }
    let owner_slot = match ledger.find_provider(&ctx.provider) {
        Some(i) => i,
        None => {
            // No provider is kept under this key, so no commitment is.
            proof {
                ledger.lemma_view_wf();
            }
            return Err(AgentAlphaError::UnknownCommitment);
        },
    };
    let slot = match ledger.find_commit(&ctx.provider, &ctx.signal_hash) {
        Some(i) => i,
        None => {
            return Err(AgentAlphaError::UnknownCommitment);
        },
    };
    proof {
        lemma_commit_found(ledger.commits@, slot as int);
        lemma_provider_found(ledger.providers@, owner_slot as int);
        // The log has more entries than outcomes of this provider, and no
        // more entries than a vector can hold: the counters have room.
        ledger.lemma_view_wf();
        assert(ledger@.providers.dom().contains(ctx.provider@));
        assert(ledger@.events.len() == ledger.events@.len() == ledger.events.len());
    }
    let done = record_resolution(
        &mut ledger.commits[slot],
        &mut ledger.providers[owner_slot],
        outcome,
        final_price_cents,
        return_bps,
        ctx.now,
    );
    let was_correct = match done {
        Ok(c) => c,
        Err(e) => {
            assert(ledger.commits@ =~= old(ledger).commits@);
            assert(ledger.providers@ =~= old(ledger).providers@);
            return Err(e);
        },
    };
    proof {
        lemma_commits_update(old(ledger).commits@, slot as int, ledger.commits@[slot as int]);
        assert(ledger.commits@ =~= old(ledger).commits@.update(
            slot as int,
            ledger.commits@[slot as int],
        ));
        lemma_providers_update(
            old(ledger).providers@,
            owner_slot as int,
            ledger.providers@[owner_slot as int],
        );
        assert(ledger.providers@ =~= old(ledger).providers@.update(
            owner_slot as int,
            ledger.providers@[owner_slot as int],
        ));
        lemma_commits_same_keys(old(ledger).commits@, ledger.commits@, old(ledger).providers@);
        lemma_providers_same_keys(old(ledger).providers@, ledger.providers@, ledger.commits@);
    }
    let event = OutcomeRecorded {
        provider: ctx.provider,
        signal_hash: ctx.signal_hash,
        outcome,
        was_correct,
        return_bps,
        total_signals: ledger.providers[owner_slot].total_signals,
        correct_signals: ledger.providers[owner_slot].correct_signals,
    };
    ledger.events.push(Event::OutcomeRecorded(event));
    proof {
        let after = old(ledger)@.after_record_outcome(
            ctx,
            outcome,
            final_price_cents,
            return_bps,
        );
        assert(ledger@.events =~= after.events);
        assert(ledger@ == after);
        old(ledger).lemma_view_wf();
        law_record_outcome_keeps_consistency(
            old(ledger)@,
            ctx,
            outcome,
            final_price_cents,
            return_bps,
        );
    }
    Ok(())
}

} // verus!
