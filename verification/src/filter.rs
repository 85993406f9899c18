//! The request filter: one policy and one cache, and the two steps in which
//! a request is judged. Between the steps the caller asks its resolver,
//! where the first step says so.

use crate::address::IpAddress;
use crate::cache::{
    age, law_full_write_evicts_least_recent, law_read_after_expiry, law_read_after_hit,
    law_read_after_write,
    CacheState, LookupCache, Timestamp,
};
use crate::country::{country_text, normal_country, normalize_country};
use crate::policy::{PolicySet, PolicyView};
use crate::text::optional_text;
use vstd::prelude::*;

verus! {

/// The status with which a request turned away is answered: 403 Forbidden.
pub const FORBIDDEN: u16 = 403u16;

/// The judgement on one request.
#[derive(Debug)]
pub struct Verdict {
    /// Whether the request is turned away.
    pub blocked: bool,
    /// The country the origin resolved to, in normal form, if any.
    pub country: Option<String>,
}

/// A judgement as contracts see it.
pub struct VerdictView {
    pub blocked: bool,
    pub country: Option<Seq<char>>,
}

impl View for Verdict {
    type V = VerdictView;

    open spec fn view(&self) -> VerdictView {
        VerdictView { blocked: self.blocked, country: country_text(self.country) }
    }
}

impl Verdict {
    /// The status to answer with: 403 where the request is turned away,
    /// none where it passes through unchanged.
    pub fn status_code(&self) -> (status: Option<u16>)
        ensures
            status == if self.blocked {
                Some(FORBIDDEN)
            } else {
                None::<u16>
            },
    {
        if self.blocked {
            Some(FORBIDDEN)
        } else {
            None
        }
    }
}

/// What the first step on a request comes to.
#[derive(Debug)]
pub enum Step {
    /// The cache had the country: the request is judged.
    Decided(Verdict),
    /// The cache had nothing to serve: the resolver is to be asked for the
    /// country of this address, the canonical form of the origin.
    Resolve(IpAddress),
}

/// A first step as contracts see it.
pub enum StepView {
    Decided(VerdictView),
    Resolve(IpAddress),
}

impl View for Step {
    type V = StepView;

    open spec fn view(&self) -> StepView {
        match self {
            Step::Decided(verdict) => StepView::Decided(verdict@),
            Step::Resolve(ip) => StepView::Resolve(*ip),
        }
    }
}

/// A filter as contracts see it.
pub struct FilterState {
    pub policy: PolicyView,
    pub cache: CacheState,
}

impl FilterState {
    /// The invariant of every filter: that of its cache.
    pub open spec fn wf(self) -> bool {
        self.cache.wf()
    }

    /// The judgement on a request whose origin has the country given.
    pub open spec fn verdict(self, country: Option<Seq<char>>) -> VerdictView {
        VerdictView { blocked: self.policy.blocks(country), country }
    }

    /// The first step on a request from `ip` at `now`: the judgement by the
    /// cached country where the cache has a fresh one, the call for the
    /// resolver otherwise.
    pub open spec fn step(self, ip: IpAddress, now: nat) -> StepView {
        match self.cache.lookup(ip.key(), now) {
            Some(country) => StepView::Decided(self.verdict(country)),
            None => StepView::Resolve(ip.canonical()),
        }
    }

    /// The filter after the first step.
    pub open spec fn after_begin(self, ip: IpAddress, now: nat) -> FilterState {
        FilterState { cache: self.cache.after_get(ip.key(), now), ..self }
    }

    /// The judgement of the second step, on the resolver's answer.
    pub open spec fn resolved_verdict(self, answer: Option<Seq<char>>) -> VerdictView {
        self.verdict(normal_country(answer))
    }

    /// The filter after the second step: the answer, in normal form, is
    /// cached for the address with `now` as its time.
    pub open spec fn after_finish(
        self,
        ip: IpAddress,
        answer: Option<Seq<char>>,
        now: nat,
    ) -> FilterState {
        FilterState { cache: self.cache.after_put(ip.key(), normal_country(answer), now), ..self }
    }
}

/// A policy with a cache of the countries that origins resolved to.
pub struct RequestFilter {
    policy: PolicySet,
    cache: LookupCache,
}

impl View for RequestFilter {
    type V = FilterState;

    closed spec fn view(&self) -> FilterState {
        FilterState { policy: self.policy@, cache: self.cache@ }
    }
}

impl RequestFilter {
    /// Whether the filter meets its invariant.
    pub open spec fn wf(&self) -> bool {
        self@.wf()
    }

    /// A filter of the policy over the cache.
    pub fn new(policy: PolicySet, cache: LookupCache) -> (filter: RequestFilter)
        requires
            cache.wf(),
        ensures
            filter.wf(),
            filter@ == (FilterState { policy: policy@, cache: cache@ }),
    {
        RequestFilter { policy, cache }
    }

    /// The policy of the filter.
    pub fn policy(&self) -> (policy: &PolicySet)
        ensures
            policy@ == self@.policy,
    {
        &self.policy
    }

    /// The cache of the filter.
    pub fn cache(&self) -> (cache: &LookupCache)
        ensures
            cache@ == self@.cache,
    {
        &self.cache
    }

    /// Judges a request by the country its origin has.
    pub fn judge(&self, country: Option<String>) -> (verdict: Verdict)
        ensures
            verdict@ == self@.verdict(country_text(country)),
    {
        let blocked = match &country {
            Some(code) => self.policy.should_block(Some(code.as_str())),
            None => self.policy.should_block(None),
        };
        Verdict { blocked, country }
    }

    /// The words to log for a judged request: the policy's block message
    /// for `origin` where the verdict turns the request away, none where it
    /// lets the request pass.
    pub fn audit_record(&self, origin: &str, verdict: &Verdict) -> (record: Option<String>)
        ensures
            record is Some <==> verdict.blocked,
            record matches Some(words) ==> words@ == self@.policy.block_message(
                origin@,
                country_text(verdict.country),
            ),
    {
        if verdict.blocked {
            let words = match &verdict.country {
                Some(code) => self.policy.block_message(origin, Some(code.as_str())),
                None => self.policy.block_message(origin, None),
            };
            Some(words)
        } else {
            None
        }
    }

    /// The first step on a request from `ip` at `now`. Where the cache has
    /// a country for the address that is no older than the TTL, the request
    /// is judged by it and the entry counts as just used. Otherwise an entry
    /// too old is removed, and the step calls for the resolver.
    pub fn begin(&mut self, ip: IpAddress, now: Timestamp) -> (step: Step)
        requires
            old(self).wf(),
        ensures
            final(self).wf(),
            final(self)@ == old(self)@.after_begin(ip, now.nanos as nat),
            step@ == old(self)@.step(ip, now.nanos as nat),
    {
        match self.cache.get(ip, now) {
            Some(country) => Step::Decided(self.judge(country)),
            None => Step::Resolve(ip.to_canonical()),
        }
    }

    /// The second step on a request from `ip`, with what the resolver
    /// answered for it: the answer is brought to normal form, cached for the
    /// address with `now` as its time, and the request is judged by it. An
    /// answer of no country is cached like any other.
    pub fn finish(&mut self, ip: IpAddress, answer: Option<&str>, now: Timestamp) -> (verdict:
        Verdict)
        requires
            old(self).wf(),
        ensures
            final(self).wf(),
            final(self)@ == old(self)@.after_finish(ip, optional_text(answer), now.nanos as nat),
            verdict@ == old(self)@.resolved_verdict(optional_text(answer)),
    {
        let country = normalize_country(answer);
        self.cache.put(ip, country.clone(), now);
        self.judge(country)
    }
}

/// Idempotence. After a request is judged on the resolver's answer, the
/// first step on each further request from the same address within the TTL
/// gives the same judgement without a call for the resolver, and leaves the
/// filter as it was.
pub proof fn law_repeat_is_served_from_cache(
    state: FilterState,
    ip: IpAddress,
    answer: Option<Seq<char>>,
    first: nat,
    again: nat,
)
    requires
        state.wf(),
        age(again, first) <= state.cache.ttl,
    ensures
        state.after_finish(ip, answer, first).wf(),
        state.after_finish(ip, answer, first).step(ip, again) == StepView::Decided(
            state.resolved_verdict(answer),
        ),
        state.after_finish(ip, answer, first).after_begin(ip, again) == state.after_finish(
            ip,
            answer,
            first,
        ),
{
    law_read_after_write(state.cache, ip.key(), normal_country(answer), first, again);
}

/// Idempotence on a hit. Where the first step judges a request from the
/// cache, the first step on each further request from the same address gives
/// the same judgement, for as long as the entry it was judged from is no
/// older than the TTL, and leaves the filter as the first left it.
pub proof fn law_repeat_of_a_hit_is_the_same(
    state: FilterState,
    ip: IpAddress,
    first: nat,
    again: nat,
)
    requires
        state.wf(),
        state.cache.fresh(ip.key(), first),
        state.cache.fresh(ip.key(), again),
    ensures
        state.after_begin(ip, first).wf(),
        state.after_begin(ip, first).step(ip, again) == state.step(ip, first),
        state.after_begin(ip, first).after_begin(ip, again) == state.after_begin(ip, first),
{
    law_read_after_hit(state.cache, ip.key(), first, again);
}

/// Expiry. Once an entry is older than the TTL, the first step on a request
/// from its address calls for the resolver, and removes the entry.
pub proof fn law_expired_is_resolved_again(
    state: FilterState,
    ip: IpAddress,
    answer: Option<Seq<char>>,
    first: nat,
    again: nat,
)
    requires
        state.wf(),
        again > first + state.cache.ttl,
    ensures
        state.after_finish(ip, answer, first).step(ip, again) == StepView::Resolve(ip.canonical()),
        !state.after_finish(ip, answer, first).after_begin(ip, again).cache.contains(ip.key()),
{
    law_read_after_expiry(state.cache, ip.key(), normal_country(answer), first, again);
}

/// Eviction. Where the cache is full and a request from a new address is
/// judged on the resolver's answer, the least recently used address loses
/// its entry, and the first step on a request from it calls for the
/// resolver.
pub proof fn law_evicted_is_resolved_again(
    state: FilterState,
    ip: IpAddress,
    answer: Option<Seq<char>>,
    now: nat,
    evicted: IpAddress,
    later: nat,
)
    requires
        state.wf(),
        state.cache.slots.len() == state.cache.capacity,
        !state.cache.contains(ip.key()),
        evicted.key() == state.cache.least_recent(),
    ensures
        state.after_finish(ip, answer, now).step(evicted, later) == StepView::Resolve(
            evicted.canonical(),
        ),
{
    law_full_write_evicts_least_recent(state.cache, ip.key(), normal_country(answer), now, 0);
}

/// Two origins with one canonical form are one origin to the filter.
pub proof fn law_canonical_form_decides(state: FilterState, a: IpAddress, b: IpAddress, now: nat)
    requires
        a.canonical() == b.canonical(),
    ensures
        state.step(a, now) == state.step(b, now),
        state.after_begin(a, now) == state.after_begin(b, now),
{
    crate::address::lemma_key_injective(a, b);
}

} // verus!
