//! The scenario clients: one verb per caching scenario, business values in and
//! out, coordination and protocol state kept inside. Every decision of the
//! verbs stands here; the clients exchange commands, wait and run loaders.

use std::sync::Arc;

use vstd::prelude::*;
use vstd::string::*;

use super::client::{Engine, MetaClientBuilder};
use super::error;
use super::error::{Error, ErrorView};
use super::meta_api::{MetaCommandResult, SetMode};
use super::meta_command::{MetaCommand, MetaCommandView};
use super::router::{DefaultHash, HashFunction, Rendezvous, Router};
use super::scenario;
use super::scenario::{
    encode_value, fetch_step, finish_erase, finish_get, finish_set, finish_store, plan_store_at, read_view,
    take_step, update_step, wait_backoff, FetchStep, FetchStepView, ReadFacts, ReadView, StaleWin, TakeStep, Token,
    LEASE_TTL_SECS, UPDATE_ATTEMPTS, WAIT_ATTEMPTS,
};
use super::ttl::Ttl;
use super::value::{Decode, Encode, Encoded, EncodedView};
use super::verb::Verb;
use crate::bytes;
use crate::lists::reversed;
use crate::time::{Duration, SystemTime};

verus! {

/// Why an [`ErrorEvent`] was raised.
#[derive(Debug, Clone, Copy, PartialEq, Eq, Structural)]
#[non_exhaustive]
pub enum ErrorKind {
    /// A verb absorbed an infrastructure failure because `degrade` is on.
    Degraded,
    /// A background loader (tokio `fetch` refresh) failed.
    BackgroundLoader,
    /// A `fetch` write-back failed or was abandoned because the item changed
    /// during recomputation.
    WriteBack,
    /// Handing a stale-recache token back to the server failed.
    LeaseReturn,
}

/// A failure that never reaches a caller, delivered to the error hook: the
/// only visibility into degraded calls and background work.
#[derive(Debug)]
#[non_exhaustive]
pub struct ErrorEvent<'a> {
    pub kind: ErrorKind,
    /// The verb that raised the event (`"get"`, `"fetch"`, ...).
    pub op: &'static str,
    pub key: &'a [u8],
    pub error: &'a Error,
}

impl<'a> ErrorEvent<'a> {
    pub fn new(kind: ErrorKind, op: &'static str, key: &'a [u8], error: &'a Error) -> (r: ErrorEvent<'a>)
        ensures
            r == (ErrorEvent { kind, op, key, error }),
    {
        ErrorEvent { kind, op, key, error }
    }
}

/// Failure policy shared by both scenario clients.
#[derive(Debug, Clone, Copy, PartialEq, Eq, Structural)]
pub struct Policy {
    pub degrade: bool,
}

/// Whether an error says that the cache is unavailable.
pub open spec fn is_outage(error: ErrorView) -> bool {
    error is Io || error is Timeout || error is Protocol || error is Server
}

impl Policy {
    pub open spec fn absorbs_spec(self, error: ErrorView) -> bool {
        self.degrade && is_outage(error)
    }

    /// Whether degrade mode swallows this failure. Only "the cache is
    /// unavailable" degrades: a written request with an unknown outcome and
    /// caller bugs always surface.
    pub fn absorbs(&self, error: &Error) -> (r: bool)
        ensures
            r == self.absorbs_spec(error@),
    {
        self.degrade && match error {
            Error::Io(_) => true,
            Error::Timeout { .. } => true,
            Error::Protocol(_) => true,
            Error::Server(_) => true,
            _ => false,
        }
    }

    /// Resolve a verb's outcome under the policy: where the verb degrades, an
    /// absorbed failure is replaced by `fallback` and has to be reported.
    /// Everything else, and every outcome of a verb whose answer feeds a
    /// decision, reaches the caller as it is.
    pub fn settle<T>(&self, verb: Verb, result: Result<T, Error>, fallback: T) -> (r: Settled<T>)
        ensures
            match r {
                Settled::Kept(kept) => kept == result && (result matches Err(e) ==> !(verb.degrades_spec()
                    && self.absorbs_spec(e@))),
                Settled::Degraded { value, error } => result == Err::<T, Error>(error) && verb.degrades_spec()
                    && self.absorbs_spec(error@) && value == fallback,
            },
            verb.is_decision() ==> r == Settled::Kept(result),
    {
        match result {
            Err(error) => {
                if verb.degrades() && self.absorbs(&error) {
                    Settled::Degraded { value: fallback, error }
                } else {
                    Settled::Kept(Err(error))
                }
            },
            other => Settled::Kept(other),
        }
    }

    /// Resolve a read under the policy: an absorbed failure is a miss.
    pub fn settle_read(&self, verb: Verb, result: Result<ReadView, Error>) -> (r: Settled<ReadView>)
        ensures
            match r {
                Settled::Kept(kept) => kept == result && (result matches Err(e) ==> !(verb.degrades_spec()
                    && self.absorbs_spec(e@))),
                Settled::Degraded { value, error } => result == Err::<ReadView, Error>(error) && verb.degrades_spec()
                    && self.absorbs_spec(error@) && value@ == ReadFacts::miss() && !value.hit && !value@.has_value(),
            },
    {
        self.settle(verb, result, ReadView::default())
    }
}

/// A verb's outcome under a [`Policy`].
#[derive(Debug)]
pub enum Settled<T> {
    /// The outcome reaches the caller.
    Kept(Result<T, Error>),
    /// The failure is reported as [`ErrorKind::Degraded`]; the caller gets
    /// `value`.
    Degraded { value: T, error: Error },
}

/// Degrade mode never swallows a written request with an unknown outcome, a
/// caller bug, a lost race or the caller's own error, and without it nothing is
/// swallowed.
pub proof fn lemma_degrade_keeps_answers(policy: Policy, error: ErrorView)
    ensures
        policy.absorbs_spec(error) ==> !error.is_ambiguous() && !(error is Usage) && !(error is EmptyValue) && !(
        error is Encode) && !(error is Decode) && !(error is Rejected) && !(error is Conflict) && !(error is Callback),
        !policy.degrade ==> !policy.absorbs_spec(error),
{
}

/// Configures a scenario client before connecting.
#[derive(Clone)]
pub struct MemcacheBuilder<R> {
    pub meta: MetaClientBuilder<R>,
    pub policy: Policy,
}

impl MemcacheBuilder<Rendezvous<DefaultHash>> {
    pub fn new() -> (r: MemcacheBuilder<Rendezvous<DefaultHash>>)
        ensures
            r.meta.engine == Engine::standard(),
            r.meta.router.hash_function == DefaultHash,
            !r.policy.degrade,
    {
        MemcacheBuilder { meta: MetaClientBuilder::new(), policy: Policy { degrade: false } }
    }
}

impl Default for MemcacheBuilder<Rendezvous<DefaultHash>> {
    fn default() -> (r: MemcacheBuilder<Rendezvous<DefaultHash>>)
        ensures
            r.meta.engine == Engine::standard(),
            r.meta.router.hash_function == DefaultHash,
            !r.policy.degrade,
    {
        MemcacheBuilder::new()
    }
}

impl<R: Router> MemcacheBuilder<R> {
    /// One deadline per exchange (a command or a batch, write plus reads),
    /// default one second; `None` removes the limit.
    pub fn timeout(self, timeout: Option<Duration>) -> (r: MemcacheBuilder<R>)
        ensures
            r.policy == self.policy,
            r.meta.router == self.meta.router,
            r.meta.engine == (Engine { io_timeout: timeout, ..self.meta.engine }),
    {
        MemcacheBuilder { meta: self.meta.io_timeout(timeout), policy: self.policy }
    }

    /// Limit on dialing a server, default one second; `None` removes it.
    pub fn connect_timeout(self, timeout: Option<Duration>) -> (r: MemcacheBuilder<R>)
        ensures
            r.policy == self.policy,
            r.meta.router == self.meta.router,
            r.meta.engine == (Engine { connect_timeout: timeout, ..self.meta.engine }),
    {
        MemcacheBuilder { meta: self.meta.connect_timeout(timeout), policy: self.policy }
    }

    /// Idle connections retained per server (default 8).
    pub fn max_idle(self, max_idle: usize) -> (r: MemcacheBuilder<R>)
        ensures
            r.policy == self.policy,
            r.meta.router == self.meta.router,
            r.meta.engine == (Engine { max_idle, ..self.meta.engine }),
    {
        MemcacheBuilder { meta: self.meta.max_idle(max_idle), policy: self.policy }
    }

    /// Replace the key hash used for routing.
    pub fn hash_function<H: HashFunction>(self, hash_function: H) -> (r: MemcacheBuilder<Rendezvous<H>>)
        ensures
            r.policy == self.policy,
            r.meta.router.hash_function == hash_function,
            r.meta.engine == self.meta.engine,
    {
        MemcacheBuilder { meta: self.meta.hash_function(hash_function), policy: self.policy }
    }

    /// Treat a cache outage as a miss instead of an error (default off). Reads
    /// report a miss, `fetch` runs its loader locally, blind writes are
    /// dropped; verbs whose answer feeds a business decision (`add`, `replace`,
    /// `update`, `take`, `incr`, `decr`) still fail, and so does an
    /// [`Ambiguous`](Error::Ambiguous) write. Absorbed failures reach the
    /// error hook.
    pub fn degrade(self, degrade: bool) -> (r: MemcacheBuilder<R>)
        ensures
            r == (MemcacheBuilder { policy: Policy { degrade }, ..self }),
    {
        MemcacheBuilder { meta: self.meta, policy: Policy { degrade } }
    }
}

/// The marked positions, in ascending order.
pub open spec fn marked(marks: Seq<bool>) -> Seq<int>
    decreases marks.len(),
{
    if marks.len() == 0 {
        Seq::empty()
    } else if marks.last() {
        marked(marks.drop_last()).push(marks.len() - 1)
    } else {
        marked(marks.drop_last())
    }
}

/// Which faults a policy absorbs.
pub open spec fn absorbed(faults: Seq<Option<ErrorView>>, policy: Policy) -> Seq<bool> {
    Seq::new(faults.len(), |i: int| faults[i] is Some && policy.absorbs_spec(faults[i]->0))
}

/// The first fault that a policy does not absorb.
pub open spec fn first_kept(faults: Seq<Option<ErrorView>>, policy: Policy) -> Option<ErrorView>
    decreases faults.len(),
{
    if faults.len() == 0 {
        None
    } else {
        match first_kept(faults.drop_last(), policy) {
            Some(e) => Some(e),
            None => match faults.last() {
                Some(e) => if policy.absorbs_spec(e) {
                    None
                } else {
                    Some(e)
                },
                None => None,
            },
        }
    }
}

/// Whether `reports` lists the marked faults, each with its position.
pub open spec fn reports_are(
    reports: Seq<(usize, Error)>,
    faults: Seq<Option<ErrorView>>,
    marks: Seq<bool>,
) -> bool {
    &&& reports.len() == marked(marks).len()
    &&& forall|k: int|
        0 <= k < reports.len() ==> (#[trigger] reports[k]).0 == marked(marks)[k] && Some(reports[k].1@)
            == faults[marked(marks)[k]]
}

/// The blind writes that run over many keys.
#[derive(Debug, Clone, Copy, PartialEq, Eq, Structural)]
pub enum WriteVerb {
    /// `set_many`: every value has to be stored.
    Store,
    /// `delete_many`: a missing key is no failure.
    Delete,
}

/// Why one write failed, if it did.
pub open spec fn write_fault(verb: WriteVerb, result: Result<MetaCommandResult, Error>) -> Option<ErrorView> {
    match result {
        Err(e) => Some(e@),
        Ok(wire) => match verb {
            WriteVerb::Store => scenario::set_fault(wire.rc),
            WriteVerb::Delete => match scenario::erase_answer(wire.rc) {
                Ok(_) => None,
                Err(e) => Some(e),
            },
        },
    }
}

pub open spec fn write_faults(verb: WriteVerb, results: Seq<Result<MetaCommandResult, Error>>) -> Seq<
    Option<ErrorView>,
> {
    Seq::new(results.len(), |i: int| write_fault(verb, results[i]))
}

/// The outcome of many writes.
#[derive(Debug)]
pub struct ManyWrites {
    /// Absorbed failures, each with the position of its key, to be reported as
    /// [`ErrorKind::Degraded`].
    pub reports: Vec<(usize, Error)>,
    /// The failure that fails the call.
    pub failed: Option<Error>,
}

pub open spec fn view_error(error: Option<Error>) -> Option<ErrorView> {
    match error {
        Some(error) => Some(error@),
        None => None,
    }
}

fn write_error(verb: WriteVerb, result: &Result<MetaCommandResult, Error>) -> (r: Option<Error>)
    ensures
        view_error(r) == write_fault(verb, *result),
{
    match result {
        Err(e) => Some(e.duplicate()),
        Ok(wire) => match verb {
            WriteVerb::Store => match finish_set(wire) {
                Ok(_) => None,
                Err(e) => Some(e),
            },
            WriteVerb::Delete => match finish_erase(wire) {
                Ok(_) => None,
                Err(e) => Some(e),
            },
        },
    }
}

/// Settle many writes: absorbed failures are reported, the first one that is
/// not absorbed fails the call after every write ran.
pub fn finish_writes(
    policy: &Policy,
    verb: WriteVerb,
    results: &Vec<Result<MetaCommandResult, Error>>,
) -> (r: ManyWrites)
    ensures
        ({
            let faults = write_faults(verb, results@);
            &&& reports_are(r.reports@, faults, absorbed(faults, *policy))
            &&& view_error(r.failed) == first_kept(faults, *policy)
        }),
{
    let ghost faults = write_faults(verb, results@);
    let ghost marks = absorbed(faults, *policy);
    let mut reports: Vec<(usize, Error)> = Vec::new();
    let mut failed: Option<Error> = None;
    let mut i: usize = 0;
    proof {
        assert(marks.take(0) =~= Seq::<bool>::empty());
        assert(faults.take(0) =~= Seq::<Option<ErrorView>>::empty());
    }
    while i < results.len()
        invariant
            i <= results@.len(),
            faults == write_faults(verb, results@),
            marks == absorbed(faults, *policy),
            reports_are(reports@, faults, marks.take(i as int)),
            view_error(failed) == first_kept(faults.take(i as int), *policy),
        decreases results@.len() - i,
    {
        proof {
            assert(marks.take(i + 1).drop_last() =~= marks.take(i as int));
            assert(faults.take(i + 1).drop_last() =~= faults.take(i as int));
        }
        if let Some(error) = write_error(verb, &results[i]) {
            if policy.absorbs(&error) {
                reports.push((i, error));
            } else if failed.is_none() {
                failed = Some(error);
            }
        }
        i += 1;
    }
    proof {
        assert(marks.take(i as int) =~= marks);
        assert(faults.take(i as int) =~= faults);
    }
    ManyWrites { reports, failed }
}

/// The facts of one read of many.
pub open spec fn facts_of(result: Result<MetaCommandResult, Error>) -> Result<ReadFacts, ErrorView> {
    match result {
        Err(e) => Err(e@),
        Ok(wire) => scenario::read_facts(wire@),
    }
}

pub open spec fn read_fault(result: Result<MetaCommandResult, Error>) -> Option<ErrorView> {
    match facts_of(result) {
        Err(e) => Some(e),
        Ok(_) => None,
    }
}

pub open spec fn read_faults(results: Seq<Result<MetaCommandResult, Error>>) -> Seq<Option<ErrorView>> {
    Seq::new(results.len(), |i: int| read_fault(results[i]))
}

/// Which reads of many found a value.
pub open spec fn hits(results: Seq<Result<MetaCommandResult, Error>>) -> Seq<bool> {
    Seq::new(results.len(), |i: int| facts_of(results[i]) is Ok && facts_of(results[i])->Ok_0.has_value())
}

/// Which reads of many won a stale token.
pub open spec fn wins(results: Seq<Result<MetaCommandResult, Error>>) -> Seq<bool> {
    Seq::new(results.len(), |i: int| facts_of(results[i]) is Ok && facts_of(results[i])->Ok_0.stale_win() is Some)
}

/// The message of the failure to decode a read of many, if there is one.
pub open spec fn undecodable<T: Decode>(result: Result<MetaCommandResult, Error>) -> Option<Seq<char>> {
    match facts_of(result) {
        Err(_) => None,
        Ok(facts) => if facts.has_value() {
            T::decode_fault(facts.bytes(), facts.flags)
        } else {
            None
        },
    }
}

/// How many reads are looked at: up to the first value that cannot be decoded,
/// which fails the call at once.
pub open spec fn looked_at<T: Decode>(results: Seq<Result<MetaCommandResult, Error>>) -> nat
    decreases results.len(),
{
    if results.len() == 0 {
        0
    } else if undecodable::<T>(results[0]) is Some {
        1
    } else {
        1 + looked_at::<T>(results.skip(1))
    }
}

/// The outcome of `get_many`.
#[derive(Debug)]
pub struct ManyReads<T> {
    /// The values found, each with the position of its key.
    pub found: Vec<(usize, T)>,
    /// Stale tokens to hand back, each with the position of its key.
    pub wins: Vec<(usize, StaleWin)>,
    /// Absorbed failures, each with the position of its key.
    pub reports: Vec<(usize, Error)>,
    /// The failure that fails the call.
    pub failed: Option<Error>,
}

/// Whether `found` lists the values of the marked reads, each with its
/// position.
pub open spec fn found_are<T: Decode>(
    found: Seq<(usize, T)>,
    results: Seq<Result<MetaCommandResult, Error>>,
    marks: Seq<bool>,
) -> bool {
    &&& found.len() == marked(marks).len()
    &&& forall|k: int|
        0 <= k < found.len() ==> (#[trigger] found[k]).0 == marked(marks)[k] && T::stands_for(
            facts_of(results[marked(marks)[k]])->Ok_0.bytes(),
            facts_of(results[marked(marks)[k]])->Ok_0.flags,
            found[k].1,
        )
}

/// Whether `tokens` lists the tokens of the marked reads, each with its
/// position.
pub open spec fn wins_are(
    tokens: Seq<(usize, StaleWin)>,
    results: Seq<Result<MetaCommandResult, Error>>,
    marks: Seq<bool>,
) -> bool {
    &&& tokens.len() == marked(marks).len()
    &&& forall|k: int|
        0 <= k < tokens.len() ==> (#[trigger] tokens[k]).0 == marked(marks)[k] && Some(tokens[k].1) == facts_of(
            results[marked(marks)[k]],
        )->Ok_0.stale_win()
}

proof fn lemma_looked_at<T: Decode>(results: Seq<Result<MetaCommandResult, Error>>, n: int)
    requires
        0 <= n <= results.len(),
        forall|k: int| 0 <= k < n ==> undecodable::<T>(#[trigger] results[k]) is None,
    ensures
        n == results.len() ==> looked_at::<T>(results) == n,
        n < results.len() && undecodable::<T>(results[n]) is Some ==> looked_at::<T>(results) == n + 1,
    decreases results.len(),
{
    if n > 0 {
        let rest = results.skip(1);
        assert(undecodable::<T>(results[0]) is None);
        assert forall|k: int| 0 <= k < n - 1 implies undecodable::<T>(#[trigger] rest[k]) is None by {
            assert(rest[k] == results[k + 1]);
        }
        lemma_looked_at::<T>(rest, n - 1);
    }
}

/// Settle many reads: hits are decoded, tokens won by accident are to be
/// handed back, absorbed failures are reported, the first one that is not
/// absorbed fails the call after every read ran. A value that cannot be
/// decoded fails the call at once.
pub fn finish_reads<T: Decode>(policy: &Policy, results: Vec<Result<MetaCommandResult, Error>>) -> (r: ManyReads<T>)
    ensures
        ({
            let n = looked_at::<T>(results@) as int;
            let seen = results@.take(n);
            let faults = read_faults(seen);
            let broken = n > 0 && undecodable::<T>(results@[n - 1]) is Some;
            &&& n <= results@.len()
            &&& reports_are(r.reports@, faults, absorbed(faults, *policy))
            &&& wins_are(r.wins@, results@, wins(seen))
            &&& if broken {
                view_error(r.failed) == Some(ErrorView::Decode(undecodable::<T>(results@[n - 1])->0)) && found_are(
                    r.found@,
                    results@,
                    hits(results@.take(n - 1)),
                )
            } else {
                view_error(r.failed) == first_kept(faults, *policy) && found_are(r.found@, results@, hits(seen))
            }
        }),
{
    let ghost all = results@;
    let count = results.len();
    let mut rest = reversed(results);
    let mut found: Vec<(usize, T)> = Vec::new();
    let mut tokens: Vec<(usize, StaleWin)> = Vec::new();
    let mut reports: Vec<(usize, Error)> = Vec::new();
    let mut failed: Option<Error> = None;
    let mut i: usize = 0;
    proof {
        assert(hits(all.take(0)) =~= Seq::<bool>::empty());
        assert(wins(all.take(0)) =~= Seq::<bool>::empty());
        assert(absorbed(read_faults(all.take(0)), *policy) =~= Seq::<bool>::empty());
        assert(read_faults(all.take(0)) =~= Seq::<Option<ErrorView>>::empty());
        assert(all.skip(0) =~= all);
    }
    while i < count
        invariant
            i <= count,
            count == all.len(),
            all == results@,
            rest@ == all.skip(i as int).reverse(),
            forall|k: int| 0 <= k < i ==> undecodable::<T>(#[trigger] all[k]) is None,
            found_are(found@, all, hits(all.take(i as int))),
            wins_are(tokens@, all, wins(all.take(i as int))),
            reports_are(
                reports@,
                read_faults(all.take(i as int)),
                absorbed(read_faults(all.take(i as int)), *policy),
            ),
            view_error(failed) == first_kept(read_faults(all.take(i as int)), *policy),
        decreases all.len() - i,
    {
        let ghost before = all.take(i as int);
        let ghost after = all.take(i + 1);
        proof {
            assert(hits(after).drop_last() =~= hits(before));
            assert(wins(after).drop_last() =~= wins(before));
            assert(read_faults(after).drop_last() =~= read_faults(before));
            assert(absorbed(read_faults(after), *policy).drop_last() =~= absorbed(read_faults(before), *policy));
            assert(after.last() == all[i as int]);
            lemma_marked_in_range(absorbed(read_faults(before), *policy));
            lemma_looked_at::<T>(all, i as int);
            assert(all.skip(i as int).reverse().last() == all[i as int]);
            assert(all.skip(i as int).reverse().drop_last() =~= all.skip(i + 1).reverse());
        }
        let read = match rest.pop().unwrap() {
            Ok(wire) => read_view(wire),
            Err(e) => Err(e),
        };
        match read {
            Err(error) => {
                if policy.absorbs(&error) {
                    reports.push((i, error));
                } else if failed.is_none() {
                    failed = Some(error);
                }
            },
            Ok(view) => {
                if let Some(win) = view.stale_win() {
                    tokens.push((i, win));
                }
                match finish_get::<T>(view) {
                    Ok(Some(value)) => found.push((i, value)),
                    Ok(None) => {},
                    Err(error) => {
                        return ManyReads { found, wins: tokens, reports, failed: Some(error) };
                    },
                }
            },
        }
        i += 1;
    }
    proof {
        lemma_looked_at::<T>(all, i as int);
        assert(all.take(i as int) =~= all);
    }
    ManyReads { found, wins: tokens, reports, failed }
}

proof fn lemma_marked_in_range(marks: Seq<bool>)
    ensures
        forall|k: int| 0 <= k < marked(marks).len() ==> 0 <= #[trigger] marked(marks)[k] < marks.len(),
    decreases marks.len(),
{
    if marks.len() > 0 {
        let before = marks.drop_last();
        lemma_marked_in_range(before);
        assert forall|k: int| 0 <= k < marked(marks).len() implies 0 <= #[trigger] marked(marks)[k] < marks.len() by {
            if k < marked(before).len() {
                assert(marked(marks)[k] == marked(before)[k]);
            }
        }
    }
}

/// What `update` reads before it transforms a value.
#[derive(Debug)]
pub struct UpdateProbe<T> {
    /// The value to transform.
    pub current: Option<T>,
    /// The CAS to write through; none for an `add`.
    pub compare_cas: Option<u64>,
    /// A stale token to hand back when nothing gets written.
    pub stale_win: Option<StaleWin>,
}

/// Why a probe fails `update`, if it does.
pub open spec fn probe_fault<T: Decode>(result: Result<MetaCommandResult, Error>) -> Option<ErrorView> {
    match facts_of(result) {
        Err(e) => Some(e),
        Ok(facts) => match scenario::current_value(facts) {
            None => None,
            Some((bytes, flags)) => match T::decode_fault(bytes, flags) {
                Some(message) => Some(ErrorView::Decode(message)),
                None => None,
            },
        },
    }
}

/// Read the probe of `update`: a miss, a placeholder and a stale item are
/// nothing to transform, but any item that exists is written through its CAS.
pub fn update_probe<T: Decode>(result: Result<MetaCommandResult, Error>) -> (r: Result<UpdateProbe<T>, Error>)
    ensures
        match r {
            Err(e) => probe_fault::<T>(result) == Some(e@),
            Ok(probe) => {
                let facts = facts_of(result)->Ok_0;
                &&& probe_fault::<T>(result) is None
                &&& probe.compare_cas == (if facts.hit {
                    facts.cas
                } else {
                    None
                })
                &&& probe.stale_win == facts.stale_win()
                &&& match probe.current {
                    None => scenario::current_value(facts) is None,
                    Some(value) => scenario::current_value(facts) is Some && T::stands_for(
                        facts.bytes(),
                        facts.flags,
                        value,
                    ),
                }
            },
        },
{
    let wire = match result {
        Ok(wire) => wire,
        Err(e) => {
            return Err(e);
        },
    };
    let view = match read_view(wire) {
        Ok(view) => view,
        Err(e) => {
            return Err(e);
        },
    };
    let step = update_step(view);
    let current = match step.current {
        None => None,
        Some((bytes, flags)) => match T::decode(bytes, flags) {
            Ok(value) => Some(value),
            Err(e) => {
                return Err(Error::Decode(e));
            },
        },
    };
    Ok(UpdateProbe { current, compare_cas: step.compare_cas, stale_win: step.stale_win })
}

/// What `update` does about a transform that ended.
#[derive(Debug)]
pub enum UpdateWrite<V> {
    /// Send this command to write the value.
    Send { command: MetaCommand, next: V },
    /// Write nothing, hand a stale token back where there is one, and fail.
    Fail { error: Error, give_back: Option<StaleWin> },
}

/// The mode of the write: any existing item, stale or a placeholder included,
/// can only be replaced through its CAS; only a true miss is an add.
pub open spec fn update_mode(compare_cas: Option<u64>) -> SetMode {
    match compare_cas {
        Some(_) => SetMode::Store,
        None => SetMode::Add,
    }
}

/// How `update` writes a value.
pub open spec fn update_plan(
    key: Seq<u8>,
    value: EncodedView,
    ttl: Ttl,
    compare_cas: Option<u64>,
    now: SystemTime,
) -> Result<MetaCommandView, ErrorView> {
    scenario::store_plan(key, value, ttl, update_mode(compare_cas), compare_cas, now)
}

/// Plan the write of `update` after its transform ended, with the TTL resolved
/// as of `now`. Where the transform failed or its value cannot be stored,
/// nothing is written and the stale token that the probe won goes back.
pub fn update_write_at<V: Encode>(
    key: &[u8],
    transformed: Result<V, Error>,
    ttl: Ttl,
    compare_cas: Option<u64>,
    stale_win: Option<StaleWin>,
    now: SystemTime,
) -> (r: UpdateWrite<V>)
    ensures
        match r {
            UpdateWrite::Send { command, next } => transformed == Ok::<V, Error>(next) && (scenario::value_encoding(
                &next,
            ) matches Ok(encoded) && update_plan(key@, encoded, ttl, compare_cas, now) == Ok::<
                MetaCommandView,
                ErrorView,
            >(command@)),
            UpdateWrite::Fail { error, give_back } => match transformed {
                Err(e) => error == e && give_back == stale_win,
                Ok(next) => match scenario::value_encoding(&next) {
                    Err(e) => error@ == e && give_back == stale_win,
                    Ok(encoded) => update_plan(key@, encoded, ttl, compare_cas, now) == Err::<
                        MetaCommandView,
                        ErrorView,
                    >(error@) && give_back is None,
                },
            },
        },
{
    let next = match transformed {
        Ok(next) => next,
        Err(error) => {
            return UpdateWrite::Fail { error, give_back: stale_win };
        },
    };
    let encoded = match encode_value(&next) {
        Ok(encoded) => encoded,
        Err(error) => {
            return UpdateWrite::Fail { error, give_back: stale_win };
        },
    };
    let mode = match compare_cas {
        Some(_) => SetMode::Store,
        None => SetMode::Add,
    };
    match plan_store_at(key, &encoded, ttl, mode, compare_cas, now) {
        Ok(command) => UpdateWrite::Send { command, next },
        Err(error) => UpdateWrite::Fail { error, give_back: None },
    }
}

/// What to do after one attempt of an optimistic loop.
#[derive(Debug)]
pub enum Verdict {
    /// This attempt won.
    Done,
    /// A concurrent writer won: probe again.
    Retry,
    /// The call fails.
    Fail(Error),
}

/// Whether attempt `attempt`, counted from zero, decided the call, given
/// whether its write was applied.
pub open spec fn attempt_verdict(answer: Result<bool, ErrorView>, attempt: usize, verdict: Verdict) -> bool {
    match verdict {
        Verdict::Done => answer == Ok::<bool, ErrorView>(true),
        Verdict::Retry => answer == Ok::<bool, ErrorView>(false) && attempt + 1 < UPDATE_ATTEMPTS,
        Verdict::Fail(e) => match answer {
            Ok(applied) => !applied && attempt + 1 >= UPDATE_ATTEMPTS && e@ == ErrorView::Conflict,
            Err(fault) => e@ == fault,
        },
    }
}

fn verdict(answer: Result<bool, Error>, attempt: usize) -> (r: Verdict)
    requires
        attempt < UPDATE_ATTEMPTS,
    ensures
        match answer {
            Ok(applied) => attempt_verdict(Ok(applied), attempt, r),
            Err(e) => attempt_verdict(Err(e@), attempt, r),
        },
{
    match answer {
        Ok(true) => Verdict::Done,
        Ok(false) => {
            if attempt + 1 < UPDATE_ATTEMPTS {
                Verdict::Retry
            } else {
                Verdict::Fail(Error::Conflict)
            }
        },
        Err(e) => Verdict::Fail(e),
    }
}

pub open spec fn store_outcome(result: Result<MetaCommandResult, Error>) -> Result<bool, ErrorView> {
    match result {
        Err(e) => Err(e@),
        Ok(wire) => scenario::store_answer(wire.rc),
    }
}

pub open spec fn erase_outcome(result: Result<MetaCommandResult, Error>) -> Result<bool, ErrorView> {
    match result {
        Err(e) => Err(e@),
        Ok(wire) => scenario::erase_answer(wire.rc),
    }
}

/// Decide about one attempt of `update`. Lost races are retried up to the
/// bound, then fail with [`Error::Conflict`].
pub fn update_verdict(result: Result<MetaCommandResult, Error>, attempt: usize) -> (r: Verdict)
    requires
        attempt < UPDATE_ATTEMPTS,
    ensures
        attempt_verdict(store_outcome(result), attempt, r),
{
    match result {
        Err(e) => verdict(Err(e), attempt),
        Ok(wire) => verdict(finish_store(&wire), attempt),
    }
}

/// What `take` does with its probe.
#[derive(Debug)]
pub enum TakeProbe<T> {
    /// Nothing to take; hand the stale token back, if one was won.
    Nothing(Option<StaleWin>),
    /// Delete the item through `cas` and return the value.
    Found { value: T, cas: u64 },
}

/// Why a probe fails `take`, if it does. A value that cannot be decoded stays
/// on the server.
pub open spec fn take_fault<T: Decode>(result: Result<MetaCommandResult, Error>) -> Option<ErrorView> {
    match facts_of(result) {
        Err(e) => Some(e),
        Ok(facts) => match scenario::current_value(facts) {
            None => None,
            Some((bytes, flags)) => if facts.cas is None {
                Some(error::protocol("value read omitted the requested CAS"))
            } else {
                match T::decode_fault(bytes, flags) {
                    Some(message) => Some(ErrorView::Decode(message)),
                    None => None,
                }
            },
        },
    }
}

/// Read the probe of `take`.
pub fn take_probe<T: Decode>(result: Result<MetaCommandResult, Error>) -> (r: Result<TakeProbe<T>, Error>)
    ensures
        match r {
            Err(e) => take_fault::<T>(result) == Some(e@),
            Ok(TakeProbe::Nothing(win)) => take_fault::<T>(result) is None && scenario::current_value(
                facts_of(result)->Ok_0,
            ) is None && win == facts_of(result)->Ok_0.stale_win(),
            Ok(TakeProbe::Found { value, cas }) => {
                let facts = facts_of(result)->Ok_0;
                &&& take_fault::<T>(result) is None
                &&& scenario::current_value(facts) is Some
                &&& facts.cas == Some(cas)
                &&& T::stands_for(facts.bytes(), facts.flags, value)
            },
        },
{
    let wire = match result {
        Ok(wire) => wire,
        Err(e) => {
            return Err(e);
        },
    };
    let view = match read_view(wire) {
        Ok(view) => view,
        Err(e) => {
            return Err(e);
        },
    };
    match take_step(view) {
        Err(e) => Err(e),
        Ok(TakeStep::Nothing(win)) => Ok(TakeProbe::Nothing(win)),
        Ok(TakeStep::Take { value, flags, cas }) => match T::decode(value, flags) {
            Ok(value) => Ok(TakeProbe::Found { value, cas }),
            Err(e) => Err(Error::Decode(e)),
        },
    }
}

/// Decide about one attempt of `take`. An item that changed in between is
/// probed again up to the bound, then the call fails with
/// [`Error::Conflict`].
pub fn take_verdict(result: Result<MetaCommandResult, Error>, attempt: usize) -> (r: Verdict)
    requires
        attempt < UPDATE_ATTEMPTS,
    ensures
        attempt_verdict(erase_outcome(result), attempt, r),
{
    match result {
        Err(e) => verdict(Err(e), attempt),
        Ok(wire) => verdict(finish_erase(&wire), attempt),
    }
}

/// The optimistic loops end: an attempt that loses its race is retried only
/// while attempts are left, and the last one fails with a conflict.
pub proof fn lemma_optimistic_loop_ends(answer: Result<bool, ErrorView>, attempt: usize, verdict: Verdict)
    requires
        attempt_verdict(answer, attempt, verdict),
    ensures
        verdict is Retry ==> attempt + 1 < UPDATE_ATTEMPTS,
        attempt + 1 == UPDATE_ATTEMPTS && answer == Ok::<bool, ErrorView>(false) ==> (verdict matches Verdict::Fail(e)
            && e@ == ErrorView::Conflict),
{
}

/// What `fetch` does next.
#[derive(Debug)]
pub enum FetchAction {
    /// Return the value.
    Serve { value: Vec<u8>, flags: u32 },
    /// This caller won the refresh of a value: recompute, now or in the
    /// background.
    Refresh { value: Vec<u8>, flags: u32, win: StaleWin },
    /// This caller owns the lease: run the loader, write back through `cas`.
    Lead { cas: u64 },
    /// Run the loader without writing back. A failure that led here is
    /// reported as [`ErrorKind::Degraded`].
    Compute { report: Option<Error> },
    /// Share the pending result of another caller of this process.
    Join,
    /// Wait, then read again.
    Sleep(Duration),
    /// The call fails.
    Fail(Error),
}

/// Whether `action` is what `fetch` does at `attempt` with what its election
/// read brought, given whether another caller of this process leads the key.
pub open spec fn is_fetch_action(
    policy: Policy,
    attempt: usize,
    led_here: bool,
    result: Result<MetaCommandResult, Error>,
    action: FetchAction,
) -> bool {
    match facts_of(result) {
        Err(fault) => if policy.absorbs_spec(fault) {
            action matches FetchAction::Compute { report: Some(e) } && e@ == fault
        } else {
            action matches FetchAction::Fail(e) && e@ == fault
        },
        Ok(facts) => match scenario::fetch_decision(facts) {
            FetchStepView::Serve { value: served, flags: with } => action matches FetchAction::Serve { value, flags }
                && value@ == served && flags == with,
            FetchStepView::Refresh { value: served, flags: with, cas } => action matches FetchAction::Refresh {
                value,
                flags,
                win,
            } && value@ == served && flags == with && win == (StaleWin { cas, ttl: facts.ttl }),
            FetchStepView::Lead { cas: through } => action matches FetchAction::Lead { cas } && cas == through,
            FetchStepView::Local => action matches FetchAction::Compute { report: None },
            FetchStepView::Wait => if led_here {
                action is Join
            } else {
                match scenario::backoff_millis(attempt as int) {
                    Some(millis) => action matches FetchAction::Sleep(wait) && wait.nanos == millis * 1_000_000,
                    None => action matches FetchAction::Compute { report: None },
                }
            },
        },
    }
}

/// Decide about one election read of `fetch`.
pub fn fetch_action(
    policy: &Policy,
    attempt: usize,
    led_here: bool,
    result: Result<MetaCommandResult, Error>,
) -> (r: FetchAction)
    ensures
        is_fetch_action(*policy, attempt, led_here, result, r),
{
    let read = match result {
        Ok(wire) => read_view(wire),
        Err(e) => Err(e),
    };
    let view = match read {
        Ok(view) => view,
        Err(error) => {
            // Cache outage is not a site outage: compute locally, skip the
            // cache, keep it observable.
            return if policy.absorbs(&error) {
                FetchAction::Compute { report: Some(error) }
            } else {
                FetchAction::Fail(error)
            };
        },
    };
    let ttl = view.ttl;
    match fetch_step(view) {
        FetchStep::Serve { value, flags } => FetchAction::Serve { value, flags },
        FetchStep::Refresh { value, flags, cas } => FetchAction::Refresh { value, flags, win: StaleWin { cas, ttl } },
        FetchStep::Lead { cas } => FetchAction::Lead { cas },
        FetchStep::Local => FetchAction::Compute { report: None },
        FetchStep::Wait => {
            // Same-process callers share the leader's pending result;
            // cross-process losers wait briefly and re-read.
            if led_here {
                FetchAction::Join
            } else {
                match wait_backoff(attempt) {
                    Some(wait) => FetchAction::Sleep(wait),
                    None => FetchAction::Compute { report: None },
                }
            }
        },
    }
}

/// `fetch` ends: once the wait schedule is used up, nothing makes it wait
/// again.
pub proof fn lemma_fetch_ends(
    policy: Policy,
    attempt: usize,
    led_here: bool,
    result: Result<MetaCommandResult, Error>,
    action: FetchAction,
)
    requires
        is_fetch_action(policy, attempt, led_here, result, action),
        attempt >= WAIT_ATTEMPTS,
    ensures
        !(action is Sleep),
{
}

/// `fetch` never fails because coordination failed: what its election read
/// says never fails the call, and with `degrade` an outage does not either.
pub proof fn lemma_fetch_survives(
    policy: Policy,
    attempt: usize,
    led_here: bool,
    result: Result<MetaCommandResult, Error>,
    action: FetchAction,
)
    requires
        is_fetch_action(policy, attempt, led_here, result, action),
        action is Fail,
    ensures
        facts_of(result) is Err,
        policy.degrade ==> !is_outage(facts_of(result)->Err_0),
{
}

/// Only a caller that holds the lease of a key, or won its refresh, writes
/// back, and it does so through the CAS of its own read.
pub proof fn lemma_only_the_elected_write_back(
    policy: Policy,
    attempt: usize,
    led_here: bool,
    result: Result<MetaCommandResult, Error>,
    action: FetchAction,
)
    requires
        is_fetch_action(policy, attempt, led_here, result, action),
    ensures
        action matches FetchAction::Lead { cas } ==> facts_of(result) is Ok && facts_of(result)->Ok_0.cas == Some(cas)
            && !facts_of(result)->Ok_0.has_value() && (facts_of(result)->Ok_0.won || !facts_of(result)->Ok_0.busy),
        action matches FetchAction::Refresh { win, .. } ==> facts_of(result) is Ok && facts_of(result)->Ok_0.cas
            == Some(win.cas) && facts_of(result)->Ok_0.won && facts_of(result)->Ok_0.has_value(),
{
}

/// How the elected caller of `fetch` repays its right to recompute.
#[derive(Debug)]
pub struct LeadStep {
    /// Store the loaded value through this CAS.
    pub write_back: Option<u64>,
    /// Give this token back, so that the next reader re-elects at once.
    pub give_back: Option<Token>,
    /// Report the failure as [`ErrorKind::WriteBack`].
    pub report: bool,
}

/// Decide what becomes of a right to recompute once the loader has run: it is
/// repaid with the value, or given back where there is none. The loader's own
/// error goes to its callers; a value that cannot be stored is reported too.
pub fn lead_step(loaded: &Result<Encoded, Error>, cas: Option<u64>, token: Option<Token>) -> (r: LeadStep)
    ensures
        match *loaded {
            Ok(_) => r.write_back == cas && r.give_back is None && !r.report,
            Err(e) => r.write_back is None && r.give_back == token && r.report == (cas is Some && (e@ is EmptyValue
                || e@ is Encode)),
        },
{
    match loaded {
        Ok(_) => LeadStep { write_back: cas, give_back: None, report: false },
        Err(e) => {
            let unstorable = match e {
                Error::EmptyValue => true,
                Error::Encode(_) => true,
                _ => false,
            };
            LeadStep { write_back: None, give_back: token, report: cas.is_some() && unstorable }
        },
    }
}

/// Why a write-back is reported, if it is.
pub open spec fn write_back_fault(result: Result<MetaCommandResult, Error>) -> Option<ErrorView> {
    match store_outcome(result) {
        Ok(true) => None,
        Ok(false) => Some(error::protocol("fetch write-back abandoned: the item changed during recomputation")),
        Err(e) => Some(e),
    }
}

/// The error to report for a write-back. A delete, set or re-invalidation that
/// landed meanwhile wins, and the write is abandoned rather than resurrecting
/// dead data.
pub fn write_back_report(result: Result<MetaCommandResult, Error>) -> (r: Option<Error>)
    ensures
        view_error(r) == write_back_fault(result),
{
    let outcome = match result {
        Ok(wire) => finish_store(&wire),
        Err(e) => Err(e),
    };
    match outcome {
        Ok(true) => None,
        Ok(false) => Some(Error::protocol("fetch write-back abandoned: the item changed during recomputation")),
        Err(e) => Some(e),
    }
}

/// How long a background refresh may take: the window that triggered it, or
/// the lease on the grace path.
pub fn refresh_bound(window: Option<u32>) -> (r: Duration)
    ensures
        r.nanos == (match window {
            Some(secs) => secs * 1_000_000_000,
            None => LEASE_TTL_SECS * 1_000_000_000,
        }),
{
    match window {
        Some(secs) => Duration::from_secs(secs as u64),
        None => Duration::from_secs(LEASE_TTL_SECS as u64),
    }
}

/// How a background loader ended.
#[derive(Debug)]
pub enum Refreshed {
    /// The client was dropped first.
    Shutdown,
    /// The loader failed or ran out of time.
    Failed(Error),
    /// The loader brought a value, which encoded or not.
    Loaded(Result<Encoded, Error>),
}

/// What becomes of a background refresh.
#[derive(Debug)]
pub enum RefreshStep {
    Stop,
    Report(ErrorKind, Error),
    WriteBack(Encoded),
}

pub fn refresh_step(refreshed: Refreshed) -> (r: RefreshStep)
    ensures
        match refreshed {
            Refreshed::Shutdown => r is Stop,
            Refreshed::Failed(e) => r == RefreshStep::Report(ErrorKind::BackgroundLoader, e),
            Refreshed::Loaded(Ok(encoded)) => r == RefreshStep::WriteBack(encoded),
            Refreshed::Loaded(Err(e)) => r == RefreshStep::Report(ErrorKind::WriteBack, e),
        },
{
    match refreshed {
        Refreshed::Shutdown => RefreshStep::Stop,
        Refreshed::Failed(e) => RefreshStep::Report(ErrorKind::BackgroundLoader, e),
        Refreshed::Loaded(Ok(encoded)) => RefreshStep::WriteBack(encoded),
        Refreshed::Loaded(Err(e)) => RefreshStep::Report(ErrorKind::WriteBack, e),
    }
}

/// A flight and the ticket of its leader. No two flights of a table have the
/// same ticket, whenever they were started.
#[derive(Debug)]
pub struct Ticketed<T> {
    pub ticket: u64,
    pub flight: Arc<T>,
}

/// The loaders that run in this process: at most one per key, the other
/// callers of the key share its result.
#[derive(Debug)]
pub struct Flights<T> {
    pub flights: Vec<(Vec<u8>, Ticketed<T>)>,
    /// The ticket of the next flight.
    pub next: u64,
}

/// What a list holds under a key.
pub open spec fn entry_of<E>(list: Seq<(Vec<u8>, E)>, key: Seq<u8>) -> Option<E>
    decreases list.len(),
{
    if list.len() == 0 {
        None
    } else if list.last().0@ == key {
        Some(list.last().1)
    } else {
        entry_of(list.drop_last(), key)
    }
}

/// Whether no key occurs twice in a list.
pub open spec fn one_per_key<E>(list: Seq<(Vec<u8>, E)>) -> bool {
    forall|i: int, j: int| 0 <= i < j < list.len() ==> (#[trigger] list[i]).0@ != (#[trigger] list[j]).0@
}

proof fn lemma_entry_of<E>(list: Seq<(Vec<u8>, E)>, key: Seq<u8>)
    ensures
        entry_of(list, key) is None <==> forall|i: int| 0 <= i < list.len() ==> #[trigger] list[i].0@ != key,
        entry_of(list, key) matches Some(entry) ==> exists|i: int|
            0 <= i < list.len() && (#[trigger] list[i]).0@ == key && list[i].1 == entry,
    decreases list.len(),
{
    if list.len() > 0 {
        if list.last().0@ == key {
            assert(list[list.len() - 1].0@ == key);
        } else {
            let before = list.drop_last();
            lemma_entry_of(before, key);
            if entry_of(list, key) is None {
                assert forall|i: int| 0 <= i < list.len() implies #[trigger] list[i].0@ != key by {
                    if i < list.len() - 1 {
                        assert(before[i].0@ != key);
                    }
                }
            } else {
                let i = choose|i: int|
                    0 <= i < before.len() && (#[trigger] before[i]).0@ == key && before[i].1
                        == entry_of(before, key)->0;
                assert(list[i] == before[i]);
            }
        }
    }
}

proof fn lemma_entry_at<E>(list: Seq<(Vec<u8>, E)>, i: int)
    requires
        0 <= i < list.len(),
        one_per_key(list),
    ensures
        entry_of(list, list[i].0@) == Some(list[i].1),
    decreases list.len(),
{
    if i < list.len() - 1 {
        assert(list.last().0@ != list[i].0@);
        assert(list.drop_last()[i] == list[i]);
        lemma_entry_at(list.drop_last(), i);
    }
}

/// Where a list holds a key.
fn position<E>(list: &Vec<(Vec<u8>, E)>, key: &[u8]) -> (r: Option<usize>)
    requires
        one_per_key(list@),
    ensures
        match r {
            Some(i) => i < list@.len() && list@[i as int].0@ == key@ && entry_of(list@, key@) == Some(
                list@[i as int].1,
            ),
            None => entry_of(list@, key@) is None,
        },
{
    let mut i: usize = 0;
    while i < list.len()
        invariant
            i <= list@.len(),
            one_per_key(list@),
            forall|k: int| 0 <= k < i ==> #[trigger] list@[k].0@ != key@,
        decreases list@.len() - i,
    {
        if bytes::equal(list[i].0.as_slice(), key) {
            proof {
                lemma_entry_at(list@, i as int);
            }
            return Some(i);
        }
        i += 1;
    }
    proof {
        lemma_entry_of(list@, key@);
    }
    None
}

/// Add a key that a list does not hold.
fn insert<E>(list: &mut Vec<(Vec<u8>, E)>, key: &[u8], entry: E)
    requires
        one_per_key(old(list)@),
        entry_of(old(list)@, key@) is None,
    ensures
        one_per_key(final(list)@),
        final(list)@.len() == old(list)@.len() + 1,
        final(list)@.drop_last() == old(list)@,
        final(list)@.last().1 == entry,
        forall|k: Seq<u8>| #[trigger]
            entry_of(final(list)@, k) == (if k == key@ {
                Some(entry)
            } else {
                entry_of(old(list)@, k)
            }),
{
    let ghost before = list@;
    proof {
        lemma_entry_of(before, key@);
    }
    list.push((bytes::copy(key), entry));
    proof {
        assert(list@.drop_last() =~= before);
        assert forall|i: int, j: int| 0 <= i < j < list@.len() implies (#[trigger] list@[i]).0@ != (
        #[trigger] list@[j]).0@ by {
            assert(list@[i] == before[i]);
            if j < before.len() {
                assert(list@[j] == before[j]);
            }
        }
    }
}

/// Take the entry at a position out of a list.
fn remove_at<E>(list: &mut Vec<(Vec<u8>, E)>, i: usize)
    requires
        i < old(list)@.len(),
        one_per_key(old(list)@),
    ensures
        one_per_key(final(list)@),
        final(list)@ == old(list)@.remove(i as int),
        forall|k: Seq<u8>| #[trigger]
            entry_of(final(list)@, k) == (if k == old(list)@[i as int].0@ {
                None
            } else {
                entry_of(old(list)@, k)
            }),
{
    let ghost before = list@;
    let ghost key = before[i as int].0@;
    let _ = list.remove(i);
    proof {
        let after = list@;
        assert(after =~= before.remove(i as int));
        assert forall|a: int, b: int| 0 <= a < b < after.len() implies (#[trigger] after[a]).0@ != (
        #[trigger] after[b]).0@ by {
            assert(after[a] == before[if a >= i {
                a + 1
            } else {
                a
            }]);
            assert(after[b] == before[if b >= i {
                b + 1
            } else {
                b
            }]);
        }
        assert forall|k: Seq<u8>| #[trigger] entry_of(after, k) == (if k == key {
            None
        } else {
            entry_of(before, k)
        }) by {
            lemma_entry_of(after, k);
            lemma_entry_of(before, k);
            if k != key && entry_of(before, k) is Some {
                let b = choose|b: int|
                    0 <= b < before.len() && (#[trigger] before[b]).0@ == k && before[b].1 == entry_of(before, k)->0;
                let a = if b > i {
                    b - 1
                } else {
                    b
                };
                assert(b != i);
                assert(after[a] == before[b]);
                lemma_entry_at(after, a);
            } else {
                assert forall|a: int| 0 <= a < after.len() implies #[trigger] after[a].0@ != k by {
                    let from = if a >= i {
                        a + 1
                    } else {
                        a
                    };
                    assert(after[a] == before[from]);
                    assert(before[i as int].0@ == key);
                }
            }
        }
    }
}

impl<T> Flights<T> {
    pub open spec fn well_formed(self) -> bool {
        &&& one_per_key(self.flights@)
        &&& forall|i: int| 0 <= i < self.flights@.len() ==> (#[trigger] self.flights@[i]).1.ticket < self.next
    }

    /// The pending flight of `key`, with its ticket.
    pub open spec fn pending(self, key: Seq<u8>) -> Option<Ticketed<T>> {
        entry_of(self.flights@, key)
    }

    pub fn new() -> (r: Flights<T>)
        ensures
            r.well_formed(),
            r.next == 0,
            forall|key: Seq<u8>| r.pending(key) is None,
    {
        Flights { flights: Vec::new(), next: 0 }
    }

    /// The pending flight of `key`.
    pub fn existing(&self, key: &[u8]) -> (r: Option<Arc<T>>)
        requires
            self.well_formed(),
        ensures
            r == (match self.pending(key@) {
                Some(entry) => Some(entry.flight),
                None => None,
            }),
    {
        match position(&self.flights, key) {
            Some(i) => Some(self.flights[i].1.flight.clone()),
            None => None,
        }
    }

    /// Join the flight for `key`, or start one: its leader gets a ticket.
    pub fn claim(&mut self, key: &[u8], fresh: Arc<T>) -> (r: (Arc<T>, Option<u64>))
        requires
            old(self).well_formed(),
            old(self).next < u64::MAX,
        ensures
            final(self).well_formed(),
            match old(self).pending(key@) {
                Some(entry) => r == (entry.flight, None::<u64>) && *final(self) == *old(self),
                None => {
                    &&& r == (fresh, Some(old(self).next))
                    &&& final(self).next == old(self).next + 1
                    &&& forall|k: Seq<u8>| #[trigger]
                        final(self).pending(k) == (if k == key@ {
                            Some(Ticketed { ticket: old(self).next, flight: fresh })
                        } else {
                            old(self).pending(k)
                        })
                },
            },
    {
        match position(&self.flights, key) {
            Some(i) => (self.flights[i].1.flight.clone(), None),
            None => {
                let ghost before = self.flights@;
                let ticket = self.next;
                insert(&mut self.flights, key, Ticketed { ticket, flight: fresh.clone() });
                self.next = ticket + 1;
                proof {
                    assert forall|i: int| 0 <= i < self.flights@.len() implies (#[trigger] self.flights@[i]).1.ticket
                        < self.next by {
                        if i < before.len() {
                            assert(self.flights@.drop_last()[i] == before[i]);
                        }
                    }
                }
                (fresh, Some(ticket))
            },
        }
    }

    /// End the flight of `key`, if it is the one of the ticket. A later flight
    /// of the key goes on.
    pub fn forget(&mut self, key: &[u8], ticket: u64)
        requires
            old(self).well_formed(),
        ensures
            final(self).well_formed(),
            final(self).next == old(self).next,
            forall|k: Seq<u8>| #[trigger]
                final(self).pending(k) == (if k == key@ && (old(self).pending(k) matches Some(entry) && entry.ticket
                    == ticket) {
                    None
                } else {
                    old(self).pending(k)
                }),
    {
        let ghost before = self.flights@;
        if let Some(i) = position(&self.flights, key) {
            if self.flights[i].1.ticket == ticket {
                remove_at(&mut self.flights, i);
                proof {
                    assert forall|a: int| 0 <= a < self.flights@.len() implies (#[trigger] self.flights@[a]).1.ticket
                        < self.next by {
                        assert(self.flights@[a] == before[if a >= i {
                            a + 1
                        } else {
                            a
                        }]);
                    }
                }
            }
        }
    }
}

/// What a win taken in the background leads to.
#[derive(Debug, Clone, Copy, PartialEq, Eq, Structural)]
pub enum RefreshStart {
    /// No refresh of the key is running: this one starts.
    Run,
    /// A refresh of the key is running: the win is handed back.
    HandBack(Token),
}

/// The background refreshes that are running, at most one per key.
pub struct Refreshes {
    pub keys: Vec<(Vec<u8>, ())>,
}

impl Refreshes {
    pub open spec fn well_formed(self) -> bool {
        one_per_key(self.keys@)
    }

    /// The keys that are being refreshed.
    pub open spec fn running(self) -> Set<Seq<u8>> {
        Set::new(|key: Seq<u8>| entry_of(self.keys@, key) is Some)
    }

    pub fn new() -> (r: Refreshes)
        ensures
            r.well_formed(),
            r.running() == Set::<Seq<u8>>::empty(),
    {
        let r = Refreshes { keys: Vec::new() };
        assert(r.running() =~= Set::<Seq<u8>>::empty());
        r
    }

    /// Start a refresh of `key` for the win, unless one is running.
    pub fn start(&mut self, key: &[u8], win: StaleWin) -> (r: RefreshStart)
        requires
            old(self).well_formed(),
        ensures
            final(self).well_formed(),
            r == (if old(self).running().contains(key@) {
                RefreshStart::HandBack(Token::Win(win))
            } else {
                RefreshStart::Run
            }),
            final(self).running() == running_after(old(self).running(), RefreshEvent::Start(key@)),
    {
        let r = match position(&self.keys, key) {
            Some(_) => RefreshStart::HandBack(Token::Win(win)),
            None => {
                insert(&mut self.keys, key, ());
                RefreshStart::Run
            },
        };
        assert(self.running() =~= old(self).running().insert(key@));
        r
    }

    /// Note that the refresh of `key` has ended.
    pub fn end(&mut self, key: &[u8])
        requires
            old(self).well_formed(),
        ensures
            final(self).well_formed(),
            final(self).running() == running_after(old(self).running(), RefreshEvent::End(key@)),
    {
        if let Some(i) = position(&self.keys, key) {
            remove_at(&mut self.keys, i);
        }
        assert(self.running() =~= old(self).running().remove(key@));
    }
}

/// A step in the life of background refreshes.
pub enum RefreshEvent {
    Start(Seq<u8>),
    End(Seq<u8>),
}

/// The keys that are being refreshed after an event.
pub open spec fn running_after(running: Set<Seq<u8>>, event: RefreshEvent) -> Set<Seq<u8>> {
    match event {
        RefreshEvent::Start(key) => running.insert(key),
        RefreshEvent::End(key) => running.remove(key),
    }
}

/// The keys that are being refreshed after events.
pub open spec fn running_after_all(running: Set<Seq<u8>>, events: Seq<RefreshEvent>) -> Set<Seq<u8>>
    decreases events.len(),
{
    if events.len() == 0 {
        running
    } else {
        running_after(running_after_all(running, events.drop_last()), events.last())
    }
}

/// A refresh that was started runs until it ends, whatever happens to other
/// keys: until then every further win for its key is handed back.
pub proof fn lemma_one_refresh_per_key(running: Set<Seq<u8>>, key: Seq<u8>, events: Seq<RefreshEvent>)
    requires
        running.contains(key),
        forall|i: int| 0 <= i < events.len() ==> #[trigger] events[i] != RefreshEvent::End(key),
    ensures
        running_after_all(running, events).contains(key),
        !running_after_all(running, events.push(RefreshEvent::End(key))).contains(key),
    decreases events.len(),
{
    assert(events.push(RefreshEvent::End(key)).drop_last() =~= events);
    if events.len() > 0 {
        assert forall|i: int| 0 <= i < events.drop_last().len() implies #[trigger] events.drop_last()[i]
            != RefreshEvent::End(key) by {
            assert(events.drop_last()[i] == events[i]);
        }
        lemma_one_refresh_per_key(running, key, events.drop_last());
    }
}

} // verus!
