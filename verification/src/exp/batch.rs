//! Batches: many commands pipelined to one server in one round trip, and the
//! attribution of what came back to the commands that were sent.

use vstd::prelude::*;
use vstd::string::*;

use super::error;
use super::error::{Error, ErrorView};
use super::meta_api;
use super::meta_api::{parse_meta_result, MetaCommandResult, MetaCommandResultView};
use super::meta_command::{MetaCommand, MetaCommandView, MetaResponse, MetaResponseView};
use super::semantics::Operation;
use crate::bytes;
use crate::decimal;
use crate::lists::reversed;
use crate::time::SystemTime;

verus! {

/// The error seen by the request for `key`, given whether the request may
/// have been applied.
pub open spec fn attributed(error: ErrorView, key: Seq<u8>, ambiguous: bool) -> ErrorView {
    if ambiguous {
        ErrorView::Ambiguous { key, source: Box::new(error.for_key(key)) }
    } else {
        error.for_key(key)
    }
}

/// Whether an exchange that failed after `written` bytes, on a connection that
/// came from the pool or not, is repeated on a fresh one.
pub open spec fn redials(pooled: bool, written: usize, error: ErrorView) -> bool {
    pooled && written == 0 && error is Io
}

/// A dead pooled connection is replaced once: only an exchange of which nothing
/// was written is repeated, so nothing is ever applied twice, and the fresh
/// connection gets no second chance.
pub proof fn lemma_redial_happens_once(pooled: bool, written: usize, error: ErrorView)
    ensures
        redials(pooled, written, error) ==> pooled && written == 0 && error.is_retryable(),
        !redials(false, written, error),
{
}

/// A failed exchange: the error, and how many bytes of the request had been
/// written when it struck.
#[derive(Debug)]
pub struct Failure {
    pub error: Error,
    pub written: usize,
}

impl Failure {
    /// A failure that struck before anything was written.
    pub fn before_write(error: Error) -> (r: Failure)
        ensures
            r.error == error,
            r.written == 0,
    {
        Failure { error, written: 0 }
    }

    /// Whether a failed exchange can be repeated on a fresh connection: the
    /// connection came from the pool, so it may have died unnoticed, and
    /// nothing had been written to it.
    pub fn redialable(pooled: bool, written: usize, error: &Error) -> (r: bool)
        ensures
            r == redials(pooled, written, error@),
    {
        pooled && written == 0 && matches!(error, Error::Io(_))
    }

    /// The error to report for the request of `key`. A request that may have
    /// been applied is reported as ambiguous.
    pub fn attribute(&self, key: &[u8], ambiguous: bool) -> (r: Error)
        ensures
            r@ == attributed(self.error@, key@, ambiguous),
    {
        let error = self.error.duplicate().for_key(key);
        if ambiguous {
            Error::Ambiguous { key: bytes::copy(key), source: Box::new(error) }
        } else {
            error
        }
    }
}

/// A failure that is not itself ambiguous is reported as ambiguous exactly
/// when the request may have been applied, and an ambiguous report is never
/// retryable.
pub proof fn lemma_attribution(error: ErrorView, key: Seq<u8>, ambiguous: bool)
    requires
        !error.is_ambiguous(),
    ensures
        attributed(error, key, ambiguous).is_ambiguous() == ambiguous,
        attributed(error, key, ambiguous).is_retryable() == (error.is_retryable() && !ambiguous),
{
}

/// What to do about a failed exchange.
#[derive(Debug)]
pub enum ExchangeStep {
    /// Dial a fresh connection and repeat the exchange.
    Redial,
    /// Report the failure.
    Fail(Failure),
}

/// Decide about an exchange that failed after `written` bytes on a connection
/// that came from the pool or not.
pub fn exchange_step(pooled: bool, written: usize, error: Error) -> (r: ExchangeStep)
    ensures
        match r {
            ExchangeStep::Redial => redials(pooled, written, error@),
            ExchangeStep::Fail(failure) => !redials(pooled, written, error@) && failure.error == error
                && failure.written == written,
        },
{
    if Failure::redialable(pooled, written, &error) {
        ExchangeStep::Redial
    } else {
        ExchangeStep::Fail(Failure { error, written })
    }
}

/// The error of one command whose exchange failed: ambiguous when the command
/// was written in full and has side effects. A partially written one was
/// never parsed by the server.
pub fn attribute_command(failure: &Failure, key: &[u8], command: &MetaCommand, payload: usize) -> (r: Error)
    ensures
        r@ == attributed(failure.error@, key@, failure.written >= payload && command@.has_side_effect()),
{
    failure.attribute(key, failure.written >= payload && command.has_side_effect())
}

/// The payload of a batch: each command with its position as opaque token.
pub open spec fn batch_wire(commands: Seq<MetaCommandView>) -> Seq<u8>
    decreases commands.len(),
{
    if commands.len() == 0 {
        Seq::empty()
    } else {
        batch_wire(commands.drop_last()) + commands.last().wire(Some((commands.len() - 1) as nat))
    }
}

/// The first reason why a command of the list cannot be sent, if there is one.
pub open spec fn first_fault(commands: Seq<MetaCommandView>) -> Option<ErrorView>
    decreases commands.len(),
{
    if commands.len() == 0 {
        None
    } else {
        match first_fault(commands.drop_last()) {
            Some(e) => Some(e),
            None => commands.last().fault(),
        }
    }
}

pub open spec fn command_views(commands: Seq<MetaCommand>) -> Seq<MetaCommandView> {
    Seq::new(commands.len(), |i: int| commands[i]@)
}

/// An encoded batch. Remembers where each command ends in the payload and
/// whether it has side effects, so that a failure can be attributed to each
/// command.
#[derive(Debug)]
pub struct Batch {
    pub payload: Vec<u8>,
    pub ends: Vec<usize>,
    pub effects: Vec<bool>,
}

impl Batch {
    /// Whether this is the batch of `commands`.
    pub open spec fn holds(self, commands: Seq<MetaCommandView>) -> bool {
        &&& self.payload@ == batch_wire(commands)
        &&& self.ends@.len() == commands.len()
        &&& self.effects@.len() == commands.len()
        &&& forall|i: int|
            0 <= i < commands.len() ==> #[trigger] self.ends@[i] == batch_wire(commands.take(i + 1)).len()
        &&& forall|i: int| 0 <= i < commands.len() ==> #[trigger] self.effects@[i] == commands[i].has_side_effect()
    }

    fn empty() -> (r: Batch)
        ensures
            r.holds(Seq::empty()),
    {
        Batch { payload: Vec::new(), ends: Vec::new(), effects: Vec::new() }
    }

    fn push(&mut self, command: &MetaCommand, Ghost(before): Ghost<Seq<MetaCommandView>>) -> (r: Result<(), Error>)
        requires
            old(self).holds(before),
        ensures
            match r {
                Ok(_) => command@.fault() is None && final(self).holds(before.push(command@)),
                Err(e) => command@.fault() == Some(e@),
            },
    {
        let ghost after = before.push(command@);
        let position = self.ends.len();
        match command.encode_with_opaque(position, &mut self.payload) {
            Ok(_) => {},
            Err(e) => {
                return Err(e);
            },
        }
        self.ends.push(self.payload.len());
        self.effects.push(command.has_side_effect());
        proof {
            assert(after.drop_last() =~= before);
            assert(self.payload@ == batch_wire(after));
            assert forall|i: int| 0 <= i < after.len() implies #[trigger] self.ends@[i] == batch_wire(
                after.take(i + 1),
            ).len() by {
                if i < before.len() {
                    assert(after.take(i + 1) =~= before.take(i + 1));
                } else {
                    assert(after.take(i + 1) =~= after);
                }
            }
        }
        Ok(())
    }

    /// Encode the commands, each with its position as opaque token.
    pub fn new(commands: &Vec<MetaCommand>) -> (r: Result<Batch, Error>)
        ensures
            match r {
                Ok(batch) => first_fault(command_views(commands@)) is None && batch.holds(command_views(commands@)),
                Err(e) => first_fault(command_views(commands@)) == Some(e@),
            },
    {
        let ghost views = command_views(commands@);
        let mut batch = Batch::empty();
        let mut i: usize = 0;
        assert(views.take(0) =~= Seq::<MetaCommandView>::empty());
        while i < commands.len()
            invariant
                i <= commands@.len(),
                views == command_views(commands@),
                batch.holds(views.take(i as int)),
                first_fault(views.take(i as int)) is None,
            decreases commands@.len() - i,
        {
            let ghost before = views.take(i as int);
            proof {
                assert(views.take(i + 1) =~= before.push(views[i as int]));
                assert(views.take(i + 1).drop_last() =~= before);
            }
            match batch.push(&commands[i], Ghost(before)) {
                Ok(_) => {},
                Err(e) => {
                    proof {
                        lemma_fault_stays(views, i as nat);
                    }
                    return Err(e);
                },
            }
            i += 1;
        }
        assert(views.take(i as int) =~= views);
        Ok(batch)
    }

    /// How many commands the batch holds.
    pub fn len(&self) -> (r: usize)
        ensures
            r == self.ends@.len(),
    {
        self.ends.len()
    }

    /// The error of one unanswered command of the batch: ambiguous when that
    /// command was written in full and has side effects.
    pub fn attribute(&self, position: usize, key: &[u8], failure: &Failure) -> (r: Error)
        requires
            position < self.ends@.len(),
            self.effects@.len() == self.ends@.len(),
        ensures
            r@ == attributed(
                failure.error@,
                key@,
                failure.written >= self.ends@[position as int] && self.effects@[position as int],
            ),
    {
        failure.attribute(key, failure.written >= self.ends[position] && self.effects[position])
    }
}

pub proof fn lemma_fault_stays(commands: Seq<MetaCommandView>, k: nat)
    requires
        k < commands.len(),
        first_fault(commands.take(k as int)) is None,
        commands[k as int].fault() is Some,
    ensures
        first_fault(commands) == commands[k as int].fault(),
    decreases commands.len(),
{
    if k == commands.len() - 1 {
        assert(commands.drop_last() =~= commands.take(k as int));
    } else {
        assert(commands.drop_last().take(k as int) =~= commands.take(k as int));
        lemma_fault_stays(commands.drop_last(), k);
    }
}

/// A command that was written in full has every earlier command of its batch
/// written in full too.
pub proof fn lemma_ends_ascend(commands: Seq<MetaCommandView>, i: int, j: int)
    requires
        0 <= i <= j <= commands.len(),
    ensures
        batch_wire(commands.take(i)).len() <= batch_wire(commands.take(j)).len(),
    decreases j,
{
    if i < j {
        assert(commands.take(j).drop_last() =~= commands.take(j - 1));
        lemma_ends_ascend(commands, i, j - 1);
    }
}

pub open spec fn response_views(responses: Seq<MetaResponse>) -> Seq<MetaResponseView> {
    Seq::new(responses.len(), |i: int| responses[i]@)
}

/// The flag by which a response echoes the opaque token of a position.
pub open spec fn echo(position: nat) -> Seq<u8> {
    seq!['O' as u8] + decimal::decimal(position)
}

/// Whether a response echoes the opaque token of its own position.
pub open spec fn is_paired(responses: Seq<MetaResponseView>, i: int) -> bool {
    responses[i].flags.contains(echo(i as nat))
}

/// Whether every response echoes the opaque token of its own position.
pub open spec fn in_order(responses: Seq<MetaResponseView>) -> bool {
    forall|i: int| 0 <= i < responses.len() ==> is_paired(responses, i)
}

/// The error of a batch whose responses are not in order.
pub open spec fn out_of_order() -> ErrorView {
    error::protocol("batch response does not echo the opaque token of its command")
}

fn echoes(response: &MetaResponse, position: usize) -> (r: bool)
    ensures
        r == response@.flags.contains(echo(position as nat)),
{
    let mut expected: Vec<u8> = Vec::new();
    expected.push('O' as u8);
    let digits = decimal::format_unsigned(position as u128);
    bytes::append(&mut expected, digits.as_slice());
    assert(expected@ =~= echo(position as nat));
    let mut i: usize = 0;
    while i < response.flags.len()
        invariant
            i <= response.flags@.len(),
            expected@ == echo(position as nat),
            forall|j: int| 0 <= j < i ==> #[trigger] response@.flags[j] != echo(position as nat),
        decreases response.flags@.len() - i,
    {
        assert(response@.flags[i as int] == response.flags@[i as int]@);
        if bytes::equal(response.flags[i].as_slice(), expected.as_slice()) {
            return true;
        }
        i += 1;
    }
    false
}

/// Check the responses of a batch against the opaque tokens stamped on its
/// commands. A response that is out of order or not paired makes every
/// response unusable.
pub fn check_batch(responses: Vec<MetaResponse>, error: Option<Error>) -> (r: (Vec<MetaResponse>, Option<Error>))
    ensures
        in_order(response_views(responses@)) ==> r == (responses, error),
        !in_order(response_views(responses@)) ==> r.0@.len() == 0 && r.1 is Some && r.1->0@ == out_of_order(),
{
    let ghost views = response_views(responses@);
    let mut i: usize = 0;
    while i < responses.len()
        invariant
            i <= responses@.len(),
            views == response_views(responses@),
            forall|j: int| 0 <= j < i ==> is_paired(views, j),
        decreases responses@.len() - i,
    {
        if !echoes(&responses[i], i) {
            assert(views[i as int] == responses@[i as int]@);
            assert(!is_paired(views, i as int));
            return (
                Vec::new(),
                Some(Error::protocol("batch response does not echo the opaque token of its command")),
            );
        }
        i += 1;
    }
    (responses, error)
}

/// What to do after one attempt at a batch.
#[derive(Debug)]
pub enum BatchStep {
    /// Every command was answered: return the connection to the pool.
    Done(Vec<MetaResponse>),
    /// Dial a fresh connection and repeat the batch.
    Redial,
    /// Drop the connection; the commands past the responses failed.
    Fail(Vec<MetaResponse>, Failure),
}

/// The error of an attempt at a batch, if it is one.
pub open spec fn attempt_error(responses: Seq<MetaResponseView>, error: Option<ErrorView>) -> Option<ErrorView> {
    if in_order(responses) {
        error
    } else {
        Some(out_of_order())
    }
}

pub open spec fn error_view(error: Option<Error>) -> Option<ErrorView> {
    match error {
        Some(error) => Some(error@),
        None => None,
    }
}

/// Decide about one attempt at a batch: what was read back, the error that
/// ended it, and how many bytes had been written.
pub fn batch_step(pooled: bool, responses: Vec<MetaResponse>, error: Option<Error>, written: usize) -> (r: BatchStep)
    ensures
        ({
            let failed = attempt_error(response_views(responses@), error_view(error));
            match r {
                BatchStep::Done(kept) => failed is None && kept == responses,
                BatchStep::Redial => failed is Some && redials(pooled, written, failed->0),
                BatchStep::Fail(kept, failure) => failed == Some(failure.error@) && failure.written == written
                    && !redials(pooled, written, failed->0) && (if in_order(response_views(responses@)) {
                    kept == responses
                } else {
                    kept@.len() == 0
                }),
            }
        }),
{
    let (responses, error) = check_batch(responses, error);
    match error {
        None => BatchStep::Done(responses),
        Some(error) => match exchange_step(pooled, written, error) {
            ExchangeStep::Redial => BatchStep::Redial,
            ExchangeStep::Fail(failure) => BatchStep::Fail(responses, failure),
        },
    }
}

/// The server of each command; a command that cannot be sent has none.
pub open spec fn targets(entries: Seq<(Vec<u8>, MetaCommand)>, routes: Seq<usize>) -> Seq<Option<usize>> {
    Seq::new(
        entries.len(),
        |i: int|
            if entries[i].1@.fault() is None {
                Some(routes[i])
            } else {
                None
            },
    )
}

/// The positions in the list whose target is `server`, in ascending order.
pub open spec fn group(targets: Seq<Option<usize>>, server: usize) -> Seq<usize>
    decreases targets.len(),
{
    if targets.len() == 0 {
        Seq::empty()
    } else if targets.last() == Some(server) {
        group(targets.drop_last(), server).push((targets.len() - 1) as usize)
    } else {
        group(targets.drop_last(), server)
    }
}

/// The position of entry `i` in the batch of its server.
pub open spec fn rank(targets: Seq<Option<usize>>, i: int) -> nat {
    group(targets.take(i), targets[i]->0).len()
}

pub open spec fn members(entries: Seq<(Vec<u8>, MetaCommand)>, group: Seq<usize>) -> Seq<MetaCommandView> {
    Seq::new(group.len(), |k: int| entries[group[k] as int].1@)
}

/// Every entry that has a server stands in the group of that server at its
/// rank, and a group holds its entries in ascending order and no others.
pub proof fn lemma_groups_partition(targets: Seq<Option<usize>>, server: usize)
    requires
        targets.len() <= usize::MAX,
    ensures
        forall|k: int|
            #![trigger group(targets, server)[k]]
            0 <= k < group(targets, server).len() ==> group(targets, server)[k] < targets.len()
                && targets[group(targets, server)[k] as int] == Some(server),
        forall|k: int, l: int|
            0 <= k < l < group(targets, server).len() ==> group(targets, server)[k] < group(targets, server)[l],
        forall|i: int|
            0 <= i < targets.len() && #[trigger] targets[i] == Some(server) ==> rank(targets, i) < group(
                targets,
                server,
            ).len() && group(targets, server)[rank(targets, i) as int] == i,
    decreases targets.len(),
{
    if targets.len() > 0 {
        let before = targets.drop_last();
        lemma_groups_partition(before, server);
        assert forall|i: int| 0 <= i < targets.len() && #[trigger] targets[i] == Some(server) implies rank(targets, i)
            < group(targets, server).len() && group(targets, server)[rank(targets, i) as int] == i by {
            assert(targets.take(targets.len() - 1) =~= before);
            if i < before.len() {
                assert(before[i] == Some(server));
                assert(before.take(i) =~= targets.take(i));
                assert(rank(before, i) == rank(targets, i));
            }
        }
    }
}

/// What came back from one server.
#[derive(Debug)]
pub struct Reply {
    pub responses: Vec<MetaResponse>,
    pub failure: Option<Failure>,
}

impl Reply {
    /// The reply of a server that was sent nothing.
    pub fn none() -> (r: Reply)
        ensures
            r.responses@.len() == 0,
            r.failure is None,
    {
        Reply { responses: Vec::new(), failure: None }
    }

    /// What the command at `position` of a batch of `commands` gets out of
    /// the reply: its own response, or the error that kept it from getting one.
    pub open spec fn settles(
        self,
        commands: Seq<MetaCommandView>,
        position: int,
        key: Seq<u8>,
    ) -> Result<MetaCommandResultView, ErrorView> {
        if position < self.responses@.len() {
            meta_api::meta_result(self.responses@[position]@)
        } else {
            match self.failure {
                Some(failure) => Err(
                    attributed(
                        failure.error@,
                        key,
                        failure.written >= batch_wire(commands.take(position + 1)).len()
                            && commands[position].has_side_effect(),
                    ),
                ),
                None => Err(error::protocol("batch response missing")),
            }
        }
    }
}

/// Commands split per server, each group encoded as one batch.
#[derive(Debug)]
pub struct BatchPlan {
    /// The keys and their commands, in input order.
    pub entries: Vec<(Vec<u8>, MetaCommand)>,
    /// The server picked for each entry. That of an entry that cannot be sent
    /// means nothing.
    pub routes: Vec<usize>,
    /// Entry positions per server, in input order. An entry that cannot be
    /// sent is in no group.
    pub groups: Vec<Vec<usize>>,
    /// The batch of each group.
    pub batches: Vec<Batch>,
}

impl BatchPlan {
    pub open spec fn targets(self) -> Seq<Option<usize>> {
        targets(self.entries@, self.routes@)
    }

    /// The commands that go to `server`.
    pub open spec fn commands_for(self, server: usize) -> Seq<MetaCommandView> {
        members(self.entries@, group(self.targets(), server))
    }

    pub open spec fn well_formed(self) -> bool {
        &&& self.entries@.len() == self.routes@.len()
        &&& self.groups@.len() == self.batches@.len()
        &&& forall|i: int|
            0 <= i < self.routes@.len() && self.entries@[i].1@.fault() is None ==> #[trigger] self.routes@[i]
                < self.groups@.len()
        &&& forall|s: int|
            #![trigger self.groups@[s]]
            #![trigger self.batches@[s]]
            0 <= s < self.groups@.len() ==> self.groups@[s]@ == group(self.targets(), s as usize)
                && self.batches@[s].holds(self.commands_for(s as usize))
    }

    /// What entry `i` gets once the servers have replied.
    pub open spec fn outcome(self, replies: Seq<Reply>, i: int) -> Result<MetaCommandResultView, ErrorView> {
        match self.entries@[i].1@.fault() {
            Some(e) => Err(e),
            None => replies[self.routes@[i] as int].settles(
                self.commands_for(self.routes@[i]),
                rank(self.targets(), i) as int,
                self.entries@[i].0@,
            ),
        }
    }

    /// Group the entries per server and encode each group. An entry whose
    /// command cannot be sent is kept out of the groups.
    pub fn new(entries: Vec<(Vec<u8>, MetaCommand)>, routes: Vec<usize>, servers: usize) -> (r: BatchPlan)
        requires
            routes@.len() == entries@.len(),
            forall|i: int|
                0 <= i < routes@.len() && entries@[i].1@.fault() is None ==> #[trigger] routes@[i] < servers,
        ensures
            r.well_formed(),
            r.entries == entries,
            r.routes == routes,
            r.groups@.len() == servers,
    {
        let mut groups: Vec<Vec<usize>> = Vec::new();
        let mut batches: Vec<Batch> = Vec::new();
        let ghost all = targets(entries@, routes@);
        let mut s: usize = 0;
        while s < servers
            invariant
                s <= servers,
                groups@.len() == s,
                batches@.len() == s,
                forall|k: int|
                    #![trigger groups@[k]]
                    #![trigger batches@[k]]
                    0 <= k < s ==> groups@[k]@ == Seq::<usize>::empty() && batches@[k].holds(Seq::empty()),
            decreases servers - s,
        {
            groups.push(Vec::new());
            batches.push(Batch::empty());
            s += 1;
        }
        proof {
            assert(all.take(0) =~= Seq::<Option<usize>>::empty());
            assert forall|k: int| #![trigger batches@[k]] 0 <= k < servers implies batches@[k].holds(
                members(entries@, group(all.take(0), k as usize)),
            ) by {
                assert(members(entries@, group(all.take(0), k as usize)) =~= Seq::<MetaCommandView>::empty());
            }
        }
        let mut i: usize = 0;
        while i < entries.len()
            invariant
                i <= entries@.len(),
                routes@.len() == entries@.len(),
                all == targets(entries@, routes@),
                groups@.len() == servers,
                batches@.len() == servers,
                forall|k: int|
                    0 <= k < routes@.len() && entries@[k].1@.fault() is None ==> #[trigger] routes@[k] < servers,
                forall|k: int|
                    #![trigger groups@[k]]
                    #![trigger batches@[k]]
                    0 <= k < servers ==> groups@[k]@ == group(all.take(i as int), k as usize) && batches@[k].holds(
                        members(entries@, group(all.take(i as int), k as usize)),
                    ),
            decreases entries@.len() - i,
        {
            let ghost so_far = all.take(i as int);
            let ghost groups_before = groups@;
            let ghost batches_before = batches@;
            let target = routes[i];
            proof {
                assert(all.take(i + 1).drop_last() =~= so_far);
                assert(all.take(i + 1).last() == all[i as int]);
            }
            if entries[i].1.validate().is_ok() {
                assert(target < servers);
                let ghost sent = members(entries@, group(so_far, target));
                assert(batches@[target as int].holds(sent));
                let pushed = batches[target].push(&entries[i].1, Ghost(sent));
                assert(pushed is Ok);
                groups[target].push(i);
                proof {
                    assert(group(all.take(i + 1), target) == group(so_far, target).push(i));
                    assert(members(entries@, group(all.take(i + 1), target)) =~= sent.push(entries@[i as int].1@));
                    assert forall|k: int|
                        #![trigger groups@[k]]
                        #![trigger batches@[k]]
                        0 <= k < servers implies groups@[k]@ == group(all.take(i + 1), k as usize)
                        && batches@[k].holds(members(entries@, group(all.take(i + 1), k as usize))) by {
                        if k != target {
                            assert(k as usize != target);
                            assert(groups@[k] == groups_before[k]);
                            assert(batches@[k] == batches_before[k]);
                        }
                    }
                }
            } else {
                assert(all[i as int] is None);
            }
            i += 1;
        }
        assert(all.take(i as int) =~= all);
        BatchPlan { entries, routes, groups, batches }
    }

    /// Pair what the servers replied with the entries, in input order. Every
    /// entry is resolved: with its own error if it could not be sent, with its
    /// own response if there is one, else with the failure of its group.
    #[verifier::spinoff_prover]
    #[verifier::rlimit(60)]
    pub fn collect(self, replies: Vec<Reply>) -> (r: Vec<Result<MetaCommandResult, Error>>)
        requires
            self.well_formed(),
            replies@.len() == self.groups@.len(),
        ensures
            r@.len() == self.entries@.len(),
            forall|i: int|
                0 <= i < r@.len() ==> match #[trigger] r@[i] {
                    Ok(result) => self.outcome(replies@, i) == Ok::<MetaCommandResultView, ErrorView>(result@),
                    Err(e) => self.outcome(replies@, i) == Err::<MetaCommandResultView, ErrorView>(e@),
                },
    {
        let ghost asked = replies@;
        let ghost all = self.targets();
        let mut queues: Vec<Vec<MetaResponse>> = Vec::new();
        let mut failures: Vec<Option<Failure>> = Vec::new();
        let mut positions: Vec<usize> = Vec::new();
        let mut replies = replies;
        let count = replies.len();
        // Take the replies apart from the back, each response list reversed,
        // so that the next response of a server is the last of its queue.
        replies = reversed(replies);
        while replies.len() > 0
            invariant
                count == asked.len(),
                queues@.len() + replies@.len() == count,
                failures@.len() == queues@.len(),
                positions@.len() == queues@.len(),
                replies@ == asked.skip(queues@.len() as int).reverse(),
                forall|s: int|
                    #![trigger queues@[s]]
                    0 <= s < queues@.len() ==> queues@[s]@ == asked[s].responses@.reverse(),
                forall|s: int|
                    #![trigger failures@[s]]
                    #![trigger positions@[s]]
                    0 <= s < queues@.len() ==> failures@[s] == asked[s].failure && positions@[s] == 0,
            decreases replies@.len(),
        {
            let ghost done = queues@.len() as int;
            match replies.pop() {
                Some(reply) => {
                    assert(reply == asked[done]);
                    assert(asked.skip(done).reverse().drop_last() =~= asked.skip(done + 1).reverse());
                    queues.push(reversed(reply.responses));
                    failures.push(reply.failure);
                    positions.push(0);
                },
                None => {},
            }
        }
        let mut outputs: Vec<Result<MetaCommandResult, Error>> = Vec::new();
        let mut i: usize = 0;
        proof {
            assert(all.take(0) =~= Seq::<Option<usize>>::empty());
            assert forall|s: int| #![trigger queues@[s]] 0 <= s < count implies queues@[s]@ == left(
                asked[s].responses@,
                0,
            ) by {
                assert(asked[s].responses@.skip(0) =~= asked[s].responses@);
            }
        }
        while i < self.entries.len()
            invariant
                i <= self.entries@.len(),
                self.well_formed(),
                all == self.targets(),
                asked.len() == self.groups@.len(),
                asked.len() == count,
                queues@.len() == asked.len(),
                failures@.len() == asked.len(),
                positions@.len() == asked.len(),
                forall|s: int|
                    #![trigger queues@[s]]
                    0 <= s < asked.len() ==> queues@[s]@ == left(
                        asked[s].responses@,
                        group(all.take(i as int), s as usize).len() as int,
                    ),
                forall|s: int| #![trigger failures@[s]] 0 <= s < asked.len() ==> failures@[s] == asked[s].failure,
                forall|s: int|
                    #![trigger positions@[s]]
                    0 <= s < asked.len() ==> positions@[s] == group(all.take(i as int), s as usize).len(),
                outputs@.len() == i,
                forall|k: int|
                    0 <= k < i ==> match #[trigger] outputs@[k] {
                        Ok(result) => self.outcome(asked, k) == Ok::<MetaCommandResultView, ErrorView>(result@),
                        Err(e) => self.outcome(asked, k) == Err::<MetaCommandResultView, ErrorView>(e@),
                    },
            decreases self.entries@.len() - i,
        {
            let ghost so_far = all.take(i as int);
            let ghost queues_before = queues@;
            let ghost positions_before = positions@;
            let server = self.routes[i];
            proof {
                assert(all.take(i + 1).drop_last() =~= so_far);
                assert(all.take(i + 1).last() == all[i as int]);
            }
            let output = match self.entries[i].1.validate() {
                Err(e) => Err(e),
                Ok(_) => {
                    assert(all[i as int] == Some(server));
                    let ghost sent = self.commands_for(server);
                    let position = positions[server];
                    proof {
                        assert(position == rank(all, i as int));
                        lemma_groups_partition(all, server);
                        assert(all[i as int] == Some(server));
                        assert(self.groups@[server as int]@ == group(all, server));
                        assert(self.groups@[server as int].len() == group(all, server).len());
                        assert(sent[position as int] == self.entries@[i as int].1@);
                        assert(self.batches@[server as int].holds(sent));
                    }
                    let next = queues[server].pop();
                    positions.set(server, position + 1);
                    proof {
                        lemma_left(asked[server as int].responses@, position as int);
                        assert forall|s: int|
                            #![trigger queues@[s]]
                            #![trigger positions@[s]]
                            0 <= s < asked.len() implies queues@[s]@ == left(
                            asked[s].responses@,
                            group(all.take(i + 1), s as usize).len() as int,
                        ) && positions@[s] == group(all.take(i + 1), s as usize).len() by {
                            if s != server {
                                assert(s as usize != server);
                                assert(queues@[s] == queues_before[s]);
                                assert(positions@[s] == positions_before[s]);
                            }
                        }
                    }
                    match next {
                        Some(response) => parse_meta_result(response),
                        None => match &failures[server] {
                            Some(failure) => Err(
                                self.batches[server].attribute(position, self.entries[i].0.as_slice(), failure),
                            ),
                            None => Err(Error::protocol("batch response missing")),
                        },
                    }
                },
            };
            outputs.push(output);
            i += 1;
        }
        outputs
    }
}

/// What is left of a reply after `used` responses, last one first.
spec fn left(responses: Seq<MetaResponse>, used: int) -> Seq<MetaResponse> {
    if used <= responses.len() {
        responses.skip(used).reverse()
    } else {
        Seq::empty()
    }
}

proof fn lemma_left(responses: Seq<MetaResponse>, used: int)
    requires
        0 <= used,
    ensures
        used < responses.len() ==> left(responses, used).len() > 0 && left(responses, used).last() == responses[used]
            && left(responses, used).drop_last() == left(responses, used + 1),
        used >= responses.len() ==> left(responses, used) == Seq::<MetaResponse>::empty() && left(responses, used + 1)
            == Seq::<MetaResponse>::empty(),
{
    if used < responses.len() {
        assert(left(responses, used).drop_last() =~= left(responses, used + 1));
    } else {
        assert(left(responses, used) =~= Seq::<MetaResponse>::empty());
        assert(left(responses, used + 1) =~= Seq::<MetaResponse>::empty());
    }
}

/// The first reason why an operation of the list cannot be prepared, if there
/// is one.
pub open spec fn first_prepare_fault<O: Operation>(operations: Seq<O>, now: SystemTime) -> Option<ErrorView>
    decreases operations.len(),
{
    if operations.len() == 0 {
        None
    } else {
        match first_prepare_fault(operations.drop_last(), now) {
            Some(e) => Some(e),
            None => match operations.last().command_spec(now) {
                Ok(_) => None,
                Err(e) => Some(e),
            },
        }
    }
}

/// The commands of operations that can all be prepared.
pub open spec fn prepared<O: Operation>(operations: Seq<O>, now: SystemTime) -> Seq<MetaCommandView> {
    Seq::new(operations.len(), |i: int| operations[i].command_spec(now)->Ok_0)
}

/// Why a batch of operations is refused as a whole, if it is: the first
/// operation that cannot be prepared, else the first that cannot be sent.
pub open spec fn plan_fault<O: Operation>(operations: Seq<O>, now: SystemTime) -> Option<ErrorView> {
    match first_prepare_fault(operations, now) {
        Some(e) => Some(e),
        None => first_fault(prepared(operations, now)),
    }
}

/// Whether `plan` is the plan of the operations: one entry per operation, each
/// of which can be sent.
pub open spec fn is_plan_of<O: Operation>(
    plan: BatchPlan,
    operations: Seq<O>,
    servers: usize,
    now: SystemTime,
) -> bool {
    &&& plan.well_formed()
    &&& plan.groups@.len() == servers
    &&& plan.entries@.len() == operations.len()
    &&& forall|i: int|
        #![trigger plan.entries@[i]]
        0 <= i < operations.len() ==> plan.entries@[i].0@ == operations[i].key_spec() && operations[i].command_spec(now)
            == Ok::<MetaCommandView, ErrorView>(plan.entries@[i].1@) && plan.entries@[i].1@.fault() is None
}

proof fn lemma_prepare_fault_stays<O: Operation>(operations: Seq<O>, now: SystemTime, k: nat)
    requires
        k < operations.len(),
        first_prepare_fault(operations.take(k as int), now) is None,
        operations[k as int].command_spec(now) is Err,
    ensures
        first_prepare_fault(operations, now) == Some(operations[k as int].command_spec(now)->Err_0),
    decreases operations.len(),
{
    if k == operations.len() - 1 {
        assert(operations.drop_last() =~= operations.take(k as int));
    } else {
        assert(operations.drop_last().take(k as int) =~= operations.take(k as int));
        lemma_prepare_fault_stays(operations.drop_last(), now, k);
    }
}

/// Whether entries pair the key of each operation with its command.
pub open spec fn are_entries_of<O: Operation>(
    entries: Seq<(Vec<u8>, MetaCommand)>,
    operations: Seq<O>,
    now: SystemTime,
) -> bool {
    &&& entries.len() == operations.len()
    &&& forall|i: int|
        #![trigger entries[i]]
        0 <= i < operations.len() ==> entries[i].0@ == operations[i].key_spec() && operations[i].command_spec(now)
            == Ok::<MetaCommandView, ErrorView>(entries[i].1@)
}

/// Prepare every operation with TTLs resolved as of `now`.
pub fn prepare_all_at<O: Operation>(operations: &Vec<O>, now: SystemTime) -> (r: Result<
    Vec<(Vec<u8>, MetaCommand)>,
    Error,
>)
    ensures
        match r {
            Ok(entries) => first_prepare_fault(operations@, now) is None && are_entries_of(
                entries@,
                operations@,
                now,
            ),
            Err(e) => first_prepare_fault(operations@, now) == Some(e@),
        },
{
    let mut entries: Vec<(Vec<u8>, MetaCommand)> = Vec::new();
    let ghost all = operations@;
    let mut i: usize = 0;
    assert(all.take(0) =~= Seq::<O>::empty());
    while i < operations.len()
        invariant
            i <= operations@.len(),
            all == operations@,
            entries@.len() == i,
            first_prepare_fault(all.take(i as int), now) is None,
            forall|k: int|
                #![trigger entries@[k]]
                0 <= k < i ==> entries@[k].0@ == all[k].key_spec() && all[k].command_spec(now) == Ok::<
                    MetaCommandView,
                    ErrorView,
                >(entries@[k].1@),
        decreases operations@.len() - i,
    {
        assert(all.take(i + 1).drop_last() =~= all.take(i as int));
        match operations[i].prepare_at(now) {
            Ok(command) => entries.push((bytes::copy(operations[i].key()), command)),
            Err(e) => {
                proof {
                    lemma_prepare_fault_stays(all, now, i as nat);
                }
                return Err(e);
            },
        }
        i += 1;
    }
    assert(all.take(i as int) =~= all);
    Ok(entries)
}

/// The plan of prepared operations, given the server of each: refused where one
/// of them cannot be sent.
fn plan_prepared<O: Operation>(
    Ghost(operations): Ghost<Seq<O>>,
    entries: Vec<(Vec<u8>, MetaCommand)>,
    routes: Vec<usize>,
    servers: usize,
    Ghost(now): Ghost<SystemTime>,
) -> (r: Result<BatchPlan, Error>)
    requires
        first_prepare_fault(operations, now) is None,
        are_entries_of(entries@, operations, now),
        routes@.len() == entries@.len(),
        forall|i: int| 0 <= i < routes@.len() ==> #[trigger] routes@[i] < servers,
    ensures
        match r {
            Ok(plan) => plan_fault(operations, now) is None && is_plan_of(plan, operations, servers, now)
                && plan.routes == routes,
            Err(e) => plan_fault(operations, now) == Some(e@),
        },
{
    let ghost commands = prepared(operations, now);
    let mut k: usize = 0;
    assert(commands.take(0) =~= Seq::<MetaCommandView>::empty());
    while k < entries.len()
        invariant
            k <= entries@.len(),
            commands == prepared(operations, now),
            are_entries_of(entries@, operations, now),
            first_prepare_fault(operations, now) is None,
            first_fault(commands.take(k as int)) is None,
            forall|j: int| #![trigger entries@[j]] 0 <= j < k ==> entries@[j].1@.fault() is None,
        decreases entries@.len() - k,
    {
        assert(commands[k as int] == entries@[k as int].1@);
        assert(commands.take(k + 1).drop_last() =~= commands.take(k as int));
        match entries[k].1.validate() {
            Ok(_) => {},
            Err(e) => {
                proof {
                    lemma_fault_stays(commands, k as nat);
                }
                return Err(e);
            },
        }
        k += 1;
    }
    assert(commands.take(k as int) =~= commands);
    Ok(BatchPlan::new(entries, routes, servers))
}

/// Prepare a batch with TTLs resolved as of `now`, given the server of each
/// operation. Validates every operation before anything is written, so a bad
/// one never leaves half a batch on the wire.
pub fn plan_at<O: Operation>(
    operations: &Vec<O>,
    routes: Vec<usize>,
    servers: usize,
    now: SystemTime,
) -> (r: Result<BatchPlan, Error>)
    requires
        routes@.len() == operations@.len(),
        forall|i: int| 0 <= i < routes@.len() ==> #[trigger] routes@[i] < servers,
    ensures
        match r {
            Ok(plan) => plan_fault(operations@, now) is None && is_plan_of(plan, operations@, servers, now)
                && plan.routes == routes,
            Err(e) => plan_fault(operations@, now) == Some(e@),
        },
{
    match prepare_all_at(operations, now) {
        Ok(entries) => plan_prepared::<O>(Ghost(operations@), entries, routes, servers, Ghost(now)),
        Err(e) => Err(e),
    }
}

/// Whether `index` is a server that `index_for` picks for `key`.
pub open spec fn picks<F: Fn(&[u8]) -> usize>(index_for: F, key: Seq<u8>, index: usize) -> bool {
    exists|given: &[u8]| given@ == key && #[trigger] call_ensures(index_for, (given,), index)
}

/// Whether `index_for` can be asked for `key` and picks one of so many servers.
pub open spec fn answers_for<F: Fn(&[u8]) -> usize>(index_for: F, key: Seq<u8>, servers: usize) -> bool {
    &&& forall|given: &[u8]| given@ == key ==> #[trigger] call_requires(index_for, (given,))
    &&& forall|given: &[u8], index: usize|
        given@ == key && #[trigger] call_ensures(index_for, (given,), index) ==> index < servers
}

/// Whether `index_for` can be asked for the keys of these operations once all
/// of them are prepared.
pub open spec fn answers_once_prepared<O: Operation, F: Fn(&[u8]) -> usize>(
    index_for: F,
    operations: Seq<O>,
    servers: usize,
    now: SystemTime,
) -> bool {
    first_prepare_fault(operations, now) is None ==> forall|i: int|
        0 <= i < operations.len() ==> answers_for(index_for, (#[trigger] operations[i]).key_spec(), servers)
}

/// Prepare and group a batch, with TTLs resolved now and each operation on the
/// server that `index_for` picks for its key. `index_for` is asked only once
/// every operation is prepared: it need not answer for a batch that holds an
/// operation that cannot be.
pub fn plan<O: Operation, F: Fn(&[u8]) -> usize>(
    operations: &Vec<O>,
    servers: usize,
    index_for: F,
) -> (r: Result<BatchPlan, Error>)
    requires
        forall|now: SystemTime| #[trigger] answers_once_prepared(index_for, operations@, servers, now),
    ensures
        exists|now: SystemTime|
            match r {
                Ok(plan) => #[trigger] plan_fault(operations@, now) is None && is_plan_of(
                    plan,
                    operations@,
                    servers,
                    now,
                ),
                Err(e) => plan_fault(operations@, now) == Some(e@),
            },
        match r {
            Ok(plan) => forall|i: int|
                0 <= i < operations@.len() ==> picks(index_for, operations@[i].key_spec(), #[trigger] plan.routes@[i]),
            Err(_) => true,
        },
{
    let now = SystemTime::now();
    assert(answers_once_prepared(index_for, operations@, servers, now));
    let entries = match prepare_all_at(operations, now) {
        Ok(entries) => entries,
        Err(e) => {
            assert(plan_fault(operations@, now) == Some(e@));
            return Err(e);
        },
    };
    let mut routes: Vec<usize> = Vec::new();
    let mut i: usize = 0;
    while i < operations.len()
        invariant
            i <= operations@.len(),
            routes@.len() == i,
            forall|k: int|
                0 <= k < operations@.len() ==> answers_for(
                    index_for,
                    (#[trigger] operations@[k]).key_spec(),
                    servers,
                ),
            forall|k: int| 0 <= k < i ==> #[trigger] routes@[k] < servers,
            forall|k: int|
                0 <= k < i ==> picks(index_for, operations@[k].key_spec(), #[trigger] routes@[k]),
        decreases operations@.len() - i,
    {
        let key = operations[i].key();
        assert(answers_for(index_for, operations@[i as int].key_spec(), servers));
        let index = index_for(key);
        assert(picks(index_for, operations@[i as int].key_spec(), index));
        routes.push(index);
        i += 1;
    }
    let r = plan_prepared::<O>(Ghost(operations@), entries, routes, servers, Ghost(now));
    assert(match r {
        Ok(plan) => plan_fault(operations@, now) is None && is_plan_of(plan, operations@, servers, now),
        Err(e) => plan_fault(operations@, now) == Some(e@),
    });
    r
}

/// Group keys and their commands, each on the server that `index_for` picks
/// for its key. `index_for` is not asked for an entry that cannot be sent.
pub fn plan_exchange<F: Fn(&[u8]) -> usize>(
    entries: Vec<(Vec<u8>, MetaCommand)>,
    servers: usize,
    index_for: F,
) -> (r: BatchPlan)
    requires
        forall|i: int|
            0 <= i < entries@.len() && (#[trigger] entries@[i]).1@.fault() is None ==> answers_for(
                index_for,
                entries@[i].0@,
                servers,
            ),
    ensures
        r.well_formed(),
        r.entries == entries,
        r.groups@.len() == servers,
        forall|i: int|
            0 <= i < entries@.len() && entries@[i].1@.fault() is None ==> picks(
                index_for,
                entries@[i].0@,
                #[trigger] r.routes@[i],
            ),
{
    let mut routes: Vec<usize> = Vec::new();
    while routes.len() < entries.len()
        invariant
            routes@.len() <= entries@.len(),
            forall|i: int|
                0 <= i < entries@.len() && (#[trigger] entries@[i]).1@.fault() is None ==> answers_for(
                    index_for,
                    entries@[i].0@,
                    servers,
                ),
            forall|k: int|
                0 <= k < routes@.len() && entries@[k].1@.fault() is None ==> #[trigger] routes@[k] < servers && picks(
                    index_for,
                    entries@[k].0@,
                    routes@[k],
                ),
        decreases entries@.len() - routes@.len(),
    {
        let entry = &entries[routes.len()];
        assert(entry == entries@[routes@.len() as int]);
        let route: usize = if entry.1.validate().is_ok() {
            let index = index_for(entry.0.as_slice());
            assert(picks(index_for, entry.0@, index));
            index
        } else {
            0
        };
        routes.push(route);
    }
    BatchPlan::new(entries, routes, servers)
}

/// A failure stays with its server: what the other servers reply does not
/// touch the entries of this one, and what was answered before the failure
/// keeps its result.
pub proof fn lemma_failures_stay_with_their_server(
    plan: BatchPlan,
    replies: Seq<Reply>,
    others: Seq<Reply>,
    i: int,
)
    requires
        plan.well_formed(),
        0 <= i < plan.entries@.len(),
        replies[plan.routes@[i] as int] == others[plan.routes@[i] as int],
    ensures
        plan.outcome(replies, i) == plan.outcome(others, i),
        plan.entries@[i].1@.fault() is None && rank(plan.targets(), i) < replies[plan.routes@[i] as int].responses@.len()
            ==> plan.outcome(replies, i) == meta_api::meta_result(
            replies[plan.routes@[i] as int].responses@[rank(plan.targets(), i) as int]@,
        ),
{
}

/// Read the results of a batch as the answers to its operations.
pub fn parse_all<O: Operation>(
    operations: &Vec<O>,
    results: Vec<Result<MetaCommandResult, Error>>,
) -> (r: Vec<Result<O::Output, Error>>)
    requires
        results@.len() == operations@.len(),
    ensures
        r@.len() == operations@.len(),
        forall|i: int|
            0 <= i < r@.len() ==> match (results@[i], #[trigger] r@[i]) {
                (Ok(wire), Ok(output)) => operations@[i].answer_fault(wire@) is None && operations@[i].answers(
                    wire@,
                    output,
                ),
                (Ok(wire), Err(e)) => operations@[i].answer_fault(wire@) == Some(e@),
                (Err(e), Err(kept)) => kept == e,
                (Err(_), Ok(_)) => false,
            },
{
    let ghost given = results@;
    let mut rest = reversed(results);
    let mut outputs: Vec<Result<O::Output, Error>> = Vec::new();
    let mut i: usize = 0;
    assert(given.skip(0) =~= given);
    while i < operations.len()
        invariant
            i <= operations@.len(),
            given.len() == operations@.len(),
            rest@ == given.skip(i as int).reverse(),
            outputs@.len() == i,
            forall|k: int|
                0 <= k < i ==> match (given[k], #[trigger] outputs@[k]) {
                    (Ok(wire), Ok(output)) => operations@[k].answer_fault(wire@) is None && operations@[k].answers(
                        wire@,
                        output,
                    ),
                    (Ok(wire), Err(e)) => operations@[k].answer_fault(wire@) == Some(e@),
                    (Err(e), Err(kept)) => kept == e,
                    (Err(_), Ok(_)) => false,
                },
        decreases operations@.len() - i,
    {
        assert(given.skip(i as int).reverse().drop_last() =~= given.skip(i + 1).reverse());
        assert(given.skip(i as int).reverse().last() == given[i as int]);
        match rest.pop() {
            Some(result) => {
                let output = match result {
                    Ok(wire) => operations[i].parse(wire),
                    Err(e) => Err(e),
                };
                outputs.push(output);
            },
            None => {},
        }
        i += 1;
    }
    outputs
}

} // verus!
