//! One server's connection pool: a stack of idle connections and the slots of
//! the connections in use. The clients hold the connections and wait.

use vstd::prelude::*;
use vstd::string::*;

use super::error::{Error, ErrorView};
use crate::io::{IoError, IoErrorKind, IoErrorView};
use crate::time::{Duration, SystemTime};

verus! {

/// Idle connections, each with the moment it was put back. The one put back
/// last is taken first.
#[derive(Debug)]
pub struct IdleStack<C> {
    pub idle: Vec<(C, SystemTime)>,
}

/// Whether a connection that was put back at `since` is young enough at `now`.
pub open spec fn is_young(since: SystemTime, now: SystemTime, max_age: Duration) -> bool {
    now.nanos - since.nanos <= max_age.nanos
}

fn young(since: SystemTime, now: SystemTime, max_age: Duration) -> (r: bool)
    ensures
        r == is_young(since, now, max_age),
{
    if now.nanos <= since.nanos {
        return true;
    }
    if max_age.nanos > i128::MAX as u128 {
        // Compare without leaving the range of either side.
        if since.nanos >= 0 {
            return true;
        }
        let before: u128 = ((-(since.nanos + 1)) as u128) + 1;
        return if now.nanos < 0 {
            true
        } else {
            now.nanos as u128 <= max_age.nanos - before
        };
    }
    if since.nanos < 0 && now.nanos >= 0 {
        let before: u128 = ((-(since.nanos + 1)) as u128) + 1;
        return now.nanos as u128 + before <= max_age.nanos;
    }
    now.nanos - since.nanos <= max_age.nanos as i128
}

/// How many idle connections, from the top of the stack, are too old.
pub open spec fn too_old<C>(idle: Seq<(C, SystemTime)>, now: SystemTime, max_age: Duration) -> nat
    decreases idle.len(),
{
    if idle.len() == 0 || is_young(idle.last().1, now, max_age) {
        0
    } else {
        1 + too_old(idle.drop_last(), now, max_age)
    }
}

impl<C> IdleStack<C> {
    pub fn new() -> (r: IdleStack<C>)
        ensures
            r.idle@.len() == 0,
    {
        IdleStack { idle: Vec::new() }
    }

    /// Take the idle connection that was put back last. Those that sat idle
    /// longer than `max_age` are discarded on the way: middleboxes and server
    /// restarts kill quiet connections.
    pub fn take(&mut self, now: SystemTime, max_age: Duration) -> (r: Option<C>)
        ensures
            ({
                let skipped = too_old(old(self).idle@, now, max_age) as int;
                let left = old(self).idle@.len() - skipped;
                match r {
                    Some(connection) => 0 < left && connection == old(self).idle@[left - 1].0 && final(self).idle@
                        == old(self).idle@.take(left - 1),
                    None => left == 0 && final(self).idle@.len() == 0,
                }
            }),
    {
        let ghost given = self.idle@;
        proof {
            lemma_too_old(given, now, max_age);
        }
        assert(given.take(given.len() as int) =~= given);
        while self.idle.len() > 0
            invariant
                given == old(self).idle@,
                self.idle@.len() <= given.len(),
                self.idle@ == given.take(self.idle@.len() as int),
                too_old(given, now, max_age) <= given.len(),
                too_old(given, now, max_age) == given.len() - self.idle@.len() + too_old(self.idle@, now, max_age),
            decreases self.idle@.len(),
        {
            let ghost before = self.idle@;
            match self.idle.pop() {
                Some((connection, since)) => {
                    assert(self.idle@ =~= given.take(self.idle@.len() as int));
                    assert(before.drop_last() =~= self.idle@);
                    if young(since, now, max_age) {
                        return Some(connection);
                    }
                },
                None => {},
            }
        }
        None
    }

    /// Put a connection back, unless `max_idle` are idle already: then it is
    /// handed back to be closed.
    pub fn put_back(&mut self, connection: C, now: SystemTime, max_idle: usize) -> (r: Option<C>)
        ensures
            old(self).idle@.len() < max_idle ==> r is None && final(self).idle@ == old(self).idle@.push(
                (connection, now),
            ),
            old(self).idle@.len() >= max_idle ==> r == Some(connection) && *final(self) == *old(self),
    {
        if self.idle.len() < max_idle {
            self.idle.push((connection, now));
            None
        } else {
            Some(connection)
        }
    }
}

proof fn lemma_too_old<C>(idle: Seq<(C, SystemTime)>, now: SystemTime, max_age: Duration)
    ensures
        too_old(idle, now, max_age) <= idle.len(),
    decreases idle.len(),
{
    if idle.len() > 0 {
        lemma_too_old(idle.drop_last(), now, max_age);
    }
}

/// A connection that was just put back is the next one taken, whatever the
/// idle age limit.
pub proof fn lemma_put_back_then_take<C>(idle: Seq<(C, SystemTime)>, connection: C, now: SystemTime, max_age: Duration)
    ensures
        too_old(idle.push((connection, now)), now, max_age) == 0,
        idle.push((connection, now)).last().0 == connection,
{
}

/// What a checkout does about a slot.
#[derive(Debug)]
pub enum SlotStep {
    /// A slot is free: it is taken.
    Take,
    /// Wait for a slot to be released, for no longer than the time given.
    Wait(Option<Duration>),
    /// The wait is over.
    Exhausted(Error),
}

/// The error of a server whose connections are all in use.
pub open spec fn pool_exhausted() -> ErrorView {
    ErrorView::Io(IoErrorView { kind: IoErrorKind::TimedOut, message: "connection pool exhausted"@ })
}

/// What a wait for a slot that ran out of time fails with.
pub fn exhausted() -> (r: Error)
    ensures
        r@ == pool_exhausted(),
{
    Error::Io(IoError::new(IoErrorKind::TimedOut, "connection pool exhausted"))
}

/// The connections of one server that are in use.
#[derive(Debug)]
pub struct Slots {
    pub active: usize,
}

impl Slots {
    pub fn new() -> (r: Slots)
        ensures
            r.active == 0,
    {
        Slots { active: 0 }
    }

    /// Take a slot, or say how long to wait for one: while the server is at
    /// `cap`, the checkout waits until its deadline has passed.
    pub fn acquire(&mut self, cap: Option<usize>, left: Option<Duration>) -> (r: SlotStep)
        requires
            old(self).active < usize::MAX,
        ensures
            match r {
                SlotStep::Take => (cap is None || old(self).active < cap->0) && final(self).active == old(self).active
                    + 1,
                SlotStep::Wait(limit) => cap is Some && old(self).active >= cap->0 && limit == left && (left is Some
                    ==> left->0.nanos > 0) && final(self).active == old(self).active,
                SlotStep::Exhausted(e) => cap is Some && old(self).active >= cap->0 && left is Some && left->0.nanos
                    == 0 && e@ == pool_exhausted() && final(self).active == old(self).active,
            },
    {
        if let Some(cap) = cap {
            if self.active >= cap {
                return match left {
                    Some(left) => {
                        if left.is_zero() {
                            SlotStep::Exhausted(exhausted())
                        } else {
                            SlotStep::Wait(Some(left))
                        }
                    },
                    None => SlotStep::Wait(None),
                };
            }
        }
        self.active = self.active + 1;
        SlotStep::Take
    }

    /// Release a slot.
    pub fn release(&mut self)
        requires
            old(self).active > 0,
        ensures
            final(self).active == old(self).active - 1,
    {
        self.active = self.active - 1;
    }
}

} // verus!
