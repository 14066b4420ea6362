//! Transport-independent semantic core: turns operations into wire commands
//! and pairs wire results back with their operations to produce typed results.
//! Both clients (blocking and tokio) are thin I/O loops around these functions.

use vstd::prelude::*;
use vstd::string::*;

use super::error;
use super::error::{Error, ErrorView};
use super::meta_api;
use super::meta_api::{
    build_arithmetic, build_delete, build_get, build_set, ArithmeticOptions, DeleteOptions, GetOptions,
    MetaCommandResult, MetaCommandResultView, SetMode, SetOptions,
};
use super::meta_command::{MetaCommand, MetaCommandView, ReturnCode};
use super::operation::{Arithmetic, Delete, Get, Op, Store};
use super::result::{
    ArithmeticResult, ArithmeticResultView, GetResult, GetResultView, GetStatus, ItemMeta, LeaseState,
    MutationResult, MutationResultView, MutationStatus, OpResult, ValueState,
};
use super::ttl::Ttl;
use crate::bytes;
use crate::decimal;
use crate::time::SystemTime;

verus! {

/// Keeps [`Operation`] to the operations of this crate.
pub trait Sealed {

}

impl Sealed for Get {

}

impl Sealed for Store {

}

impl Sealed for Delete {

}

impl Sealed for Arithmetic {

}

impl Sealed for Op {

}

/// An executable semantic-layer operation, implemented by [`Get`], [`Store`],
/// [`Delete`], [`Arithmetic`] and [`Op`]. Sealed: not implementable outside
/// this crate.
pub trait Operation: Sealed {
    /// The typed result this operation produces.
    type Output;

    /// The key that the operation is for.
    spec fn key_spec(&self) -> Seq<u8>;

    /// The wire command of the operation when it is prepared at `now`.
    spec fn command_spec(&self, now: SystemTime) -> Result<MetaCommandView, ErrorView>;

    /// Why a wire result is no answer to the operation, if it is none.
    spec fn answer_fault(&self, wire: MetaCommandResultView) -> Option<ErrorView>;

    /// Whether `output` is what a wire result answers to the operation.
    spec fn answers(&self, wire: MetaCommandResultView, output: Self::Output) -> bool;

    fn key(&self) -> (r: &[u8])
        ensures
            r@ == self.key_spec(),
    ;

    /// The wire command, with TTLs resolved as of `now`.
    fn prepare_at(&self, now: SystemTime) -> (r: Result<MetaCommand, Error>)
        ensures
            match r {
                Ok(command) => self.command_spec(now) == Ok::<MetaCommandView, ErrorView>(command@),
                Err(e) => self.command_spec(now) == Err::<MetaCommandView, ErrorView>(e@),
            },
    ;

    fn parse(&self, wire: MetaCommandResult) -> (r: Result<Self::Output, Error>)
        ensures
            match r {
                Ok(output) => self.answer_fault(wire@) is None && self.answers(wire@, output),
                Err(e) => self.answer_fault(wire@) == Some(e@),
            },
    ;
}

/// The wire command of an operation, with TTLs resolved now.
pub fn prepare<O: Operation>(operation: &O) -> (r: Result<MetaCommand, Error>)
    ensures
        exists|now: SystemTime|
            match r {
                Ok(command) => #[trigger] operation.command_spec(now) == Ok::<MetaCommandView, ErrorView>(command@),
                Err(e) => operation.command_spec(now) == Err::<MetaCommandView, ErrorView>(e@),
            },
{
    let now = SystemTime::now();
    let r = operation.prepare_at(now);
    assert(match r {
        Ok(command) => operation.command_spec(now) == Ok::<MetaCommandView, ErrorView>(command@),
        Err(e) => operation.command_spec(now) == Err::<MetaCommandView, ErrorView>(e@),
    });
    r
}

/// An optional TTL on the wire.
pub open spec fn wire_opt(ttl: Option<Ttl>, now: SystemTime) -> Result<Option<u32>, ErrorView> {
    match ttl {
        None => Ok(None),
        Some(ttl) => match ttl.wire_spec(now) {
            Ok(n) => Ok(Some(n)),
            Err(e) => Err(e),
        },
    }
}

/// Encode an optional TTL for the wire, as of `now`.
pub fn wire_ttl(ttl: Option<Ttl>, now: SystemTime) -> (r: Result<Option<u32>, Error>)
    ensures
        match r {
            Ok(n) => wire_opt(ttl, now) == Ok::<Option<u32>, ErrorView>(n),
            Err(e) => wire_opt(ttl, now) == Err::<Option<u32>, ErrorView>(e@),
        },
{
    match ttl {
        None => Ok(None),
        Some(ttl) => match ttl.wire_at(now) {
            Ok(n) => Ok(Some(n)),
            Err(e) => Err(e),
        },
    }
}

/// The `mg` command of a read.
pub open spec fn get_prepared(operation: Get, now: SystemTime) -> Result<MetaCommandView, ErrorView> {
    if operation.lease_ttl == Some(0u32) {
        Err(error::usage("lease_ttl must be >= 1"))
    } else if operation.refresh_before == Some(0u32) {
        Err(error::usage("refresh_before must be >= 1"))
    } else if operation.refresh_before is Some && operation.lease_ttl is None {
        Err(error::usage("refresh_before requires lease_ttl"))
    } else if operation.unless_cas is Some && !operation.value {
        Err(error::usage("unless_cas requires a value read"))
    } else {
        match wire_opt(operation.touch, now) {
            Err(e) => Err(e),
            Ok(touch) => meta_api::get_command(
                operation.key@,
                GetOptions {
                    value: operation.value,
                    return_client_flags: true,
                    return_cas: operation.meta.cas || operation.lease_ttl is Some || operation.unless_cas is Some,
                    return_ttl: operation.meta.ttl,
                    return_size: operation.meta.size,
                    return_last_access: operation.meta.last_access,
                    return_hit_before: operation.meta.hit_before,
                    no_lru_bump: operation.no_lru_bump,
                    touch,
                    vivify_ttl: operation.lease_ttl,
                    recache_ttl: operation.refresh_before,
                    unless_cas: operation.unless_cas,
                    ..GetOptions::plain()
                },
            ),
        }
    }
}

fn is_zero(value: Option<u32>) -> (r: bool)
    ensures
        r == (value == Some(0u32)),
{
    match value {
        Some(n) => n == 0,
        None => false,
    }
}

pub fn prepare_get_at(operation: &Get, now: SystemTime) -> (r: Result<MetaCommand, Error>)
    ensures
        match r {
            Ok(command) => get_prepared(*operation, now) == Ok::<MetaCommandView, ErrorView>(command@),
            Err(e) => get_prepared(*operation, now) == Err::<MetaCommandView, ErrorView>(e@),
        },
{
    if is_zero(operation.lease_ttl) {
        return Err(Error::Usage("lease_ttl must be >= 1"));
    }
    if is_zero(operation.refresh_before) {
        return Err(Error::Usage("refresh_before must be >= 1"));
    }
    if operation.refresh_before.is_some() && operation.lease_ttl.is_none() {
        return Err(Error::Usage("refresh_before requires lease_ttl"));
    }
    if operation.unless_cas.is_some() && !operation.value {
        return Err(Error::Usage("unless_cas requires a value read"));
    }
    // Lease and conditional reads need the CAS to act on the result.
    let return_cas = operation.meta.cas || operation.lease_ttl.is_some() || operation.unless_cas.is_some();
    let touch = match wire_ttl(operation.touch, now) {
        Ok(touch) => touch,
        Err(e) => {
            return Err(e);
        },
    };
    let options = GetOptions {
        value: operation.value,
        return_client_flags: true,
        return_cas,
        return_ttl: operation.meta.ttl,
        return_size: operation.meta.size,
        return_last_access: operation.meta.last_access,
        return_hit_before: operation.meta.hit_before,
        no_lru_bump: operation.no_lru_bump,
        touch,
        vivify_ttl: operation.lease_ttl,
        recache_ttl: operation.refresh_before,
        unless_cas: operation.unless_cas,
        ..GetOptions::default()
    };
    build_get(operation.key.as_slice(), &options)
}

/// Client flags as they go on the wire: an omitted `F` stores flags 0.
pub open spec fn wire_flags(flags: u32) -> Option<u32> {
    if flags != 0 {
        Some(flags)
    } else {
        None
    }
}

/// The `ms` command of a store.
pub open spec fn set_prepared(operation: Store, now: SystemTime) -> Result<MetaCommandView, ErrorView> {
    if operation.vivify_ttl == Some(0u32) {
        Err(error::usage("vivify_ttl must be >= 1"))
    } else {
        match wire_opt(operation.ttl, now) {
            Err(e) => Err(e),
            Ok(ttl) => meta_api::set_command(
                operation.key@,
                operation.value@,
                SetOptions {
                    client_flags: wire_flags(operation.client_flags),
                    ttl,
                    mode: operation.mode,
                    compare_cas: operation.compare_cas,
                    new_cas: operation.force_cas,
                    vivify_ttl: operation.vivify_ttl,
                    return_cas: operation.return_cas,
                    ..SetOptions::plain()
                },
            ),
        }
    }
}

pub fn prepare_set_at(operation: &Store, now: SystemTime) -> (r: Result<MetaCommand, Error>)
    ensures
        match r {
            Ok(command) => set_prepared(*operation, now) == Ok::<MetaCommandView, ErrorView>(command@),
            Err(e) => set_prepared(*operation, now) == Err::<MetaCommandView, ErrorView>(e@),
        },
{
    if is_zero(operation.vivify_ttl) {
        return Err(Error::Usage("vivify_ttl must be >= 1"));
    }
    let ttl = match wire_ttl(operation.ttl, now) {
        Ok(ttl) => ttl,
        Err(e) => {
            return Err(e);
        },
    };
    let options = SetOptions {
        // An omitted F stores flags 0, so only non-zero flags go on the wire.
        client_flags: if operation.client_flags != 0 {
            Some(operation.client_flags)
        } else {
            None
        },
        ttl,
        mode: operation.mode,
        compare_cas: operation.compare_cas,
        new_cas: operation.force_cas,
        vivify_ttl: operation.vivify_ttl,
        return_cas: operation.return_cas,
        ..SetOptions::default()
    };
    build_set(operation.key.as_slice(), operation.value.as_slice(), &options)
}

/// The `md` command of a delete.
pub open spec fn delete_prepared(operation: Delete, now: SystemTime) -> Result<MetaCommandView, ErrorView> {
    if operation.stale_for is Some && !operation.invalidate {
        Err(error::usage("stale_for is only valid for invalidate"))
    } else {
        match wire_opt(operation.stale_for, now) {
            Err(e) => Err(e),
            Ok(ttl) => meta_api::delete_command(
                operation.key@,
                DeleteOptions {
                    compare_cas: operation.compare_cas,
                    invalidate: operation.invalidate,
                    ttl,
                    ..DeleteOptions::plain()
                },
            ),
        }
    }
}

pub fn prepare_delete_at(operation: &Delete, now: SystemTime) -> (r: Result<MetaCommand, Error>)
    ensures
        match r {
            Ok(command) => delete_prepared(*operation, now) == Ok::<MetaCommandView, ErrorView>(command@),
            Err(e) => delete_prepared(*operation, now) == Err::<MetaCommandView, ErrorView>(e@),
        },
{
    if operation.stale_for.is_some() && !operation.invalidate {
        return Err(Error::Usage("stale_for is only valid for invalidate"));
    }
    let ttl = match wire_ttl(operation.stale_for, now) {
        Ok(ttl) => ttl,
        Err(e) => {
            return Err(e);
        },
    };
    let options = DeleteOptions {
        compare_cas: operation.compare_cas,
        invalidate: operation.invalidate,
        ttl,
        ..DeleteOptions::default()
    };
    build_delete(operation.key.as_slice(), &options)
}

/// The `ma` command of a counter operation.
pub open spec fn arithmetic_prepared(operation: Arithmetic, now: SystemTime) -> Result<MetaCommandView, ErrorView> {
    if operation.initial_ttl == Some(0u32) {
        Err(error::usage("initial_ttl must be >= 1"))
    } else if operation.initial_ttl is Some && operation.initial is None {
        Err(error::usage("initial_ttl requires initial"))
    } else {
        match wire_opt(operation.ttl, now) {
            Err(e) => Err(e),
            Ok(ttl) => meta_api::arithmetic_command(
                operation.key@,
                ArithmeticOptions {
                    delta: Some(operation.delta),
                    mode: operation.mode,
                    initial: operation.initial,
                    initial_ttl: operation.initial_ttl,
                    ttl,
                    compare_cas: operation.compare_cas,
                    new_cas: operation.force_cas,
                    return_value: true,
                    return_ttl: operation.return_ttl,
                    return_cas: operation.return_cas,
                    ..ArithmeticOptions::plain()
                },
            ),
        }
    }
}

pub fn prepare_arithmetic_at(operation: &Arithmetic, now: SystemTime) -> (r: Result<MetaCommand, Error>)
    ensures
        match r {
            Ok(command) => arithmetic_prepared(*operation, now) == Ok::<MetaCommandView, ErrorView>(command@),
            Err(e) => arithmetic_prepared(*operation, now) == Err::<MetaCommandView, ErrorView>(e@),
        },
{
    if is_zero(operation.initial_ttl) {
        return Err(Error::Usage("initial_ttl must be >= 1"));
    }
    if operation.initial_ttl.is_some() && operation.initial.is_none() {
        return Err(Error::Usage("initial_ttl requires initial"));
    }
    let ttl = match wire_ttl(operation.ttl, now) {
        Ok(ttl) => ttl,
        Err(e) => {
            return Err(e);
        },
    };
    let options = ArithmeticOptions {
        delta: Some(operation.delta),
        mode: operation.mode,
        initial: operation.initial,
        initial_ttl: operation.initial_ttl,
        ttl,
        compare_cas: operation.compare_cas,
        new_cas: operation.force_cas,
        return_value: true,
        return_ttl: operation.return_ttl,
        return_cas: operation.return_cas,
        ..ArithmeticOptions::default()
    };
    build_arithmetic(operation.key.as_slice(), &options)
}

/// The wire command of a read, with its TTL resolved now.
pub fn prepare_get(operation: &Get) -> (r: Result<MetaCommand, Error>)
    ensures
        exists|now: SystemTime|
            match r {
                Ok(command) => #[trigger] get_prepared(*operation, now) == Ok::<MetaCommandView, ErrorView>(command@),
                Err(e) => get_prepared(*operation, now) == Err::<MetaCommandView, ErrorView>(e@),
            },
{
    prepare(operation)
}

/// The wire command of a store, with its TTL resolved now.
pub fn prepare_set(operation: &Store) -> (r: Result<MetaCommand, Error>)
    ensures
        exists|now: SystemTime|
            match r {
                Ok(command) => #[trigger] set_prepared(*operation, now) == Ok::<MetaCommandView, ErrorView>(command@),
                Err(e) => set_prepared(*operation, now) == Err::<MetaCommandView, ErrorView>(e@),
            },
{
    prepare(operation)
}

/// The wire command of a delete, with its TTL resolved now.
pub fn prepare_delete(operation: &Delete) -> (r: Result<MetaCommand, Error>)
    ensures
        exists|now: SystemTime|
            match r {
                Ok(command) => #[trigger] delete_prepared(*operation, now) == Ok::<MetaCommandView, ErrorView>(
                    command@,
                ),
                Err(e) => delete_prepared(*operation, now) == Err::<MetaCommandView, ErrorView>(e@),
            },
{
    prepare(operation)
}

/// The wire command of a counter operation, with its TTL resolved now.
pub fn prepare_arithmetic(operation: &Arithmetic) -> (r: Result<MetaCommand, Error>)
    ensures
        exists|now: SystemTime|
            match r {
                Ok(command) => #[trigger] arithmetic_prepared(*operation, now) == Ok::<MetaCommandView, ErrorView>(
                    command@,
                ),
                Err(e) => arithmetic_prepared(*operation, now) == Err::<MetaCommandView, ErrorView>(e@),
            },
{
    prepare(operation)
}

/// What a return code says of a mutation.
pub open spec fn mutation_outcome(is_add: bool, rc: ReturnCode) -> Result<MutationStatus, ErrorView> {
    match rc {
        ReturnCode::Hd | ReturnCode::Va => Ok(MutationStatus::Applied),
        ReturnCode::Ex => Ok(MutationStatus::CasMismatch),
        ReturnCode::Nf => Ok(MutationStatus::NotFound),
        ReturnCode::Ns => Ok(
            if is_add {
                MutationStatus::AlreadyExists
            } else {
                MutationStatus::NotFound
            },
        ),
        _ => Err(error::protocol("unexpected mutation response")),
    }
}

fn mutation_status(is_add: bool, rc: ReturnCode) -> (r: Result<MutationStatus, Error>)
    ensures
        match r {
            Ok(status) => mutation_outcome(is_add, rc) == Ok::<MutationStatus, ErrorView>(status),
            Err(e) => mutation_outcome(is_add, rc) == Err::<MutationStatus, ErrorView>(e@),
        },
{
    match rc {
        ReturnCode::Hd | ReturnCode::Va => Ok(MutationStatus::Applied),
        ReturnCode::Ex => Ok(MutationStatus::CasMismatch),
        ReturnCode::Nf => Ok(MutationStatus::NotFound),
        ReturnCode::Ns => {
            if is_add {
                Ok(MutationStatus::AlreadyExists)
            } else {
                Ok(MutationStatus::NotFound)
            }
        },
        _ => Err(Error::protocol("unexpected mutation response")),
    }
}

/// The lease state that a wire result reports.
pub open spec fn lease_state(wire: MetaCommandResultView) -> LeaseState {
    if wire.won {
        LeaseState::Granted
    } else if wire.busy {
        LeaseState::Busy
    } else {
        LeaseState::Absent
    }
}

/// Whether an item is a lease placeholder: an empty value that is not stale,
/// with a lease flag. Nobody has stored real data yet.
pub open spec fn is_placeholder(wire: MetaCommandResultView) -> bool {
    !wire.stale && wire.value == Some(Seq::<u8>::empty()) && lease_state(wire) != LeaseState::Absent
}

/// What a wire result answers to a read.
pub open spec fn get_answer(operation: Get, wire: MetaCommandResultView) -> Result<GetResultView, ErrorView> {
    if wire.rc == ReturnCode::En {
        Ok(
            GetResultView {
                key: operation.key@,
                status: GetStatus::Miss,
                value: None,
                client_flags: None,
                item: ItemMeta::unknown(),
                value_state: ValueState::Missing,
                lease_state: LeaseState::Absent,
            },
        )
    } else if wire.rc != ReturnCode::Va && wire.rc != ReturnCode::Hd {
        Err(error::protocol("unexpected get response"))
    } else {
        let unchanged = wire.rc == ReturnCode::Hd && operation.unless_cas is Some;
        Ok(
            GetResultView {
                key: operation.key@,
                status: if is_placeholder(wire) {
                    if operation.lease_ttl is Some {
                        GetStatus::Miss
                    } else {
                        GetStatus::Pending
                    }
                } else if unchanged {
                    GetStatus::Unchanged
                } else {
                    GetStatus::Hit
                },
                value: if is_placeholder(wire) || wire.rc == ReturnCode::Hd {
                    None
                } else {
                    wire.value
                },
                client_flags: wire.client_flags,
                item: ItemMeta {
                    cas: wire.cas,
                    ttl: wire.ttl,
                    size: wire.size,
                    last_access: wire.last_access,
                    hit_before: wire.hit_before,
                },
                value_state: if wire.stale {
                    ValueState::Stale
                } else if is_placeholder(wire) {
                    ValueState::Missing
                } else {
                    ValueState::Fresh
                },
                lease_state: lease_state(wire),
            },
        )
    }
}

/// The states of a read that fit together: only a hit has a value, a miss and a
/// placeholder have none, a value that was not sent again was guarded by its
/// CAS, and what is not missing is fresh or stale.
pub proof fn lemma_states_fit_together(operation: Get, wire: MetaCommandResultView)
    requires
        get_answer(operation, wire) is Ok,
    ensures
        ({
            let result = get_answer(operation, wire)->Ok_0;
            &&& result.value is Some ==> result.status == GetStatus::Hit
            &&& (result.status == GetStatus::Miss || result.status == GetStatus::Pending) == (result.value_state
                == ValueState::Missing)
            &&& result.status == GetStatus::Pending ==> result.lease_state != LeaseState::Absent
                && operation.lease_ttl is None
            &&& result.status == GetStatus::Unchanged ==> operation.unless_cas is Some && result.value is None
            &&& wire.rc == ReturnCode::En ==> result.status == GetStatus::Miss && result.lease_state
                == LeaseState::Absent
        }),
{
}

pub fn parse_get(operation: &Get, wire: MetaCommandResult) -> (r: Result<GetResult, Error>)
    ensures
        match r {
            Ok(result) => get_answer(*operation, wire@) == Ok::<GetResultView, ErrorView>(result@),
            Err(e) => get_answer(*operation, wire@) == Err::<GetResultView, ErrorView>(e@),
        },
{
    if wire.rc == ReturnCode::En {
        return Ok(
            GetResult {
                key: bytes::copy(operation.key.as_slice()),
                status: GetStatus::Miss,
                value: None,
                client_flags: None,
                item: ItemMeta::default(),
                value_state: ValueState::Missing,
                lease_state: LeaseState::Absent,
            },
        );
    }
    if wire.rc != ReturnCode::Va && wire.rc != ReturnCode::Hd {
        return Err(Error::protocol("unexpected get response"));
    }
    let item = ItemMeta {
        cas: wire.cas,
        ttl: wire.ttl,
        size: wire.size,
        last_access: wire.last_access,
        hit_before: wire.hit_before,
    };
    let lease_state = if wire.won {
        LeaseState::Granted
    } else if wire.busy {
        LeaseState::Busy
    } else {
        LeaseState::Absent
    };
    let empty = match &wire.value {
        Some(value) => value.len() == 0,
        None => false,
    };
    assert(empty == (wire@.value == Some(Seq::<u8>::empty()))) by {
        if let Some(value) = wire.value {
            assert(value@.len() == 0 ==> value@ =~= Seq::<u8>::empty());
        }
    }
    // A vivified item is an empty non-stale value plus a lease flag: nobody
    // has stored real data yet.
    let placeholder = !wire.stale && empty && lease_state != LeaseState::Absent;
    let value_state = if wire.stale {
        ValueState::Stale
    } else if placeholder {
        ValueState::Missing
    } else {
        ValueState::Fresh
    };
    let (status, value) = if placeholder {
        // With a lease request the placeholder is this client's own vivify:
        // report a miss and let the caller fill it. Without one, another
        // client is filling it.
        if operation.lease_ttl.is_some() {
            (GetStatus::Miss, None)
        } else {
            (GetStatus::Pending, None)
        }
    } else if wire.rc == ReturnCode::Hd && operation.unless_cas.is_some() {
        (GetStatus::Unchanged, None)
    } else if wire.rc == ReturnCode::Va {
        (GetStatus::Hit, wire.value)
    } else {
        (GetStatus::Hit, None)
    };
    Ok(
        GetResult {
            key: bytes::copy(operation.key.as_slice()),
            status,
            value,
            client_flags: wire.client_flags,
            item,
            value_state,
            lease_state,
        },
    )
}

/// What a wire result answers to a store or a delete.
pub open spec fn mutation_answer(
    key: Seq<u8>,
    is_add: bool,
    wire: MetaCommandResultView,
) -> Result<MutationResultView, ErrorView> {
    match mutation_outcome(is_add, wire.rc) {
        Ok(status) => Ok(MutationResultView { key, status, cas: wire.cas }),
        Err(e) => Err(e),
    }
}

pub fn parse_set(operation: &Store, wire: MetaCommandResult) -> (r: Result<MutationResult, Error>)
    ensures
        match r {
            Ok(result) => mutation_answer(operation.key@, operation.mode == SetMode::Add, wire@) == Ok::<
                MutationResultView,
                ErrorView,
            >(result@),
            Err(e) => mutation_answer(operation.key@, operation.mode == SetMode::Add, wire@) == Err::<
                MutationResultView,
                ErrorView,
            >(e@),
        },
{
    match mutation_status(operation.mode == SetMode::Add, wire.rc) {
        Ok(status) => Ok(MutationResult { key: bytes::copy(operation.key.as_slice()), status, cas: wire.cas }),
        Err(e) => Err(e),
    }
}

pub fn parse_delete(operation: &Delete, wire: MetaCommandResult) -> (r: Result<MutationResult, Error>)
    ensures
        match r {
            Ok(result) => mutation_answer(operation.key@, false, wire@) == Ok::<MutationResultView, ErrorView>(result@),
            Err(e) => mutation_answer(operation.key@, false, wire@) == Err::<MutationResultView, ErrorView>(e@),
        },
{
    match mutation_status(false, wire.rc) {
        Ok(status) => Ok(MutationResult { key: bytes::copy(operation.key.as_slice()), status, cas: wire.cas }),
        Err(e) => Err(e),
    }
}

/// The counter value that a wire result carries: the number in the data block
/// of a `VA` response.
pub open spec fn counter_value(wire: MetaCommandResultView) -> Result<Option<u64>, ErrorView> {
    match wire.value {
        Some(value) => if wire.rc == ReturnCode::Va && value.len() > 0 {
            match decimal::parse_unsigned(value, u64::MAX as nat) {
                Ok(n) => Ok(Some(n as u64)),
                Err(_) => Err(error::protocol("arithmetic response is not a number")),
            }
        } else {
            Ok(None)
        },
        None => Ok(None),
    }
}

/// What a wire result answers to a counter operation.
pub open spec fn arithmetic_answer(
    operation: Arithmetic,
    wire: MetaCommandResultView,
) -> Result<ArithmeticResultView, ErrorView> {
    match mutation_outcome(false, wire.rc) {
        Err(e) => Err(e),
        Ok(status) => match counter_value(wire) {
            Err(e) => Err(e),
            Ok(value) => Ok(
                ArithmeticResultView {
                    key: operation.key@,
                    status,
                    value,
                    item: ItemMeta { cas: wire.cas, ttl: wire.ttl, ..ItemMeta::unknown() },
                },
            ),
        },
    }
}

pub fn parse_arithmetic(operation: &Arithmetic, wire: MetaCommandResult) -> (r: Result<ArithmeticResult, Error>)
    ensures
        match r {
            Ok(result) => arithmetic_answer(*operation, wire@) == Ok::<ArithmeticResultView, ErrorView>(result@),
            Err(e) => arithmetic_answer(*operation, wire@) == Err::<ArithmeticResultView, ErrorView>(e@),
        },
{
    let status = match mutation_status(false, wire.rc) {
        Ok(status) => status,
        Err(e) => {
            return Err(e);
        },
    };
    let mut number: Option<u64> = None;
    if let Some(value) = &wire.value {
        if wire.rc == ReturnCode::Va && value.len() > 0 {
            match decimal::read_unsigned(value.as_slice(), u64::MAX as u128) {
                Ok(n) => number = Some(n as u64),
                Err(_) => {
                    return Err(Error::protocol("arithmetic response is not a number"));
                },
            }
        }
    }
    Ok(
        ArithmeticResult {
            key: bytes::copy(operation.key.as_slice()),
            status,
            value: number,
            item: ItemMeta { cas: wire.cas, ttl: wire.ttl, ..ItemMeta::default() },
        },
    )
}

pub open spec fn fault_of<T>(answer: Result<T, ErrorView>) -> Option<ErrorView> {
    match answer {
        Ok(_) => None,
        Err(e) => Some(e),
    }
}

impl Operation for Get {
    type Output = GetResult;

    open spec fn key_spec(&self) -> Seq<u8> {
        self.key@
    }

    open spec fn command_spec(&self, now: SystemTime) -> Result<MetaCommandView, ErrorView> {
        get_prepared(*self, now)
    }

    open spec fn answer_fault(&self, wire: MetaCommandResultView) -> Option<ErrorView> {
        fault_of(get_answer(*self, wire))
    }

    open spec fn answers(&self, wire: MetaCommandResultView, output: GetResult) -> bool {
        get_answer(*self, wire) == Ok::<GetResultView, ErrorView>(output@)
    }

    fn key(&self) -> (r: &[u8]) {
        self.key.as_slice()
    }

    fn prepare_at(&self, now: SystemTime) -> (r: Result<MetaCommand, Error>) {
        prepare_get_at(self, now)
    }

    fn parse(&self, wire: MetaCommandResult) -> (r: Result<GetResult, Error>) {
        parse_get(self, wire)
    }
}

impl Operation for Store {
    type Output = MutationResult;

    open spec fn key_spec(&self) -> Seq<u8> {
        self.key@
    }

    open spec fn command_spec(&self, now: SystemTime) -> Result<MetaCommandView, ErrorView> {
        set_prepared(*self, now)
    }

    open spec fn answer_fault(&self, wire: MetaCommandResultView) -> Option<ErrorView> {
        fault_of(mutation_answer(self.key@, self.mode == SetMode::Add, wire))
    }

    open spec fn answers(&self, wire: MetaCommandResultView, output: MutationResult) -> bool {
        mutation_answer(self.key@, self.mode == SetMode::Add, wire) == Ok::<MutationResultView, ErrorView>(output@)
    }

    fn key(&self) -> (r: &[u8]) {
        self.key.as_slice()
    }

    fn prepare_at(&self, now: SystemTime) -> (r: Result<MetaCommand, Error>) {
        prepare_set_at(self, now)
    }

    fn parse(&self, wire: MetaCommandResult) -> (r: Result<MutationResult, Error>) {
        parse_set(self, wire)
    }
}

impl Operation for Delete {
    type Output = MutationResult;

    open spec fn key_spec(&self) -> Seq<u8> {
        self.key@
    }

    open spec fn command_spec(&self, now: SystemTime) -> Result<MetaCommandView, ErrorView> {
        delete_prepared(*self, now)
    }

    open spec fn answer_fault(&self, wire: MetaCommandResultView) -> Option<ErrorView> {
        fault_of(mutation_answer(self.key@, false, wire))
    }

    open spec fn answers(&self, wire: MetaCommandResultView, output: MutationResult) -> bool {
        mutation_answer(self.key@, false, wire) == Ok::<MutationResultView, ErrorView>(output@)
    }

    fn key(&self) -> (r: &[u8]) {
        self.key.as_slice()
    }

    fn prepare_at(&self, now: SystemTime) -> (r: Result<MetaCommand, Error>) {
        prepare_delete_at(self, now)
    }

    fn parse(&self, wire: MetaCommandResult) -> (r: Result<MutationResult, Error>) {
        parse_delete(self, wire)
    }
}

impl Operation for Arithmetic {
    type Output = ArithmeticResult;

    open spec fn key_spec(&self) -> Seq<u8> {
        self.key@
    }

    open spec fn command_spec(&self, now: SystemTime) -> Result<MetaCommandView, ErrorView> {
        arithmetic_prepared(*self, now)
    }

    open spec fn answer_fault(&self, wire: MetaCommandResultView) -> Option<ErrorView> {
        fault_of(arithmetic_answer(*self, wire))
    }

    open spec fn answers(&self, wire: MetaCommandResultView, output: ArithmeticResult) -> bool {
        arithmetic_answer(*self, wire) == Ok::<ArithmeticResultView, ErrorView>(output@)
    }

    fn key(&self) -> (r: &[u8]) {
        self.key.as_slice()
    }

    fn prepare_at(&self, now: SystemTime) -> (r: Result<MetaCommand, Error>) {
        prepare_arithmetic_at(self, now)
    }

    fn parse(&self, wire: MetaCommandResult) -> (r: Result<ArithmeticResult, Error>) {
        parse_arithmetic(self, wire)
    }
}

impl Operation for Op {
    type Output = OpResult;

    open spec fn key_spec(&self) -> Seq<u8> {
        match *self {
            Op::Get(operation) => operation.key_spec(),
            Op::Store(operation) => operation.key_spec(),
            Op::Delete(operation) => operation.key_spec(),
            Op::Arithmetic(operation) => operation.key_spec(),
        }
    }

    open spec fn command_spec(&self, now: SystemTime) -> Result<MetaCommandView, ErrorView> {
        match *self {
            Op::Get(operation) => operation.command_spec(now),
            Op::Store(operation) => operation.command_spec(now),
            Op::Delete(operation) => operation.command_spec(now),
            Op::Arithmetic(operation) => operation.command_spec(now),
        }
    }

    open spec fn answer_fault(&self, wire: MetaCommandResultView) -> Option<ErrorView> {
        match *self {
            Op::Get(operation) => operation.answer_fault(wire),
            Op::Store(operation) => operation.answer_fault(wire),
            Op::Delete(operation) => operation.answer_fault(wire),
            Op::Arithmetic(operation) => operation.answer_fault(wire),
        }
    }

    open spec fn answers(&self, wire: MetaCommandResultView, output: OpResult) -> bool {
        match (*self, output) {
            (Op::Get(operation), OpResult::Get(result)) => operation.answers(wire, result),
            (Op::Store(operation), OpResult::Mutation(result)) => operation.answers(wire, result),
            (Op::Delete(operation), OpResult::Mutation(result)) => operation.answers(wire, result),
            (Op::Arithmetic(operation), OpResult::Arithmetic(result)) => operation.answers(wire, result),
            _ => false,
        }
    }

    fn key(&self) -> (r: &[u8]) {
        match self {
            Op::Get(operation) => operation.key.as_slice(),
            Op::Store(operation) => operation.key.as_slice(),
            Op::Delete(operation) => operation.key.as_slice(),
            Op::Arithmetic(operation) => operation.key.as_slice(),
        }
    }

    fn prepare_at(&self, now: SystemTime) -> (r: Result<MetaCommand, Error>) {
        match self {
            Op::Get(operation) => operation.prepare_at(now),
            Op::Store(operation) => operation.prepare_at(now),
            Op::Delete(operation) => operation.prepare_at(now),
            Op::Arithmetic(operation) => operation.prepare_at(now),
        }
    }

    fn parse(&self, wire: MetaCommandResult) -> (r: Result<OpResult, Error>) {
        match self {
            Op::Get(operation) => match operation.parse(wire) {
                Ok(result) => Ok(OpResult::Get(result)),
                Err(e) => Err(e),
            },
            Op::Store(operation) => match operation.parse(wire) {
                Ok(result) => Ok(OpResult::Mutation(result)),
                Err(e) => Err(e),
            },
            Op::Delete(operation) => match operation.parse(wire) {
                Ok(result) => Ok(OpResult::Mutation(result)),
                Err(e) => Err(e),
            },
            Op::Arithmetic(operation) => match operation.parse(wire) {
                Ok(result) => Ok(OpResult::Arithmetic(result)),
                Err(e) => Err(e),
            },
        }
    }
}

} // verus!
