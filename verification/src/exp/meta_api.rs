//! Typed 1:1 mapping of the memcached meta protocol.
//!
//! This module builds wire commands (`mg`/`ms`/`md`/`ma`/`mn`/`me`) from option
//! structs and parses wire responses into [`MetaCommandResult`]. Every option
//! field corresponds to exactly one protocol flag. This layer performs no
//! serialization and no semantic interpretation of results; both belong to the
//! high-level client. Validation is limited to argument ranges and combinations
//! the protocol silently ignores.
//!
//! The `q` (noreply) and `b` (base64 key) flags are intentionally not exposed:
//! quiet semantics are an internal concern of the pipeline executor, and binary
//! keys are base64-encoded automatically by
//! [`MetaCommand`](super::meta_command::MetaCommand).

use vstd::prelude::*;
use vstd::string::*;

use super::base64;
use super::error;
use super::error::{Error, ErrorView};
use super::meta_command;
use super::meta_command::{
    MetaCommand, MetaCommandView, MetaOp, MetaResponse, MetaResponseView, ReturnCode,
};
use crate::bytes;
use crate::decimal;
use crate::pairs;
use crate::text;

verus! {

const OPAQUE_MAX: usize = 32;

/// Why an opaque token cannot be sent, if it cannot.
pub open spec fn opaque_fault(opaque: Option<Seq<u8>>) -> Option<ErrorView> {
    match opaque {
        None => None,
        Some(token) => if token.len() == 0 || token.len() > 32 {
            Some(error::usage("opaque must be 1-32 bytes"))
        } else if !meta_command::legacy_safe(token) {
            Some(error::usage("opaque must not contain whitespace or control bytes"))
        } else {
            None
        },
    }
}

/// The flag of an opaque token, if there is one.
pub open spec fn opaque_flags(opaque: Option<Seq<u8>>) -> Seq<Seq<u8>> {
    match opaque {
        None => Seq::empty(),
        Some(token) => seq![seq!['O' as u8] + token],
    }
}

/// A flag without an argument, where it is enabled.
pub open spec fn marker(enabled: bool, wire: Seq<u8>) -> Seq<Seq<u8>> {
    if enabled {
        seq![wire]
    } else {
        Seq::empty()
    }
}

/// A flag with a number, where there is one.
pub open spec fn token(prefix: char, value: Option<u64>) -> Seq<Seq<u8>> {
    match value {
        None => Seq::empty(),
        Some(n) => seq![seq![prefix as u8] + decimal::decimal(n as nat)],
    }
}

pub open spec fn wide(value: Option<u32>) -> Option<u64> {
    match value {
        Some(n) => Some(n as u64),
        None => None,
    }
}

fn widen(value: Option<u32>) -> (r: Option<u64>)
    ensures
        r == wide(value),
{
    match value {
        Some(n) => Some(n as u64),
        None => None,
    }
}

struct FlagBuilder {
    flags: Vec<Vec<u8>>,
}

impl FlagBuilder {
    spec fn view(&self) -> Seq<Seq<u8>> {
        bytes::views(self.flags@)
    }

    fn new() -> (r: FlagBuilder)
        ensures
            r@ == Seq::<Seq<u8>>::empty(),
    {
        let r = FlagBuilder { flags: Vec::new() };
        assert(r@ =~= Seq::<Seq<u8>>::empty());
        r
    }

    fn push(&mut self, flag: Vec<u8>)
        ensures
            final(self)@ == old(self)@ + seq![flag@],
    {
        self.flags.push(flag);
        assert(self@ =~= old(self)@ + seq![flag@]);
    }

    fn marker(&mut self, enabled: bool, wire: &'static str)
        ensures
            final(self)@ == old(self)@ + marker(enabled, bytes::utf8(wire)),
    {
        if enabled {
            self.push(bytes::copy(wire.as_bytes()));
        }
        assert(self@ =~= old(self)@ + marker(enabled, bytes::utf8(wire)));
    }

    fn token(&mut self, prefix: char, value: Option<u64>)
        requires
            prefix as u32 <= 127,
        ensures
            final(self)@ == old(self)@ + token(prefix, value),
    {
        if let Some(n) = value {
            let mut flag: Vec<u8> = Vec::new();
            flag.push(prefix as u8);
            let digits = decimal::format_unsigned(n as u128);
            bytes::append(&mut flag, digits.as_slice());
            assert(flag@ =~= seq![prefix as u8] + decimal::decimal(n as nat));
            self.push(flag);
        }
        assert(self@ =~= old(self)@ + token(prefix, value));
    }

    fn opaque(&mut self, opaque: &Option<Vec<u8>>) -> (r: Result<(), Error>)
        ensures
            match r {
                Ok(_) => opaque_fault(bytes::view_opt(*opaque)) is None && final(self)@ == old(self)@ + opaque_flags(
                    bytes::view_opt(*opaque),
                ),
                Err(e) => opaque_fault(bytes::view_opt(*opaque)) == Some(e@),
            },
    {
        match opaque {
            None => {
                assert(self@ =~= old(self)@ + opaque_flags(None));
                Ok(())
            },
            Some(token) => {
                if token.len() == 0 || token.len() > OPAQUE_MAX {
                    return Err(Error::Usage("opaque must be 1-32 bytes"));
                }
                if !meta_command::is_legacy_safe(token.as_slice()) {
                    return Err(Error::Usage("opaque must not contain whitespace or control bytes"));
                }
                let mut flag: Vec<u8> = Vec::new();
                flag.push('O' as u8);
                bytes::append(&mut flag, token.as_slice());
                assert(flag@ =~= seq!['O' as u8] + token@);
                self.push(flag);
                Ok(())
            },
        }
    }

    fn command(self, op: MetaOp, key: &[u8], value: Option<Vec<u8>>) -> (r: MetaCommand)
        ensures
            r@ == (MetaCommandView { op, key: key@, flags: self@, value: bytes::view_opt(value) }),
    {
        MetaCommand { op, key: bytes::copy(key), flags: self.flags, value }
    }
}

/// Options for [`build_get`] (`mg`). Each field maps to one protocol flag.
#[derive(Debug, Clone)]
pub struct GetOptions {
    /// `v` - return the item value.
    pub value: bool,
    /// `f` - return the client flags.
    pub return_client_flags: bool,
    /// `c` - return the item CAS.
    pub return_cas: bool,
    /// `t` - return the remaining TTL.
    pub return_ttl: bool,
    /// `s` - return the stored size.
    pub return_size: bool,
    /// `l` - return seconds since last access.
    pub return_last_access: bool,
    /// `h` - return whether the item was hit before.
    pub return_hit_before: bool,
    /// `k` - echo the key in the response.
    pub return_key: bool,
    /// `u` - don't bump the item in the LRU.
    pub no_lru_bump: bool,
    /// `T<ttl>` - update the item TTL.
    pub touch: Option<u32>,
    /// `N<ttl>` - vivify a missing item with this TTL and grant a lease.
    pub vivify_ttl: Option<u32>,
    /// `R<ttl>` - grant a recache lease when the remaining TTL is below this.
    pub recache_ttl: Option<u32>,
    /// `C<cas>` - suppress the value when the item CAS still matches.
    pub unless_cas: Option<u64>,
    /// `E<cas>` - replace the item CAS with this value.
    pub new_cas: Option<u64>,
    /// `O<token>` - opaque token echoed back in the response.
    pub opaque: Option<Vec<u8>>,
}

impl GetOptions {
    /// A plain value read.
    pub open spec fn plain() -> GetOptions {
        GetOptions {
            value: true,
            return_client_flags: false,
            return_cas: false,
            return_ttl: false,
            return_size: false,
            return_last_access: false,
            return_hit_before: false,
            return_key: false,
            no_lru_bump: false,
            touch: None,
            vivify_ttl: None,
            recache_ttl: None,
            unless_cas: None,
            new_cas: None,
            opaque: None,
        }
    }

    /// The flags that the options ask for, in the order in which they are
    /// sent.
    pub open spec fn flags(self) -> Seq<Seq<u8>> {
        marker(self.value, bytes::utf8("v")) + marker(self.return_client_flags, bytes::utf8("f")) + marker(
            self.return_cas,
            bytes::utf8("c"),
        ) + marker(self.return_ttl, bytes::utf8("t")) + marker(self.return_size, bytes::utf8("s")) + marker(
            self.return_last_access,
            bytes::utf8("l"),
        ) + marker(self.return_hit_before, bytes::utf8("h")) + marker(self.return_key, bytes::utf8("k")) + marker(
            self.no_lru_bump,
            bytes::utf8("u"),
        ) + token('T', wide(self.touch)) + token('N', wide(self.vivify_ttl)) + token('R', wide(self.recache_ttl))
            + token('C', self.unless_cas) + token('E', self.new_cas) + opaque_flags(bytes::view_opt(self.opaque))
    }
}

impl Default for GetOptions {
    fn default() -> (r: GetOptions)
        ensures
            r == GetOptions::plain(),
    {
        GetOptions {
            value: true,
            return_client_flags: false,
            return_cas: false,
            return_ttl: false,
            return_size: false,
            return_last_access: false,
            return_hit_before: false,
            return_key: false,
            no_lru_bump: false,
            touch: None,
            vivify_ttl: None,
            recache_ttl: None,
            unless_cas: None,
            new_cas: None,
            opaque: None,
        }
    }
}

/// The `mg` command of a key and options.
pub open spec fn get_command(key: Seq<u8>, options: GetOptions) -> Result<MetaCommandView, ErrorView> {
    if options.recache_ttl == Some(0u32) {
        Err(error::usage("recache_ttl must be >= 1"))
    } else {
        match opaque_fault(bytes::view_opt(options.opaque)) {
            Some(e) => Err(e),
            None => Ok(MetaCommandView { op: MetaOp::Get, key, flags: options.flags(), value: None }),
        }
    }
}

pub fn build_get(key: &[u8], options: &GetOptions) -> (r: Result<MetaCommand, Error>)
    ensures
        match r {
            Ok(command) => get_command(key@, *options) == Ok::<MetaCommandView, ErrorView>(command@),
            Err(e) => get_command(key@, *options) == Err::<MetaCommandView, ErrorView>(e@),
        },
{
    if let Some(n) = options.recache_ttl {
        if n == 0 {
            return Err(Error::Usage("recache_ttl must be >= 1"));
        }
    }
    let mut flags = FlagBuilder::new();
    flags.marker(options.value, "v");
    assert(flags@ =~= marker(options.value, bytes::utf8("v")));
    flags.marker(options.return_client_flags, "f");
    flags.marker(options.return_cas, "c");
    flags.marker(options.return_ttl, "t");
    flags.marker(options.return_size, "s");
    flags.marker(options.return_last_access, "l");
    flags.marker(options.return_hit_before, "h");
    flags.marker(options.return_key, "k");
    flags.marker(options.no_lru_bump, "u");
    flags.token('T', widen(options.touch));
    flags.token('N', widen(options.vivify_ttl));
    flags.token('R', widen(options.recache_ttl));
    flags.token('C', options.unless_cas);
    flags.token('E', options.new_cas);
    match flags.opaque(&options.opaque) {
        Ok(_) => Ok(flags.command(MetaOp::Get, key, None)),
        Err(e) => Err(e),
    }
}

/// Storage mode for [`build_set`] (`ms` `M` flag).
#[derive(Debug, Clone, Copy, PartialEq, Eq, Structural)]
#[non_exhaustive]
pub enum SetMode {
    /// Unconditional store (the protocol default, no mode flag).
    Store,
    /// `ME` - store only when the item does not exist.
    Add,
    /// `MR` - store only when the item exists.
    Replace,
    /// `MA` - append raw bytes to the stored value.
    Append,
    /// `MP` - prepend raw bytes to the stored value.
    Prepend,
}

impl SetMode {
    pub open spec fn flags(self) -> Seq<Seq<u8>> {
        match self {
            SetMode::Store => Seq::empty(),
            SetMode::Add => seq![bytes::utf8("ME")],
            SetMode::Replace => seq![bytes::utf8("MR")],
            SetMode::Append => seq![bytes::utf8("MA")],
            SetMode::Prepend => seq![bytes::utf8("MP")],
        }
    }

    /// Whether the mode adds to a stored value instead of replacing it.
    pub open spec fn concatenates(self) -> bool {
        self == SetMode::Append || self == SetMode::Prepend
    }

    /// The `M` flag of the mode, where it has one.
    pub fn flag(self) -> (r: Option<&'static str>)
        ensures
            match r {
                Some(flag) => self.flags() == seq![bytes::utf8(flag)],
                None => self == SetMode::Store,
            },
    {
        match self {
            SetMode::Store => None,
            SetMode::Add => Some("ME"),
            SetMode::Replace => Some("MR"),
            SetMode::Append => Some("MA"),
            SetMode::Prepend => Some("MP"),
        }
    }
}

impl Default for SetMode {
    fn default() -> (r: SetMode)
        ensures
            r == SetMode::Store,
    {
        SetMode::Store
    }
}

/// Options for [`build_set`] (`ms`). Each field maps to one protocol flag.
#[derive(Debug, Clone)]
pub struct SetOptions {
    /// `F<flags>` - client flags stored with the item.
    pub client_flags: Option<u32>,
    /// `T<ttl>` - item TTL.
    pub ttl: Option<u32>,
    /// `M<mode>` - storage mode.
    pub mode: SetMode,
    /// `C<cas>` - store only when the item CAS matches.
    pub compare_cas: Option<u64>,
    /// `E<cas>` - replace the item CAS with this value.
    pub new_cas: Option<u64>,
    /// `I` - invalidate: mark the item stale instead of replacing it.
    pub invalidate: bool,
    /// `N<ttl>` - for append/prepend, vivify a missing item with this TTL.
    pub vivify_ttl: Option<u32>,
    /// `c` - return the new item CAS.
    pub return_cas: bool,
    /// `s` - return the stored size.
    pub return_size: bool,
    /// `k` - echo the key in the response.
    pub return_key: bool,
    /// `O<token>` - opaque token echoed back in the response.
    pub opaque: Option<Vec<u8>>,
}

impl SetOptions {
    /// An unconditional store without options.
    pub open spec fn plain() -> SetOptions {
        SetOptions {
            client_flags: None,
            ttl: None,
            mode: SetMode::Store,
            compare_cas: None,
            new_cas: None,
            invalidate: false,
            vivify_ttl: None,
            return_cas: false,
            return_size: false,
            return_key: false,
            opaque: None,
        }
    }

    /// The flags that the options ask for, in the order in which they are
    /// sent.
    pub open spec fn flags(self) -> Seq<Seq<u8>> {
        self.mode.flags() + marker(self.invalidate, bytes::utf8("I")) + marker(self.return_cas, bytes::utf8("c"))
            + marker(self.return_size, bytes::utf8("s")) + marker(self.return_key, bytes::utf8("k")) + token(
            'F',
            wide(self.client_flags),
        ) + token('T', wide(self.ttl)) + token('C', self.compare_cas) + token('E', self.new_cas) + token(
            'N',
            wide(self.vivify_ttl),
        ) + opaque_flags(bytes::view_opt(self.opaque))
    }

    /// Why the options cannot be combined, if they cannot.
    pub open spec fn fault(self) -> Option<ErrorView> {
        if self.vivify_ttl is Some && !self.mode.concatenates() {
            Some(error::usage("vivify_ttl is only valid for append/prepend"))
        } else if self.ttl is Some && self.mode.concatenates() {
            Some(error::usage("ttl is ignored for append/prepend; use vivify_ttl"))
        } else if self.compare_cas is Some && self.mode == SetMode::Add {
            Some(error::usage("compare_cas cannot be combined with add mode"))
        } else {
            opaque_fault(bytes::view_opt(self.opaque))
        }
    }
}

impl Default for SetOptions {
    fn default() -> (r: SetOptions)
        ensures
            r == SetOptions::plain(),
    {
        SetOptions {
            client_flags: None,
            ttl: None,
            mode: SetMode::Store,
            compare_cas: None,
            new_cas: None,
            invalidate: false,
            vivify_ttl: None,
            return_cas: false,
            return_size: false,
            return_key: false,
            opaque: None,
        }
    }
}

/// The `ms` command of a key, a value and options.
pub open spec fn set_command(key: Seq<u8>, value: Seq<u8>, options: SetOptions) -> Result<MetaCommandView, ErrorView> {
    match options.fault() {
        Some(e) => Err(e),
        None => Ok(MetaCommandView { op: MetaOp::Store, key, flags: options.flags(), value: Some(value) }),
    }
}

pub fn build_set(key: &[u8], value: &[u8], options: &SetOptions) -> (r: Result<MetaCommand, Error>)
    ensures
        match r {
            Ok(command) => set_command(key@, value@, *options) == Ok::<MetaCommandView, ErrorView>(command@),
            Err(e) => set_command(key@, value@, *options) == Err::<MetaCommandView, ErrorView>(e@),
        },
{
    let concatenation = matches!(options.mode, SetMode::Append | SetMode::Prepend);
    if options.vivify_ttl.is_some() && !concatenation {
        return Err(Error::Usage("vivify_ttl is only valid for append/prepend"));
    }
    if options.ttl.is_some() && concatenation {
        // The server ignores T for concatenation; the miss path takes its TTL
        // from N (vivify_ttl) instead. Reject the no-op.
        return Err(Error::Usage("ttl is ignored for append/prepend; use vivify_ttl"));
    }
    if options.compare_cas.is_some() && options.mode == SetMode::Add {
        // Add only stores when no item exists, so there is no CAS to compare;
        // the protocol leaves the combination undefined.
        return Err(Error::Usage("compare_cas cannot be combined with add mode"));
    }
    let mut flags = FlagBuilder::new();
    if let Some(mode_flag) = options.mode.flag() {
        flags.marker(true, mode_flag);
    }
    assert(flags@ =~= options.mode.flags());
    flags.marker(options.invalidate, "I");
    flags.marker(options.return_cas, "c");
    flags.marker(options.return_size, "s");
    flags.marker(options.return_key, "k");
    flags.token('F', widen(options.client_flags));
    flags.token('T', widen(options.ttl));
    flags.token('C', options.compare_cas);
    flags.token('E', options.new_cas);
    flags.token('N', widen(options.vivify_ttl));
    match flags.opaque(&options.opaque) {
        Ok(_) => Ok(flags.command(MetaOp::Store, key, Some(bytes::copy(value)))),
        Err(e) => Err(e),
    }
}

/// Options for [`build_delete`] (`md`). Each field maps to one protocol flag.
#[derive(Debug, Clone)]
pub struct DeleteOptions {
    /// `C<cas>` - delete only when the item CAS matches.
    pub compare_cas: Option<u64>,
    /// `E<cas>` - for invalidate, replace the item CAS with this value.
    pub new_cas: Option<u64>,
    /// `I` - invalidate: mark the item stale instead of removing it.
    pub invalidate: bool,
    /// `T<ttl>` - for invalidate, the TTL the stale item keeps.
    pub ttl: Option<u32>,
    /// `x` - drop the value but keep the item.
    pub drop_value: bool,
    /// `k` - echo the key in the response.
    pub return_key: bool,
    /// `O<token>` - opaque token echoed back in the response.
    pub opaque: Option<Vec<u8>>,
}

impl DeleteOptions {
    /// A delete without options.
    pub open spec fn plain() -> DeleteOptions {
        DeleteOptions {
            compare_cas: None,
            new_cas: None,
            invalidate: false,
            ttl: None,
            drop_value: false,
            return_key: false,
            opaque: None,
        }
    }

    /// The flags that the options ask for, in the order in which they are
    /// sent.
    pub open spec fn flags(self) -> Seq<Seq<u8>> {
        marker(self.invalidate, bytes::utf8("I")) + marker(self.drop_value, bytes::utf8("x")) + marker(
            self.return_key,
            bytes::utf8("k"),
        ) + token('C', self.compare_cas) + token('E', self.new_cas) + token('T', wide(self.ttl)) + opaque_flags(
            bytes::view_opt(self.opaque),
        )
    }
}

impl Default for DeleteOptions {
    fn default() -> (r: DeleteOptions)
        ensures
            r == DeleteOptions::plain(),
    {
        DeleteOptions {
            compare_cas: None,
            new_cas: None,
            invalidate: false,
            ttl: None,
            drop_value: false,
            return_key: false,
            opaque: None,
        }
    }
}

/// The `md` command of a key and options.
pub open spec fn delete_command(key: Seq<u8>, options: DeleteOptions) -> Result<MetaCommandView, ErrorView> {
    if options.ttl is Some && !options.invalidate {
        Err(error::usage("ttl is only applied when invalidate is set"))
    } else {
        match opaque_fault(bytes::view_opt(options.opaque)) {
            Some(e) => Err(e),
            None => Ok(MetaCommandView { op: MetaOp::Delete, key, flags: options.flags(), value: None }),
        }
    }
}

pub fn build_delete(key: &[u8], options: &DeleteOptions) -> (r: Result<MetaCommand, Error>)
    ensures
        match r {
            Ok(command) => delete_command(key@, *options) == Ok::<MetaCommandView, ErrorView>(command@),
            Err(e) => delete_command(key@, *options) == Err::<MetaCommandView, ErrorView>(e@),
        },
{
    if options.ttl.is_some() && !options.invalidate {
        // The server only applies T when paired with I; reject the no-op.
        return Err(Error::Usage("ttl is only applied when invalidate is set"));
    }
    let mut flags = FlagBuilder::new();
    flags.marker(options.invalidate, "I");
    assert(flags@ =~= marker(options.invalidate, bytes::utf8("I")));
    flags.marker(options.drop_value, "x");
    flags.marker(options.return_key, "k");
    flags.token('C', options.compare_cas);
    flags.token('E', options.new_cas);
    flags.token('T', widen(options.ttl));
    match flags.opaque(&options.opaque) {
        Ok(_) => Ok(flags.command(MetaOp::Delete, key, None)),
        Err(e) => Err(e),
    }
}

/// Arithmetic direction for [`build_arithmetic`] (`ma` `M` flag).
#[derive(Debug, Clone, Copy, PartialEq, Eq, Structural)]
#[non_exhaustive]
pub enum ArithmeticMode {
    /// Increment (the protocol default, no mode flag).
    Increment,
    /// `MD` - decrement.
    Decrement,
}

impl Default for ArithmeticMode {
    fn default() -> (r: ArithmeticMode)
        ensures
            r == ArithmeticMode::Increment,
    {
        ArithmeticMode::Increment
    }
}

/// Options for [`build_arithmetic`] (`ma`). Each field maps to one protocol
/// flag.
#[derive(Debug, Clone)]
pub struct ArithmeticOptions {
    /// `D<delta>` - the delta to apply (the server defaults to 1).
    pub delta: Option<u64>,
    /// `M<mode>` - increment or decrement.
    pub mode: ArithmeticMode,
    /// `J<value>` - initial value when vivifying a missing item.
    pub initial: Option<u64>,
    /// `N<ttl>` - vivify a missing item with this TTL.
    pub initial_ttl: Option<u32>,
    /// `T<ttl>` - update the item TTL.
    pub ttl: Option<u32>,
    /// `C<cas>` - apply only when the item CAS matches.
    pub compare_cas: Option<u64>,
    /// `E<cas>` - replace the item CAS with this value.
    pub new_cas: Option<u64>,
    /// `v` - return the new value.
    pub return_value: bool,
    /// `t` - return the remaining TTL.
    pub return_ttl: bool,
    /// `c` - return the new item CAS.
    pub return_cas: bool,
    /// `k` - echo the key in the response.
    pub return_key: bool,
    /// `O<token>` - opaque token echoed back in the response.
    pub opaque: Option<Vec<u8>>,
}

impl ArithmeticOptions {
    /// An increment that returns the new value.
    pub open spec fn plain() -> ArithmeticOptions {
        ArithmeticOptions {
            delta: None,
            mode: ArithmeticMode::Increment,
            initial: None,
            initial_ttl: None,
            ttl: None,
            compare_cas: None,
            new_cas: None,
            return_value: true,
            return_ttl: false,
            return_cas: false,
            return_key: false,
            opaque: None,
        }
    }

    /// The flags that the options ask for, in the order in which they are
    /// sent.
    pub open spec fn flags(self) -> Seq<Seq<u8>> {
        marker(self.mode == ArithmeticMode::Decrement, bytes::utf8("MD")) + marker(
            self.return_value,
            bytes::utf8("v"),
        ) + marker(self.return_ttl, bytes::utf8("t")) + marker(self.return_cas, bytes::utf8("c")) + marker(
            self.return_key,
            bytes::utf8("k"),
        ) + token('D', self.delta) + token('N', wide(self.initial_ttl)) + token('J', self.initial) + token(
            'T',
            wide(self.ttl),
        ) + token('C', self.compare_cas) + token('E', self.new_cas) + opaque_flags(bytes::view_opt(self.opaque))
    }
}

impl Default for ArithmeticOptions {
    fn default() -> (r: ArithmeticOptions)
        ensures
            r == ArithmeticOptions::plain(),
    {
        ArithmeticOptions {
            delta: None,
            mode: ArithmeticMode::Increment,
            initial: None,
            initial_ttl: None,
            ttl: None,
            compare_cas: None,
            new_cas: None,
            return_value: true,
            return_ttl: false,
            return_cas: false,
            return_key: false,
            opaque: None,
        }
    }
}

/// The `ma` command of a key and options.
pub open spec fn arithmetic_command(key: Seq<u8>, options: ArithmeticOptions) -> Result<MetaCommandView, ErrorView> {
    if options.initial is Some && options.initial_ttl is None {
        Err(error::usage("initial requires initial_ttl to vivify on miss"))
    } else {
        match opaque_fault(bytes::view_opt(options.opaque)) {
            Some(e) => Err(e),
            None => Ok(MetaCommandView { op: MetaOp::Arithmetic, key, flags: options.flags(), value: None }),
        }
    }
}

pub fn build_arithmetic(key: &[u8], options: &ArithmeticOptions) -> (r: Result<MetaCommand, Error>)
    ensures
        match r {
            Ok(command) => arithmetic_command(key@, *options) == Ok::<MetaCommandView, ErrorView>(command@),
            Err(e) => arithmetic_command(key@, *options) == Err::<MetaCommandView, ErrorView>(e@),
        },
{
    if options.initial.is_some() && options.initial_ttl.is_none() {
        // J is silently ignored without N; reject the no-op.
        return Err(Error::Usage("initial requires initial_ttl to vivify on miss"));
    }
    let mut flags = FlagBuilder::new();
    flags.marker(options.mode == ArithmeticMode::Decrement, "MD");
    assert(flags@ =~= marker(options.mode == ArithmeticMode::Decrement, bytes::utf8("MD")));
    flags.marker(options.return_value, "v");
    flags.marker(options.return_ttl, "t");
    flags.marker(options.return_cas, "c");
    flags.marker(options.return_key, "k");
    flags.token('D', options.delta);
    flags.token('N', widen(options.initial_ttl));
    flags.token('J', options.initial);
    flags.token('T', widen(options.ttl));
    flags.token('C', options.compare_cas);
    flags.token('E', options.new_cas);
    match flags.opaque(&options.opaque) {
        Ok(_) => Ok(flags.command(MetaOp::Arithmetic, key, None)),
        Err(e) => Err(e),
    }
}

/// Build an `mn` no-op, used as a pipeline barrier.
pub fn build_noop() -> (r: MetaCommand)
    ensures
        r@ == (MetaCommandView { op: MetaOp::Noop, key: Seq::empty(), flags: Seq::empty(), value: None }),
{
    let key: Vec<u8> = Vec::new();
    MetaCommand::new(MetaOp::Noop, key.as_slice())
}

/// The `me` command of a key.
pub open spec fn debug_command(key: Seq<u8>) -> Result<MetaCommandView, ErrorView> {
    if meta_command::wire_key(key).len() > meta_command::MAX_KEY_LENGTH {
        Err(error::usage("key exceeds 250 bytes on the wire"))
    } else if !meta_command::legacy_safe(key) {
        Err(error::usage("meta debug does not support keys that require base64"))
    } else {
        Ok(MetaCommandView { op: MetaOp::Debug, key, flags: Seq::empty(), value: None })
    }
}

/// Build an `me` debug command.
pub fn build_debug(key: &[u8]) -> (r: Result<MetaCommand, Error>)
    ensures
        match r {
            Ok(command) => debug_command(key@) == Ok::<MetaCommandView, ErrorView>(command@),
            Err(e) => debug_command(key@) == Err::<MetaCommandView, ErrorView>(e@),
        },
{
    match meta_command::encode_key(key) {
        Err(e) => Err(e),
        Ok((_, needs_base64)) => {
            if needs_base64 {
                // Servers look up the base64 token literally, so a binary-key
                // debug would silently report a miss for a live item.
                return Err(Error::Usage("meta debug does not support keys that require base64"));
            }
            Ok(MetaCommand::new(MetaOp::Debug, key))
        },
    }
}

/// A fully parsed meta protocol response.
///
/// The typed fields are response flags decoded to native types; a field is
/// `None` (or `false` for markers) when the server did not send the flag.
/// [`raw_flags`](Self::raw_flags) keeps the raw tokens for anything this layer
/// does not decode.
#[derive(Debug, Clone, PartialEq, Eq)]
pub struct MetaCommandResult {
    /// The wire return code.
    pub rc: ReturnCode,
    /// The raw data block, if any.
    pub value: Option<Vec<u8>>,
    /// `c` - item CAS.
    pub cas: Option<u64>,
    /// `t` - remaining TTL (`-1` means unlimited).
    pub ttl: Option<i64>,
    /// `f` - client flags.
    pub client_flags: Option<u32>,
    /// `s` - stored size.
    pub size: Option<u64>,
    /// `l` - seconds since last access.
    pub last_access: Option<u64>,
    /// `h` - whether the item was hit before.
    pub hit_before: Option<bool>,
    /// `k` - the echoed key (base64-decoded when the `b` flag is present).
    pub key: Option<Vec<u8>>,
    /// `O` - the echoed opaque token.
    pub opaque: Option<Vec<u8>>,
    /// `W` - this client won a vivify/recache lease.
    pub won: bool,
    /// `Z` - another client holds the lease.
    pub busy: bool,
    /// `X` - the value is stale.
    pub stale: bool,
    pub flags: Vec<Vec<u8>>,
}

/// What a [`MetaCommandResult`] holds.
pub struct MetaCommandResultView {
    pub rc: ReturnCode,
    pub value: Option<Seq<u8>>,
    pub cas: Option<u64>,
    pub ttl: Option<i64>,
    pub client_flags: Option<u32>,
    pub size: Option<u64>,
    pub last_access: Option<u64>,
    pub hit_before: Option<bool>,
    pub key: Option<Seq<u8>>,
    pub opaque: Option<Seq<u8>>,
    pub won: bool,
    pub busy: bool,
    pub stale: bool,
    pub flags: Seq<Seq<u8>>,
}

impl View for MetaCommandResult {
    type V = MetaCommandResultView;

    open spec fn view(&self) -> MetaCommandResultView {
        MetaCommandResultView {
            rc: self.rc,
            value: bytes::view_opt(self.value),
            cas: self.cas,
            ttl: self.ttl,
            client_flags: self.client_flags,
            size: self.size,
            last_access: self.last_access,
            hit_before: self.hit_before,
            key: bytes::view_opt(self.key),
            opaque: bytes::view_opt(self.opaque),
            won: self.won,
            busy: self.busy,
            stale: self.stale,
            flags: bytes::views(self.flags@),
        }
    }
}

impl MetaCommandResult {
    /// Whether the command succeeded (`HD` or `VA`).
    pub fn ok(&self) -> (r: bool)
        ensures
            r == (self.rc == ReturnCode::Hd || self.rc == ReturnCode::Va),
    {
        matches!(self.rc, ReturnCode::Hd | ReturnCode::Va)
    }

    /// The raw response flag tokens, including any this layer does not decode.
    pub fn raw_flags(&self) -> (r: &Vec<Vec<u8>>)
        ensures
            *r == self.flags,
    {
        &self.flags
    }
}

/// The failure to read a flag's argument as a number.
pub open spec fn number_fault(token: Seq<u8>, kind: decimal::IntErrorKind) -> ErrorView {
    if vstd::utf8::valid_utf8(token) {
        ErrorView::Protocol(kind.text())
    } else {
        ErrorView::Protocol(text::utf8_error_text(token))
    }
}

pub open spec fn flag_unsigned(token: Seq<u8>, max: nat) -> Result<nat, ErrorView> {
    match decimal::parse_unsigned(token, max) {
        Ok(n) => Ok(n),
        Err(kind) => Err(number_fault(token, kind)),
    }
}

pub open spec fn flag_signed(token: Seq<u8>, min: int, max: int) -> Result<int, ErrorView> {
    match decimal::parse_signed(token, min, max) {
        Ok(n) => Ok(n),
        Err(kind) => Err(number_fault(token, kind)),
    }
}

/// What is known after some of the flags were decoded, and whether the `b`
/// flag was among them.
pub struct FlagState {
    pub result: MetaCommandResultView,
    pub key_base64: bool,
}

/// What is known before the first flag.
pub open spec fn undecoded(response: MetaResponseView) -> FlagState {
    FlagState {
        result: MetaCommandResultView {
            rc: response.rc,
            value: response.value,
            cas: None,
            ttl: None,
            client_flags: None,
            size: None,
            last_access: None,
            hit_before: None,
            key: None,
            opaque: None,
            won: false,
            busy: false,
            stale: false,
            flags: response.flags,
        },
        key_base64: false,
    }
}

/// What one more flag says. The first byte is its code, the rest its argument;
/// an unknown code says nothing.
pub open spec fn decode_flag(state: FlagState, flag: Seq<u8>) -> Result<FlagState, ErrorView> {
    let known = state.result;
    if flag.len() == 0 {
        Ok(state)
    } else {
        let code = flag[0];
        let token = flag.skip(1);
        if code == 'f' as u8 {
            match flag_unsigned(token, u32::MAX as nat) {
                Ok(n) => Ok(
                    FlagState {
                        result: MetaCommandResultView { client_flags: Some(n as u32), ..known },
                        ..state
                    },
                ),
                Err(e) => Err(e),
            }
        } else if code == 'c' as u8 {
            match flag_unsigned(token, u64::MAX as nat) {
                Ok(n) => Ok(FlagState { result: MetaCommandResultView { cas: Some(n as u64), ..known }, ..state }),
                Err(e) => Err(e),
            }
        } else if code == 't' as u8 {
            match flag_signed(token, i64::MIN as int, i64::MAX as int) {
                Ok(n) => Ok(FlagState { result: MetaCommandResultView { ttl: Some(n as i64), ..known }, ..state }),
                Err(e) => Err(e),
            }
        } else if code == 'l' as u8 {
            match flag_unsigned(token, u64::MAX as nat) {
                Ok(n) => Ok(
                    FlagState {
                        result: MetaCommandResultView { last_access: Some(n as u64), ..known },
                        ..state
                    },
                ),
                Err(e) => Err(e),
            }
        } else if code == 's' as u8 {
            match flag_unsigned(token, u64::MAX as nat) {
                Ok(n) => Ok(FlagState { result: MetaCommandResultView { size: Some(n as u64), ..known }, ..state }),
                Err(e) => Err(e),
            }
        } else if code == 'h' as u8 {
            Ok(
                FlagState {
                    result: MetaCommandResultView { hit_before: Some(token != seq!['0' as u8]), ..known },
                    ..state
                },
            )
        } else if code == 'k' as u8 {
            Ok(FlagState { result: MetaCommandResultView { key: Some(token), ..known }, ..state })
        } else if code == 'O' as u8 {
            Ok(FlagState { result: MetaCommandResultView { opaque: Some(token), ..known }, ..state })
        } else if code == 'W' as u8 {
            Ok(FlagState { result: MetaCommandResultView { won: true, ..known }, ..state })
        } else if code == 'Z' as u8 {
            Ok(FlagState { result: MetaCommandResultView { busy: true, ..known }, ..state })
        } else if code == 'X' as u8 {
            Ok(FlagState { result: MetaCommandResultView { stale: true, ..known }, ..state })
        } else if code == 'b' as u8 {
            Ok(FlagState { key_base64: true, ..state })
        } else {
            Ok(state)
        }
    }
}

/// What the flags say, read from the left; a later flag overrides an earlier
/// one with the same code.
pub open spec fn decode_flags(start: FlagState, flags: Seq<Seq<u8>>) -> Result<FlagState, ErrorView>
    decreases flags.len(),
{
    if flags.len() == 0 {
        Ok(start)
    } else {
        match decode_flags(start, flags.drop_last()) {
            Err(e) => Err(e),
            Ok(state) => decode_flag(state, flags.last()),
        }
    }
}

/// What a response says: its flags decoded, the echoed key out of its base64
/// form when the `b` flag came with it.
pub open spec fn meta_result(response: MetaResponseView) -> Result<MetaCommandResultView, ErrorView> {
    match decode_flags(undecoded(response), response.flags) {
        Err(e) => Err(e),
        Ok(state) => match state.result.key {
            Some(key) => if state.key_base64 {
                match base64::decoded(key) {
                    Some(raw) => Ok(MetaCommandResultView { key: Some(raw), ..state.result }),
                    None => Err(base64::bad_token()),
                }
            } else {
                Ok(state.result)
            },
            None => Ok(state.result),
        },
    }
}

fn bad_number(token: &[u8], kind: decimal::IntErrorKind) -> (r: Error)
    ensures
        r@ == number_fault(token@, kind),
{
    match text::from_utf8(bytes::copy(token)) {
        Ok(_) => Error::protocol(kind.message()),
        Err(message) => Error::Protocol(message),
    }
}

fn parse_unsigned(token: &[u8], max: u128) -> (r: Result<u128, Error>)
    requires
        max >= 9,
    ensures
        match r {
            Ok(n) => flag_unsigned(token@, max as nat) == Ok::<nat, ErrorView>(n as nat) && n <= max,
            Err(e) => flag_unsigned(token@, max as nat) == Err::<nat, ErrorView>(e@),
        },
{
    match decimal::read_unsigned(token, max) {
        Ok(n) => Ok(n),
        Err(kind) => Err(bad_number(token, kind)),
    }
}

fn parse_signed(token: &[u8], min: i128, max: i128) -> (r: Result<i128, Error>)
    requires
        min <= -9,
        max >= 9,
    ensures
        match r {
            Ok(n) => flag_signed(token@, min as int, max as int) == Ok::<int, ErrorView>(n as int) && min <= n <= max,
            Err(e) => flag_signed(token@, min as int, max as int) == Err::<int, ErrorView>(e@),
        },
{
    match decimal::read_signed(token, min, max) {
        Ok(n) => Ok(n),
        Err(kind) => Err(bad_number(token, kind)),
    }
}

/// Decode one flag into the result.
fn apply_flag(result: &mut MetaCommandResult, key_base64: &mut bool, flag: &[u8]) -> (r: Result<(), Error>)
    ensures
        match r {
            Ok(_) => decode_flag((FlagState { result: old(result)@, key_base64: *old(key_base64) }), flag@) == Ok::<
                FlagState,
                ErrorView,
            >((FlagState { result: final(result)@, key_base64: *final(key_base64) })),
            Err(e) => decode_flag((FlagState { result: old(result)@, key_base64: *old(key_base64) }), flag@) == Err::<
                FlagState,
                ErrorView,
            >(e@),
        },
{
    if flag.len() == 0 {
        return Ok(());
    }
    let code = flag[0];
    let token = vstd::slice::slice_subrange(flag, 1, flag.len());
    assert(token@ =~= flag@.skip(1));
    if code == 'f' as u8 {
        match parse_unsigned(token, u32::MAX as u128) {
            Ok(n) => result.client_flags = Some(n as u32),
            Err(e) => {
                return Err(e);
            },
        }
    } else if code == 'c' as u8 {
        match parse_unsigned(token, u64::MAX as u128) {
            Ok(n) => result.cas = Some(n as u64),
            Err(e) => {
                return Err(e);
            },
        }
    } else if code == 't' as u8 {
        match parse_signed(token, i64::MIN as i128, i64::MAX as i128) {
            Ok(n) => result.ttl = Some(n as i64),
            Err(e) => {
                return Err(e);
            },
        }
    } else if code == 'l' as u8 {
        match parse_unsigned(token, u64::MAX as u128) {
            Ok(n) => result.last_access = Some(n as u64),
            Err(e) => {
                return Err(e);
            },
        }
    } else if code == 's' as u8 {
        match parse_unsigned(token, u64::MAX as u128) {
            Ok(n) => result.size = Some(n as u64),
            Err(e) => {
                return Err(e);
            },
        }
    } else if code == 'h' as u8 {
        let zero = token.len() == 1 && token[0] == '0' as u8;
        assert(zero == (token@ =~= seq!['0' as u8]));
        result.hit_before = Some(!zero);
    } else if code == 'k' as u8 {
        result.key = Some(bytes::copy(token));
    } else if code == 'O' as u8 {
        result.opaque = Some(bytes::copy(token));
    } else if code == 'W' as u8 {
        result.won = true;
    } else if code == 'Z' as u8 {
        result.busy = true;
    } else if code == 'X' as u8 {
        result.stale = true;
    } else if code == 'b' as u8 {
        *key_base64 = true;
    }
    Ok(())
}

/// Decode the response flags of a [`MetaResponse`] into a
/// [`MetaCommandResult`]. Unknown flags are kept in `flags` but otherwise
/// ignored.
pub fn parse_meta_result(response: MetaResponse) -> (r: Result<MetaCommandResult, Error>)
    ensures
        match r {
            Ok(result) => meta_result(response@) == Ok::<MetaCommandResultView, ErrorView>(result@),
            Err(e) => meta_result(response@) == Err::<MetaCommandResultView, ErrorView>(e@),
        },
{
    let ghost view = response@;
    let ghost all = response@.flags;
    let flags = response.flags;
    let mut result = MetaCommandResult {
        rc: response.rc,
        value: response.value,
        cas: None,
        ttl: None,
        client_flags: None,
        size: None,
        last_access: None,
        hit_before: None,
        key: None,
        opaque: None,
        won: false,
        busy: false,
        stale: false,
        flags: bytes::copy_list(&flags),
    };
    let mut key_base64 = false;
    let mut i: usize = 0;
    assert(all.take(0) =~= Seq::<Seq<u8>>::empty());
    while i < flags.len()
        invariant
            i <= flags@.len(),
            all == bytes::views(flags@),
            decode_flags(undecoded(view), all.take(i as int)) == Ok::<FlagState, ErrorView>(
                (FlagState { result: result@, key_base64 }),
            ),
            view.flags == all,
            view == response@,
        decreases flags@.len() - i,
    {
        assert(all.take(i + 1).drop_last() =~= all.take(i as int));
        assert(all.take(i + 1).last() == flags@[i as int]@);
        match apply_flag(&mut result, &mut key_base64, flags[i].as_slice()) {
            Ok(_) => {},
            Err(e) => {
                proof {
                    lemma_fault_stays(undecoded(view), all, (i + 1) as nat, e@);
                }
                return Err(e);
            },
        }
        i += 1;
    }
    assert(all.take(i as int) =~= all);
    if key_base64 {
        if let Some(key) = &result.key {
            match base64::base64_decode(key.as_slice()) {
                Ok(raw) => result.key = Some(raw),
                Err(e) => {
                    return Err(e);
                },
            }
        }
    }
    Ok(result)
}

proof fn lemma_fault_stays(start: FlagState, flags: Seq<Seq<u8>>, k: nat, e: ErrorView)
    requires
        k <= flags.len(),
        decode_flags(start, flags.take(k as int)) == Err::<FlagState, ErrorView>(e),
    ensures
        decode_flags(start, flags) == Err::<FlagState, ErrorView>(e),
    decreases flags.len() - k,
{
    if k == flags.len() {
        assert(flags.take(k as int) =~= flags);
    } else {
        assert(flags.take((k + 1) as int).drop_last() =~= flags.take(k as int));
        lemma_fault_stays(start, flags, k + 1, e);
    }
}

/// The parts of a token before and after its first `=`.
pub open spec fn equals_at(token: Seq<u8>) -> nat
    decreases token.len(),
{
    if token.len() == 0 || token[0] == 61 {
        0
    } else {
        1 + equals_at(token.skip(1))
    }
}

/// The name of a `name=value` field.
pub open spec fn field_name(token: Seq<u8>) -> Seq<u8> {
    token.take(equals_at(token) as int)
}

/// The value of a `name=value` field, empty when there is no `=`.
pub open spec fn field_value(token: Seq<u8>) -> Seq<u8> {
    if equals_at(token) < token.len() {
        token.skip((equals_at(token) + 1) as int)
    } else {
        Seq::empty()
    }
}

/// The fields of a debug response.
pub open spec fn debug_fields(tokens: Seq<Seq<u8>>) -> Result<Seq<(Seq<char>, Seq<char>)>, ErrorView>
    decreases tokens.len(),
{
    if tokens.len() == 0 {
        Ok(Seq::empty())
    } else {
        match debug_fields(tokens.drop_last()) {
            Err(e) => Err(e),
            Ok(fields) => {
                let name = field_name(tokens.last());
                let value = field_value(tokens.last());
                if !vstd::utf8::valid_utf8(name) {
                    Err(ErrorView::Protocol(text::utf8_error_text(name)))
                } else if !vstd::utf8::valid_utf8(value) {
                    Err(ErrorView::Protocol(text::utf8_error_text(value)))
                } else {
                    Ok(pairs::put(fields, vstd::utf8::decode_utf8(name), vstd::utf8::decode_utf8(value)))
                }
            },
        }
    }
}

/// What an `me` response says: nothing on a miss (`EN`), otherwise its fields.
/// The first token is the key.
pub open spec fn debug_result(
    response: MetaResponseView,
) -> Result<Option<Seq<(Seq<char>, Seq<char>)>>, ErrorView> {
    if response.rc == ReturnCode::En {
        Ok(None)
    } else if response.rc != ReturnCode::Me {
        Err(ErrorView::Protocol("unexpected debug response "@ + response.rc.name()))
    } else {
        let tokens = if response.flags.len() == 0 {
            Seq::empty()
        } else {
            response.flags.skip(1)
        };
        match debug_fields(tokens) {
            Ok(fields) => Ok(Some(fields)),
            Err(e) => Err(e),
        }
    }
}

proof fn lemma_debug_fault_stays(tokens: Seq<Seq<u8>>, k: nat, e: ErrorView)
    requires
        k <= tokens.len(),
        debug_fields(tokens.take(k as int)) == Err::<Seq<(Seq<char>, Seq<char>)>, ErrorView>(e),
    ensures
        debug_fields(tokens) == Err::<Seq<(Seq<char>, Seq<char>)>, ErrorView>(e),
    decreases tokens.len() - k,
{
    if k == tokens.len() {
        assert(tokens.take(k as int) =~= tokens);
    } else {
        assert(tokens.take((k + 1) as int).drop_last() =~= tokens.take(k as int));
        lemma_debug_fault_stays(tokens, k + 1, e);
    }
}

proof fn lemma_equals_at(token: Seq<u8>, k: nat)
    requires
        k <= token.len(),
        forall|i: int| 0 <= i < k ==> #[trigger] token[i] != 61,
        k == token.len() || token[k as int] == 61,
    ensures
        equals_at(token) == k,
    decreases token.len(),
{
    if token.len() > 0 && token[0] != 61 {
        let t = token.skip(1);
        assert forall|i: int| 0 <= i < k - 1 implies #[trigger] t[i] != 61 by {
            assert(t[i] == token[i + 1]);
        }
        lemma_equals_at(t, (k - 1) as nat);
    }
}

/// Split a `name=value` field.
fn split_field(token: &[u8]) -> (r: (Vec<u8>, Vec<u8>))
    ensures
        r.0@ == field_name(token@),
        r.1@ == field_value(token@),
{
    let mut at: usize = 0;
    while at < token.len() && token[at] != 61
        invariant
            at <= token@.len(),
            forall|i: int| 0 <= i < at ==> #[trigger] token@[i] != 61,
        decreases token@.len() - at,
    {
        at += 1;
    }
    proof {
        lemma_equals_at(token@, at as nat);
    }
    let name = bytes::slice(token, 0, at);
    assert(name@ =~= field_name(token@));
    if at < token.len() {
        let value = bytes::slice(token, at + 1, token.len());
        assert(value@ =~= field_value(token@));
        (name, value)
    } else {
        (name, Vec::new())
    }
}

/// Parse an `me` response into its `name=value` fields. Returns `None` on a
/// miss (`EN`).
pub fn parse_debug_result(response: &MetaResponse) -> (r: Result<Option<Vec<(String, String)>>, Error>)
    ensures
        match r {
            Ok(Some(fields)) => debug_result(response@) == Ok::<Option<Seq<(Seq<char>, Seq<char>)>>, ErrorView>(
                Some(pairs::text_pairs(fields@)),
            ),
            Ok(None) => debug_result(response@) == Ok::<Option<Seq<(Seq<char>, Seq<char>)>>, ErrorView>(None),
            Err(e) => debug_result(response@) == Err::<Option<Seq<(Seq<char>, Seq<char>)>>, ErrorView>(e@),
        },
{
    if response.rc == ReturnCode::En {
        return Ok(None);
    }
    if response.rc != ReturnCode::Me {
        return Err(Error::Protocol(text::join("unexpected debug response ", response.rc.to_str())));
    }
    let ghost all = response@.flags;
    let ghost tokens = if all.len() == 0 {
        Seq::empty()
    } else {
        all.skip(1)
    };
    let mut fields: Vec<(String, String)> = Vec::new();
    let mut i: usize = 1;
    assert(tokens.take(0) =~= Seq::<Seq<u8>>::empty());
    assert(pairs::text_pairs(fields@) =~= Seq::<(Seq<char>, Seq<char>)>::empty());
    while i < response.flags.len()
        invariant
            1 <= i,
            response.rc == ReturnCode::Me,
            all == response@.flags,
            all.len() > 0 ==> i <= all.len() && tokens == all.skip(1),
            all.len() == 0 ==> i == 1 && tokens == Seq::<Seq<u8>>::empty(),
            debug_fields(tokens.take(i - 1)) == Ok::<Seq<(Seq<char>, Seq<char>)>, ErrorView>(
                pairs::text_pairs(fields@),
            ),
        decreases response.flags@.len() - i,
    {
        assert(tokens.take(i as int).drop_last() =~= tokens.take(i - 1));
        assert(tokens.take(i as int).last() == response.flags@[i as int]@);
        let (name, value) = split_field(response.flags[i].as_slice());
        let ghost name_bytes = name@;
        let ghost value_bytes = value@;
        let name = match text::from_utf8(name) {
            Ok(name) => name,
            Err(message) => {
                let e = Error::Protocol(message);
                proof {
                    lemma_debug_fault_stays(tokens, i as nat, e@);
                }
                return Err(e);
            },
        };
        let value = match text::from_utf8(value) {
            Ok(value) => value,
            Err(message) => {
                let e = Error::Protocol(message);
                proof {
                    lemma_debug_fault_stays(tokens, i as nat, e@);
                }
                return Err(e);
            },
        };
        proof {
            vstd::utf8::encode_utf8_decode_utf8(name@);
            vstd::utf8::encode_utf8_decode_utf8(value@);
        }
        pairs::insert_text(&mut fields, name, value);
        i += 1;
    }
    assert(tokens.take(i - 1) =~= tokens);
    Ok(Some(fields))
}

} // verus!
