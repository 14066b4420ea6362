//! Wire-level framing for the memcached meta protocol.
//!
//! [`MetaCommand`] assembles a request line (and optional data block) from a
//! command code, key, flag tokens and value. [`MetaResponse`] parses a
//! response header line. Neither type interprets flags; that belongs to the
//! typed API layer (the `build_*` / `parse_*` functions).

use vstd::prelude::*;
use vstd::string::*;

use super::base64;
use super::error;
use super::error::{Error, ErrorView};
use crate::bytes;
use crate::decimal;
use crate::text;

verus! {

/// memcached limits the key token *on the wire* to 250 bytes and the legacy
/// text key may not contain whitespace or control characters. Keys that
/// violate the latter are sent base64-encoded with the meta `b` flag; since
/// the server checks the length before decoding, the base64 form (not the raw
/// key) is what must fit in 250 bytes, which caps a binary key at 186 raw
/// bytes.
pub const MAX_KEY_LENGTH: usize = 250;

/// The largest data block a `VA` response may announce: memcached's own item
/// size ceiling (`-I` caps at 1 GiB). A larger length is a protocol violation
/// or a desynchronized stream, and is rejected instead of being allocated.
pub const MAX_VALUE_LENGTH: usize = 1073741824;

/// Whether a key can be sent verbatim: no whitespace, no control characters.
pub open spec fn legacy_safe(key: Seq<u8>) -> bool {
    forall|i: int| 0 <= i < key.len() ==> #[trigger] key[i] > 0x20 && key[i] != 0x7f
}

/// The token a key is sent as.
pub open spec fn wire_key(key: Seq<u8>) -> Seq<u8> {
    if legacy_safe(key) {
        key
    } else {
        base64::encoded(key)
    }
}

/// Why a key cannot be sent, if it cannot.
pub open spec fn key_fault(key: Seq<u8>) -> Option<ErrorView> {
    if key.len() == 0 {
        Some(error::usage("key must not be empty"))
    } else if wire_key(key).len() > MAX_KEY_LENGTH {
        Some(error::usage("key exceeds 250 bytes on the wire"))
    } else {
        None
    }
}

/// Whether `key` can be sent verbatim.
pub fn is_legacy_safe(key: &[u8]) -> (r: bool)
    ensures
        r == legacy_safe(key@),
{
    let mut i: usize = 0;
    while i < key.len()
        invariant
            i <= key@.len(),
            forall|j: int| 0 <= j < i ==> #[trigger] key@[j] > 0x20 && key@[j] != 0x7f,
        decreases key@.len() - i,
    {
        if key[i] <= 0x20 || key[i] == 0x7f {
            return false;
        }
        i += 1;
    }
    true
}

/// Return `(wire_key, needs_base64_flag)` for a raw key.
pub fn encode_key(key: &[u8]) -> (r: Result<(Vec<u8>, bool), Error>)
    ensures
        match r {
            Ok((token, needs_base64)) => token@ == wire_key(key@) && token@.len() <= MAX_KEY_LENGTH && needs_base64
                == !legacy_safe(key@),
            Err(e) => wire_key(key@).len() > MAX_KEY_LENGTH && e@ == error::usage("key exceeds 250 bytes on the wire"),
        },
{
    let safe = is_legacy_safe(key);
    let token = if safe {
        bytes::copy(key)
    } else {
        base64::base64_encode(key)
    };
    if token.len() > MAX_KEY_LENGTH {
        return Err(Error::Usage("key exceeds 250 bytes on the wire"));
    }
    Ok((token, !safe))
}

/// A key that is accepted is sent as one token of 1 to 250 bytes without
/// whitespace or control characters.
pub proof fn lemma_wire_key_is_a_token(key: Seq<u8>)
    requires
        key_fault(key) is None,
    ensures
        1 <= wire_key(key).len() <= MAX_KEY_LENGTH,
        legacy_safe(wire_key(key)),
{
    if !legacy_safe(key) {
        base64::lemma_encoded_length(key);
        base64::lemma_encoded_printable(key);
    }
}

/// The raw key can be read back from its token: the token itself, or what the
/// token decodes to when the base64 flag goes with it.
pub proof fn lemma_key_is_recoverable(key: Seq<u8>)
    ensures
        legacy_safe(key) ==> wire_key(key) == key,
        !legacy_safe(key) ==> base64::decoded(wire_key(key)) == Some(key),
{
    base64::lemma_base64_roundtrip(key);
}

/// A binary key of up to 186 bytes is accepted, a longer one is not.
pub proof fn lemma_binary_key_limit(key: Seq<u8>)
    requires
        key.len() > 0,
        !legacy_safe(key),
    ensures
        key_fault(key) is None <==> key.len() <= 186,
{
    base64::lemma_encoded_length(key);
}

/// A meta protocol command code.
#[derive(Debug, Clone, Copy, PartialEq, Eq, Structural)]
#[non_exhaustive]
pub enum MetaOp {
    /// `mg` - meta get.
    Get,
    /// `ms` - meta set.
    Store,
    /// `md` - meta delete.
    Delete,
    /// `ma` - meta arithmetic.
    Arithmetic,
    /// `mn` - meta no-op, used as a pipeline barrier.
    Noop,
    /// `me` - meta debug.
    Debug,
}

impl MetaOp {
    pub open spec fn code(self) -> Seq<u8> {
        match self {
            MetaOp::Get => bytes::utf8("mg"),
            MetaOp::Store => bytes::utf8("ms"),
            MetaOp::Delete => bytes::utf8("md"),
            MetaOp::Arithmetic => bytes::utf8("ma"),
            MetaOp::Noop => bytes::utf8("mn"),
            MetaOp::Debug => bytes::utf8("me"),
        }
    }

    pub fn wire(self) -> (r: &'static [u8])
        ensures
            r@ == self.code(),
    {
        match self {
            MetaOp::Get => "mg".as_bytes(),
            MetaOp::Store => "ms".as_bytes(),
            MetaOp::Delete => "md".as_bytes(),
            MetaOp::Arithmetic => "ma".as_bytes(),
            MetaOp::Noop => "mn".as_bytes(),
            MetaOp::Debug => "me".as_bytes(),
        }
    }
}

/// A meta protocol response return code.
///
/// Non-exhaustive: memcached adds return codes over time, so matches need a
/// wildcard arm.
#[derive(Debug, Clone, Copy, PartialEq, Eq, Structural)]
#[non_exhaustive]
pub enum ReturnCode {
    /// `HD` - success without a value block.
    Hd,
    /// `VA` - success with a value block.
    Va,
    /// `EN` - miss.
    En,
    /// `NS` - not stored.
    Ns,
    /// `EX` - item exists (CAS mismatch).
    Ex,
    /// `NF` - not found.
    Nf,
    /// `MN` - no-op marker.
    Mn,
    /// `ME` - debug line.
    Me,
}

/// The return code a token names.
pub open spec fn return_code(token: Seq<u8>) -> Result<ReturnCode, ErrorView> {
    if token == bytes::utf8("HD") {
        Ok(ReturnCode::Hd)
    } else if token == bytes::utf8("VA") {
        Ok(ReturnCode::Va)
    } else if token == bytes::utf8("EN") {
        Ok(ReturnCode::En)
    } else if token == bytes::utf8("NS") {
        Ok(ReturnCode::Ns)
    } else if token == bytes::utf8("EX") {
        Ok(ReturnCode::Ex)
    } else if token == bytes::utf8("NF") {
        Ok(ReturnCode::Nf)
    } else if token == bytes::utf8("MN") {
        Ok(ReturnCode::Mn)
    } else if token == bytes::utf8("ME") {
        Ok(ReturnCode::Me)
    } else {
        Err(ErrorView::Protocol("unknown return code "@ + text::quoted(text::utf8_lossy(token))))
    }
}

impl ReturnCode {
    pub open spec fn name(self) -> Seq<char> {
        match self {
            ReturnCode::Hd => "Hd"@,
            ReturnCode::Va => "Va"@,
            ReturnCode::En => "En"@,
            ReturnCode::Ns => "Ns"@,
            ReturnCode::Ex => "Ex"@,
            ReturnCode::Nf => "Nf"@,
            ReturnCode::Mn => "Mn"@,
            ReturnCode::Me => "Me"@,
        }
    }

    /// The name of the code, for messages.
    pub fn to_str(self) -> (r: &'static str)
        ensures
            r@ == self.name(),
    {
        match self {
            ReturnCode::Hd => "Hd",
            ReturnCode::Va => "Va",
            ReturnCode::En => "En",
            ReturnCode::Ns => "Ns",
            ReturnCode::Ex => "Ex",
            ReturnCode::Nf => "Nf",
            ReturnCode::Mn => "Mn",
            ReturnCode::Me => "Me",
        }
    }

    pub fn from_wire(token: &[u8]) -> (r: Result<ReturnCode, Error>)
        ensures
            match r {
                Ok(code) => return_code(token@) == Ok::<ReturnCode, ErrorView>(code),
                Err(e) => return_code(token@) == Err::<ReturnCode, ErrorView>(e@),
            },
    {
        if bytes::equal(token, "HD".as_bytes()) {
            Ok(ReturnCode::Hd)
        } else if bytes::equal(token, "VA".as_bytes()) {
            Ok(ReturnCode::Va)
        } else if bytes::equal(token, "EN".as_bytes()) {
            Ok(ReturnCode::En)
        } else if bytes::equal(token, "NS".as_bytes()) {
            Ok(ReturnCode::Ns)
        } else if bytes::equal(token, "EX".as_bytes()) {
            Ok(ReturnCode::Ex)
        } else if bytes::equal(token, "NF".as_bytes()) {
            Ok(ReturnCode::Nf)
        } else if bytes::equal(token, "MN".as_bytes()) {
            Ok(ReturnCode::Mn)
        } else if bytes::equal(token, "ME".as_bytes()) {
            Ok(ReturnCode::Me)
        } else {
            let lossy = text::from_utf8_lossy(token);
            let shown = text::quote(lossy.as_str());
            Err(Error::Protocol(text::join("unknown return code ", shown.as_str())))
        }
    }
}

/// A meta protocol request: command code, key, flag tokens and optional data
/// block. The data length token is derived from the value; the base64 `b`
/// flag is added automatically when the key requires it.
///
/// Construct with [`new`](Self::new) and chain [`flag`](Self::flag) /
/// [`value`](Self::value); the `build_*` functions of the typed API cover the
/// common commands.
#[derive(Debug, Clone, PartialEq, Eq)]
pub struct MetaCommand {
    pub op: MetaOp,
    pub key: Vec<u8>,
    pub flags: Vec<Vec<u8>>,
    pub value: Option<Vec<u8>>,
}

/// What a [`MetaCommand`] holds.
pub struct MetaCommandView {
    pub op: MetaOp,
    pub key: Seq<u8>,
    pub flags: Seq<Seq<u8>>,
    pub value: Option<Seq<u8>>,
}

impl View for MetaCommand {
    type V = MetaCommandView;

    open spec fn view(&self) -> MetaCommandView {
        MetaCommandView {
            op: self.op,
            key: self.key@,
            flags: bytes::views(self.flags@),
            value: bytes::view_opt(self.value),
        }
    }
}

/// The flag tokens as they stand on a request line, each after a space.
pub open spec fn spaced(flags: Seq<Seq<u8>>) -> Seq<u8>
    decreases flags.len(),
{
    if flags.len() == 0 {
        Seq::empty()
    } else {
        spaced(flags.drop_last()) + seq![32u8] + flags.last()
    }
}

/// The length of a data block as it stands on a request line.
pub open spec fn length_token(value: Option<Seq<u8>>) -> Seq<u8> {
    match value {
        Some(value) => seq![32u8] + decimal::decimal(value.len()),
        None => Seq::empty(),
    }
}

/// The opaque token of a position as it stands on a request line.
pub open spec fn opaque_token(opaque: Option<nat>) -> Seq<u8> {
    match opaque {
        Some(position) => bytes::utf8(" O") + decimal::decimal(position),
        None => Seq::empty(),
    }
}

/// A data block as it follows a request line.
pub open spec fn data_block(value: Option<Seq<u8>>) -> Seq<u8> {
    match value {
        Some(value) => value + bytes::crlf(),
        None => Seq::empty(),
    }
}

impl MetaCommandView {
    /// Whether a flag lets a read change server state: it touches (`T`),
    /// vivifies (`N`), takes a recache lease (`R`) or rewrites the CAS (`E`).
    pub open spec fn is_effect_flag(flag: Seq<u8>) -> bool {
        flag.len() > 0 && (flag[0] == 'T' as u8 || flag[0] == 'N' as u8 || flag[0] == 'R' as u8 || flag[0]
            == 'E' as u8)
    }

    /// Whether the command can change server state.
    pub open spec fn has_side_effect(self) -> bool {
        match self.op {
            MetaOp::Store | MetaOp::Delete | MetaOp::Arithmetic => true,
            MetaOp::Noop | MetaOp::Debug => false,
            MetaOp::Get => exists|i: int|
                0 <= i < self.flags.len() && Self::is_effect_flag(#[trigger] self.flags[i]),
        }
    }

    /// Why the command cannot be sent, if it cannot.
    pub open spec fn fault(self) -> Option<ErrorView> {
        if self.op == MetaOp::Noop {
            None
        } else {
            key_fault(self.key)
        }
    }

    /// The base64 flag as it is added to the request line of a key that needs
    /// it.
    pub open spec fn base64_token(self) -> Seq<u8> {
        if !legacy_safe(self.key) && !self.flags.contains(bytes::utf8("b")) {
            bytes::utf8(" b")
        } else {
            Seq::empty()
        }
    }

    /// The request line, without its line end. `opaque` is the position that
    /// an opaque token carries.
    pub open spec fn request_line(self, opaque: Option<nat>) -> Seq<u8> {
        self.op.code() + seq![32u8] + wire_key(self.key) + length_token(self.value) + spaced(self.flags)
            + opaque_token(opaque) + self.base64_token()
    }

    /// The bytes of the whole request: the request line and, where there is a
    /// value, the data block. `mn` takes no key, flags or value.
    pub open spec fn wire(self, opaque: Option<nat>) -> Seq<u8> {
        if self.op == MetaOp::Noop {
            self.op.code() + bytes::crlf()
        } else {
            self.request_line(opaque) + bytes::crlf() + data_block(self.value)
        }
    }
}

pub open spec fn as_position(opaque: Option<usize>) -> Option<nat> {
    match opaque {
        Some(position) => Some(position as nat),
        None => None,
    }
}

impl MetaCommand {
    pub fn new(op: MetaOp, key: &[u8]) -> (r: MetaCommand)
        ensures
            r@ == (MetaCommandView { op, key: key@, flags: Seq::empty(), value: None }),
    {
        let r = MetaCommand { op, key: bytes::copy(key), flags: Vec::new(), value: None };
        assert(r@.flags =~= Seq::<Seq<u8>>::empty());
        r
    }

    /// Append a raw flag token (e.g. `v` or `T60`).
    #[must_use]
    pub fn flag(self, token: &[u8]) -> (r: MetaCommand)
        ensures
            r@ == (MetaCommandView { flags: self@.flags.push(token@), ..self@ }),
    {
        let mut r = self;
        r.flags.push(bytes::copy(token));
        assert(r@.flags =~= self@.flags.push(token@));
        r
    }

    /// Set the data block sent after the request line.
    #[must_use]
    pub fn value(self, value: &[u8]) -> (r: MetaCommand)
        ensures
            r@ == (MetaCommandView { value: Some(value@), ..self@ }),
    {
        let mut r = self;
        r.value = Some(bytes::copy(value));
        r
    }

    /// Whether the command can change server state: every write, and a read
    /// that touches (`T`), vivifies (`N`), takes a recache lease (`R`) or
    /// rewrites the CAS (`E`). Decides whether a request written but
    /// unanswered is [`Error::Ambiguous`].
    pub fn has_side_effect(&self) -> (r: bool)
        ensures
            r == self@.has_side_effect(),
    {
        match self.op {
            MetaOp::Store | MetaOp::Delete | MetaOp::Arithmetic => true,
            MetaOp::Noop | MetaOp::Debug => false,
            MetaOp::Get => {
                let mut i: usize = 0;
                while i < self.flags.len()
                    invariant
                        self.op == MetaOp::Get,
                        i <= self.flags@.len(),
                        forall|j: int|
                            0 <= j < i ==> !MetaCommandView::is_effect_flag(#[trigger] self@.flags[j]),
                    decreases self.flags@.len() - i,
                {
                    let flag = &self.flags[i];
                    assert(self@.flags[i as int] == flag@);
                    if flag.len() > 0 {
                        let first = flag[0];
                        if first == 'T' as u8 || first == 'N' as u8 || first == 'R' as u8 || first == 'E' as u8 {
                            assert(MetaCommandView::is_effect_flag(self@.flags[i as int]));
                            return true;
                        }
                    }
                    i += 1;
                }
                false
            },
        }
    }

    /// Check the key without encoding, so a usage error surfaces before a
    /// connection is dialed.
    pub fn validate(&self) -> (r: Result<(), Error>)
        ensures
            match r {
                Ok(_) => self@.fault() is None,
                Err(e) => self@.fault() == Some(e@),
            },
    {
        if self.op == MetaOp::Noop {
            return Ok(());
        }
        if self.key.len() == 0 {
            return Err(Error::Usage("key must not be empty"));
        }
        match encode_key(self.key.as_slice()) {
            Ok(_) => Ok(()),
            Err(e) => Err(e),
        }
    }

    /// Encode the full request (header line plus data block) to wire bytes.
    pub fn encode(&self) -> (r: Result<Vec<u8>, Error>)
        ensures
            match r {
                Ok(wire) => self@.fault() is None && wire@ == self@.wire(None),
                Err(e) => self@.fault() == Some(e@),
            },
    {
        let mut buffer: Vec<u8> = Vec::new();
        match self.encode_into(&mut buffer) {
            Ok(_) => {
                assert(buffer@ =~= self@.wire(None));
                Ok(buffer)
            },
            Err(e) => Err(e),
        }
    }

    /// Append the full request to a buffer. A command that cannot be sent
    /// leaves its command code there.
    pub fn encode_into(&self, buffer: &mut Vec<u8>) -> (r: Result<(), Error>)
        ensures
            match r {
                Ok(_) => self@.fault() is None && final(buffer)@ == old(buffer)@ + self@.wire(None),
                Err(e) => self@.fault() == Some(e@) && final(buffer)@ == old(buffer)@ + self@.op.code(),
            },
    {
        self.encode_flagged(None, buffer)
    }

    /// Encode with an `O<position>` opaque token appended to the flags,
    /// without copying the value into a flagged clone first.
    pub fn encode_with_opaque(&self, position: usize, buffer: &mut Vec<u8>) -> (r: Result<(), Error>)
        ensures
            match r {
                Ok(_) => self@.fault() is None && final(buffer)@ == old(buffer)@ + self@.wire(Some(position as nat)),
                Err(e) => self@.fault() == Some(e@) && final(buffer)@ == old(buffer)@ + self@.op.code(),
            },
    {
        self.encode_flagged(Some(position), buffer)
    }

    fn has_base64_flag(&self) -> (r: bool)
        ensures
            r == self@.flags.contains(bytes::utf8("b")),
    {
        let mut i: usize = 0;
        while i < self.flags.len()
            invariant
                i <= self.flags@.len(),
                forall|j: int| 0 <= j < i ==> #[trigger] self@.flags[j] != bytes::utf8("b"),
            decreases self.flags@.len() - i,
        {
            assert(self@.flags[i as int] == self.flags@[i as int]@);
            if bytes::equal(self.flags[i].as_slice(), "b".as_bytes()) {
                return true;
            }
            i += 1;
        }
        false
    }

    fn append_flags(&self, buffer: &mut Vec<u8>)
        ensures
            final(buffer)@ == old(buffer)@ + spaced(self@.flags),
    {
        let ghost head = buffer@;
        let mut i: usize = 0;
        assert(self@.flags.take(0) =~= Seq::<Seq<u8>>::empty());
        assert(head + spaced(self@.flags.take(0)) =~= head);
        while i < self.flags.len()
            invariant
                i <= self.flags@.len(),
                buffer@ == head + spaced(self@.flags.take(i as int)),
            decreases self.flags@.len() - i,
        {
            let ghost before = spaced(self@.flags.take(i as int));
            proof {
                assert(self@.flags.take(i + 1).drop_last() =~= self@.flags.take(i as int));
                assert(self@.flags.take(i + 1).last() == self.flags@[i as int]@);
            }
            buffer.push(32);
            bytes::append(buffer, self.flags[i].as_slice());
            assert(buffer@ =~= head + (before + seq![32u8] + self.flags@[i as int]@));
            i += 1;
        }
        assert(self@.flags.take(i as int) =~= self@.flags);
    }

    fn append_length(&self, buffer: &mut Vec<u8>)
        ensures
            final(buffer)@ == old(buffer)@ + length_token(self@.value),
    {
        if let Some(value) = &self.value {
            buffer.push(32);
            let length = decimal::format_unsigned(value.len() as u128);
            bytes::append(buffer, length.as_slice());
        }
        assert(buffer@ =~= old(buffer)@ + length_token(self@.value));
    }

    fn append_block(&self, buffer: &mut Vec<u8>)
        ensures
            final(buffer)@ == old(buffer)@ + data_block(self@.value),
    {
        if let Some(value) = &self.value {
            bytes::append(buffer, value.as_slice());
            buffer.push(13);
            buffer.push(10);
        }
        assert(buffer@ =~= old(buffer)@ + data_block(self@.value));
    }

    fn append_opaque(opaque: Option<usize>, buffer: &mut Vec<u8>)
        ensures
            final(buffer)@ == old(buffer)@ + opaque_token(as_position(opaque)),
    {
        if let Some(position) = opaque {
            bytes::append(buffer, " O".as_bytes());
            let digits = decimal::format_unsigned(position as u128);
            bytes::append(buffer, digits.as_slice());
        }
        assert(buffer@ =~= old(buffer)@ + opaque_token(as_position(opaque)));
    }

    fn append_base64_flag(&self, needs_base64: bool, buffer: &mut Vec<u8>)
        requires
            needs_base64 == !legacy_safe(self@.key),
        ensures
            final(buffer)@ == old(buffer)@ + self@.base64_token(),
    {
        if needs_base64 && !self.has_base64_flag() {
            bytes::append(buffer, " b".as_bytes());
        }
        assert(buffer@ =~= old(buffer)@ + self@.base64_token());
    }

    fn encode_flagged(&self, opaque: Option<usize>, buffer: &mut Vec<u8>) -> (r: Result<(), Error>)
        ensures
            match r {
                Ok(_) => self@.fault() is None && final(buffer)@ == old(buffer)@ + self@.wire(as_position(opaque)),
                Err(e) => self@.fault() == Some(e@) && final(buffer)@ == old(buffer)@ + self@.op.code(),
            },
    {
        let ghost start = buffer@;
        let ghost mut done = self.op.code();
        bytes::append(buffer, self.op.wire());
        if self.op == MetaOp::Noop {
            bytes::append_crlf(buffer);
            proof {
                bytes::lemma_join(start, done, bytes::crlf());
            }
            return Ok(());
        }
        match self.validate() {
            Ok(_) => {},
            Err(e) => {
                return Err(e);
            },
        }
        let (token, needs_base64) = match encode_key(self.key.as_slice()) {
            Ok(pair) => pair,
            Err(e) => {
                return Err(e);
            },
        };
        bytes::append_byte(buffer, 32);
        proof {
            bytes::lemma_join(start, done, seq![32u8]);
            done = done + seq![32u8];
        }
        bytes::append(buffer, token.as_slice());
        proof {
            bytes::lemma_join(start, done, token@);
            done = done + token@;
        }
        self.append_length(buffer);
        proof {
            bytes::lemma_join(start, done, length_token(self@.value));
            done = done + length_token(self@.value);
        }
        self.append_flags(buffer);
        proof {
            bytes::lemma_join(start, done, spaced(self@.flags));
            done = done + spaced(self@.flags);
        }
        Self::append_opaque(opaque, buffer);
        proof {
            bytes::lemma_join(start, done, opaque_token(as_position(opaque)));
            done = done + opaque_token(as_position(opaque));
        }
        self.append_base64_flag(needs_base64, buffer);
        proof {
            bytes::lemma_join(start, done, self@.base64_token());
            done = done + self@.base64_token();
            assert(done == self@.request_line(as_position(opaque)));
        }
        bytes::append_crlf(buffer);
        proof {
            bytes::lemma_join(start, done, bytes::crlf());
            done = done + bytes::crlf();
        }
        self.append_block(buffer);
        proof {
            bytes::lemma_join(start, done, data_block(self@.value));
        }
        Ok(())
    }

    /// A command with the same contents.
    pub fn duplicate(&self) -> (r: MetaCommand)
        ensures
            r@ == self@,
    {
        MetaCommand {
            op: self.op,
            key: bytes::copy(self.key.as_slice()),
            flags: bytes::copy_list(&self.flags),
            value: bytes::copy_opt(&self.value),
        }
    }
}

/// A lightly framed meta protocol response: return code, raw flag tokens and
/// (for `VA`) the data block, filled in by the transport after it reads it.
#[derive(Debug, Clone, PartialEq, Eq)]
pub struct MetaResponse {
    pub rc: ReturnCode,
    pub datalen: Option<usize>,
    pub flags: Vec<Vec<u8>>,
    pub value: Option<Vec<u8>>,
}

/// What a [`MetaResponse`] holds.
pub struct MetaResponseView {
    pub rc: ReturnCode,
    pub datalen: Option<usize>,
    pub flags: Seq<Seq<u8>>,
    pub value: Option<Seq<u8>>,
}

impl View for MetaResponse {
    type V = MetaResponseView;

    open spec fn view(&self) -> MetaResponseView {
        MetaResponseView {
            rc: self.rc,
            datalen: self.datalen,
            flags: bytes::views(self.flags@),
            value: bytes::view_opt(self.value),
        }
    }
}

/// What a response header line says. Legacy `ERROR` / `CLIENT_ERROR` lines
/// are rejections and `SERVER_ERROR` lines server errors; only `VA` carries a
/// data length, as its first flag.
pub open spec fn header(line: Seq<u8>) -> Result<MetaResponseView, ErrorView> {
    let tokens = bytes::words(line);
    if tokens.len() == 0 {
        Err(error::protocol("empty response line"))
    } else {
        let message = text::trimmed(text::utf8_lossy(line.skip(tokens[0].len() as int)));
        if tokens[0] == bytes::utf8("ERROR") {
            Err(ErrorView::Rejected("ERROR"@))
        } else if tokens[0] == bytes::utf8("CLIENT_ERROR") {
            Err(ErrorView::Rejected(message))
        } else if tokens[0] == bytes::utf8("SERVER_ERROR") {
            Err(ErrorView::Server(message))
        } else {
            match return_code(tokens[0]) {
                Err(e) => Err(e),
                Ok(ReturnCode::Va) => header_with_length(tokens.skip(1)),
                Ok(rc) => Ok(MetaResponseView { rc, datalen: None, flags: tokens.skip(1), value: None }),
            }
        }
    }
}

/// What the tokens after `VA` say: the length of the data block, then flags.
pub open spec fn header_with_length(flags: Seq<Seq<u8>>) -> Result<MetaResponseView, ErrorView> {
    if flags.len() == 0 {
        Err(error::protocol("VA response missing data length"))
    } else {
        match decimal::parse_unsigned(flags[0], usize::MAX as nat) {
            Err(_) => Err(error::protocol("VA response has an invalid data length")),
            Ok(length) => if length > MAX_VALUE_LENGTH {
                Err(
                    ErrorView::Protocol(
                        "VA response announces "@ + text::number(length) + " bytes, above the "@ + text::number(
                            MAX_VALUE_LENGTH as nat,
                        ) + " byte limit"@,
                    ),
                )
            } else {
                Ok(
                    MetaResponseView {
                        rc: ReturnCode::Va,
                        datalen: Some(length as usize),
                        flags: flags.skip(1),
                        value: None,
                    },
                )
            },
        }
    }
}

impl MetaResponse {
    /// The wire return code.
    pub fn rc(&self) -> (r: ReturnCode)
        ensures
            r == self.rc,
    {
        self.rc
    }

    /// The raw response flag tokens.
    pub fn flags(&self) -> (r: &Vec<Vec<u8>>)
        ensures
            *r == self.flags,
    {
        &self.flags
    }

    /// The data block of a `VA` response.
    pub fn value(&self) -> (r: Option<&[u8]>)
        ensures
            match r {
                Some(bytes) => self@.value == Some(bytes@),
                None => self@.value is None,
            },
    {
        match &self.value {
            Some(bytes) => Some(bytes.as_slice()),
            None => None,
        }
    }

    /// Consume the response and take the data block of a `VA` response.
    pub fn into_value(self) -> (r: Option<Vec<u8>>)
        ensures
            r == self.value,
    {
        self.value
    }

    /// A response with the same contents.
    pub fn duplicate(&self) -> (r: MetaResponse)
        ensures
            r@ == self@,
    {
        MetaResponse {
            rc: self.rc,
            datalen: self.datalen,
            flags: bytes::copy_list(&self.flags),
            value: bytes::copy_opt(&self.value),
        }
    }

    /// Parse a response header line (without the trailing CRLF).
    ///
    /// Legacy `ERROR` / `CLIENT_ERROR` lines become [`Error::Rejected`] and
    /// `SERVER_ERROR` lines [`Error::Server`].
    pub fn parse_header(line: &[u8]) -> (r: Result<MetaResponse, Error>)
        ensures
            match r {
                Ok(response) => header(line@) == Ok::<MetaResponseView, ErrorView>(response@),
                Err(e) => header(line@) == Err::<MetaResponseView, ErrorView>(e@),
            },
    {
        let mut tokens = bytes::split_words(line);
        let ghost all = bytes::words(line@);
        if tokens.len() == 0 {
            return Err(Error::protocol("empty response line"));
        }
        proof {
            lemma_first_word_fits(line@);
        }
        let rc_token = tokens.remove(0);
        assert(all[0] == rc_token@);
        assert(bytes::views(tokens@) =~= all.skip(1));
        if bytes::equal(rc_token.as_slice(), "ERROR".as_bytes()) {
            return Err(Error::Rejected("ERROR".to_string()));
        }
        let rejected = bytes::equal(rc_token.as_slice(), "CLIENT_ERROR".as_bytes());
        if rejected || bytes::equal(rc_token.as_slice(), "SERVER_ERROR".as_bytes()) {
            let tail = vstd::slice::slice_subrange(line, rc_token.len(), line.len());
            assert(tail@ =~= line@.skip(rc_token@.len() as int));
            let lossy = text::from_utf8_lossy(tail);
            let message = text::trim(lossy.as_str());
            if rejected {
                return Err(Error::Rejected(message));
            }
            return Err(Error::Server(message));
        }
        let rc = match ReturnCode::from_wire(rc_token.as_slice()) {
            Ok(rc) => rc,
            Err(e) => {
                return Err(e);
            },
        };
        if rc != ReturnCode::Va {
            return Ok(MetaResponse { rc, datalen: None, flags: tokens, value: None });
        }
        if tokens.len() == 0 {
            return Err(Error::protocol("VA response missing data length"));
        }
        let token = tokens.remove(0);
        assert(all.skip(1)[0] == token@);
        assert(bytes::views(tokens@) =~= all.skip(1).skip(1));
        match decimal::read_unsigned(token.as_slice(), usize::MAX as u128) {
            Err(_) => Err(Error::protocol("VA response has an invalid data length")),
            Ok(length) => {
                if length > MAX_VALUE_LENGTH as u128 {
                    let shown = text::number_text(length);
                    let limit = text::number_text(MAX_VALUE_LENGTH as u128);
                    let mut message = text::join("VA response announces ", shown.as_str());
                    message.append(" bytes, above the ");
                    message.append(limit.as_str());
                    message.append(" byte limit");
                    return Err(Error::Protocol(message));
                }
                Ok(MetaResponse { rc, datalen: Some(length as usize), flags: tokens, value: None })
            },
        }
    }
}

proof fn lemma_first_word_fits(line: Seq<u8>)
    ensures
        bytes::words(line).len() > 0 ==> bytes::words(line)[0].len() <= line.len(),
    decreases line.len(),
{
    bytes::lemma_word_len(line);
    if line.len() > 0 && line[0] == 32 {
        lemma_first_word_fits(line.skip(1));
    }
}

} // verus!
