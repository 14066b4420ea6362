//! What each request sends: which flags stand in its command, letter by letter,
//! for every setting of its options.

use vstd::prelude::*;
use vstd::string::*;

use super::error::ErrorView;
use super::meta_api;
use super::meta_api::{ArithmeticMode, ArithmeticOptions, DeleteOptions, GetOptions, SetMode, SetOptions};
use super::meta_command::MetaOp;
use super::operation::{Arithmetic, Delete, Get, Store};
use super::scenario;
use super::scenario::StaleWin;
use super::semantics;
use super::ttl::{Freshness, Ttl, TtlRepr};
use super::value::EncodedView;
use crate::bytes;
use crate::decimal;
use crate::time::SystemTime;

verus! {

pub open spec fn begins(letter: u8) -> spec_fn(Seq<u8>) -> bool {
    |flag: Seq<u8>| flag.len() > 0 && flag[0] == letter
}

/// The flags that start with a letter, in order.
pub open spec fn lettered(flags: Seq<Seq<u8>>, letter: u8) -> Seq<Seq<u8>> {
    flags.filter(begins(letter))
}

/// Whether the flags that start with a letter are exactly these.
pub open spec fn shows(flags: Seq<Seq<u8>>, letter: u8, expected: Seq<Seq<u8>>) -> bool {
    lettered(flags, letter) == expected
}

/// A flag that is shown under its letter stands in the command, and where none is
/// shown no flag has that letter.
pub proof fn lemma_shown_flags_are_there(flags: Seq<Seq<u8>>, letter: u8, flag: Seq<u8>, i: int)
    ensures
        shows(flags, letter, seq![flag]) ==> flags.contains(flag),
        shows(flags, letter, Seq::empty()) && 0 <= i < flags.len() && flags[i].len() > 0 ==> flags[i][0] != letter,
    decreases flags.len(),
{
    reveal(Seq::filter);
    if flags.len() > 0 {
        let before = flags.drop_last();
        lemma_shown_flags_are_there(before, letter, flag, i);
        if shows(flags, letter, seq![flag]) {
            if begins(letter)(flags.last()) {
                assert(lettered(flags, letter).last() == flags.last());
                assert(flags[flags.len() - 1] == flag);
            } else {
                assert(lettered(flags, letter) =~= lettered(before, letter));
                let k = choose|k: int| 0 <= k < before.len() && before[k] == flag;
                assert(flags[k] == flag);
            }
        }
        if shows(flags, letter, Seq::empty()) {
            if begins(letter)(flags.last()) {
                assert(lettered(flags, letter).len() > 0);
            } else {
                assert(lettered(flags, letter) =~= lettered(before, letter));
                if 0 <= i < before.len() {
                    assert(flags[i] == before[i]);
                }
            }
        }
    } else if shows(flags, letter, seq![flag]) {
        assert(lettered(flags, letter).len() == 0);
    }
}

/// No flag, or the letter alone.
pub open spec fn bare(letter: char, present: bool) -> Seq<Seq<u8>> {
    if present {
        seq![seq![letter as u8]]
    } else {
        Seq::empty()
    }
}

/// No flag, or the letter followed by a number in decimal.
pub open spec fn counted(letter: char, number: Option<nat>) -> Seq<Seq<u8>> {
    match number {
        Some(n) => seq![seq![letter as u8] + decimal::decimal(n)],
        None => Seq::empty(),
    }
}

/// No flag, or the letter followed by a token.
pub open spec fn tagged(letter: char, token: Option<Seq<u8>>) -> Seq<Seq<u8>> {
    match token {
        Some(token) => seq![seq![letter as u8] + token],
        None => Seq::empty(),
    }
}

pub open spec fn long(number: Option<u64>) -> Option<nat> {
    match number {
        Some(n) => Some(n as nat),
        None => None,
    }
}

pub open spec fn short(number: Option<u32>) -> Option<nat> {
    match number {
        Some(n) => Some(n as nat),
        None => None,
    }
}

/// The number a lifetime is sent as, where it is given and can be sent.
pub open spec fn lifetime(ttl: Option<Ttl>, now: SystemTime) -> Option<nat> {
    match ttl {
        Some(ttl) => match ttl.wire_spec(now) {
            Ok(n) => Some(n as nat),
            Err(_) => None,
        },
        None => None,
    }
}

/// Whether an opaque token, where it is given, can stand in a request.
pub open spec fn opaque_fits(opaque: Option<Vec<u8>>) -> bool {
    match opaque {
        Some(token) => 1 <= token@.len() <= 32 && forall|i: int|
            0 <= i < token@.len() ==> #[trigger] token@[i] > 0x20 && token@[i] != 0x7f,
        None => true,
    }
}

#[verifier::opaque]
spec fn gathered(flags: Seq<Seq<u8>>, letter: u8, expected: Seq<Seq<u8>>) -> bool {
    lettered(flags, letter) == expected
}

spec fn pick(letter: u8, own: u8, flag: Seq<Seq<u8>>, found: Seq<Seq<u8>>) -> Seq<Seq<u8>> {
    if letter == own {
        flag
    } else {
        found
    }
}

proof fn lemma_done(flags: Seq<Seq<u8>>, letter: u8, expected: Seq<Seq<u8>>)
    requires
        gathered(flags, letter, expected),
    ensures
        shows(flags, letter, expected),
{
    reveal(gathered);
}

proof fn lemma_next(
    a: Seq<Seq<u8>>,
    b: Seq<Seq<u8>>,
    letter: u8,
    own: u8,
    found: Seq<Seq<u8>>,
    flag: Seq<Seq<u8>>,
)
    requires
        gathered(a, letter, found),
        gathered(b, letter, pick(letter, own, flag, Seq::empty())),
        own == letter ==> found.len() == 0,
    ensures
        gathered(a + b, letter, pick(letter, own, flag, found)),
{
    reveal(gathered);
    Seq::filter_distributes_over_add(a, b, begins(letter));
    assert(lettered(a + b, letter) =~= lettered(a, letter) + lettered(b, letter));
    assert(lettered(a + b, letter) =~= pick(letter, own, flag, found));
}

proof fn lemma_one(flag: Seq<u8>, letter: u8)
    requires
        flag.len() > 0,
    ensures
        lettered(seq![flag], letter) == (if flag[0] == letter {
            seq![flag]
        } else {
            Seq::empty()
        }),
        lettered(Seq::empty(), letter) == Seq::<Seq<u8>>::empty(),
{
    reveal(Seq::filter);
    let one = seq![flag];
    assert(one.drop_last() =~= Seq::<Seq<u8>>::empty());
    assert(one.last() == flag);
    assert(Seq::<Seq<u8>>::empty().filter(begins(letter)) =~= Seq::<Seq<u8>>::empty());
    assert(one.filter(begins(letter)) =~= (if flag[0] == letter {
        seq![flag]
    } else {
        Seq::empty()
    }));
}

/// Whether a literal is one letter.
spec fn spells(wire: &str, letter: char) -> bool {
    bytes::utf8(wire) == seq![letter as u8]
}

proof fn lemma_bare(present: bool, wire: &str, own: char, letter: u8)
    requires
        spells(wire, own),
    ensures
        gathered(meta_api::marker(present, bytes::utf8(wire)), letter, pick(letter, own as u8, bare(own, present), Seq::empty())),
{
    reveal(gathered);
    lemma_one(seq![own as u8], letter);
}

/// No flag, or the mode flag of a subtraction.
pub open spec fn subtraction(present: bool) -> Seq<Seq<u8>> {
    if present {
        seq![seq!['M' as u8, 'D' as u8]]
    } else {
        Seq::empty()
    }
}

/// No flag, or the mode flag of a store that is not a plain one.
pub open spec fn mode_flag(mode: SetMode) -> Seq<Seq<u8>> {
    match mode {
        SetMode::Store => Seq::empty(),
        SetMode::Add => seq![seq!['M' as u8, 'E' as u8]],
        SetMode::Replace => seq![seq!['M' as u8, 'R' as u8]],
        SetMode::Append => seq![seq!['M' as u8, 'A' as u8]],
        SetMode::Prepend => seq![seq!['M' as u8, 'P' as u8]],
    }
}

proof fn lemma_subtraction(present: bool, letter: u8)
    ensures
        gathered(meta_api::marker(present, bytes::utf8("MD")), letter, pick(letter, 'M' as u8, subtraction(present), Seq::empty())),
{
    assert(bytes::utf8("MD") == seq!['M' as u8, 'D' as u8]) by {
        reveal_strlit("MD");
        bytes::lemma_ascii_literal("MD");
    }
    reveal(gathered);
    lemma_one(seq!['M' as u8, 'D' as u8], letter);
}

proof fn lemma_counted(prefix: char, number: Option<u64>, letter: u8)
    ensures
        gathered(
            meta_api::token(prefix, number),
            letter,
            pick(letter, prefix as u8, counted(prefix, long(number)), Seq::empty()),
        ),
{
    reveal(gathered);
    lemma_one(seq![prefix as u8], letter);
    if let Some(n) = number {
        lemma_one(seq![prefix as u8] + decimal::decimal(n as nat), letter);
    }
}

proof fn lemma_tagged(opaque: Option<Seq<u8>>, letter: u8)
    ensures
        gathered(meta_api::opaque_flags(opaque), letter, pick(letter, 'O' as u8, tagged('O', opaque), Seq::empty())),
{
    reveal(gathered);
    lemma_one(seq!['O' as u8], letter);
    if let Some(token) = opaque {
        lemma_one(seq!['O' as u8] + token, letter);
    }
}

proof fn lemma_letters()
    ensures
        spells("v", 'v'),
        spells("f", 'f'),
        spells("c", 'c'),
        spells("t", 't'),
        spells("s", 's'),
        spells("l", 'l'),
        spells("h", 'h'),
        spells("k", 'k'),
        spells("u", 'u'),
        spells("I", 'I'),
        spells("x", 'x'),
{
    assert(spells("v", 'v')) by {
        reveal_strlit("v");
        bytes::lemma_ascii_literal("v");
        assert(bytes::utf8("v") =~= seq!['v' as u8]);
    }
    assert(spells("f", 'f')) by {
        reveal_strlit("f");
        bytes::lemma_ascii_literal("f");
        assert(bytes::utf8("f") =~= seq!['f' as u8]);
    }
    assert(spells("c", 'c')) by {
        reveal_strlit("c");
        bytes::lemma_ascii_literal("c");
        assert(bytes::utf8("c") =~= seq!['c' as u8]);
    }
    assert(spells("t", 't')) by {
        reveal_strlit("t");
        bytes::lemma_ascii_literal("t");
        assert(bytes::utf8("t") =~= seq!['t' as u8]);
    }
    assert(spells("s", 's')) by {
        reveal_strlit("s");
        bytes::lemma_ascii_literal("s");
        assert(bytes::utf8("s") =~= seq!['s' as u8]);
    }
    assert(spells("l", 'l')) by {
        reveal_strlit("l");
        bytes::lemma_ascii_literal("l");
        assert(bytes::utf8("l") =~= seq!['l' as u8]);
    }
    assert(spells("h", 'h')) by {
        reveal_strlit("h");
        bytes::lemma_ascii_literal("h");
        assert(bytes::utf8("h") =~= seq!['h' as u8]);
    }
    assert(spells("k", 'k')) by {
        reveal_strlit("k");
        bytes::lemma_ascii_literal("k");
        assert(bytes::utf8("k") =~= seq!['k' as u8]);
    }
    assert(spells("u", 'u')) by {
        reveal_strlit("u");
        bytes::lemma_ascii_literal("u");
        assert(bytes::utf8("u") =~= seq!['u' as u8]);
    }
    assert(spells("I", 'I')) by {
        reveal_strlit("I");
        bytes::lemma_ascii_literal("I");
        assert(bytes::utf8("I") =~= seq!['I' as u8]);
    }
    assert(spells("x", 'x')) by {
        reveal_strlit("x");
        bytes::lemma_ascii_literal("x");
        assert(bytes::utf8("x") =~= seq!['x' as u8]);
    }
}

/// The flag that a read has for a letter that carries no number: `v` asks for the
/// value, `f`, `c`, `t`, `s`, `l`, `h` and `k` for what is returned beside it,
/// `u` leaves the order of use alone.
pub open spec fn asked(options: GetOptions, letter: u8) -> Seq<Seq<u8>> {
    if letter == 'v' as u8 {
        bare('v', options.value)
    } else if letter == 'f' as u8 {
        bare('f', options.return_client_flags)
    } else if letter == 'c' as u8 {
        bare('c', options.return_cas)
    } else if letter == 't' as u8 {
        bare('t', options.return_ttl)
    } else if letter == 's' as u8 {
        bare('s', options.return_size)
    } else if letter == 'l' as u8 {
        bare('l', options.return_last_access)
    } else if letter == 'h' as u8 {
        bare('h', options.return_hit_before)
    } else if letter == 'k' as u8 {
        bare('k', options.return_key)
    } else if letter == 'u' as u8 {
        bare('u', options.no_lru_bump)
    } else {
        Seq::empty()
    }
}

/// The flags of a read that carry no number.
spec fn read_markers(options: GetOptions) -> Seq<Seq<u8>> {
    meta_api::marker(options.value, bytes::utf8("v")) + meta_api::marker(options.return_client_flags, bytes::utf8("f")) + meta_api::marker(options.return_cas, bytes::utf8("c")) + meta_api::marker(options.return_ttl, bytes::utf8("t")) + meta_api::marker(options.return_size, bytes::utf8("s")) + meta_api::marker(options.return_last_access, bytes::utf8("l")) + meta_api::marker(options.return_hit_before, bytes::utf8("h")) + meta_api::marker(options.return_key, bytes::utf8("k")) + meta_api::marker(options.no_lru_bump, bytes::utf8("u"))
}

#[verifier::spinoff_prover]
proof fn lemma_read_markers(options: GetOptions, letter: u8)
    ensures
        gathered(read_markers(options), letter, asked(options, letter)),
{
    lemma_letters();
    lemma_bare(options.value, "v", 'v', letter);
    lemma_bare(options.return_client_flags, "f", 'f', letter);
    lemma_bare(options.return_cas, "c", 'c', letter);
    lemma_bare(options.return_ttl, "t", 't', letter);
    lemma_bare(options.return_size, "s", 's', letter);
    lemma_bare(options.return_last_access, "l", 'l', letter);
    lemma_bare(options.return_hit_before, "h", 'h', letter);
    lemma_bare(options.return_key, "k", 'k', letter);
    lemma_bare(options.no_lru_bump, "u", 'u', letter);
    let p0 = meta_api::marker(options.value, bytes::utf8("v"));
    let x0 = pick(letter, 'v' as u8, bare('v', options.value), Seq::empty());
    let p1 = meta_api::marker(options.return_client_flags, bytes::utf8("f"));
    let s1 = p0 + p1;
    lemma_next(p0, p1, letter, 'f' as u8, x0, bare('f', options.return_client_flags));
    let x1 = pick(letter, 'f' as u8, bare('f', options.return_client_flags), x0);
    let p2 = meta_api::marker(options.return_cas, bytes::utf8("c"));
    let s2 = s1 + p2;
    lemma_next(s1, p2, letter, 'c' as u8, x1, bare('c', options.return_cas));
    let x2 = pick(letter, 'c' as u8, bare('c', options.return_cas), x1);
    let p3 = meta_api::marker(options.return_ttl, bytes::utf8("t"));
    let s3 = s2 + p3;
    lemma_next(s2, p3, letter, 't' as u8, x2, bare('t', options.return_ttl));
    let x3 = pick(letter, 't' as u8, bare('t', options.return_ttl), x2);
    let p4 = meta_api::marker(options.return_size, bytes::utf8("s"));
    let s4 = s3 + p4;
    lemma_next(s3, p4, letter, 's' as u8, x3, bare('s', options.return_size));
    let x4 = pick(letter, 's' as u8, bare('s', options.return_size), x3);
    let p5 = meta_api::marker(options.return_last_access, bytes::utf8("l"));
    let s5 = s4 + p5;
    lemma_next(s4, p5, letter, 'l' as u8, x4, bare('l', options.return_last_access));
    let x5 = pick(letter, 'l' as u8, bare('l', options.return_last_access), x4);
    let p6 = meta_api::marker(options.return_hit_before, bytes::utf8("h"));
    let s6 = s5 + p6;
    lemma_next(s5, p6, letter, 'h' as u8, x5, bare('h', options.return_hit_before));
    let x6 = pick(letter, 'h' as u8, bare('h', options.return_hit_before), x5);
    let p7 = meta_api::marker(options.return_key, bytes::utf8("k"));
    let s7 = s6 + p7;
    lemma_next(s6, p7, letter, 'k' as u8, x6, bare('k', options.return_key));
    let x7 = pick(letter, 'k' as u8, bare('k', options.return_key), x6);
    let p8 = meta_api::marker(options.no_lru_bump, bytes::utf8("u"));
    let s8 = s7 + p8;
    lemma_next(s7, p8, letter, 'u' as u8, x7, bare('u', options.no_lru_bump));
    let x8 = pick(letter, 'u' as u8, bare('u', options.no_lru_bump), x7);
}

/// A read has each flag exactly where its option asks for it, with the option's
/// number: the plain letters as asked, `T` to set the TTL, `N` to create on a
/// miss, `R` to renew below a TTL, `C` to skip an unchanged value, `E` for a new
/// CAS, `O` for the opaque token. It has no other flag.
#[verifier::spinoff_prover]
#[verifier::rlimit(40)]
pub proof fn lemma_get_flags(options: GetOptions, letter: u8)
    ensures
        shows(options.flags(), letter,
        if letter == 'T' as u8 {
            counted('T', short(options.touch))
        } else if letter == 'N' as u8 {
            counted('N', short(options.vivify_ttl))
        } else if letter == 'R' as u8 {
            counted('R', short(options.recache_ttl))
        } else if letter == 'C' as u8 {
            counted('C', long(options.unless_cas))
        } else if letter == 'E' as u8 {
            counted('E', long(options.new_cas))
        } else if letter == 'O' as u8 {
            tagged('O', bytes::view_opt(options.opaque))
        } else {
            asked(options, letter)
        }),
{
    lemma_letters();
    lemma_read_markers(options, letter);
    lemma_counted('T', meta_api::wide(options.touch), letter);
    lemma_counted('N', meta_api::wide(options.vivify_ttl), letter);
    lemma_counted('R', meta_api::wide(options.recache_ttl), letter);
    lemma_counted('C', options.unless_cas, letter);
    lemma_counted('E', options.new_cas, letter);
    lemma_tagged(bytes::view_opt(options.opaque), letter);
    let p0 = read_markers(options);
    let x0 = asked(options, letter);
    let p1 = meta_api::token('T', meta_api::wide(options.touch));
    let s1 = p0 + p1;
    lemma_next(p0, p1, letter, 'T' as u8, x0, counted('T', short(options.touch)));
    let x1 = pick(letter, 'T' as u8, counted('T', short(options.touch)), x0);
    let p2 = meta_api::token('N', meta_api::wide(options.vivify_ttl));
    let s2 = s1 + p2;
    lemma_next(s1, p2, letter, 'N' as u8, x1, counted('N', short(options.vivify_ttl)));
    let x2 = pick(letter, 'N' as u8, counted('N', short(options.vivify_ttl)), x1);
    let p3 = meta_api::token('R', meta_api::wide(options.recache_ttl));
    let s3 = s2 + p3;
    lemma_next(s2, p3, letter, 'R' as u8, x2, counted('R', short(options.recache_ttl)));
    let x3 = pick(letter, 'R' as u8, counted('R', short(options.recache_ttl)), x2);
    let p4 = meta_api::token('C', options.unless_cas);
    let s4 = s3 + p4;
    lemma_next(s3, p4, letter, 'C' as u8, x3, counted('C', long(options.unless_cas)));
    let x4 = pick(letter, 'C' as u8, counted('C', long(options.unless_cas)), x3);
    let p5 = meta_api::token('E', options.new_cas);
    let s5 = s4 + p5;
    lemma_next(s4, p5, letter, 'E' as u8, x4, counted('E', long(options.new_cas)));
    let x5 = pick(letter, 'E' as u8, counted('E', long(options.new_cas)), x4);
    let p6 = meta_api::opaque_flags(bytes::view_opt(options.opaque));
    let s6 = s5 + p6;
    lemma_next(s5, p6, letter, 'O' as u8, x5, tagged('O', bytes::view_opt(options.opaque)));
    let x6 = pick(letter, 'O' as u8, tagged('O', bytes::view_opt(options.opaque)), x5);
    lemma_done(s6, letter, x6);
}

proof fn lemma_mode(mode: SetMode, letter: u8)
    ensures
        gathered(mode.flags(), letter, pick(letter, 'M' as u8, mode_flag(mode), Seq::empty())),
{
    assert(bytes::utf8("ME") == seq!['M' as u8, 'E' as u8]) by {
        reveal_strlit("ME");
        bytes::lemma_ascii_literal("ME");
    }
    assert(bytes::utf8("MR") == seq!['M' as u8, 'R' as u8]) by {
        reveal_strlit("MR");
        bytes::lemma_ascii_literal("MR");
    }
    assert(bytes::utf8("MA") == seq!['M' as u8, 'A' as u8]) by {
        reveal_strlit("MA");
        bytes::lemma_ascii_literal("MA");
    }
    assert(bytes::utf8("MP") == seq!['M' as u8, 'P' as u8]) by {
        reveal_strlit("MP");
        bytes::lemma_ascii_literal("MP");
    }
    reveal(gathered);
    lemma_one(bytes::utf8("ME"), letter);
    lemma_one(bytes::utf8("MR"), letter);
    lemma_one(bytes::utf8("MA"), letter);
    lemma_one(bytes::utf8("MP"), letter);
}

/// A store has each flag exactly where its option asks for it, with the option's
/// number: `M` and a letter for every mode but the plain one, `I` to mark the
/// item stale, `c`, `s` and `k` for what is returned, `F` for the client flags,
/// `T` for the TTL, `C` for the CAS to compare, `E` for a new CAS, `N` to create
/// on a miss, `O` for the opaque token. It has no other flag.
#[verifier::spinoff_prover]
#[verifier::rlimit(40)]
pub proof fn lemma_set_flags(options: SetOptions, letter: u8)
    ensures
        shows(options.flags(), letter,
        if letter == 'M' as u8 {
            mode_flag(options.mode)
        } else if letter == 'I' as u8 {
            bare('I', options.invalidate)
        } else if letter == 'c' as u8 {
            bare('c', options.return_cas)
        } else if letter == 's' as u8 {
            bare('s', options.return_size)
        } else if letter == 'k' as u8 {
            bare('k', options.return_key)
        } else if letter == 'F' as u8 {
            counted('F', short(options.client_flags))
        } else if letter == 'T' as u8 {
            counted('T', short(options.ttl))
        } else if letter == 'C' as u8 {
            counted('C', long(options.compare_cas))
        } else if letter == 'E' as u8 {
            counted('E', long(options.new_cas))
        } else if letter == 'N' as u8 {
            counted('N', short(options.vivify_ttl))
        } else if letter == 'O' as u8 {
            tagged('O', bytes::view_opt(options.opaque))
        } else {
            Seq::empty()
        }),
{
    lemma_letters();
    lemma_mode(options.mode, letter);
    lemma_bare(options.invalidate, "I", 'I', letter);
    lemma_bare(options.return_cas, "c", 'c', letter);
    lemma_bare(options.return_size, "s", 's', letter);
    lemma_bare(options.return_key, "k", 'k', letter);
    lemma_counted('F', meta_api::wide(options.client_flags), letter);
    lemma_counted('T', meta_api::wide(options.ttl), letter);
    lemma_counted('C', options.compare_cas, letter);
    lemma_counted('E', options.new_cas, letter);
    lemma_counted('N', meta_api::wide(options.vivify_ttl), letter);
    lemma_tagged(bytes::view_opt(options.opaque), letter);
    let p0 = options.mode.flags();
    let x0 = pick(letter, 'M' as u8, mode_flag(options.mode), Seq::empty());
    let p1 = meta_api::marker(options.invalidate, bytes::utf8("I"));
    let s1 = p0 + p1;
    lemma_next(p0, p1, letter, 'I' as u8, x0, bare('I', options.invalidate));
    let x1 = pick(letter, 'I' as u8, bare('I', options.invalidate), x0);
    let p2 = meta_api::marker(options.return_cas, bytes::utf8("c"));
    let s2 = s1 + p2;
    lemma_next(s1, p2, letter, 'c' as u8, x1, bare('c', options.return_cas));
    let x2 = pick(letter, 'c' as u8, bare('c', options.return_cas), x1);
    let p3 = meta_api::marker(options.return_size, bytes::utf8("s"));
    let s3 = s2 + p3;
    lemma_next(s2, p3, letter, 's' as u8, x2, bare('s', options.return_size));
    let x3 = pick(letter, 's' as u8, bare('s', options.return_size), x2);
    let p4 = meta_api::marker(options.return_key, bytes::utf8("k"));
    let s4 = s3 + p4;
    lemma_next(s3, p4, letter, 'k' as u8, x3, bare('k', options.return_key));
    let x4 = pick(letter, 'k' as u8, bare('k', options.return_key), x3);
    let p5 = meta_api::token('F', meta_api::wide(options.client_flags));
    let s5 = s4 + p5;
    lemma_next(s4, p5, letter, 'F' as u8, x4, counted('F', short(options.client_flags)));
    let x5 = pick(letter, 'F' as u8, counted('F', short(options.client_flags)), x4);
    let p6 = meta_api::token('T', meta_api::wide(options.ttl));
    let s6 = s5 + p6;
    lemma_next(s5, p6, letter, 'T' as u8, x5, counted('T', short(options.ttl)));
    let x6 = pick(letter, 'T' as u8, counted('T', short(options.ttl)), x5);
    let p7 = meta_api::token('C', options.compare_cas);
    let s7 = s6 + p7;
    lemma_next(s6, p7, letter, 'C' as u8, x6, counted('C', long(options.compare_cas)));
    let x7 = pick(letter, 'C' as u8, counted('C', long(options.compare_cas)), x6);
    let p8 = meta_api::token('E', options.new_cas);
    let s8 = s7 + p8;
    lemma_next(s7, p8, letter, 'E' as u8, x7, counted('E', long(options.new_cas)));
    let x8 = pick(letter, 'E' as u8, counted('E', long(options.new_cas)), x7);
    let p9 = meta_api::token('N', meta_api::wide(options.vivify_ttl));
    let s9 = s8 + p9;
    lemma_next(s8, p9, letter, 'N' as u8, x8, counted('N', short(options.vivify_ttl)));
    let x9 = pick(letter, 'N' as u8, counted('N', short(options.vivify_ttl)), x8);
    let p10 = meta_api::opaque_flags(bytes::view_opt(options.opaque));
    let s10 = s9 + p10;
    lemma_next(s9, p10, letter, 'O' as u8, x9, tagged('O', bytes::view_opt(options.opaque)));
    let x10 = pick(letter, 'O' as u8, tagged('O', bytes::view_opt(options.opaque)), x9);
    lemma_done(s10, letter, x10);
}

/// A delete has each flag exactly where its option asks for it, with the option's
/// number: `I` to mark the item stale, `x` to drop the value, `k` for the key,
/// `C` for the CAS to compare, `E` for a new CAS, `T` for the TTL, `O` for the
/// opaque token. It has no other flag.
#[verifier::spinoff_prover]
#[verifier::rlimit(40)]
pub proof fn lemma_delete_flags(options: DeleteOptions, letter: u8)
    ensures
        shows(options.flags(), letter,
        if letter == 'I' as u8 {
            bare('I', options.invalidate)
        } else if letter == 'x' as u8 {
            bare('x', options.drop_value)
        } else if letter == 'k' as u8 {
            bare('k', options.return_key)
        } else if letter == 'C' as u8 {
            counted('C', long(options.compare_cas))
        } else if letter == 'E' as u8 {
            counted('E', long(options.new_cas))
        } else if letter == 'T' as u8 {
            counted('T', short(options.ttl))
        } else if letter == 'O' as u8 {
            tagged('O', bytes::view_opt(options.opaque))
        } else {
            Seq::empty()
        }),
{
    lemma_letters();
    lemma_bare(options.invalidate, "I", 'I', letter);
    lemma_bare(options.drop_value, "x", 'x', letter);
    lemma_bare(options.return_key, "k", 'k', letter);
    lemma_counted('C', options.compare_cas, letter);
    lemma_counted('E', options.new_cas, letter);
    lemma_counted('T', meta_api::wide(options.ttl), letter);
    lemma_tagged(bytes::view_opt(options.opaque), letter);
    let p0 = meta_api::marker(options.invalidate, bytes::utf8("I"));
    let x0 = pick(letter, 'I' as u8, bare('I', options.invalidate), Seq::empty());
    let p1 = meta_api::marker(options.drop_value, bytes::utf8("x"));
    let s1 = p0 + p1;
    lemma_next(p0, p1, letter, 'x' as u8, x0, bare('x', options.drop_value));
    let x1 = pick(letter, 'x' as u8, bare('x', options.drop_value), x0);
    let p2 = meta_api::marker(options.return_key, bytes::utf8("k"));
    let s2 = s1 + p2;
    lemma_next(s1, p2, letter, 'k' as u8, x1, bare('k', options.return_key));
    let x2 = pick(letter, 'k' as u8, bare('k', options.return_key), x1);
    let p3 = meta_api::token('C', options.compare_cas);
    let s3 = s2 + p3;
    lemma_next(s2, p3, letter, 'C' as u8, x2, counted('C', long(options.compare_cas)));
    let x3 = pick(letter, 'C' as u8, counted('C', long(options.compare_cas)), x2);
    let p4 = meta_api::token('E', options.new_cas);
    let s4 = s3 + p4;
    lemma_next(s3, p4, letter, 'E' as u8, x3, counted('E', long(options.new_cas)));
    let x4 = pick(letter, 'E' as u8, counted('E', long(options.new_cas)), x3);
    let p5 = meta_api::token('T', meta_api::wide(options.ttl));
    let s5 = s4 + p5;
    lemma_next(s4, p5, letter, 'T' as u8, x4, counted('T', short(options.ttl)));
    let x5 = pick(letter, 'T' as u8, counted('T', short(options.ttl)), x4);
    let p6 = meta_api::opaque_flags(bytes::view_opt(options.opaque));
    let s6 = s5 + p6;
    lemma_next(s5, p6, letter, 'O' as u8, x5, tagged('O', bytes::view_opt(options.opaque)));
    let x6 = pick(letter, 'O' as u8, tagged('O', bytes::view_opt(options.opaque)), x5);
    lemma_done(s6, letter, x6);
}

/// A counter command has each flag exactly where its option asks for it, with the
/// option's number: `MD` to subtract, `v`, `t`, `c` and `k` for what is
/// returned, `D` for the delta, `N` to create on a miss and `J` for the value to
/// start from, `T` for the TTL, `C` for the CAS to compare, `E` for a new CAS,
/// `O` for the opaque token. It has no other flag.
#[verifier::spinoff_prover]
#[verifier::rlimit(40)]
pub proof fn lemma_arithmetic_flags(options: ArithmeticOptions, letter: u8)
    ensures
        shows(options.flags(), letter,
        if letter == 'M' as u8 {
            subtraction(options.mode == ArithmeticMode::Decrement)
        } else if letter == 'v' as u8 {
            bare('v', options.return_value)
        } else if letter == 't' as u8 {
            bare('t', options.return_ttl)
        } else if letter == 'c' as u8 {
            bare('c', options.return_cas)
        } else if letter == 'k' as u8 {
            bare('k', options.return_key)
        } else if letter == 'D' as u8 {
            counted('D', long(options.delta))
        } else if letter == 'N' as u8 {
            counted('N', short(options.initial_ttl))
        } else if letter == 'J' as u8 {
            counted('J', long(options.initial))
        } else if letter == 'T' as u8 {
            counted('T', short(options.ttl))
        } else if letter == 'C' as u8 {
            counted('C', long(options.compare_cas))
        } else if letter == 'E' as u8 {
            counted('E', long(options.new_cas))
        } else if letter == 'O' as u8 {
            tagged('O', bytes::view_opt(options.opaque))
        } else {
            Seq::empty()
        }),
{
    lemma_letters();
    lemma_subtraction(options.mode == ArithmeticMode::Decrement, letter);
    lemma_bare(options.return_value, "v", 'v', letter);
    lemma_bare(options.return_ttl, "t", 't', letter);
    lemma_bare(options.return_cas, "c", 'c', letter);
    lemma_bare(options.return_key, "k", 'k', letter);
    lemma_counted('D', options.delta, letter);
    lemma_counted('N', meta_api::wide(options.initial_ttl), letter);
    lemma_counted('J', options.initial, letter);
    lemma_counted('T', meta_api::wide(options.ttl), letter);
    lemma_counted('C', options.compare_cas, letter);
    lemma_counted('E', options.new_cas, letter);
    lemma_tagged(bytes::view_opt(options.opaque), letter);
    let p0 = meta_api::marker(options.mode == ArithmeticMode::Decrement, bytes::utf8("MD"));
    let x0 = pick(letter, 'M' as u8, subtraction(options.mode == ArithmeticMode::Decrement), Seq::empty());
    let p1 = meta_api::marker(options.return_value, bytes::utf8("v"));
    let s1 = p0 + p1;
    lemma_next(p0, p1, letter, 'v' as u8, x0, bare('v', options.return_value));
    let x1 = pick(letter, 'v' as u8, bare('v', options.return_value), x0);
    let p2 = meta_api::marker(options.return_ttl, bytes::utf8("t"));
    let s2 = s1 + p2;
    lemma_next(s1, p2, letter, 't' as u8, x1, bare('t', options.return_ttl));
    let x2 = pick(letter, 't' as u8, bare('t', options.return_ttl), x1);
    let p3 = meta_api::marker(options.return_cas, bytes::utf8("c"));
    let s3 = s2 + p3;
    lemma_next(s2, p3, letter, 'c' as u8, x2, bare('c', options.return_cas));
    let x3 = pick(letter, 'c' as u8, bare('c', options.return_cas), x2);
    let p4 = meta_api::marker(options.return_key, bytes::utf8("k"));
    let s4 = s3 + p4;
    lemma_next(s3, p4, letter, 'k' as u8, x3, bare('k', options.return_key));
    let x4 = pick(letter, 'k' as u8, bare('k', options.return_key), x3);
    let p5 = meta_api::token('D', options.delta);
    let s5 = s4 + p5;
    lemma_next(s4, p5, letter, 'D' as u8, x4, counted('D', long(options.delta)));
    let x5 = pick(letter, 'D' as u8, counted('D', long(options.delta)), x4);
    let p6 = meta_api::token('N', meta_api::wide(options.initial_ttl));
    let s6 = s5 + p6;
    lemma_next(s5, p6, letter, 'N' as u8, x5, counted('N', short(options.initial_ttl)));
    let x6 = pick(letter, 'N' as u8, counted('N', short(options.initial_ttl)), x5);
    let p7 = meta_api::token('J', options.initial);
    let s7 = s6 + p7;
    lemma_next(s6, p7, letter, 'J' as u8, x6, counted('J', long(options.initial)));
    let x7 = pick(letter, 'J' as u8, counted('J', long(options.initial)), x6);
    let p8 = meta_api::token('T', meta_api::wide(options.ttl));
    let s8 = s7 + p8;
    lemma_next(s7, p8, letter, 'T' as u8, x7, counted('T', short(options.ttl)));
    let x8 = pick(letter, 'T' as u8, counted('T', short(options.ttl)), x7);
    let p9 = meta_api::token('C', options.compare_cas);
    let s9 = s8 + p9;
    lemma_next(s8, p9, letter, 'C' as u8, x8, counted('C', long(options.compare_cas)));
    let x9 = pick(letter, 'C' as u8, counted('C', long(options.compare_cas)), x8);
    let p10 = meta_api::token('E', options.new_cas);
    let s10 = s9 + p10;
    lemma_next(s9, p10, letter, 'E' as u8, x9, counted('E', long(options.new_cas)));
    let x10 = pick(letter, 'E' as u8, counted('E', long(options.new_cas)), x9);
    let p11 = meta_api::opaque_flags(bytes::view_opt(options.opaque));
    let s11 = s10 + p11;
    lemma_next(s10, p11, letter, 'O' as u8, x10, tagged('O', bytes::view_opt(options.opaque)));
    let x11 = pick(letter, 'O' as u8, tagged('O', bytes::view_opt(options.opaque)), x10);
    lemma_done(s11, letter, x11);
}

/// A read command carries its key and no value, and is refused only for a window
/// of zero or an opaque token that cannot stand in a request.
pub proof fn lemma_get_command(key: Seq<u8>, options: GetOptions)
    ensures
        match meta_api::get_command(key, options) {
            Ok(command) => {
                &&& options.recache_ttl != Some(0u32)
                &&& opaque_fits(options.opaque)
                &&& command.op == MetaOp::Get
                &&& command.key == key
                &&& command.value == None::<Seq<u8>>
                &&& command.flags == options.flags()
            },
            Err(e) => e is Usage && (options.recache_ttl == Some(0u32) || !opaque_fits(options.opaque)),
        },
{
}

/// A store command carries its key and value. It is refused only where a lifetime
/// does not go with the mode, where a CAS to compare meets an add, or for an
/// opaque token that cannot stand in a request.
pub proof fn lemma_set_command(key: Seq<u8>, value: Seq<u8>, options: SetOptions)
    ensures
        ({
            let joins = options.mode == SetMode::Append || options.mode == SetMode::Prepend;
            let fits = (options.vivify_ttl is Some ==> joins) && (options.ttl is Some ==> !joins) && (
            options.compare_cas is Some ==> options.mode != SetMode::Add) && opaque_fits(options.opaque);
            match meta_api::set_command(key, value, options) {
                Ok(command) => {
                    &&& fits
                    &&& command.op == MetaOp::Store
                    &&& command.key == key
                    &&& command.value == Some(value)
                    &&& command.flags == options.flags()
                },
                Err(e) => e is Usage && !fits,
            }
        }),
{
}

/// A delete command carries its key and no value, and is refused only where a TTL
/// comes without a mark to apply it to, or for an opaque token that cannot stand
/// in a request.
pub proof fn lemma_delete_command(key: Seq<u8>, options: DeleteOptions)
    ensures
        match meta_api::delete_command(key, options) {
            Ok(command) => {
                &&& options.ttl is Some ==> options.invalidate
                &&& opaque_fits(options.opaque)
                &&& command.op == MetaOp::Delete
                &&& command.key == key
                &&& command.value == None::<Seq<u8>>
                &&& command.flags == options.flags()
            },
            Err(e) => e is Usage && ((options.ttl is Some && !options.invalidate) || !opaque_fits(options.opaque)),
        },
{
}

/// A counter command carries its key and no value, and is refused only where a
/// value to start from comes without a TTL to create it with, or for an opaque
/// token that cannot stand in a request.
pub proof fn lemma_arithmetic_command(key: Seq<u8>, options: ArithmeticOptions)
    ensures
        match meta_api::arithmetic_command(key, options) {
            Ok(command) => {
                &&& options.initial is Some ==> options.initial_ttl is Some
                &&& opaque_fits(options.opaque)
                &&& command.op == MetaOp::Arithmetic
                &&& command.key == key
                &&& command.value == None::<Seq<u8>>
                &&& command.flags == options.flags()
            },
            Err(e) => e is Usage && ((options.initial is Some && options.initial_ttl is None) || !opaque_fits(
                options.opaque,
            )),
        },
{
}

/// A read operation sends one flag for each thing that was asked of it and none for
/// what was not: a CAS to skip on, a lease, a window and a TTL come with their
/// numbers. It fails only where its options contradict each other or its TTL
/// cannot be sent.
#[verifier::spinoff_prover]
#[verifier::rlimit(40)]
pub proof fn lemma_get_sends_its_options(operation: Get, now: SystemTime, letter: u8)
    ensures
        match semantics::get_prepared(operation, now) {
            Ok(command) => {
                &&& operation.lease_ttl != Some(0u32)
                &&& operation.refresh_before != Some(0u32)
                &&& operation.refresh_before is Some ==> operation.lease_ttl is Some
                &&& operation.unless_cas is Some ==> operation.value
                &&& operation.touch matches Some(touch) ==> touch.wire_spec(now) is Ok
                &&& command.op == MetaOp::Get
                &&& command.key == operation.key@
                &&& command.value == None::<Seq<u8>>
                &&& shows(command.flags, letter, if letter == 'v' as u8 {
                    bare('v', operation.value)
                } else if letter == 'f' as u8 {
                    bare('f', true)
                } else if letter == 'c' as u8 {
                    bare('c', operation.meta.cas || operation.lease_ttl is Some || operation.unless_cas is Some)
                } else if letter == 't' as u8 {
                    bare('t', operation.meta.ttl)
                } else if letter == 's' as u8 {
                    bare('s', operation.meta.size)
                } else if letter == 'l' as u8 {
                    bare('l', operation.meta.last_access)
                } else if letter == 'h' as u8 {
                    bare('h', operation.meta.hit_before)
                } else if letter == 'u' as u8 {
                    bare('u', operation.no_lru_bump)
                } else if letter == 'T' as u8 {
                    counted('T', lifetime(operation.touch, now))
                } else if letter == 'N' as u8 {
                    counted('N', short(operation.lease_ttl))
                } else if letter == 'R' as u8 {
                    counted('R', short(operation.refresh_before))
                } else if letter == 'C' as u8 {
                    counted('C', long(operation.unless_cas))
                } else {
                    Seq::empty()
                })
            },
            Err(e) => e is Usage && (operation.lease_ttl == Some(0u32) || operation.refresh_before == Some(0u32) || (
            operation.refresh_before is Some && operation.lease_ttl is None) || (operation.unless_cas is Some
                && !operation.value) || (operation.touch matches Some(touch) && touch.wire_spec(now) is Err)),
        },
{
    if let Ok(touch) = semantics::wire_opt(operation.touch, now) {
        lemma_get_flags(
            GetOptions {
                value: operation.value,
                return_client_flags: true,
                return_cas: operation.meta.cas || operation.lease_ttl is Some || operation.unless_cas is Some,
                return_ttl: operation.meta.ttl,
                return_size: operation.meta.size,
                return_last_access: operation.meta.last_access,
                return_hit_before: operation.meta.hit_before,
                no_lru_bump: operation.no_lru_bump,
                touch,
                vivify_ttl: operation.lease_ttl,
                recache_ttl: operation.refresh_before,
                unless_cas: operation.unless_cas,
                ..GetOptions::plain()
            },
            letter,
        );
    }
}

/// A store operation sends one flag for each option it was given and none for those
/// it was not: the CAS to compare as `C`, a forced CAS as `E`, client flags other
/// than zero as `F`, the TTL as `T`, the TTL of a created item as `N`, each
/// followed by the number. It sends the key and the value as they are, and fails
/// only where its options contradict each other or its TTL cannot be sent.
#[verifier::spinoff_prover]
#[verifier::rlimit(40)]
pub proof fn lemma_store_sends_its_options(operation: Store, now: SystemTime, letter: u8)
    ensures
        match semantics::set_prepared(operation, now) {
            Ok(command) => {
                &&& operation.vivify_ttl != Some(0u32)
                &&& operation.ttl matches Some(ttl) ==> ttl.wire_spec(now) is Ok
                &&& operation.vivify_ttl is Some ==> operation.mode == SetMode::Append || operation.mode == SetMode::Prepend
                &&& operation.ttl is Some ==> operation.mode != SetMode::Append && operation.mode != SetMode::Prepend
                &&& operation.compare_cas is Some ==> operation.mode != SetMode::Add
                &&& command.op == MetaOp::Store
                &&& command.key == operation.key@
                &&& command.value == Some(operation.value@)
                &&& shows(command.flags, letter, if letter == 'M' as u8 {
                    mode_flag(operation.mode)
                } else if letter == 'c' as u8 {
                    bare('c', operation.return_cas)
                } else if letter == 'F' as u8 {
                    counted('F', if operation.client_flags == 0 { None } else { Some(operation.client_flags as nat) })
                } else if letter == 'T' as u8 {
                    counted('T', lifetime(operation.ttl, now))
                } else if letter == 'C' as u8 {
                    counted('C', long(operation.compare_cas))
                } else if letter == 'E' as u8 {
                    counted('E', long(operation.force_cas))
                } else if letter == 'N' as u8 {
                    counted('N', short(operation.vivify_ttl))
                } else {
                    Seq::empty()
                })
            },
            Err(e) => e is Usage && (operation.vivify_ttl == Some(0u32) || (operation.ttl matches Some(ttl) && ttl.wire_spec(
                now,
            ) is Err) || (operation.vivify_ttl is Some && operation.mode != SetMode::Append && operation.mode
                != SetMode::Prepend) || (operation.ttl is Some && (operation.mode == SetMode::Append || operation.mode
                == SetMode::Prepend)) || (operation.compare_cas is Some && operation.mode == SetMode::Add)),
        },
{
    if let Ok(ttl) = semantics::wire_opt(operation.ttl, now) {
        lemma_set_flags(
            SetOptions {
                client_flags: semantics::wire_flags(operation.client_flags),
                ttl,
                mode: operation.mode,
                compare_cas: operation.compare_cas,
                new_cas: operation.force_cas,
                vivify_ttl: operation.vivify_ttl,
                return_cas: operation.return_cas,
                ..SetOptions::plain()
            },
            letter,
        );
    }
}

/// A delete operation sends one flag for each option it was given and none for
/// those it was not: the CAS to compare as `C`, the mark as `I`, the time to stay
/// stale as `T`. It fails only where a time to stay stale comes without the mark,
/// or cannot be sent.
#[verifier::spinoff_prover]
#[verifier::rlimit(40)]
pub proof fn lemma_delete_sends_its_options(operation: Delete, now: SystemTime, letter: u8)
    ensures
        match semantics::delete_prepared(operation, now) {
            Ok(command) => {
                &&& operation.stale_for is Some ==> operation.invalidate
                &&& operation.stale_for matches Some(ttl) ==> ttl.wire_spec(now) is Ok
                &&& command.op == MetaOp::Delete
                &&& command.key == operation.key@
                &&& command.value == None::<Seq<u8>>
                &&& shows(command.flags, letter, if letter == 'I' as u8 {
                    bare('I', operation.invalidate)
                } else if letter == 'C' as u8 {
                    counted('C', long(operation.compare_cas))
                } else if letter == 'T' as u8 {
                    counted('T', lifetime(operation.stale_for, now))
                } else {
                    Seq::empty()
                })
            },
            Err(e) => e is Usage && operation.stale_for is Some && (!operation.invalidate || operation.stale_for->0.wire_spec(now) is Err),
        },
{
    if let Ok(ttl) = semantics::wire_opt(operation.stale_for, now) {
        lemma_delete_flags(
            DeleteOptions {
                compare_cas: operation.compare_cas,
                invalidate: operation.invalidate,
                ttl,
                ..DeleteOptions::plain()
            },
            letter,
        );
    }
}

/// A counter operation sends one flag for each option it was given and none for
/// those it was not: the delta as `D`, the value to start from as `J` and its TTL
/// as `N`, the TTL as `T`, the CAS to compare as `C`, a forced CAS as `E`, and `MD`
/// only to subtract. It asks for the value in any case. It fails only where its
/// options contradict each other or its TTL cannot be sent.
#[verifier::spinoff_prover]
#[verifier::rlimit(40)]
pub proof fn lemma_arithmetic_sends_its_options(operation: Arithmetic, now: SystemTime, letter: u8)
    ensures
        match semantics::arithmetic_prepared(operation, now) {
            Ok(command) => {
                &&& operation.initial_ttl != Some(0u32)
                &&& operation.initial_ttl is Some <==> operation.initial is Some
                &&& operation.ttl matches Some(ttl) ==> ttl.wire_spec(now) is Ok
                &&& command.op == MetaOp::Arithmetic
                &&& command.key == operation.key@
                &&& command.value == None::<Seq<u8>>
                &&& shows(command.flags, letter, if letter == 'M' as u8 {
                    subtraction(operation.mode == ArithmeticMode::Decrement)
                } else if letter == 'v' as u8 {
                    bare('v', true)
                } else if letter == 't' as u8 {
                    bare('t', operation.return_ttl)
                } else if letter == 'c' as u8 {
                    bare('c', operation.return_cas)
                } else if letter == 'D' as u8 {
                    counted('D', Some(operation.delta as nat))
                } else if letter == 'N' as u8 {
                    counted('N', short(operation.initial_ttl))
                } else if letter == 'J' as u8 {
                    counted('J', long(operation.initial))
                } else if letter == 'T' as u8 {
                    counted('T', lifetime(operation.ttl, now))
                } else if letter == 'C' as u8 {
                    counted('C', long(operation.compare_cas))
                } else if letter == 'E' as u8 {
                    counted('E', long(operation.force_cas))
                } else {
                    Seq::empty()
                })
            },
            Err(e) => e is Usage && (operation.initial_ttl == Some(0u32) || (operation.initial_ttl is Some) != (operation.initial is Some) || (
            operation.ttl matches Some(ttl) && ttl.wire_spec(now) is Err)),
        },
{
    if let Ok(ttl) = semantics::wire_opt(operation.ttl, now) {
        lemma_arithmetic_flags(
            ArithmeticOptions {
                delta: Some(operation.delta),
                mode: operation.mode,
                initial: operation.initial,
                initial_ttl: operation.initial_ttl,
                ttl,
                compare_cas: operation.compare_cas,
                new_cas: operation.force_cas,
                return_value: true,
                return_ttl: operation.return_ttl,
                return_cas: operation.return_cas,
                ..ArithmeticOptions::plain()
            },
            letter,
        );
    }
}

/// A probe asks for the value with its flags, its CAS and its TTL, and changes
/// nothing. It never fails.
#[verifier::spinoff_prover]
#[verifier::rlimit(40)]
pub proof fn lemma_probe_asks_for_value_and_fence(key: Seq<u8>, letter: u8)
    ensures
        match scenario::probe_plan(key) {
            Ok(command) => {
                &&& command.op == MetaOp::Get
                &&& command.key == key
                &&& command.value == None::<Seq<u8>>
                &&& shows(command.flags, letter, if letter == 'v' as u8 {
                    bare('v', true)
                } else if letter == 'f' as u8 {
                    bare('f', true)
                } else if letter == 'c' as u8 {
                    bare('c', true)
                } else if letter == 't' as u8 {
                    bare('t', true)
                } else {
                    Seq::empty()
                })
            },
            Err(e) => false,
        },
{
    lemma_get_flags(scenario::base_read_spec(), letter);
}

/// `get` asks for the value with its flags, its CAS and its TTL. It sends a new TTL
/// exactly where it was given one.
#[verifier::spinoff_prover]
#[verifier::rlimit(40)]
pub proof fn lemma_read_extends_only_when_asked(key: Seq<u8>, touch: Option<Ttl>, now: SystemTime, letter: u8)
    ensures
        match scenario::get_plan(key, touch, now) {
            Ok(command) => {
                &&& touch matches Some(ttl) ==> ttl.wire_spec(now) is Ok
                &&& command.op == MetaOp::Get
                &&& command.key == key
                &&& command.value == None::<Seq<u8>>
                &&& shows(command.flags, letter, if letter == 'v' as u8 {
                    bare('v', true)
                } else if letter == 'f' as u8 {
                    bare('f', true)
                } else if letter == 'c' as u8 {
                    bare('c', true)
                } else if letter == 't' as u8 {
                    bare('t', true)
                } else if letter == 'T' as u8 {
                    counted('T', lifetime(touch, now))
                } else {
                    Seq::empty()
                })
            },
            Err(e) => touch matches Some(ttl) && ttl.wire_spec(now) == Err::<u32, ErrorView>(e),
        },
{
    if let Ok(touch) = semantics::wire_opt(touch, now) {
        lemma_get_flags(GetOptions { touch, ..scenario::base_read_spec() }, letter);
    }
}

/// `touch` sends the TTL and asks for the CAS and the TTL, not for the value.
#[verifier::spinoff_prover]
#[verifier::rlimit(40)]
pub proof fn lemma_touch_sends_the_lifetime(key: Seq<u8>, ttl: Ttl, now: SystemTime, letter: u8)
    ensures
        match scenario::touch_plan(key, ttl, now) {
            Ok(command) => {
                &&& ttl.wire_spec(now) is Ok
                &&& command.op == MetaOp::Get
                &&& command.key == key
                &&& command.value == None::<Seq<u8>>
                &&& shows(command.flags, letter, if letter == 'c' as u8 {
                    bare('c', true)
                } else if letter == 't' as u8 {
                    bare('t', true)
                } else if letter == 'T' as u8 {
                    counted('T', lifetime(Some(ttl), now))
                } else {
                    Seq::empty()
                })
            },
            Err(e) => ttl.wire_spec(now) == Err::<u32, ErrorView>(e),
        },
{
    if let Ok(n) = ttl.wire_spec(now) {
        lemma_get_flags(
            GetOptions { value: false, return_client_flags: false, touch: Some(n), ..scenario::base_read_spec() },
            letter,
        );
    }
}

/// `inspect` asks for the CAS, the TTL, the size, the age and whether the item was
/// read before, and leaves the item as it was. It never fails.
#[verifier::spinoff_prover]
#[verifier::rlimit(40)]
pub proof fn lemma_inspection_asks_for_metadata(key: Seq<u8>, letter: u8)
    ensures
        match scenario::inspect_plan(key) {
            Ok(command) => {
                &&& command.op == MetaOp::Get
                &&& command.key == key
                &&& command.value == None::<Seq<u8>>
                &&& shows(command.flags, letter, if letter == 'c' as u8 {
                    bare('c', true)
                } else if letter == 't' as u8 {
                    bare('t', true)
                } else if letter == 's' as u8 {
                    bare('s', true)
                } else if letter == 'l' as u8 {
                    bare('l', true)
                } else if letter == 'h' as u8 {
                    bare('h', true)
                } else if letter == 'u' as u8 {
                    bare('u', true)
                } else {
                    Seq::empty()
                })
            },
            Err(e) => false,
        },
{
    lemma_get_flags(
        GetOptions {
            value: false,
            return_client_flags: false,
            return_size: true,
            return_last_access: true,
            return_hit_before: true,
            no_lru_bump: true,
            ..scenario::base_read_spec()
        },
        letter,
    );
}

/// The election read of `fetch` asks for the value, its flags, its CAS and its TTL,
/// takes a lease of thirty seconds on a miss, and asks for a refresh within the
/// window it hands out, if there is one.
#[verifier::spinoff_prover]
#[verifier::rlimit(40)]
pub proof fn lemma_election_reads_the_value_and_elects(key: Seq<u8>, freshness: Freshness, now: SystemTime, letter: u8)
    ensures
        match scenario::election_plan(key, freshness, now) {
            Ok((command, window)) => {
                &&& freshness.window_spec(now) == Ok::<Option<u32>, ErrorView>(window)
                &&& freshness.ttl.wire_spec(now) is Ok
                &&& command.op == MetaOp::Get
                &&& command.key == key
                &&& command.value == None::<Seq<u8>>
                &&& shows(command.flags, letter, if letter == 'v' as u8 {
                    bare('v', true)
                } else if letter == 'f' as u8 {
                    bare('f', true)
                } else if letter == 'c' as u8 {
                    bare('c', true)
                } else if letter == 't' as u8 {
                    bare('t', true)
                } else if letter == 'N' as u8 {
                    counted('N', Some(30))
                } else if letter == 'R' as u8 {
                    counted('R', short(window))
                } else {
                    Seq::empty()
                })
            },
            Err(e) => freshness.window_spec(now) == Err::<Option<u32>, ErrorView>(e) || (freshness.window_spec(now) is Ok
                && freshness.ttl.wire_spec(now) == Err::<u32, ErrorView>(e)),
        },
{
    if let Ok(window) = freshness.window_spec(now) {
        if let Some(secs) = window {
            super::ttl::lemma_window_fits(freshness, now, secs);
        }
        lemma_get_flags(
            GetOptions {
                vivify_ttl: Some(scenario::LEASE_TTL_SECS),
                recache_ttl: window,
                ..scenario::base_read_spec()
            },
            letter,
        );
    }
}

/// `set`, `add`, `replace` and the write-backs send the value as it is, with its
/// flags where they are not zero, its TTL, the flag of the mode, and the CAS to
/// compare exactly where there is one.
#[verifier::spinoff_prover]
#[verifier::rlimit(40)]
pub proof fn lemma_store_plan_sends_value_and_fence(key: Seq<u8>, value: EncodedView, ttl: Ttl, mode: SetMode, compare_cas: Option<u64>, now: SystemTime, letter: u8)
    ensures
        match scenario::store_plan(key, value, ttl, mode, compare_cas, now) {
            Ok(command) => {
                &&& ttl.wire_spec(now) is Ok
                &&& mode != SetMode::Append && mode != SetMode::Prepend
                &&& compare_cas is Some ==> mode != SetMode::Add
                &&& command.op == MetaOp::Store
                &&& command.key == key
                &&& command.value == Some(value.bytes)
                &&& shows(command.flags, letter, if letter == 'M' as u8 {
                    mode_flag(mode)
                } else if letter == 'F' as u8 {
                    counted('F', if value.flags == 0 { None } else { Some(value.flags as nat) })
                } else if letter == 'T' as u8 {
                    counted('T', lifetime(Some(ttl), now))
                } else if letter == 'C' as u8 {
                    counted('C', long(compare_cas))
                } else {
                    Seq::empty()
                })
            },
            Err(e) => ttl.wire_spec(now) == Err::<u32, ErrorView>(e) || (e is Usage && ttl.wire_spec(now) is Ok && (mode
                == SetMode::Append || mode == SetMode::Prepend || (compare_cas is Some && mode == SetMode::Add))),
        },
{
    if let Ok(n) = ttl.wire_spec(now) {
        lemma_set_flags(
            SetOptions {
                client_flags: semantics::wire_flags(value.flags),
                ttl: Some(n),
                mode,
                compare_cas,
                ..SetOptions::plain()
            },
            letter,
        );
    }
}

/// A removal without grace sends a plain delete. One with grace marks the item stale
/// for that long. Either sends the CAS to compare exactly where there is one.
#[verifier::spinoff_prover]
#[verifier::rlimit(40)]
pub proof fn lemma_erasure_sends_grace_and_fence(key: Seq<u8>, grace: Option<Ttl>, compare_cas: Option<u64>, now: SystemTime, letter: u8)
    ensures
        match scenario::erase_plan(key, grace, compare_cas, now) {
            Ok(command) => {
                &&& grace matches Some(ttl) ==> ttl.wire_spec(now) is Ok
                &&& command.op == MetaOp::Delete
                &&& command.key == key
                &&& command.value == None::<Seq<u8>>
                &&& shows(command.flags, letter, if letter == 'I' as u8 {
                    bare('I', grace is Some)
                } else if letter == 'C' as u8 {
                    counted('C', long(compare_cas))
                } else if letter == 'T' as u8 {
                    counted('T', lifetime(grace, now))
                } else {
                    Seq::empty()
                })
            },
            Err(e) => grace matches Some(ttl) && ttl.wire_spec(now) == Err::<u32, ErrorView>(e),
        },
{
    if let Ok(ttl) = semantics::wire_opt(grace, now) {
        lemma_delete_flags(
            DeleteOptions { compare_cas, invalidate: grace is Some, ttl, ..DeleteOptions::plain() },
            letter,
        );
    }
}

/// A lease is given back by deleting the item it stands for, through its CAS.
#[verifier::spinoff_prover]
#[verifier::rlimit(40)]
pub proof fn lemma_release_deletes_the_lease(key: Seq<u8>, cas: u64, letter: u8)
    ensures
        match scenario::release_plan(key, cas) {
            Ok(command) => {
                &&& command.op == MetaOp::Delete
                &&& command.key == key
                &&& command.value == None::<Seq<u8>>
                &&& shows(command.flags, letter, if letter == 'C' as u8 {
                    counted('C', Some(cas as nat))
                } else {
                    Seq::empty()
                })
            },
            Err(e) => false,
        },
{
    lemma_delete_flags(DeleteOptions { compare_cas: Some(cas), ..DeleteOptions::plain() }, letter);
}

/// A won refresh is given back by marking the item stale again, through its CAS, for
/// the time that was left of its grace, where any was.
#[verifier::spinoff_prover]
#[verifier::rlimit(40)]
pub proof fn lemma_return_marks_stale_again(key: Seq<u8>, win: StaleWin, now: SystemTime, letter: u8)
    ensures
        match scenario::return_plan(key, win, now) {
            Ok(command) => {
                &&& scenario::grace_left(win.ttl) matches Some(ttl) ==> ttl.wire_spec(now) is Ok
                &&& command.op == MetaOp::Delete
                &&& command.key == key
                &&& command.value == None::<Seq<u8>>
                &&& shows(command.flags, letter, if letter == 'I' as u8 {
                    bare('I', true)
                } else if letter == 'C' as u8 {
                    counted('C', Some(win.cas as nat))
                } else if letter == 'T' as u8 {
                    counted('T', lifetime(scenario::grace_left(win.ttl), now))
                } else {
                    Seq::empty()
                })
            },
            Err(e) => scenario::grace_left(win.ttl) matches Some(ttl) && ttl.wire_spec(now) == Err::<u32, ErrorView>(e),
        },
{
    if let Ok(ttl) = semantics::wire_opt(scenario::grace_left(win.ttl), now) {
        lemma_delete_flags(
            DeleteOptions { compare_cas: Some(win.cas), invalidate: true, ttl, ..DeleteOptions::plain() },
            letter,
        );
    }
}

/// `incr` and `decr` send the delta, the value to start from and the TTL of a created
/// item, and ask for the result. Only `decr` sends the mode of a subtraction.
#[verifier::spinoff_prover]
#[verifier::rlimit(40)]
pub proof fn lemma_counting_sends_delta_and_start(key: Seq<u8>, delta: u64, decrement: bool, ttl: Ttl, now: SystemTime, letter: u8)
    ensures
        match scenario::counter_plan(key, delta, decrement, ttl, now) {
            Ok(command) => {
                &&& ttl.wire_spec(now) is Ok
                &&& command.op == MetaOp::Arithmetic
                &&& command.key == key
                &&& command.value == None::<Seq<u8>>
                &&& shows(command.flags, letter, if letter == 'M' as u8 {
                    subtraction(decrement)
                } else if letter == 'v' as u8 {
                    bare('v', true)
                } else if letter == 'D' as u8 {
                    counted('D', Some(delta as nat))
                } else if letter == 'J' as u8 {
                    counted('J', Some(if decrement { 0 } else { delta as nat }))
                } else if letter == 'N' as u8 {
                    counted('N', lifetime(Some(ttl), now))
                } else {
                    Seq::empty()
                })
            },
            Err(e) => ttl.wire_spec(now) == Err::<u32, ErrorView>(e),
        },
{
    if let Ok(n) = ttl.wire_spec(now) {
        lemma_arithmetic_flags(
            ArithmeticOptions {
                delta: Some(delta),
                mode: if decrement {
                    ArithmeticMode::Decrement
                } else {
                    ArithmeticMode::Increment
                },
                initial: Some(
                    if decrement {
                        0
                    } else {
                        delta
                    },
                ),
                initial_ttl: Some(n),
                return_value: true,
                ..ArithmeticOptions::plain()
            },
            letter,
        );
    }
}

/// `append` and `prepend` send the fragment as it is, each with its own mode, and the
/// TTL of an item that is created. An empty fragment is refused.
#[verifier::spinoff_prover]
#[verifier::rlimit(40)]
pub proof fn lemma_joining_sends_the_fragment(key: Seq<u8>, fragment: Seq<u8>, ttl: Ttl, prepend: bool, now: SystemTime, letter: u8)
    ensures
        match scenario::concat_plan(key, fragment, ttl, prepend, now) {
            Ok(command) => {
                &&& fragment.len() > 0
                &&& ttl.wire_spec(now) is Ok
                &&& command.op == MetaOp::Store
                &&& command.key == key
                &&& command.value == Some(fragment)
                &&& shows(command.flags, letter, if letter == 'M' as u8 {
                    mode_flag(if prepend { SetMode::Prepend } else { SetMode::Append })
                } else if letter == 'N' as u8 {
                    counted('N', lifetime(Some(ttl), now))
                } else {
                    Seq::empty()
                })
            },
            Err(e) => (e is Usage && fragment.len() == 0) || (fragment.len() > 0 && ttl.wire_spec(now) == Err::<u32, ErrorView>(e)),
        },
{
    if let Ok(n) = ttl.wire_spec(now) {
        lemma_set_flags(
            SetOptions {
                mode: if prepend {
                    SetMode::Prepend
                } else {
                    SetMode::Append
                },
                vivify_ttl: Some(n),
                ..SetOptions::plain()
            },
            letter,
        );
    }
}

/// What is left of a grace period is given back whole seconds for whole seconds:
/// nothing where none is left or none was set, and never more than fits.
pub proof fn lemma_grace_is_returned_as_left(ttl: Option<i64>)
    ensures
        match scenario::grace_left(ttl) {
            Some(left) => left.repr matches TtlRepr::Secs(n) && ttl matches Some(secs) && secs > 0 && n as int == (
            if secs > 4_294_967_295 {
                4_294_967_295
            } else {
                secs as int
            }),
            None => ttl is None || ttl->0 <= 0,
        },
{
}

/// A right to recompute is given back by the way it was taken: a lease by deleting
/// its placeholder, a refresh by marking the value stale again.
pub proof fn lemma_each_right_has_its_way_back(key: Seq<u8>, win: StaleWin, cas: u64, now: SystemTime)
    ensures
        scenario::give_back_plan(key, (scenario::Token::Lease { cas }), now) == scenario::release_plan(key, cas),
        scenario::give_back_plan(key, scenario::Token::Win(win), now) == scenario::return_plan(key, win, now),
        (scenario::Token::Lease { cas }).cas_spec() == cas,
        scenario::Token::Win(win).cas_spec() == win.cas,
{
}

} // verus!
