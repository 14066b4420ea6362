//! Key routing across servers.

use std::collections::hash_map::DefaultHasher;
use std::hash::{Hash, Hasher};

use vstd::prelude::*;
use vstd::std_specs::hash::*;
use vstd::string::*;

use crate::text;

verus! {

/// What `Hash for [u8]` feeds to a hasher for these bytes on a machine whose
/// words have so many bits and whose byte order is big-endian or is not.
pub uninterp spec fn slice_parts(bytes: Seq<u8>, word_bits: u32, big_endian: bool) -> Seq<Seq<u8>>;

/// Calls `<[u8] as std::hash::Hash>::hash` with a `DefaultHasher`. On machines
/// of one word size and byte order, equal bytes are fed to the hasher in the
/// same way. What is fed is named and not spelled out.
#[verifier::external_body]
fn feed(bytes: &[u8], hasher: &mut DefaultHasher)
    ensures
        final(hasher)@ == old(hasher)@ + slice_parts(bytes@, usize::BITS, vstd::endian::endianness() is Big),
{
    bytes.hash(hasher);
}

/// The hash of a byte string by a fresh `DefaultHasher`.
pub open spec fn default_hash(bytes: Seq<u8>) -> u64 {
    DefaultHasher::spec_finish(slice_parts(bytes, usize::BITS, vstd::endian::endianness() is Big))
}

/// The default key hash: [`DefaultHasher`] over the key bytes.
pub fn default_hash_function(key: &[u8]) -> (r: u64)
    ensures
        r == default_hash(key@),
{
    let mut hasher = DefaultHasher::new();
    feed(key, &mut hasher);
    assert(hasher@ =~= slice_parts(key@, usize::BITS, vstd::endian::endianness() is Big));
    hasher.finish()
}

pub open spec fn texts(servers: Seq<String>) -> Seq<Seq<char>> {
    Seq::new(servers.len(), |i: int| servers[i]@)
}

/// Picks the server for a key. `servers` lists one identity per configured
/// server, in configuration order; the result is an index into it.
///
/// The identity is the address as configured (see [`ServerAddress`]), not
/// what it resolved to, so routing is the same in every process and over time:
/// a hostname that resolves differently on two machines, or to a different
/// family first, still routes every key the same way.
///
/// The default is [`Rendezvous`]. Implement this to plug in weights, health
/// awareness or a different distribution.
pub trait Router {
    fn route(&self, key: &[u8], servers: &Vec<String>) -> usize;
}

/// An index clamped into a list of `count` servers.
pub open spec fn clamped(choice: usize, count: nat) -> int {
    if choice < count {
        choice as int
    } else {
        count - 1
    }
}

/// Clamp a router's choice into range.
pub fn clamp(choice: usize, count: usize) -> (r: usize)
    requires
        count > 0,
    ensures
        r == clamped(choice, count as nat),
        r < count,
{
    if choice < count {
        choice
    } else {
        count - 1
    }
}

/// Route a key with a [`Router`], clamping a misbehaving result into range.
pub fn route<R: Router + ?Sized>(router: &R, key: &[u8], servers: &Vec<String>) -> (r: usize)
    requires
        servers@.len() > 0,
    ensures
        r < servers@.len(),
        exists|choice: usize|
            #[trigger] call_ensures(R::route, (router, key, servers), choice) && r == clamped(choice, servers@.len()),
{
    let choice = router.route(key, servers);
    clamp(choice, servers.len())
}

/// A server address as configured, with a stable textual identity for the
/// [`Router`]. A server given as `"127.0.0.1:11211"` or as host and port is
/// routed identically.
pub trait ServerAddress {
    /// The identity, as a text.
    open spec fn identity_spec(&self) -> Seq<char> {
        arbitrary()
    }

    /// The identity handed to the [`Router`].
    fn identity(&self) -> (r: String)
        ensures
            r@ == self.identity_spec(),
    ;
}

impl ServerAddress for str {
    open spec fn identity_spec(&self) -> Seq<char> {
        self@
    }

    fn identity(&self) -> (r: String) {
        self.to_string()
    }
}

impl ServerAddress for String {
    open spec fn identity_spec(&self) -> Seq<char> {
        self@
    }

    fn identity(&self) -> (r: String) {
        self.as_str().to_string()
    }
}

impl<T: ServerAddress + ?Sized> ServerAddress for &T {
    open spec fn identity_spec(&self) -> Seq<char> {
        (**self).identity_spec()
    }

    fn identity(&self) -> (r: String) {
        (**self).identity()
    }
}

/// `host:port`.
pub open spec fn host_and_port(host: Seq<char>, port: u16) -> Seq<char> {
    host + ":"@ + text::number(port as nat)
}

pub(crate) fn join_host_and_port(host: &str, port: u16) -> (r: String)
    ensures
        r@ == host_and_port(host@, port),
{
    let opened = text::join(host, ":");
    let digits = text::number_text(port as u128);
    text::join(opened.as_str(), digits.as_str())
}

impl ServerAddress for (&str, u16) {
    open spec fn identity_spec(&self) -> Seq<char> {
        host_and_port(self.0@, self.1)
    }

    fn identity(&self) -> (r: String) {
        join_host_and_port(self.0, self.1)
    }
}

impl ServerAddress for (String, u16) {
    open spec fn identity_spec(&self) -> Seq<char> {
        host_and_port(self.0@, self.1)
    }

    fn identity(&self) -> (r: String) {
        join_host_and_port(self.0.as_str(), self.1)
    }
}

/// A key hash, by which [`Rendezvous`] scores the servers.
pub trait HashFunction {
    fn hash(&self, key: &[u8]) -> u64;
}

/// [`default_hash_function`] as a [`HashFunction`].
#[derive(Clone, Copy, Debug)]
pub struct DefaultHash;

impl HashFunction for DefaultHash {
    fn hash(&self, key: &[u8]) -> (r: u64)
        ensures
            r == default_hash(key@),
    {
        default_hash_function(key)
    }
}

/// A 64-bit finalizer (from SplitMix64) to spread the combined hash.
pub open spec fn mixed(x: u64) -> u64 {
    let a = x ^ (x >> 30);
    let b = a.wrapping_mul(0xbf58476d1ce4e5b9);
    let c = b ^ (b >> 27);
    let d = c.wrapping_mul(0x94d049bb133111eb);
    d ^ (d >> 31)
}

pub fn mix(x: u64) -> (r: u64)
    ensures
        r == mixed(x),
{
    let a: u64 = x ^ (x >> 30);
    let b: u64 = a.wrapping_mul(0xbf58476d1ce4e5b9);
    let c: u64 = b ^ (b >> 27);
    let d: u64 = c.wrapping_mul(0x94d049bb133111eb);
    d ^ (d >> 31)
}

/// How high a key, given by its hash, scores a server.
pub open spec fn score(key_hash: u64, server: Seq<char>) -> u64 {
    mixed(key_hash ^ default_hash(vstd::utf8::encode_utf8(server)))
}

/// How high a key, given by its hash, scores each server.
pub open spec fn scores(key_hash: u64, servers: Seq<Seq<char>>) -> Seq<u64> {
    Seq::new(servers.len(), |i: int| score(key_hash, servers[i]))
}

/// Whether `i` is the first position of the highest score.
pub open spec fn is_first_best(scores: Seq<u64>, i: int) -> bool {
    &&& 0 <= i < scores.len()
    &&& forall|j: int| 0 <= j < scores.len() ==> scores[j] <= scores[i]
    &&& forall|j: int| 0 <= j < i ==> scores[j] < scores[i]
}

/// Rendezvous (highest random weight) hashing: every key scores each server by
/// mixing the key hash with the server identity and picks the highest. Adding
/// or removing a server, anywhere in the list, only moves the keys that
/// belonged to it; the list order does not matter.
#[derive(Clone, Copy, Debug)]
pub struct Rendezvous<H> {
    pub hash_function: H,
}

impl Rendezvous<DefaultHash> {
    /// Rendezvous over [`default_hash_function`].
    pub fn new() -> (r: Rendezvous<DefaultHash>)
        ensures
            r.hash_function == DefaultHash,
    {
        Rendezvous { hash_function: DefaultHash }
    }
}

impl<H: HashFunction> Rendezvous<H> {
    /// Rendezvous over a custom key hash (to match another client's
    /// distribution, for example).
    pub fn with_hash_function(hash_function: H) -> (r: Rendezvous<H>)
        ensures
            r.hash_function == hash_function,
    {
        Rendezvous { hash_function }
    }
}

impl Default for Rendezvous<DefaultHash> {
    fn default() -> (r: Rendezvous<DefaultHash>)
        ensures
            r.hash_function == DefaultHash,
    {
        Rendezvous::new()
    }
}

impl<H: HashFunction> Router for Rendezvous<H> {
    fn route(&self, key: &[u8], servers: &Vec<String>) -> (r: usize)
        ensures
            servers@.len() == 0 ==> r == 0,
            servers@.len() > 0 ==> exists|key_hash: u64| #[trigger]
                call_ensures(H::hash, (&self.hash_function, key), key_hash) && is_first_best(
                    scores(key_hash, texts(servers@)),
                    r as int,
                ),
    {
        let key_hash = self.hash_function.hash(key);
        let ghost all = scores(key_hash, texts(servers@));
        let mut best: usize = 0;
        let mut best_score: u64 = 0;
        let mut i: usize = 0;
        while i < servers.len()
            invariant
                i <= servers@.len(),
                all == scores(key_hash, texts(servers@)),
                i == 0 ==> best == 0,
                i > 0 ==> is_first_best(all.take(i as int), best as int) && best_score == all[best as int],
            decreases servers@.len() - i,
        {
            let current = mix(key_hash ^ default_hash_function(servers[i].as_str().as_bytes()));
            assert(current == all[i as int]);
            if i == 0 || current > best_score {
                best = i;
                best_score = current;
            }
            i += 1;
            assert forall|j: int| 0 <= j < i implies all.take(i as int)[j] <= all[best as int] by {
                if j < i - 1 {
                    assert(all.take(i - 1)[j] == all[j]);
                }
            }
            assert forall|j: int| 0 <= j < best implies all.take(i as int)[j] < all[best as int] by {
                assert(all.take(i - 1)[j] == all[j]);
            }
        }
        assert(all.take(i as int) =~= all);
        best
    }
}

/// There is only one first position of the highest score, so a key is routed
/// to one server.
pub proof fn lemma_route_is_unique(scores: Seq<u64>, i: int, j: int)
    requires
        is_first_best(scores, i),
        is_first_best(scores, j),
    ensures
        i == j,
{
    assert(scores[i] <= scores[j] && scores[j] <= scores[i]);
}

/// Removing a server, anywhere in the list, leaves every key of the other
/// servers where it is.
pub proof fn lemma_removal_moves_minimally(key_hash: u64, servers: Seq<Seq<char>>, removed: int, before: int, after: int)
    requires
        0 <= removed < servers.len(),
        is_first_best(scores(key_hash, servers), before),
        before != removed,
        is_first_best(scores(key_hash, servers.remove(removed)), after),
    ensures
        servers.remove(removed)[after] == servers[before],
        after == (if before > removed {
            before - 1
        } else {
            before
        }),
{
    let old_scores = scores(key_hash, servers);
    let new_scores = scores(key_hash, servers.remove(removed));
    let kept = if before > removed {
        before - 1
    } else {
        before
    };
    assert(new_scores =~= old_scores.remove(removed));
    assert(new_scores[kept] == old_scores[before]);
    assert forall|j: int| 0 <= j < new_scores.len() implies new_scores[j] <= new_scores[kept] by {
        let from = if j >= removed {
            j + 1
        } else {
            j
        };
        assert(new_scores[j] == old_scores[from]);
    }
    assert forall|j: int| 0 <= j < kept implies new_scores[j] < new_scores[kept] by {
        let from = if j >= removed {
            j + 1
        } else {
            j
        };
        assert(new_scores[j] == old_scores[from]);
    }
    lemma_route_is_unique(new_scores, kept, after);
}

/// Adding a server, anywhere in the list, moves a key to the new server or
/// leaves it where it is.
pub proof fn lemma_addition_moves_minimally(
    key_hash: u64,
    servers: Seq<Seq<char>>,
    added: int,
    server: Seq<char>,
    before: int,
    after: int,
)
    requires
        0 <= added <= servers.len(),
        is_first_best(scores(key_hash, servers), before),
        is_first_best(scores(key_hash, servers.insert(added, server)), after),
    ensures
        after == added || servers.insert(added, server)[after] == servers[before],
{
    let grown = servers.insert(added, server);
    assert(grown.remove(added) =~= servers);
    if after != added {
        lemma_removal_moves_minimally(key_hash, grown, added, after, before);
    }
}

/// The list order does not matter: two lists of the same servers send a key to
/// the same server, as long as no two different servers score the same.
pub proof fn lemma_order_does_not_matter(
    key_hash: u64,
    servers: Seq<Seq<char>>,
    reordered: Seq<Seq<char>>,
    i: int,
    j: int,
)
    requires
        servers.to_multiset() == reordered.to_multiset(),
        forall|a: int, b: int|
            0 <= a < servers.len() && 0 <= b < servers.len() && score(key_hash, #[trigger] servers[a]) == score(
                key_hash,
                #[trigger] servers[b],
            ) ==> servers[a] == servers[b],
        is_first_best(scores(key_hash, servers), i),
        is_first_best(scores(key_hash, reordered), j),
    ensures
        servers[i] == reordered[j],
{
    broadcast use vstd::seq_lib::group_to_multiset_ensures;

    let left = scores(key_hash, servers);
    let right = scores(key_hash, reordered);
    assert(servers.to_multiset().contains(servers[i]));
    assert(reordered.contains(servers[i]));
    let in_reordered = choose|k: int| 0 <= k < reordered.len() && reordered[k] == servers[i];
    assert(right[in_reordered] == left[i]);
    assert(reordered.to_multiset().contains(reordered[j]));
    assert(servers.contains(reordered[j]));
    let in_servers = choose|k: int| 0 <= k < servers.len() && servers[k] == reordered[j];
    assert(left[in_servers] == right[j]);
    assert(score(key_hash, servers[i]) == score(key_hash, servers[in_servers]));
}

/// Undo the spreading of a hash.
pub open spec fn unmixed(y: u64) -> u64 {
    let d = y ^ (y >> 31) ^ (y >> 62);
    let c = d.wrapping_mul(0x319642b2d24d8ec3);
    let b = c ^ (c >> 27) ^ (c >> 54);
    let a = b.wrapping_mul(0x96de1b173f119089);
    a ^ (a >> 30) ^ (a >> 60)
}

proof fn lemma_factor_is_undone(x: u64, factor: u64, inverse: u64, rounds: int)
    requires
        factor * inverse == rounds * 0x1_0000_0000_0000_0000 + 1,
    ensures
        x.wrapping_mul(factor).wrapping_mul(inverse) == x,
{
    let m: int = 0x1_0000_0000_0000_0000;
    let product = x * factor;
    let cut = x.wrapping_mul(factor) as int;
    assert(cut == product % m);
    vstd::arithmetic::div_mod::lemma_mul_mod_noop_left(product, inverse as int, m);
    assert((cut * inverse) % m == (product * inverse) % m);
    assert(product * inverse == (x * rounds) * m + x) by (nonlinear_arith)
        requires
            product == x * factor,
            factor * inverse == rounds * m + 1,
    ;
    vstd::arithmetic::div_mod::lemma_mod_multiples_vanish(x * rounds, x as int, m);
    vstd::arithmetic::mul::lemma_mul_is_commutative(m, x * rounds);
    vstd::arithmetic::div_mod::lemma_small_mod(x as nat, m as nat);
}

/// Spreading a hash loses nothing: it can be undone, so different hashes stay
/// different.
pub proof fn lemma_mixing_is_undone(x: u64)
    ensures
        unmixed(mixed(x)) == x,
{
    let a = x ^ (x >> 30);
    let b = a.wrapping_mul(0xbf58476d1ce4e5b9);
    let c = b ^ (b >> 27);
    let d = c.wrapping_mul(0x94d049bb133111eb);
    let y = d ^ (d >> 31);
    assert(y ^ (y >> 31) ^ (y >> 62) == d) by (bit_vector)
        requires
            y == d ^ (d >> 31),
    ;
    lemma_factor_is_undone(c, 0x94d049bb133111eb, 0x319642b2d24d8ec3, 2077064247507883091);
    assert(c ^ (c >> 27) ^ (c >> 54) == b) by (bit_vector)
        requires
            c == b ^ (b >> 27),
    ;
    lemma_factor_is_undone(a, 0xbf58476d1ce4e5b9, 0x96de1b173f119089, 8125545580553827436);
    assert(a ^ (a >> 30) ^ (a >> 60) == x) by (bit_vector)
        requires
            a == x ^ (x >> 30),
    ;
}

/// A score tells keys and servers apart: two keys with different hashes score a
/// server differently, and a key scores two servers with different hashes
/// differently. The score is the spread of both hashes combined.
pub proof fn lemma_scores_tell_apart(key_hash: u64, other_hash: u64, server: Seq<char>, other: Seq<char>)
    ensures
        unmixed(score(key_hash, server)) == key_hash ^ default_hash(vstd::utf8::encode_utf8(server)),
        key_hash != other_hash ==> score(key_hash, server) != score(other_hash, server),
        default_hash(vstd::utf8::encode_utf8(server)) != default_hash(vstd::utf8::encode_utf8(other)) ==> score(
            key_hash,
            server,
        ) != score(key_hash, other),
{
    let mine = default_hash(vstd::utf8::encode_utf8(server));
    let theirs = default_hash(vstd::utf8::encode_utf8(other));
    lemma_mixing_is_undone(key_hash ^ mine);
    lemma_mixing_is_undone(other_hash ^ mine);
    lemma_mixing_is_undone(key_hash ^ theirs);
    assert(key_hash != other_hash ==> key_hash ^ mine != other_hash ^ mine) by (bit_vector);
    assert(mine != theirs ==> key_hash ^ mine != key_hash ^ theirs) by (bit_vector);
}

/// The best server is the one with the highest score, and the first of those with
/// the same.
pub proof fn lemma_best_is_highest(key_hash: u64, servers: Seq<Seq<char>>, best: int, other: int)
    requires
        is_first_best(scores(key_hash, servers), best),
        0 <= other < servers.len(),
    ensures
        0 <= best < servers.len(),
        score(key_hash, servers[other]) <= score(key_hash, servers[best]),
        score(key_hash, servers[other]) == score(key_hash, servers[best]) ==> best <= other,
{
    let all = scores(key_hash, servers);
    assert(all[other] == score(key_hash, servers[other]));
    assert(all[best] == score(key_hash, servers[best]));
}

/// A choice within the list stands, and one beyond it means the last server.
pub proof fn lemma_choices_are_kept_in_range(choice: usize, count: nat)
    requires
        count > 0,
    ensures
        choice < count ==> clamped(choice, count) == choice,
        choice >= count ==> clamped(choice, count) == count - 1,
{
}

/// A server given as host and port is the same as one given as a text of both with
/// a colon between.
pub proof fn lemma_addresses_agree(host: &str, port: u16, text: &str)
    requires
        text@ == host@ + ":"@ + text::number(port as nat),
    ensures
        (host, port).identity_spec() == text.identity_spec(),
        text.identity_spec() == text@,
{
}

} // verus!
