//! Responses that arrive in pieces: when a response is whole, and that it is
//! read the same however its bytes arrive.

use vstd::prelude::*;
use vstd::string::*;

use super::ascii;
use super::binary_packet;
use crate::bytes;
use crate::error::{ClientError, MemcacheError, MemcacheErrorView};
use crate::io::IoErrorKind;
use crate::reader;
use crate::value::FromMemcacheValueExt;

verus! {

/// Whether reading failed because not all of the response has been received.
pub open spec fn incomplete(error: MemcacheErrorView) -> bool {
    error == reader::short_read() || error == ascii::no_line()
}

/// Whether reading failed because not all of the response has been received.
pub fn is_incomplete(error: &MemcacheError) -> (r: bool)
    ensures
        r == incomplete(error@),
{
    match error {
        MemcacheError::IOError(error) => {
            error.kind == IoErrorKind::UnexpectedEof && error.message.eq(&"failed to fill whole buffer".to_string())
        },
        MemcacheError::ClientError(ClientError::Error(message)) => {
            message.eq(&"Ascii protocol no line found".to_string())
        },
        _ => false,
    }
}

/// Whether a reading is decided: it did not fail for want of bytes.
pub open spec fn is_settled<T>(read: (Result<T, MemcacheErrorView>, Seq<u8>)) -> bool {
    read.0 matches Err(e) ==> !incomplete(e)
}

/// Whether a reading that is decided is the same once more bytes have arrived,
/// which are then left to read.
pub open spec fn read_alike<T>(
    read: (Result<T, MemcacheErrorView>, Seq<u8>),
    later: (Result<T, MemcacheErrorView>, Seq<u8>),
    more: Seq<u8>,
) -> bool {
    is_settled(read) ==> later == (read.0, read.1 + more)
}

proof fn lemma_line_length_alike(received: Seq<u8>, more: Seq<u8>)
    ensures
        match ascii::line_length(received) {
            Some(n) => ascii::line_length(received + more) == Some(n) && 2 <= n <= received.len(),
            None => ascii::line_length(received + more) matches Some(n) ==> n > received.len(),
        },
    decreases received.len(),
{
    let all = received + more;
    if received.len() < 2 {
        if all.len() >= 2 && received.len() == 1 && !(all[0] == 13 && all[1] == 10) {
            lemma_line_length_bound(all.skip(1));
        } else {
            lemma_line_length_bound(all);
        }
    } else {
        assert(all[0] == received[0] && all[1] == received[1]);
        if !(received[0] == 13 && received[1] == 10) {
            assert(all.skip(1) =~= received.skip(1) + more);
            lemma_line_length_alike(received.skip(1), more);
        }
    }
}

proof fn lemma_line_length_bound(received: Seq<u8>)
    ensures
        ascii::line_length(received) matches Some(n) ==> 2 <= n <= received.len(),
    decreases received.len(),
{
    if received.len() >= 2 && !(received[0] == 13 && received[1] == 10) {
        lemma_line_length_bound(received.skip(1));
    }
}

proof fn lemma_answer_alike(received: Seq<u8>, more: Seq<u8>)
    ensures
        read_alike(ascii::answer_read(received), ascii::answer_read(received + more), more),
{
    let all = received + more;
    lemma_line_length_alike(received, more);
    if let Some(n) = ascii::line_length(received) {
        assert(all.take(n) =~= received.take(n));
        assert(all.skip(n) =~= received.skip(n) + more);
    }
    assert(read_alike(ascii::line_read(received), ascii::line_read(all), more));
}

proof fn lemma_block_alike(received: Seq<u8>, length: int, more: Seq<u8>)
    requires
        0 <= length,
    ensures
        read_alike(ascii::block_read(received, length), ascii::block_read(received + more, length), more),
{
    if received.len() >= length + 2 {
        let all = received + more;
        assert(all.subrange(length, length + 2) =~= received.subrange(length, length + 2));
        assert(all.take(length) =~= received.take(length));
        assert(all.take(length + 2) =~= received.take(length + 2));
        assert(all.skip(length + 2) =~= received.skip(length + 2) + more);
    }
}

proof fn lemma_entry_alike<V: FromMemcacheValueExt>(received: Seq<u8>, has_cas: bool, more: Seq<u8>)
    ensures
        read_alike(ascii::entry_read::<V>(received, has_cas), ascii::entry_read::<V>(received + more, has_cas), more),
{
    lemma_answer_alike(received, more);
    if let (Ok(line), rest) = ascii::answer_read(received) {
        if let Ok(Some(announced)) = ascii::value_line(line, has_cas) {
            lemma_block_alike(rest, announced.length as int, more);
        }
    }
}

proof fn lemma_gets_alike<V: FromMemcacheValueExt>(
    received: Seq<u8>,
    so_far: binary_packet::Items,
    left: nat,
    more: Seq<u8>,
)
    ensures
        read_alike(
            ascii::gets_read::<V>(received, so_far, left),
            ascii::gets_read::<V>(received + more, so_far, left),
            more,
        ),
    decreases left,
{
    lemma_entry_alike::<V>(received, true, more);
    if let (Ok(Some(item)), rest) = ascii::entry_read::<V>(received, true) {
        if left > 0 {
            lemma_gets_alike::<V>(
                rest,
                crate::pairs::put(so_far, item.key, (item.value, item.flags, item.cas->0)),
                (left - 1) as nat,
                more,
            );
        }
    }
}

proof fn lemma_stats_alike(received: Seq<u8>, so_far: Seq<(Seq<char>, Seq<char>)>, more: Seq<u8>)
    ensures
        read_alike(ascii::stats_read(received, so_far), ascii::stats_read(received + more, so_far), more),
    decreases received.len(),
{
    lemma_answer_alike(received, more);
    if let (Ok(line), rest) = ascii::answer_read(received) {
        if line != bytes::utf8("END\r\n") {
            if let Ok((name, text)) = ascii::stat_line(line) {
                if rest.len() < received.len() {
                    lemma_stats_alike(
                        rest,
                        crate::pairs::put(so_far, vstd::utf8::decode_utf8(name), vstd::utf8::decode_utf8(text)),
                        more,
                    );
                }
            }
        }
    }
}

/// A response of the text protocol is read the same however its bytes arrive:
/// once reading it does not fail for want of bytes, the outcome stands whatever
/// follows, and what follows is left to read.
pub proof fn lemma_text_responses_do_not_depend_on_arrival<V: FromMemcacheValueExt>(
    received: Seq<u8>,
    more: Seq<u8>,
    key: Seq<char>,
    count: nat,
    word: Seq<u8>,
)
    ensures
        read_alike(ascii::answer_read(received), ascii::answer_read(received + more), more),
        is_settled(ascii::answer_read(received)) ==> {
            &&& ascii::version_read(received + more) == ascii::version_read(received)
            &&& ascii::ok_fault(received + more) == ascii::ok_fault(received)
            &&& ascii::counter_read(received + more) == ascii::counter_read(received)
        },
        read_alike(ascii::store_read(received), ascii::store_read(received + more), more),
        is_settled(ascii::store_read(received)) ==> ascii::cas_read(received + more) == ascii::cas_read(received),
        read_alike(ascii::done_read(received, word), ascii::done_read(received + more, word), more),
        read_alike(ascii::get_read::<V>(received, key), ascii::get_read::<V>(received + more, key), more),
        read_alike(
            ascii::gets_read::<V>(received, Seq::empty(), count),
            ascii::gets_read::<V>(received + more, Seq::empty(), count),
            more,
        ),
        read_alike(
            ascii::stats_read(received, Seq::empty()),
            ascii::stats_read(received + more, Seq::empty()),
            more,
        ),
{
    lemma_answer_alike(received, more);
    lemma_entry_alike::<V>(received, true, more);
    if let (Ok(Some(_)), rest) = ascii::entry_read::<V>(received, true) {
        lemma_entry_alike::<V>(rest, true, more);
    }
    lemma_gets_alike::<V>(received, Seq::empty(), count, more);
    lemma_stats_alike(received, Seq::empty(), more);
}

proof fn lemma_packet_alike(received: Seq<u8>, more: Seq<u8>)
    ensures
        read_alike(binary_packet::response_read(received), binary_packet::response_read(received + more), more),
        read_alike(binary_packet::success_read(received), binary_packet::success_read(received + more), more),
{
    let all = received + more;
    if received.len() > 0 {
        assert(all[0] == received[0]);
        assert(all.skip(1) =~= received.skip(1) + more);
        if received[0] == 0x81 && received.len() >= 24 {
            assert(all.take(24) =~= received.take(24));
            assert(all.skip(24) =~= received.skip(24) + more);
            let header = binary_packet::PacketHeader::parsed(received.take(24));
            let rest = received.skip(24);
            let extras = header.extras_length as int;
            let key = header.key_length as int;
            let total = header.total_body_length as int;
            if rest.len() >= extras + key {
                assert((rest + more).take(extras) =~= rest.take(extras));
                assert((rest + more).subrange(extras, extras + key) =~= rest.subrange(extras, extras + key));
                assert((rest + more).skip(extras + key) =~= rest.skip(extras + key) + more);
                if extras + key <= total <= rest.len() {
                    assert((rest + more).subrange(extras + key, total) =~= rest.subrange(extras + key, total));
                    assert((rest + more).skip(total) =~= rest.skip(total) + more);
                }
            }
        }
    }
}

proof fn lemma_packet_gets_alike<V: FromMemcacheValueExt>(
    received: Seq<u8>,
    so_far: binary_packet::Items,
    left: nat,
    more: Seq<u8>,
)
    ensures
        read_alike(
            binary_packet::gets_read::<V>(received, so_far, left),
            binary_packet::gets_read::<V>(received + more, so_far, left),
            more,
        ),
    decreases left,
{
    lemma_packet_alike(received, more);
    if let (Ok(response), rest) = binary_packet::success_read(received) {
        if let Ok(item) = binary_packet::item_read(response) {
            if left > 0 {
                lemma_packet_gets_alike::<V>(
                    rest,
                    crate::pairs::put(so_far, vstd::utf8::decode_utf8(response.key), item),
                    (left - 1) as nat,
                    more,
                );
            }
        }
    }
}

proof fn lemma_packet_stats_alike(received: Seq<u8>, so_far: Seq<(Seq<char>, Seq<char>)>, more: Seq<u8>)
    ensures
        read_alike(
            binary_packet::stats_read(received, so_far),
            binary_packet::stats_read(received + more, so_far),
            more,
        ),
    decreases received.len(),
{
    lemma_packet_alike(received, more);
    if let (Ok(response), rest) = binary_packet::success_read(received) {
        if rest.len() < received.len() {
            lemma_packet_stats_alike(
                rest,
                crate::pairs::put(
                    so_far,
                    vstd::utf8::decode_utf8(response.key),
                    vstd::utf8::decode_utf8(response.value),
                ),
                more,
            );
        }
    }
}

/// A response of the binary protocol is read the same however its bytes arrive:
/// once reading it does not fail for want of bytes, the outcome stands whatever
/// follows, and what follows is left to read.
pub proof fn lemma_packets_do_not_depend_on_arrival<V: FromMemcacheValueExt>(
    received: Seq<u8>,
    more: Seq<u8>,
    count: nat,
)
    ensures
        read_alike(binary_packet::response_read(received), binary_packet::response_read(received + more), more),
        read_alike(binary_packet::success_read(received), binary_packet::success_read(received + more), more),
        is_settled(binary_packet::success_read(received)) ==> {
            &&& binary_packet::cas_read(received + more) == binary_packet::cas_read(received)
            &&& binary_packet::found_read(received + more) == binary_packet::found_read(received)
            &&& binary_packet::failure_read(received + more) == binary_packet::failure_read(received)
            &&& binary_packet::counter_read(received + more) == binary_packet::counter_read(received)
            &&& binary_packet::get_fault::<V>(received + more) == binary_packet::get_fault::<V>(received)
        },
        read_alike(
            binary_packet::gets_read::<V>(received, Seq::empty(), count),
            binary_packet::gets_read::<V>(received + more, Seq::empty(), count),
            more,
        ),
        read_alike(
            binary_packet::stats_read(received, Seq::empty()),
            binary_packet::stats_read(received + more, Seq::empty()),
            more,
        ),
{
    lemma_packet_alike(received, more);
    lemma_packet_gets_alike::<V>(received, Seq::empty(), count, more);
    lemma_packet_stats_alike(received, Seq::empty(), more);
}

} // verus!
