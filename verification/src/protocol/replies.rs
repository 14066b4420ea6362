//! What the replies of both protocols are taken for, call by call.

use vstd::prelude::*;
use vstd::string::*;

use super::ascii;
use super::binary_packet;
use super::binary_packet::ResponseView;
use super::frames;
use super::lines;
use super::Protocol;
use crate::big_endian;
use crate::bytes;
use crate::decimal;
use crate::decimal::IntErrorKind;
use crate::error;
use crate::error::{CommandErrorView, MemcacheError, MemcacheErrorView};
use crate::reader::Reader;
use crate::value::FromMemcacheValueExt;

verus! {

/// A text store succeeds with `STORED` and `NOT_STORED`. A compare-and-swap has
/// swapped with `STORED` alone, and has not with `NOT_STORED` and `EXISTS`. Either
/// takes the line and nothing behind it.
pub proof fn lemma_text_stores(
    received: Seq<u8>,
    line: Seq<u8>,
    rest: Seq<u8>,
    storing: &mut Reader,
    swapping: &mut Reader,
    stored: Result<(), MemcacheError>,
    swapped: Result<bool, MemcacheError>,
)
    requires
        ascii::answer_read(received) == (Ok::<Seq<u8>, MemcacheErrorView>(line), rest),
        old(storing)@ == received,
        old(swapping)@ == received,
        call_ensures(Protocol::parse_store, (&Protocol::Ascii, storing), stored),
        call_ensures(Protocol::parse_cas, (&Protocol::Ascii, swapping), swapped),
    ensures
        stored is Ok <==> line == bytes::utf8("STORED\r\n") || line == bytes::utf8("NOT_STORED\r\n"),
        line == bytes::utf8("STORED\r\n") ==> swapped is Ok && swapped->Ok_0,
        line == bytes::utf8("NOT_STORED\r\n") ==> swapped is Ok && !swapped->Ok_0,
        line == bytes::utf8("EXISTS\r\n") ==> swapped is Ok && !swapped->Ok_0,
        swapped is Ok ==> stored is Ok || line == bytes::utf8("EXISTS\r\n"),
        final(storing)@ == rest,
        final(swapping)@ == rest,
{
    lines::lemma_store_answers(received, line, rest);
    lines::lemma_swap_answers(received);
}

/// A text delete is confirmed by `DELETED`, a touch by `TOUCHED`, and neither by the
/// other's word. A counter is the number on its line.
pub proof fn lemma_text_confirmations(
    received: Seq<u8>,
    line: Seq<u8>,
    rest: Seq<u8>,
    deleting: &mut Reader,
    touching: &mut Reader,
    counting: &mut Reader,
    deleted: Result<bool, MemcacheError>,
    touched: Result<bool, MemcacheError>,
    counted: Result<u64, MemcacheError>,
)
    requires
        ascii::answer_read(received) == (Ok::<Seq<u8>, MemcacheErrorView>(line), rest),
        line.len() >= 2,
        old(deleting)@ == received,
        old(touching)@ == received,
        old(counting)@ == received,
        call_ensures(Protocol::parse_delete, (&Protocol::Ascii, deleting), deleted),
        call_ensures(Protocol::parse_touch, (&Protocol::Ascii, touching), touched),
        call_ensures(Protocol::parse_counter, (&Protocol::Ascii, counting), counted),
    ensures
        deleted is Ok <==> line == bytes::utf8("DELETED\r\n"),
        deleted is Ok ==> deleted->Ok_0,
        touched is Ok <==> line == bytes::utf8("TOUCHED\r\n"),
        touched is Ok ==> touched->Ok_0,
        counted is Ok <==> decimal::parse_unsigned(line.take(line.len() - 2), u64::MAX as nat) is Ok,
        counted is Ok ==> decimal::parse_unsigned(line.take(line.len() - 2), u64::MAX as nat) == Ok::<nat, IntErrorKind>(
            counted->Ok_0 as nat,
        ),
        final(deleting)@ == rest,
        final(touching)@ == rest,
        final(counting)@ == rest,
{
    lines::lemma_done_answers(received, bytes::utf8("DELETED\r\n"));
    lines::lemma_done_answers(received, bytes::utf8("TOUCHED\r\n"));
    lines::lemma_counter_answers(received, line, rest);
}

/// A text answer that reports a failure fails every request, but for a delete, a
/// touch and a compare-and-swap of a key that is not there: those found nothing.
pub proof fn lemma_text_failures(
    received: Seq<u8>,
    e: MemcacheErrorView,
    storing: &mut Reader,
    swapping: &mut Reader,
    deleting: &mut Reader,
    touching: &mut Reader,
    counting: &mut Reader,
    stored: Result<(), MemcacheError>,
    swapped: Result<bool, MemcacheError>,
    deleted: Result<bool, MemcacheError>,
    touched: Result<bool, MemcacheError>,
    counted: Result<u64, MemcacheError>,
)
    requires
        ascii::answer_read(received).0 == Err::<Seq<u8>, MemcacheErrorView>(e),
        old(storing)@ == received,
        old(swapping)@ == received,
        old(deleting)@ == received,
        old(touching)@ == received,
        old(counting)@ == received,
        call_ensures(Protocol::parse_store, (&Protocol::Ascii, storing), stored),
        call_ensures(Protocol::parse_cas, (&Protocol::Ascii, swapping), swapped),
        call_ensures(Protocol::parse_delete, (&Protocol::Ascii, deleting), deleted),
        call_ensures(Protocol::parse_touch, (&Protocol::Ascii, touching), touched),
        call_ensures(Protocol::parse_counter, (&Protocol::Ascii, counting), counted),
    ensures
        stored is Err && stored->Err_0@ == e,
        counted is Err && counted->Err_0@ == e,
        e == MemcacheErrorView::CommandError(CommandErrorView::KeyNotFound) ==> {
            &&& swapped is Ok && !swapped->Ok_0
            &&& deleted is Ok && !deleted->Ok_0
            &&& touched is Ok && !touched->Ok_0
        },
        e != MemcacheErrorView::CommandError(CommandErrorView::KeyNotFound) ==> {
            &&& deleted is Err && deleted->Err_0@ == e
            &&& touched is Err && touched->Err_0@ == e
            &&& swapped is Err <==> e != MemcacheErrorView::CommandError(CommandErrorView::KeyExists)
            &&& swapped is Err ==> swapped->Err_0@ == e
        },
{
    lines::lemma_swap_answers(received);
    lines::lemma_failed_answers(received, e);
    lines::lemma_done_answers(received, bytes::utf8("DELETED\r\n"));
    lines::lemma_done_answers(received, bytes::utf8("TOUCHED\r\n"));
}

/// A flush is confirmed by the line `OK`, and a version stands behind `VERSION`.
pub proof fn lemma_text_flush_and_version(
    received: Seq<u8>,
    line: Seq<u8>,
    rest: Seq<u8>,
    flushing: &mut Reader,
    asking: &mut Reader,
    flushed: Result<(), MemcacheError>,
    version: Result<String, MemcacheError>,
)
    requires
        ascii::answer_read(received) == (Ok::<Seq<u8>, MemcacheErrorView>(line), rest),
        line.len() >= 2,
        old(flushing)@ == received,
        old(asking)@ == received,
        call_ensures(Protocol::parse_flush, (&Protocol::Ascii, flushing), flushed),
        call_ensures(Protocol::parse_version, (&Protocol::Ascii, asking), version),
    ensures
        flushed is Ok <==> line == bytes::utf8("OK\r\n"),
        version is Ok <==> bytes::has_prefix(line, bytes::utf8("VERSION")),
        version is Ok ==> vstd::utf8::encode_utf8(version->Ok_0@) == bytes::without_prefixes(
            line.take(line.len() - 2),
            bytes::utf8("VERSION "),
        ),
        final(flushing)@ == rest,
        final(asking)@ == rest,
{
    lines::lemma_version_and_confirmation(received, line, rest);
}

/// A binary reply is told by its status. Zero is success; one means that the key is
/// not there and two that another value is: a delete and a touch found nothing by
/// the first, and a compare-and-swap has not swapped by either. All else is the
/// failure that the status names.
pub proof fn lemma_binary_statuses(
    received: Seq<u8>,
    response: ResponseView,
    storing: &mut Reader,
    swapping: &mut Reader,
    deleting: &mut Reader,
    touching: &mut Reader,
    stored: Result<(), MemcacheError>,
    swapped: Result<bool, MemcacheError>,
    deleted: Result<bool, MemcacheError>,
    touched: Result<bool, MemcacheError>,
)
    requires
        binary_packet::response_read(received).0 == Ok::<ResponseView, MemcacheErrorView>(response),
        old(storing)@ == received,
        old(swapping)@ == received,
        old(deleting)@ == received,
        old(touching)@ == received,
        call_ensures(Protocol::parse_store, (&Protocol::Binary, storing), stored),
        call_ensures(Protocol::parse_cas, (&Protocol::Binary, swapping), swapped),
        call_ensures(Protocol::parse_delete, (&Protocol::Binary, deleting), deleted),
        call_ensures(Protocol::parse_touch, (&Protocol::Binary, touching), touched),
    ensures
        ({
            let status = response.header.vbucket_id_or_status;
            let fault = MemcacheErrorView::CommandError(error::status_error(status));
            &&& stored is Ok <==> status == 0
            &&& swapped is Ok <==> status <= 2
            &&& swapped is Ok ==> (swapped->Ok_0 <==> status == 0)
            &&& deleted is Ok <==> status <= 1
            &&& deleted is Ok ==> (deleted->Ok_0 <==> status == 0)
            &&& touched is Ok <==> status <= 1
            &&& touched is Ok ==> (touched->Ok_0 <==> status == 0)
            &&& stored is Err ==> stored->Err_0@ == fault
            &&& swapped is Err ==> swapped->Err_0@ == fault
            &&& deleted is Err ==> deleted->Err_0@ == fault
            &&& touched is Err ==> touched->Err_0@ == fault
        }),
        final(storing)@ == binary_packet::response_read(received).1,
        final(swapping)@ == binary_packet::response_read(received).1,
        final(deleting)@ == binary_packet::response_read(received).1,
        final(touching)@ == binary_packet::response_read(received).1,
{
    frames::lemma_status_decides(received);
}

/// The counter of a binary reply is the number that its value starts with, and the
/// version its value.
pub proof fn lemma_binary_counter_and_version(
    received: Seq<u8>,
    response: ResponseView,
    counting: &mut Reader,
    asking: &mut Reader,
    counted: Result<u64, MemcacheError>,
    version: Result<String, MemcacheError>,
)
    requires
        binary_packet::response_read(received).0 == Ok::<ResponseView, MemcacheErrorView>(response),
        old(counting)@ == received,
        old(asking)@ == received,
        call_ensures(Protocol::parse_counter, (&Protocol::Binary, counting), counted),
        call_ensures(Protocol::parse_version, (&Protocol::Binary, asking), version),
    ensures
        counted is Ok <==> response.header.vbucket_id_or_status == 0 && response.value.len() >= 8,
        counted is Ok ==> counted->Ok_0 == big_endian::value(response.value.take(8)),
        version is Ok ==> response.header.vbucket_id_or_status == 0 && vstd::utf8::encode_utf8(version->Ok_0@)
            == response.value,
{
    frames::lemma_status_decides(received);
}

/// A read finds nothing where the text list ends at once, or where the binary status
/// says that the key is not there.
pub proof fn lemma_misses<V: FromMemcacheValueExt>(
    key: &str,
    lined: &mut Reader,
    packed: &mut Reader,
    line: Result<Option<V>, MemcacheError>,
    packet: Result<Option<V>, MemcacheError>,
)
    requires
        call_ensures(Protocol::parse_get::<V>, (&Protocol::Ascii, lined, key), line),
        call_ensures(Protocol::parse_get::<V>, (&Protocol::Binary, packed, key), packet),
    ensures
        ascii::entry_read::<V>(old(lined)@, true).0 matches Ok(None) ==> line is Ok && line->Ok_0 is None,
        ascii::entry_read::<V>(old(lined)@, true).0 matches Err(e) ==> line is Err && line->Err_0@ == e,
        line is Ok && line->Ok_0 is Some ==> (ascii::entry_read::<V>(old(lined)@, true).0 matches Ok(Some(item))
            && item.key == key@),
        binary_packet::response_read(old(packed)@).0 matches Ok(response) ==> {
            &&& packet is Ok && packet->Ok_0 is None <==> response.header.vbucket_id_or_status == 1
            &&& packet is Ok && packet->Ok_0 is Some ==> response.header.vbucket_id_or_status == 0
        },
{
    lines::lemma_single_reads::<V>(old(lined)@, key@);
    frames::lemma_get_reads_the_item::<V>(old(packed)@);
    frames::lemma_status_decides(old(packed)@);
    if let Ok(response) = binary_packet::response_read(old(packed)@).0 {
        frames::lemma_statuses(response.header.vbucket_id_or_status);
    }
}

} // verus!
