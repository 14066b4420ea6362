//! Byte-string helpers shared by the protocol modules.

use vstd::prelude::*;
use vstd::slice::slice_to_vec;
use vstd::string::*;

verus! {

/// The bytes a text is sent as: its UTF-8 encoding.
pub open spec fn utf8(text: &str) -> Seq<u8> {
    vstd::utf8::encode_utf8(text@)
}

/// Carriage return, line feed.
pub open spec fn crlf() -> Seq<u8> {
    seq![13u8, 10u8]
}

/// The bytes of each element of a list of byte strings.
pub open spec fn views(list: Seq<Vec<u8>>) -> Seq<Seq<u8>> {
    Seq::new(list.len(), |i: int| list[i]@)
}

/// The bytes of an optional byte string.
pub open spec fn view_opt(value: Option<Vec<u8>>) -> Option<Seq<u8>> {
    match value {
        Some(bytes) => Some(bytes@),
        None => None,
    }
}

/// Whether every byte of `s` lies in the ASCII range.
pub open spec fn is_ascii_bytes(s: Seq<u8>) -> bool {
    forall|i: int| 0 <= i < s.len() ==> s[i] < 128
}

/// The text whose characters are the bytes of `s`, for ASCII bytes.
pub open spec fn chars(s: Seq<u8>) -> Seq<char> {
    Seq::new(s.len(), |i: int| s[i] as char)
}

/// Whether two byte strings hold the same bytes.
pub fn equal(a: &[u8], b: &[u8]) -> (r: bool)
    ensures
        r == (a@ == b@),
{
    if a.len() != b.len() {
        return false;
    }
    let mut i: usize = 0;
    while i < a.len()
        invariant
            a@.len() == b@.len(),
            i <= a@.len(),
            forall|j: int| 0 <= j < i ==> a@[j] == b@[j],
        decreases a@.len() - i,
    {
        if a[i] != b[i] {
            assert(a@[i as int] != b@[i as int]);
            return false;
        }
        i += 1;
    }
    assert(a@ =~= b@);
    true
}

/// An owned copy of a byte string.
pub fn copy(s: &[u8]) -> (r: Vec<u8>)
    ensures
        r@ == s@,
{
    slice_to_vec(s)
}

/// An owned copy of a list of byte strings.
pub fn copy_list(list: &Vec<Vec<u8>>) -> (r: Vec<Vec<u8>>)
    ensures
        views(r@) == views(list@),
{
    let mut out: Vec<Vec<u8>> = Vec::new();
    let mut i: usize = 0;
    while i < list.len()
        invariant
            i <= list@.len(),
            out@.len() == i,
            forall|j: int| 0 <= j < i ==> #[trigger] out@[j]@ == list@[j]@,
        decreases list@.len() - i,
    {
        out.push(copy(list[i].as_slice()));
        i += 1;
    }
    assert(views(out@) =~= views(list@));
    out
}

/// An owned copy of an optional byte string.
pub fn copy_opt(value: &Option<Vec<u8>>) -> (r: Option<Vec<u8>>)
    ensures
        view_opt(r) == view_opt(*value),
{
    match value {
        Some(bytes) => Some(copy(bytes.as_slice())),
        None => None,
    }
}

/// Append bytes to a buffer.
pub fn append(buffer: &mut Vec<u8>, s: &[u8])
    ensures
        final(buffer)@ == old(buffer)@ + s@,
{
    buffer.extend_from_slice(s);
    assert(buffer@ =~= old(buffer)@ + s@);
}

/// The bytes of `s` from `start` up to `end`.
pub fn slice(s: &[u8], start: usize, end: usize) -> (r: Vec<u8>)
    requires
        start <= end <= s@.len(),
    ensures
        r@ == s@.subrange(start as int, end as int),
{
    slice_to_vec(vstd::slice::slice_subrange(s, start, end))
}

/// Whether `s` begins with `prefix`.
pub open spec fn has_prefix(s: Seq<u8>, prefix: Seq<u8>) -> bool {
    prefix.len() <= s.len() && s.take(prefix.len() as int) == prefix
}

/// Whether `s` begins with `prefix`.
pub fn starts_with(s: &[u8], prefix: &[u8]) -> (r: bool)
    ensures
        r == has_prefix(s@, prefix@),
{
    if prefix.len() > s.len() {
        return false;
    }
    let head = vstd::slice::slice_subrange(s, 0, prefix.len());
    assert(head@ =~= s@.take(prefix@.len() as int));
    equal(head, prefix)
}

/// Joining byte strings is associative.
pub proof fn lemma_join(a: Seq<u8>, b: Seq<u8>, c: Seq<u8>)
    ensures
        (a + b) + c == a + (b + c),
{
    assert((a + b) + c =~= a + (b + c));
}

/// Append a line end to a buffer.
pub fn append_crlf(buffer: &mut Vec<u8>)
    ensures
        final(buffer)@ == old(buffer)@ + crlf(),
{
    buffer.push(13);
    buffer.push(10);
    assert(buffer@ =~= old(buffer)@ + crlf());
}

/// Append one byte to a buffer.
pub fn append_byte(buffer: &mut Vec<u8>, byte: u8)
    ensures
        final(buffer)@ == old(buffer)@ + seq![byte],
{
    buffer.push(byte);
    assert(buffer@ =~= old(buffer)@ + seq![byte]);
}

/// For an ASCII literal, the bytes sent are its characters' codes.
pub proof fn lemma_ascii_literal(text: &str)
    requires
        is_ascii(text),
    ensures
        utf8(text) == Seq::new(text@.len(), |i: int| text@[i] as u8),
{
    vstd::utf8::is_ascii_chars_encode_utf8(text@);
    assert(utf8(text) =~= Seq::new(text@.len(), |i: int| text@[i] as u8));
}

/// A text whose UTF-8 form is ASCII bytes has exactly those characters.
pub proof fn lemma_ascii_text(text: Seq<char>, s: Seq<u8>)
    requires
        is_ascii_bytes(s),
        vstd::utf8::encode_utf8(text) == s,
    ensures
        text == chars(s),
{
    let c = chars(s);
    assert(vstd::utf8::is_ascii_chars(c));
    vstd::utf8::is_ascii_chars_encode_utf8(c);
    assert(vstd::utf8::encode_utf8(c) =~= s);
    vstd::utf8::encode_utf8_decode_utf8(c);
    vstd::utf8::encode_utf8_decode_utf8(text);
}

/// ASCII bytes are valid UTF-8.
pub proof fn lemma_ascii_valid(s: Seq<u8>)
    requires
        is_ascii_bytes(s),
    ensures
        vstd::utf8::valid_utf8(s),
        vstd::utf8::decode_utf8(s) == chars(s),
{
    let c = chars(s);
    assert(vstd::utf8::is_ascii_chars(c));
    vstd::utf8::is_ascii_chars_encode_utf8(c);
    assert(vstd::utf8::encode_utf8(c) =~= s);
    vstd::utf8::encode_utf8_valid_utf8(c);
    vstd::utf8::encode_utf8_decode_utf8(c);
}

/// How many bytes `s` has before its first space.
pub open spec fn word_len(s: Seq<u8>) -> nat
    decreases s.len(),
{
    if s.len() == 0 || s[0] == 32 {
        0
    } else {
        1 + word_len(s.skip(1))
    }
}

/// The words of a line: its longest runs of bytes other than spaces.
pub open spec fn words(s: Seq<u8>) -> Seq<Seq<u8>>
    decreases s.len(),
    via words_decreases
{
    if s.len() == 0 {
        Seq::empty()
    } else if s[0] == 32 {
        words(s.skip(1))
    } else {
        seq![s.take(word_len(s) as int)] + words(s.skip(word_len(s) as int))
    }
}

#[via_fn]
proof fn words_decreases(s: Seq<u8>) {
    lemma_word_len(s);
}

pub proof fn lemma_word_len(s: Seq<u8>)
    ensures
        word_len(s) <= s.len(),
        forall|i: int| 0 <= i < word_len(s) ==> #[trigger] s[i] != 32,
        word_len(s) < s.len() ==> s[word_len(s) as int] == 32,
        s.len() > 0 && s[0] != 32 ==> word_len(s) > 0,
    decreases s.len(),
{
    if s.len() > 0 && s[0] != 32 {
        let t = s.skip(1);
        lemma_word_len(t);
        assert forall|i: int| 0 <= i < word_len(s) implies #[trigger] s[i] != 32 by {
            if i > 0 {
                assert(s[i] == t[i - 1]);
            }
        }
    }
}

pub proof fn lemma_word_len_is(s: Seq<u8>, k: nat)
    requires
        k <= s.len(),
        forall|i: int| 0 <= i < k ==> #[trigger] s[i] != 32,
        k == s.len() || s[k as int] == 32,
    ensures
        word_len(s) == k,
    decreases s.len(),
{
    if s.len() > 0 && s[0] != 32 {
        let t = s.skip(1);
        assert forall|i: int| 0 <= i < k - 1 implies #[trigger] t[i] != 32 by {
            assert(t[i] == s[i + 1]);
        }
        lemma_word_len_is(t, (k - 1) as nat);
    }
}

/// Split a line into its words.
pub fn split_words(line: &[u8]) -> (r: Vec<Vec<u8>>)
    ensures
        views(r@) == words(line@),
{
    let mut out: Vec<Vec<u8>> = Vec::new();
    let mut i: usize = 0;
    proof {
        assert(line@.skip(0) =~= line@);
        assert(views(out@) + words(line@) =~= words(line@));
    }
    while i < line.len()
        invariant
            i <= line@.len(),
            views(out@) + words(line@.skip(i as int)) == words(line@),
        decreases line@.len() - i,
    {
        let ghost rest = line@.skip(i as int);
        if line[i] == 32 {
            assert(rest.skip(1) =~= line@.skip(i + 1));
            i += 1;
        } else {
            let mut end: usize = i + 1;
            while end < line.len() && line[end] != 32
                invariant
                    i < end <= line@.len(),
                    forall|k: int| i <= k < end ==> #[trigger] line@[k] != 32,
                decreases line@.len() - end,
            {
                end += 1;
            }
            proof {
                assert forall|k: int| 0 <= k < end - i implies #[trigger] rest[k] != 32 by {
                    assert(rest[k] == line@[i + k]);
                }
                lemma_word_len_is(rest, (end - i) as nat);
                assert(rest.take(end - i) =~= line@.subrange(i as int, end as int));
                assert(rest.skip(end - i) =~= line@.skip(end as int));
            }
            let ghost before = views(out@);
            out.push(slice(line, i, end));
            proof {
                assert(views(out@) =~= before.push(rest.take(end - i)));
                assert(views(out@) + words(line@.skip(end as int)) =~= before + words(rest));
            }
            i = end;
        }
    }
    proof {
        assert(line@.skip(i as int) =~= Seq::<u8>::empty());
        assert(views(out@) + Seq::<Seq<u8>>::empty() =~= views(out@));
    }
    out
}

/// The fields of a line: what stands between its spaces, empty fields
/// included.
pub open spec fn fields(s: Seq<u8>) -> Seq<Seq<u8>>
    decreases s.len(),
    via fields_decreases
{
    let end = word_len(s) as int;
    if end >= s.len() {
        seq![s]
    } else {
        seq![s.take(end)] + fields(s.skip(end + 1))
    }
}

#[via_fn]
proof fn fields_decreases(s: Seq<u8>) {
    lemma_word_len(s);
}

/// Split a line into its fields.
pub fn split_fields(line: &[u8]) -> (r: Vec<Vec<u8>>)
    ensures
        views(r@) == fields(line@),
{
    let mut out: Vec<Vec<u8>> = Vec::new();
    let mut start: usize = 0;
    proof {
        assert(line@.skip(0) =~= line@);
        assert(views(out@) + fields(line@) =~= fields(line@));
    }
    loop
        invariant
            start <= line@.len(),
            views(out@) + fields(line@.skip(start as int)) == fields(line@),
        decreases line@.len() - start,
    {
        let ghost rest = line@.skip(start as int);
        let ghost before = views(out@);
        let mut end: usize = start;
        while end < line.len() && line[end] != 32
            invariant
                start <= end <= line@.len(),
                forall|k: int| start <= k < end ==> #[trigger] line@[k] != 32,
            decreases line@.len() - end,
        {
            end += 1;
        }
        proof {
            assert forall|k: int| 0 <= k < end - start implies #[trigger] rest[k] != 32 by {
                assert(rest[k] == line@[start + k]);
            }
            lemma_word_len_is(rest, (end - start) as nat);
            assert(rest.take(end - start) =~= line@.subrange(start as int, end as int));
        }
        out.push(slice(line, start, end));
        assert(views(out@) =~= before.push(rest.take(end - start)));
        if end == line.len() {
            proof {
                assert(rest.take(end - start) =~= rest);
                assert(views(out@) =~= before + fields(rest));
            }
            return out;
        }
        proof {
            assert(rest.skip(end - start + 1) =~= line@.skip(end + 1));
            assert(views(out@) + fields(line@.skip(end + 1)) =~= before + fields(rest));
        }
        start = end + 1;
    }
}

/// Valid UTF-8 that is cut before and after an ASCII byte stays valid.
pub proof fn lemma_ascii_cut(s: Seq<u8>, k: int)
    requires
        vstd::utf8::valid_utf8(s),
        0 <= k < s.len(),
        s[k] < 128,
    ensures
        vstd::utf8::valid_utf8(s.take(k)),
        vstd::utf8::valid_utf8(s.skip(k)),
        vstd::utf8::valid_utf8(s.take(k + 1)),
        vstd::utf8::valid_utf8(s.skip(k + 1)),
{
    broadcast use vstd::utf8::utf8_byte_ranges_bitwise;

    vstd::utf8::is_char_boundary_iff_not_is_continuation_byte(s, k);
    if k == 0 {
        vstd::utf8::is_char_boundary_start_end_of_seq(s);
    }
    assert(vstd::utf8::is_char_boundary(s, k));
    vstd::utf8::valid_utf8_split(s, k);
    assert(s.subrange(0, k) =~= s.take(k));
    assert(s.subrange(k, s.len() as int) =~= s.skip(k));
    let tail = s.skip(k);
    assert(tail[0] == s[k]);
    assert(vstd::utf8::length_of_first_scalar(tail) == 1);
    assert(vstd::utf8::pop_first_scalar(tail) =~= s.skip(k + 1));
    lemma_ascii_valid(seq![s[k]]);
    vstd::utf8::valid_utf8_concat(s.take(k), seq![s[k]]);
    assert(s.take(k) + seq![s[k]] =~= s.take(k + 1));
}

/// The fields of valid UTF-8 are valid UTF-8.
pub proof fn lemma_fields_valid(s: Seq<u8>)
    requires
        vstd::utf8::valid_utf8(s),
    ensures
        forall|i: int| 0 <= i < fields(s).len() ==> vstd::utf8::valid_utf8(#[trigger] fields(s)[i]),
    decreases s.len(),
{
    let end = word_len(s) as int;
    lemma_word_len(s);
    if end < s.len() {
        lemma_ascii_cut(s, end);
        let rest = s.skip(end + 1);
        lemma_fields_valid(rest);
        assert forall|i: int| 0 <= i < fields(s).len() implies vstd::utf8::valid_utf8(#[trigger] fields(s)[i]) by {
            if i > 0 {
                assert(fields(s)[i] == fields(rest)[i - 1]);
            }
        }
    }
}

/// What follows valid UTF-8 in valid UTF-8 is valid UTF-8.
pub proof fn lemma_valid_rest(head: Seq<u8>, tail: Seq<u8>)
    requires
        vstd::utf8::valid_utf8(head),
        vstd::utf8::valid_utf8(head + tail),
    ensures
        vstd::utf8::valid_utf8(tail),
    decreases head.len(),
{
    let all = head + tail;
    if head.len() == 0 {
        assert(all =~= tail);
    } else {
        let n = vstd::utf8::length_of_first_scalar(head);
        assert(all[0] == head[0]);
        assert(n == vstd::utf8::length_of_first_scalar(all));
        let rest = vstd::utf8::pop_first_scalar(head);
        assert(vstd::utf8::pop_first_scalar(all) =~= rest + tail);
        assert(rest.len() < head.len());
        lemma_valid_rest(rest, tail);
    }
}

/// `s` without the copies of `prefix` that it starts with.
pub open spec fn without_prefixes(s: Seq<u8>, prefix: Seq<u8>) -> Seq<u8>
    decreases s.len(),
{
    if prefix.len() > 0 && has_prefix(s, prefix) {
        without_prefixes(s.skip(prefix.len() as int), prefix)
    } else {
        s
    }
}

/// Valid UTF-8 without the copies of a valid prefix is valid UTF-8.
pub proof fn lemma_without_prefixes_valid(s: Seq<u8>, prefix: Seq<u8>)
    requires
        vstd::utf8::valid_utf8(s),
        vstd::utf8::valid_utf8(prefix),
    ensures
        vstd::utf8::valid_utf8(without_prefixes(s, prefix)),
    decreases s.len(),
{
    if prefix.len() > 0 && has_prefix(s, prefix) {
        let rest = s.skip(prefix.len() as int);
        assert(s =~= prefix + rest);
        lemma_valid_rest(prefix, rest);
        lemma_without_prefixes_valid(rest, prefix);
    }
}

/// Remove the copies of `prefix` that `s` starts with.
pub fn trim_prefixes(s: &[u8], prefix: &[u8]) -> (r: Vec<u8>)
    ensures
        r@ == without_prefixes(s@, prefix@),
{
    let mut rest = copy(s);
    if prefix.len() == 0 {
        return rest;
    }
    while starts_with(rest.as_slice(), prefix)
        invariant
            prefix@.len() > 0,
            without_prefixes(rest@, prefix@) == without_prefixes(s@, prefix@),
        decreases rest@.len(),
    {
        let ghost before = rest@;
        rest = slice(rest.as_slice(), prefix.len(), rest.len());
        assert(rest@ =~= before.skip(prefix@.len() as int));
    }
    rest
}

} // verus!
