//! Text out of bytes that arrive in pieces, where a piece may end in the middle
//! of a character.

use vstd::prelude::*;
use vstd::slice::slice_subrange;
use vstd::string::*;
use vstd::utf8::*;

verus! {

/// The length of the longest beginning of the bytes that is valid UTF-8.
pub open spec fn valid_prefix_len(bytes: Seq<u8>) -> nat
    decreases bytes.len(),
{
    if valid_utf8(bytes) {
        bytes.len()
    } else {
        valid_prefix_len(bytes.drop_last())
    }
}

/// The characters that are complete at the front of the bytes.
pub open spec fn complete_text(bytes: Seq<u8>) -> Seq<char> {
    decode_utf8(bytes.take(valid_prefix_len(bytes) as int))
}

/// The bytes that follow the complete characters.
pub open spec fn incomplete_rest(bytes: Seq<u8>) -> Seq<u8> {
    bytes.skip(valid_prefix_len(bytes) as int)
}

proof fn lemma_valid_prefix(bytes: Seq<u8>)
    ensures
        valid_prefix_len(bytes) <= bytes.len(),
        valid_utf8(bytes.take(valid_prefix_len(bytes) as int)),
    decreases bytes.len(),
{
    if valid_utf8(bytes) {
        assert(bytes.take(bytes.len() as int) =~= bytes);
    } else {
        lemma_valid_prefix(bytes.drop_last());
        assert(bytes.drop_last().take(valid_prefix_len(bytes) as int) =~= bytes.take(
            valid_prefix_len(bytes) as int,
        ));
    }
}

/// `core::str::from_utf8` gives the bytes as a string if they are valid UTF-8,
/// and an error if they are not.
#[verifier::external_body]
fn text_of_utf8(bytes: &[u8]) -> (text: Option<&str>)
    ensures
        text is Some <==> valid_utf8(bytes@),
        text matches Some(s) ==> s.spec_bytes() == bytes@,
{
    core::str::from_utf8(bytes).ok()
}

/// Moves all complete UTF-8 symbols from the front of the vector to the end of
/// the string.
pub fn drain_complete_utf8(buf: &mut Vec<u8>, out: &mut String)
    ensures
        final(out)@ == old(out)@ + complete_text(old(buf)@),
        final(buf)@ == incomplete_rest(old(buf)@),
{
    broadcast use encode_utf8_decode_utf8;

    let ghost bytes = buf@;
    proof {
        lemma_valid_prefix(bytes);
    }
    // Fast path: everything is valid UTF-8
    if let Some(s) = text_of_utf8(buf.as_slice()) {
        proof {
            assert(bytes.take(bytes.len() as int) =~= bytes);
            assert(bytes.skip(bytes.len() as int) =~= Seq::<u8>::empty());
        }
        out.append(s);
        buf.clear();
        return ;
    }
    // Otherwise, find the longest valid UTF-8 prefix

    let mut valid_up_to: usize = 0;
    let n: usize = buf.len();
    let mut i: usize = 0;
    proof {
        assert(bytes.take(0) =~= Seq::<u8>::empty());
    }
    while i < n
        invariant
            i <= n,
            n == bytes.len(),
            buf@ == bytes,
            valid_up_to == valid_prefix_len(bytes.take(i as int)),
        decreases n - i,
    {
        i = i + 1;
        proof {
            assert(bytes.take(i as int).drop_last() =~= bytes.take(i - 1));
            assert(bytes.take(i as int) =~= bytes.subrange(0, i as int));
        }
        if text_of_utf8(slice_subrange(buf.as_slice(), 0, i)).is_some() {
            valid_up_to = i;
        }
    }
    proof {
        assert(bytes.take(n as int) =~= bytes);
    }
    if valid_up_to > 0 {
        proof {
            assert(bytes.take(valid_up_to as int) =~= bytes.subrange(0, valid_up_to as int));
        }
        if let Some(s) = text_of_utf8(slice_subrange(buf.as_slice(), 0, valid_up_to)) {
            out.append(s);
        }
        let rest = buf.split_off(valid_up_to);
        *buf = rest;
    }
    proof {
        assert(bytes.skip(valid_up_to as int) =~= bytes.subrange(valid_up_to as int, n as int));
    }
}

/// The encoding of a text is that of its parts, one after the other.
pub proof fn lemma_encode_concat(a: Seq<char>, b: Seq<char>)
    ensures
        encode_utf8(a + b) == encode_utf8(a) + encode_utf8(b),
    decreases a.len(),
{
    if a.len() == 0 {
        assert(a + b =~= b);
        assert(encode_utf8(a) + encode_utf8(b) =~= encode_utf8(b));
    } else {
        assert((a + b).drop_first() =~= a.drop_first() + b);
        lemma_encode_concat(a.drop_first(), b);
        assert(encode_utf8(a + b) =~= encode_utf8(a) + encode_utf8(b));
    }
}

/// Valid bytes decode to the texts of any two valid parts, one after the other.
proof fn lemma_decode_concat(a: Seq<u8>, b: Seq<u8>)
    requires
        valid_utf8(a),
        valid_utf8(b),
    ensures
        valid_utf8(a + b),
        decode_utf8(a + b) == decode_utf8(a) + decode_utf8(b),
{
    valid_utf8_concat(a, b);
    decode_utf8_encode_utf8(a);
    decode_utf8_encode_utf8(b);
    lemma_encode_concat(decode_utf8(a), decode_utf8(b));
    encode_utf8_decode_utf8(decode_utf8(a) + decode_utf8(b));
}

proof fn lemma_valid_prefix_concat(a: Seq<u8>, b: Seq<u8>)
    requires
        valid_utf8(a),
    ensures
        valid_prefix_len(a + b) == a.len() + valid_prefix_len(b),
    decreases b.len(),
{
    if valid_utf8(b) {
        valid_utf8_concat(a, b);
    } else {
        assert((a + b).subrange(0, a.len() as int) =~= a);
        assert((a + b).subrange(a.len() as int, (a + b).len() as int) =~= b);
        partial_valid_partial_invalid_utf8(a + b, a.len() as int);
        assert((a + b).drop_last() =~= a + b.drop_last());
        lemma_valid_prefix_concat(a, b.drop_last());
    }
}

/// No byte is lost or changed: the text that was drained, encoded again and
/// followed by what was left, is what had been received.
pub proof fn law_drain_keeps_every_byte(bytes: Seq<u8>)
    ensures
        encode_utf8(complete_text(bytes)) + incomplete_rest(bytes) == bytes,
{
    lemma_valid_prefix(bytes);
    decode_utf8_encode_utf8(bytes.take(valid_prefix_len(bytes) as int));
    assert(bytes.take(valid_prefix_len(bytes) as int) + incomplete_rest(bytes) =~= bytes);
}

/// The drained bytes are the longest beginning that is valid UTF-8.
pub proof fn law_drain_takes_all_it_can(bytes: Seq<u8>, n: int)
    requires
        0 <= n <= bytes.len(),
        valid_utf8(bytes.take(n)),
    ensures
        n <= valid_prefix_len(bytes) <= bytes.len(),
        valid_utf8(bytes.take(valid_prefix_len(bytes) as int)),
    decreases bytes.len(),
{
    lemma_valid_prefix(bytes);
    if n == bytes.len() {
        assert(bytes.take(n) =~= bytes);
    } else if !valid_utf8(bytes) {
        assert(bytes.drop_last().take(n) =~= bytes.take(n));
        law_drain_takes_all_it_can(bytes.drop_last(), n);
    }
}

/// The text that is drained has all of the characters that are complete: no
/// longer beginning of the bytes is valid UTF-8.
pub proof fn law_drained_text_is_the_longest(bytes: Seq<u8>, n: int)
    requires
        0 <= n <= bytes.len(),
        valid_utf8(bytes.take(n)),
    ensures
        n <= encode_utf8(complete_text(bytes)).len(),
        n + incomplete_rest(bytes).len() <= bytes.len(),
{
    law_drain_takes_all_it_can(bytes, n);
    law_drain_keeps_every_byte(bytes);
}

/// It does not matter how the bytes are cut into pieces: draining after the
/// first piece and again after the second gives the same text, and leaves the
/// same bytes, as draining once after both.
pub proof fn law_drain_ignores_cuts(first: Seq<u8>, second: Seq<u8>)
    ensures
        complete_text(first) + complete_text(incomplete_rest(first) + second) == complete_text(
            first + second,
        ),
        incomplete_rest(incomplete_rest(first) + second) == incomplete_rest(first + second),
{
    lemma_valid_prefix(first);
    let k = valid_prefix_len(first) as int;
    let done = first.take(k);
    let rest = first.skip(k) + second;
    assert(first + second =~= done + rest);
    lemma_valid_prefix_concat(done, rest);
    lemma_valid_prefix(rest);
    let m = valid_prefix_len(rest) as int;
    lemma_decode_concat(done, rest.take(m));
    assert((done + rest).take(k + m) =~= done + rest.take(m));
    assert((done + rest).skip(k + m) =~= rest.skip(m));
}

/// Where all that was received is a whole text, all of it is drained.
pub proof fn law_drain_of_whole_text(text: Seq<char>)
    ensures
        complete_text(encode_utf8(text)) == text,
        incomplete_rest(encode_utf8(text)) == Seq::<u8>::empty(),
{
    let bytes = encode_utf8(text);
    encode_utf8_valid_utf8(text);
    encode_utf8_decode_utf8(text);
    assert(bytes.take(bytes.len() as int) =~= bytes);
    assert(bytes.skip(bytes.len() as int) =~= Seq::<u8>::empty());
}

/// While a text is still arriving, at most three bytes wait for the rest of
/// their character.
pub proof fn law_drain_holds_back_one_character(received: Seq<u8>, to_come: Seq<u8>)
    requires
        valid_utf8(received + to_come),
    ensures
        incomplete_rest(received).len() <= 3,
    decreases received.len(),
{
    lemma_valid_prefix(received);
    if received.len() > 0 {
        let all = received + to_come;
        let n = length_of_first_scalar(all);
        if n <= received.len() {
            let head = all.take(n);
            let tail = received.skip(n);
            assert(head =~= take_first_scalar(all));
            assert(received =~= head + tail);
            assert(tail + to_come =~= pop_first_scalar(all));
            assert(valid_utf8(head)) by {
                assert(valid_first_scalar(head));
                assert(pop_first_scalar(head) =~= Seq::<u8>::empty());
                assert(valid_utf8(Seq::<u8>::empty()));
            }
            law_drain_holds_back_one_character(tail, to_come);
            lemma_valid_prefix_concat(head, tail);
        }
    }
}

/// Pieces of bytes, one after the other.
pub open spec fn joined(pieces: Seq<Seq<u8>>) -> Seq<u8>
    decreases pieces.len(),
{
    if pieces.len() == 0 {
        seq![]
    } else {
        joined(pieces.drop_last()) + pieces.last()
    }
}

/// The bytes that are left when each piece is drained as it arrives.
pub open spec fn rest_after_pieces(pieces: Seq<Seq<u8>>) -> Seq<u8>
    decreases pieces.len(),
{
    if pieces.len() == 0 {
        seq![]
    } else {
        incomplete_rest(rest_after_pieces(pieces.drop_last()) + pieces.last())
    }
}

/// The text that comes out when each piece is drained as it arrives.
pub open spec fn text_of_pieces(pieces: Seq<Seq<u8>>) -> Seq<char>
    decreases pieces.len(),
{
    if pieces.len() == 0 {
        seq![]
    } else {
        text_of_pieces(pieces.drop_last()) + complete_text(
            rest_after_pieces(pieces.drop_last()) + pieces.last(),
        )
    }
}

/// However many pieces the bytes come in, draining each as it arrives gives
/// what draining all of them at once would.
pub proof fn law_drain_ignores_all_cuts(pieces: Seq<Seq<u8>>)
    ensures
        text_of_pieces(pieces) == complete_text(joined(pieces)),
        rest_after_pieces(pieces) == incomplete_rest(joined(pieces)),
    decreases pieces.len(),
{
    if pieces.len() == 0 {
        law_drain_of_whole_text(seq![]);
        assert(encode_utf8(seq![]) =~= Seq::<u8>::empty());
    } else {
        law_drain_ignores_all_cuts(pieces.drop_last());
        law_drain_ignores_cuts(joined(pieces.drop_last()), pieces.last());
    }
}

/// A text that is sent arrives, whatever pieces its bytes come in.
pub proof fn law_sent_text_arrives(text: Seq<char>, pieces: Seq<Seq<u8>>)
    requires
        joined(pieces) == encode_utf8(text),
    ensures
        text_of_pieces(pieces) == text,
        rest_after_pieces(pieces) == Seq::<u8>::empty(),
{
    law_drain_ignores_all_cuts(pieces);
    law_drain_of_whole_text(text);
}

} // verus!
