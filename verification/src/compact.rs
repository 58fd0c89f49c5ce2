use crate::base64url::{dot, dot_free};
use vstd::utf8::valid_utf8;
use vstd::prelude::*;

verus! {

/// Where the first full stop of `text` stands, or the length of `text` if it
/// has none.
pub open spec fn first_dot(text: Seq<u8>) -> int
    decreases text.len(),
{
    if text.len() == 0 {
        0
    } else if text[0] == dot() {
        0
    } else {
        1 + first_dot(text.skip(1))
    }
}

/// The segments that the full stops of `text` separate, in order. A text
/// without a full stop is one segment.
pub open spec fn segments(text: Seq<u8>) -> Seq<Seq<u8>>
    decreases text.len(),
{
    let k = first_dot(text);
    if 0 <= k < text.len() {
        seq![text.take(k)] + segments(text.skip(k + 1))
    } else {
        seq![text]
    }
}

/// The segments joined by full stops.
pub open spec fn joined(parts: Seq<Seq<u8>>) -> Seq<u8>
    decreases parts.len(),
{
    if parts.len() == 0 {
        Seq::empty()
    } else if parts.len() == 1 {
        parts[0]
    } else {
        parts[0] + seq![dot()] + joined(parts.skip(1))
    }
}

/// The views of a list of byte strings.
pub open spec fn parts_view(parts: Seq<Vec<u8>>) -> Seq<Seq<u8>> {
    Seq::new(parts.len(), |i: int| parts[i]@)
}

/// The compact form of five segments.
pub open spec fn compact_text(
    header: Seq<u8>,
    key: Seq<u8>,
    iv: Seq<u8>,
    ciphertext: Seq<u8>,
    tag: Seq<u8>,
) -> Seq<u8> {
    header + seq![dot()] + key + seq![dot()] + iv + seq![dot()] + ciphertext + seq![dot()] + tag
}

/// The first full stop is where the first full stop is.
pub proof fn lemma_first_dot(text: Seq<u8>, k: int)
    requires
        0 <= k <= text.len(),
        forall|i: int| 0 <= i < k ==> text[i] != dot(),
        k < text.len() ==> text[k] == dot(),
    ensures
        first_dot(text) == k,
    decreases k,
{
    if k > 0 {
        let rest = text.skip(1);
        assert forall|i: int| 0 <= i < k - 1 implies rest[i] != dot() by {
            assert(rest[i] == text[i + 1]);
        }
        lemma_first_dot(rest, k - 1);
    }
}

/// A segment without a full stop, followed by a full stop, is split off whole.
pub proof fn lemma_segments_prefix(head: Seq<u8>, rest: Seq<u8>)
    requires
        dot_free(head),
    ensures
        segments(head + seq![dot()] + rest) == seq![head] + segments(rest),
{
    let text = head + seq![dot()] + rest;
    lemma_first_dot(text, head.len() as int);
    assert(text.take(head.len() as int) =~= head);
    assert(text.skip(head.len() as int + 1) =~= rest);
}

/// A text without a full stop is its own single segment.
pub proof fn lemma_segments_single(text: Seq<u8>)
    requires
        dot_free(text),
    ensures
        segments(text) == seq![text],
{
    lemma_first_dot(text, text.len() as int);
}

/// Splitting undoes joining: segments without a full stop, joined, split
/// into the same segments.
pub proof fn lemma_segments_of_joined(parts: Seq<Seq<u8>>)
    requires
        parts.len() >= 1,
        forall|i: int| 0 <= i < parts.len() ==> dot_free(#[trigger] parts[i]),
    ensures
        segments(joined(parts)) == parts,
    decreases parts.len(),
{
    if parts.len() == 1 {
        lemma_segments_single(parts[0]);
        assert(seq![parts[0]] =~= parts);
    } else {
        let rest = parts.skip(1);
        assert forall|i: int| 0 <= i < rest.len() implies dot_free(#[trigger] rest[i]) by {
            assert(rest[i] == parts[i + 1]);
        }
        lemma_segments_of_joined(rest);
        lemma_segments_prefix(parts[0], joined(rest));
        assert(seq![parts[0]] + rest =~= parts);
    }
}

/// Joining undoes splitting: the segments of any text, joined, are the text.
pub proof fn lemma_joined_of_segments(text: Seq<u8>)
    ensures
        segments(text).len() >= 1,
        joined(segments(text)) == text,
    decreases text.len(),
{
    let k = first_dot(text);
    if 0 <= k < text.len() {
        let rest = text.skip(k + 1);
        lemma_joined_of_segments(rest);
        let parts = seq![text.take(k)] + segments(rest);
        assert(parts.skip(1) =~= segments(rest));
        lemma_first_dot_is_dot(text);
        assert(text.take(k) + seq![dot()] + rest =~= text);
    }
}

/// Where the first full stop is said to stand, a full stop stands, and none
/// before it.
pub proof fn lemma_first_dot_is_dot(text: Seq<u8>)
    ensures
        0 <= first_dot(text) <= text.len(),
        first_dot(text) < text.len() ==> text[first_dot(text)] == dot(),
        forall|i: int| 0 <= i < first_dot(text) ==> text[i] != dot(),
    decreases text.len(),
{
    if text.len() > 0 && text[0] != dot() {
        let rest = text.skip(1);
        lemma_first_dot_is_dot(rest);
        assert forall|i: int| 0 <= i < first_dot(text) implies text[i] != dot() by {
            if i > 0 {
                assert(text[i] == rest[i - 1]);
            }
        }
    }
}

/// The compact form is the five segments joined.
pub proof fn lemma_compact_text_joined(
    header: Seq<u8>,
    key: Seq<u8>,
    iv: Seq<u8>,
    ciphertext: Seq<u8>,
    tag: Seq<u8>,
)
    ensures
        compact_text(header, key, iv, ciphertext, tag) == joined(
            seq![header, key, iv, ciphertext, tag],
        ),
{
    let five = seq![header, key, iv, ciphertext, tag];
    let four = seq![key, iv, ciphertext, tag];
    let three = seq![iv, ciphertext, tag];
    let two = seq![ciphertext, tag];
    let one = seq![tag];
    assert(five.skip(1) =~= four);
    assert(four.skip(1) =~= three);
    assert(three.skip(1) =~= two);
    assert(two.skip(1) =~= one);
    assert(joined(one) == tag);
    assert(joined(two) == ciphertext + seq![dot()] + tag);
    assert(joined(three) == iv + seq![dot()] + joined(two));
    assert(joined(four) == key + seq![dot()] + joined(three));
    assert(joined(five) == header + seq![dot()] + joined(four));
    assert(joined(five) =~= compact_text(header, key, iv, ciphertext, tag));
}

/// Five segments without a full stop are what their compact form splits into.
pub proof fn lemma_segments_of_compact_text(
    header: Seq<u8>,
    key: Seq<u8>,
    iv: Seq<u8>,
    ciphertext: Seq<u8>,
    tag: Seq<u8>,
)
    requires
        dot_free(header),
        dot_free(key),
        dot_free(iv),
        dot_free(ciphertext),
        dot_free(tag),
    ensures
        segments(compact_text(header, key, iv, ciphertext, tag)) == seq![
            header,
            key,
            iv,
            ciphertext,
            tag,
        ],
{
    lemma_compact_text_joined(header, key, iv, ciphertext, tag);
    lemma_segments_of_joined(seq![header, key, iv, ciphertext, tag]);
}

/// Splits a text at its full stops.
pub fn split(input: &[u8]) -> (r: Vec<Vec<u8>>)
    ensures
        parts_view(r@) == segments(input@),
        r@.len() >= 1,
{
    let mut done: Vec<Vec<u8>> = Vec::new();
    let mut current: Vec<u8> = Vec::new();
    let mut start: usize = 0;
    let mut i: usize = 0;
    proof {
        assert(input@.skip(0) =~= input@);
        assert(parts_view(done@) + segments(input@) =~= segments(input@));
    }
    while i < input.len()
        invariant
            start <= i <= input@.len(),
            current@ == input@.subrange(start as int, i as int),
            forall|k: int| start <= k < i ==> input@[k] != dot(),
            segments(input@) == parts_view(done@) + segments(input@.skip(start as int)),
        decreases input@.len() - i,
    {
        let b = input[i];
        if b == 0x2e {
            proof {
                let tail = input@.skip(start as int);
                assert forall|k: int| 0 <= k < i - start implies tail[k] != dot() by {
                    assert(tail[k] == input@[start + k]);
                }
                lemma_first_dot(tail, i - start);
                assert(tail.take(i - start) =~= current@);
                assert(tail.skip(i - start + 1) =~= input@.skip(i + 1));
                assert(parts_view(done@.push(current)) =~= parts_view(done@) + seq![current@]);
            }
            done.push(current);
            current = Vec::new();
            start = i + 1;
            i += 1;
            assert(current@ =~= input@.subrange(start as int, i as int));
        } else {
            current.push(b);
            i += 1;
            assert(current@ =~= input@.subrange(start as int, i as int));
        }
    }
    proof {
        let tail = input@.skip(start as int);
        assert forall|k: int| 0 <= k < tail.len() implies tail[k] != dot() by {
            assert(tail[k] == input@[start + k]);
        }
        lemma_first_dot(tail, tail.len() as int);
        assert(tail =~= current@);
        assert(parts_view(done@.push(current)) =~= parts_view(done@) + seq![current@]);
    }
    done.push(current);
    done
}

/// Appends `more` to `text`.
pub fn append(text: &mut Vec<u8>, more: &[u8])
    ensures
        final(text)@ == old(text)@ + more@,
{
    let mut i: usize = 0;
    while i < more.len()
        invariant
            i <= more@.len(),
            text@ == old(text)@ + more@.subrange(0, i as int),
        decreases more@.len() - i,
    {
        text.push(more[i]);
        i += 1;
        assert(text@ =~= old(text)@ + more@.subrange(0, i as int));
    }
    assert(more@.subrange(0, more@.len() as int) =~= more@);
}

/// Joins five segments into the compact form.
pub fn join(header: &[u8], key: &[u8], iv: &[u8], ciphertext: &[u8], tag: &[u8]) -> (r: Vec<u8>)
    ensures
        r@ == compact_text(header@, key@, iv@, ciphertext@, tag@),
{
    let mut text: Vec<u8> = Vec::new();
    append(&mut text, header);
    text.push(0x2e);
    append(&mut text, key);
    text.push(0x2e);
    append(&mut text, iv);
    text.push(0x2e);
    append(&mut text, ciphertext);
    text.push(0x2e);
    append(&mut text, tag);
    assert(text@ =~= compact_text(header@, key@, iv@, ciphertext@, tag@));
    text
}

/// A full stop is UTF-8.
pub proof fn lemma_dot_valid()
    ensures
        valid_utf8(seq![dot()]),
{
    let s = seq![dot()];
    assert(vstd::utf8::is_leading_byte_width_1(0x2eu8)) by (bit_vector);
    assert(s.subrange(0, 0) =~= Seq::<u8>::empty());
    assert(valid_utf8(s.subrange(0, 0)));
    assert(vstd::utf8::partial_valid_utf8(s, 0));
    vstd::utf8::partial_valid_utf8_extend_ascii_block(s, 0, 1);
    assert(s.subrange(0, 1) =~= s);
}

/// Five segments of UTF-8 make a compact text of UTF-8.
pub proof fn lemma_compact_text_valid(a: Seq<u8>, b: Seq<u8>, c: Seq<u8>, d: Seq<u8>, e: Seq<u8>)
    requires
        valid_utf8(a),
        valid_utf8(b),
        valid_utf8(c),
        valid_utf8(d),
        valid_utf8(e),
    ensures
        valid_utf8(compact_text(a, b, c, d, e)),
{
    lemma_dot_valid();
    let p = seq![dot()];
    vstd::utf8::valid_utf8_concat(a, p);
    vstd::utf8::valid_utf8_concat(a + p, b);
    vstd::utf8::valid_utf8_concat(a + p + b, p);
    vstd::utf8::valid_utf8_concat(a + p + b + p, c);
    vstd::utf8::valid_utf8_concat(a + p + b + p + c, p);
    vstd::utf8::valid_utf8_concat(a + p + b + p + c + p, d);
    vstd::utf8::valid_utf8_concat(a + p + b + p + c + p + d, p);
    vstd::utf8::valid_utf8_concat(a + p + b + p + c + p + d + p, e);
}

} // verus!
