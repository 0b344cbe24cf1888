//! The canonical byte encoding of an object's identity.
//!
//! An identity is an optional namespace and a name. Each field is written as
//! a presence word, and, when present, its UTF-8 text closed by a byte that
//! no UTF-8 text contains. A missing namespace and an empty one therefore
//! differ in their presence word, and the closing byte keeps `("a", "bc")`
//! apart from `("ab", "c")`.

use vstd::prelude::*;
use vstd::string::StringSliceAdditionalSpecFns;
use vstd::utf8::*;

verus! {

/// Closes the text of a field. UTF-8 never produces this byte.
pub const FIELD_END: u8 = 0xff;

/// Number of bytes in a presence word.
pub const PRESENCE_WORD_LEN: usize = 8;

/// The presence word: a 64-bit little-endian integer, 1 for a field that is
/// there and 0 for one that is not.
pub open spec fn presence_word(present: bool) -> Seq<u8> {
    seq![if present { 1u8 } else { 0u8 }, 0u8, 0u8, 0u8, 0u8, 0u8, 0u8, 0u8]
}

/// A field's text: its UTF-8 bytes, then the closing byte.
pub open spec fn encode_text(text: Seq<char>) -> Seq<u8> {
    encode_utf8(text).push(FIELD_END)
}

/// One field of an identity.
pub open spec fn encode_field(field: Option<Seq<char>>) -> Seq<u8> {
    match field {
        None => presence_word(false),
        Some(text) => presence_word(true) + encode_text(text),
    }
}

/// The encoding of an identity: the namespace field, then the name, which is
/// always present.
pub open spec fn identity_encoding(namespace: Option<Seq<char>>, name: Seq<char>) -> Seq<u8> {
    encode_field(namespace) + encode_field(Some(name))
}

/// The characters of an optional string slice.
pub open spec fn text_of(field: Option<&str>) -> Option<Seq<char>> {
    match field {
        None => None,
        Some(text) => Some(text@),
    }
}

/// No byte of well-formed UTF-8 is the closing byte.
pub proof fn lemma_utf8_never_field_end(bytes: Seq<u8>)
    requires
        valid_utf8(bytes),
    ensures
        forall|i: int| 0 <= i < bytes.len() ==> bytes[i] != FIELD_END,
    decreases bytes.len(),
{
    if bytes.len() > 0 {
        let width = length_of_first_scalar(bytes);
        let rest = pop_first_scalar(bytes);
        lemma_utf8_never_field_end(rest);
        assert forall|i: int| 0 <= i < bytes.len() implies bytes[i] != FIELD_END by {
            if i >= width {
                assert(bytes[i] == rest[i - width]);
            }
        }
    }
}

/// Text closed by the closing byte can be read back from the front of a
/// longer sequence in one way only.
pub proof fn lemma_closed_text_unique(a: Seq<u8>, after_a: Seq<u8>, b: Seq<u8>, after_b: Seq<u8>)
    requires
        forall|i: int| 0 <= i < a.len() ==> a[i] != FIELD_END,
        forall|i: int| 0 <= i < b.len() ==> b[i] != FIELD_END,
        a.push(FIELD_END) + after_a == b.push(FIELD_END) + after_b,
    ensures
        a == b,
        after_a == after_b,
{
    let whole = a.push(FIELD_END) + after_a;
    let other = b.push(FIELD_END) + after_b;
    assert(whole[a.len() as int] == FIELD_END);
    assert(other[b.len() as int] == FIELD_END);
    if a.len() < b.len() {
        assert(other[a.len() as int] == b[a.len() as int]);
    }
    if b.len() < a.len() {
        assert(whole[b.len() as int] == a[b.len() as int]);
    }
    assert(a.len() == b.len());
    assert forall|i: int| 0 <= i < a.len() implies a[i] == b[i] by {
        assert(whole[i] == a[i]);
        assert(other[i] == b[i]);
    }
    assert(a =~= b);
    assert(whole.len() == other.len());
    assert forall|i: int| 0 <= i < after_a.len() implies after_a[i] == after_b[i] by {
        assert(whole[a.len() + 1 + i] == after_a[i]);
        assert(other[b.len() + 1 + i] == after_b[i]);
    }
    assert(after_a =~= after_b);
}

/// A field followed by anything can be read back in one way only: equal
/// bytes mean the same field and the same remainder.
pub proof fn lemma_encode_field_unique(
    f: Option<Seq<char>>,
    after_f: Seq<u8>,
    g: Option<Seq<char>>,
    after_g: Seq<u8>,
)
    requires
        encode_field(f) + after_f == encode_field(g) + after_g,
    ensures
        f == g,
        after_f == after_g,
{
    let whole = encode_field(f) + after_f;
    let other = encode_field(g) + after_g;
    assert(whole[0] == presence_word(f is Some)[0]);
    assert(other[0] == presence_word(g is Some)[0]);
    assert(f is Some <==> g is Some);
    let word = presence_word(f is Some);
    match (f, g) {
        (Some(s), Some(t)) => {
            let a = encode_utf8(s);
            let b = encode_utf8(t);
            assert(whole =~= word + (a.push(FIELD_END) + after_f));
            assert(other =~= word + (b.push(FIELD_END) + after_g));
            assert(a.push(FIELD_END) + after_f =~= whole.skip(PRESENCE_WORD_LEN as int));
            assert(b.push(FIELD_END) + after_g =~= other.skip(PRESENCE_WORD_LEN as int));
            encode_utf8_valid_utf8(s);
            encode_utf8_valid_utf8(t);
            lemma_utf8_never_field_end(a);
            lemma_utf8_never_field_end(b);
            lemma_closed_text_unique(a, after_f, b, after_g);
            encode_utf8_decode_utf8(s);
            encode_utf8_decode_utf8(t);
        },
        _ => {
            assert(after_f =~= whole.skip(PRESENCE_WORD_LEN as int));
            assert(after_g =~= other.skip(PRESENCE_WORD_LEN as int));
        },
    }
}

/// Two identities with the same encoding are the same identity.
pub proof fn lemma_identity_encoding_injective(
    namespace_a: Option<Seq<char>>,
    name_a: Seq<char>,
    namespace_b: Option<Seq<char>>,
    name_b: Seq<char>,
)
    requires
        identity_encoding(namespace_a, name_a) == identity_encoding(namespace_b, name_b),
    ensures
        namespace_a == namespace_b,
        name_a == name_b,
{
    lemma_encode_field_unique(
        namespace_a,
        encode_field(Some(name_a)),
        namespace_b,
        encode_field(Some(name_b)),
    );
    let nothing = Seq::<u8>::empty();
    assert(encode_field(Some(name_a)) + nothing =~= encode_field(Some(name_a)));
    assert(encode_field(Some(name_b)) + nothing =~= encode_field(Some(name_b)));
    lemma_encode_field_unique(Some(name_a), nothing, Some(name_b), nothing);
}

fn push_presence_word(out: &mut Vec<u8>, present: bool)
    ensures
        final(out)@ == old(out)@ + presence_word(present),
{
    out.push(if present { 1u8 } else { 0u8 });
    let mut written: usize = 1;
    while written < PRESENCE_WORD_LEN
        invariant
            1 <= written <= PRESENCE_WORD_LEN,
            out@ == old(out)@ + presence_word(present).take(written as int),
        decreases PRESENCE_WORD_LEN - written,
    {
        out.push(0u8);
        assert(presence_word(present).take(written + 1) =~= presence_word(present).take(
            written as int,
        ).push(0u8));
        written += 1;
    }
    assert(presence_word(present).take(PRESENCE_WORD_LEN as int) =~= presence_word(present));
}

fn push_field(out: &mut Vec<u8>, field: Option<&str>)
    ensures
        final(out)@ == old(out)@ + encode_field(text_of(field)),
{
    match field {
        None => {
            push_presence_word(out, false);
        },
        Some(text) => {
            push_presence_word(out, true);
            let ghost tagged = out@;
            out.extend_from_slice(text.as_bytes());
            assert(out@ =~= tagged + encode_utf8(text@));
            out.push(FIELD_END);
            assert(out@ =~= old(out)@ + (presence_word(true) + encode_text(text@)));
        },
    }
}

/// Writes out the canonical encoding of an identity.
pub fn identity_bytes(namespace: Option<&str>, name: &str) -> (bytes: Vec<u8>)
    ensures
        bytes@ == identity_encoding(text_of(namespace), name@),
{
    let mut bytes: Vec<u8> = Vec::new();
    push_field(&mut bytes, namespace);
    push_field(&mut bytes, Some(name));
    assert(bytes@ =~= encode_field(text_of(namespace)) + encode_field(Some(name@)));
    bytes
}

} // verus!
