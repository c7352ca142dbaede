use vstd::prelude::*;
use vstd::utf8::*;

verus! {

/// The byte that opens an escape sequence (ESC).
pub const ESCAPE_BYTE: u8 = 27;

/// The byte that closes an escape sequence (`m`).
pub const ESCAPE_END_BYTE: u8 = 109;

/// What is left of `s` once escape sequences are taken out: from each `open`
/// element up to and including the next `close` element, everything is
/// dropped; the rest is kept in order. `escaping` tells whether `s` starts
/// inside a sequence that was opened earlier.
pub open spec fn strip_from<T>(s: Seq<T>, open: T, close: T, escaping: bool) -> Seq<T>
    decreases s.len(),
{
    if s.len() == 0 {
        Seq::empty()
    } else if escaping {
        strip_from(s.drop_first(), open, close, s[0] != close)
    } else if s[0] == open {
        strip_from(s.drop_first(), open, close, true)
    } else {
        seq![s[0]] + strip_from(s.drop_first(), open, close, false)
    }
}

/// Whether the scan of `s` (started inside a sequence when `escaping`) ends
/// inside an escape sequence.
pub open spec fn escaping_after<T>(s: Seq<T>, open: T, close: T, escaping: bool) -> bool
    decreases s.len(),
{
    if s.len() == 0 {
        escaping
    } else if escaping {
        escaping_after(s.drop_first(), open, close, s[0] != close)
    } else {
        escaping_after(s.drop_first(), open, close, s[0] == open)
    }
}

/// The bytes of `s` with every `ESC ... m` sequence removed.
pub open spec fn stripped_bytes(s: Seq<u8>) -> Seq<u8> {
    strip_from(s, ESCAPE_BYTE, ESCAPE_END_BYTE, false)
}

/// The characters of `s` with every `ESC ... m` sequence removed.
pub open spec fn stripped_chars(s: Seq<char>) -> Seq<char> {
    strip_from(s, '\x1b', 'm', false)
}

/// Scanning a concatenation is scanning the first part, then the second
/// part from the state in which the first one ended.
pub proof fn lemma_strip_concat<T>(a: Seq<T>, b: Seq<T>, open: T, close: T, escaping: bool)
    ensures
        strip_from(a + b, open, close, escaping) == strip_from(a, open, close, escaping)
            + strip_from(b, open, close, escaping_after(a, open, close, escaping)),
        escaping_after(a + b, open, close, escaping) == escaping_after(
            b,
            open,
            close,
            escaping_after(a, open, close, escaping),
        ),
    decreases a.len(),
{
    if a.len() == 0 {
        assert(a + b =~= b);
    } else {
        assert((a + b).drop_first() =~= a.drop_first() + b);
        let next = if escaping {
            a[0] != close
        } else {
            a[0] == open
        };
        lemma_strip_concat(a.drop_first(), b, open, close, next);
        if !escaping && a[0] != open {
            assert(seq![a[0]] + strip_from(a.drop_first() + b, open, close, false) =~= seq![a[0]]
                + strip_from(a.drop_first(), open, close, false) + strip_from(
                b,
                open,
                close,
                escaping_after(a.drop_first(), open, close, false),
            ));
        }
    }
}

/// Nothing that the scan keeps opens an escape sequence.
pub proof fn lemma_strip_has_no_open<T>(s: Seq<T>, open: T, close: T, escaping: bool)
    ensures
        forall|i: int|
            0 <= i < strip_from(s, open, close, escaping).len() ==> #[trigger] strip_from(
                s,
                open,
                close,
                escaping,
            )[i] != open,
    decreases s.len(),
{
    if s.len() > 0 {
        let next = if escaping {
            s[0] != close
        } else {
            s[0] == open
        };
        lemma_strip_has_no_open(s.drop_first(), open, close, next);
        let rest = strip_from(s.drop_first(), open, close, next);
        if !escaping && s[0] != open {
            let kept = seq![s[0]] + rest;
            assert(strip_from(s, open, close, escaping) == kept);
            assert forall|i: int| 0 <= i < kept.len() implies #[trigger] kept[i] != open by {
                if i > 0 {
                    assert(kept[i] == rest[i - 1]);
                }
            }
        } else {
            assert(strip_from(s, open, close, escaping) == rest);
        }
    }
}

/// A sequence in which nothing opens an escape sequence comes through the
/// scan unchanged.
pub proof fn lemma_strip_without_open<T>(s: Seq<T>, open: T, close: T)
    requires
        forall|i: int| 0 <= i < s.len() ==> #[trigger] s[i] != open,
    ensures
        strip_from(s, open, close, false) == s,
        !escaping_after(s, open, close, false),
    decreases s.len(),
{
    if s.len() > 0 {
        lemma_strip_without_open(s.drop_first(), open, close);
        assert(seq![s[0]] + s.drop_first() =~= s);
    }
}

/// Stripping is idempotent: what is left after one pass has no escape
/// sequence left for a second pass to take out.
pub proof fn lemma_strip_idempotent<T>(s: Seq<T>, open: T, close: T)
    ensures
        strip_from(strip_from(s, open, close, false), open, close, false) == strip_from(
            s,
            open,
            close,
            false,
        ),
{
    lemma_strip_has_no_open(s, open, close, false);
    lemma_strip_without_open(strip_from(s, open, close, false), open, close);
}

/// Stripping an already stripped byte sequence leaves it unchanged.
pub proof fn lemma_stripped_bytes_idempotent(s: Seq<u8>)
    ensures
        stripped_bytes(stripped_bytes(s)) == stripped_bytes(s),
{
    lemma_strip_idempotent(s, ESCAPE_BYTE, ESCAPE_END_BYTE);
}

/// Stripping an already stripped text leaves it unchanged.
pub proof fn lemma_stripped_chars_idempotent(s: Seq<char>)
    ensures
        stripped_chars(stripped_chars(s)) == stripped_chars(s),
{
    lemma_strip_idempotent(s, '\x1b', 'm');
}

/// Removes every escape sequence `ESC ... m` from `buffer`: from an ESC byte
/// up to and including the next `m` byte, bytes are dropped; all others are
/// copied in order.
pub fn clear_escape_codes(buffer: &[u8]) -> (r: Vec<u8>)
    ensures
        r@ == stripped_bytes(buffer@),
{
    let mut new_buffer: Vec<u8> = Vec::new();
    let mut in_escape_sequence: bool = false;
    let mut i: usize = 0;
    assert(buffer@.skip(0) =~= buffer@);
    while i < buffer.len()
        invariant
            i <= buffer@.len(),
            new_buffer@ + strip_from(
                buffer@.skip(i as int),
                ESCAPE_BYTE,
                ESCAPE_END_BYTE,
                in_escape_sequence,
            ) == stripped_bytes(buffer@),
        decreases buffer@.len() - i,
    {
        let byte: u8 = buffer[i];
        let ghost rest = buffer@.skip(i as int);
        assert(rest.drop_first() =~= buffer@.skip(i + 1));
        assert(rest[0] == byte);
        if in_escape_sequence {
            if byte == ESCAPE_END_BYTE {
                in_escape_sequence = false;
            }
        } else if byte == ESCAPE_BYTE {
            in_escape_sequence = true;
        } else {
            proof {
                assert(new_buffer@.push(byte) + strip_from(
                    buffer@.skip(i + 1),
                    ESCAPE_BYTE,
                    ESCAPE_END_BYTE,
                    false,
                ) =~= new_buffer@ + (seq![byte] + strip_from(
                    buffer@.skip(i + 1),
                    ESCAPE_BYTE,
                    ESCAPE_END_BYTE,
                    false,
                )));
            }
            new_buffer.push(byte);
        }
        i += 1;
    }
    assert(buffer@.skip(i as int) =~= Seq::<u8>::empty());
    assert(new_buffer@ + Seq::<u8>::empty() =~= new_buffer@);
    new_buffer
}

/// The low bits of a one-byte scalar are the scalar itself; every byte of a
/// longer encoding has its high bit set.
proof fn lemma_encoding_bytes(s: u32, x: u8)
    by (bit_vector)
    ensures
        s <= 0x7f ==> (s & 0x7f) as u8 == s as u8,
        s <= 0x7f ==> (s as u8) as u32 == s,
        0x80 | x >= 0x80,
        0xc0 | x >= 0x80,
        0xe0 | x >= 0x80,
        0xf0 | x >= 0x80,
{
}

/// The encoding of a character other than ESC and `m` holds neither the ESC
/// byte nor the `m` byte; those two characters encode as exactly that byte.
proof fn lemma_encode_scalar_markers(c: char)
    ensures
        c == '\x1b' ==> encode_scalar(c as u32) == seq![ESCAPE_BYTE],
        c == 'm' ==> encode_scalar(c as u32) == seq![ESCAPE_END_BYTE],
        c != '\x1b' && c != 'm' ==> forall|i: int|
            0 <= i < encode_scalar(c as u32).len() ==> #[trigger] encode_scalar(c as u32)[i]
                != ESCAPE_BYTE && encode_scalar(c as u32)[i] != ESCAPE_END_BYTE,
{
    let s = c as u32;
    lemma_encoding_bytes(s, ((s >> 6) & 0x1f) as u8);
    lemma_encoding_bytes(s, ((s >> 12) & 0x0f) as u8);
    lemma_encoding_bytes(s, ((s >> 18) & 0x7) as u8);
    lemma_encoding_bytes(s, (s & 0x3f) as u8);
    lemma_encoding_bytes(s, ((s >> 6) & 0x3f) as u8);
    lemma_encoding_bytes(s, ((s >> 12) & 0x3f) as u8);
}

/// A sequence with neither marker in it is dropped whole inside an escape
/// sequence, kept whole outside one, and leaves the state as it was.
pub proof fn lemma_strip_plain<T>(s: Seq<T>, open: T, close: T, escaping: bool)
    requires
        forall|i: int| 0 <= i < s.len() ==> #[trigger] s[i] != open && s[i] != close,
    ensures
        strip_from(s, open, close, escaping) == (if escaping {
            Seq::<T>::empty()
        } else {
            s
        }),
        escaping_after(s, open, close, escaping) == escaping,
    decreases s.len(),
{
    if s.len() > 0 {
        lemma_strip_plain(s.drop_first(), open, close, escaping);
        assert(seq![s[0]] + s.drop_first() =~= s);
    }
}

/// Stripping the UTF-8 encoding of a text gives the encoding of the stripped
/// text.
pub proof fn lemma_strip_encode_utf8(cs: Seq<char>, escaping: bool)
    ensures
        strip_from(encode_utf8(cs), ESCAPE_BYTE, ESCAPE_END_BYTE, escaping) == encode_utf8(
            strip_from(cs, '\x1b', 'm', escaping),
        ),
    decreases cs.len(),
{
    if cs.len() > 0 {
        let c = cs[0];
        let rest = cs.drop_first();
        char_is_scalar(c);
        let head = encode_scalar(c as u32);
        let tail = encode_utf8(rest);
        lemma_encode_scalar_markers(c);
        assert(encode_utf8(cs) == head + tail);
        lemma_strip_concat(head, tail, ESCAPE_BYTE, ESCAPE_END_BYTE, escaping);
        let next = escaping_after(head, ESCAPE_BYTE, ESCAPE_END_BYTE, escaping);
        let head_left = strip_from(head, ESCAPE_BYTE, ESCAPE_END_BYTE, escaping);
        lemma_strip_encode_utf8(rest, next);
        if c == '\x1b' || c == 'm' {
            let empty = head.drop_first();
            assert(empty =~= Seq::<u8>::empty());
            assert(strip_from(empty, ESCAPE_BYTE, ESCAPE_END_BYTE, true) =~= Seq::<u8>::empty());
            assert(strip_from(empty, ESCAPE_BYTE, ESCAPE_END_BYTE, false) =~= Seq::<u8>::empty());
            assert(escaping_after(empty, ESCAPE_BYTE, ESCAPE_END_BYTE, true));
            assert(!escaping_after(empty, ESCAPE_BYTE, ESCAPE_END_BYTE, false));
        } else {
            lemma_strip_plain(head, ESCAPE_BYTE, ESCAPE_END_BYTE, escaping);
        }
        if escaping {
            assert(next == (c != 'm'));
            assert(head_left =~= Seq::<u8>::empty());
            assert(strip_from(cs, '\x1b', 'm', escaping) == strip_from(rest, '\x1b', 'm', next));
            assert(head_left + encode_utf8(strip_from(rest, '\x1b', 'm', next)) =~= encode_utf8(
                strip_from(rest, '\x1b', 'm', next),
            ));
        } else if c == '\x1b' {
            assert(next);
            assert(head_left =~= Seq::<u8>::empty());
            assert(strip_from(cs, '\x1b', 'm', escaping) == strip_from(rest, '\x1b', 'm', true));
            assert(head_left + encode_utf8(strip_from(rest, '\x1b', 'm', next)) =~= encode_utf8(
                strip_from(rest, '\x1b', 'm', next),
            ));
        } else {
            assert(!next);
            assert(head_left =~= head);
            let stripped_rest = strip_from(rest, '\x1b', 'm', false);
            assert(strip_from(cs, '\x1b', 'm', escaping) == seq![c] + stripped_rest);
            assert((seq![c] + stripped_rest).drop_first() =~= stripped_rest);
            assert(encode_utf8(seq![c] + stripped_rest) == head + encode_utf8(stripped_rest));
        }
    }
}

/// Relies on `String::from_utf8`: it accepts exactly the byte sequences that
/// are valid UTF-8, and then holds the characters that they encode.
#[verifier::external_body]
fn string_from_utf8(bytes: Vec<u8>) -> (r: Option<String>)
    ensures
        r is Some <==> valid_utf8(bytes@),
        r is Some ==> r->0@ == decode_utf8(bytes@),
{
    String::from_utf8(bytes).ok()
}

/// Removes every escape sequence `ESC ... m` from `text`.
pub fn clear_escape_codes_from_str(text: &str) -> (r: String)
    ensures
        r@ == stripped_chars(text@),
{
    let buffer: Vec<u8> = clear_escape_codes(text.as_bytes());
    proof {
        lemma_strip_encode_utf8(text@, false);
        encode_utf8_valid_utf8(stripped_chars(text@));
        encode_utf8_decode_utf8(stripped_chars(text@));
    }
    match string_from_utf8(buffer) {
        Some(s) => s,
        None => String::new(),
    }
}

} // verus!
