//! Percent-encoding as OAuth1 requires it: every byte but the unreserved
//! characters of RFC 3986 is escaped.
use vstd::prelude::*;
use vstd::string::*;
use vstd::utf8::*;

verus! {

/// The bytes that stand for themselves: `A-Z a-z 0-9 - . _ ~`.
pub open spec fn is_unreserved(byte: u8) -> bool {
    ||| 0x41 <= byte <= 0x5A
    ||| 0x61 <= byte <= 0x7A
    ||| 0x30 <= byte <= 0x39
    ||| byte == 0x2D
    ||| byte == 0x2E
    ||| byte == 0x5F
    ||| byte == 0x7E
}

/// The characters that stand for themselves.
pub open spec fn is_unreserved_char(c: char) -> bool {
    (c as u32) < 0x80 && is_unreserved(c as u8)
}

/// The upper-case hexadecimal digit for `value < 16`.
pub open spec fn hex_digit(value: int) -> char {
    if value < 10 {
        ((0x30 + value) as u8) as char
    } else {
        ((0x37 + value) as u8) as char
    }
}

/// A byte as it stands in encoded text: itself where it is unreserved,
/// else `%` and its two hexadecimal digits.
pub open spec fn encoded_byte(byte: u8) -> Seq<char> {
    if is_unreserved(byte) {
        seq![byte as char]
    } else {
        seq!['%', hex_digit(byte as int / 16), hex_digit(byte as int % 16)]
    }
}

/// The encoded forms of `bytes`, one after the other.
pub open spec fn encoded_bytes(bytes: Seq<u8>) -> Seq<char>
    decreases bytes.len(),
{
    if bytes.len() == 0 {
        Seq::empty()
    } else {
        encoded_bytes(bytes.drop_last()) + encoded_byte(bytes.last())
    }
}

/// `text` percent-encoded: the encoded forms of the bytes of its UTF-8
/// encoding.
pub open spec fn percent_encoded(text: Seq<char>) -> Seq<char> {
    encoded_bytes(encode_utf8(text))
}

fn hex_char(value: u8) -> (c: char)
    requires
        value < 16,
    ensures
        c == hex_digit(value as int),
{
    if value < 10 {
        (0x30 + value) as char
    } else {
        (0x37 + value) as char
    }
}

fn unreserved(byte: u8) -> (yes: bool)
    ensures
        yes == is_unreserved(byte),
{
    (0x41 <= byte && byte <= 0x5A) || (0x61 <= byte && byte <= 0x7A) || (0x30 <= byte && byte
        <= 0x39) || byte == 0x2D || byte == 0x2E || byte == 0x5F || byte == 0x7E
}

/// Percent-encodes `text`. A space becomes `%20`, never `+`.
pub fn percent_encode(text: &str) -> (out: String)
    ensures
        out@ == percent_encoded(text@),
{
    let bytes = text.as_bytes();
    let mut out = String::new();
    let mut i: usize = 0;
    assert(bytes@.take(0) =~= Seq::<u8>::empty());
    while i < bytes.len()
        invariant
            i <= bytes.len(),
            bytes@ == encode_utf8(text@),
            out@ == encoded_bytes(bytes@.take(i as int)),
        decreases bytes.len() - i,
    {
        let byte: u8 = bytes[i];
        proof {
            assert(bytes@.take(i + 1).drop_last() =~= bytes@.take(i as int));
        }
        let ghost before = out@;
        if unreserved(byte) {
            out.push(byte as char);
            assert(out@ =~= before + encoded_byte(byte));
        } else {
            out.push('%');
            out.push(hex_char(byte / 16));
            out.push(hex_char(byte % 16));
            assert(out@ =~= before + encoded_byte(byte));
        }
        i += 1;
    }
    assert(bytes@.take(bytes@.len() as int) =~= bytes@);
    out
}

/// Encoding goes byte by byte: the encoded form of two byte strings in a
/// row is the two encoded forms in a row.
pub proof fn lemma_encoded_bytes_concat(a: Seq<u8>, b: Seq<u8>)
    ensures
        encoded_bytes(a + b) == encoded_bytes(a) + encoded_bytes(b),
    decreases b.len(),
{
    if b.len() == 0 {
        assert(a + b =~= a);
        assert(encoded_bytes(a) + encoded_bytes(b) =~= encoded_bytes(a));
    } else {
        lemma_encoded_bytes_concat(a, b.drop_last());
        assert((a + b).drop_last() =~= a + b.drop_last());
        assert(encoded_bytes(a + b) =~= encoded_bytes(a) + encoded_bytes(b));
    }
}

/// The same for texts: the encoded form of two texts in a row is the two
/// encoded forms in a row.
pub proof fn lemma_percent_encoded_concat(a: Seq<char>, b: Seq<char>)
    ensures
        percent_encoded(a + b) == percent_encoded(a) + percent_encoded(b),
{
    lemma_utf8_concat(a, b);
    lemma_encoded_bytes_concat(encode_utf8(a), encode_utf8(b));
}

/// The UTF-8 encoding of two texts in a row is the two encodings in a row.
pub proof fn lemma_utf8_concat(a: Seq<char>, b: Seq<char>)
    ensures
        encode_utf8(a + b) == encode_utf8(a) + encode_utf8(b),
    decreases a.len(),
{
    if a.len() == 0 {
        assert(a + b =~= b);
        assert(encode_utf8(a) + encode_utf8(b) =~= encode_utf8(b));
    } else {
        lemma_utf8_concat(a.drop_first(), b);
        assert((a + b).drop_first() =~= a.drop_first() + b);
        assert(encode_utf8(a + b) =~= encode_utf8(a) + encode_utf8(b));
    }
}

/// Whether `text` is made of unreserved characters only.
pub open spec fn all_unreserved(text: Seq<char>) -> bool {
    forall|i: int| 0 <= i < text.len() ==> is_unreserved_char(#[trigger] text[i])
}

/// The bytes of a character that is not unreserved are not unreserved
/// either, and there is at least one.
proof fn lemma_reserved_char_bytes(c: char)
    requires
        !is_unreserved_char(c),
    ensures
        1 <= encode_scalar(c as u32).len() <= 4,
        forall|i: int|
            0 <= i < encode_scalar(c as u32).len() ==> !is_unreserved(
                #[trigger] encode_scalar(c as u32)[i],
            ),
{
    let v = c as u32;
    if has_width_1_encoding(v) {
        assert((v & 0x7F) as u8 == v as u8) by (bit_vector)
            requires
                v <= 0x7F,
        ;
    } else {
        assert((0xC0u8 | ((v >> 6) & 0x1F) as u8) >= 0x80) by (bit_vector);
        assert((0xE0u8 | ((v >> 12) & 0x0F) as u8) >= 0x80) by (bit_vector);
        assert((0xF0u8 | ((v >> 18) & 0x7) as u8) >= 0x80) by (bit_vector);
        assert((0x80u8 | (v & 0x3F) as u8) >= 0x80) by (bit_vector);
        assert((0x80u8 | ((v >> 6) & 0x3F) as u8) >= 0x80) by (bit_vector);
        assert((0x80u8 | ((v >> 12) & 0x3F) as u8) >= 0x80) by (bit_vector);
    }
}

/// Bytes of which none is unreserved take three characters each, the
/// first of them `%`.
proof fn lemma_reserved_bytes(bytes: Seq<u8>)
    requires
        forall|i: int| 0 <= i < bytes.len() ==> !is_unreserved(#[trigger] bytes[i]),
    ensures
        encoded_bytes(bytes).len() == 3 * bytes.len(),
        bytes.len() > 0 ==> encoded_bytes(bytes)[0] == '%',
    decreases bytes.len(),
{
    if bytes.len() > 0 {
        lemma_reserved_bytes(bytes.drop_last());
    }
}

/// The UTF-8 encoding of a text of one character.
proof fn lemma_utf8_of_one(c: char)
    ensures
        encode_utf8(seq![c]) == encode_scalar(c as u32),
{
    let text = seq![c];
    assert(text.drop_first() =~= Seq::<char>::empty());
    assert(encode_utf8(text.drop_first()) =~= Seq::<u8>::empty());
    assert(encode_utf8(text) =~= encode_scalar(c as u32));
}

/// The encoded form of one byte.
proof fn lemma_encoded_one(byte: u8)
    ensures
        encoded_bytes(seq![byte]) == encoded_byte(byte),
{
    let bytes = seq![byte];
    assert(bytes.drop_last() =~= Seq::<u8>::empty());
    assert(encoded_bytes(bytes.drop_last()) =~= Seq::<char>::empty());
    assert(encoded_bytes(bytes) =~= encoded_byte(byte));
}

/// One character encoded: itself where it is unreserved; else three
/// characters for each of its bytes, the first of them `%`.
pub proof fn lemma_encoded_char(c: char)
    ensures
        is_unreserved_char(c) ==> percent_encoded(seq![c]) == seq![c],
        !is_unreserved_char(c) ==> percent_encoded(seq![c]).len() >= 3 && percent_encoded(
            seq![c],
        )[0] == '%',
{
    let text = seq![c];
    let v = c as u32;
    lemma_utf8_of_one(c);
    if is_unreserved_char(c) {
        assert((v & 0x7F) as u8 == v as u8) by (bit_vector)
            requires
                v < 0x80,
        ;
        lemma_encoded_one(c as u8);
        assert((c as u8) as char == c);
    } else {
        lemma_reserved_char_bytes(c);
        lemma_reserved_bytes(encode_scalar(v));
    }
}

/// A text and its last character apart.
proof fn lemma_last_apart(text: Seq<char>)
    requires
        text.len() > 0,
    ensures
        percent_encoded(text) == percent_encoded(text.drop_last()) + percent_encoded(
            seq![text.last()],
        ),
{
    assert(text =~= text.drop_last() + seq![text.last()]);
    lemma_percent_encoded_concat(text.drop_last(), seq![text.last()]);
}

/// Unreserved characters pass through unescaped: a text made of them
/// alone is its own encoded form.
pub proof fn lemma_unreserved_pass_through(text: Seq<char>)
    requires
        all_unreserved(text),
    ensures
        percent_encoded(text) == text,
    decreases text.len(),
{
    if text.len() == 0 {
        assert(percent_encoded(text) =~= text);
    } else {
        lemma_unreserved_pass_through(text.drop_last());
        lemma_last_apart(text);
        lemma_encoded_char(text.last());
        assert(percent_encoded(text) =~= text);
    }
}

/// A space is encoded as `%20`.
pub proof fn lemma_space_is_percent_20()
    ensures
        percent_encoded(seq![' ']) == seq!['%', '2', '0'],
{
    lemma_utf8_of_one(' ');
    assert((0x20u32 & 0x7F) as u8 == 0x20u8) by (bit_vector);
    lemma_encoded_one(0x20u8);
    assert(encoded_byte(0x20u8) =~= seq!['%', '2', '0']);
}

/// A percent sign is encoded as `%25`: text that is encoded already is
/// taken as it stands and escaped once more.
pub proof fn lemma_percent_is_percent_25()
    ensures
        percent_encoded(seq!['%']) == seq!['%', '2', '5'],
{
    lemma_utf8_of_one('%');
    assert((0x25u32 & 0x7F) as u8 == 0x25u8) by (bit_vector);
    lemma_encoded_one(0x25u8);
    assert(encoded_byte(0x25u8) =~= seq!['%', '2', '5']);
}

/// Encoded text is never shorter than the text, and as long only where
/// every character is unreserved. In that case alone the encoded form is
/// the text itself.
pub proof fn lemma_encoded_length(text: Seq<char>)
    ensures
        percent_encoded(text).len() >= text.len(),
        percent_encoded(text).len() == text.len() <==> all_unreserved(text),
        percent_encoded(text) == text <==> all_unreserved(text),
    decreases text.len(),
{
    if text.len() == 0 {
        assert(percent_encoded(text) =~= text);
    } else {
        let front = text.drop_last();
        lemma_encoded_length(front);
        lemma_last_apart(text);
        lemma_encoded_char(text.last());
        if all_unreserved(text) {
            assert forall|i: int| 0 <= i < front.len() implies is_unreserved_char(
                #[trigger] front[i],
            ) by {
                assert(front[i] == text[i]);
            }
            lemma_unreserved_pass_through(text);
        } else {
            if is_unreserved_char(text.last()) {
                assert(!all_unreserved(front)) by {
                    if all_unreserved(front) {
                        assert forall|i: int| 0 <= i < text.len() implies is_unreserved_char(
                            #[trigger] text[i],
                        ) by {
                            if i < front.len() {
                                assert(front[i] == text[i]);
                            }
                        }
                    }
                }
            }
        }
    }
}

/// Encoded text holds unreserved characters and `%` only, and holds a `%`
/// unless every character of the text is unreserved.
pub proof fn lemma_encoded_alphabet(text: Seq<char>)
    ensures
        forall|i: int|
            0 <= i < percent_encoded(text).len() ==> is_unreserved_char(
                #[trigger] percent_encoded(text)[i],
            ) || percent_encoded(text)[i] == '%',
        all_unreserved(percent_encoded(text)) <==> all_unreserved(text),
{
    lemma_encoded_bytes_alphabet(encode_utf8(text));
    lemma_encoded_length(text);
    let encoded = percent_encoded(text);
    if !all_unreserved(text) {
        lemma_holds_percent(text);
        let i = choose|i: int| 0 <= i < encoded.len() && encoded[i] == '%';
        assert(!is_unreserved_char(encoded[i]));
    }
}

proof fn lemma_encoded_bytes_alphabet(bytes: Seq<u8>)
    ensures
        forall|i: int|
            0 <= i < encoded_bytes(bytes).len() ==> is_unreserved_char(
                #[trigger] encoded_bytes(bytes)[i],
            ) || encoded_bytes(bytes)[i] == '%',
    decreases bytes.len(),
{
    if bytes.len() > 0 {
        lemma_encoded_bytes_alphabet(bytes.drop_last());
        let front = encoded_bytes(bytes.drop_last());
        let last = bytes.last();
        let hi = last as int / 16;
        let lo = last as int % 16;
        assert(is_unreserved_char(hex_digit(hi)));
        assert(is_unreserved_char(hex_digit(lo)));
        if is_unreserved(last) {
            assert(is_unreserved_char(last as char));
        }
        assert forall|i: int| 0 <= i < encoded_bytes(bytes).len() implies is_unreserved_char(
            #[trigger] encoded_bytes(bytes)[i],
        ) || encoded_bytes(bytes)[i] == '%' by {
            if i < front.len() {
                assert(encoded_bytes(bytes)[i] == front[i]);
            } else {
                assert(encoded_bytes(bytes)[i] == encoded_byte(last)[i - front.len()]);
            }
        }
    }
}

proof fn lemma_holds_percent(text: Seq<char>)
    requires
        !all_unreserved(text),
    ensures
        exists|i: int| 0 <= i < percent_encoded(text).len() && percent_encoded(text)[i] == '%',
    decreases text.len(),
{
    if text.len() > 0 {
        let front = text.drop_last();
        lemma_last_apart(text);
        lemma_encoded_char(text.last());
        if !is_unreserved_char(text.last()) {
            let at = percent_encoded(front).len() as int;
            assert(percent_encoded(text)[at] == '%');
        } else {
            assert(!all_unreserved(front)) by {
                if all_unreserved(front) {
                    assert forall|i: int| 0 <= i < text.len() implies is_unreserved_char(
                        #[trigger] text[i],
                    ) by {
                        if i < front.len() {
                            assert(front[i] == text[i]);
                        }
                    }
                }
            }
            lemma_holds_percent(front);
            let i = choose|i: int|
                0 <= i < percent_encoded(front).len() && percent_encoded(front)[i] == '%';
            assert(percent_encoded(text)[i] == '%');
        }
    }
}

/// Encoding twice is encoding once only for a text of unreserved
/// characters: an escape in the text is not recognised, its `%` is
/// escaped again.
pub proof fn lemma_encoding_twice(text: Seq<char>)
    ensures
        percent_encoded(percent_encoded(text)) == percent_encoded(text) <==> all_unreserved(text),
{
    lemma_encoded_length(percent_encoded(text));
    lemma_encoded_alphabet(text);
}

} // verus!
