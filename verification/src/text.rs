use vstd::prelude::*;
use vstd::string::*;
use vstd::utf8::*;

verus! {

/// The text that a byte sequence stands for: its UTF-8 decoding, and the empty
/// text where the bytes are not valid UTF-8.
pub open spec fn lossy_text(bytes: Seq<u8>) -> Seq<char> {
    if valid_utf8(bytes) {
        decode_utf8(bytes)
    } else {
        Seq::empty()
    }
}

/// Whether `needle` occurs in `haystack` as a contiguous run of characters.
pub open spec fn occurs_in(needle: Seq<char>, haystack: Seq<char>) -> bool {
    exists|i: int|
        0 <= i && i + needle.len() <= haystack.len() && #[trigger] haystack.subrange(
            i,
            i + needle.len(),
        ) == needle
}

/// `String::from_utf8` of the standard library: the bytes become a string
/// exactly when they are valid UTF-8, and the string then holds their decoding.
#[verifier::external_body]
pub(crate) fn string_from_utf8(bytes: Vec<u8>) -> (r: Option<String>)
    ensures
        r is Some <==> valid_utf8(bytes@),
        r matches Some(s) ==> s@ == decode_utf8(bytes@),
{
    String::from_utf8(bytes).ok()
}

/// `str::contains` of the standard library with a string pattern: whether the
/// pattern matches a sub-slice of the text.
#[verifier::external_body]
pub(crate) fn str_contains(haystack: &str, needle: &str) -> (r: bool)
    ensures
        r == occurs_in(needle@, haystack@),
{
    haystack.contains(needle)
}

/// An owned copy of a string slice.
pub fn owned(s: &str) -> (r: String)
    ensures
        r@ == s@,
{
    s.to_owned()
}

/// Decodes a body as UTF-8; a body that is not valid UTF-8 reads as empty.
pub fn decode_or_empty(bytes: Vec<u8>) -> (r: String)
    ensures
        r@ == lossy_text(bytes@),
{
    match string_from_utf8(bytes) {
        Some(s) => s,
        None => String::new(),
    }
}

/// Two string slices hold the same characters.
pub fn same_text(a: &str, b: &str) -> (r: bool)
    ensures
        r == (a@ == b@),
{
    let x = a.as_bytes();
    let y = b.as_bytes();
    proof {
        encode_utf8_decode_utf8(a@);
        encode_utf8_decode_utf8(b@);
    }
    if x.len() != y.len() {
        return false;
    }
    let mut i: usize = 0;
    while i < x.len()
        invariant
            i <= x.len(),
            x.len() == y.len(),
            x@ == encode_utf8(a@),
            y@ == encode_utf8(b@),
            forall|k: int| 0 <= k < i ==> x@[k] == y@[k],
        decreases x.len() - i,
    {
        if x[i] != y[i] {
            return false;
        }
        i = i + 1;
    }
    assert(x@ =~= y@);
    true
}

/// The number of bytes that the UTF-8 encoding of a text takes.
pub open spec fn byte_len(s: Seq<char>) -> nat {
    encode_utf8(s).len()
}

/// The characters whose codes are the bytes of a sequence.
pub open spec fn bytes_as_chars(bytes: Seq<u8>) -> Seq<char> {
    bytes.map_values(|b: u8| b as char)
}

/// Whether every byte is the code of an ASCII character.
pub open spec fn is_ascii_bytes(bytes: Seq<u8>) -> bool {
    forall|i: int| 0 <= i < bytes.len() ==> #[trigger] bytes[i] < 128
}

/// Bytes of ASCII are valid UTF-8 and decode to the characters of their
/// codes, and no other text encodes to them.
pub proof fn lemma_ascii_bytes(bytes: Seq<u8>)
    requires
        is_ascii_bytes(bytes),
    ensures
        valid_utf8(bytes),
        decode_utf8(bytes) == bytes_as_chars(bytes),
        encode_utf8(bytes_as_chars(bytes)) == bytes,
        is_ascii_chars(bytes_as_chars(bytes)),
{
    let chars = bytes_as_chars(bytes);
    assert(is_ascii_chars(chars)) by {
        assert forall|i: int| 0 <= i < chars.len() implies '\0' <= #[trigger] chars[i]
            <= '\u{7f}' by {
            assert(bytes[i] < 128);
        }
    }
    is_ascii_chars_encode_utf8(chars);
    assert(encode_utf8(chars) =~= bytes) by {
        assert forall|i: int| 0 <= i < bytes.len() implies encode_utf8(chars)[i] == bytes[i] by {
            assert(bytes[i] < 128);
            assert(chars[i] == bytes[i] as char);
            assert(chars[i] as u8 == bytes[i]);
        }
    }
    encode_utf8_valid_utf8(chars);
    encode_utf8_decode_utf8(chars);
}

/// A text of ASCII characters encodes to the codes of its characters.
pub proof fn lemma_ascii_chars(chars: Seq<char>)
    requires
        is_ascii_chars(chars),
    ensures
        encode_utf8(chars).len() == chars.len(),
        is_ascii_bytes(encode_utf8(chars)),
        bytes_as_chars(encode_utf8(chars)) == chars,
{
    is_ascii_chars_encode_utf8(chars);
    let bytes = encode_utf8(chars);
    assert forall|i: int| 0 <= i < bytes.len() implies #[trigger] bytes[i] < 128 by {
        assert(chars[i] as u8 == bytes[i]);
    }
    assert(bytes_as_chars(bytes) =~= chars) by {
        assert forall|i: int| 0 <= i < chars.len() implies bytes_as_chars(bytes)[i]
            == chars[i] by {
            assert(chars[i] as u8 == bytes[i]);
        }
    }
}

/// A character with an upper-case ASCII letter turned to lower case.
pub open spec fn lowered(c: char) -> char {
    if 'A' <= c && c <= 'Z' {
        ((c as u8) + 32) as u8 as char
    } else {
        c
    }
}

/// Whether two names are the same but for the case of ASCII letters, as the
/// names of HTTP header fields are compared.
pub open spec fn same_name(a: Seq<char>, b: Seq<char>) -> bool {
    &&& a.len() == b.len()
    &&& forall|i: int| 0 <= i < a.len() ==> lowered(#[trigger] a[i]) == lowered(b[i])
}

/// A byte with the code of an upper-case ASCII letter turned to lower case.
pub fn lowered_byte(b: u8) -> (r: u8)
    ensures
        r == if 65 <= b && b <= 90 {
            (b + 32) as u8
        } else {
            b
        },
{
    if 65 <= b && b <= 90 {
        b + 32
    } else {
        b
    }
}

/// Tells whether a name is the given ASCII name but for the case of letters.
pub fn names_match(name: &str, wanted: &str) -> (r: bool)
    requires
        is_ascii_chars(wanted@),
    ensures
        r == same_name(name@, wanted@),
{
    let x = name.as_bytes();
    let y = wanted.as_bytes();
    proof {
        lemma_ascii_chars(wanted@);
        if same_name(name@, wanted@) {
            lemma_same_name_ascii(name@, wanted@);
            lemma_ascii_chars(name@);
        }
    }
    if x.len() != y.len() {
        return false;
    }
    let mut i: usize = 0;
    while i < x.len()
        invariant
            i <= x.len(),
            x.len() == y.len(),
            x@ == encode_utf8(name@),
            y@ == encode_utf8(wanted@),
            is_ascii_chars(wanted@),
            is_ascii_bytes(y@),
            y@.len() == wanted@.len(),
            bytes_as_chars(y@) == wanted@,
            same_name(name@, wanted@) ==> is_ascii_bytes(x@) && bytes_as_chars(x@) == name@,
            forall|k: int|
                0 <= k < i ==> #[trigger] x@[k] < 128 && lowered(x@[k] as char) == lowered(
                    y@[k] as char,
                ),
        decreases x.len() - i,
    {
        let a = lowered_byte(x[i]);
        let b = lowered_byte(y[i]);
        proof {
            assert(y@[i as int] < 128);
            assert(wanted@[i as int] == y@[i as int] as char);
            if same_name(name@, wanted@) {
                assert(x@[i as int] < 128);
                assert(name@[i as int] == x@[i as int] as char);
                assert(lowered(name@[i as int]) == lowered(wanted@[i as int]));
            }
        }
        if a != b {
            return false;
        }
        i = i + 1;
    }
    proof {
        assert(is_ascii_bytes(x@));
        lemma_ascii_bytes(x@);
        encode_utf8_decode_utf8(name@);
        assert(name@ == bytes_as_chars(x@));
        assert forall|k: int| 0 <= k < name@.len() implies lowered(#[trigger] name@[k])
            == lowered(wanted@[k]) by {
            assert(x@[k] < 128);
            assert(name@[k] == x@[k] as char);
            assert(wanted@[k] == y@[k] as char);
        }
    }
    true
}

/// A name that is an ASCII name but for the case of letters is ASCII.
pub proof fn lemma_same_name_ascii(name: Seq<char>, wanted: Seq<char>)
    requires
        is_ascii_chars(wanted),
        same_name(name, wanted),
    ensures
        is_ascii_chars(name),
{
    assert forall|i: int| 0 <= i < name.len() implies '\0' <= #[trigger] name[i] <= '\u{7f}' by {
        assert(lowered(name[i]) == lowered(wanted[i]));
        assert('\0' <= wanted[i] <= '\u{7f}');
    }
}

} // verus!
