//! Paths on a Unix file system: bytes, of which `/` separates the components.

use vstd::prelude::*;

verus! {

/// The byte that separates the components of a path.
pub const SEPARATOR: u8 = 47;

/// The bytes of a text: its characters in UTF-8.
pub open spec fn bytes_of(text: Seq<char>) -> Seq<u8> {
    vstd::utf8::encode_utf8(text)
}

/// A path.
#[derive(Debug, PartialEq, Eq)]
pub struct UnixPath {
    pub bytes: Vec<u8>,
}

impl View for UnixPath {
    type V = Seq<u8>;

    open spec fn view(&self) -> Seq<u8> {
        self.bytes@
    }
}

/// Whether a path starts at the root of the file system.
pub open spec fn absolute(path: Seq<u8>) -> bool {
    path.len() > 0 && path[0] == SEPARATOR
}

/// `rest` taken relative to `base`: an absolute `rest` replaces `base`, any other follows it
/// after one separator.
pub open spec fn joined(base: Seq<u8>, rest: Seq<u8>) -> Seq<u8> {
    if absolute(rest) {
        rest
    } else if base.len() > 0 && base.last() != SEPARATOR {
        base.push(SEPARATOR) + rest
    } else {
        base + rest
    }
}

/// A path that may not be there, taken by its view.
pub open spec fn path_view(path: Option<UnixPath>) -> Option<Seq<u8>> {
    match path {
        Some(path) => Some(path@),
        None => None,
    }
}

impl UnixPath {
    /// The path that `text` writes.
    pub fn from_text(text: &str) -> (r: UnixPath)
        ensures
            r@ == bytes_of(text@),
    {
        UnixPath { bytes: copied(text.as_bytes()) }
    }

    /// The same path again.
    pub fn copy(&self) -> (r: UnixPath)
        ensures
            r@ == self@,
    {
        UnixPath { bytes: copied(self.bytes.as_slice()) }
    }

    pub fn is_empty(&self) -> (r: bool)
        ensures
            r == (self@.len() == 0),
    {
        self.bytes.len() == 0
    }

    /// Whether the path starts at the root of the file system.
    pub fn is_absolute(&self) -> (r: bool)
        ensures
            r == absolute(self@),
    {
        self.bytes.len() > 0 && self.bytes[0] == SEPARATOR
    }

    /// `rest` taken relative to this path.
    pub fn join(&self, rest: &str) -> (r: UnixPath)
        ensures
            r@ == joined(self@, bytes_of(rest@)),
    {
        let rest = rest.as_bytes();
        if rest.len() > 0 && rest[0] == SEPARATOR {
            return UnixPath { bytes: copied(rest) };
        }
        let mut bytes = copied(self.bytes.as_slice());
        if bytes.len() > 0 && bytes[bytes.len() - 1] != SEPARATOR {
            bytes.push(SEPARATOR);
        }
        let mut rest = copied(rest);
        bytes.append(&mut rest);
        UnixPath { bytes }
    }
}

/// The bytes of a slice, in a vector.
fn copied(bytes: &[u8]) -> (r: Vec<u8>)
    ensures
        r@ == bytes@,
{
    let mut r: Vec<u8> = Vec::new();
    let mut i: usize = 0;
    while i < bytes.len()
        invariant
            i <= bytes@.len(),
            r@ == bytes@.take(i as int),
        decreases bytes@.len() - i,
    {
        r.push(bytes[i]);
        i += 1;
    }
    assert(bytes@.take(i as int) == bytes@);
    r
}

/// Joining onto an absolute path gives an absolute path.
pub proof fn joining_keeps_a_path_absolute(base: Seq<u8>, rest: Seq<u8>)
    requires
        absolute(base),
    ensures
        absolute(joined(base, rest)),
{
}

/// Every byte of a character outside ASCII has its high bit set.
proof fn high_bytes(scalar: u32)
    by (bit_vector)
    ensures
        0xC0u8 | ((scalar >> 6) & 0x1F) as u8 >= 0x80u8,
        0xE0u8 | ((scalar >> 12) & 0x0F) as u8 >= 0x80u8,
        0xF0u8 | ((scalar >> 18) & 0x7) as u8 >= 0x80u8,
        0x80u8 | (scalar & 0x3F) as u8 >= 0x80u8,
        0x80u8 | ((scalar >> 6) & 0x3F) as u8 >= 0x80u8,
        0x80u8 | ((scalar >> 12) & 0x3F) as u8 >= 0x80u8,
        scalar <= 0x7F ==> (scalar & 0x7F) as u8 == scalar,
{
}

/// A slash is the only character whose number is the separator's.
proof fn only_a_slash_is_a_separator(c: char)
    ensures
        c as u32 == SEPARATOR ==> c == '/',
{
}

/// No byte of a text without a slash is a separator: a name that holds no slash is one component
/// of a path, whatever else it holds.
pub proof fn a_text_without_a_slash_is_one_component(text: Seq<char>)
    requires
        !text.contains('/'),
    ensures
        !bytes_of(text).contains(SEPARATOR),
        text.len() > 0 ==> bytes_of(text).len() > 0,
    decreases text.len(),
{
    if text.len() > 0 {
        let rest = text.drop_first();
        assert(!rest.contains('/')) by {
            if rest.contains('/') {
                let i = choose|i: int| 0 <= i < rest.len() && rest[i] == '/';
                assert(text[i + 1] == '/');
            }
        }
        a_text_without_a_slash_is_one_component(rest);
        let scalar = text[0] as u32;
        let first = vstd::utf8::encode_scalar(scalar);
        assert(text[0] != '/');
        vstd::utf8::char_is_scalar(text[0]);
        only_a_slash_is_a_separator(text[0]);
        high_bytes(scalar);
        if vstd::utf8::has_width_1_encoding(scalar) {
            assert(first == seq![vstd::utf8::leading_byte_width_1(scalar)]);
        }
        assert forall|i: int| 0 <= i < first.len() implies #[trigger] first[i] != SEPARATOR by {}
        if bytes_of(text).contains(SEPARATOR) {
            let bytes = bytes_of(text);
            let i = choose|i: int| 0 <= i < bytes.len() && bytes[i] == SEPARATOR;
            assert(bytes == first + bytes_of(rest));
            if i >= first.len() {
                assert(bytes_of(rest)[i - first.len()] == SEPARATOR);
            }
        }
    }
}

/// A path joined onto another follows it after one slash, and after none where the first ends with
/// one or is nothing; one that starts with a slash stands alone.
pub proof fn joining_puts_one_slash_between(base: Seq<u8>, rest: Seq<u8>)
    ensures
        rest.len() > 0 && rest[0] == 47 ==> joined(base, rest) == rest,
        (rest.len() == 0 || rest[0] != 47) && base.len() > 0 && base[base.len() - 1] != 47
            ==> joined(base, rest) == base + seq![47u8] + rest,
        (rest.len() == 0 || rest[0] != 47) && (base.len() == 0 || base[base.len() - 1] == 47)
            ==> joined(base, rest) == base + rest,
        absolute(base) <==> base.len() > 0 && base[0] == 47,
{
    assert(base.push(47u8) + rest == base + seq![47u8] + rest);
}

/// The bytes of a text are valid UTF-8 and read as that text again.
pub proof fn the_bytes_of_a_text_read_as_it(text: Seq<char>)
    ensures
        vstd::utf8::valid_utf8(bytes_of(text)),
        vstd::utf8::decode_utf8(bytes_of(text)) == text,
{
    vstd::utf8::encode_utf8_valid_utf8(text);
    vstd::utf8::encode_utf8_decode_utf8(text);
}

/// A path that may not be there is there by its bytes, or not.
pub proof fn a_path_is_its_bytes(path: Option<UnixPath>)
    ensures
        path is None <==> path_view(path) is None,
        path matches Some(own) ==> path_view(path) == Some(own.bytes@),
{
}

} // verus!
