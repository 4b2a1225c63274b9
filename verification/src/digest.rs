//! Content digests: 32 bytes of BLAKE3 extendable output, written as 64
//! lowercase hexadecimal characters.
use vstd::prelude::*;

verus! {

/// Number of bytes the output reader is asked for at a time.
pub const BLOCK_LEN: usize = 64;

/// Number of output bytes that make up a content digest.
pub const DIGEST_BYTES: u64 = 32;

/// Number of characters in the text of a content digest.
pub const DIGEST_CHARS: usize = 64;

/// Longest output that can be read block by block without stepping past the
/// end of the output stream.
pub const MAX_OUTPUT_LEN: u64 = 0xffff_ffff_ffff_ffc0;

/// `blake3::Hasher`, an incremental hash state.  Nothing inside it is
/// visible here; what it has taken in is spoken of through
/// `hasher_absorbed`.
#[verifier::external_type_specification]
#[verifier::external_body]
pub struct ExHasher(blake3::Hasher);

/// `blake3::OutputReader`, a cursor over the extendable output of a
/// finished hash.  Nothing inside it is visible here; its stream and its
/// position are spoken of through `reader_message` and `reader_position`.
#[verifier::external_type_specification]
#[verifier::external_body]
pub struct ExOutputReader(blake3::OutputReader);

/// Byte number `index` of the BLAKE3 extendable output for `message`, in the
/// plain (unkeyed) hashing mode.
pub uninterp spec fn blake3_xof_byte(message: Seq<u8>, index: nat) -> u8;

/// The input bytes a hasher has taken in so far, in order.
pub uninterp spec fn hasher_absorbed(hasher: blake3::Hasher) -> Seq<u8>;

/// The input offset a hasher was configured with; zero unless it hashes a
/// subtree of a larger input.
pub uninterp spec fn hasher_input_offset(hasher: blake3::Hasher) -> nat;

/// The message whose output stream a reader reads from.
pub uninterp spec fn reader_message(reader: blake3::OutputReader) -> Seq<u8>;

/// The position in the output stream at which a reader's next byte lies.
pub uninterp spec fn reader_position(reader: blake3::OutputReader) -> nat;

/// `blake3::Hasher::new`: a hasher in the plain mode that has taken in no
/// input and has no input offset.
#[verifier::external_body]
fn hasher_new() -> (hasher: blake3::Hasher)
    ensures
        hasher_absorbed(hasher) == Seq::<u8>::empty(),
        hasher_input_offset(hasher) == 0,
{
    blake3::Hasher::new()
}

/// `blake3::Hasher::update`: appends `input` to what the hasher has taken in.
/// With a nonzero input offset the call can panic on long input, so the
/// offset must be zero; it stays zero.
#[verifier::external_body]
fn hasher_update(hasher: &mut blake3::Hasher, input: &[u8])
    requires
        hasher_input_offset(*old(hasher)) == 0,
    ensures
        hasher_absorbed(*final(hasher)) == hasher_absorbed(*old(hasher)) + input@,
        hasher_input_offset(*final(hasher)) == 0,
{
    hasher.update(input);
}

/// `blake3::Hasher::finalize_xof`: a reader at the start of the output stream
/// of what the hasher has taken in.  The call panics on a hasher with a
/// nonzero input offset.
#[verifier::external_body]
fn hasher_finalize_xof(hasher: &blake3::Hasher) -> (reader: blake3::OutputReader)
    requires
        hasher_input_offset(*hasher) == 0,
    ensures
        reader_message(reader) == hasher_absorbed(*hasher),
        reader_position(reader) == 0,
{
    hasher.finalize_xof()
}

/// `blake3::OutputReader::fill`: overwrites the whole buffer with the next
/// bytes of the output stream and moves the reader forward by the buffer's
/// length.  Reading past byte 2^64 - 1 of the stream is left unspecified by
/// BLAKE3, so the read must end before it.
#[verifier::external_body]
fn reader_fill(reader: &mut blake3::OutputReader, block: &mut [u8; 64])
    requires
        reader_position(*old(reader)) + 64 <= u64::MAX,
    ensures
        reader_message(*final(reader)) == reader_message(*old(reader)),
        reader_position(*final(reader)) == reader_position(*old(reader)) + 64,
        forall|i: int|
            0 <= i < 64 ==> #[trigger] final(block)@[i] == blake3_xof_byte(
                reader_message(*old(reader)),
                (reader_position(*old(reader)) + i) as nat,
            ),
{
    reader.fill(block);
}

/// The sixteen lowercase hexadecimal digits, by value.
pub open spec fn hex_digits() -> Seq<char> {
    seq!['0', '1', '2', '3', '4', '5', '6', '7', '8', '9', 'a', 'b', 'c', 'd', 'e', 'f']
}

/// Character `i` of the hexadecimal text of `bytes`: the high digit of a byte
/// at even positions, its low digit at odd ones.
pub open spec fn hex_char_at(bytes: Seq<u8>, i: int) -> char {
    if i % 2 == 0 {
        hex_digits()[bytes[i / 2] as int / 16]
    } else {
        hex_digits()[bytes[i / 2] as int % 16]
    }
}

/// Lowercase hexadecimal text of `bytes`, two digits per byte.
pub open spec fn hex_text(bytes: Seq<u8>) -> Seq<char> {
    Seq::new(2 * bytes.len(), |i: int| hex_char_at(bytes, i))
}

/// `hex::encode`: the lowercase hexadecimal text of `bytes`, two digits per
/// byte, high digit first.
#[verifier::external_body]
fn hex_encode(bytes: &[u8]) -> (text: String)
    ensures
        text@ == hex_text(bytes@),
{
    hex::encode(bytes)
}

/// The first `len` bytes of the BLAKE3 extendable output for `message`.
pub open spec fn xof_prefix(message: Seq<u8>, len: nat) -> Seq<u8> {
    Seq::new(len, |i: int| blake3_xof_byte(message, i as nat))
}

/// Hexadecimal text is laid out byte by byte: the text of a concatenation is
/// the concatenation of the texts.
pub proof fn lemma_hex_text_concat(a: Seq<u8>, b: Seq<u8>)
    ensures
        hex_text(a + b) == hex_text(a) + hex_text(b),
{
    assert(hex_text(a + b) =~= hex_text(a) + hex_text(b));
}

/// The text of the first `k` bytes is the first `2 * k` characters of the
/// text.
pub proof fn lemma_hex_text_prefix(bytes: Seq<u8>, k: int)
    requires
        0 <= k <= bytes.len(),
    ensures
        hex_text(bytes.subrange(0, k)) == hex_text(bytes).subrange(0, 2 * k),
{
}

/// Hexadecimal text holds only the digits `0` to `9` and `a` to `f`.
pub proof fn lemma_hex_text_chars(bytes: Seq<u8>)
    ensures
        hex_text(bytes).len() == 2 * bytes.len(),
        forall|i: int| 0 <= i < hex_text(bytes).len() ==> is_hex_char(#[trigger] hex_text(bytes)[i]),
{
    assert forall|i: int| 0 <= i < hex_text(bytes).len() implies is_hex_char(
        #[trigger] hex_text(bytes)[i],
    ) by {
        let b = bytes[i / 2] as int;
        lemma_hex_digits(b / 16);
        lemma_hex_digits(b % 16);
    }
}

/// Each of the sixteen digits is a lowercase hexadecimal character.
proof fn lemma_hex_digits(n: int)
    requires
        0 <= n < 16,
    ensures
        is_hex_char(hex_digits()[n]),
{
}

/// Whether `c` is one of `0` to `9` or `a` to `f`.
pub open spec fn is_hex_char(c: char) -> bool {
    ('0' <= c && c <= '9') || ('a' <= c && c <= 'f')
}

/// Hexadecimal text of the first `len` bytes of the BLAKE3 extendable output
/// for `data`, read one block at a time.
pub fn xof_hex(data: &[u8], len: u64) -> (hex: String)
    requires
        len <= MAX_OUTPUT_LEN,
    ensures
        hex@ == hex_text(xof_prefix(data@, len as nat)),
{
    let mut hasher = hasher_new();
    hasher_update(&mut hasher, data);
    let mut output = hasher_finalize_xof(&hasher);
    assert(Seq::<u8>::empty() + data@ =~= data@);
    let mut block = [0u8; BLOCK_LEN];
    let mut remaining: u64 = len;
    let mut hex = String::new();
    while remaining > 0
        invariant
            remaining <= len <= MAX_OUTPUT_LEN,
            reader_message(output) == data@,
            remaining > 0 ==> reader_position(output) == len - remaining,
            hex@ == hex_text(xof_prefix(data@, (len - remaining) as nat)),
        decreases remaining,
    {
        let ghost done = (len - remaining) as nat;
        reader_fill(&mut output, &mut block);
        let hex_block = hex_encode(block.as_slice());
        let take: u64 = if remaining < 64 { remaining } else { 64 };
        proof {
            let fresh = block@.subrange(0, take as int);
            lemma_hex_text_chars(block@);
            lemma_hex_text_prefix(block@, take as int);
            lemma_hex_text_concat(xof_prefix(data@, done), fresh);
            assert(xof_prefix(data@, done) + fresh =~= xof_prefix(data@, done + take as nat));
        }
        let piece = hex_block.as_str().substring_ascii(0, 2 * (take as usize));
        hex.append(piece);
        remaining -= take;
    }
    hex
}

/// Whether `text` has the shape of a content digest: 64 characters, each a
/// lowercase hexadecimal digit.
pub open spec fn is_digest_text(text: Seq<char>) -> bool {
    &&& text.len() == 64
    &&& forall|i: int| 0 <= i < text.len() ==> is_hex_char(#[trigger] text[i])
}

/// The content digest of a file that holds `data`, as text.
pub open spec fn digest_text(data: Seq<u8>) -> Seq<char> {
    hex_text(xof_prefix(data, 32))
}

/// The digest of any content has the shape of a content digest.
pub proof fn lemma_digest_text_shape(data: Seq<u8>)
    ensures
        is_digest_text(digest_text(data)),
{
    lemma_hex_text_chars(xof_prefix(data, 32));
}

/// The digest of one file's content.
#[derive(Debug, PartialEq, Eq)]
pub struct ContentDigest {
    hex: String,
}

impl View for ContentDigest {
    type V = Seq<char>;

    closed spec fn view(&self) -> Seq<char> {
        self.hex@
    }
}

impl ContentDigest {
    #[verifier::type_invariant]
    spec fn well_formed(&self) -> bool {
        is_digest_text(self.hex@)
    }

    /// Accepts `text` as a digest if it has the shape of one.
    pub fn from_hex(text: &str) -> (parsed: Option<ContentDigest>)
        ensures
            parsed is Some <==> is_digest_text(text@),
            parsed matches Some(d) ==> d@ == text@,
    {
        if text.unicode_len() != DIGEST_CHARS {
            return None;
        }
        let mut i: usize = 0;
        while i < DIGEST_CHARS
            invariant
                i <= DIGEST_CHARS,
                text@.len() == DIGEST_CHARS,
                forall|j: int| 0 <= j < i ==> is_hex_char(#[trigger] text@[j]),
            decreases DIGEST_CHARS - i,
        {
            let c = text.get_char(i);
            if !is_hex(c) {
                return None;
            }
            i += 1;
        }
        Some(ContentDigest { hex: text.to_owned() })
    }

    /// The digest's text; it always has the shape of a content digest.
    pub fn as_str(&self) -> (text: &str)
        ensures
            text@ == self@,
            is_digest_text(text@),
    {
        proof {
            use_type_invariant(self);
        }
        self.hex.as_str()
    }
}

/// Whether `c` is a lowercase hexadecimal digit.
pub fn is_hex(c: char) -> (hex: bool)
    ensures
        hex == is_hex_char(c),
{
    ('0' <= c && c <= '9') || ('a' <= c && c <= 'f')
}

/// Hashes one file's content: 32 bytes of BLAKE3 output as 64 lowercase
/// hexadecimal characters.
pub fn content_digest(data: &[u8]) -> (digest: ContentDigest)
    ensures
        digest@ == digest_text(data@),
{
    let hex = xof_hex(data, DIGEST_BYTES);
    proof {
        lemma_digest_text_shape(data@);
    }
    ContentDigest { hex }
}

} // verus!
