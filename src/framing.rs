//! The on-wire frame: an eight-byte big-endian length of everything after
//! it, the requestor's identifier, one separator byte, the nonce and the box.

use crate::crypto::{to_array, Nonce, NONCE_BYTES};
use crate::messaging::text_from_utf8;
use byteorder::{ByteOrder, NetworkEndian};
use vstd::prelude::*;
use vstd::slice::*;
use vstd::utf8::*;

verus! {

broadcast use {encode_utf8_valid_utf8, encode_utf8_decode_utf8};

/// Number of bytes of the length header.
pub const LENGTH_BYTES: usize = 8;

/// Ends the requestor's identifier inside a frame (the ASCII unit separator).
pub const FRAME_SEPARATOR: u8 = 0x1f;

/// The character whose UTF-8 encoding is `FRAME_SEPARATOR`.
pub open spec fn frame_separator_char() -> char {
    '\u{1f}'
}

/// The number that `s` writes in base 256, most significant byte first.
pub open spec fn be_value(s: Seq<u8>) -> nat
    decreases s.len(),
{
    if s.len() == 0 {
        0
    } else {
        be_value(s.drop_last()) * 256 + s.last() as nat
    }
}

/// The last `k` digits of `n` in base 256, most significant first.
pub open spec fn be_bytes(n: nat, k: nat) -> Seq<u8>
    decreases k,
{
    if k == 0 {
        Seq::empty()
    } else {
        be_bytes(n / 256, (k - 1) as nat).push((n % 256) as u8)
    }
}

/// Relies on byteorder's `NetworkEndian::read_u64`: the first eight bytes of
/// `buf`, most significant first (it panics on fewer than eight).
#[verifier::external_body]
fn read_be_u64(buf: &[u8]) -> (r: u64)
    requires
        buf@.len() >= 8,
    ensures
        r as nat == be_value(buf@.subrange(0, 8)),
{
    NetworkEndian::read_u64(buf)
}

/// Relies on byteorder's `NetworkEndian::write_u64`: `n` as eight bytes, most
/// significant first.
#[verifier::external_body]
fn write_be_u64(n: u64) -> (r: [u8; 8])
    ensures
        r@ == be_bytes(n as nat, 8),
{
    let mut buf = [0u8; 8];
    NetworkEndian::write_u64(&mut buf, n);
    buf
}

/// Why a byte string is not a frame.
#[derive(Clone, Copy, Debug, PartialEq, Eq)]
pub enum FrameError {
    /// Fewer than eight bytes: no length header.
    BadLength,
    /// Fewer bytes after the header than it announces.
    Truncated,
    /// No separator byte after the requestor.
    MissingSeparator,
    /// Fewer bytes after the separator than a nonce takes.
    ShortNonce,
    /// A requestor that is not UTF-8 text.
    BadRequestor,
}

/// A frame taken apart.
#[derive(Clone, Debug, PartialEq, Eq)]
pub struct Payload {
    pub requestor: String,
    pub nonce: Nonce,
    pub the_box: Vec<u8>,
}

/// The mathematical value of a `Payload`.
pub struct PayloadModel {
    pub requestor: Seq<char>,
    pub nonce: Seq<u8>,
    pub the_box: Seq<u8>,
}

impl View for Payload {
    type V = PayloadModel;

    open spec fn view(&self) -> PayloadModel {
        PayloadModel { requestor: self.requestor@, nonce: self.nonce@, the_box: self.the_box@ }
    }
}

/// Everything after the length header.
pub open spec fn frame_body_of(requestor: Seq<char>, nonce: Seq<u8>, the_box: Seq<u8>) -> Seq<
    u8,
> {
    encode_utf8(requestor) + seq![FRAME_SEPARATOR] + nonce + the_box
}

/// The frame that carries a requestor, a nonce and a box.
pub open spec fn frame_of(requestor: Seq<char>, nonce: Seq<u8>, the_box: Seq<u8>) -> Seq<u8> {
    let body = frame_body_of(requestor, nonce, the_box);
    be_bytes(body.len(), LENGTH_BYTES as nat) + body
}

/// The position of the first `b` in `s`, if any.
pub open spec fn first_index_of(s: Seq<u8>, b: u8) -> Option<int>
    decreases s.len(),
{
    if s.len() == 0 {
        None
    } else if s[0] == b {
        Some(0)
    } else {
        match first_index_of(s.drop_first(), b) {
            Some(i) => Some(i + 1),
            None => None,
        }
    }
}

/// The length that the header of `raw` announces.
pub open spec fn announced_len(raw: Seq<u8>) -> nat {
    be_value(raw.subrange(0, LENGTH_BYTES as int))
}

/// What the body of a frame holds, or why it holds no payload.
pub open spec fn payload_of_body(body: Seq<u8>) -> Result<PayloadModel, FrameError> {
    match first_index_of(body, FRAME_SEPARATOR) {
        None => Err(FrameError::MissingSeparator),
        Some(i) => {
            let id = body.subrange(0, i);
            let rest = body.subrange(i + 1, body.len() as int);
            if rest.len() < NONCE_BYTES {
                Err(FrameError::ShortNonce)
            } else if !valid_utf8(id) {
                Err(FrameError::BadRequestor)
            } else {
                Ok(
                    PayloadModel {
                        requestor: decode_utf8(id),
                        nonce: rest.subrange(0, NONCE_BYTES as int),
                        the_box: rest.subrange(NONCE_BYTES as int, rest.len() as int),
                    },
                )
            }
        },
    }
}

/// What the frame at the start of `raw` holds, or why there is none; bytes
/// after the announced length are not part of it.
pub open spec fn decode_frame(raw: Seq<u8>) -> Result<PayloadModel, FrameError> {
    if raw.len() < LENGTH_BYTES {
        Err(FrameError::BadLength)
    } else if raw.len() - LENGTH_BYTES < announced_len(raw) {
        Err(FrameError::Truncated)
    } else {
        payload_of_body(
            raw.subrange(LENGTH_BYTES as int, LENGTH_BYTES + announced_len(raw)),
        )
    }
}

proof fn lemma_first_index_of(s: Seq<u8>, b: u8, k: int)
    requires
        0 <= k <= s.len(),
        forall|j: int| 0 <= j < k ==> s[j] != b,
        k < s.len() ==> s[k] == b,
    ensures
        first_index_of(s, b) == if k < s.len() {
            Some(k)
        } else {
            None::<int>
        },
    decreases k,
{
    if k > 0 {
        lemma_first_index_of(s.drop_first(), b, k - 1);
    }
}

/// `256` to the power `k`.
pub open spec fn pow256(k: nat) -> nat
    decreases k,
{
    if k == 0 {
        1
    } else {
        256 * pow256((k - 1) as nat)
    }
}

proof fn lemma_be_bytes(n: nat, k: nat)
    requires
        n < pow256(k),
    ensures
        be_bytes(n, k).len() == k,
        be_value(be_bytes(n, k)) == n,
    decreases k,
{
    if k > 0 {
        let q = n / 256;
        assert(q < pow256((k - 1) as nat)) by (nonlinear_arith)
            requires
                n < 256 * pow256((k - 1) as nat),
                q == n / 256,
        ;
        lemma_be_bytes(q, (k - 1) as nat);
        let s = be_bytes(n, k);
        assert(s.drop_last() =~= be_bytes(q, (k - 1) as nat));
        assert(q * 256 + n % 256 == n) by (nonlinear_arith)
            requires
                q == n / 256,
        ;
    }
}

/// No byte of the UTF-8 encoding of a character other than U+001F is the
/// frame separator.
proof fn lemma_scalar_not_separator(c: char)
    requires
        c != frame_separator_char(),
    ensures
        forall|j: int|
            0 <= j < encode_scalar(c as u32).len() ==> #[trigger] encode_scalar(c as u32)[j]
                != FRAME_SEPARATOR,
{
    let v = c as u32;
    char_is_scalar(c);
    assert(v != 0x1f);
    if has_width_1_encoding(v) {
        assert((v & 0x7f) as u8 != 0x1f) by (bit_vector)
            requires
                v <= 0x7f,
                v != 0x1f,
        ;
    } else {
        assert(forall|b: u8| (0xC0u8 | b) != 0x1fu8) by (bit_vector);
        assert(forall|b: u8| (0xE0u8 | b) != 0x1fu8) by (bit_vector);
        assert(forall|b: u8| (0xF0u8 | b) != 0x1fu8) by (bit_vector);
        assert(forall|b: u8| (0x80u8 | b) != 0x1fu8) by (bit_vector);
    }
}

/// Text free of U+001F encodes to bytes free of the frame separator.
proof fn lemma_utf8_no_separator(s: Seq<char>)
    requires
        forall|i: int| 0 <= i < s.len() ==> s[i] != frame_separator_char(),
    ensures
        forall|j: int| 0 <= j < encode_utf8(s).len() ==> encode_utf8(s)[j] != FRAME_SEPARATOR,
    decreases s.len(),
{
    if s.len() > 0 {
        lemma_scalar_not_separator(s[0]);
        lemma_utf8_no_separator(s.drop_first());
        let first = encode_scalar(s[0] as u32);
        let rest = encode_utf8(s.drop_first());
        assert(encode_utf8(s) == first + rest);
        assert forall|j: int| 0 <= j < encode_utf8(s).len() implies encode_utf8(s)[j]
            != FRAME_SEPARATOR by {
            if j < first.len() {
                assert(encode_utf8(s)[j] == first[j]);
            } else {
                assert(encode_utf8(s)[j] == rest[j - first.len()]);
            }
        }
    }
}

/// Decoding the frame built from a requestor, a nonce and a box gives them
/// back, provided that the requestor does not hold the separator character.
pub proof fn lemma_decode_encode(requestor: Seq<char>, nonce: Seq<u8>, the_box: Seq<u8>)
    requires
        forall|i: int| 0 <= i < requestor.len() ==> requestor[i] != frame_separator_char(),
        nonce.len() == NONCE_BYTES,
        frame_body_of(requestor, nonce, the_box).len() < pow256(LENGTH_BYTES as nat),
    ensures
        decode_frame(frame_of(requestor, nonce, the_box)) == Ok::<PayloadModel, FrameError>(
            PayloadModel { requestor, nonce, the_box },
        ),
{
    let body = frame_body_of(requestor, nonce, the_box);
    let raw = frame_of(requestor, nonce, the_box);
    let header = be_bytes(body.len(), LENGTH_BYTES as nat);
    lemma_be_bytes(body.len(), LENGTH_BYTES as nat);
    assert(raw.subrange(0, LENGTH_BYTES as int) =~= header);
    assert(raw.subrange(LENGTH_BYTES as int, LENGTH_BYTES + announced_len(raw)) =~= body);
    let id = encode_utf8(requestor);
    lemma_utf8_no_separator(requestor);
    lemma_first_index_of(body, FRAME_SEPARATOR, id.len() as int);
    assert(body.subrange(0, id.len() as int) =~= id);
    let rest = body.subrange(id.len() + 1 as int, body.len() as int);
    assert(rest =~= nonce + the_box);
    assert(rest.subrange(0, NONCE_BYTES as int) =~= nonce);
    assert(rest.subrange(NONCE_BYTES as int, rest.len() as int) =~= the_box);
}

/// Reads the length header at the start of `header`.
pub fn read_length(header: &[u8]) -> (r: Result<u64, FrameError>)
    ensures
        header@.len() < LENGTH_BYTES ==> r == Err::<u64, FrameError>(FrameError::BadLength),
        header@.len() >= LENGTH_BYTES ==> (r matches Ok(n) && n as nat == announced_len(header@)),
{
    if header.len() < LENGTH_BYTES {
        Err(FrameError::BadLength)
    } else {
        Ok(read_be_u64(header))
    }
}

impl Payload {
    /// Takes apart the frame at the start of `raw`.
    pub fn new(raw: &[u8]) -> (r: Result<Payload, FrameError>)
        ensures
            match decode_frame(raw@) {
                Ok(m) => r matches Ok(p) && p@ == m,
                Err(e) => r == Err::<Payload, FrameError>(e),
            },
    {
        let length = match read_length(raw) {
            Ok(n) => n,
            Err(e) => return Err(e),
        };
        let available = raw.len() - LENGTH_BYTES;
        if (available as u64) < length {
            return Err(FrameError::Truncated);
        }
        let end = LENGTH_BYTES + length as usize;
        let ghost body = raw@.subrange(LENGTH_BYTES as int, end as int);
        let mut i: usize = LENGTH_BYTES;
        while i < end && raw[i] != FRAME_SEPARATOR
            invariant
                LENGTH_BYTES <= i <= end <= raw@.len(),
                body == raw@.subrange(LENGTH_BYTES as int, end as int),
                forall|j: int| LENGTH_BYTES <= j < i ==> raw@[j] != FRAME_SEPARATOR,
            decreases end - i,
        {
            i = i + 1;
        }
        proof {
            lemma_first_index_of(body, FRAME_SEPARATOR, i - LENGTH_BYTES);
        }
        if i == end {
            return Err(FrameError::MissingSeparator);
        }
        if end - (i + 1) < NONCE_BYTES {
            return Err(FrameError::ShortNonce);
        }
        let id = slice_to_vec(slice_subrange(raw, LENGTH_BYTES, i));
        assert(id@ =~= body.subrange(0, i - LENGTH_BYTES));
        let requestor = match text_from_utf8(id) {
            Some(text) => text,
            None => return Err(FrameError::BadRequestor),
        };
        let nonce = Nonce(to_array(slice_subrange(raw, i + 1, i + 1 + NONCE_BYTES)));
        let the_box = slice_to_vec(slice_subrange(raw, i + 1 + NONCE_BYTES, end));
        proof {
            let rest = body.subrange(i + 1 - LENGTH_BYTES, body.len() as int);
            assert(nonce@ =~= rest.subrange(0, NONCE_BYTES as int));
            assert(the_box@ =~= rest.subrange(NONCE_BYTES as int, rest.len() as int));
        }
        Ok(Payload { requestor, nonce, the_box })
    }
}

/// Appends the bytes of `src` to `out`.
fn append_bytes(out: &mut Vec<u8>, src: &[u8])
    ensures
        final(out)@ == old(out)@ + src@,
{
    let mut i: usize = 0;
    while i < src.len()
        invariant
            0 <= i <= src@.len(),
            out@ == old(out)@ + src@.subrange(0, i as int),
        decreases src@.len() - i,
    {
        out.push(src[i]);
        i = i + 1;
        assert(out@ =~= old(out)@ + src@.subrange(0, i as int));
    }
    assert(src@.subrange(0, src@.len() as int) =~= src@);
}

/// Builds the frame that carries `requestor`, `nonce` and `the_box`.
pub fn encode(requestor: &str, nonce: &Nonce, the_box: &[u8]) -> (r: Vec<u8>)
    requires
        LENGTH_BYTES + frame_body_of(requestor@, nonce@, the_box@).len() <= usize::MAX,
    ensures
        r@ == frame_of(requestor@, nonce@, the_box@),
{
    let id = requestor.as_bytes();
    let body_len = id.len() + 1 + NONCE_BYTES + the_box.len();
    let header = write_be_u64(body_len as u64);
    let mut out: Vec<u8> = Vec::new();
    append_bytes(&mut out, header.as_slice());
    append_bytes(&mut out, id);
    out.push(FRAME_SEPARATOR);
    append_bytes(&mut out, nonce.0.as_slice());
    append_bytes(&mut out, the_box);
    assert(out@ =~= frame_of(requestor@, nonce@, the_box@));
    out
}

} // verus!
