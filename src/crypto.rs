//! Key material, nonces and authenticated public-key encryption
//! (Curve25519, XSalsa20 and Poly1305, as provided by sodiumoxide).

use sodiumoxide::crypto::box_;
use vstd::prelude::*;

verus! {

/// Number of bytes in a public key.
pub const PUBLIC_KEY_BYTES: usize = 32;

/// Number of bytes in a secret key.
pub const SECRET_KEY_BYTES: usize = 32;

/// Number of bytes in a nonce.
pub const NONCE_BYTES: usize = 24;

/// Number of bytes by which a sealed box is longer than its plaintext.
pub const MAC_BYTES: usize = 16;

/// Public half of a key pair.
#[derive(Clone, Copy, Debug, PartialEq, Eq)]
pub struct PublicKey(pub [u8; PUBLIC_KEY_BYTES]);

/// Secret half of a key pair.
#[derive(Clone, Copy, Debug, PartialEq, Eq)]
pub struct SecretKey(pub [u8; SECRET_KEY_BYTES]);

/// Value that must be used at most once with a given pair of keys.
#[derive(Clone, Copy, Debug, PartialEq, Eq)]
pub struct Nonce(pub [u8; NONCE_BYTES]);

impl View for PublicKey {
    type V = Seq<u8>;

    open spec fn view(&self) -> Seq<u8> {
        self.0@
    }
}

impl View for SecretKey {
    type V = Seq<u8>;

    open spec fn view(&self) -> Seq<u8> {
        self.0@
    }
}

impl View for Nonce {
    type V = Seq<u8>;

    open spec fn view(&self) -> Seq<u8> {
        self.0@
    }
}

/// Copies a slice of exactly `N` bytes into an array.
pub(crate) fn to_array<const N: usize>(src: &[u8]) -> (r: [u8; N])
    requires
        src@.len() == N,
    ensures
        r@ == src@,
{
    let mut a: [u8; N] = [0u8; N];
    let mut i: usize = 0;
    while i < N
        invariant
            0 <= i <= N,
            src@.len() == N,
            a@.len() == N,
            forall|j: int| 0 <= j < i ==> a@[j] == src@[j],
        decreases N - i,
    {
        a[i] = src[i];
        i = i + 1;
    }
    assert(a@ =~= src@);
    a
}

/// Reads a nonce from a slice of exactly `NONCE_BYTES` bytes.
pub fn to_nonce(value: &[u8]) -> (r: Option<Nonce>)
    ensures
        r is Some <==> value@.len() == NONCE_BYTES,
        r matches Some(n) ==> n@ == value@,
{
    if value.len() == NONCE_BYTES {
        Some(Nonce(to_array(value)))
    } else {
        None
    }
}

/// Reads a public key from a slice of exactly `PUBLIC_KEY_BYTES` bytes.
pub fn to_pub(key: &[u8]) -> (r: Option<PublicKey>)
    ensures
        r is Some <==> key@.len() == PUBLIC_KEY_BYTES,
        r matches Some(k) ==> k@ == key@,
{
    if key.len() == PUBLIC_KEY_BYTES {
        Some(PublicKey(to_array(key)))
    } else {
        None
    }
}

/// Reads a secret key from a slice of exactly `SECRET_KEY_BYTES` bytes.
pub fn to_priv(key: &[u8]) -> (r: Option<SecretKey>)
    ensures
        r is Some <==> key@.len() == SECRET_KEY_BYTES,
        r matches Some(k) ==> k@ == key@,
{
    if key.len() == SECRET_KEY_BYTES {
        Some(SecretKey(to_array(key)))
    } else {
        None
    }
}

/// The public keys of small order that libsodium refuses to box with: their
/// shared secret is known to anyone. Byte 31 is compared with its top bit
/// cleared.
pub open spec fn small_order_points() -> Seq<Seq<u8>> {
    seq![
        // zero (order 4)
        seq![0x00, 0x00, 0x00, 0x00, 0x00, 0x00, 0x00, 0x00, 0x00, 0x00, 0x00, 0x00, 0x00, 0x00, 0x00, 0x00, 0x00, 0x00, 0x00, 0x00, 0x00, 0x00, 0x00, 0x00, 0x00, 0x00, 0x00, 0x00, 0x00, 0x00, 0x00, 0x00],
        // one (order 1)
        seq![0x01, 0x00, 0x00, 0x00, 0x00, 0x00, 0x00, 0x00, 0x00, 0x00, 0x00, 0x00, 0x00, 0x00, 0x00, 0x00, 0x00, 0x00, 0x00, 0x00, 0x00, 0x00, 0x00, 0x00, 0x00, 0x00, 0x00, 0x00, 0x00, 0x00, 0x00, 0x00],
        // a point of order 8
        seq![0xe0, 0xeb, 0x7a, 0x7c, 0x3b, 0x41, 0xb8, 0xae, 0x16, 0x56, 0xe3, 0xfa, 0xf1, 0x9f, 0xc4, 0x6a, 0xda, 0x09, 0x8d, 0xeb, 0x9c, 0x32, 0xb1, 0xfd, 0x86, 0x62, 0x05, 0x16, 0x5f, 0x49, 0xb8, 0x00],
        // the other point of order 8
        seq![0x5f, 0x9c, 0x95, 0xbc, 0xa3, 0x50, 0x8c, 0x24, 0xb1, 0xd0, 0xb1, 0x55, 0x9c, 0x83, 0xef, 0x5b, 0x04, 0x44, 0x5c, 0xc4, 0x58, 0x1c, 0x8e, 0x86, 0xd8, 0x22, 0x4e, 0xdd, 0xd0, 0x9f, 0x11, 0x57],
        // p - 1 (order 2)
        seq![0xec, 0xff, 0xff, 0xff, 0xff, 0xff, 0xff, 0xff, 0xff, 0xff, 0xff, 0xff, 0xff, 0xff, 0xff, 0xff, 0xff, 0xff, 0xff, 0xff, 0xff, 0xff, 0xff, 0xff, 0xff, 0xff, 0xff, 0xff, 0xff, 0xff, 0xff, 0x7f],
        // p, that is zero (order 4)
        seq![0xed, 0xff, 0xff, 0xff, 0xff, 0xff, 0xff, 0xff, 0xff, 0xff, 0xff, 0xff, 0xff, 0xff, 0xff, 0xff, 0xff, 0xff, 0xff, 0xff, 0xff, 0xff, 0xff, 0xff, 0xff, 0xff, 0xff, 0xff, 0xff, 0xff, 0xff, 0x7f],
        // p + 1, that is one (order 1)
        seq![0xee, 0xff, 0xff, 0xff, 0xff, 0xff, 0xff, 0xff, 0xff, 0xff, 0xff, 0xff, 0xff, 0xff, 0xff, 0xff, 0xff, 0xff, 0xff, 0xff, 0xff, 0xff, 0xff, 0xff, 0xff, 0xff, 0xff, 0xff, 0xff, 0xff, 0xff, 0x7f],
    ]
}

/// The key with the top bit of its last byte cleared, as X25519 reads it.
pub open spec fn with_top_bit_cleared(pk: Seq<u8>) -> Seq<u8> {
    pk.update(31, pk[31] & 0x7f)
}

/// Whether libsodium refuses `pk` as the other party's public key.
pub open spec fn small_order_key(pk: Seq<u8>) -> bool {
    pk.len() == PUBLIC_KEY_BYTES && small_order_points().contains(with_top_bit_cleared(pk))
}

/// Whether two 32-byte strings are equal.
fn same_key_bytes(a: &[u8; 32], b: &[u8; 32]) -> (r: bool)
    ensures
        r == (a@ == b@),
{
    let mut i: usize = 0;
    while i < 32
        invariant
            0 <= i <= 32,
            forall|j: int| 0 <= j < i ==> a@[j] == b@[j],
        decreases 32 - i,
    {
        if a[i] != b[i] {
            return false;
        }
        i = i + 1;
    }
    assert(a@ =~= b@);
    true
}

/// Whether `pk` is a public key of small order, with which no box can be
/// sealed.
pub fn is_small_order_key(pk: &PublicKey) -> (r: bool)
    ensures
        r == small_order_key(pk@),
{
    let mut b: [u8; 32] = pk.0;
    b[31] = b[31] & 0x7f;
    assert(b@ =~= with_top_bit_cleared(pk@));
    let found =
        same_key_bytes(&b, &[0x00, 0x00, 0x00, 0x00, 0x00, 0x00, 0x00, 0x00, 0x00, 0x00, 0x00, 0x00, 0x00, 0x00, 0x00, 0x00, 0x00, 0x00, 0x00, 0x00, 0x00, 0x00, 0x00, 0x00, 0x00, 0x00, 0x00, 0x00, 0x00, 0x00, 0x00, 0x00])
        || same_key_bytes(&b, &[0x01, 0x00, 0x00, 0x00, 0x00, 0x00, 0x00, 0x00, 0x00, 0x00, 0x00, 0x00, 0x00, 0x00, 0x00, 0x00, 0x00, 0x00, 0x00, 0x00, 0x00, 0x00, 0x00, 0x00, 0x00, 0x00, 0x00, 0x00, 0x00, 0x00, 0x00, 0x00])
        || same_key_bytes(&b, &[0xe0, 0xeb, 0x7a, 0x7c, 0x3b, 0x41, 0xb8, 0xae, 0x16, 0x56, 0xe3, 0xfa, 0xf1, 0x9f, 0xc4, 0x6a, 0xda, 0x09, 0x8d, 0xeb, 0x9c, 0x32, 0xb1, 0xfd, 0x86, 0x62, 0x05, 0x16, 0x5f, 0x49, 0xb8, 0x00])
        || same_key_bytes(&b, &[0x5f, 0x9c, 0x95, 0xbc, 0xa3, 0x50, 0x8c, 0x24, 0xb1, 0xd0, 0xb1, 0x55, 0x9c, 0x83, 0xef, 0x5b, 0x04, 0x44, 0x5c, 0xc4, 0x58, 0x1c, 0x8e, 0x86, 0xd8, 0x22, 0x4e, 0xdd, 0xd0, 0x9f, 0x11, 0x57])
        || same_key_bytes(&b, &[0xec, 0xff, 0xff, 0xff, 0xff, 0xff, 0xff, 0xff, 0xff, 0xff, 0xff, 0xff, 0xff, 0xff, 0xff, 0xff, 0xff, 0xff, 0xff, 0xff, 0xff, 0xff, 0xff, 0xff, 0xff, 0xff, 0xff, 0xff, 0xff, 0xff, 0xff, 0x7f])
        || same_key_bytes(&b, &[0xed, 0xff, 0xff, 0xff, 0xff, 0xff, 0xff, 0xff, 0xff, 0xff, 0xff, 0xff, 0xff, 0xff, 0xff, 0xff, 0xff, 0xff, 0xff, 0xff, 0xff, 0xff, 0xff, 0xff, 0xff, 0xff, 0xff, 0xff, 0xff, 0xff, 0xff, 0x7f])
        || same_key_bytes(&b, &[0xee, 0xff, 0xff, 0xff, 0xff, 0xff, 0xff, 0xff, 0xff, 0xff, 0xff, 0xff, 0xff, 0xff, 0xff, 0xff, 0xff, 0xff, 0xff, 0xff, 0xff, 0xff, 0xff, 0xff, 0xff, 0xff, 0xff, 0xff, 0xff, 0xff, 0xff, 0x7f]);
    proof {
        let pts = small_order_points();
        if found {
            assert(exists|i: int| 0 <= i < pts.len() && #[trigger] pts[i] == b@);
        } else {
            assert forall|i: int| 0 <= i < pts.len() implies #[trigger] pts[i] != b@ by {}
        }
    }
    found
}

/// A key file whose contents were not a key of the expected size.
#[derive(Clone, Copy, Debug, PartialEq, Eq)]
pub enum KeyError {
    WrongLength { expected: usize, found: usize },
}

/// Key material stored verbatim, with no framing, in a file of its own.
pub trait FileBacked: Sized {
    /// The bytes of the key.
    spec fn key_bytes(&self) -> Seq<u8>;

    /// The exact size of a file that holds such a key.
    spec fn file_len() -> nat;

    /// Reads a key from the whole contents of its file.
    fn from_file_contents(contents: &[u8]) -> (r: Result<Self, KeyError>)
        ensures
            r is Ok <==> contents@.len() == Self::file_len(),
            r matches Ok(k) ==> k.key_bytes() == contents@,
            r matches Err(KeyError::WrongLength { expected, found }) ==> expected
                == Self::file_len() && found == contents@.len(),
    ;
}

impl FileBacked for PublicKey {
    open spec fn key_bytes(&self) -> Seq<u8> {
        self@
    }

    open spec fn file_len() -> nat {
        PUBLIC_KEY_BYTES as nat
    }

    fn from_file_contents(contents: &[u8]) -> (r: Result<PublicKey, KeyError>) {
        match to_pub(contents) {
            Some(k) => Ok(k),
            None => Err(KeyError::WrongLength { expected: PUBLIC_KEY_BYTES, found: contents.len() }),
        }
    }
}

impl FileBacked for SecretKey {
    open spec fn key_bytes(&self) -> Seq<u8> {
        self@
    }

    open spec fn file_len() -> nat {
        SECRET_KEY_BYTES as nat
    }

    fn from_file_contents(contents: &[u8]) -> (r: Result<SecretKey, KeyError>) {
        match to_priv(contents) {
            Some(k) => Ok(k),
            None => Err(KeyError::WrongLength { expected: SECRET_KEY_BYTES, found: contents.len() }),
        }
    }
}

/// The box that `box_::seal` makes of a message under a nonce, the recipient's
/// public key and the sender's secret key.
pub uninterp spec fn box_sealed(m: Seq<u8>, n: Seq<u8>, pk: Seq<u8>, sk: Seq<u8>) -> Seq<u8>;

/// What `box_::open` makes of a box under a nonce, the sender's public key and
/// the recipient's secret key: the plaintext, or nothing where the box does not
/// authenticate.
pub uninterp spec fn box_opened(c: Seq<u8>, n: Seq<u8>, pk: Seq<u8>, sk: Seq<u8>) -> Option<
    Seq<u8>,
>;

/// The public key that `SecretKey::public_key` computes from a secret key.
pub uninterp spec fn key_public(sk: Seq<u8>) -> Seq<u8>;

/// Relies on sodiumoxide's `box_::SecretKey::public_key`: the result depends
/// on the secret key alone.
#[verifier::external_body]
fn public_key_of(sk: &SecretKey) -> (r: PublicKey)
    ensures
        r@ == key_public(sk@),
{
    PublicKey(box_::SecretKey(sk.0).public_key().0)
}

/// Relies on sodiumoxide's `box_::seal`: its result is `MACBYTES` (16) bytes
/// longer than the message and, for a public key that libsodium accepts,
/// depends on its four arguments alone. (For a key of small order libsodium
/// writes nothing and `seal` hands back an unset buffer: such keys are left
/// out.) As the `box_` module's example shows, the holder of a secret key
/// whose public key is `pk` opens the box with the sender's public key and
/// gets the message back.
#[verifier::external_body]
fn seal_box(m: &[u8], n: &Nonce, pk: &PublicKey, sk: &SecretKey) -> (r: Vec<u8>)
    requires
        m@.len() + MAC_BYTES <= usize::MAX,
        !small_order_key(pk@),
    ensures
        r@ == box_sealed(m@, n@, pk@, sk@),
        r@.len() == m@.len() + MAC_BYTES,
        forall|sk_b: Seq<u8>|
            sk_b.len() == SECRET_KEY_BYTES && key_public(sk_b) == pk@ ==> #[trigger] box_opened(
                r@,
                n@,
                key_public(sk@),
                sk_b,
            ) == Some(m@),
{
    box_::seal(m, &box_::Nonce(n.0), &box_::PublicKey(pk.0), &box_::SecretKey(sk.0))
}

/// Relies on sodiumoxide's `box_::open`: its result depends on its four
/// arguments alone; a box shorter than `MACBYTES` (16) is refused, and a
/// plaintext is `MACBYTES` shorter than its box.
#[verifier::external_body]
fn open_box(c: &[u8], n: &Nonce, pk: &PublicKey, sk: &SecretKey) -> (r: Option<Vec<u8>>)
    ensures
        r matches Some(p) ==> box_opened(c@, n@, pk@, sk@) == Some(p@),
        r is None ==> box_opened(c@, n@, pk@, sk@) is None,
        c@.len() < MAC_BYTES ==> r is None,
        r matches Some(p) ==> p@.len() + MAC_BYTES == c@.len(),
{
    box_::open(c, &box_::Nonce(n.0), &box_::PublicKey(pk.0), &box_::SecretKey(sk.0)).ok()
}

/// Relies on sodiumoxide's `box_::gen_nonce` for a random nonce.
#[verifier::external_body]
fn fresh_nonce() -> (r: Nonce) {
    Nonce(box_::gen_nonce().0)
}

impl SecretKey {
    /// The public key that belongs to this secret key.
    pub fn public_key(&self) -> (r: PublicKey)
        ensures
            r@ == key_public(self@),
    {
        public_key_of(self)
    }
}

/// A box that did not open: wrong keys, wrong nonce or altered bytes, which
/// are deliberately not told apart.
#[derive(Clone, Copy, Debug, PartialEq, Eq)]
pub struct AuthFailure;

/// Seals `contents` for the holder of the secret key matching `pub_key`,
/// authenticated under `priv_key`, with a nonce drawn afresh for this call.
/// `pub_key` must not be of small order (see `is_small_order_key`). The
/// holder of the secret key that belongs to `pub_key` opens the box with the
/// public key of `priv_key` and gets `contents` back.
pub fn new_box(contents: &[u8], pub_key: &PublicKey, priv_key: &SecretKey) -> (r: (Nonce, Vec<u8>))
    requires
        contents@.len() + MAC_BYTES <= usize::MAX,
        !small_order_key(pub_key@),
    ensures
        r.1@ == box_sealed(contents@, r.0@, pub_key@, priv_key@),
        r.1@.len() == contents@.len() + MAC_BYTES,
        forall|sk_b: Seq<u8>|
            sk_b.len() == SECRET_KEY_BYTES && key_public(sk_b) == pub_key@ ==> #[trigger] box_opened(
                r.1@,
                r.0@,
                key_public(priv_key@),
                sk_b,
            ) == Some(contents@),
{
    let nonce = fresh_nonce();
    let sealed = seal_box(contents, &nonce, pub_key, priv_key);
    (nonce, sealed)
}

/// Opens a box sealed for the holder of `priv_key` by the holder of the secret
/// key matching `pub_key`.
pub fn un_box(boxed: &[u8], nonce: &Nonce, pub_key: &PublicKey, priv_key: &SecretKey) -> (r: Result<
    Vec<u8>,
    AuthFailure,
>)
    ensures
        r matches Ok(p) ==> box_opened(boxed@, nonce@, pub_key@, priv_key@) == Some(p@),
        r is Err <==> box_opened(boxed@, nonce@, pub_key@, priv_key@) is None,
        boxed@.len() < MAC_BYTES ==> r is Err,
{
    match open_box(boxed, nonce, pub_key, priv_key) {
        Some(plain) => Ok(plain),
        None => Err(AuthFailure),
    }
}

} // verus!
