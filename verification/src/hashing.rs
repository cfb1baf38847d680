//! Content hashes: SHA-256 digests written as lower-case hex, and their comparison.
use vstd::prelude::*;

verus! {

/// The SHA-256 digest of a byte sequence (what `sha2::Sha256` computes).
pub uninterp spec fn sha256_digest(data: Seq<u8>) -> Seq<u8>;

/// The lower-case hex digit for a value below 16.
pub open spec fn hex_digit(n: int) -> char {
    if n < 10 {
        (('0' as int) + n) as char
    } else {
        (('a' as int) + n - 10) as char
    }
}

/// Every byte written as two lower-case hex digits, high nibble first.
pub open spec fn hex_lower(bytes: Seq<u8>) -> Seq<char>
    decreases bytes.len(),
{
    if bytes.len() == 0 {
        Seq::empty()
    } else {
        hex_lower(bytes.drop_last()) + seq![
            hex_digit(bytes.last() as int / 16),
            hex_digit(bytes.last() as int % 16),
        ]
    }
}

/// The hash text of some content: the lower-case hex of its SHA-256 digest.
pub open spec fn content_hash(data: Seq<u8>) -> Seq<char> {
    hex_lower(sha256_digest(data))
}

/// One byte against another, ASCII letters compared without regard to case.
pub open spec fn byte_lower(b: u8) -> u8 {
    if 65 <= b <= 90 {
        (b + 32) as u8
    } else {
        b
    }
}

/// Two byte strings are equal when ASCII letters are compared without regard to case.
pub open spec fn bytes_eq_ignore_ascii_case(a: Seq<u8>, b: Seq<u8>) -> bool {
    &&& a.len() == b.len()
    &&& forall|i: int| 0 <= i < a.len() ==> byte_lower(#[trigger] a[i]) == byte_lower(b[i])
}

/// A running SHA-256 computation (`sha2::Sha256`), fed the content piece by piece.
#[verifier::external_body]
pub struct ContentHasher {
    inner: sha2::Sha256,
}

/// All the bytes a running SHA-256 computation has been fed, in order.
pub uninterp spec fn hasher_input(h: ContentHasher) -> Seq<u8>;

/// A fresh SHA-256 computation, through `sha2::Digest::new`. Trusted: it has
/// been fed nothing.
#[verifier::external_body]
fn hasher_start() -> (r: ContentHasher)
    ensures
        hasher_input(r) == Seq::<u8>::empty(),
{
    ContentHasher { inner: <sha2::Sha256 as sha2::Digest>::new() }
}

/// Feeds `chunk` to a running SHA-256 computation, through
/// `sha2::Digest::update`. Trusted: what it has been fed grows by `chunk`, at
/// the end.
#[verifier::external_body]
fn hasher_feed(h: &mut ContentHasher, chunk: &[u8])
    ensures
        hasher_input(*final(h)) == hasher_input(*old(h)) + chunk@,
{
    sha2::Digest::update(&mut h.inner, chunk)
}

/// Ends a running SHA-256 computation, through `sha2::Digest::finalize`.
/// Trusted: the result is the 32-byte SHA-256 digest of all it was fed, the
/// digest one call on the whole input computes.
#[verifier::external_body]
fn hasher_digest(h: ContentHasher) -> (r: Vec<u8>)
    ensures
        r@ == sha256_digest(hasher_input(h)),
        r@.len() == 32,
{
    sha2::Digest::finalize(h.inner).to_vec()
}

impl ContentHasher {
    /// A hasher that has been fed nothing.
    pub fn new() -> (r: ContentHasher)
        ensures
            hasher_input(r) == Seq::<u8>::empty(),
    {
        hasher_start()
    }

    /// Feeds the next piece of the content.
    pub fn update(&mut self, chunk: &[u8])
        ensures
            hasher_input(*final(self)) == hasher_input(*old(self)) + chunk@,
    {
        hasher_feed(self, chunk);
    }

    /// The hash text of everything fed, in the order it was fed.
    pub fn finish(self) -> (r: String)
        ensures
            r@ == content_hash(hasher_input(self)),
            r@.len() == 64,
    {
        let digest = hasher_digest(self);
        proof {
            lemma_hex_lower_len(digest@);
        }
        hex_encode(digest.as_slice())
    }
}

/// Lower-case hex of `bytes`, through `hex::encode`. Trusted: each byte becomes
/// its high and then its low nibble, written with the digits `0-9a-f`.
#[verifier::external_body]
pub(crate) fn hex_encode(bytes: &[u8]) -> (r: String)
    ensures
        r@ == hex_lower(bytes@),
{
    hex::encode(bytes)
}

/// The hash text of an in-memory buffer: the content fed to a hasher at once.
pub fn sha256_bytes(data: &[u8]) -> (r: String)
    ensures
        r@ == content_hash(data@),
        r@.len() == 64,
{
    let mut h = ContentHasher::new();
    h.update(data);
    assert(hasher_input(h) =~= data@);
    h.finish()
}

/// What a fresh hasher holds after `pieces` are fed to it in order: their
/// concatenation.
pub open spec fn pieces_fed(pieces: Seq<Seq<u8>>) -> Seq<u8>
    decreases pieces.len(),
{
    if pieces.len() == 0 {
        Seq::empty()
    } else {
        pieces_fed(pieces.drop_last()) + pieces.last()
    }
}

/// Hashing content in pieces gives the hash of the whole, however the content
/// is split: when a fresh hasher (`new`) holds `inputs[i]` after the first `i`
/// pieces, each `update` appending the next piece, what it holds at the end is
/// all the pieces in order, so `finish` returns `content_hash` of the whole.
pub proof fn lemma_any_split_hashes_like_whole(pieces: Seq<Seq<u8>>, inputs: Seq<Seq<u8>>)
    requires
        inputs.len() == pieces.len() + 1,
        inputs[0] == Seq::<u8>::empty(),
        forall|i: int| 0 <= i < pieces.len() ==> #[trigger] inputs[i + 1] == inputs[i] + pieces[i],
    ensures
        inputs.last() == pieces_fed(pieces),
        content_hash(inputs.last()) == content_hash(pieces.flatten()),
    decreases pieces.len(),
{
    lemma_pieces_fed_is_flatten(pieces);
    if pieces.len() > 0 {
        let ps = pieces.drop_last();
        let is = inputs.drop_last();
        assert forall|i: int| 0 <= i < ps.len() implies #[trigger] is[i + 1] == is[i] + ps[i] by {
            assert(is[i + 1] == inputs[i + 1]);
            assert(inputs[i + 1] == inputs[i] + pieces[i]);
        }
        lemma_any_split_hashes_like_whole(ps, is);
        assert(inputs[pieces.len() as int] == inputs[pieces.len() - 1] + pieces[pieces.len() - 1]);
    }
}

/// Feeding pieces in order feeds their flattening.
proof fn lemma_pieces_fed_is_flatten(pieces: Seq<Seq<u8>>)
    ensures
        pieces_fed(pieces) == pieces.flatten(),
    decreases pieces.len(),
{
    if pieces.len() > 0 {
        lemma_pieces_fed_is_flatten(pieces.drop_last());
        pieces.drop_last().lemma_flatten_push(pieces.last());
        assert(pieces.drop_last().push(pieces.last()) =~= pieces);
    } else {
        assert(pieces.flatten() =~= Seq::<u8>::empty());
    }
}

/// Hex text is two digits per byte.
pub proof fn lemma_hex_lower_len(bytes: Seq<u8>)
    ensures
        hex_lower(bytes).len() == 2 * bytes.len(),
    decreases bytes.len(),
{
    if bytes.len() > 0 {
        lemma_hex_lower_len(bytes.drop_last());
    }
}

/// Whether two bytes are equal with ASCII letters compared without regard to case.
fn byte_eq_ignore_ascii_case(a: u8, b: u8) -> (r: bool)
    ensures
        r == (byte_lower(a) == byte_lower(b)),
{
    let la = if 65 <= a && a <= 90 { a + 32 } else { a };
    let lb = if 65 <= b && b <= 90 { b + 32 } else { b };
    la == lb
}

/// Whether two hash texts name the same digest: their bytes are equal when
/// ASCII letters are compared without regard to case.
pub fn hashes_equal(a: &str, b: &str) -> (r: bool)
    ensures
        r == bytes_eq_ignore_ascii_case(vstd::utf8::encode_utf8(a@), vstd::utf8::encode_utf8(b@)),
{
    let x = a.as_bytes();
    let y = b.as_bytes();
    if x.len() != y.len() {
        return false;
    }
    let mut i: usize = 0;
    while i < x.len()
        invariant
            x@ == vstd::utf8::encode_utf8(a@),
            y@ == vstd::utf8::encode_utf8(b@),
            x@.len() == y@.len(),
            i <= x@.len(),
            forall|j: int| 0 <= j < i ==> byte_lower(#[trigger] x@[j]) == byte_lower(y@[j]),
        decreases x@.len() - i,
    {
        if !byte_eq_ignore_ascii_case(x[i], y[i]) {
            return false;
        }
        i = i + 1;
    }
    true
}

/// Hash comparison is an equivalence: every hash text matches itself, and a
/// match holds in both directions.
pub proof fn lemma_hashes_equal_equivalence(a: Seq<u8>, b: Seq<u8>, c: Seq<u8>)
    ensures
        bytes_eq_ignore_ascii_case(a, a),
        bytes_eq_ignore_ascii_case(a, b) ==> bytes_eq_ignore_ascii_case(b, a),
        bytes_eq_ignore_ascii_case(a, b) && bytes_eq_ignore_ascii_case(b, c)
            ==> bytes_eq_ignore_ascii_case(a, c),
{
    if bytes_eq_ignore_ascii_case(a, b) && bytes_eq_ignore_ascii_case(b, c) {
        assert forall|i: int| 0 <= i < a.len() implies byte_lower(#[trigger] a[i]) == byte_lower(
            c[i],
        ) by {
            assert(byte_lower(a[i]) == byte_lower(b[i]));
            assert(byte_lower(b[i]) == byte_lower(c[i]));
        }
    }
}

} // verus!
