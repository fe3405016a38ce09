//! Checking a downloaded model file against its published SHA-256 digest.

use crate::text::string_from_chars;
use sha2::Digest;
use vstd::prelude::*;

verus! {

/// Lowercase hexadecimal digit of `d < 16`.
pub open spec fn hex_digit(d: u8) -> char {
    if d < 10 {
        ('0' as u8 + d) as char
    } else {
        ('a' as u8 + (d - 10)) as char
    }
}

/// `bytes` written in lowercase hexadecimal, two digits per byte (as `{:x}` prints a
/// digest).
pub open spec fn hex_of(bytes: Seq<u8>) -> Seq<char>
    decreases bytes.len(),
{
    if bytes.len() == 0 {
        Seq::empty()
    } else {
        hex_of(bytes.drop_last()) + seq![hex_digit(bytes.last() / 16), hex_digit(bytes.last() % 16)]
    }
}

fn digit(d: u8) -> (c: char)
    requires
        d < 16,
    ensures
        c == hex_digit(d),
{
    if d < 10 {
        (48u8 + d) as char
    } else {
        (97u8 + (d - 10)) as char
    }
}

/// A digest in lowercase hexadecimal.
pub fn lower_hex(bytes: &[u8]) -> (r: String)
    ensures
        r@ == hex_of(bytes@),
{
    let mut out: Vec<char> = Vec::new();
    let mut i: usize = 0;
    while i < bytes.len()
        invariant
            i <= bytes.len(),
            out@ == hex_of(bytes@.take(i as int)),
        decreases bytes.len() - i,
    {
        proof {
            assert(bytes@.take(i + 1).drop_last() == bytes@.take(i as int));
        }
        let b = bytes[i];
        out.push(digit(b / 16));
        out.push(digit(b % 16));
        i = i + 1;
    }
    proof {
        assert(bytes@.take(bytes.len() as int) == bytes@);
    }
    string_from_chars(&out)
}

/// Whether a file whose SHA-256 digest is `digest` is the published file with digest
/// `expected` (lowercase hexadecimal).
pub fn checksum_matches(digest: &[u8], expected: &str) -> (r: bool)
    ensures
        r == (hex_of(digest@) == expected@),
{
    let actual = lower_hex(digest);
    let want = expected.to_owned();
    actual == want
}

// ---------------------------------------------------------------- the running digest

/// `sha2`'s SHA-256 hasher, held as it is: the library only feeds it bytes and reads the
/// digest at the end.
#[verifier::external_body]
pub struct Sha256Stream {
    inner: sha2::Sha256,
}

/// The bytes fed to `h` so far.
pub uninterp spec fn fed(h: Sha256Stream) -> Seq<u8>;

/// The SHA-256 digest of `bytes`, as `sha2` computes it.
pub uninterp spec fn sha256_of(bytes: Seq<u8>) -> Seq<u8>;

/// Trusted wrapper of `sha2::Sha256::new` (`Digest::new`): a hasher that has been fed
/// nothing.
#[verifier::external_body]
fn hasher_new() -> (h: Sha256Stream)
    ensures
        fed(h) == Seq::<u8>::empty(),
{
    Sha256Stream { inner: sha2::Sha256::new() }
}

/// Trusted wrapper of `Digest::update` on `sha2::Sha256`: the hasher goes on as if `chunk`
/// had been appended to what it was fed before.
#[verifier::external_body]
fn hasher_update(h: &mut Sha256Stream, chunk: &[u8])
    ensures
        fed(*final(h)) == fed(*old(h)) + chunk@,
{
    h.inner.update(chunk)
}

/// Trusted wrapper of `Digest::finalize` on `sha2::Sha256`: the digest of everything fed,
/// 32 bytes long.
#[verifier::external_body]
fn hasher_finalize(h: Sha256Stream) -> (r: Vec<u8>)
    ensures
        r@ == sha256_of(fed(h)),
        r@.len() == 32,
{
    h.inner.finalize().to_vec()
}

/// Checks a download against its published SHA-256 digest while its bytes arrive.
pub struct DownloadCheck {
    hasher: Sha256Stream,
    expected: String,
}

impl DownloadCheck {
    /// The bytes received so far.
    pub closed spec fn received(&self) -> Seq<u8> {
        fed(self.hasher)
    }

    /// The published digest, in lowercase hexadecimal.
    pub closed spec fn expected(&self) -> Seq<char> {
        self.expected@
    }

    /// A check of a file whose published digest is `expected`; nothing received yet.
    pub fn new(expected: &str) -> (c: DownloadCheck)
        ensures
            c.received() == Seq::<u8>::empty(),
            c.expected() == expected@,
    {
        DownloadCheck { hasher: hasher_new(), expected: expected.to_owned() }
    }

    /// The next bytes of the file arrived.
    pub fn feed(&mut self, chunk: &[u8])
        ensures
            final(self).received() == old(self).received() + chunk@,
            final(self).expected() == old(self).expected(),
    {
        hasher_update(&mut self.hasher, chunk);
    }

    /// The file is complete: `Ok` when its digest is the published one, else the digest it
    /// has (lowercase hexadecimal), for the error message.
    pub fn finish(self) -> (r: Result<(), String>)
        ensures
            match r {
                Ok(()) => hex_of(sha256_of(self.received())) == self.expected(),
                Err(actual) => actual@ == hex_of(sha256_of(self.received())) && actual@
                    != self.expected(),
            },
    {
        let DownloadCheck { hasher, expected } = self;
        let digest = hasher_finalize(hasher);
        if checksum_matches(&digest, expected.as_str()) {
            Ok(())
        } else {
            Err(lower_hex(&digest))
        }
    }
}

} // verus!
