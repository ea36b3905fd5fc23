//! SHA-256 checksums of local files, computed by the `sha2` crate and
//! written as lower-case hexadecimal.
use vstd::prelude::*;

use crate::text::string_of;

verus! {

/// A SHA-256 computation in progress.  `sha2::Sha256` is an alias of the
/// `digest` crate's generic wrappers, whose bounds Verus does not know, so
/// the hasher is held here, opaque, and only the wrappers below touch it.
#[verifier::external_body]
pub struct Sha256State {
    inner: sha2::Sha256,
}

/// The bytes fed to a hasher so far.
pub uninterp spec fn fed_bytes(state: Sha256State) -> Seq<u8>;

/// The SHA-256 digest of some bytes, as `sha2` computes it.
pub uninterp spec fn sha256_of(data: Seq<u8>) -> Seq<u8>;

/// A fresh hasher (`Digest::new`), fed nothing yet.
#[verifier::external_body]
fn sha256_new() -> (state: Sha256State)
    ensures
        fed_bytes(state) == Seq::<u8>::empty(),
{
    Sha256State { inner: <sha2::Sha256 as sha2::Digest>::new() }
}

/// Feeds bytes to the hasher (`Digest::update`).
#[verifier::external_body]
fn sha256_update(state: &mut Sha256State, data: &[u8])
    ensures
        fed_bytes(*final(state)) == fed_bytes(*old(state)) + data@,
{
    sha2::Digest::update(&mut state.inner, data)
}

/// The digest of everything fed (`Digest::finalize`): 32 bytes.
#[verifier::external_body]
fn sha256_finalize(state: Sha256State) -> (digest: Vec<u8>)
    ensures
        digest@ == sha256_of(fed_bytes(state)),
        digest@.len() == 32,
{
    sha2::Digest::finalize(state.inner).to_vec()
}

/// A lower-case hexadecimal digit.
pub open spec fn hex_digit(d: int) -> char {
    if d < 10 {
        (48 + d) as char
    } else {
        (87 + d) as char
    }
}

/// Bytes written as lower-case hexadecimal, two digits each.
pub open spec fn lower_hex(bytes: Seq<u8>) -> Seq<char>
    decreases bytes.len(),
{
    if bytes.len() == 0 {
        seq![]
    } else {
        lower_hex(bytes.drop_last()) + seq![hex_digit(bytes.last() as int / 16), hex_digit(bytes.last() as int % 16)]
    }
}

fn hex_char(d: u8) -> (c: char)
    requires
        d < 16,
    ensures
        c == hex_digit(d as int),
{
    if d < 10 {
        (48 + d) as char
    } else {
        (87 + d) as char
    }
}

/// Bytes as lower-case hexadecimal.
pub fn hex_text(bytes: &[u8]) -> (text: String)
    ensures
        text@ == lower_hex(bytes@),
{
    let mut v: Vec<char> = Vec::new();
    let mut i: usize = 0;
    while i < bytes.len()
        invariant
            i <= bytes@.len(),
            v@ == lower_hex(bytes@.subrange(0, i as int)),
        decreases bytes.len() - i,
    {
        let b = bytes[i];
        v.push(hex_char(b / 16));
        v.push(hex_char(b % 16));
        assert(bytes@.subrange(0, i + 1).drop_last() =~= bytes@.subrange(0, i as int));
        assert(v@ =~= lower_hex(bytes@.subrange(0, i + 1)));
        i = i + 1;
    }
    assert(bytes@.subrange(0, bytes@.len() as int) =~= bytes@);
    string_of(v.as_slice())
}

impl Sha256State {
    /// A checksum over nothing yet.
    pub fn new() -> (state: Self)
        ensures
            fed_bytes(state) == Seq::<u8>::empty(),
    {
        sha256_new()
    }

    /// Adds the next bytes of the file.
    pub fn update(&mut self, chunk: &[u8])
        ensures
            fed_bytes(*final(self)) == fed_bytes(*old(self)) + chunk@,
    {
        sha256_update(self, chunk)
    }

    /// The checksum of everything added, in lower-case hexadecimal.
    pub fn hex_digest(self) -> (hex: String)
        ensures
            hex@ == lower_hex(sha256_of(fed_bytes(self))),
            hex@.len() == 64,
    {
        let digest = sha256_finalize(self);
        let hex = hex_text(digest.as_slice());
        proof {
            lemma_lower_hex_len(digest@);
        }
        hex
    }
}

/// Hexadecimal takes two digits a byte.
pub proof fn lemma_lower_hex_len(bytes: Seq<u8>)
    ensures
        lower_hex(bytes).len() == 2 * bytes.len(),
    decreases bytes.len(),
{
    if bytes.len() > 0 {
        lemma_lower_hex_len(bytes.drop_last());
    }
}

/// The SHA-256 checksum of some bytes, in lower-case hexadecimal.
pub fn sha256_hex(data: &[u8]) -> (hex: String)
    ensures
        hex@ == lower_hex(sha256_of(data@)),
{
    let mut state = sha256_new();
    sha256_update(&mut state, data);
    assert(fed_bytes(state) =~= data@);
    state.hex_digest()
}

} // verus!
