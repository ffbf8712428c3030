use vstd::prelude::*;

use libcrux::aead::{Chacha20Key, Iv, Key, Tag};
use zeroize::Zeroize;

use crate::secure_buffer::{copy_into, zeroize_bytes};

verus! {

/// The key length is 32 bytes.
pub const KEY_LEN: usize = 32;

/// The authentication tag length is 16 bytes.
pub const TAG_LEN: usize = 16;

/// The nonce length is 12 bytes.
pub const NONCE_LEN: usize = 12;

/// The cipher takes message and associated data lengths that fit 32 bits.
pub const MAX_LEN: usize = 0xffff_ffff;

/// Error of an AEAD operation: a message too long for the cipher, or a ciphertext that
/// does not authenticate.
#[derive(Debug, Clone, Copy, PartialEq, Eq)]
pub struct AeadError;

/// ChaCha20-Poly1305 (RFC 8439) under `key` and `nonce` over `ad` and `plaintext`: the
/// encrypted text followed by the tag.
pub uninterp spec fn ietf_sealed(key: Seq<u8>, nonce: Seq<u8>, ad: Seq<u8>, plaintext: Seq<u8>) -> Seq<u8>;

/// ChaCha20-Poly1305 (RFC 8439) decryption under `key` and `nonce` over `ad` of the
/// encrypted text `ciphertext` with tag `tag`: the plaintext, or `None` when the tag
/// does not authenticate.
pub uninterp spec fn ietf_opened(
    key: Seq<u8>,
    nonce: Seq<u8>,
    ad: Seq<u8>,
    ciphertext: Seq<u8>,
    tag: Seq<u8>,
) -> Option<Seq<u8>>;

/// Relies on libcrux's `aead::encrypt` with a ChaCha20-Poly1305 key: it encrypts
/// `buffer` in place and returns the 16-byte tag, and never fails for this kind of key.
/// The copy of the key made for the call is zeroized afterwards.
#[verifier::external_body]
fn seal_in_place(key: &[u8], nonce: &[u8], ad: &[u8], buffer: &mut [u8]) -> (r: Option<Vec<u8>>)
    requires
        key@.len() == KEY_LEN,
        nonce@.len() == NONCE_LEN,
        ad@.len() <= MAX_LEN,
        old(buffer)@.len() <= MAX_LEN,
    ensures
        final(buffer)@.len() == old(buffer)@.len(),
        r is Some,
        r matches Some(tag) ==> final(buffer)@ + tag@ == ietf_sealed(key@, nonce@, ad@, old(buffer)@)
            && tag@.len() == TAG_LEN,
{
    let k = Key::Chacha20Poly1305(Chacha20Key(key.try_into().unwrap()));
    let r = libcrux::aead::encrypt(&k, buffer, Iv(nonce.try_into().unwrap()), ad);
    if let Key::Chacha20Poly1305(mut c) = k {
        c.0.zeroize();
    }
    r.ok().map(|t| t.as_ref().to_vec())
}

/// Relies on libcrux's `aead::decrypt` with a ChaCha20-Poly1305 key: when `tag`
/// authenticates `buffer` and `ad`, it decrypts `buffer` in place and succeeds;
/// otherwise it fails. The copy of the key made for the call is zeroized afterwards.
#[verifier::external_body]
fn open_in_place(key: &[u8], nonce: &[u8], ad: &[u8], buffer: &mut [u8], tag: &[u8]) -> (r: bool)
    requires
        key@.len() == KEY_LEN,
        nonce@.len() == NONCE_LEN,
        tag@.len() == TAG_LEN,
        ad@.len() <= MAX_LEN,
        old(buffer)@.len() <= MAX_LEN,
    ensures
        final(buffer)@.len() == old(buffer)@.len(),
        r <==> ietf_opened(key@, nonce@, ad@, old(buffer)@, tag@) is Some,
        r ==> ietf_opened(key@, nonce@, ad@, old(buffer)@, tag@) == Some(final(buffer)@),
{
    let k = Key::Chacha20Poly1305(Chacha20Key(key.try_into().unwrap()));
    let t = Tag::from_slice(tag).unwrap();
    let r = libcrux::aead::decrypt(&k, buffer, Iv(nonce.try_into().unwrap()), ad, &t);
    if let Key::Chacha20Poly1305(mut c) = k {
        c.0.zeroize();
    }
    r.is_ok()
}

/// Encrypts `plaintext` with ChaCha20-Poly1305 under `key` and `nonce`, authenticating
/// `ad` too, into `ciphertext`: the encrypted text, then the tag in the last `TAG_LEN`
/// bytes. It always succeeds.
pub fn encrypt(
    ciphertext: &mut [u8],
    key: &[u8],
    nonce: &[u8],
    ad: &[u8],
    plaintext: &[u8],
) -> (r: Result<(), AeadError>)
    requires
        key@.len() == KEY_LEN,
        nonce@.len() == NONCE_LEN,
        old(ciphertext)@.len() == plaintext@.len() + TAG_LEN,
        plaintext@.len() <= MAX_LEN,
        ad@.len() <= MAX_LEN,
    ensures
        r is Ok,
        final(ciphertext)@ == ietf_sealed(key@, nonce@, ad@, plaintext@),
        ietf_sealed(key@, nonce@, ad@, plaintext@).len() == plaintext@.len() + TAG_LEN,
{
    let mut buf: Vec<u8> = vstd::slice::slice_to_vec(plaintext);
    match seal_in_place(key, nonce, ad, buf.as_mut_slice()) {
        None => {
            zeroize_bytes(&mut buf);
            Err(AeadError)
        },
        Some(tag) => {
            let n = plaintext.len();
            copy_into(ciphertext, 0, buf.as_slice());
            copy_into(ciphertext, n, tag.as_slice());
            assert(ciphertext@ =~= buf@ + tag@);
            Ok(())
        },
    }
}

/// Decrypts `ciphertext`, the encrypted text followed by its tag, with ChaCha20-Poly1305
/// under `key` and `nonce`, checking that it and `ad` are authentic, into `plaintext`.
/// Fails, leaving `plaintext` as it was, when they are not.
pub fn decrypt(
    plaintext: &mut [u8],
    key: &[u8],
    nonce: &[u8],
    ad: &[u8],
    ciphertext: &[u8],
) -> (r: Result<(), AeadError>)
    requires
        key@.len() == KEY_LEN,
        nonce@.len() == NONCE_LEN,
        ciphertext@.len() == old(plaintext)@.len() + TAG_LEN,
        old(plaintext)@.len() <= MAX_LEN,
        ad@.len() <= MAX_LEN,
    ensures
        r is Ok <==> (ietf_opened(
            key@,
            nonce@,
            ad@,
            ciphertext@.subrange(0, ciphertext@.len() - TAG_LEN),
            ciphertext@.subrange(ciphertext@.len() - TAG_LEN, ciphertext@.len() as int),
        ) is Some),
        r is Ok ==> ietf_opened(
            key@,
            nonce@,
            ad@,
            ciphertext@.subrange(0, ciphertext@.len() - TAG_LEN),
            ciphertext@.subrange(ciphertext@.len() - TAG_LEN, ciphertext@.len() as int),
        ) == Some(final(plaintext)@),
        r is Err ==> final(plaintext)@ == old(plaintext)@,
{
    let n = ciphertext.len() - TAG_LEN;
    let body = vstd::slice::slice_subrange(ciphertext, 0, n);
    let tag = vstd::slice::slice_subrange(ciphertext, n, ciphertext.len());
    let mut buf: Vec<u8> = vstd::slice::slice_to_vec(body);
    if open_in_place(key, nonce, ad, buf.as_mut_slice(), tag) {
        copy_into(plaintext, 0, buf.as_slice());
        assert(plaintext@ =~= buf@);
        zeroize_bytes(&mut buf);
        Ok(())
    } else {
        Err(AeadError)
    }
}

} // verus!
