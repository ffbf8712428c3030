use vstd::prelude::*;

use chacha20poly1305::aead::generic_array::GenericArray;
use chacha20poly1305::{AeadInPlace, KeyInit, XChaCha20Poly1305};

use crate::chacha20poly1305_ietf::AeadError;
use crate::secure_buffer::{copy_into, zeroize_bytes};

verus! {

/// The key length is 32 bytes.
pub const KEY_LEN: usize = 32;

/// The authentication tag length is 16 bytes.
pub const TAG_LEN: usize = 16;

/// The nonce length is 24 bytes.
pub const NONCE_LEN: usize = 24;

/// The cipher cannot take a message of this many 64-byte blocks or more.
pub const MAX_BLOCKS: usize = 0xffff_ffff;

/// XChaCha20-Poly1305 under `key` and `nonce` over `ad` and `plaintext`: the encrypted
/// text followed by the tag.
pub uninterp spec fn xchacha_sealed(key: Seq<u8>, nonce: Seq<u8>, ad: Seq<u8>, plaintext: Seq<u8>) -> Seq<u8>;

/// XChaCha20-Poly1305 decryption under `key` and `nonce` over `ad` of the encrypted text
/// `ciphertext` with tag `tag`: the plaintext, or `None` when the tag does not authenticate.
pub uninterp spec fn xchacha_opened(
    key: Seq<u8>,
    nonce: Seq<u8>,
    ad: Seq<u8>,
    ciphertext: Seq<u8>,
    tag: Seq<u8>,
) -> Option<Seq<u8>>;

/// Relies on chacha20poly1305's `XChaCha20Poly1305::encrypt_in_place_detached`: it
/// encrypts `buffer` in place and returns the 16-byte tag; it fails, leaving `buffer` as it
/// was, exactly when the buffer holds `MAX_BLOCKS` blocks of 64 bytes or more.
#[verifier::external_body]
fn seal_in_place(key: &[u8], nonce: &[u8], ad: &[u8], buffer: &mut [u8]) -> (r: Option<Vec<u8>>)
    requires
        key@.len() == KEY_LEN,
        nonce@.len() == NONCE_LEN,
    ensures
        final(buffer)@.len() == old(buffer)@.len(),
        r is Some <==> old(buffer)@.len() / 64 < MAX_BLOCKS,
        r matches Some(tag) ==> final(buffer)@ + tag@ == xchacha_sealed(key@, nonce@, ad@, old(buffer)@)
            && tag@.len() == TAG_LEN,
        r is None ==> final(buffer)@ == old(buffer)@,
{
    let cipher = XChaCha20Poly1305::new(GenericArray::from_slice(key));
    cipher.encrypt_in_place_detached(GenericArray::from_slice(nonce), ad, buffer).ok().map(
        |t| t.to_vec(),
    )
}

/// Relies on chacha20poly1305's `XChaCha20Poly1305::decrypt_in_place_detached`: when
/// `tag` authenticates `buffer` and `ad`, it decrypts `buffer` in place and succeeds;
/// otherwise, and when the buffer holds `MAX_BLOCKS` blocks of 64 bytes or more, it fails
/// and leaves `buffer` as it was.
#[verifier::external_body]
fn open_in_place(key: &[u8], nonce: &[u8], ad: &[u8], buffer: &mut [u8], tag: &[u8]) -> (r: bool)
    requires
        key@.len() == KEY_LEN,
        nonce@.len() == NONCE_LEN,
        tag@.len() == TAG_LEN,
    ensures
        final(buffer)@.len() == old(buffer)@.len(),
        r ==> old(buffer)@.len() / 64 < MAX_BLOCKS,
        r ==> xchacha_opened(key@, nonce@, ad@, old(buffer)@, tag@) == Some(final(buffer)@),
        (old(buffer)@.len() / 64 < MAX_BLOCKS && xchacha_opened(key@, nonce@, ad@, old(buffer)@, tag@) is Some) ==> r,
        !r ==> final(buffer)@ == old(buffer)@,
{
    let cipher = XChaCha20Poly1305::new(GenericArray::from_slice(key));
    cipher.decrypt_in_place_detached(
        GenericArray::from_slice(nonce),
        ad,
        buffer,
        GenericArray::from_slice(tag),
    ).is_ok()
}

/// Encrypts `plaintext` with XChaCha20-Poly1305 under `key` and `nonce`, authenticating
/// `ad` too, into `ciphertext`: the nonce, the encrypted text, then the tag in the last
/// `TAG_LEN` bytes. Fails, leaving `ciphertext` as it was, on a key that is not `KEY_LEN`
/// bytes long or a message too long for the cipher.
pub fn encrypt(
    ciphertext: &mut [u8],
    key: &[u8],
    nonce: &[u8],
    ad: &[u8],
    plaintext: &[u8],
) -> (r: Result<(), AeadError>)
    requires
        nonce@.len() == NONCE_LEN,
        old(ciphertext)@.len() == NONCE_LEN + plaintext@.len() + TAG_LEN,
    ensures
        r is Ok <==> key@.len() == KEY_LEN && plaintext@.len() / 64 < MAX_BLOCKS,
        r is Ok ==> final(ciphertext)@ == nonce@ + xchacha_sealed(key@, nonce@, ad@, plaintext@),
        r is Ok ==> xchacha_sealed(key@, nonce@, ad@, plaintext@).len() == plaintext@.len() + TAG_LEN,
        r is Err ==> final(ciphertext)@ == old(ciphertext)@,
{
    if key.len() != KEY_LEN {
        return Err(AeadError);
    }
    let mut buf: Vec<u8> = vstd::slice::slice_to_vec(plaintext);
    match seal_in_place(key, nonce, ad, buf.as_mut_slice()) {
        None => {
            zeroize_bytes(&mut buf);
            Err(AeadError)
        },
        Some(tag) => {
            let n = plaintext.len();
            let total = ciphertext.len();
            assert(NONCE_LEN + n < total);
            copy_into(ciphertext, 0, nonce);
            copy_into(ciphertext, NONCE_LEN, buf.as_slice());
            copy_into(ciphertext, NONCE_LEN + n, tag.as_slice());
            assert(ciphertext@ =~= nonce@ + (buf@ + tag@));
            Ok(())
        },
    }
}

/// Decrypts `ciphertext`, laid out as `encrypt` writes it (nonce, encrypted text, tag),
/// with XChaCha20-Poly1305 under `key`, checking that it and `ad` are authentic, into
/// `plaintext`. Fails, leaving `plaintext` as it was, when they are not or the key is
/// not `KEY_LEN` bytes long.
pub fn decrypt(plaintext: &mut [u8], key: &[u8], ad: &[u8], ciphertext: &[u8]) -> (r: Result<
    (),
    AeadError,
>)
    requires
        ciphertext@.len() == NONCE_LEN + old(plaintext)@.len() + TAG_LEN,
    ensures
        r is Ok <==> (key@.len() == KEY_LEN && old(plaintext)@.len() / 64 < MAX_BLOCKS
            && xchacha_opened(
            key@,
            ciphertext@.subrange(0, NONCE_LEN as int),
            ad@,
            ciphertext@.subrange(NONCE_LEN as int, ciphertext@.len() - TAG_LEN),
            ciphertext@.subrange(ciphertext@.len() - TAG_LEN, ciphertext@.len() as int),
        ) is Some),
        r is Ok ==> xchacha_opened(
            key@,
            ciphertext@.subrange(0, NONCE_LEN as int),
            ad@,
            ciphertext@.subrange(NONCE_LEN as int, ciphertext@.len() - TAG_LEN),
            ciphertext@.subrange(ciphertext@.len() - TAG_LEN, ciphertext@.len() as int),
        ) == Some(final(plaintext)@),
        r is Err ==> final(plaintext)@ == old(plaintext)@,
{
    if key.len() != KEY_LEN {
        return Err(AeadError);
    }
    let n = ciphertext.len() - TAG_LEN;
    let nonce = vstd::slice::slice_subrange(ciphertext, 0, NONCE_LEN);
    let body = vstd::slice::slice_subrange(ciphertext, NONCE_LEN, n);
    let tag = vstd::slice::slice_subrange(ciphertext, n, ciphertext.len());
    let mut buf: Vec<u8> = vstd::slice::slice_to_vec(body);
    if open_in_place(key, nonce, ad, buf.as_mut_slice(), tag) {
        copy_into(plaintext, 0, buf.as_slice());
        assert(plaintext@ =~= buf@);
        zeroize_bytes(&mut buf);
        Ok(())
    } else {
        Err(AeadError)
    }
}

} // verus!
