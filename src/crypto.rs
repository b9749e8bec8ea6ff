use vstd::prelude::*;
use aes::cipher::block_padding::Pkcs7;
use aes::cipher::{BlockDecrypt, BlockDecryptMut, KeyInit, KeyIvInit};
use hmac::Mac;
use sha2::Digest;
use crate::types::{Aes128Key, DecryptError};
use vstd::arithmetic::power2::{lemma2_to64, lemma_pow2_unfold, pow2};
use vstd::slice::slice_to_vec;
use vstd::string::StringSliceAdditionalSpecFns;

verus! {

/// Every byte of an unwrapped key is masked with this value.
pub const KEY_WRAP_MASK: u8 = 0x88;

/// What one AES-128 block decryption of `block` under `key` yields.
pub uninterp spec fn aes128_decrypt_block(key: Seq<u8>, block: Seq<u8>) -> Seq<u8>;

/// The key that `decrypt_key` recovers from a wrapped key.
pub open spec fn spec_unwrap_key(key: Seq<u8>, wrapped: Seq<u8>) -> Seq<u8> {
    aes128_decrypt_block(key, wrapped).map_values(|b: u8| b ^ KEY_WRAP_MASK)
}

/// Relies on `aes::Aes128` (`KeyInit::new` and `BlockDecrypt::decrypt_block`):
/// one raw AES-128 block decryption, without chaining or padding.
#[verifier::external_body]
fn aes128_decrypt_one_block(key: &[u8; 16], block: &[u8; 16]) -> (r: [u8; 16])
    ensures
        r@ == aes128_decrypt_block(key@, block@),
{
    let cipher = aes::Aes128::new(key.into());
    let mut out = aes::Block::from(*block);
    cipher.decrypt_block(&mut out);
    out.into()
}

/// Unwraps a key: one AES-128 block decryption of `message` under `key`,
/// then every byte masked with `0x88`.
pub fn decrypt_key(key: &Aes128Key, message: &Aes128Key) -> (r: Aes128Key)
    ensures
        r@ == spec_unwrap_key(key@, message@),
{
    let mut output = aes128_decrypt_one_block(key, message);
    let ghost block = output@;
    let mut i: usize = 0;
    while i < 16
        invariant
            i <= 16,
            block.len() == 16,
            forall|j: int| 0 <= j < i ==> output@[j] == block[j] ^ KEY_WRAP_MASK,
            forall|j: int| i <= j < 16 ==> output@[j] == block[j],
        decreases 16 - i,
    {
        output[i] = output[i] ^ KEY_WRAP_MASK;
        i += 1;
    }
    assert(output@ =~= spec_unwrap_key(key@, message@));
    output
}

/// Length in bytes of the HMAC-SHA256 tag of an authenticated ciphertext.
pub const MAC_SIZE: usize = 32;

/// Length in bytes of an AES block, and so of a CBC initialisation vector.
pub const BLOCK_SIZE: usize = 16;

/// The SHA-256 digest of `data`.
pub uninterp spec fn sha256_of(data: Seq<u8>) -> Seq<u8>;

/// The HMAC-SHA256 tag of `data` under `key`.
pub uninterp spec fn hmac_sha256(key: Seq<u8>, data: Seq<u8>) -> Seq<u8>;

/// AES-128-CBC decryption followed by PKCS#7 unpadding; `None` when the
/// ciphertext is not a whole number of blocks or the padding is malformed.
pub uninterp spec fn aes128_cbc_pkcs7_decrypt(key: Seq<u8>, iv: Seq<u8>, ciphertext: Seq<u8>) -> Option<Seq<u8>>;

/// Relies on `sha2::Sha256::digest`: the 32-byte SHA-256 digest of `data`.
#[verifier::external_body]
pub(crate) fn sha256(data: &[u8]) -> (r: [u8; 32])
    ensures
        r@ == sha256_of(data@),
{
    sha2::Sha256::digest(data).into()
}

/// Relies on `hmac::Hmac<sha2::Sha256>`: `new_from_slice` takes a key of any
/// length, and `verify_slice` accepts `tag` exactly when it equals the tag
/// computed over `data` (compared in constant time).
#[verifier::external_body]
fn hmac_sha256_verify(key: &[u8; 16], data: &[u8], tag: &[u8]) -> (r: bool)
    ensures
        r == (hmac_sha256(key@, data@) == tag@),
{
    match <hmac::Hmac<sha2::Sha256> as Mac>::new_from_slice(key) {
        Ok(mut mac) => {
            mac.update(data);
            mac.verify_slice(tag).is_ok()
        },
        Err(_) => false,
    }
}

/// Relies on `cbc::Decryptor<aes::Aes128>` and `decrypt_padded_vec_mut` with
/// PKCS#7 padding, whose error is mapped to `None`.
#[verifier::external_body]
fn cbc_decrypt(key: &[u8; 16], iv: &[u8; 16], ciphertext: &[u8]) -> (r: Option<Vec<u8>>)
    ensures
        match r {
            Some(p) => aes128_cbc_pkcs7_decrypt(key@, iv@, ciphertext@) == Some(p@),
            None => aes128_cbc_pkcs7_decrypt(key@, iv@, ciphertext@) is None,
        },
{
    cbc::Decryptor::<aes::Aes128>::new(key.into(), iv.into())
        .decrypt_padded_vec_mut::<Pkcs7>(ciphertext)
        .ok()
}

/// The cipher half of the subkeys of `key`: the first half of its digest.
pub open spec fn cipher_subkey(key: Seq<u8>) -> Seq<u8> {
    sha256_of(key).subrange(0, 16)
}

/// The MAC half of the subkeys of `key`: the second half of its digest.
pub open spec fn mac_subkey(key: Seq<u8>) -> Seq<u8> {
    sha256_of(key).subrange(16, 32)
}

/// Copies sixteen bytes of `data`, starting at `start`, into a key.
pub(crate) fn block_at(data: &[u8], start: usize) -> (r: [u8; 16])
    requires
        start + 16 <= data@.len(),
    ensures
        r@ == data@.subrange(start as int, start + 16),
{
    let mut out = [0u8; 16];
    let n = data.len();
    let mut i: usize = 0;
    while i < 16
        invariant
            i <= 16,
            n == data@.len(),
            start + 16 <= n,
            forall|j: int| 0 <= j < i ==> out@[j] == data@[start + j],
        decreases 16 - i,
    {
        out[i] = data[start + i];
        i += 1;
    }
    assert(out@ =~= data@.subrange(start as int, start + 16));
    out
}

/// The two keys that protect a ciphertext: the cipher key, and the MAC key
/// when the format carries a tag.
pub struct SubKeys {
    pub cipher: Aes128Key,
    pub mac: Option<Aes128Key>,
}

impl SubKeys {
    /// With a MAC, the cipher and MAC keys are the two halves of the SHA-256
    /// digest of `key`; without one, the cipher key is `key` itself.
    pub fn new(key: Aes128Key, use_mac: bool) -> (r: SubKeys)
        ensures
            use_mac ==> (r.cipher@ == cipher_subkey(key@) && (r.mac matches Some(m) && m@
                == mac_subkey(key@))),
            !use_mac ==> r.cipher == key && r.mac is None,
    {
        if use_mac {
            let hash = sha256(&key);
            let hash_slice: &[u8] = &hash;
            let cipher = block_at(hash_slice, 0);
            let mac = block_at(hash_slice, 16);
            SubKeys { cipher, mac: Some(mac) }
        } else {
            SubKeys { cipher: key, mac: None }
        }
    }
}

/// Decrypts `IV(16) || CBC ciphertext` under `key`.
pub open spec fn spec_cbc_open(key: Seq<u8>, data: Seq<u8>) -> Result<Seq<u8>, DecryptError> {
    if data.len() < BLOCK_SIZE {
        Err(DecryptError::MalformedCiphertext)
    } else {
        match aes128_cbc_pkcs7_decrypt(key, data.subrange(0, 16), data.subrange(16, data.len() as int)) {
            Some(p) => Ok(p),
            None => Err(DecryptError::MalformedCiphertext),
        }
    }
}

/// The bytes between the version prefix and the tag of an authenticated ciphertext.
pub open spec fn protected_region(message: Seq<u8>) -> Seq<u8> {
    message.subrange(1, message.len() - MAC_SIZE)
}

/// The trailing tag of an authenticated ciphertext.
pub open spec fn mac_tag(message: Seq<u8>) -> Seq<u8> {
    message.subrange(message.len() - MAC_SIZE, message.len() as int)
}

/// What `aes_decrypt` returns. An odd length marks the authenticated format
/// (`version(1) || IV(16) || CBC ciphertext || HMAC(32)`), an even length
/// the legacy format (`IV(16) || CBC ciphertext`) without integrity check.
pub open spec fn spec_aes_decrypt(key: Seq<u8>, message: Seq<u8>) -> Result<Seq<u8>, DecryptError> {
    if message.len() % 2 == 1 {
        if message.len() < 1 + MAC_SIZE {
            Err(DecryptError::MalformedCiphertext)
        } else if hmac_sha256(mac_subkey(key), protected_region(message)) != mac_tag(message) {
            Err(DecryptError::AuthenticationFailed)
        } else {
            spec_cbc_open(cipher_subkey(key), protected_region(message))
        }
    } else {
        spec_cbc_open(key, message)
    }
}

/// The view of a byte result.
pub open spec fn bytes_result(r: Result<Vec<u8>, DecryptError>) -> Result<Seq<u8>, DecryptError> {
    match r {
        Ok(v) => Ok(v@),
        Err(e) => Err(e),
    }
}

fn cbc_open(key: &Aes128Key, data: &[u8]) -> (r: Result<Vec<u8>, DecryptError>)
    ensures
        bytes_result(r) == spec_cbc_open(key@, data@),
{
    if data.len() < BLOCK_SIZE {
        return Err(DecryptError::MalformedCiphertext);
    }
    let iv = block_at(data, 0);
    let body = &data[16..data.len()];
    match cbc_decrypt(key, &iv, body) {
        Some(p) => Ok(p),
        None => Err(DecryptError::MalformedCiphertext),
    }
}

/// Decrypts a ciphertext of either format. An authenticated ciphertext whose
/// tag does not match fails with `AuthenticationFailed` and is never read as
/// legacy; the legacy format is decrypted directly under `key`, unchecked.
pub fn aes_decrypt(key: &Aes128Key, message: &[u8]) -> (r: Result<Vec<u8>, DecryptError>)
    ensures
        bytes_result(r) == spec_aes_decrypt(key@, message@),
{
    let use_mac = message.len() % 2 == 1;
    let sub_keys = SubKeys::new(*key, use_mac);
    if use_mac {
        if message.len() < 1 + MAC_SIZE {
            return Err(DecryptError::MalformedCiphertext);
        }
        let end = message.len() - MAC_SIZE;
        let protected = &message[1..end];
        let tag = &message[end..message.len()];
        let mac_key = sub_keys.mac.unwrap();
        if !hmac_sha256_verify(&mac_key, protected, tag) {
            return Err(DecryptError::AuthenticationFailed);
        }
        cbc_open(&sub_keys.cipher, protected)
    } else {
        cbc_open(&sub_keys.cipher, message)
    }
}

/// Flips bit `bit` of byte `i` of `s`.
pub open spec fn flip_bit(s: Seq<u8>, i: int, bit: u8) -> Seq<u8> {
    s.update(i, s[i] ^ (1u8 << bit))
}

/// Once an authenticated ciphertext decrypts, flipping any bit of its HMAC
/// tag makes decryption fail with `AuthenticationFailed`: no plaintext comes
/// out of the altered message.
pub proof fn lemma_flipped_tag_rejected(key: Seq<u8>, message: Seq<u8>, i: int, bit: u8)
    requires
        message.len() % 2 == 1,
        spec_aes_decrypt(key, message) is Ok,
        message.len() - MAC_SIZE <= i < message.len(),
        bit < 8,
    ensures
        spec_aes_decrypt(key, flip_bit(message, i, bit)) == Err::<Seq<u8>, DecryptError>(
            DecryptError::AuthenticationFailed,
        ),
{
    let altered = flip_bit(message, i, bit);
    let x = message[i];
    assert(x ^ (1u8 << bit) != x) by (bit_vector)
        requires
            bit < 8u8,
    ;
    assert(protected_region(altered) =~= protected_region(message));
    let k = i - (message.len() - MAC_SIZE);
    assert(mac_tag(altered)[k] != mac_tag(message)[k]);
    assert(mac_tag(altered) != mac_tag(message));
}

/// An authenticated ciphertext yields plaintext only when its tag is the
/// HMAC of its protected region under the MAC subkey; any change that breaks
/// this equality ends in an error, never in plaintext.
pub proof fn lemma_plaintext_only_with_matching_tag(key: Seq<u8>, message: Seq<u8>)
    requires
        message.len() % 2 == 1,
        spec_aes_decrypt(key, message) is Ok,
    ensures
        message.len() >= 1 + MAC_SIZE,
        hmac_sha256(mac_subkey(key), protected_region(message)) == mac_tag(message),
{
}

/// A ciphertext of even length is legacy: it is decrypted directly under
/// the key, and no tag is checked, so no change to it is ever reported as
/// `AuthenticationFailed`.
pub proof fn lemma_legacy_unchecked(key: Seq<u8>, message: Seq<u8>)
    requires
        message.len() % 2 == 0,
    ensures
        spec_aes_decrypt(key, message) == spec_cbc_open(key, message),
        spec_aes_decrypt(key, message) != Err::<Seq<u8>, DecryptError>(
            DecryptError::AuthenticationFailed,
        ),
{
}

/// The bcrypt cost used to derive the passphrase key.
pub const PASSPHRASE_BCRYPT_COST: u32 = 8;

/// The raw 24-byte bcrypt output for a cost, a salt and a password.
pub uninterp spec fn bcrypt_raw(cost: u32, salt: Seq<u8>, password: Seq<u8>) -> Seq<u8>;

/// Relies on `bcrypt::bcrypt`: the raw EksBlowfish output, which asserts a
/// cost below 32 and a password of 1 to 72 bytes.
#[verifier::external_body]
fn bcrypt_hash(cost: u32, salt: [u8; 16], password: &[u8]) -> (r: [u8; 24])
    requires
        cost < 32,
        1 <= password@.len() <= 72,
    ensures
        r@ == bcrypt_raw(cost, salt@, password@),
{
    bcrypt::bcrypt(cost, salt, password)
}

/// The passphrase key: the first sixteen bytes of bcrypt (cost 8) under
/// `salt`, keyed with the SHA-256 digest of the passphrase.
pub open spec fn spec_passphrase_key(passphrase: Seq<u8>, salt: Seq<u8>) -> Seq<u8> {
    bcrypt_raw(PASSPHRASE_BCRYPT_COST, salt, sha256_of(passphrase)).subrange(0, 16)
}

/// Derives the passphrase key from the password and the account salt.
pub fn create_user_passphrase_key(passphrase: &str, salt: &Aes128Key) -> (r: Aes128Key)
    ensures
        r@ == spec_passphrase_key(passphrase.spec_bytes(), salt@),
{
    let hash = sha256(passphrase.as_bytes());
    let source = bcrypt_hash(PASSPHRASE_BCRYPT_COST, *salt, &hash);
    block_at(&source, 0)
}

/// The number of fields of private key material.
pub const RSA_KEY_FIELDS: usize = 7;

/// The expected modulus length; one bit less is accepted too.
pub const RSA_KEY_LENGTH_BITS: usize = 2048;

/// The public exponent of every reconstructed key.
pub const RSA_PUBLIC_EXPONENT: u32 = 65537;

/// The longest field that a two-byte length field can announce.
pub const MAX_FIELD_LEN: usize = 32767;

/// The byte length announced by a two-byte big-endian length field, which
/// counts hexadecimal digits.
pub open spec fn field_len(hi: u8, lo: u8) -> nat {
    (hi as nat * 256 + lo as nat) / 2
}

/// Splits key material into its length-prefixed fields; `None` when a
/// length field or a field runs past the end.
pub open spec fn parse_key_fields(s: Seq<u8>) -> Option<Seq<Seq<u8>>>
    decreases s.len(),
{
    if s.len() == 0 {
        Some(Seq::empty())
    } else if s.len() < 2 {
        None
    } else {
        let n = field_len(s[0], s[1]) as int;
        if s.len() < 2 + n {
            None
        } else {
            match parse_key_fields(s.subrange(2 + n, s.len() as int)) {
                Some(rest) => Some(seq![s.subrange(2, 2 + n)] + rest),
                None => None,
            }
        }
    }
}

proof fn lemma_fields_short(s: Seq<u8>)
    ensures
        parse_key_fields(s) matches Some(fields) ==> forall|i: int|
            0 <= i < fields.len() ==> (#[trigger] fields[i]).len() <= MAX_FIELD_LEN,
    decreases s.len(),
{
    if s.len() >= 2 {
        let n = field_len(s[0], s[1]) as int;
        if s.len() >= 2 + n {
            let tail = s.subrange(2 + n, s.len() as int);
            lemma_fields_short(tail);
            if let Some(rest) = parse_key_fields(tail) {
                let fields = seq![s.subrange(2, 2 + n)] + rest;
                assert forall|i: int| 0 <= i < fields.len() implies (#[trigger] fields[i]).len()
                    <= MAX_FIELD_LEN by {
                    if i > 0 {
                        assert(fields[i] == rest[i - 1]);
                    }
                }
            }
        }
    }
}

/// The value of a big-endian byte string.
pub open spec fn be_value(s: Seq<u8>) -> nat
    decreases s.len(),
{
    if s.len() == 0 {
        0
    } else {
        be_value(s.drop_last()) * 256 + s.last() as nat
    }
}

/// The fewest bits that express `n`.
pub open spec fn bit_length(n: nat) -> nat
    decreases n,
{
    if n == 0 {
        0
    } else {
        1 + bit_length(n / 2)
    }
}

/// Whether a modulus, given as big-endian bytes, has an accepted length.
pub open spec fn modulus_length_ok(modulus: Seq<u8>) -> bool {
    bit_length(be_value(modulus)) == RSA_KEY_LENGTH_BITS - 1
        || bit_length(be_value(modulus)) == RSA_KEY_LENGTH_BITS
}

/// The fields of well-formed private key material: exactly seven, and a
/// modulus of 2047 or 2048 bits.
pub open spec fn spec_key_params(data: Seq<u8>) -> Option<Seq<Seq<u8>>> {
    match parse_key_fields(data) {
        Some(fields) => if fields.len() == RSA_KEY_FIELDS && modulus_length_ok(fields[0]) {
            Some(fields)
        } else {
            None
        },
        None => None,
    }
}

/// The views of a list of byte strings.
pub open spec fn byte_fields(v: Seq<Vec<u8>>) -> Seq<Seq<u8>> {
    v.map_values(|f: Vec<u8>| f@)
}

proof fn lemma_bit_length_shift(v: nat, c: nat, m: nat, k: nat)
    requires
        v > 0,
        m == pow2(k),
        c < m,
    ensures
        bit_length(v * m + c) == bit_length(v) + k,
    decreases k,
{
    if k == 0 {
        lemma2_to64();
        assert(v * m + c == v);
    } else {
        lemma_pow2_unfold(k);
        let half = pow2((k - 1) as nat);
        assert(v * m + c == 2 * (v * half + c / 2) + c % 2) by (nonlinear_arith)
            requires
                m == 2 * half,
        ;
        assert(c / 2 < half) by (nonlinear_arith)
            requires
                c < m,
                m == 2 * half,
        ;
        assert(v * half >= 1) by (nonlinear_arith)
            requires
                v > 0,
                half >= 1,
        ;
        lemma_bit_length_shift(v, c / 2, half, (k - 1) as nat);
        assert((v * m + c) / 2 == v * half + c / 2);
    }
}

proof fn lemma_bit_length_below(n: nat, k: nat)
    requires
        n < pow2(k),
    ensures
        bit_length(n) <= k,
    decreases k,
{
    if n > 0 {
        if k == 0 {
            lemma2_to64();
        } else {
            lemma_pow2_unfold(k);
            lemma_bit_length_below(n / 2, (k - 1) as nat);
        }
    }
}

/// The bit length of one byte.
fn byte_bits(b: u8) -> (r: usize)
    ensures
        r as nat == bit_length(b as nat),
        r <= 8,
{
    proof {
        lemma2_to64();
        lemma_bit_length_below(b as nat, 8);
    }
    let mut x: u8 = b;
    let mut k: usize = 0;
    while x > 0
        invariant
            k as nat + bit_length(x as nat) == bit_length(b as nat),
            bit_length(b as nat) <= 8,
        decreases x,
    {
        x = x / 2;
        k += 1;
    }
    k
}

/// The bit length of a big-endian integer, the count that
/// `num-bigint-dig`'s `BigUint::bits` gives.
fn big_endian_bits(bytes: &[u8]) -> (r: usize)
    requires
        bytes@.len() <= MAX_FIELD_LEN,
    ensures
        r as nat == bit_length(be_value(bytes@)),
{
    let n = bytes.len();
    let mut acc: usize = 0;
    let mut i: usize = 0;
    proof {
        assert(bytes@.subrange(0, 0) =~= Seq::<u8>::empty());
        lemma2_to64();
    }
    while i < n
        invariant
            i <= n,
            n == bytes@.len(),
            n <= MAX_FIELD_LEN,
            acc as nat == bit_length(be_value(bytes@.subrange(0, i as int))),
            acc <= 8 * i,
            pow2(8) == 256,
        decreases n - i,
    {
        let ghost prefix = bytes@.subrange(0, i as int);
        let ghost next = bytes@.subrange(0, i + 1);
        assert(next.drop_last() =~= prefix);
        let b = bytes[i];
        if acc == 0 {
            assert(be_value(prefix) == 0);
            acc = byte_bits(b);
        } else {
            proof {
                lemma_bit_length_shift(be_value(prefix), b as nat, 256, 8);
            }
            acc = acc + 8;
        }
        i += 1;
    }
    assert(bytes@.subrange(0, n as int) =~= bytes@);
    acc
}

/// Splits key material into its length-prefixed big-endian fields.
pub fn split_key_fields(data: &[u8]) -> (r: Option<Vec<Vec<u8>>>)
    ensures
        match r {
            Some(fields) => parse_key_fields(data@) == Some(byte_fields(fields@)),
            None => parse_key_fields(data@) is None,
        },
{
    let len = data.len();
    let mut fields: Vec<Vec<u8>> = Vec::new();
    let mut pos: usize = 0;
    proof {
        assert(data@.subrange(0, len as int) =~= data@);
        match parse_key_fields(data@) {
            Some(all) => assert(byte_fields(fields@) + all =~= all),
            None => {},
        }
    }
    while pos < len
        invariant
            pos <= len,
            len == data@.len(),
            parse_key_fields(data@) == match parse_key_fields(data@.subrange(pos as int, len as int)) {
                Some(rest) => Some(byte_fields(fields@) + rest),
                None => None::<Seq<Seq<u8>>>,
            },
        decreases len - pos,
    {
        let ghost rest = data@.subrange(pos as int, len as int);
        if len - pos < 2 {
            return None;
        }
        let n: usize = ((data[pos] as usize) * 256 + data[pos + 1] as usize) / 2;
        assert(n == field_len(rest[0], rest[1]));
        if len - pos - 2 < n {
            return None;
        }
        let field = slice_to_vec(&data[pos + 2..pos + 2 + n]);
        proof {
            assert(rest.subrange(2 + n, rest.len() as int) =~= data@.subrange(pos + 2 + n, len as int));
            assert(rest.subrange(2, 2 + n) =~= field@);
            match parse_key_fields(data@.subrange(pos + 2 + n, len as int)) {
                Some(tail) => {
                    assert(byte_fields(fields@.push(field)) =~= byte_fields(fields@).push(field@));
                    assert(byte_fields(fields@) + (seq![field@] + tail) =~= byte_fields(fields@).push(field@) + tail);
                },
                None => {},
            }
        }
        fields.push(field);
        pos = pos + 2 + n;
    }
    proof {
        assert(data@.subrange(len as int, len as int) =~= Seq::<u8>::empty());
        assert(byte_fields(fields@) + Seq::<Seq<u8>>::empty() =~= byte_fields(fields@));
    }
    Some(fields)
}

/// Parses private key material: the fields must be exactly seven and the
/// modulus (the first field) must be 2047 or 2048 bits long; anything else is
/// `MalformedKeyMaterial`.
pub fn parse_key_params(data: &[u8]) -> (r: Result<Vec<Vec<u8>>, DecryptError>)
    ensures
        match r {
            Ok(fields) => spec_key_params(data@) == Some(byte_fields(fields@)),
            Err(e) => e == DecryptError::MalformedKeyMaterial && spec_key_params(data@) is None,
        },
{
    let fields = match split_key_fields(data) {
        Some(f) => f,
        None => return Err(DecryptError::MalformedKeyMaterial),
    };
    if fields.len() != RSA_KEY_FIELDS {
        return Err(DecryptError::MalformedKeyMaterial);
    }
    proof {
        lemma_fields_short(data@);
        assert(fields@[0]@ == byte_fields(fields@)[0]);
    }
    let bits = big_endian_bits(fields[0].as_slice());
    if bits < RSA_KEY_LENGTH_BITS - 1 || bits > RSA_KEY_LENGTH_BITS {
        return Err(DecryptError::MalformedKeyMaterial);
    }
    Ok(fields)
}

#[verifier::external_type_specification]
#[verifier::external_body]
pub struct ExRsaPrivateKey(rsa::RsaPrivateKey);

/// The parts of an RSA private key: modulus, public exponent, private
/// exponent and the two primes, integers as big-endian bytes.
pub type RsaParts = (Seq<u8>, u32, Seq<u8>, Seq<u8>, Seq<u8>);

/// Whether `rsa::RsaPrivateKey::from_components` accepts these parts as one
/// private key with two primes. These are the checks of its `validate` and
/// `check_public`: an odd modulus above the public exponent; an odd exponent
/// of at least 2 (its upper bound, 2^33 - 1, holds of every `u32`); primes
/// above 1 whose product is the modulus; and e·d ≡ 1 modulo p - 1 and
/// modulo q - 1.
pub open spec fn rsa_parts_form_key(n: Seq<u8>, e: u32, d: Seq<u8>, p: Seq<u8>, q: Seq<u8>) -> bool {
    let nv = be_value(n);
    let dv = be_value(d);
    let pv = be_value(p);
    let qv = be_value(q);
    &&& nv % 2 == 1
    &&& 2 <= e && (e as nat) < nv
    &&& e % 2 == 1
    &&& pv > 1 && qv > 1
    &&& pv * qv == nv
    &&& (e as nat * dv) % ((pv - 1) as nat) == 1
    &&& (e as nat * dv) % ((qv - 1) as nat) == 1
}

/// What RSA-OAEP (SHA-256, empty label) decryption of `ciphertext` gives
/// under the private key with these parts; `None` when it fails.
pub uninterp spec fn oaep_sha256_of(
    n: Seq<u8>,
    e: u32,
    d: Seq<u8>,
    p: Seq<u8>,
    q: Seq<u8>,
    ciphertext: Seq<u8>,
) -> Option<Seq<u8>>;

/// Relies on `rsa::RsaPrivateKey::from_components` with the modulus, the
/// public exponent, the private exponent and two primes, each read by
/// `rsa::BigUint::from_bytes_be` or `From<u32>`. It validates the key,
/// draws nothing random, and fails (here `None`) when the parts do not form
/// one.
#[verifier::external_body]
fn rsa_key_from_parts(n: &[u8], e: u32, d: &[u8], p: &[u8], q: &[u8]) -> (r: Option<
    rsa::RsaPrivateKey,
>)
    ensures
        r is Some <==> rsa_parts_form_key(n@, e, d@, p@, q@),
{
    rsa::RsaPrivateKey::from_components(
        rsa::BigUint::from_bytes_be(n),
        rsa::BigUint::from(e),
        rsa::BigUint::from_bytes_be(d),
        vec![rsa::BigUint::from_bytes_be(p), rsa::BigUint::from_bytes_be(q)],
    ).ok()
}

/// An RSA private key together with the parts it was built from. Only
/// `RsaKey::from_parts` makes one, from the very parts that it records.
pub struct RsaKey {
    key: rsa::RsaPrivateKey,
    parts: Ghost<RsaParts>,
}

impl View for RsaKey {
    type V = RsaParts;

    closed spec fn view(&self) -> RsaParts {
        self.parts@
    }
}

impl RsaKey {
    /// The private key with these parts, when they form one.
    pub fn from_parts(n: &[u8], e: u32, d: &[u8], p: &[u8], q: &[u8]) -> (r: Option<RsaKey>)
        ensures
            r is Some <==> rsa_parts_form_key(n@, e, d@, p@, q@),
            r matches Some(k) ==> k@ == (n@, e, d@, p@, q@),
    {
        match rsa_key_from_parts(n, e, d, p, q) {
            Some(key) => Some(RsaKey { key, parts: Ghost((n@, e, d@, p@, q@)) }),
            None => None,
        }
    }
}

/// The parts of the key that well-formed key material describes: modulus
/// (field 0), public exponent 65537, private exponent (field 2) and the
/// primes (fields 3 and 4); fields 1, 5 and 6 are not needed.
pub open spec fn material_parts(fields: Seq<Seq<u8>>) -> RsaParts {
    (fields[0], RSA_PUBLIC_EXPONENT, fields[2], fields[3], fields[4])
}

/// What `u8_to_key` returns: the key of well-formed material whose parts
/// form a key, `MalformedKeyMaterial` otherwise.
pub open spec fn spec_rsa_key(data: Seq<u8>) -> Result<RsaParts, DecryptError> {
    match spec_key_params(data) {
        Some(f) => if rsa_parts_form_key(f[0], RSA_PUBLIC_EXPONENT, f[2], f[3], f[4]) {
            Ok(material_parts(f))
        } else {
            Err(DecryptError::MalformedKeyMaterial)
        },
        None => Err(DecryptError::MalformedKeyMaterial),
    }
}

/// The view of a key result.
pub open spec fn parts_result(r: Result<RsaKey, DecryptError>) -> Result<RsaParts, DecryptError> {
    match r {
        Ok(k) => Ok(k@),
        Err(e) => Err(e),
    }
}

/// Builds the private key that well-formed key material describes.
pub fn u8_to_key(enc_key: &[u8]) -> (r: Result<RsaKey, DecryptError>)
    ensures
        parts_result(r) == spec_rsa_key(enc_key@),
{
    let fields = match parse_key_params(enc_key) {
        Ok(f) => f,
        Err(e) => return Err(e),
    };
    proof {
        assert(fields@[0]@ == byte_fields(fields@)[0]);
        assert(fields@[2]@ == byte_fields(fields@)[2]);
        assert(fields@[3]@ == byte_fields(fields@)[3]);
        assert(fields@[4]@ == byte_fields(fields@)[4]);
    }
    match RsaKey::from_parts(
        fields[0].as_slice(),
        RSA_PUBLIC_EXPONENT,
        fields[2].as_slice(),
        fields[3].as_slice(),
        fields[4].as_slice(),
    ) {
        Some(k) => Ok(k),
        None => Err(DecryptError::MalformedKeyMaterial),
    }
}

/// What `decrypt_rsa_key` returns: the key that the decrypted blob
/// describes; a decryption error is passed on, and nothing is parsed from
/// bytes that did not decrypt.
pub open spec fn spec_rsa_private_key(key: Seq<u8>, message: Seq<u8>) -> Result<RsaParts, DecryptError> {
    match spec_aes_decrypt(key, message) {
        Ok(p) => spec_rsa_key(p),
        Err(e) => Err(e),
    }
}

/// Decrypts the encrypted private key blob of a group under the group key
/// and rebuilds the RSA private key from it.
pub fn decrypt_rsa_key(key: &Aes128Key, message: &[u8]) -> (r: Result<RsaKey, DecryptError>)
    ensures
        parts_result(r) == spec_rsa_private_key(key@, message@),
{
    let plain = match aes_decrypt(key, message) {
        Ok(p) => p,
        Err(e) => return Err(e),
    };
    u8_to_key(plain.as_slice())
}

/// Relies on `rsa::RsaPrivateKey::decrypt` with `rsa::Oaep::new::<sha2::Sha256>()`
/// (RSA-OAEP, SHA-256, empty label, no blinding, so nothing random) under the
/// key that `from_components` built from `key`'s parts; its error becomes
/// `None`.
#[verifier::external_body]
fn oaep_sha256_decrypt(key: &RsaKey, ciphertext: &[u8]) -> (r: Option<Vec<u8>>)
    ensures
        match r {
            Some(v) => oaep_sha256_of(key@.0, key@.1, key@.2, key@.3, key@.4, ciphertext@) == Some(
                v@,
            ),
            None => oaep_sha256_of(key@.0, key@.1, key@.2, key@.3, key@.4, ciphertext@) is None,
        },
{
    key.key.decrypt(rsa::Oaep::new::<sha2::Sha256>(), ciphertext).ok()
}

/// What `rsa_decrypt` returns: the OAEP plaintext, or `MalformedCiphertext`.
pub open spec fn spec_rsa_decrypt(key: RsaParts, ciphertext: Seq<u8>) -> Result<Seq<u8>, DecryptError> {
    match oaep_sha256_of(key.0, key.1, key.2, key.3, key.4, ciphertext) {
        Some(p) => Ok(p),
        None => Err(DecryptError::MalformedCiphertext),
    }
}

/// RSA-OAEP (SHA-256) decryption; a padding failure is `MalformedCiphertext`.
pub fn rsa_decrypt(key: &RsaKey, message: &[u8]) -> (r: Result<Vec<u8>, DecryptError>)
    ensures
        bytes_result(r) == spec_rsa_decrypt(key@, message@),
{
    match oaep_sha256_decrypt(key, message) {
        Some(p) => Ok(p),
        None => Err(DecryptError::MalformedCiphertext),
    }
}

} // verus!
