use vstd::prelude::*;
use vstd::utf8::{decode_utf8, valid_utf8};
use crate::crypto::{aes_decrypt, spec_aes_decrypt};
use crate::resolver::Client;
use crate::types::{Aes128Key, DecryptError, Mail};

verus! {

/// The usual body buffer factor: six times the compressed length.
pub const DEFAULT_BODY_SIZE_FACTOR: usize = 6;

/// What an LZ4 block decodes to in an output buffer of `capacity` bytes;
/// `None` when the block is malformed or does not fit.
pub uninterp spec fn lz4_block_decoded(input: Seq<u8>, capacity: nat) -> Option<Seq<u8>>;

/// The longest block that the LZ4 decoder is given. Its safe decoder sums
/// each length extension (a run of `0xFF` bytes) in a `u32` without an
/// overflow check; a run of more than this many bytes would overflow it.
pub const LZ4_MAX_INPUT: usize = 16_843_009;

/// Relies on `lz4_flex::decompress_into`: decodes an LZ4 block into the
/// front of `output`, returning the decoded length, or fails (here `None`)
/// on a malformed block or one that does not fit. It writes into the slice
/// and never resizes it. Its length extensions are summed in a `u32`
/// without a check, so longer inputs are kept away from it.
#[verifier::external_body]
fn lz4_decompress_into(input: &[u8], output: &mut Vec<u8>) -> (r: Option<usize>)
    requires
        input@.len() <= LZ4_MAX_INPUT,
    ensures
        final(output)@.len() == old(output)@.len(),
        match r {
            Some(n) => n <= old(output)@.len() && lz4_block_decoded(input@, old(output)@.len())
                == Some(final(output)@.subrange(0, n as int)),
            None => lz4_block_decoded(input@, old(output)@.len()) is None,
        },
{
    lz4_flex::decompress_into(input, output.as_mut_slice()).ok()
}

/// Relies on std's `String::from_utf8`: it succeeds exactly on valid UTF-8,
/// and the string holds the characters that the bytes encode.
#[verifier::external_body]
fn utf8_string(bytes: Vec<u8>) -> (r: Option<String>)
    ensures
        match r {
            Some(s) => valid_utf8(bytes@) && s@ == decode_utf8(bytes@),
            None => !valid_utf8(bytes@),
        },
{
    String::from_utf8(bytes).ok()
}

/// Decoded text, or `EncodingError` for bytes that are not UTF-8.
pub open spec fn spec_text(bytes: Seq<u8>) -> Result<Seq<char>, DecryptError> {
    if valid_utf8(bytes) {
        Ok(decode_utf8(bytes))
    } else {
        Err(DecryptError::EncodingError)
    }
}

/// What `decompress_body` returns: the block decoded into a buffer of
/// `factor` times the compressed length. A block longer than the decoder
/// takes, or a buffer that does not fit in memory, is malformed.
pub open spec fn spec_decompress(compressed: Seq<u8>, factor: nat) -> Result<Seq<u8>, DecryptError> {
    if compressed.len() > LZ4_MAX_INPUT || compressed.len() * factor > usize::MAX {
        Err(DecryptError::MalformedCiphertext)
    } else {
        match lz4_block_decoded(compressed, compressed.len() * factor) {
            Some(d) => Ok(d),
            None => Err(DecryptError::MalformedCiphertext),
        }
    }
}

/// The text of an encrypted field.
pub open spec fn spec_field_text(key: Seq<u8>, ciphertext: Seq<u8>) -> Result<Seq<char>, DecryptError> {
    match spec_aes_decrypt(key, ciphertext) {
        Ok(p) => spec_text(p),
        Err(e) => Err(e),
    }
}

/// The text of an encrypted, compressed body.
pub open spec fn spec_body_text(key: Seq<u8>, ciphertext: Seq<u8>, factor: nat) -> Result<
    Seq<char>,
    DecryptError,
> {
    match spec_aes_decrypt(key, ciphertext) {
        Ok(c) => match spec_decompress(c, factor) {
            Ok(p) => spec_text(p),
            Err(e) => Err(e),
        },
        Err(e) => Err(e),
    }
}

/// The view of a text result.
pub open spec fn text_result(r: Result<String, DecryptError>) -> Result<Seq<char>, DecryptError> {
    match r {
        Ok(s) => Ok(s@),
        Err(e) => Err(e),
    }
}

/// Checks that bytes are UTF-8 and turns them into text.
pub fn decode_text(bytes: Vec<u8>) -> (r: Result<String, DecryptError>)
    ensures
        text_result(r) == spec_text(bytes@),
{
    match utf8_string(bytes) {
        Some(s) => Ok(s),
        None => Err(DecryptError::EncodingError),
    }
}

/// Decompresses a body: the LZ4 block is decoded into a buffer of `factor`
/// times the compressed length, cut to the decoded size. Blocks longer than
/// `LZ4_MAX_INPUT` bytes are refused as `MalformedCiphertext`.
pub fn decompress_body(compressed: &[u8], factor: usize) -> (r: Result<Vec<u8>, DecryptError>)
    ensures
        match r {
            Ok(p) => spec_decompress(compressed@, factor as nat) == Ok::<Seq<u8>, DecryptError>(p@),
            Err(e) => spec_decompress(compressed@, factor as nat) == Err::<Seq<u8>, DecryptError>(e),
        },
{
    if compressed.len() > LZ4_MAX_INPUT {
        return Err(DecryptError::MalformedCiphertext);
    }
    let capacity = match compressed.len().checked_mul(factor) {
        Some(c) => c,
        None => return Err(DecryptError::MalformedCiphertext),
    };
    let mut buf: Vec<u8> = vec![0u8; capacity];
    match lz4_decompress_into(compressed, &mut buf) {
        Some(n) => {
            buf.truncate(n);
            Ok(buf)
        },
        None => Err(DecryptError::MalformedCiphertext),
    }
}

/// Decrypts a text field (subject or sender name) with the session key.
pub fn decrypt_text(key: &Aes128Key, ciphertext: &[u8]) -> (r: Result<String, DecryptError>)
    ensures
        text_result(r) == spec_field_text(key@, ciphertext@),
{
    match aes_decrypt(key, ciphertext) {
        Ok(p) => decode_text(p),
        Err(e) => Err(e),
    }
}

/// Decrypts a body with the session key, then decompresses it into a buffer
/// of `factor` times the compressed length.
pub fn decrypt_body(key: &Aes128Key, ciphertext: &[u8], factor: usize) -> (r: Result<
    String,
    DecryptError,
>)
    ensures
        text_result(r) == spec_body_text(key@, ciphertext@, factor as nat),
{
    let compressed = match aes_decrypt(key, ciphertext) {
        Ok(c) => c,
        Err(e) => return Err(e),
    };
    match decompress_body(compressed.as_slice(), factor) {
        Ok(p) => decode_text(p),
        Err(e) => Err(e),
    }
}

/// The decrypted fields of a mail. A field is absent when the account does
/// not show it; a field that fails carries its own error.
pub struct MailContent {
    pub subject: Option<Result<String, DecryptError>>,
    pub name: Option<Result<String, DecryptError>>,
    pub address: String,
    pub body: Option<Result<String, DecryptError>>,
}

impl Client {
    /// Decrypts the fields of `mail` that the account shows, with the mail's
    /// session key. `body` is the body ciphertext, fetched when the account
    /// shows bodies; it is decompressed into a buffer of the account's
    /// `body_size_factor` times its compressed length.
    pub fn decrypt(&self, mail: &Mail, session_key: &Aes128Key, body: Option<&Vec<u8>>) -> (r:
        MailContent)
        ensures
            self.config.show_subject ==> (r.subject matches Some(t) && text_result(t)
                == spec_field_text(session_key@, mail.subject@)),
            !self.config.show_subject ==> r.subject is None,
            self.config.show_name ==> (r.name matches Some(t) && text_result(t) == spec_field_text(
                session_key@,
                mail.sender.name@,
            )),
            !self.config.show_name ==> r.name is None,
            r.address@ == mail.sender.address@,
            (self.config.show_body && body is Some) ==> (r.body matches Some(t) && text_result(t)
                == spec_body_text(
                session_key@,
                body->Some_0@,
                self.config.body_size_factor as nat,
            )),
            !(self.config.show_body && body is Some) ==> r.body is None,
    {
        let subject = if self.config.show_subject {
            Some(decrypt_text(session_key, mail.subject.as_slice()))
        } else {
            None
        };
        let name = if self.config.show_name {
            Some(decrypt_text(session_key, mail.sender.name.as_slice()))
        } else {
            None
        };
        let address = mail.sender.address.clone();
        let body = match body {
            Some(b) => if self.config.show_body {
                Some(decrypt_body(session_key, b.as_slice(), self.config.body_size_factor))
            } else {
                None
            },
            None => None,
        };
        MailContent { subject, name, address, body }
    }
}

} // verus!
