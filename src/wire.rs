use vstd::prelude::*;
use base64::Engine;
use crate::crypto::{sha256, sha256_of};
use vstd::string::StrSliceExecFns;
use crate::types::{
    Aes128Key, BucketPermissionType, GroupType, MailFolderType, OperationType, PermissionType,
};

verus! {

/// Why a field of a record could not be decoded.
#[derive(Debug, Clone, Copy, PartialEq, Eq, Structural)]
pub enum WireError {
    /// The text is not standard base64.
    InvalidBase64,
    /// A fixed-size field does not decode to exactly sixteen bytes.
    WrongLength,
    /// The `_format` tag is not `"0"`.
    InvalidFormat,
    /// An enumerated field is not the decimal code of one of its variants.
    InvalidCode,
}

/// What standard base64 (with padding) decodes `text` to, if anything.
pub uninterp spec fn base64_decoded(text: Seq<char>) -> Option<Seq<u8>>;

/// The URL-safe base64 text, without padding, of `data`.
pub uninterp spec fn base64_url_nopad_encoded(data: Seq<u8>) -> Seq<char>;

/// Relies on `base64::engine::general_purpose::STANDARD.decode`: the bytes
/// that standard base64 text encodes; its error becomes `None`.
#[verifier::external_body]
fn base64_decode(text: &str) -> (r: Option<Vec<u8>>)
    ensures
        match r {
            Some(b) => base64_decoded(text@) == Some(b@),
            None => base64_decoded(text@) is None,
        },
{
    base64::engine::general_purpose::STANDARD.decode(text).ok()
}

/// Relies on `base64::engine::general_purpose::URL_SAFE_NO_PAD.encode`.
#[verifier::external_body]
fn base64_url_nopad_encode(data: &[u8]) -> (r: String)
    ensures
        r@ == base64_url_nopad_encoded(data@),
{
    base64::engine::general_purpose::URL_SAFE_NO_PAD.encode(data)
}

/// The decimal digit that `c` is, if it is one.
pub open spec fn digit_value(c: char) -> Option<nat> {
    if '0' <= c && c <= '9' {
        Some((c as nat - '0' as nat) as nat)
    } else {
        None
    }
}

/// Whether every character of `s` is a decimal digit.
pub open spec fn all_digits(s: Seq<char>) -> bool {
    forall|i: int| 0 <= i < s.len() ==> (#[trigger] digit_value(s[i])) is Some
}

/// The value of a string of decimal digits.
pub open spec fn decimal_value(s: Seq<char>) -> nat
    decreases s.len(),
{
    if s.len() == 0 {
        0
    } else {
        decimal_value(s.drop_last()) * 10 + digit_value(s.last())->Some_0
    }
}

/// The digits of a decimal string: all of it but a leading `+`.
pub open spec fn decimal_digits(s: Seq<char>) -> Seq<char> {
    if s.len() > 0 && s[0] == '+' {
        s.drop_first()
    } else {
        s
    }
}

/// How an unsigned integer type reads a decimal string: an optional `+`,
/// then at least one digit and nothing else, for a value of at most `max`.
pub open spec fn spec_parse_decimal(s: Seq<char>, max: nat) -> Option<nat> {
    let digits = decimal_digits(s);
    if digits.len() > 0 && all_digits(digits) && decimal_value(digits) <= max {
        Some(decimal_value(digits))
    } else {
        None
    }
}

/// How `u8` reads a decimal string.
pub open spec fn spec_parse_u8(s: Seq<char>) -> Option<u8> {
    match spec_parse_decimal(s, u8::MAX as nat) {
        Some(v) => Some(v as u8),
        None => None,
    }
}

/// How `u64` reads a decimal string.
pub open spec fn spec_parse_u64(s: Seq<char>) -> Option<u64> {
    match spec_parse_decimal(s, u64::MAX as nat) {
        Some(v) => Some(v as u64),
        None => None,
    }
}

proof fn lemma_decimal_prefix(s: Seq<char>, k: int)
    requires
        0 <= k <= s.len(),
        all_digits(s),
    ensures
        decimal_value(s.subrange(0, k)) <= decimal_value(s),
    decreases s.len(),
{
    if k < s.len() {
        let t = s.drop_last();
        assert(all_digits(t)) by {
            assert forall|i: int| 0 <= i < t.len() implies (#[trigger] digit_value(t[i])) is Some by {
                assert(t[i] == s[i]);
            }
        }
        assert(t.subrange(0, k) =~= s.subrange(0, k));
        lemma_decimal_prefix(t, k);
    } else {
        assert(s.subrange(0, k) =~= s);
    }
}

/// Reads a decimal number of at most `max`, the way `str::parse` reads an
/// unsigned integer type whose largest value is `max`.
fn parse_decimal(s: &str, max: u64) -> (r: Option<u64>)
    ensures
        match r {
            Some(v) => spec_parse_decimal(s@, max as nat) == Some(v as nat),
            None => spec_parse_decimal(s@, max as nat) is None,
        },
{
    let n = s.unicode_len();
    let mut start: usize = 0;
    if n > 0 && s.get_char(0) == '+' {
        start = 1;
    }
    let ghost digits = decimal_digits(s@);
    assert(digits =~= s@.subrange(start as int, n as int));
    if start == n {
        return None;
    }
    let mut acc: u64 = 0;
    let mut i: usize = start;
    assert(digits.subrange(0, 0) =~= Seq::<char>::empty());
    while i < n
        invariant
            start <= i <= n,
            n == s@.len(),
            digits == s@.subrange(start as int, n as int),
            digits == decimal_digits(s@),
            all_digits(digits.subrange(0, i - start)),
            acc as nat == decimal_value(digits.subrange(0, i - start)),
            acc <= max,
        decreases n - i,
    {
        let c = s.get_char(i);
        let ghost k: int = i - start;
        assert(digits[k] == c);
        if c < '0' || c > '9' {
            assert(digit_value(digits[k]) is None);
            assert(!all_digits(digits));
            return None;
        }
        let d: u64 = (c as u32 - '0' as u32) as u64;
        let ghost next = digits.subrange(0, k + 1);
        assert(next.drop_last() =~= digits.subrange(0, k));
        assert(decimal_value(next) == acc * 10 + d);
        assert(all_digits(next)) by {
            assert forall|j: int| 0 <= j < next.len() implies (#[trigger] digit_value(next[j])) is Some by {
                if j < k {
                    assert(next[j] == digits.subrange(0, k)[j]);
                }
            }
        }
        if d > max || acc > (max - d) / 10 {
            assert(acc * 10 + d > max) by (nonlinear_arith)
                requires
                    d > max || acc > (max - d) / 10,
            ;
            proof {
                if all_digits(digits) {
                    lemma_decimal_prefix(digits, k + 1);
                    assert(decimal_value(digits) > max);
                }
            }
            return None;
        }
        assert(acc * 10 + d <= max) by (nonlinear_arith)
            requires
                d <= max,
                acc <= (max - d) / 10,
        ;
        acc = acc * 10 + d;
        i += 1;
    }
    assert(digits.subrange(0, n - start) =~= digits);
    Some(acc)
}

/// Reads a decimal `u64`.
pub(crate) fn parse_u64(s: &str) -> (r: Option<u64>)
    ensures
        r == spec_parse_u64(s@),
{
    parse_decimal(s, u64::MAX)
}

/// Reads the decimal code of an enumerated field.
pub fn decode_code(text: &str) -> (r: Result<u8, WireError>)
    ensures
        match spec_parse_u8(text@) {
            Some(c) => r == Ok::<u8, WireError>(c),
            None => r == Err::<u8, WireError>(WireError::InvalidCode),
        },
{
    match parse_decimal(text, 255) {
        Some(c) => Ok(c as u8),
        None => Err(WireError::InvalidCode),
    }
}

/// Reads a flag transmitted as the code `0` or `1`.
pub fn decode_flag(text: &str) -> (r: Result<bool, WireError>)
    ensures
        match spec_parse_u8(text@) {
            Some(c) => if c == 0 {
                r == Ok::<bool, WireError>(false)
            } else if c == 1 {
                r == Ok::<bool, WireError>(true)
            } else {
                r == Err::<bool, WireError>(WireError::InvalidCode)
            },
            None => r == Err::<bool, WireError>(WireError::InvalidCode),
        },
{
    match parse_decimal(text, 1) {
        Some(0) => Ok(false),
        Some(_) => Ok(true),
        None => Err(WireError::InvalidCode),
    }
}

/// Checks the `_format` tag, which must be exactly `"0"`.
pub fn check_format(text: &str) -> (r: Result<(), WireError>)
    ensures
        r is Ok <==> text@ == "0"@,
        r matches Err(e) ==> e == WireError::InvalidFormat,
{
    let expected = "0".to_owned();
    if text.to_owned() == expected {
        Ok(())
    } else {
        Err(WireError::InvalidFormat)
    }
}

/// Decodes a variable-length base64 field.
pub fn decode_bytes(text: &str) -> (r: Result<Vec<u8>, WireError>)
    ensures
        match base64_decoded(text@) {
            Some(b) => r matches Ok(v) && v@ == b,
            None => r == Err::<Vec<u8>, WireError>(WireError::InvalidBase64),
        },
{
    match base64_decode(text) {
        Some(b) => Ok(b),
        None => Err(WireError::InvalidBase64),
    }
}

/// The key in decoded bytes: exactly sixteen of them.
fn key_of_bytes(b: &Vec<u8>) -> (r: Result<Aes128Key, WireError>)
    ensures
        b@.len() == 16 ==> (r matches Ok(k) && k@ == b@),
        b@.len() != 16 ==> r == Err::<Aes128Key, WireError>(WireError::WrongLength),
{
    if b.len() != 16 {
        return Err(WireError::WrongLength);
    }
    let key = crate::crypto::block_at(b.as_slice(), 0);
    assert(b@.subrange(0, 16) =~= b@);
    Ok(key)
}

/// Decodes a fixed-size key field: base64 of exactly sixteen bytes.
pub fn decode_key(text: &str) -> (r: Result<Aes128Key, WireError>)
    ensures
        match base64_decoded(text@) {
            Some(b) => if b.len() == 16 {
                r matches Ok(k) && k@ == b
            } else {
                r == Err::<Aes128Key, WireError>(WireError::WrongLength)
            },
            None => r == Err::<Aes128Key, WireError>(WireError::InvalidBase64),
        },
{
    let b = match base64_decode(text) {
        Some(b) => b,
        None => return Err(WireError::InvalidBase64),
    };
    key_of_bytes(&b)
}

/// Decodes an optional key field: an absent or empty field is no key,
/// anything else must be base64 of exactly sixteen bytes.
pub fn decode_optional_key(text: Option<&str>) -> (r: Result<Option<Aes128Key>, WireError>)
    ensures
        match text {
            None => r == Ok::<Option<Aes128Key>, WireError>(None),
            Some(t) => match base64_decoded(t@) {
                Some(b) => if b.len() == 0 {
                    r == Ok::<Option<Aes128Key>, WireError>(None)
                } else if b.len() == 16 {
                    r matches Ok(Some(k)) && k@ == b
                } else {
                    r == Err::<Option<Aes128Key>, WireError>(WireError::WrongLength)
                },
                None => r == Err::<Option<Aes128Key>, WireError>(WireError::InvalidBase64),
            },
        },
{
    let t = match text {
        Some(t) => t,
        None => return Ok(None),
    };
    let b = match base64_decode(t) {
        Some(b) => b,
        None => return Err(WireError::InvalidBase64),
    };
    if b.len() == 0 {
        return Ok(None);
    }
    match key_of_bytes(&b) {
        Ok(k) => Ok(Some(k)),
        Err(e) => Err(e),
    }
}

/// Decodes an optional variable-length field: an absent or empty field is
/// no value.
pub fn decode_optional_bytes(text: Option<&str>) -> (r: Result<Option<Vec<u8>>, WireError>)
    ensures
        match text {
            None => r == Ok::<Option<Vec<u8>>, WireError>(None),
            Some(t) => match base64_decoded(t@) {
                Some(b) => if b.len() == 0 {
                    r == Ok::<Option<Vec<u8>>, WireError>(None)
                } else {
                    r matches Ok(Some(v)) && v@ == b
                },
                None => r == Err::<Option<Vec<u8>>, WireError>(WireError::InvalidBase64),
            },
        },
{
    let t = match text {
        Some(t) => t,
        None => return Ok(None),
    };
    let b = match base64_decode(t) {
        Some(b) => b,
        None => return Err(WireError::InvalidBase64),
    };
    if b.len() == 0 {
        Ok(None)
    } else {
        Ok(Some(b))
    }
}

/// The verifier that proves knowledge of the passphrase key when a session
/// is opened: the URL-safe, unpadded base64 of its SHA-256 digest.
pub fn auth_verifier(passphrase_key: &Aes128Key) -> (r: String)
    ensures
        r@ == base64_url_nopad_encoded(sha256_of(passphrase_key@)),
{
    let hash = sha256(passphrase_key);
    base64_url_nopad_encode(&hash)
}

/// The wire code of each group type.
pub open spec fn group_type_code(t: GroupType) -> u8 {
    match t {
        GroupType::User => 0,
        GroupType::Admin => 1,
        GroupType::MailingList => 2,
        GroupType::Customer => 3,
        GroupType::External => 4,
        GroupType::Mail => 5,
        GroupType::Contact => 6,
        GroupType::File => 7,
        GroupType::LocalAdmin => 8,
        GroupType::Calendar => 9,
        GroupType::Template => 10,
        GroupType::ContactList => 11,
    }
}

/// The wire code of each permission type.
pub open spec fn permission_type_code(t: PermissionType) -> u8 {
    match t {
        PermissionType::Public => 0,
        PermissionType::Symmetric => 1,
        PermissionType::PublicSymmetric => 2,
        PermissionType::Unencrypted => 3,
        PermissionType::External => 4,
        PermissionType::OwnerList => 5,
    }
}

/// The wire code of each bucket permission type.
pub open spec fn bucket_permission_type_code(t: BucketPermissionType) -> u8 {
    match t {
        BucketPermissionType::Public => 2,
        BucketPermissionType::External => 3,
    }
}

/// The wire code of each folder type.
pub open spec fn mail_folder_type_code(t: MailFolderType) -> u8 {
    match t {
        MailFolderType::Custom => 0,
        MailFolderType::Inbox => 1,
        MailFolderType::Sent => 2,
        MailFolderType::Trash => 3,
        MailFolderType::Archive => 4,
        MailFolderType::Spam => 5,
        MailFolderType::Draft => 6,
    }
}

/// The wire code of each operation type.
pub open spec fn operation_type_code(t: OperationType) -> u8 {
    match t {
        OperationType::Create => 0,
        OperationType::Update => 1,
        OperationType::Delete => 2,
    }
}

impl GroupType {
    /// The group type with wire code `code`.
    pub fn from_code(code: u8) -> (r: Option<GroupType>)
        ensures
            match r {
                Some(t) => group_type_code(t) == code,
                None => code >= 12,
            },
    {
        match code {
            0 => Some(GroupType::User),
            1 => Some(GroupType::Admin),
            2 => Some(GroupType::MailingList),
            3 => Some(GroupType::Customer),
            4 => Some(GroupType::External),
            5 => Some(GroupType::Mail),
            6 => Some(GroupType::Contact),
            7 => Some(GroupType::File),
            8 => Some(GroupType::LocalAdmin),
            9 => Some(GroupType::Calendar),
            10 => Some(GroupType::Template),
            11 => Some(GroupType::ContactList),
            _ => None,
        }
    }
}

impl PermissionType {
    /// The permission type with wire code `code`.
    pub fn from_code(code: u8) -> (r: Option<PermissionType>)
        ensures
            match r {
                Some(t) => permission_type_code(t) == code,
                None => code >= 6,
            },
    {
        match code {
            0 => Some(PermissionType::Public),
            1 => Some(PermissionType::Symmetric),
            2 => Some(PermissionType::PublicSymmetric),
            3 => Some(PermissionType::Unencrypted),
            4 => Some(PermissionType::External),
            5 => Some(PermissionType::OwnerList),
            _ => None,
        }
    }
}

impl BucketPermissionType {
    /// The bucket permission type with wire code `code`.
    pub fn from_code(code: u8) -> (r: Option<BucketPermissionType>)
        ensures
            match r {
                Some(t) => bucket_permission_type_code(t) == code,
                None => code != 2 && code != 3,
            },
    {
        match code {
            2 => Some(BucketPermissionType::Public),
            3 => Some(BucketPermissionType::External),
            _ => None,
        }
    }
}

impl MailFolderType {
    /// The folder type with wire code `code`.
    pub fn from_code(code: u8) -> (r: Option<MailFolderType>)
        ensures
            match r {
                Some(t) => mail_folder_type_code(t) == code,
                None => code >= 7,
            },
    {
        match code {
            0 => Some(MailFolderType::Custom),
            1 => Some(MailFolderType::Inbox),
            2 => Some(MailFolderType::Sent),
            3 => Some(MailFolderType::Trash),
            4 => Some(MailFolderType::Archive),
            5 => Some(MailFolderType::Spam),
            6 => Some(MailFolderType::Draft),
            _ => None,
        }
    }
}

impl OperationType {
    /// The operation type with wire code `code`.
    pub fn from_code(code: u8) -> (r: Option<OperationType>)
        ensures
            match r {
                Some(t) => operation_type_code(t) == code,
                None => code >= 3,
            },
    {
        match code {
            0 => Some(OperationType::Create),
            1 => Some(OperationType::Update),
            2 => Some(OperationType::Delete),
            _ => None,
        }
    }
}

} // verus!
