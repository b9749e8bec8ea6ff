use vstd::prelude::*;

verus! {

/// Identifier of a record of the service.
pub type Id = String;

/// A symmetric key: always exactly sixteen bytes.
pub type Aes128Key = [u8; 16];

/// The failures of the decryption engine.
#[derive(Debug, Clone, Copy, PartialEq, Eq, Structural)]
pub enum DecryptError {
    /// The HMAC tag of an authenticated ciphertext does not match.
    AuthenticationFailed,
    /// A ciphertext is too short, not block aligned, or badly padded.
    MalformedCiphertext,
    /// Key material has the wrong size, field count or modulus length.
    MalformedKeyMaterial,
    /// No permission or bucket path produced a key.
    ResolutionExhausted,
    /// Decrypted bytes are not valid UTF-8 where text was expected.
    EncodingError,
}

/// The kind of a group the user belongs to.
#[derive(Debug, Clone, Copy, PartialEq, Eq, Structural)]
pub enum GroupType {
    User,
    Admin,
    MailingList,
    Customer,
    External,
    Mail,
    Contact,
    File,
    LocalAdmin,
    Calendar,
    Template,
    ContactList,
}

/// The kind of a permission record.
#[derive(Debug, Clone, Copy, PartialEq, Eq, Structural)]
pub enum PermissionType {
    Public,
    Symmetric,
    PublicSymmetric,
    Unencrypted,
    External,
    OwnerList,
}

/// The kind of a bucket permission record.
#[derive(Debug, Clone, Copy, PartialEq, Eq, Structural)]
pub enum BucketPermissionType {
    Public,
    External,
}

/// The kind of a mail folder.
#[derive(Debug, Clone, Copy, PartialEq, Eq, Structural)]
pub enum MailFolderType {
    Custom,
    Inbox,
    Sent,
    Trash,
    Archive,
    Spam,
    Draft,
}

/// The kind of change that a live update reports.
#[derive(Debug, Clone, Copy, PartialEq, Eq, Structural)]
pub enum OperationType {
    Create,
    Update,
    Delete,
}

/// A session opened with the service.
pub struct Session {
    pub access_token: String,
    pub user: Id,
}

/// What a client needs to authenticate its requests.
pub struct Credentials {
    pub login: String,
    pub access_token: String,
    pub user_id: Id,
}

/// A membership of the user in a group; the group key is wrapped with the
/// user group key when the membership carries it.
pub struct Membership {
    pub group: Id,
    pub group_type: GroupType,
    pub sym_enc_g_key: Option<Aes128Key>,
}

/// The user's own group; its key is wrapped with the passphrase key.
pub struct UserGroup {
    pub group: Id,
    pub group_info: (Id, Id),
    pub sym_enc_g_key: Aes128Key,
}

/// Information on a group.
pub struct GroupInfo {
    pub owner_enc_session_key: Aes128Key,
    pub owner_group: Id,
    pub permissions: Id,
}

/// A mail folder, with the list of its mails.
pub struct Folder {
    pub folder_type: MailFolderType,
    pub id: (String, String),
    pub mails: String,
    pub name: Vec<u8>,
    pub owner_enc_session_key: Aes128Key,
}

/// A sender or recipient of a mail; `name` is encrypted under the mail's
/// session key.
pub struct Sender {
    pub address: String,
    pub contact: (),
    pub id: String,
    pub name: Vec<u8>,
}

/// An encrypted mail record.
pub struct Mail {
    pub auth_status: String,
    pub attachments: Vec<(String, String)>,
    pub bucket_key: (),
    pub body: String,
    pub bcc_recipients: Vec<Sender>,
    pub cc_recipients: Vec<Sender>,
    pub confidential: Vec<u8>,
    pub conversation_entry: (String, String),
    pub different_envelope_sender: Option<Sender>,
    pub first_recipient: Sender,
    pub headers: Option<String>,
    pub id: (String, String),
    pub list_unsubscribe: Vec<u8>,
    pub mail_details: (),
    pub mail_details_draft: (),
    pub method: Vec<u8>,
    pub moved_time: String,
    pub owner_enc_session_key: Option<Aes128Key>,
    pub owner_group: Id,
    pub permissions: Id,
    pub phishing_status: String,
    pub received_date: String,
    pub recipient_count: String,
    pub reply_tos: Vec<Sender>,
    pub reply_type: String,
    pub sent_date: String,
    pub sender: Sender,
    pub state: String,
    pub subject: Vec<u8>,
    pub to_recipients: Vec<Sender>,
    pub unread: bool,
}

/// Whether a fetched mail lacks its owner-wrapped session key, so that it is
/// fetched again with a request that the service add one.
pub fn needs_owner_key_refetch(mail: &Mail) -> (r: bool)
    ensures
        r == mail.owner_enc_session_key is None,
{
    mail.owner_enc_session_key.is_none()
}

/// Marks a mail as read; returns whether it was unread, that is whether the
/// change has to be sent to the service.
pub fn mark_read(mail: &mut Mail) -> (changed: bool)
    ensures
        changed == old(mail).unread,
        *final(mail) == (Mail { unread: false, ..*old(mail) }),
{
    let changed = mail.unread;
    mail.unread = false;
    changed
}

/// The encrypted, compressed body of a mail.
pub struct Mailbody {
    pub text: Vec<u8>,
}

/// A reference to the bucket permissions that a permission shares through.
pub struct Bucket {
    pub bucket_permissions: Id,
}

/// A permission on a mail.
pub struct Permission {
    pub permission_type: PermissionType,
    pub bucket_enc_session_key: Option<Aes128Key>,
    pub owner_enc_session_key: Option<Aes128Key>,
    pub owner_group: Option<Id>,
    pub bucket: Option<Bucket>,
}

/// A permission on a bucket, which leads to the bucket key.
pub struct BucketPermission {
    pub permission_type: BucketPermissionType,
    pub owner_group: Option<Id>,
    pub owner_enc_bucket_key: Option<Aes128Key>,
    pub pub_enc_bucket_key: Option<Vec<u8>>,
    pub sym_enc_bucket_key: Option<Aes128Key>,
    pub group: Id,
}

/// A key pair of a group; the private key is encrypted under the group key.
pub struct KeyPair {
    pub sym_enc_priv_key: Vec<u8>,
}

/// A group and its key pairs.
pub struct Group {
    pub id: String,
    pub keys: Vec<KeyPair>,
}

/// One change reported by a live update.
pub struct Event {
    pub instance_id: String,
    pub instance_list_id: String,
    pub operation: OperationType,
    pub event_type: String,
}

/// A batch of changes reported by a live update.
pub struct EntityUpdate {
    pub event_batch: Vec<Event>,
}

/// Whether `r` is the failure `e`.
pub open spec fn failed_with<T>(r: Result<T, DecryptError>, e: DecryptError) -> bool {
    r matches Err(x) && x == e
}

} // verus!
