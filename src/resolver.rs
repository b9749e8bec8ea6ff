use vstd::prelude::*;
use crate::config::Account;
use crate::crypto::{
    block_at, decrypt_key, decrypt_rsa_key, rsa_decrypt, spec_rsa_decrypt, spec_rsa_private_key,
    spec_unwrap_key,
};
use crate::types::{
    failed_with, Aes128Key, BucketPermission, BucketPermissionType, DecryptError, Folder, Group, Id,
    Mail,
    Permission, PermissionType,
};
use crate::mailbox::{inbox_lists, spec_inbox_lists, string_views};
use crate::user::{spec_unlocked_keys, User};

verus! {

/// The index of the first element of `s` that satisfies `p`.
pub open spec fn first_index<A>(s: Seq<A>, p: spec_fn(A) -> bool) -> Option<nat>
    decreases s.len(),
{
    if s.len() == 0 {
        None
    } else if p(s[0]) {
        Some(0)
    } else {
        match first_index(s.drop_first(), p) {
            Some(i) => Some(i + 1),
            None => None,
        }
    }
}

proof fn lemma_first_index_at<A>(s: Seq<A>, p: spec_fn(A) -> bool, i: int)
    requires
        0 <= i < s.len(),
        p(s[i]),
        forall|j: int| 0 <= j < i ==> !p(#[trigger] s[j]),
    ensures
        first_index(s, p) == Some(i as nat),
    decreases i,
{
    if i > 0 {
        assert(!p(s[0]));
        let t = s.drop_first();
        assert forall|j: int| 0 <= j < i - 1 implies !p(#[trigger] t[j]) by {
            assert(t[j] == s[j + 1]);
        }
        lemma_first_index_at(t, p, i - 1);
    }
}

proof fn lemma_first_index_none<A>(s: Seq<A>, p: spec_fn(A) -> bool)
    requires
        forall|j: int| 0 <= j < s.len() ==> !p(#[trigger] s[j]),
    ensures
        first_index(s, p) is None,
    decreases s.len(),
{
    if s.len() > 0 {
        assert(!p(s[0]));
        let t = s.drop_first();
        assert forall|j: int| 0 <= j < t.len() implies !p(#[trigger] t[j]) by {
            assert(t[j] == s[j + 1]);
        }
        lemma_first_index_none(t, p);
    }
}

/// Whether a symmetric permission gives the session key directly: it is
/// `Symmetric` or `PublicSymmetric`, its owner group key is known, and it
/// carries a wrapped session key.
pub open spec fn symmetric_usable(keys: Map<Seq<char>, Seq<u8>>, p: Permission) -> bool {
    &&& (p.permission_type == PermissionType::Symmetric || p.permission_type
        == PermissionType::PublicSymmetric)
    &&& (p.owner_group matches Some(g) && keys.contains_key(g@))
    &&& p.owner_enc_session_key is Some
}

/// The index of the first usable symmetric permission.
pub open spec fn first_symmetric(keys: Map<Seq<char>, Seq<u8>>, perms: Seq<Permission>) -> Option<
    nat,
> {
    first_index(perms, |p: Permission| symmetric_usable(keys, p))
}

/// The index of the first permission that shares through a bucket.
pub open spec fn first_bucket_sharing(perms: Seq<Permission>) -> Option<nat> {
    first_index(perms, |p: Permission| shares_through_bucket(p))
}

/// The session key that a usable symmetric permission gives.
pub open spec fn symmetric_key(keys: Map<Seq<char>, Seq<u8>>, p: Permission) -> Seq<u8> {
    spec_unwrap_key(keys[p.owner_group->Some_0@], p.owner_enc_session_key->Some_0@)
}

/// Whether a permission shares through a bucket.
pub open spec fn shares_through_bucket(p: Permission) -> bool {
    p.permission_type == PermissionType::Public || p.permission_type == PermissionType::External
}

/// Whether a bucket permission has the variant of the permission.
pub open spec fn same_variant(p: PermissionType, b: BucketPermissionType) -> bool {
    (p == PermissionType::Public && b == BucketPermissionType::Public) || (p
        == PermissionType::External && b == BucketPermissionType::External)
}

/// The bucket permission that a permission resolves through: the first of
/// its own variant, else the first one.
pub open spec fn spec_select_bucket_permission(
    p: PermissionType,
    bps: Seq<BucketPermission>,
) -> Option<nat> {
    match first_index(bps, |b: BucketPermission| same_variant(p, b.permission_type)) {
        Some(i) => Some(i),
        None => if bps.len() > 0 {
            Some(0)
        } else {
            None
        },
    }
}

/// The session key that an external bucket permission gives: the bucket key
/// is unwrapped with the owner group key when the owner-wrapped key is
/// present, else with the user group key; it then unwraps the session key.
pub open spec fn spec_external_bucket(
    keys: Map<Seq<char>, Seq<u8>>,
    user_group: Seq<char>,
    bp: BucketPermission,
    perm: Permission,
) -> Result<Seq<u8>, DecryptError> {
    let bucket_key: Result<Seq<u8>, DecryptError> = match bp.owner_enc_bucket_key {
        Some(w) => match bp.owner_group {
            Some(g) => if keys.contains_key(g@) {
                Ok(spec_unwrap_key(keys[g@], w@))
            } else {
                Err(DecryptError::ResolutionExhausted)
            },
            None => Err(DecryptError::ResolutionExhausted),
        },
        None => match bp.sym_enc_bucket_key {
            Some(w) => if keys.contains_key(user_group) {
                Ok(spec_unwrap_key(keys[user_group], w@))
            } else {
                Err(DecryptError::ResolutionExhausted)
            },
            None => Err(DecryptError::MalformedKeyMaterial),
        },
    };
    match bucket_key {
        Ok(bk) => match perm.bucket_enc_session_key {
            Some(w) => Ok(spec_unwrap_key(bk, w@)),
            None => Err(DecryptError::MalformedKeyMaterial),
        },
        Err(e) => Err(e),
    }
}

/// The view of a key result.
pub open spec fn key_result(r: Result<Aes128Key, DecryptError>) -> Result<Seq<u8>, DecryptError> {
    match r {
        Ok(k) => Ok(k@),
        Err(e) => Err(e),
    }
}

/// Where the resolution of a mail's session key stands: finished, or
/// waiting for the record it names.
pub enum ResolveStep {
    /// The session key.
    Resolved(Aes128Key),
    /// Resolution of this mail failed; other mails are not affected.
    Failed(DecryptError),
    /// The permission list with this identifier is needed next.
    FetchPermissions(Id),
    /// The bucket permissions of the permission at index `permission` of the
    /// permission list are needed next.
    FetchBucketPermissions { permission: usize, bucket_permissions: Id },
    /// The group of the bucket permission at index `bucket_permission` of the
    /// bucket permission list is needed next.
    FetchGroup { bucket_permission: usize, group: Id },
}

/// The step that a key result finishes with.
pub open spec fn finished(r: Result<Seq<u8>, DecryptError>, step: ResolveStep) -> bool {
    match r {
        Ok(k) => step matches ResolveStep::Resolved(x) && x@ == k,
        Err(e) => step == ResolveStep::Failed(e),
    }
}

/// The bucket key that an RSA plaintext carries: it must be exactly sixteen
/// bytes long.
pub fn bucket_key_from_plaintext(plain: &Vec<u8>) -> (r: Result<Aes128Key, DecryptError>)
    ensures
        plain@.len() == 16 ==> (r matches Ok(k) && k@ == plain@),
        plain@.len() != 16 ==> failed_with(r, DecryptError::MalformedKeyMaterial),
{
    if plain.len() != 16 {
        return Err(DecryptError::MalformedKeyMaterial);
    }
    let key = block_at(plain.as_slice(), 0);
    assert(plain@.subrange(0, 16) =~= plain@);
    Ok(key)
}

/// The bucket key that the first key pair of `group` recovers from
/// `pub_enc_bucket_key`: the group key must be known and the group must have
/// a key pair; its private key blob is decrypted and rebuilt, then it
/// decrypts the bucket key (RSA-OAEP), which must be sixteen bytes long.
pub open spec fn spec_key_pair_bucket_key(
    keys: Map<Seq<char>, Seq<u8>>,
    group: Group,
    pub_enc_bucket_key: Seq<u8>,
) -> Result<Seq<u8>, DecryptError> {
    if !keys.contains_key(group.id@) {
        Err(DecryptError::ResolutionExhausted)
    } else if group.keys@.len() == 0 {
        Err(DecryptError::MalformedKeyMaterial)
    } else {
        match spec_rsa_private_key(keys[group.id@], group.keys@[0].sym_enc_priv_key@) {
            Err(e) => Err(e),
            Ok(parts) => match spec_rsa_decrypt(parts, pub_enc_bucket_key) {
                Err(e) => Err(e),
                Ok(b) => if b.len() == 16 {
                    Ok(b)
                } else {
                    Err(DecryptError::MalformedKeyMaterial)
                },
            },
        }
    }
}

/// The session key of the public bucket path: both wrapped keys must be
/// present; the bucket key recovered through the group's key pair unwraps
/// the session key.
pub open spec fn spec_public_bucket(
    keys: Map<Seq<char>, Seq<u8>>,
    bp: BucketPermission,
    perm: Permission,
    group: Group,
) -> Result<Seq<u8>, DecryptError> {
    match (bp.pub_enc_bucket_key, perm.bucket_enc_session_key) {
        (Some(pk), Some(s)) => match spec_key_pair_bucket_key(keys, group, pk@) {
            Ok(bk) => Ok(spec_unwrap_key(bk, s@)),
            Err(e) => Err(e),
        },
        _ => Err(DecryptError::MalformedKeyMaterial),
    }
}

/// The first step for `mail`: the owner path resolves it when the mail
/// carries a wrapped session key and its owner group key is known;
/// otherwise its permissions are needed.
pub open spec fn spec_start_step(keys: Map<Seq<char>, Seq<u8>>, mail: Mail, r: ResolveStep) -> bool {
    if mail.owner_enc_session_key is Some && keys.contains_key(mail.owner_group@) {
        r matches ResolveStep::Resolved(k) && k@ == spec_unwrap_key(
            keys[mail.owner_group@],
            mail.owner_enc_session_key->Some_0@,
        )
    } else {
        r matches ResolveStep::FetchPermissions(id) && id@ == mail.permissions@
    }
}

/// The step once the permissions `perms` are known: the first usable
/// symmetric permission resolves; else the first public or external
/// permission needs its bucket permissions, or, without a bucket, resolution
/// is exhausted; without either, resolution is exhausted.
pub open spec fn spec_permissions_step(
    keys: Map<Seq<char>, Seq<u8>>,
    perms: Seq<Permission>,
    r: ResolveStep,
) -> bool {
    match first_symmetric(keys, perms) {
        Some(i) => r matches ResolveStep::Resolved(k) && k@ == symmetric_key(keys, perms[i as int]),
        None => match first_bucket_sharing(perms) {
            Some(i) => match perms[i as int].bucket {
                Some(b) => r matches ResolveStep::FetchBucketPermissions {
                    permission,
                    bucket_permissions,
                } && permission == i && bucket_permissions@ == b.bucket_permissions@,
                None => r == ResolveStep::Failed(DecryptError::ResolutionExhausted),
            },
            None => r == ResolveStep::Failed(DecryptError::ResolutionExhausted),
        },
    }
}

proof fn lemma_first_index_found<A>(s: Seq<A>, p: spec_fn(A) -> bool)
    requires
        first_index(s, p) is Some,
    ensures
        first_index(s, p)->Some_0 < s.len(),
        p(s[first_index(s, p)->Some_0 as int]),
    decreases s.len(),
{
    if !p(s[0]) {
        let t = s.drop_first();
        lemma_first_index_found(t, p);
        assert(t[first_index(t, p)->Some_0 as int] == s[first_index(t, p)->Some_0 + 1 as int]);
    }
}

/// A mail with no usable symmetric permission, and no public or external
/// permission that references a bucket, has no path to its key: its step is
/// `Failed(ResolutionExhausted)`, a value like any other result.
pub proof fn lemma_no_path_is_exhausted(
    keys: Map<Seq<char>, Seq<u8>>,
    perms: Seq<Permission>,
    r: ResolveStep,
)
    requires
        spec_permissions_step(keys, perms, r),
        forall|i: int| 0 <= i < perms.len() ==> !symmetric_usable(keys, #[trigger] perms[i]),
        forall|i: int|
            0 <= i < perms.len() && shares_through_bucket(#[trigger] perms[i]) ==> perms[i].bucket is None,
    ensures
        r == ResolveStep::Failed(DecryptError::ResolutionExhausted),
{
    let p = |x: Permission| symmetric_usable(keys, x);
    lemma_first_index_none(perms, p);
    assert(first_symmetric(keys, perms) is None);
    let q = |x: Permission| shares_through_bucket(x);
    if first_index(perms, q) is Some {
        lemma_first_index_found(perms, q);
    }
    assert(first_bucket_sharing(perms) == first_index(perms, q));
}

/// A client of the service: its account, access token, inbox lists and
/// unlocked user.
pub struct Client {
    pub config: Account,
    pub access_token: String,
    pub inboxes: Vec<String>,
    pub user: User,
}

impl Client {
    /// A client for the user of a new session: the user's group keys are
    /// unlocked with the passphrase key, and the client reads the mail lists
    /// of the inbox folders among `folders`, in order.
    pub fn new(
        config: Account,
        access_token: String,
        user: User,
        user_passphrase_key: &Aes128Key,
        folders: &Vec<Folder>,
    ) -> (r: Client)
        ensures
            r.config == config,
            r.access_token == access_token,
            r.user.id == user.id,
            r.user.memberships == user.memberships,
            r.user.user_group == user.user_group,
            r.user.group_keys@ == spec_unlocked_keys(
                user.group_keys@,
                user_passphrase_key@,
                user.user_group,
                user.memberships@,
            ),
            string_views(r.inboxes@) == spec_inbox_lists(folders@),
    {
        let mut user = user;
        user.unlock_group_keys(user_passphrase_key);
        let inboxes = inbox_lists(folders);
        Client { config, access_token, inboxes, user }
    }

    /// The first step for each mail of a batch. Each entry is the step that
    /// its mail gets alone: one mail's outcome does not affect the others.
    pub fn resolve_batch(&self, mails: &Vec<Mail>) -> (r: Vec<ResolveStep>)
        ensures
            r@.len() == mails@.len(),
            forall|i: int|
                0 <= i < mails@.len() ==> spec_start_step(
                    self.user.group_keys@,
                    mails@[i],
                    #[trigger] r@[i],
                ),
    {
        let mut out: Vec<ResolveStep> = Vec::new();
        let mut i: usize = 0;
        while i < mails.len()
            invariant
                i <= mails@.len(),
                out@.len() == i,
                forall|j: int|
                    0 <= j < i ==> spec_start_step(self.user.group_keys@, mails@[j], #[trigger] out@[j]),
            decreases mails@.len() - i,
        {
            let step = self.resolve_session_key(&mails[i]);
            out.push(step);
            i += 1;
        }
        out
    }

    /// The step after the permissions arrived, for each mail of a batch
    /// (`permission_lists[i]` holds the permissions of mail `i`). Each entry
    /// is the step that its mail gets alone, so a mail whose resolution is
    /// exhausted fails by itself and the others go on.
    pub fn resolve_batch_with_permissions(&self, permission_lists: &Vec<Vec<Permission>>) -> (r: Vec<
        ResolveStep,
    >)
        ensures
            r@.len() == permission_lists@.len(),
            forall|i: int|
                0 <= i < permission_lists@.len() ==> spec_permissions_step(
                    self.user.group_keys@,
                    permission_lists@[i]@,
                    #[trigger] r@[i],
                ),
    {
        let mut out: Vec<ResolveStep> = Vec::new();
        let mut i: usize = 0;
        while i < permission_lists.len()
            invariant
                i <= permission_lists@.len(),
                out@.len() == i,
                forall|j: int|
                    0 <= j < i ==> spec_permissions_step(
                        self.user.group_keys@,
                        permission_lists@[j]@,
                        #[trigger] out@[j],
                    ),
            decreases permission_lists@.len() - i,
        {
            let step = self.resolve_with_permissions(&permission_lists[i]);
            out.push(step);
            i += 1;
        }
        out
    }

    /// The owner path: the mail's wrapped session key unwrapped with its
    /// owner group key, when the mail carries the one and the user holds the
    /// other.
    pub fn resolve_session_key_owner(&self, mail: &Mail) -> (r: Option<Aes128Key>)
        ensures
            match r {
                Some(k) => mail.owner_enc_session_key is Some
                    && self.user.group_keys@.contains_key(mail.owner_group@) && k@
                    == spec_unwrap_key(
                    self.user.group_keys@[mail.owner_group@],
                    mail.owner_enc_session_key->Some_0@,
                ),
                None => mail.owner_enc_session_key is None
                    || !self.user.group_keys@.contains_key(mail.owner_group@),
            },
    {
        let key = match mail.owner_enc_session_key {
            Some(k) => k,
            None => return None,
        };
        match self.user.get_group_key(&mail.owner_group) {
            Some(gk) => Some(decrypt_key(&gk, &key)),
            None => None,
        }
    }

    /// The first step of resolving a mail's session key. The owner path
    /// comes first and needs no record; otherwise the mail's permissions
    /// are needed.
    pub fn resolve_session_key(&self, mail: &Mail) -> (r: ResolveStep)
        ensures
            spec_start_step(self.user.group_keys@, *mail, r),
    {
        match self.resolve_session_key_owner(mail) {
            Some(k) => ResolveStep::Resolved(k),
            None => ResolveStep::FetchPermissions(mail.permissions.clone()),
        }
    }

    /// The symmetric path: the session key of the first usable symmetric
    /// permission.
    pub fn try_symmetric_permission(&self, perms: &Vec<Permission>) -> (r: Option<Aes128Key>)
        ensures
            match first_symmetric(self.user.group_keys@, perms@) {
                Some(i) => r matches Some(k) && k@ == symmetric_key(
                    self.user.group_keys@,
                    perms@[i as int],
                ),
                None => r is None,
            },
    {
        let ghost keys = self.user.group_keys@;
        let ghost p = |p: Permission| symmetric_usable(keys, p);
        let mut i: usize = 0;
        while i < perms.len()
            invariant
                i <= perms@.len(),
                keys == self.user.group_keys@,
                p == (|p: Permission| symmetric_usable(keys, p)),
                forall|j: int| 0 <= j < i ==> !p(#[trigger] perms@[j]),
            decreases perms@.len() - i,
        {
            let perm = &perms[i];
            if perm.permission_type == PermissionType::Symmetric || perm.permission_type
                == PermissionType::PublicSymmetric {
                if let Some(wrapped) = perm.owner_enc_session_key {
                    if let Some(group) = &perm.owner_group {
                        if let Some(gk) = self.user.get_group_key(group) {
                            proof {
                                lemma_first_index_at(perms@, p, i as int);
                            }
                            return Some(decrypt_key(&gk, &wrapped));
                        }
                    }
                }
            }
            i += 1;
        }
        proof {
            lemma_first_index_none(perms@, p);
        }
        None
    }

    /// The step after the permissions arrived: the symmetric path, else the
    /// first public or external permission, whose bucket permissions are then
    /// needed. Without either, resolution is exhausted.
    pub fn resolve_with_permissions(&self, perms: &Vec<Permission>) -> (r: ResolveStep)
        ensures
            spec_permissions_step(self.user.group_keys@, perms@, r),
    {
        match self.try_symmetric_permission(perms) {
            Some(k) => return ResolveStep::Resolved(k),
            None => {},
        }
        assert(first_symmetric(self.user.group_keys@, perms@) is None);
        let ghost p = |p: Permission| shares_through_bucket(p);
        let mut i: usize = 0;
        while i < perms.len()
            invariant
                i <= perms@.len(),
                p == (|p: Permission| shares_through_bucket(p)),
                first_symmetric(self.user.group_keys@, perms@) is None,
                forall|j: int| 0 <= j < i ==> !p(#[trigger] perms@[j]),
            decreases perms@.len() - i,
        {
            let perm = &perms[i];
            if perm.permission_type == PermissionType::Public || perm.permission_type
                == PermissionType::External {
                proof {
                    lemma_first_index_at(perms@, p, i as int);
                }
                return match &perm.bucket {
                    Some(b) => ResolveStep::FetchBucketPermissions {
                        permission: i,
                        bucket_permissions: b.bucket_permissions.clone(),
                    },
                    None => ResolveStep::Failed(DecryptError::ResolutionExhausted),
                };
            }
            i += 1;
        }
        proof {
            lemma_first_index_none(perms@, p);
        }
        ResolveStep::Failed(DecryptError::ResolutionExhausted)
    }

    /// The index of the bucket permission that `perm` resolves through.
    pub fn select_bucket_permission(perm: &Permission, bps: &Vec<BucketPermission>) -> (r: Option<
        usize,
    >)
        ensures
            match r {
                Some(i) => spec_select_bucket_permission(perm.permission_type, bps@) == Some(
                    i as nat,
                ),
                None => spec_select_bucket_permission(perm.permission_type, bps@) is None,
            },
            r matches Some(i) ==> i < bps@.len(),
    {
        let ghost p = |b: BucketPermission| same_variant(perm.permission_type, b.permission_type);
        let mut i: usize = 0;
        while i < bps.len()
            invariant
                i <= bps@.len(),
                p == (|b: BucketPermission| same_variant(perm.permission_type, b.permission_type)),
                forall|j: int| 0 <= j < i ==> !p(#[trigger] bps@[j]),
            decreases bps@.len() - i,
        {
            let own = (perm.permission_type == PermissionType::Public && bps[i].permission_type
                == BucketPermissionType::Public) || (perm.permission_type
                == PermissionType::External && bps[i].permission_type
                == BucketPermissionType::External);
            if own {
                proof {
                    lemma_first_index_at(bps@, p, i as int);
                }
                return Some(i);
            }
            i += 1;
        }
        proof {
            lemma_first_index_none(bps@, p);
        }
        if bps.len() > 0 {
            Some(0)
        } else {
            None
        }
    }

    /// The external bucket path: the bucket key comes from the owner-wrapped
    /// key under the owner group key if present, else from the user-wrapped
    /// key under the user group key; it unwraps the session key.
    pub fn resolve_external_bucket(&self, bucket_perm: &BucketPermission, perm: &Permission) -> (r:
        Result<Aes128Key, DecryptError>)
        ensures
            key_result(r) == spec_external_bucket(
                self.user.group_keys@,
                self.user.user_group.group@,
                *bucket_perm,
                *perm,
            ),
    {
        let bucket_key = if let Some(bk) = bucket_perm.owner_enc_bucket_key {
            let group = match &bucket_perm.owner_group {
                Some(g) => g,
                None => return Err(DecryptError::ResolutionExhausted),
            };
            match self.user.get_group_key(group) {
                Some(gk) => decrypt_key(&gk, &bk),
                None => return Err(DecryptError::ResolutionExhausted),
            }
        } else if let Some(sym) = bucket_perm.sym_enc_bucket_key {
            match self.user.get_group_key(&self.user.user_group.group) {
                Some(ugk) => decrypt_key(&ugk, &sym),
                None => return Err(DecryptError::ResolutionExhausted),
            }
        } else {
            return Err(DecryptError::MalformedKeyMaterial);
        };
        match perm.bucket_enc_session_key {
            Some(msg) => Ok(decrypt_key(&bucket_key, &msg)),
            None => Err(DecryptError::MalformedKeyMaterial),
        }
    }

    /// The step after the bucket permissions of `perm` arrived. An external
    /// bucket permission finishes; a public one needs its group next, once
    /// the public-key-wrapped bucket key and the bucket-wrapped session key
    /// are known to be present.
    pub fn resolve_with_bucket_permissions(
        &self,
        perm: &Permission,
        bps: &Vec<BucketPermission>,
    ) -> (r: ResolveStep)
        ensures
            match spec_select_bucket_permission(perm.permission_type, bps@) {
                None => r == ResolveStep::Failed(DecryptError::ResolutionExhausted),
                Some(i) => {
                    let bp = bps@[i as int];
                    match bp.permission_type {
                        BucketPermissionType::External => finished(
                            spec_external_bucket(
                                self.user.group_keys@,
                                self.user.user_group.group@,
                                bp,
                                *perm,
                            ),
                            r,
                        ),
                        BucketPermissionType::Public => if bp.pub_enc_bucket_key is None
                            || perm.bucket_enc_session_key is None {
                            r == ResolveStep::Failed(DecryptError::MalformedKeyMaterial)
                        } else {
                            r matches ResolveStep::FetchGroup { bucket_permission, group }
                                && bucket_permission == i && group@ == bp.group@
                        },
                    }
                },
            },
    {
        let i = match Self::select_bucket_permission(perm, bps) {
            Some(i) => i,
            None => return ResolveStep::Failed(DecryptError::ResolutionExhausted),
        };
        let bp = &bps[i];
        match bp.permission_type {
            BucketPermissionType::External => match self.resolve_external_bucket(bp, perm) {
                Ok(k) => ResolveStep::Resolved(k),
                Err(e) => ResolveStep::Failed(e),
            },
            BucketPermissionType::Public => {
                if bp.pub_enc_bucket_key.is_none() || perm.bucket_enc_session_key.is_none() {
                    ResolveStep::Failed(DecryptError::MalformedKeyMaterial)
                } else {
                    ResolveStep::FetchGroup { bucket_permission: i, group: bp.group.clone() }
                }
            },
        }
    }
}

impl Client {
    /// Recovers a bucket key with the first key pair of `group`: its private
    /// key is decrypted under the group key, then it decrypts the
    /// public-key-wrapped bucket key (RSA-OAEP), which must be sixteen bytes.
    pub fn decrypt_bucket_key_key_pair_group(
        &self,
        group: &Group,
        pub_enc_bucket_key: &Vec<u8>,
    ) -> (r: Result<Aes128Key, DecryptError>)
        ensures
            key_result(r) == spec_key_pair_bucket_key(
                self.user.group_keys@,
                *group,
                pub_enc_bucket_key@,
            ),
    {
        let gk = match self.user.get_group_key(&group.id) {
            Some(k) => k,
            None => return Err(DecryptError::ResolutionExhausted),
        };
        if group.keys.len() == 0 {
            return Err(DecryptError::MalformedKeyMaterial);
        }
        let priv_key = match decrypt_rsa_key(&gk, group.keys[0].sym_enc_priv_key.as_slice()) {
            Ok(k) => k,
            Err(e) => return Err(e),
        };
        let plain = match rsa_decrypt(&priv_key, pub_enc_bucket_key.as_slice()) {
            Ok(p) => p,
            Err(e) => return Err(e),
        };
        bucket_key_from_plaintext(&plain)
    }

    /// The public bucket path, once the group of the bucket permission
    /// arrived: the bucket key recovered through the group's key pair
    /// unwraps the session key.
    pub fn resolve_public_bucket(
        &self,
        bucket_perm: &BucketPermission,
        perm: &Permission,
        group: &Group,
    ) -> (r: Result<Aes128Key, DecryptError>)
        ensures
            key_result(r) == spec_public_bucket(self.user.group_keys@, *bucket_perm, *perm, *group),
    {
        let pub_enc_bucket_key = match &bucket_perm.pub_enc_bucket_key {
            Some(k) => k,
            None => return Err(DecryptError::MalformedKeyMaterial),
        };
        let bucket_enc_session_key = match perm.bucket_enc_session_key {
            Some(k) => k,
            None => return Err(DecryptError::MalformedKeyMaterial),
        };
        let bucket_key = match self.decrypt_bucket_key_key_pair_group(group, pub_enc_bucket_key) {
            Ok(k) => k,
            Err(e) => return Err(e),
        };
        Ok(decrypt_key(&bucket_key, &bucket_enc_session_key))
    }
}

} // verus!
