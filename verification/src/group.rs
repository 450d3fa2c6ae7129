//! Sync groups: owner-signed manifests that list members, their state and
//! sync direction, and the content-type policy; owner-signed tombstones that
//! end a group. Both are signed over a canonical length-prefixed encoding.

use vstd::prelude::*;
use vstd::string::*;
use vstd::utf8::encode_utf8;
use crate::codec::{append_bytes, be_u16, be_u32, be_u64, length_prefixed, put_bytes, put_string, put_u16, put_u32, put_u64, lemma_length_prefixed_split, lemma_split_fixed, lemma_be_u16_injective, lemma_be_u32_injective, lemma_be_u64_injective};
use crate::formats::{base64_data, base64_decode, parse_uuid, uuid_bytes};
use crate::crypto::{ed25519_key_accepted, ed25519_key_valid, ed25519_public_key, ed25519_signature, ed25519_verifies, ed25519_verify};
use crate::formats::{base64_encode, base64_text};
use crate::identity::Identity;
use crate::identity::{device_id_for_key, device_id_from_key};
use crate::order::{SortKey, seq_lt, sorted_by_key, strictly_sorted_by_key, sort_by_key, lemma_lt_total, lemma_lt_transitive, lemma_lt_irreflexive};
use crate::text::{trimmed, str_equal, bytes_equal, lemma_utf8_injective};

verus! {

pub const GROUP_ENCODING_VERSION: u16 = 1;
pub const MAX_GROUP_MEMBERS: usize = 16;

/// Where a member stands in a group.
#[derive(Clone, Copy, Debug, PartialEq, Eq, Structural)]
pub enum MemberState {
    Invited,
    Active,
    Removed,
}

/// Which way clipboard content flows between a member and the group.
#[derive(Clone, Copy, Debug, PartialEq, Eq, Structural)]
pub enum SyncDirection {
    Disabled,
    SendOnly,
    ReceiveOnly,
    Bidirectional,
}

impl SyncDirection {
    /// The member may send content to the group.
    pub open spec fn publishes(self) -> bool {
        self is SendOnly || self is Bidirectional
    }

    /// The member may receive content from the group.
    pub open spec fn subscribes(self) -> bool {
        self is ReceiveOnly || self is Bidirectional
    }

    pub open spec fn spec_code(self) -> u8 {
        match self {
            SyncDirection::Disabled => 0,
            SyncDirection::SendOnly => 1,
            SyncDirection::ReceiveOnly => 2,
            SyncDirection::Bidirectional => 3,
        }
    }

    pub fn can_publish(&self) -> (r: bool)
        ensures
            r == self.publishes(),
    {
        match self {
            SyncDirection::SendOnly | SyncDirection::Bidirectional => true,
            _ => false,
        }
    }

    pub fn can_subscribe(&self) -> (r: bool)
        ensures
            r == self.subscribes(),
    {
        match self {
            SyncDirection::ReceiveOnly | SyncDirection::Bidirectional => true,
            _ => false,
        }
    }

    /// The byte that stands for the direction in the canonical encoding.
    pub fn code(&self) -> (r: u8)
        ensures
            r == self.spec_code(),
    {
        match self {
            SyncDirection::Disabled => 0,
            SyncDirection::SendOnly => 1,
            SyncDirection::ReceiveOnly => 2,
            SyncDirection::Bidirectional => 3,
        }
    }
}

impl MemberState {
    pub open spec fn spec_code(self) -> u8 {
        match self {
            MemberState::Invited => 0,
            MemberState::Active => 1,
            MemberState::Removed => 2,
        }
    }

    /// The byte that stands for the state in the canonical encoding.
    pub fn code(&self) -> (r: u8)
        ensures
            r == self.spec_code(),
    {
        match self {
            MemberState::Invited => 0,
            MemberState::Active => 1,
            MemberState::Removed => 2,
        }
    }
}

/// Which content types a group carries, and how long offline content lives.
#[derive(Clone, Copy, Debug, PartialEq, Eq, Structural)]
pub struct GroupPolicy {
    pub allow_text: bool,
    pub allow_images: bool,
    pub allow_html: bool,
    pub allow_files: bool,
    pub offline_ttl_seconds: u64,
}

/// One device in a group. Keys and certificates are Base64 text.
#[derive(Debug)]
pub struct GroupMember {
    pub device_id: String,
    pub device_name: String,
    pub platform: String,
    pub public_key: String,
    pub certificate: String,
    pub joined_at: String,
    pub state: MemberState,
    pub direction: SyncDirection,
}

impl Clone for GroupMember {
    fn clone(&self) -> (copy: Self)
        ensures
            copy == *self,
    {
        GroupMember {
            device_id: self.device_id.clone(),
            device_name: self.device_name.clone(),
            platform: self.platform.clone(),
            public_key: self.public_key.clone(),
            certificate: self.certificate.clone(),
            joined_at: self.joined_at.clone(),
            state: self.state,
            direction: self.direction,
        }
    }
}

impl crate::order::SortKey for GroupMember {
    open spec fn key(&self) -> Seq<u8> {
        encode_utf8(self.device_id@)
    }

    fn key_bytes(&self) -> (bytes: &[u8]) {
        self.device_id.as_str().as_bytes()
    }
}

/// A copy of a member list.
pub fn clone_members(members: &Vec<GroupMember>) -> (copy: Vec<GroupMember>)
    ensures
        copy@ == members@,
{
    let mut copy: Vec<GroupMember> = Vec::new();
    let mut i: usize = 0;
    while i < members.len()
        invariant
            i <= members@.len(),
            copy@ == members@.take(i as int),
        decreases members@.len() - i,
    {
        copy.push(members[i].clone());
        i = i + 1;
        proof {
            assert(copy@ =~= members@.take(i as int));
        }
    }
    proof {
        assert(members@.take(members@.len() as int) =~= members@);
    }
    copy
}

/// The owner's statement of who is in a group and what it carries.
#[derive(Debug)]
pub struct GroupManifest {
    pub encoding_version: u16,
    pub group_id: String,
    pub owner_device_id: String,
    pub name: String,
    pub revision: u64,
    pub membership_epoch: u64,
    pub policy: GroupPolicy,
    pub members: Vec<GroupMember>,
}

impl GroupManifest {
    /// Equal fields, members compared by their sequence.
    pub open spec fn same_as(self, other: GroupManifest) -> bool {
        &&& self.encoding_version == other.encoding_version
        &&& self.group_id == other.group_id
        &&& self.owner_device_id == other.owner_device_id
        &&& self.name == other.name
        &&& self.revision == other.revision
        &&& self.membership_epoch == other.membership_epoch
        &&& self.policy == other.policy
        &&& self.members@ == other.members@
    }
}

impl Clone for GroupManifest {
    fn clone(&self) -> (copy: Self)
        ensures
            copy.same_as(*self),
    {
        let members = clone_members(&self.members);
        GroupManifest {
            encoding_version: self.encoding_version,
            group_id: self.group_id.clone(),
            owner_device_id: self.owner_device_id.clone(),
            name: self.name.clone(),
            revision: self.revision,
            membership_epoch: self.membership_epoch,
            policy: self.policy,
            members,
        }
    }
}

/// The owner's signed statement that a group has ended.
#[derive(Debug)]
pub struct GroupTombstone {
    pub encoding_version: u16,
    pub group_id: String,
    pub owner_device_id: String,
    pub revision: u64,
    pub membership_epoch: u64,
    pub deleted_at: String,
}

impl Clone for GroupTombstone {
    fn clone(&self) -> (copy: Self)
        ensures
            copy == *self,
    {
        GroupTombstone {
            encoding_version: self.encoding_version,
            group_id: self.group_id.clone(),
            owner_device_id: self.owner_device_id.clone(),
            revision: self.revision,
            membership_epoch: self.membership_epoch,
            deleted_at: self.deleted_at.clone(),
        }
    }
}

// ---------------------------------------------------------------------------
// Canonical encoding

/// A field fits the `u32` length prefix.
pub open spec fn fits(bytes: Seq<u8>) -> bool {
    bytes.len() <= u32::MAX
}

/// The bytes that Base64 text decodes to; a text too long for the decoder
/// to size (over `usize::MAX / 8` bytes) decodes to nothing.
pub open spec fn decoded(text: Seq<char>) -> Option<Seq<u8>> {
    if encode_utf8(text).len() <= usize::MAX / 8 {
        base64_data(encode_utf8(text))
    } else {
        None
    }
}

pub open spec fn manifest_magic() -> Seq<u8> {
    encode_utf8("localdrop-group-manifest-v1\0"@)
}

pub open spec fn tombstone_magic() -> Seq<u8> {
    encode_utf8("localdrop-group-tombstone-v1\0"@)
}

/// A member's fields can all be encoded.
pub open spec fn member_encodable(m: GroupMember) -> bool {
    &&& fits(encode_utf8(m.device_id@))
    &&& fits(encode_utf8(m.device_name@))
    &&& fits(encode_utf8(m.platform@))
    &&& decoded(m.public_key@) is Some
    &&& fits(decoded(m.public_key@)->0)
    &&& decoded(m.certificate@) is Some
    &&& fits(decoded(m.certificate@)->0)
    &&& fits(encode_utf8(m.joined_at@))
}

/// A member's canonical encoding.
#[verifier::opaque]
pub open spec fn member_bytes(m: GroupMember) -> Seq<u8> {
    length_prefixed(encode_utf8(m.device_id@)) + length_prefixed(encode_utf8(m.device_name@))
        + length_prefixed(encode_utf8(m.platform@)) + length_prefixed(decoded(m.public_key@)->0)
        + length_prefixed(decoded(m.certificate@)->0) + length_prefixed(encode_utf8(m.joined_at@))
        + seq![m.state.spec_code(), m.direction.spec_code()]
}

/// The members' encodings, in order.
pub open spec fn members_bytes(members: Seq<GroupMember>) -> Seq<u8>
    decreases members.len(),
{
    if members.len() == 0 {
        Seq::empty()
    } else {
        member_bytes(members[0]) + members_bytes(members.drop_first())
    }
}

pub proof fn lemma_members_bytes_push(members: Seq<GroupMember>, m: GroupMember)
    ensures
        members_bytes(members.push(m)) == members_bytes(members) + member_bytes(m),
    decreases members.len(),
{
    if members.len() == 0 {
        let single = members.push(m);
        assert(single.drop_first() =~= Seq::<GroupMember>::empty());
        assert(single[0] == m);
        assert(members_bytes(single.drop_first()) == Seq::<u8>::empty());
        assert(members_bytes(single) == member_bytes(m) + members_bytes(single.drop_first()));
        assert(members_bytes(single) =~= member_bytes(m));
        assert(members_bytes(members) == Seq::<u8>::empty());
    } else {
        assert(members.push(m).drop_first() =~= members.drop_first().push(m));
        lemma_members_bytes_push(members.drop_first(), m);
        assert(members_bytes(members.push(m)) =~= members_bytes(members) + member_bytes(m));
    }
}

/// The manifest can be encoded: supported version, a UUID group id, and every
/// field short enough for its length prefix.
pub open spec fn manifest_encodable(m: GroupManifest) -> bool {
    &&& m.encoding_version == GROUP_ENCODING_VERSION
    &&& uuid_bytes(m.group_id@) is Some
    &&& uuid_bytes(m.group_id@)->0.len() == 16
    &&& fits(encode_utf8(m.owner_device_id@))
    &&& fits(encode_utf8(m.name@))
    &&& m.members@.len() <= u32::MAX
    &&& forall|i: int| 0 <= i < m.members@.len() ==> member_encodable(#[trigger] m.members@[i])
}

pub open spec fn policy_bytes(p: GroupPolicy) -> Seq<u8> {
    seq![
        if p.allow_text { 1u8 } else { 0u8 },
        if p.allow_images { 1u8 } else { 0u8 },
        if p.allow_html { 1u8 } else { 0u8 },
        if p.allow_files { 1u8 } else { 0u8 },
    ] + be_u64(p.offline_ttl_seconds)
}

/// The manifest's fields before its members.
#[verifier::opaque]
pub open spec fn manifest_head(m: GroupManifest) -> Seq<u8> {
    manifest_magic() + be_u16(m.encoding_version) + uuid_bytes(m.group_id@)->0
        + length_prefixed(encode_utf8(m.owner_device_id@)) + be_u64(m.revision)
        + be_u64(m.membership_epoch) + length_prefixed(encode_utf8(m.name@))
        + policy_bytes(m.policy) + be_u32(m.members@.len() as u32)
}

/// The manifest's canonical encoding, the bytes that the owner signs.
#[verifier::opaque]
pub open spec fn manifest_bytes(m: GroupManifest) -> Seq<u8> {
    manifest_head(m) + members_bytes(m.members@) + seq![1u8]
}

/// The tombstone can be encoded.
pub open spec fn tombstone_encodable(t: GroupTombstone) -> bool {
    &&& t.encoding_version == GROUP_ENCODING_VERSION
    &&& uuid_bytes(t.group_id@) is Some
    &&& uuid_bytes(t.group_id@)->0.len() == 16
    &&& fits(encode_utf8(t.owner_device_id@))
    &&& fits(encode_utf8(t.deleted_at@))
}

/// The tombstone's canonical encoding, the bytes that the owner signs.
#[verifier::opaque]
pub open spec fn tombstone_bytes(t: GroupTombstone) -> Seq<u8> {
    tombstone_magic() + be_u16(t.encoding_version) + uuid_bytes(t.group_id@)->0
        + length_prefixed(encode_utf8(t.owner_device_id@)) + be_u64(t.revision)
        + be_u64(t.membership_epoch) + length_prefixed(encode_utf8(t.deleted_at@)) + seq![1u8]
}

/// Decodes Base64 text.
pub fn decode(value: &str) -> (bytes: Option<Vec<u8>>)
    ensures
        match bytes {
            Some(b) => decoded(value@) == Some(b@),
            None => decoded(value@) is None,
        },
{
    if value.as_bytes().len() > usize::MAX / 8 {
        return None;
    }
    base64_decode(value.as_bytes())
}

fn put_uuid(output: &mut Vec<u8>, value: &str) -> (result: Result<(), String>)
    ensures
        result is Ok <==> uuid_bytes(value@) is Some,
        result is Ok ==> uuid_bytes(value@)->0.len() == 16,
        result is Ok ==> final(output)@ == old(output)@ + uuid_bytes(value@)->0,
{
    match parse_uuid(value) {
        Some(bytes) => {
            append_bytes(output, &bytes);
            Ok(())
        },
        None => Err(String::from_str("同步组 ID 无效")),
    }
}

fn put_member(output: &mut Vec<u8>, member: &GroupMember) -> (result: Result<(), String>)
    ensures
        result is Ok <==> member_encodable(*member),
        result is Ok ==> final(output)@ == old(output)@ + member_bytes(*member),
{
    put_string(output, member.device_id.as_str())?;
    put_string(output, member.device_name.as_str())?;
    put_string(output, member.platform.as_str())?;
    let public_key = match decode(member.public_key.as_str()) {
        Some(bytes) => bytes,
        None => return Err(String::from_str("成员公钥编码无效")),
    };
    put_bytes(output, public_key.as_slice())?;
    let certificate = match decode(member.certificate.as_str()) {
        Some(bytes) => bytes,
        None => return Err(String::from_str("成员证书编码无效")),
    };
    put_bytes(output, certificate.as_slice())?;
    put_string(output, member.joined_at.as_str())?;
    output.push(member.state.code());
    output.push(member.direction.code());
    proof {
        reveal(member_bytes);
        assert(final(output)@ =~= old(output)@ + member_bytes(*member));
    }
    Ok(())
}

impl GroupManifest {
    /// The index of the first active member with id `device_id`.
    pub open spec fn active_index(self, device_id: Seq<char>) -> Option<int> {
        if exists|i: int| 0 <= i < self.members@.len() && #[trigger] self.members@[i].device_id@ == device_id
            && self.members@[i].state == MemberState::Active {
            let i = choose|i: int| 0 <= i < self.members@.len() && #[trigger] self.members@[i].device_id@ == device_id
                && self.members@[i].state == MemberState::Active
                && forall|j: int| 0 <= j < i ==> !(#[trigger] self.members@[j].device_id@ == device_id
                    && self.members@[j].state == MemberState::Active);
            Some(i)
        } else {
            None
        }
    }

    /// The first member that is active and has id `device_id`.
    pub fn active_member(&self, device_id: &str) -> (member: Option<&GroupMember>)
        ensures
            member is None <==> forall|i: int| 0 <= i < self.members@.len() ==> !(#[trigger] self.members@[i].device_id@ == device_id@
                && self.members@[i].state == MemberState::Active),
            member matches Some(m) ==> exists|i: int| 0 <= i < self.members@.len() && #[trigger] self.members@[i] == *m
                && m.device_id@ == device_id@ && m.state == MemberState::Active
                && forall|j: int| 0 <= j < i ==> !(#[trigger] self.members@[j].device_id@ == device_id@
                    && self.members@[j].state == MemberState::Active),
    {
        let mut i: usize = 0;
        while i < self.members.len()
            invariant
                i <= self.members@.len(),
                forall|j: int| 0 <= j < i ==> !(#[trigger] self.members@[j].device_id@ == device_id@
                    && self.members@[j].state == MemberState::Active),
            decreases self.members@.len() - i,
        {
            let member = &self.members[i];
            if crate::text::str_equal(member.device_id.as_str(), device_id) && member.state == MemberState::Active {
                return Some(member);
            }
            i = i + 1;
        }
        None
    }

    /// The canonical bytes that the owner signs.
    pub fn canonical_bytes(&self) -> (bytes: Result<Vec<u8>, String>)
        ensures
            bytes is Ok <==> manifest_encodable(*self),
            bytes matches Ok(b) ==> b@ == manifest_bytes(*self),
    {
        if self.encoding_version != GROUP_ENCODING_VERSION {
            return Err(String::from_str("不支持的同步组清单版本"));
        }
        let mut output: Vec<u8> = Vec::new();
        append_bytes(&mut output, "localdrop-group-manifest-v1\0".as_bytes());
        put_u16(&mut output, self.encoding_version);
        put_uuid(&mut output, self.group_id.as_str())?;
        put_string(&mut output, self.owner_device_id.as_str())?;
        put_u64(&mut output, self.revision);
        put_u64(&mut output, self.membership_epoch);
        put_string(&mut output, self.name.as_str())?;
        output.push(if self.policy.allow_text { 1u8 } else { 0u8 });
        output.push(if self.policy.allow_images { 1u8 } else { 0u8 });
        output.push(if self.policy.allow_html { 1u8 } else { 0u8 });
        output.push(if self.policy.allow_files { 1u8 } else { 0u8 });
        put_u64(&mut output, self.policy.offline_ttl_seconds);
        put_u32(&mut output, self.members.len())?;
        let ghost head = output@;
        proof {
            reveal(manifest_head);
            assert(head =~= manifest_head(*self));
        }
        let mut i: usize = 0;
        while i < self.members.len()
            invariant
                i <= self.members@.len(),
                output@ == head + members_bytes(self.members@.take(i as int)),
                forall|j: int| 0 <= j < i ==> member_encodable(#[trigger] self.members@[j]),
            decreases self.members@.len() - i,
        {
            let r = put_member(&mut output, &self.members[i]);
            if r.is_err() {
                return Err(String::from_str("同步组成员字段无效"));
            }
            proof {
                lemma_members_bytes_push(self.members@.take(i as int), self.members@[i as int]);
                assert(self.members@.take(i + 1) =~= self.members@.take(i as int).push(self.members@[i as int]));
            }
            i = i + 1;
        }
        output.push(1u8);
        proof {
            assert(self.members@.take(self.members@.len() as int) =~= self.members@);
            reveal(manifest_bytes);
            assert(output@ =~= manifest_bytes(*self));
        }
        Ok(output)
    }
}

impl GroupTombstone {
    /// The canonical bytes that the owner signs.
    pub fn canonical_bytes(&self) -> (bytes: Result<Vec<u8>, String>)
        ensures
            bytes is Ok <==> tombstone_encodable(*self),
            bytes matches Ok(b) ==> b@ == tombstone_bytes(*self),
    {
        if self.encoding_version != GROUP_ENCODING_VERSION {
            return Err(String::from_str("不支持的同步组删除声明版本"));
        }
        let mut output: Vec<u8> = Vec::new();
        append_bytes(&mut output, "localdrop-group-tombstone-v1\0".as_bytes());
        put_u16(&mut output, self.encoding_version);
        put_uuid(&mut output, self.group_id.as_str())?;
        put_string(&mut output, self.owner_device_id.as_str())?;
        put_u64(&mut output, self.revision);
        put_u64(&mut output, self.membership_epoch);
        put_string(&mut output, self.deleted_at.as_str())?;
        output.push(1u8);
        proof {
            reveal(tombstone_bytes);
            assert(output@ =~= tombstone_bytes(*self));
        }
        Ok(output)
    }
}

// ---------------------------------------------------------------------------
// Validation

/// A member's key decodes to a valid 32-byte Ed25519 key whose device id is the
/// member's id, and its certificate decodes to a non-empty byte string.
pub open spec fn member_identity_valid(m: GroupMember) -> bool {
    &&& decoded(m.public_key@) is Some
    &&& decoded(m.public_key@)->0.len() == 32
    &&& ed25519_key_accepted(decoded(m.public_key@)->0)
    &&& device_id_from_key(decoded(m.public_key@)->0) == m.device_id@
    &&& decoded(m.certificate@) is Some
    &&& decoded(m.certificate@)->0.len() > 0
}

/// A group name: not blank, at most 64 characters.
pub open spec fn group_name_valid(name: Seq<char>) -> bool {
    trimmed(name).len() > 0 && name.len() <= 64
}

/// Supported version, a valid name, and between 1 and 16 members.
pub open spec fn manifest_header_valid(m: GroupManifest) -> bool {
    &&& m.encoding_version == GROUP_ENCODING_VERSION
    &&& group_name_valid(m.name@)
    &&& 1 <= m.members@.len() <= MAX_GROUP_MEMBERS
}

/// No two members share a device id.
pub open spec fn members_distinct(members: Seq<GroupMember>) -> bool {
    forall|i: int, j: int| 0 <= i < j < members.len() ==> #[trigger] members[i].device_id@ != #[trigger] members[j].device_id@
}

/// The owner is a member and is active.
pub open spec fn owner_active(m: GroupManifest) -> bool {
    exists|i: int| 0 <= i < m.members@.len() && #[trigger] m.members@[i].device_id@ == m.owner_device_id@
        && m.members@[i].state == MemberState::Active
}

/// Distinct members, an active owner, and a valid identity for every member.
pub open spec fn members_valid(m: GroupManifest) -> bool {
    &&& members_distinct(m.members@)
    &&& owner_active(m)
    &&& forall|i: int| 0 <= i < m.members@.len() ==> member_identity_valid(#[trigger] m.members@[i])
}

/// A manifest that `normalize_and_validate` accepts as it stands: valid, with
/// its members already in strictly increasing device-id order.
pub open spec fn manifest_normalized(m: GroupManifest) -> bool {
    &&& manifest_header_valid(m)
    &&& members_valid(m)
    &&& strictly_sorted_by_key(m.members@)
}

/// Everything but the member order is left as it was.
pub open spec fn same_but_members(a: GroupManifest, b: GroupManifest) -> bool {
    &&& a.encoding_version == b.encoding_version
    &&& a.group_id == b.group_id
    &&& a.owner_device_id == b.owner_device_id
    &&& a.name == b.name
    &&& a.revision == b.revision
    &&& a.membership_epoch == b.membership_epoch
    &&& a.policy == b.policy
}

proof fn lemma_strict_from_adjacent(s: Seq<GroupMember>)
    requires
        sorted_by_key(s),
        forall|k: int| 1 <= k < s.len() ==> #[trigger] s[k].key() != s[k - 1].key(),
    ensures
        strictly_sorted_by_key(s),
{
    assert forall|i: int, j: int| 0 <= i < j < s.len() implies seq_lt(#[trigger] s[i].key(), #[trigger] s[j].key()) by {
        let ki = s[i].key();
        let kn = s[i + 1].key();
        let kj = s[j].key();
        assert(kn != ki);
        assert(!seq_lt(kn, ki));
        lemma_lt_total(ki, kn);
        if j > i + 1 {
            assert(!seq_lt(kj, kn));
            lemma_lt_total(kn, kj);
            lemma_lt_transitive(ki, kn, kj);
        }
    }
}

proof fn lemma_strict_distinct(s: Seq<GroupMember>)
    requires
        strictly_sorted_by_key(s),
    ensures
        members_distinct(s),
{
    assert forall|i: int, j: int| 0 <= i < j < s.len() implies #[trigger] s[i].device_id@ != #[trigger] s[j].device_id@ by {
        assert(seq_lt(s[i].key(), s[j].key()));
        lemma_lt_irreflexive(s[i].key());
    }
}

proof fn lemma_two_positions(s: Seq<GroupMember>, i: int, j: int)
    requires
        0 <= i < s.len(),
        0 <= j < s.len(),
        i != j,
        s[i] == s[j],
    ensures
        s.to_multiset().count(s[i]) >= 2,
{
    broadcast use vstd::seq_lib::to_multiset_remove, vstd::seq_lib::to_multiset_contains,
        vstd::multiset::group_multiset_axioms;

    let r = s.remove(j);
    let k = if i < j { i } else { i - 1 };
    assert(r[k] == s[i]);
    assert(r.contains(s[i]));
    assert(r.to_multiset().count(s[i]) > 0);
    assert(r.to_multiset() == s.to_multiset().remove(s[j]));
}

proof fn lemma_count_two_positions(s: Seq<GroupMember>, x: GroupMember)
    requires
        s.to_multiset().count(x) >= 2,
    ensures
        exists|i: int, j: int| 0 <= i < s.len() && 0 <= j < s.len() && i != j && s[i] == x && s[j] == x,
{
    broadcast use vstd::seq_lib::to_multiset_remove, vstd::seq_lib::to_multiset_contains,
        vstd::multiset::group_multiset_axioms;

    assert(s.contains(x));
    let k = choose|k: int| 0 <= k < s.len() && s[k] == x;
    let r = s.remove(k);
    assert(r.to_multiset() == s.to_multiset().remove(s[k]));
    assert(r.to_multiset().count(x) > 0);
    assert(r.contains(x));
    let k2 = choose|k2: int| 0 <= k2 < r.len() && r[k2] == x;
    let j = if k2 < k { k2 } else { k2 + 1 };
    assert(s[j] == x);
}

/// Reordering the members changes none of the validity conditions.
pub proof fn lemma_members_valid_permutation(a: GroupManifest, b: GroupManifest)
    requires
        a.members@.to_multiset() == b.members@.to_multiset(),
        a.owner_device_id@ == b.owner_device_id@,
    ensures
        members_valid(a) <==> members_valid(b),
        (forall|i: int| 0 <= i < a.members@.len() ==> member_encodable(#[trigger] a.members@[i])) <==> (
        forall|i: int| 0 <= i < b.members@.len() ==> member_encodable(#[trigger] b.members@[i])),
{
    lemma_perm_one_way(a, b);
    lemma_perm_one_way(b, a);
}

proof fn lemma_perm_one_way(a: GroupManifest, b: GroupManifest)
    requires
        a.members@.to_multiset() == b.members@.to_multiset(),
        a.owner_device_id@ == b.owner_device_id@,
    ensures
        members_valid(a) ==> members_valid(b),
        (forall|i: int| 0 <= i < a.members@.len() ==> member_encodable(#[trigger] a.members@[i])) ==> (
        forall|i: int| 0 <= i < b.members@.len() ==> member_encodable(#[trigger] b.members@[i])),
{
    broadcast use vstd::seq_lib::to_multiset_contains;

    let sa = a.members@;
    let sb = b.members@;
    assert forall|x: GroupMember| #[trigger] sb.contains(x) implies sa.contains(x) by {
        assert(sb.to_multiset().count(x) > 0);
    }
    if forall|i: int| 0 <= i < sa.len() ==> member_encodable(#[trigger] sa[i]) {
        assert forall|i: int| 0 <= i < sb.len() implies member_encodable(#[trigger] sb[i]) by {
            assert(sb.contains(sb[i]));
            let k = choose|k: int| 0 <= k < sa.len() && sa[k] == sb[i];
        }
    }
    if members_valid(a) {
        assert forall|i: int| 0 <= i < sb.len() implies member_identity_valid(#[trigger] sb[i]) by {
            assert(sb.contains(sb[i]));
            let k = choose|k: int| 0 <= k < sa.len() && sa[k] == sb[i];
        }
        let o = choose|i: int| 0 <= i < sa.len() && #[trigger] sa[i].device_id@ == a.owner_device_id@
            && sa[i].state == MemberState::Active;
        assert(sa.to_multiset().count(sa[o]) > 0);
        assert(sb.contains(sa[o]));
        let ob = choose|k: int| 0 <= k < sb.len() && sb[k] == sa[o];
        assert(sb[ob].device_id@ == b.owner_device_id@);
        assert forall|i: int, j: int| 0 <= i < j < sb.len() implies #[trigger] sb[i].device_id@ != #[trigger] sb[j].device_id@ by {
            if sb[i].device_id@ == sb[j].device_id@ {
                if sb[i] == sb[j] {
                    lemma_two_positions(sb, i, j);
                    lemma_count_two_positions(sa, sb[i]);
                    let (p, q) = choose|p: int, q: int| 0 <= p < sa.len() && 0 <= q < sa.len() && p != q && sa[p] == sb[i] && sa[q] == sb[i];
                    if p < q {
                        assert(sa[p].device_id@ != sa[q].device_id@);
                    } else {
                        assert(sa[q].device_id@ != sa[p].device_id@);
                    }
                } else {
                    assert(sb.contains(sb[i]));
                    assert(sb.contains(sb[j]));
                    let p = choose|p: int| 0 <= p < sa.len() && sa[p] == sb[i];
                    let q = choose|q: int| 0 <= q < sa.len() && sa[q] == sb[j];
                    if p < q {
                        assert(sa[p].device_id@ != sa[q].device_id@);
                    } else {
                        assert(sa[q].device_id@ != sa[p].device_id@);
                    }
                }
            }
        }
    }
}

/// Checks one member's identity.
fn check_member_identity(member: &GroupMember) -> (result: Result<(), String>)
    ensures
        result is Ok <==> member_identity_valid(*member),
{
    let public_key = match decode(member.public_key.as_str()) {
        Some(bytes) => bytes,
        None => return Err(String::from_str("成员公钥编码无效")),
    };
    if public_key.len() != 32 {
        return Err(String::from_str("成员公钥长度无效"));
    }
    let key = crate::codec::array32(public_key.as_slice());
    if !ed25519_key_valid(&key) {
        return Err(String::from_str("成员公钥无效"));
    }
    let derived = device_id_for_key(&key);
    if !str_equal(derived.as_str(), member.device_id.as_str()) {
        return Err(String::from_str("同步组成员身份与公钥不匹配"));
    }
    match decode(member.certificate.as_str()) {
        Some(certificate) => {
            if certificate.len() == 0 {
                return Err(String::from_str("同步组成员证书为空"));
            }
        },
        None => return Err(String::from_str("成员证书编码无效")),
    }
    Ok(())
}

/// Puts the members in device-id order and checks the manifest: supported
/// version, a name of 1 to 64 characters that is not blank, 1 to 16 members
/// with distinct ids, an active owner, and a consistent identity for every member.
#[verifier::loop_isolation(false)]
pub fn normalize_and_validate(manifest: &mut GroupManifest) -> (result: Result<(), String>)
    ensures
        same_but_members(*final(manifest), *old(manifest)),
        final(manifest).members@.to_multiset() == old(manifest).members@.to_multiset(),
        final(manifest).members@.len() == old(manifest).members@.len(),
        manifest_header_valid(*old(manifest)) ==> sorted_by_key(final(manifest).members@),
        !manifest_header_valid(*old(manifest)) ==> final(manifest).members@ == old(manifest).members@,
        sorted_by_key(old(manifest).members@) ==> final(manifest).members@ == old(manifest).members@,
        result is Ok <==> manifest_header_valid(*old(manifest)) && members_valid(*old(manifest)),
        result is Ok ==> strictly_sorted_by_key(final(manifest).members@),
{
    if manifest.encoding_version != GROUP_ENCODING_VERSION {
        return Err(String::from_str("不支持的同步组清单版本"));
    }
    let trimmed_name = crate::text::trim(manifest.name.as_str());
    let name_length = crate::text::chars_of(manifest.name.as_str()).len();
    if trimmed_name.as_str().is_empty() || name_length > 64 {
        return Err(String::from_str("同步组名称必须为 1 到 64 个字符"));
    }
    if manifest.members.len() == 0 || manifest.members.len() > MAX_GROUP_MEMBERS {
        return Err(String::from_str("同步组成员数量无效"));
    }
    sort_by_key(&mut manifest.members);
    proof {
        lemma_members_valid_permutation(*old(manifest), *manifest);
    }
    let n = manifest.members.len();
    let mut i: usize = 1;
    while i < n
        invariant
            n == manifest.members@.len(),
            1 <= i <= n,
            forall|k: int| 1 <= k < i ==> #[trigger] manifest.members@[k].key() != manifest.members@[k - 1].key(),
        decreases n - i,
    {
        if bytes_equal(manifest.members[i - 1].key_bytes(), manifest.members[i].key_bytes()) {
            proof {
                let a = manifest.members@[i - 1];
                let b = manifest.members@[i as int];
                lemma_utf8_injective(a.device_id@, b.device_id@);
                assert(!members_distinct(manifest.members@));
            }
            return Err(String::from_str("同步组包含重复设备"));
        }
        i = i + 1;
    }
    proof {
        lemma_strict_from_adjacent(manifest.members@);
        lemma_strict_distinct(manifest.members@);
    }
    let mut owner_index: usize = 0;
    while owner_index < n && !str_equal(manifest.members[owner_index].device_id.as_str(), manifest.owner_device_id.as_str())
        invariant
            n == manifest.members@.len(),
            owner_index <= n,
            forall|k: int| 0 <= k < owner_index ==> #[trigger] manifest.members@[k].device_id@ != manifest.owner_device_id@,
        decreases n - owner_index,
    {
        owner_index = owner_index + 1;
    }
    if owner_index == n {
        return Err(String::from_str("同步组清单缺少 Owner"));
    }
    if manifest.members[owner_index].state != MemberState::Active {
        proof {
            assert forall|k: int| 0 <= k < n && #[trigger] manifest.members@[k].device_id@ == manifest.owner_device_id@
                implies manifest.members@[k].state != MemberState::Active by {
                if k != owner_index {
                    if k < owner_index {
                    } else {
                        assert(manifest.members@[owner_index as int].device_id@ != manifest.members@[k].device_id@);
                    }
                }
            }
        }
        return Err(String::from_str("同步组 Owner 必须保持 active"));
    }
    proof {
        lemma_members_valid_permutation(*old(manifest), *manifest);
    }
    let mut m: usize = 0;
    while m < n
        invariant
            n == manifest.members@.len(),
            m <= n,
            forall|k: int| 0 <= k < m ==> member_identity_valid(#[trigger] manifest.members@[k]),
        decreases n - m,
    {
        check_member_identity(&manifest.members[m])?;
        m = m + 1;
    }
    Ok(())
}

// ---------------------------------------------------------------------------
// Signing and verification

/// A manifest and its owner's Base64 signature over the canonical bytes.
#[derive(Debug)]
pub struct SignedGroupManifest {
    pub manifest: GroupManifest,
    pub signature: String,
}

impl Clone for SignedGroupManifest {
    fn clone(&self) -> (copy: Self)
        ensures
            copy.manifest.same_as(self.manifest),
            copy.signature == self.signature,
    {
        SignedGroupManifest { manifest: self.manifest.clone(), signature: self.signature.clone() }
    }
}

/// A tombstone and its owner's Base64 signature over the canonical bytes.
#[derive(Debug)]
pub struct SignedGroupTombstone {
    pub tombstone: GroupTombstone,
    pub signature: String,
}

impl Clone for SignedGroupTombstone {
    fn clone(&self) -> (copy: Self)
        ensures
            copy == *self,
    {
        SignedGroupTombstone { tombstone: self.tombstone.clone(), signature: self.signature.clone() }
    }
}

/// The manifest passes `normalize_and_validate`.
pub open spec fn manifest_valid(m: GroupManifest) -> bool {
    manifest_header_valid(m) && members_valid(m)
}

/// What `SignedGroupManifest::verify` accepts: a normalized, encodable manifest;
/// a valid 32-byte owner key whose device id is the manifest's owner; and a
/// Base64 signature of 64 bytes that verifies over the canonical bytes.
pub open spec fn manifest_signature_accepted(m: GroupManifest, signature: Seq<char>, key: Seq<u8>) -> bool {
    &&& manifest_normalized(m)
    &&& manifest_encodable(m)
    &&& key.len() == 32
    &&& ed25519_key_accepted(key)
    &&& device_id_from_key(key) == m.owner_device_id@
    &&& decoded(signature) is Some
    &&& decoded(signature)->0.len() == 64
    &&& ed25519_verifies(key, manifest_bytes(m), decoded(signature)->0)
}

/// What `SignedGroupTombstone::verify` accepts: a valid 32-byte owner key whose
/// device id is the tombstone's owner, an encodable tombstone, and a Base64
/// signature of 64 bytes that verifies over the canonical bytes.
pub open spec fn tombstone_signature_accepted(t: GroupTombstone, signature: Seq<char>, key: Seq<u8>) -> bool {
    &&& key.len() == 32
    &&& ed25519_key_accepted(key)
    &&& device_id_from_key(key) == t.owner_device_id@
    &&& decoded(signature) is Some
    &&& decoded(signature)->0.len() == 64
    &&& tombstone_encodable(t)
    &&& ed25519_verifies(key, tombstone_bytes(t), decoded(signature)->0)
}

/// Checks an owner key: 32 bytes, a valid point, and the expected device id.
fn owner_key(owner_public_key: &[u8], owner_device_id: &str) -> (key: Result<[u8; 32], String>)
    ensures
        key is Ok <==> owner_public_key@.len() == 32 && ed25519_key_accepted(owner_public_key@)
            && device_id_from_key(owner_public_key@) == owner_device_id@,
        key matches Ok(k) ==> k@ == owner_public_key@,
{
    if owner_public_key.len() != 32 {
        return Err(String::from_str("同步组 Owner 公钥长度无效"));
    }
    let key = crate::codec::array32(owner_public_key);
    if !ed25519_key_valid(&key) {
        return Err(String::from_str("同步组 Owner 公钥无效"));
    }
    let derived = device_id_for_key(&key);
    if !str_equal(derived.as_str(), owner_device_id) {
        return Err(String::from_str("同步组 Owner 身份与公钥不匹配"));
    }
    Ok(key)
}

/// Decodes a Base64 signature of 64 bytes.
fn signature_bytes(signature: &str) -> (bytes: Result<Vec<u8>, String>)
    ensures
        bytes is Ok <==> decoded(signature@) is Some && decoded(signature@)->0.len() == 64,
        bytes matches Ok(b) ==> b@ == decoded(signature@)->0,
{
    match decode(signature) {
        Some(bytes) => {
            if bytes.len() != 64 {
                Err(String::from_str("同步组签名长度无效"))
            } else {
                Ok(bytes)
            }
        },
        None => Err(String::from_str("同步组签名编码无效")),
    }
}

proof fn lemma_strict_implies_sorted(s: Seq<GroupMember>)
    ensures
        strictly_sorted_by_key(s) ==> sorted_by_key(s),
{
    if strictly_sorted_by_key(s) {
        assert forall|i: int, j: int| 0 <= i < j < s.len() implies !seq_lt(#[trigger] s[j].key(), #[trigger] s[i].key()) by {
            crate::order::lemma_lt_asymmetric(s[i].key(), s[j].key());
        }
    }
}

proof fn lemma_manifest_bytes_congruent(a: GroupManifest, b: GroupManifest)
    requires
        same_but_members(a, b),
        a.members@ == b.members@,
    ensures
        manifest_bytes(a) == manifest_bytes(b),
{
    reveal(manifest_bytes);
    reveal(manifest_head);
}

proof fn lemma_same_bytes_same_order(normalized: GroupManifest, m: GroupManifest)
    requires
        manifest_encodable(normalized),
        manifest_encodable(m),
        manifest_bytes(normalized) == manifest_bytes(m),
        strictly_sorted_by_key(normalized.members@),
    ensures
        strictly_sorted_by_key(m.members@),
{
    lemma_manifest_bytes_injective(normalized, m);
    assert forall|i: int, j: int| 0 <= i < j < m.members@.len() implies seq_lt(
        #[trigger] m.members@[i].key(),
        #[trigger] m.members@[j].key(),
    ) by {
        assert(same_member_content(normalized.members@[i], m.members@[i]));
        assert(same_member_content(normalized.members@[j], m.members@[j]));
        assert(seq_lt(normalized.members@[i].key(), normalized.members@[j].key()));
    }
}

impl SignedGroupManifest {
    /// Normalizes and checks the manifest, then signs its canonical bytes with
    /// the owner's identity.
    pub fn sign(manifest: GroupManifest, identity: &Identity) -> (result: Result<SignedGroupManifest, String>)
        ensures
            result is Ok <==> manifest_valid(manifest) && manifest.owner_device_id@ == identity.id()
                && manifest_encodable(manifest),
            result matches Ok(signed) ==> {
                &&& same_but_members(signed.manifest, manifest)
                &&& signed.manifest.members@.to_multiset() == manifest.members@.to_multiset()
                &&& manifest_normalized(signed.manifest)
                &&& manifest_encodable(signed.manifest)
                &&& signed.signature@ == base64_text(ed25519_signature(identity.secret(), manifest_bytes(signed.manifest)))
                &&& decoded(signed.signature@) == Some(ed25519_signature(identity.secret(), manifest_bytes(signed.manifest)))
                &&& ed25519_signature(identity.secret(), manifest_bytes(signed.manifest)).len() == 64
            },
    {
        let mut manifest = manifest;
        let ghost original = manifest;
        normalize_and_validate(&mut manifest)?;
        proof {
            lemma_members_valid_permutation(original, manifest);
        }
        if !str_equal(manifest.owner_device_id.as_str(), identity.device_id()) {
            return Err(String::from_str("只有同步组 Owner 可以签署清单"));
        }
        let bytes = manifest.canonical_bytes()?;
        let signature = identity.sign(bytes.as_slice());
        let encoded = base64_encode(signature.as_slice());
        Ok(SignedGroupManifest { manifest, signature: encoded })
    }

    /// Checks that the manifest is in normal form and valid, that the key is the
    /// owner's, and that the signature verifies over the canonical bytes.
    #[verifier::spinoff_prover]
    #[verifier::rlimit(60)]
    pub fn verify(&self, owner_public_key: &[u8]) -> (result: Result<(), String>)
        ensures
            result is Ok <==> manifest_signature_accepted(self.manifest, self.signature@, owner_public_key@),
            ({
                &&& manifest_normalized(self.manifest)
                &&& manifest_encodable(self.manifest)
                &&& owner_public_key@.len() == 32
                &&& ed25519_key_accepted(owner_public_key@)
                &&& device_id_from_key(owner_public_key@) == self.manifest.owner_device_id@
                &&& decoded(self.signature@) is Some && decoded(self.signature@)->0.len() == 64
                &&& exists|secret: Seq<u8>| secret.len() == 32 && owner_public_key@ == ed25519_public_key(secret)
                    && decoded(self.signature@) == Some(ed25519_signature(secret, manifest_bytes(self.manifest)))
            }) ==> result is Ok,
    {
        let mut normalized = self.manifest.clone();
        proof {
            lemma_strict_implies_sorted(self.manifest.members@);
        }
        normalize_and_validate(&mut normalized)?;
        proof {
            lemma_members_valid_permutation(self.manifest, normalized);
        }
        let normalized_bytes = normalized.canonical_bytes()?;
        let own_bytes = self.manifest.canonical_bytes()?;
        if !bytes_equal(normalized_bytes.as_slice(), own_bytes.as_slice()) {
            proof {
                if strictly_sorted_by_key(self.manifest.members@) {
                    lemma_manifest_bytes_congruent(normalized, self.manifest);
                }
            }
            return Err(String::from_str("同步组清单成员顺序不规范"));
        }
        proof {
            lemma_same_bytes_same_order(normalized, self.manifest);
        }
        let key = owner_key(owner_public_key, self.manifest.owner_device_id.as_str())?;
        let signature = signature_bytes(self.signature.as_str())?;
        if ed25519_verify(&key, own_bytes.as_slice(), signature.as_slice()) {
            Ok(())
        } else {
            Err(String::from_str("同步组清单签名验证失败"))
        }
    }
}

impl SignedGroupTombstone {
    /// Signs the tombstone's canonical bytes with the owner's identity.
    pub fn sign(tombstone: GroupTombstone, identity: &Identity) -> (result: Result<SignedGroupTombstone, String>)
        ensures
            result is Ok <==> tombstone.owner_device_id@ == identity.id() && tombstone_encodable(tombstone),
            result matches Ok(signed) ==> {
                &&& signed.tombstone == tombstone
                &&& signed.signature@ == base64_text(ed25519_signature(identity.secret(), tombstone_bytes(tombstone)))
                &&& decoded(signed.signature@) == Some(ed25519_signature(identity.secret(), tombstone_bytes(tombstone)))
                &&& ed25519_signature(identity.secret(), tombstone_bytes(tombstone)).len() == 64
            },
    {
        if tombstone.encoding_version != GROUP_ENCODING_VERSION
            || !str_equal(tombstone.owner_device_id.as_str(), identity.device_id()) {
            return Err(String::from_str("同步组删除声明版本或 Owner 无效"));
        }
        let bytes = tombstone.canonical_bytes()?;
        let signature = identity.sign(bytes.as_slice());
        let encoded = base64_encode(signature.as_slice());
        Ok(SignedGroupTombstone { tombstone, signature: encoded })
    }

    /// Checks that the key is the owner's and that the signature verifies over
    /// the canonical bytes.
    pub fn verify(&self, owner_public_key: &[u8]) -> (result: Result<(), String>)
        ensures
            result is Ok <==> tombstone_signature_accepted(self.tombstone, self.signature@, owner_public_key@),
            ({
                &&& tombstone_encodable(self.tombstone)
                &&& owner_public_key@.len() == 32
                &&& ed25519_key_accepted(owner_public_key@)
                &&& device_id_from_key(owner_public_key@) == self.tombstone.owner_device_id@
                &&& decoded(self.signature@) is Some && decoded(self.signature@)->0.len() == 64
                &&& exists|secret: Seq<u8>| secret.len() == 32 && owner_public_key@ == ed25519_public_key(secret)
                    && decoded(self.signature@) == Some(ed25519_signature(secret, tombstone_bytes(self.tombstone)))
            }) ==> result is Ok,
    {
        let key = owner_key(owner_public_key, self.tombstone.owner_device_id.as_str())?;
        let signature = signature_bytes(self.signature.as_str())?;
        let bytes = self.tombstone.canonical_bytes()?;
        if ed25519_verify(&key, bytes.as_slice(), signature.as_slice()) {
            Ok(())
        } else {
            Err(String::from_str("同步组删除签名验证失败"))
        }
    }
}

// ---------------------------------------------------------------------------
// The canonical encoding is read back unambiguously.

/// Two members carry the same signed content.
pub open spec fn same_member_content(a: GroupMember, b: GroupMember) -> bool {
    &&& a.device_id@ == b.device_id@
    &&& a.device_name@ == b.device_name@
    &&& a.platform@ == b.platform@
    &&& decoded(a.public_key@) == decoded(b.public_key@)
    &&& decoded(a.certificate@) == decoded(b.certificate@)
    &&& a.joined_at@ == b.joined_at@
    &&& a.state == b.state
    &&& a.direction == b.direction
}

proof fn lemma_string_field_split(a: Seq<char>, b: Seq<char>, r1: Seq<u8>, r2: Seq<u8>)
    requires
        fits(encode_utf8(a)),
        fits(encode_utf8(b)),
        length_prefixed(encode_utf8(a)) + r1 == length_prefixed(encode_utf8(b)) + r2,
    ensures
        a == b,
        r1 == r2,
{
    lemma_length_prefixed_split(encode_utf8(a), encode_utf8(b), r1, r2);
    lemma_utf8_injective(a, b);
}

pub proof fn lemma_member_bytes_split(a: GroupMember, b: GroupMember, r1: Seq<u8>, r2: Seq<u8>)
    requires
        member_encodable(a),
        member_encodable(b),
        member_bytes(a) + r1 == member_bytes(b) + r2,
    ensures
        same_member_content(a, b),
        r1 == r2,
{
    reveal(member_bytes);
    let ka = decoded(a.public_key@)->0;
    let kb = decoded(b.public_key@)->0;
    let ca = decoded(a.certificate@)->0;
    let cb = decoded(b.certificate@)->0;
    let ta = seq![a.state.spec_code(), a.direction.spec_code()] + r1;
    let tb = seq![b.state.spec_code(), b.direction.spec_code()] + r2;
    let ja = length_prefixed(encode_utf8(a.joined_at@)) + ta;
    let jb = length_prefixed(encode_utf8(b.joined_at@)) + tb;
    let cea = length_prefixed(ca) + ja;
    let ceb = length_prefixed(cb) + jb;
    let kea = length_prefixed(ka) + cea;
    let keb = length_prefixed(kb) + ceb;
    let pa = length_prefixed(encode_utf8(a.platform@)) + kea;
    let pb = length_prefixed(encode_utf8(b.platform@)) + keb;
    let na = length_prefixed(encode_utf8(a.device_name@)) + pa;
    let nb = length_prefixed(encode_utf8(b.device_name@)) + pb;
    vstd::seq_lib::lemma_concat_associative((((((length_prefixed(encode_utf8(a.device_id@)) + length_prefixed(encode_utf8(a.device_name@))) + length_prefixed(encode_utf8(a.platform@))) + length_prefixed(decoded(a.public_key@)->0)) + length_prefixed(decoded(a.certificate@)->0)) + length_prefixed(encode_utf8(a.joined_at@))), seq![a.state.spec_code(), a.direction.spec_code()], r1);
    vstd::seq_lib::lemma_concat_associative(((((length_prefixed(encode_utf8(a.device_id@)) + length_prefixed(encode_utf8(a.device_name@))) + length_prefixed(encode_utf8(a.platform@))) + length_prefixed(decoded(a.public_key@)->0)) + length_prefixed(decoded(a.certificate@)->0)), length_prefixed(encode_utf8(a.joined_at@)), (seq![a.state.spec_code(), a.direction.spec_code()] + r1));
    vstd::seq_lib::lemma_concat_associative((((length_prefixed(encode_utf8(a.device_id@)) + length_prefixed(encode_utf8(a.device_name@))) + length_prefixed(encode_utf8(a.platform@))) + length_prefixed(decoded(a.public_key@)->0)), length_prefixed(decoded(a.certificate@)->0), (length_prefixed(encode_utf8(a.joined_at@)) + (seq![a.state.spec_code(), a.direction.spec_code()] + r1)));
    vstd::seq_lib::lemma_concat_associative(((length_prefixed(encode_utf8(a.device_id@)) + length_prefixed(encode_utf8(a.device_name@))) + length_prefixed(encode_utf8(a.platform@))), length_prefixed(decoded(a.public_key@)->0), (length_prefixed(decoded(a.certificate@)->0) + (length_prefixed(encode_utf8(a.joined_at@)) + (seq![a.state.spec_code(), a.direction.spec_code()] + r1))));
    vstd::seq_lib::lemma_concat_associative((length_prefixed(encode_utf8(a.device_id@)) + length_prefixed(encode_utf8(a.device_name@))), length_prefixed(encode_utf8(a.platform@)), (length_prefixed(decoded(a.public_key@)->0) + (length_prefixed(decoded(a.certificate@)->0) + (length_prefixed(encode_utf8(a.joined_at@)) + (seq![a.state.spec_code(), a.direction.spec_code()] + r1)))));
    vstd::seq_lib::lemma_concat_associative(length_prefixed(encode_utf8(a.device_id@)), length_prefixed(encode_utf8(a.device_name@)), (length_prefixed(encode_utf8(a.platform@)) + (length_prefixed(decoded(a.public_key@)->0) + (length_prefixed(decoded(a.certificate@)->0) + (length_prefixed(encode_utf8(a.joined_at@)) + (seq![a.state.spec_code(), a.direction.spec_code()] + r1))))));
    assert(member_bytes(a) + r1 == (length_prefixed(encode_utf8(a.device_id@)) + (length_prefixed(encode_utf8(a.device_name@)) + (length_prefixed(encode_utf8(a.platform@)) + (length_prefixed(decoded(a.public_key@)->0) + (length_prefixed(decoded(a.certificate@)->0) + (length_prefixed(encode_utf8(a.joined_at@)) + (seq![a.state.spec_code(), a.direction.spec_code()] + r1))))))));
    vstd::seq_lib::lemma_concat_associative((((((length_prefixed(encode_utf8(b.device_id@)) + length_prefixed(encode_utf8(b.device_name@))) + length_prefixed(encode_utf8(b.platform@))) + length_prefixed(decoded(b.public_key@)->0)) + length_prefixed(decoded(b.certificate@)->0)) + length_prefixed(encode_utf8(b.joined_at@))), seq![b.state.spec_code(), b.direction.spec_code()], r2);
    vstd::seq_lib::lemma_concat_associative(((((length_prefixed(encode_utf8(b.device_id@)) + length_prefixed(encode_utf8(b.device_name@))) + length_prefixed(encode_utf8(b.platform@))) + length_prefixed(decoded(b.public_key@)->0)) + length_prefixed(decoded(b.certificate@)->0)), length_prefixed(encode_utf8(b.joined_at@)), (seq![b.state.spec_code(), b.direction.spec_code()] + r2));
    vstd::seq_lib::lemma_concat_associative((((length_prefixed(encode_utf8(b.device_id@)) + length_prefixed(encode_utf8(b.device_name@))) + length_prefixed(encode_utf8(b.platform@))) + length_prefixed(decoded(b.public_key@)->0)), length_prefixed(decoded(b.certificate@)->0), (length_prefixed(encode_utf8(b.joined_at@)) + (seq![b.state.spec_code(), b.direction.spec_code()] + r2)));
    vstd::seq_lib::lemma_concat_associative(((length_prefixed(encode_utf8(b.device_id@)) + length_prefixed(encode_utf8(b.device_name@))) + length_prefixed(encode_utf8(b.platform@))), length_prefixed(decoded(b.public_key@)->0), (length_prefixed(decoded(b.certificate@)->0) + (length_prefixed(encode_utf8(b.joined_at@)) + (seq![b.state.spec_code(), b.direction.spec_code()] + r2))));
    vstd::seq_lib::lemma_concat_associative((length_prefixed(encode_utf8(b.device_id@)) + length_prefixed(encode_utf8(b.device_name@))), length_prefixed(encode_utf8(b.platform@)), (length_prefixed(decoded(b.public_key@)->0) + (length_prefixed(decoded(b.certificate@)->0) + (length_prefixed(encode_utf8(b.joined_at@)) + (seq![b.state.spec_code(), b.direction.spec_code()] + r2)))));
    vstd::seq_lib::lemma_concat_associative(length_prefixed(encode_utf8(b.device_id@)), length_prefixed(encode_utf8(b.device_name@)), (length_prefixed(encode_utf8(b.platform@)) + (length_prefixed(decoded(b.public_key@)->0) + (length_prefixed(decoded(b.certificate@)->0) + (length_prefixed(encode_utf8(b.joined_at@)) + (seq![b.state.spec_code(), b.direction.spec_code()] + r2))))));
    assert(member_bytes(b) + r2 == (length_prefixed(encode_utf8(b.device_id@)) + (length_prefixed(encode_utf8(b.device_name@)) + (length_prefixed(encode_utf8(b.platform@)) + (length_prefixed(decoded(b.public_key@)->0) + (length_prefixed(decoded(b.certificate@)->0) + (length_prefixed(encode_utf8(b.joined_at@)) + (seq![b.state.spec_code(), b.direction.spec_code()] + r2))))))));
    lemma_string_field_split(a.device_id@, b.device_id@, na, nb);
    lemma_string_field_split(a.device_name@, b.device_name@, pa, pb);
    lemma_string_field_split(a.platform@, b.platform@, kea, keb);
    lemma_length_prefixed_split(ka, kb, cea, ceb);
    lemma_length_prefixed_split(ca, cb, ja, jb);
    lemma_string_field_split(a.joined_at@, b.joined_at@, ta, tb);
    lemma_split_fixed(
        seq![a.state.spec_code(), a.direction.spec_code()],
        seq![b.state.spec_code(), b.direction.spec_code()],
        r1,
        r2,
    );
    assert(seq![a.state.spec_code(), a.direction.spec_code()][0] == seq![b.state.spec_code(), b.direction.spec_code()][0]);
    assert(seq![a.state.spec_code(), a.direction.spec_code()][1] == seq![b.state.spec_code(), b.direction.spec_code()][1]);
}

/// Equal encodings of equally long member lists come from members with the
/// same content, position by position.
pub proof fn lemma_members_bytes_split(a: Seq<GroupMember>, b: Seq<GroupMember>, r1: Seq<u8>, r2: Seq<u8>)
    requires
        a.len() == b.len(),
        forall|i: int| 0 <= i < a.len() ==> member_encodable(#[trigger] a[i]),
        forall|i: int| 0 <= i < b.len() ==> member_encodable(#[trigger] b[i]),
        members_bytes(a) + r1 == members_bytes(b) + r2,
    ensures
        forall|i: int| 0 <= i < a.len() ==> same_member_content(#[trigger] a[i], b[i]),
        r1 == r2,
    decreases a.len(),
{
    if a.len() == 0 {
        assert(members_bytes(a) + r1 =~= r1);
        assert(members_bytes(b) + r2 =~= r2);
    } else {
        let ra = members_bytes(a.drop_first()) + r1;
        let rb = members_bytes(b.drop_first()) + r2;
        assert(members_bytes(a) + r1 =~= member_bytes(a[0]) + ra);
        assert(members_bytes(b) + r2 =~= member_bytes(b[0]) + rb);
        lemma_member_bytes_split(a[0], b[0], ra, rb);
        assert forall|i: int| 0 <= i < a.len() - 1 implies member_encodable(#[trigger] a.drop_first()[i]) by {
            assert(a.drop_first()[i] == a[i + 1]);
        }
        assert forall|i: int| 0 <= i < b.len() - 1 implies member_encodable(#[trigger] b.drop_first()[i]) by {
            assert(b.drop_first()[i] == b[i + 1]);
        }
        lemma_members_bytes_split(a.drop_first(), b.drop_first(), r1, r2);
        assert forall|i: int| 0 <= i < a.len() implies same_member_content(#[trigger] a[i], b[i]) by {
            if i > 0 {
                assert(a.drop_first()[i - 1] == a[i]);
                assert(b.drop_first()[i - 1] == b[i]);
            }
        }
    }
}

/// Two manifests carry the same signed content.
pub open spec fn same_manifest_content(a: GroupManifest, b: GroupManifest) -> bool {
    &&& a.encoding_version == b.encoding_version
    &&& uuid_bytes(a.group_id@) == uuid_bytes(b.group_id@)
    &&& a.owner_device_id@ == b.owner_device_id@
    &&& a.revision == b.revision
    &&& a.membership_epoch == b.membership_epoch
    &&& a.name@ == b.name@
    &&& a.policy == b.policy
    &&& a.members@.len() == b.members@.len()
    &&& forall|i: int| 0 <= i < a.members@.len() ==> same_member_content(#[trigger] a.members@[i], b.members@[i])
}

/// Two tombstones carry the same signed content.
pub open spec fn same_tombstone_content(a: GroupTombstone, b: GroupTombstone) -> bool {
    &&& a.encoding_version == b.encoding_version
    &&& uuid_bytes(a.group_id@) == uuid_bytes(b.group_id@)
    &&& a.owner_device_id@ == b.owner_device_id@
    &&& a.revision == b.revision
    &&& a.membership_epoch == b.membership_epoch
    &&& a.deleted_at@ == b.deleted_at@
}

proof fn lemma_bool_byte(a: bool, b: bool)
    requires
        (if a { 1u8 } else { 0u8 }) == (if b { 1u8 } else { 0u8 }),
    ensures
        a == b,
{
}

/// The canonical bytes of a manifest begin with the manifest label and end
/// with a single `1` byte.
pub proof fn lemma_manifest_bytes_framing(m: GroupManifest)
    ensures
        manifest_bytes(m).len() > manifest_magic().len(),
        manifest_bytes(m).subrange(0, manifest_magic().len() as int) == manifest_magic(),
        manifest_bytes(m).last() == 1u8,
{
    lemma_manifest_bytes_shape(m);
    let rest = be_u16(m.encoding_version) + (uuid_bytes(m.group_id@)->0 + (length_prefixed(encode_utf8(m.owner_device_id@))
        + (be_u64(m.revision) + (be_u64(m.membership_epoch) + (length_prefixed(encode_utf8(m.name@)) + (policy_bytes(m.policy)
        + (be_u32(m.members@.len() as u32) + (members_bytes(m.members@) + seq![1u8]))))))));
    assert(manifest_bytes(m) == manifest_magic() + rest);
    assert(manifest_bytes(m).subrange(0, manifest_magic().len() as int) =~= manifest_magic());
    assert(rest.last() == 1u8);
}

/// The manifest's canonical bytes, field after field, associated to the right.
proof fn lemma_manifest_bytes_shape(m: GroupManifest)
    ensures
        manifest_bytes(m) == (manifest_magic() + (be_u16(m.encoding_version) + (uuid_bytes(m.group_id@)->0 + (length_prefixed(encode_utf8(m.owner_device_id@)) + (be_u64(m.revision) + (be_u64(m.membership_epoch) + (length_prefixed(encode_utf8(m.name@)) + (policy_bytes(m.policy) + (be_u32(m.members@.len() as u32) + (members_bytes(m.members@) + seq![1u8])))))))))),
{
    reveal(manifest_bytes);
    reveal(manifest_head);
    vstd::seq_lib::lemma_concat_associative(((((((((manifest_magic() + be_u16(m.encoding_version)) + uuid_bytes(m.group_id@)->0) + length_prefixed(encode_utf8(m.owner_device_id@))) + be_u64(m.revision)) + be_u64(m.membership_epoch)) + length_prefixed(encode_utf8(m.name@))) + policy_bytes(m.policy)) + be_u32(m.members@.len() as u32)), members_bytes(m.members@), seq![1u8]);
    vstd::seq_lib::lemma_concat_associative((((((((manifest_magic() + be_u16(m.encoding_version)) + uuid_bytes(m.group_id@)->0) + length_prefixed(encode_utf8(m.owner_device_id@))) + be_u64(m.revision)) + be_u64(m.membership_epoch)) + length_prefixed(encode_utf8(m.name@))) + policy_bytes(m.policy)), be_u32(m.members@.len() as u32), (members_bytes(m.members@) + seq![1u8]));
    vstd::seq_lib::lemma_concat_associative(((((((manifest_magic() + be_u16(m.encoding_version)) + uuid_bytes(m.group_id@)->0) + length_prefixed(encode_utf8(m.owner_device_id@))) + be_u64(m.revision)) + be_u64(m.membership_epoch)) + length_prefixed(encode_utf8(m.name@))), policy_bytes(m.policy), (be_u32(m.members@.len() as u32) + (members_bytes(m.members@) + seq![1u8])));
    vstd::seq_lib::lemma_concat_associative((((((manifest_magic() + be_u16(m.encoding_version)) + uuid_bytes(m.group_id@)->0) + length_prefixed(encode_utf8(m.owner_device_id@))) + be_u64(m.revision)) + be_u64(m.membership_epoch)), length_prefixed(encode_utf8(m.name@)), (policy_bytes(m.policy) + (be_u32(m.members@.len() as u32) + (members_bytes(m.members@) + seq![1u8]))));
    vstd::seq_lib::lemma_concat_associative(((((manifest_magic() + be_u16(m.encoding_version)) + uuid_bytes(m.group_id@)->0) + length_prefixed(encode_utf8(m.owner_device_id@))) + be_u64(m.revision)), be_u64(m.membership_epoch), (length_prefixed(encode_utf8(m.name@)) + (policy_bytes(m.policy) + (be_u32(m.members@.len() as u32) + (members_bytes(m.members@) + seq![1u8])))));
    vstd::seq_lib::lemma_concat_associative((((manifest_magic() + be_u16(m.encoding_version)) + uuid_bytes(m.group_id@)->0) + length_prefixed(encode_utf8(m.owner_device_id@))), be_u64(m.revision), (be_u64(m.membership_epoch) + (length_prefixed(encode_utf8(m.name@)) + (policy_bytes(m.policy) + (be_u32(m.members@.len() as u32) + (members_bytes(m.members@) + seq![1u8]))))));
    vstd::seq_lib::lemma_concat_associative(((manifest_magic() + be_u16(m.encoding_version)) + uuid_bytes(m.group_id@)->0), length_prefixed(encode_utf8(m.owner_device_id@)), (be_u64(m.revision) + (be_u64(m.membership_epoch) + (length_prefixed(encode_utf8(m.name@)) + (policy_bytes(m.policy) + (be_u32(m.members@.len() as u32) + (members_bytes(m.members@) + seq![1u8])))))));
    vstd::seq_lib::lemma_concat_associative((manifest_magic() + be_u16(m.encoding_version)), uuid_bytes(m.group_id@)->0, (length_prefixed(encode_utf8(m.owner_device_id@)) + (be_u64(m.revision) + (be_u64(m.membership_epoch) + (length_prefixed(encode_utf8(m.name@)) + (policy_bytes(m.policy) + (be_u32(m.members@.len() as u32) + (members_bytes(m.members@) + seq![1u8]))))))));
    vstd::seq_lib::lemma_concat_associative(manifest_magic(), be_u16(m.encoding_version), (uuid_bytes(m.group_id@)->0 + (length_prefixed(encode_utf8(m.owner_device_id@)) + (be_u64(m.revision) + (be_u64(m.membership_epoch) + (length_prefixed(encode_utf8(m.name@)) + (policy_bytes(m.policy) + (be_u32(m.members@.len() as u32) + (members_bytes(m.members@) + seq![1u8])))))))));
    assert((manifest_head(m) + members_bytes(m.members@)) + seq![1u8] == (manifest_magic() + (be_u16(m.encoding_version) + (uuid_bytes(m.group_id@)->0 + (length_prefixed(encode_utf8(m.owner_device_id@)) + (be_u64(m.revision) + (be_u64(m.membership_epoch) + (length_prefixed(encode_utf8(m.name@)) + (policy_bytes(m.policy) + (be_u32(m.members@.len() as u32) + (members_bytes(m.members@) + seq![1u8])))))))))));
}

/// The canonical manifest encoding is unambiguous: two encodable manifests with
/// the same signed bytes have the same version, group id, owner, revision,
/// epoch, name, policy, and members (position by position), so a signature
/// over the bytes covers every one of these fields.
#[verifier::spinoff_prover]
pub proof fn lemma_manifest_bytes_injective(a: GroupManifest, b: GroupManifest)
    requires
        manifest_encodable(a),
        manifest_encodable(b),
        manifest_bytes(a) == manifest_bytes(b),
    ensures
        same_manifest_content(a, b),
{
    let ga = uuid_bytes(a.group_id@)->0;
    let gb = uuid_bytes(b.group_id@)->0;
    let ta = members_bytes(a.members@) + seq![1u8];
    let tb = members_bytes(b.members@) + seq![1u8];
    let ca = be_u32(a.members@.len() as u32) + ta;
    let cb = be_u32(b.members@.len() as u32) + tb;
    let pa = policy_bytes(a.policy) + ca;
    let pb = policy_bytes(b.policy) + cb;
    let na = length_prefixed(encode_utf8(a.name@)) + pa;
    let nb = length_prefixed(encode_utf8(b.name@)) + pb;
    let ea = be_u64(a.membership_epoch) + na;
    let eb = be_u64(b.membership_epoch) + nb;
    let va = be_u64(a.revision) + ea;
    let vb = be_u64(b.revision) + eb;
    let oa = length_prefixed(encode_utf8(a.owner_device_id@)) + va;
    let ob = length_prefixed(encode_utf8(b.owner_device_id@)) + vb;
    let ua = ga + oa;
    let ub = gb + ob;
    let xa = be_u16(a.encoding_version) + ua;
    let xb = be_u16(b.encoding_version) + ub;
    lemma_manifest_bytes_shape(a);
    lemma_manifest_bytes_shape(b);
    lemma_split_fixed(manifest_magic(), manifest_magic(), xa, xb);
    lemma_split_fixed(be_u16(a.encoding_version), be_u16(b.encoding_version), ua, ub);
    lemma_be_u16_injective(a.encoding_version, b.encoding_version);
    lemma_split_fixed(ga, gb, oa, ob);
    lemma_string_field_split(a.owner_device_id@, b.owner_device_id@, va, vb);
    lemma_split_fixed(be_u64(a.revision), be_u64(b.revision), ea, eb);
    lemma_be_u64_injective(a.revision, b.revision);
    lemma_split_fixed(be_u64(a.membership_epoch), be_u64(b.membership_epoch), na, nb);
    lemma_be_u64_injective(a.membership_epoch, b.membership_epoch);
    lemma_string_field_split(a.name@, b.name@, pa, pb);
    lemma_split_fixed(policy_bytes(a.policy), policy_bytes(b.policy), ca, cb);
    let fa = policy_bytes(a.policy);
    let fb = policy_bytes(b.policy);
    assert(fa[0] == fb[0] && fa[1] == fb[1] && fa[2] == fb[2] && fa[3] == fb[3]);
    lemma_bool_byte(a.policy.allow_text, b.policy.allow_text);
    lemma_bool_byte(a.policy.allow_images, b.policy.allow_images);
    lemma_bool_byte(a.policy.allow_html, b.policy.allow_html);
    lemma_bool_byte(a.policy.allow_files, b.policy.allow_files);
    assert(fa.subrange(4, 12) =~= be_u64(a.policy.offline_ttl_seconds));
    assert(fb.subrange(4, 12) =~= be_u64(b.policy.offline_ttl_seconds));
    lemma_be_u64_injective(a.policy.offline_ttl_seconds, b.policy.offline_ttl_seconds);
    lemma_split_fixed(be_u32(a.members@.len() as u32), be_u32(b.members@.len() as u32), ta, tb);
    lemma_be_u32_injective(a.members@.len() as u32, b.members@.len() as u32);
    lemma_members_bytes_split(a.members@, b.members@, seq![1u8], seq![1u8]);
}

/// The canonical tombstone encoding is unambiguous: equal signed bytes mean the
/// same version, group id, owner, revision, epoch and deletion time.
pub proof fn lemma_tombstone_bytes_injective(a: GroupTombstone, b: GroupTombstone)
    requires
        tombstone_encodable(a),
        tombstone_encodable(b),
        tombstone_bytes(a) == tombstone_bytes(b),
    ensures
        same_tombstone_content(a, b),
{
    reveal(tombstone_bytes);
    let ga = uuid_bytes(a.group_id@)->0;
    let gb = uuid_bytes(b.group_id@)->0;
    let da = length_prefixed(encode_utf8(a.deleted_at@)) + seq![1u8];
    let db = length_prefixed(encode_utf8(b.deleted_at@)) + seq![1u8];
    let ea = be_u64(a.membership_epoch) + da;
    let eb = be_u64(b.membership_epoch) + db;
    let va = be_u64(a.revision) + ea;
    let vb = be_u64(b.revision) + eb;
    let oa = length_prefixed(encode_utf8(a.owner_device_id@)) + va;
    let ob = length_prefixed(encode_utf8(b.owner_device_id@)) + vb;
    let ua = ga + oa;
    let ub = gb + ob;
    let xa = be_u16(a.encoding_version) + ua;
    let xb = be_u16(b.encoding_version) + ub;
    vstd::seq_lib::lemma_concat_associative((((((tombstone_magic() + be_u16(a.encoding_version)) + uuid_bytes(a.group_id@)->0) + length_prefixed(encode_utf8(a.owner_device_id@))) + be_u64(a.revision)) + be_u64(a.membership_epoch)), length_prefixed(encode_utf8(a.deleted_at@)), seq![1u8]);
    vstd::seq_lib::lemma_concat_associative(((((tombstone_magic() + be_u16(a.encoding_version)) + uuid_bytes(a.group_id@)->0) + length_prefixed(encode_utf8(a.owner_device_id@))) + be_u64(a.revision)), be_u64(a.membership_epoch), (length_prefixed(encode_utf8(a.deleted_at@)) + seq![1u8]));
    vstd::seq_lib::lemma_concat_associative((((tombstone_magic() + be_u16(a.encoding_version)) + uuid_bytes(a.group_id@)->0) + length_prefixed(encode_utf8(a.owner_device_id@))), be_u64(a.revision), (be_u64(a.membership_epoch) + (length_prefixed(encode_utf8(a.deleted_at@)) + seq![1u8])));
    vstd::seq_lib::lemma_concat_associative(((tombstone_magic() + be_u16(a.encoding_version)) + uuid_bytes(a.group_id@)->0), length_prefixed(encode_utf8(a.owner_device_id@)), (be_u64(a.revision) + (be_u64(a.membership_epoch) + (length_prefixed(encode_utf8(a.deleted_at@)) + seq![1u8]))));
    vstd::seq_lib::lemma_concat_associative((tombstone_magic() + be_u16(a.encoding_version)), uuid_bytes(a.group_id@)->0, (length_prefixed(encode_utf8(a.owner_device_id@)) + (be_u64(a.revision) + (be_u64(a.membership_epoch) + (length_prefixed(encode_utf8(a.deleted_at@)) + seq![1u8])))));
    vstd::seq_lib::lemma_concat_associative(tombstone_magic(), be_u16(a.encoding_version), (uuid_bytes(a.group_id@)->0 + (length_prefixed(encode_utf8(a.owner_device_id@)) + (be_u64(a.revision) + (be_u64(a.membership_epoch) + (length_prefixed(encode_utf8(a.deleted_at@)) + seq![1u8]))))));
    assert(tombstone_bytes(a) == (tombstone_magic() + (be_u16(a.encoding_version) + (uuid_bytes(a.group_id@)->0 + (length_prefixed(encode_utf8(a.owner_device_id@)) + (be_u64(a.revision) + (be_u64(a.membership_epoch) + (length_prefixed(encode_utf8(a.deleted_at@)) + seq![1u8]))))))));
    vstd::seq_lib::lemma_concat_associative((((((tombstone_magic() + be_u16(b.encoding_version)) + uuid_bytes(b.group_id@)->0) + length_prefixed(encode_utf8(b.owner_device_id@))) + be_u64(b.revision)) + be_u64(b.membership_epoch)), length_prefixed(encode_utf8(b.deleted_at@)), seq![1u8]);
    vstd::seq_lib::lemma_concat_associative(((((tombstone_magic() + be_u16(b.encoding_version)) + uuid_bytes(b.group_id@)->0) + length_prefixed(encode_utf8(b.owner_device_id@))) + be_u64(b.revision)), be_u64(b.membership_epoch), (length_prefixed(encode_utf8(b.deleted_at@)) + seq![1u8]));
    vstd::seq_lib::lemma_concat_associative((((tombstone_magic() + be_u16(b.encoding_version)) + uuid_bytes(b.group_id@)->0) + length_prefixed(encode_utf8(b.owner_device_id@))), be_u64(b.revision), (be_u64(b.membership_epoch) + (length_prefixed(encode_utf8(b.deleted_at@)) + seq![1u8])));
    vstd::seq_lib::lemma_concat_associative(((tombstone_magic() + be_u16(b.encoding_version)) + uuid_bytes(b.group_id@)->0), length_prefixed(encode_utf8(b.owner_device_id@)), (be_u64(b.revision) + (be_u64(b.membership_epoch) + (length_prefixed(encode_utf8(b.deleted_at@)) + seq![1u8]))));
    vstd::seq_lib::lemma_concat_associative((tombstone_magic() + be_u16(b.encoding_version)), uuid_bytes(b.group_id@)->0, (length_prefixed(encode_utf8(b.owner_device_id@)) + (be_u64(b.revision) + (be_u64(b.membership_epoch) + (length_prefixed(encode_utf8(b.deleted_at@)) + seq![1u8])))));
    vstd::seq_lib::lemma_concat_associative(tombstone_magic(), be_u16(b.encoding_version), (uuid_bytes(b.group_id@)->0 + (length_prefixed(encode_utf8(b.owner_device_id@)) + (be_u64(b.revision) + (be_u64(b.membership_epoch) + (length_prefixed(encode_utf8(b.deleted_at@)) + seq![1u8]))))));
    assert(tombstone_bytes(b) == (tombstone_magic() + (be_u16(b.encoding_version) + (uuid_bytes(b.group_id@)->0 + (length_prefixed(encode_utf8(b.owner_device_id@)) + (be_u64(b.revision) + (be_u64(b.membership_epoch) + (length_prefixed(encode_utf8(b.deleted_at@)) + seq![1u8]))))))));
    lemma_split_fixed(tombstone_magic(), tombstone_magic(), xa, xb);
    lemma_split_fixed(be_u16(a.encoding_version), be_u16(b.encoding_version), ua, ub);
    lemma_be_u16_injective(a.encoding_version, b.encoding_version);
    lemma_split_fixed(ga, gb, oa, ob);
    lemma_string_field_split(a.owner_device_id@, b.owner_device_id@, va, vb);
    lemma_split_fixed(be_u64(a.revision), be_u64(b.revision), ea, eb);
    lemma_be_u64_injective(a.revision, b.revision);
    lemma_split_fixed(be_u64(a.membership_epoch), be_u64(b.membership_epoch), da, db);
    lemma_be_u64_injective(a.membership_epoch, b.membership_epoch);
    lemma_string_field_split(a.deleted_at@, b.deleted_at@, seq![1u8], seq![1u8]);
}

/// Changing a manifest's signed content changes its canonical bytes: two
/// encodable manifests that differ in version, group id, owner, revision,
/// epoch, name, policy or a member have different bytes (renaming the group
/// is one such change).
pub proof fn lemma_changed_manifest_changes_bytes(a: GroupManifest, b: GroupManifest)
    requires
        manifest_encodable(a),
        manifest_encodable(b),
        !same_manifest_content(a, b),
    ensures
        manifest_bytes(a) != manifest_bytes(b),
{
    if manifest_bytes(a) == manifest_bytes(b) {
        lemma_manifest_bytes_injective(a, b);
    }
}

/// Changing a tombstone's signed content changes its canonical bytes.
pub proof fn lemma_changed_tombstone_changes_bytes(a: GroupTombstone, b: GroupTombstone)
    requires
        tombstone_encodable(a),
        tombstone_encodable(b),
        !same_tombstone_content(a, b),
    ensures
        tombstone_bytes(a) != tombstone_bytes(b),
{
    if tombstone_bytes(a) == tombstone_bytes(b) {
        lemma_tombstone_bytes_injective(a, b);
    }
}

} // verus!
