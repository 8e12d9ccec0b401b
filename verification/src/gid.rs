//! ROS 2 global identifiers (Gid), the ROS 2 counterpart of a DDS GUID.

use vstd::prelude::*;
use rustdds::GUID;
use crate::text::{hex_byte, hex_text, push_hex_byte};

verus! {

/// Length in bytes of a Gid. The Gid definition changed between Humble and
/// Iron: Iron and every newer distribution use 16 bytes, Galactic and Humble
/// use 24. The library is built for [`crate::distributions::COMPILED_ROS_DISTRO`].
pub const GID_LENGTH: usize = 16;

/// Length in bytes of a Gid in distribution `d`.
pub open spec fn gid_length_for(d: crate::distributions::RosDistro) -> nat {
    if d.release_index() >= 2 {
        16
    } else {
        24
    }
}

/// [`GID_LENGTH`] is the Gid length of the distribution the library is built for.
pub proof fn lemma_gid_length_matches_build()
    ensures
        GID_LENGTH == gid_length_for(crate::distributions::COMPILED_ROS_DISTRO),
{
}

/// Length in bytes of a DDS GUID.
pub const GUID_LENGTH: usize = 16;

#[verifier::external_type_specification]
#[verifier::external_body]
pub struct ExGuid(GUID);

/// The 16 bytes of a DDS GUID: the 12 bytes of its prefix, then the 3 key
/// bytes and the kind byte of its entity id.
pub uninterp spec fn guid_bytes_of(guid: GUID) -> Seq<u8>;

/// Calls `rustdds::GUID::to_bytes`, which lays out the 12 bytes of the GUID
/// prefix followed by the 4 bytes of the entity id: the bytes of the GUID.
#[verifier::external_body]
fn guid_to_bytes(guid: &GUID) -> (bytes: [u8; 16])
    ensures
        bytes@ == guid_bytes_of(*guid),
{
    guid.to_bytes()
}

/// Calls `rustdds::GUID::from_bytes`, which takes the first 12 bytes as the
/// GUID prefix and the last 4 as the entity id (key bytes, then kind): the
/// GUID whose bytes are `bytes`. A GUID is its prefix, key and kind, all of
/// them held in its bytes, so no other GUID has these bytes.
#[verifier::external_body]
fn guid_from_bytes(bytes: [u8; 16]) -> (guid: GUID)
    ensures
        guid_bytes_of(guid) == bytes@,
        forall|other: GUID| #[trigger] guid_bytes_of(other) == bytes@ ==> other == guid,
{
    GUID::from_bytes(bytes)
}

/// ROS 2 equivalent of a DDS GUID.
///
/// See <https://github.com/ros2/rmw_dds_common/blob/master/rmw_dds_common/msg/Gid.msg>.
/// Its size is [`GID_LENGTH`].
#[derive(Copy, Clone, PartialEq, Eq, PartialOrd, Ord, Hash)]
pub struct Gid(pub [u8; GID_LENGTH]);

/// The Gid bytes made from the 16 bytes of a GUID: the GUID bytes first, then
/// zeros up to [`GID_LENGTH`].
pub open spec fn gid_bytes_of_guid(guid: Seq<u8>) -> Seq<u8> {
    Seq::new(GID_LENGTH as nat, |i: int| if i < guid.len() { guid[i] } else { 0u8 })
}

impl Gid {
    /// The Gid of a GUID given by its 16 bytes: the bytes come first, zeros
    /// pad the rest.
    pub fn from_guid_bytes(bytes: [u8; 16]) -> (gid: Gid)
        ensures
            gid.0@ == gid_bytes_of_guid(bytes@),
    {
        let mut out = [0u8; GID_LENGTH];
        let mut i: usize = 0;
        while i < GID_LENGTH
            invariant
                i <= GID_LENGTH,
                forall|j: int| 0 <= j < i ==> out@[j] == gid_bytes_of_guid(bytes@)[j],
            decreases GID_LENGTH - i,
        {
            if i < GUID_LENGTH {
                out[i] = bytes[i];
            } else {
                out[i] = 0;
            }
            i = i + 1;
        }
        assert(out@ =~= gid_bytes_of_guid(bytes@));
        Gid(out)
    }

    /// The 16 bytes of the GUID this Gid stands for: its first 16 bytes.
    pub fn guid_bytes(&self) -> (bytes: [u8; 16])
        ensures
            bytes@ == self.0@.take(16),
    {
        let mut out = [0u8; 16];
        let mut i: usize = 0;
        while i < GUID_LENGTH
            invariant
                i <= GUID_LENGTH,
                forall|j: int| 0 <= j < i ==> out@[j] == self.0@[j],
            decreases GUID_LENGTH - i,
        {
            out[i] = self.0[i];
            i = i + 1;
        }
        assert(out@ =~= self.0@.take(16));
        out
    }

    /// The Gid of a DDS GUID: its 16 bytes, padded with zeros.
    pub fn from_guid(guid: &GUID) -> (gid: Gid)
        ensures
            guid_bytes_of(*guid).len() == 16,
            gid.0@ == gid_bytes_of_guid(guid_bytes_of(*guid)),
    {
        let bytes = guid_to_bytes(guid);
        Self::from_guid_bytes(bytes)
    }

    /// The DDS GUID this Gid stands for, made from its first 16 bytes.
    pub fn to_guid(&self) -> (guid: GUID)
        ensures
            guid_bytes_of(guid) == self.0@.take(16),
            forall|other: GUID| #[trigger] guid_bytes_of(other) == self.0@.take(16) ==> other == guid,
    {
        guid_from_bytes(self.guid_bytes())
    }

    /// The bytes as lower-case hexadecimal, two digits each: how a Gid is
    /// shown for debugging.
    pub fn to_hex_string(&self) -> (s: String)
        ensures
            s@ == hex_text(self.0@),
    {
        let mut s = String::new();
        let mut i: usize = 0;
        while i < GID_LENGTH
            invariant
                i <= GID_LENGTH,
                s@ == hex_text(self.0@.take(i as int)),
            decreases GID_LENGTH - i,
        {
            push_hex_byte(&mut s, self.0[i]);
            assert(self.0@.take(i + 1).drop_last() =~= self.0@.take(i as int));
            i = i + 1;
        }
        assert(self.0@.take(GID_LENGTH as int) =~= self.0@);
        s
    }
}

/// A Gid made from a GUID stands for that GUID again: the GUID made from it
/// is the same GUID.
pub proof fn lemma_gid_guid_round_trip(guid: GUID, gid: Gid, back: GUID)
    requires
        gid.0@ == gid_bytes_of_guid(guid_bytes_of(guid)),
        guid_bytes_of(back) == gid.0@.take(16),
        guid_bytes_of(guid).len() == 16,
        forall|other: GUID| #[trigger] guid_bytes_of(other) == gid.0@.take(16) ==> other == back,
    ensures
        back == guid,
{
    lemma_guid_bytes_round_trip(guid_bytes_of(guid));
}

/// A Gid made from GUID bytes gives those bytes back.
pub proof fn lemma_guid_bytes_round_trip(bytes: Seq<u8>)
    requires
        bytes.len() == 16,
    ensures
        gid_bytes_of_guid(bytes).take(16) == bytes,
{
    assert(gid_bytes_of_guid(bytes).take(16) =~= bytes);
}

} // verus!
