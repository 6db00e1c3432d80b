//! Operation tags and request dispatch. Interface operations carry a fixed
//! 8-byte tag; administrative operations use a single leading byte from a
//! disjoint range. A dispatcher checks the length before comparing 8-byte
//! tags, so a short administrative payload is never misread as a malformed
//! interface call.

use vstd::prelude::*;

use crate::error::GatewayError;

verus! {

/// Leading byte of an initialize request.
pub const TAG_INITIALIZE: u8 = 0;

/// Leading byte of an add-subject request.
pub const TAG_ADD_SUBJECT: u8 = 1;

/// Leading byte of a remove-subject request.
pub const TAG_REMOVE_SUBJECT: u8 = 2;

/// Leading byte of a transfer-authority request.
pub const TAG_TRANSFER_AUTHORITY: u8 = 3;

/// The 8-byte tag of a permissionless-thaw interface call.
pub open spec fn spec_thaw_tag() -> Seq<u8> {
    seq![8u8, 175, 169, 129, 137, 74, 61, 241]
}

/// The 8-byte tag of a permissionless-freeze interface call.
pub open spec fn spec_freeze_tag() -> Seq<u8> {
    seq![214u8, 141, 109, 75, 248, 1, 45, 29]
}

/// The reserved all-zero 8-byte value, meaning "absent/invalid".
pub open spec fn spec_zero_tag() -> Seq<u8> {
    seq![0u8, 0, 0, 0, 0, 0, 0, 0]
}

/// The permissionless-thaw tag as bytes.
pub fn thaw_tag() -> (r: [u8; 8])
    ensures
        r@ == spec_thaw_tag(),
{
    let r: [u8; 8] = [8u8, 175, 169, 129, 137, 74, 61, 241];
    proof {
        assert(r@ =~= spec_thaw_tag());
    }
    r
}

/// The permissionless-freeze tag as bytes.
pub fn freeze_tag() -> (r: [u8; 8])
    ensures
        r@ == spec_freeze_tag(),
{
    let r: [u8; 8] = [214u8, 141, 109, 75, 248, 1, 45, 29];
    proof {
        assert(r@ =~= spec_freeze_tag());
    }
    r
}

/// An operation a request can name.
#[derive(Debug, Clone, Copy, PartialEq, Eq, Structural)]
pub enum Operation {
    /// Create the configuration record (administrative).
    Initialize,
    /// Add a subject record (administrative).
    AddSubject,
    /// Remove a subject record (administrative).
    RemoveSubject,
    /// Re-point the administrative authority (administrative).
    TransferAuthority,
    /// Permissionless-thaw interface call.
    CanThaw,
    /// Permissionless-freeze interface call.
    CanFreeze,
}

/// What a request payload dispatches to: a single-byte administrative tag
/// takes precedence, then the 8-byte interface tags; the empty payload is
/// malformed and anything else is unknown.
pub open spec fn spec_parse_operation(data: Seq<u8>) -> Result<Operation, GatewayError> {
    if data.len() == 0 {
        Err(GatewayError::MalformedRequest)
    } else if data[0] == TAG_INITIALIZE {
        Ok(Operation::Initialize)
    } else if data[0] == TAG_ADD_SUBJECT {
        Ok(Operation::AddSubject)
    } else if data[0] == TAG_REMOVE_SUBJECT {
        Ok(Operation::RemoveSubject)
    } else if data[0] == TAG_TRANSFER_AUTHORITY {
        Ok(Operation::TransferAuthority)
    } else if data.len() >= 8 && data.take(8) == spec_thaw_tag() {
        Ok(Operation::CanThaw)
    } else if data.len() >= 8 && data.take(8) == spec_freeze_tag() {
        Ok(Operation::CanFreeze)
    } else {
        Err(GatewayError::UnknownOperation)
    }
}

fn tag_matches(data: &Vec<u8>, tag: &[u8; 8]) -> (r: bool)
    requires
        data@.len() >= 8,
    ensures
        r == (data@.take(8) == tag@),
{
    let mut i: usize = 0;
    while i < 8
        invariant
            0 <= i <= 8,
            data@.len() >= 8,
            forall|j: int| 0 <= j < i ==> data@[j] == tag@[j],
        decreases 8 - i,
    {
        if *data.get(i).unwrap() != tag[i] {
            proof {
                assert(data@.take(8)[i as int] != tag@[i as int]);
            }
            return false;
        }
        i += 1;
    }
    proof {
        assert(data@.take(8) =~= tag@);
    }
    true
}

/// Dispatch a request payload to the operation it names.
pub fn parse_operation(data: &Vec<u8>) -> (r: Result<Operation, GatewayError>)
    ensures
        r == spec_parse_operation(data@),
{
    if data.len() == 0 {
        return Err(GatewayError::MalformedRequest);
    }
    let first = *data.get(0).unwrap();
    if first == TAG_INITIALIZE {
        Ok(Operation::Initialize)
    } else if first == TAG_ADD_SUBJECT {
        Ok(Operation::AddSubject)
    } else if first == TAG_REMOVE_SUBJECT {
        Ok(Operation::RemoveSubject)
    } else if first == TAG_TRANSFER_AUTHORITY {
        Ok(Operation::TransferAuthority)
    } else if data.len() >= 8 && tag_matches(data, &thaw_tag()) {
        Ok(Operation::CanThaw)
    } else if data.len() >= 8 && tag_matches(data, &freeze_tag()) {
        Ok(Operation::CanFreeze)
    } else {
        Err(GatewayError::UnknownOperation)
    }
}

/// The interface tags and the administrative tags are pairwise distinct;
/// neither interface tag is the reserved all-zero value, and no interface
/// tag can begin with an administrative byte, so the two namespaces never
/// collide in dispatch.
pub proof fn lemma_tags_distinct()
    ensures
        spec_thaw_tag() != spec_freeze_tag(),
        spec_thaw_tag() != spec_zero_tag(),
        spec_freeze_tag() != spec_zero_tag(),
        TAG_INITIALIZE != TAG_ADD_SUBJECT,
        TAG_INITIALIZE != TAG_REMOVE_SUBJECT,
        TAG_INITIALIZE != TAG_TRANSFER_AUTHORITY,
        TAG_ADD_SUBJECT != TAG_REMOVE_SUBJECT,
        TAG_ADD_SUBJECT != TAG_TRANSFER_AUTHORITY,
        TAG_REMOVE_SUBJECT != TAG_TRANSFER_AUTHORITY,
        spec_thaw_tag()[0] != TAG_INITIALIZE,
        spec_thaw_tag()[0] != TAG_ADD_SUBJECT,
        spec_thaw_tag()[0] != TAG_REMOVE_SUBJECT,
        spec_thaw_tag()[0] != TAG_TRANSFER_AUTHORITY,
        spec_freeze_tag()[0] != TAG_INITIALIZE,
        spec_freeze_tag()[0] != TAG_ADD_SUBJECT,
        spec_freeze_tag()[0] != TAG_REMOVE_SUBJECT,
        spec_freeze_tag()[0] != TAG_TRANSFER_AUTHORITY,
{
    assert(spec_thaw_tag()[0] == 8);
    assert(spec_freeze_tag()[0] == 214);
    assert(spec_zero_tag()[0] == 0);
}

/// Dispatch is unambiguous: any payload that parses to an interface
/// operation is at least 8 bytes long and cannot also carry an
/// administrative tag.
pub proof fn lemma_dispatch_unambiguous(data: Seq<u8>)
    ensures
        spec_parse_operation(data) == Ok::<Operation, GatewayError>(Operation::CanThaw) ==> data.len()
            >= 8 && data[0] == 8,
        spec_parse_operation(data) == Ok::<Operation, GatewayError>(Operation::CanFreeze)
            ==> data.len() >= 8 && data[0] == 214,
        data.len() > 0 && data[0] <= 3 ==> !(spec_parse_operation(data) is Err),
{
    if spec_parse_operation(data) == Ok::<Operation, GatewayError>(Operation::CanThaw) {
        assert(data.take(8)[0] == spec_thaw_tag()[0]);
    }
    if spec_parse_operation(data) == Ok::<Operation, GatewayError>(Operation::CanFreeze) {
        assert(data.take(8)[0] == spec_freeze_tag()[0]);
    }
}

} // verus!
