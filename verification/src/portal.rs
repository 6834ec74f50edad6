use vstd::prelude::*;

verus! {

/// The response code of a desktop-portal request that succeeded.
pub const PORTAL_RESPONSE_SUCCESS: u32 = 0;
/// The response code of a desktop-portal request the user cancelled.
pub const PORTAL_RESPONSE_CANCELLED: u32 = 1;
/// The response code of a desktop-portal request that ended otherwise.
pub const PORTAL_RESPONSE_OTHER: u32 = 2;

/// How a desktop-portal request ended.
#[derive(Debug, Clone, Copy, PartialEq, Eq, Structural)]
pub enum PortalResponseKind {
    Success,
    Cancelled,
    Other,
}

/// The response code sent back for a request that ended as `kind`; the
/// results are sent only on success, otherwise an empty dictionary is sent.
pub fn response_code(kind: PortalResponseKind) -> (code: u32)
    ensures
        code == match kind {
            PortalResponseKind::Success => 0u32,
            PortalResponseKind::Cancelled => 1u32,
            PortalResponseKind::Other => 2u32,
        },
{
    match kind {
        PortalResponseKind::Success => PORTAL_RESPONSE_SUCCESS,
        PortalResponseKind::Cancelled => PORTAL_RESPONSE_CANCELLED,
        PortalResponseKind::Other => PORTAL_RESPONSE_OTHER,
    }
}

} // verus!
