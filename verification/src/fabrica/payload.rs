//! The payload bound both schemas share.

use vstd::prelude::*;

verus! {

/// Scalar bound, in bytes, on one encoded schema payload. The larger schema,
/// the kernel requirement, stays under it at a full feature list plus a
/// signature.
pub const MAX_PAYLOAD_BYTES: usize = 16384;

} // verus!
