//! Telemetry core for a CAN/cellular gateway: resolves CAN message names to
//! 29-bit extended identifiers from a CAN database, builds receive filters,
//! decodes dynamically typed modem property responses, and tracks modem
//! readiness.

use vstd::prelude::*;

pub mod can;
pub mod modem;
pub mod text;
pub mod variant;

verus! {

/// Mask that truncates a raw CAN identifier to its 29-bit extended form.
pub const EXTENDED_ID_MASK: u32 = 0x1FFFFFFF;

/// Truncate a raw CAN identifier to the 29-bit extended identifier.
pub fn mask_extended(id: u32) -> (r: u32)
    ensures
        r == id & EXTENDED_ID_MASK,
        r <= EXTENDED_ID_MASK,
{
    proof {
        lemma_mask_bound(id);
    }
    id & EXTENDED_ID_MASK
}

/// A masked identifier never exceeds the mask itself.
pub proof fn lemma_mask_bound(id: u32)
    ensures
        id & EXTENDED_ID_MASK <= EXTENDED_ID_MASK,
{
    assert(id & 0x1FFFFFFFu32 <= 0x1FFFFFFFu32) by (bit_vector);
}

/// Masking is idempotent: applying the extended-identifier mask twice gives
/// the same value as applying it once.
pub proof fn lemma_mask_idempotent(id: u32)
    ensures
        (id & EXTENDED_ID_MASK) & EXTENDED_ID_MASK == id & EXTENDED_ID_MASK,
{
    assert((id & 0x1FFFFFFFu32) & 0x1FFFFFFFu32 == id & 0x1FFFFFFFu32) by (bit_vector);
}

} // verus!
