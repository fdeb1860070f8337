//! Control-flow enforcement: whether the processor supports it, and the
//! register values that turn it on.

use vstd::prelude::*;
use x86_64::registers::control::Cr4Flags;
use x86_64::registers::model_specific::CetFlags;

verus! {

/// Shadow-stack support: bit 7 of EDX of the first queried CPUID leaf.
pub const SHADOWSTACK_SUPPORTED_BIT: u32 = 0x80;
/// Indirect-branch-tracking support: bit 20 of EDX of the second.
pub const IBT_SUPPORTED_BIT: u32 = 0x10_0000;

#[derive(Clone, Copy, Debug, PartialEq, Eq, Structural)]
pub enum CetError {
    NoShadowStack,
    NoIndirectBranchTracking,
}

/// Relies on x86_64's `Cr4Flags::CONTROL_FLOW_ENFORCEMENT`, bit 23 of CR4.
#[verifier::external_body]
fn cr4_cet_bit() -> (r: u64)
    ensures
        r == 0x80_0000,
{
    Cr4Flags::CONTROL_FLOW_ENFORCEMENT.bits()
}

/// Relies on x86_64's `CetFlags::SS_ENABLE` (bit 0) and `IBT_ENABLE` (bit 2).
#[verifier::external_body]
fn cet_enable_bits() -> (r: u64)
    ensures
        r == 5,
{
    (CetFlags::SS_ENABLE | CetFlags::IBT_ENABLE).bits()
}

/// Given the EDX words of the two CPUID queries and the current CR4 and
/// S_CET values, the values that enable shadow stacks and indirect branch
/// tracking; an error when either feature is missing.
pub fn init_cet(edx_leaf0: u32, edx_leaf1: u32, cr4: u64, s_cet: u64) -> (r: Result<(u64, u64), CetError>)
    ensures
        edx_leaf0 & SHADOWSTACK_SUPPORTED_BIT == 0 ==> r == Err::<(u64, u64), CetError>(CetError::NoShadowStack),
        edx_leaf0 & SHADOWSTACK_SUPPORTED_BIT != 0 && edx_leaf1 & IBT_SUPPORTED_BIT == 0 ==>
            r == Err::<(u64, u64), CetError>(CetError::NoIndirectBranchTracking),
        edx_leaf0 & SHADOWSTACK_SUPPORTED_BIT != 0 && edx_leaf1 & IBT_SUPPORTED_BIT != 0 ==>
            r == Ok::<(u64, u64), CetError>((cr4 | 0x80_0000u64, s_cet | 5u64)),
{
    if edx_leaf0 & SHADOWSTACK_SUPPORTED_BIT == 0 {
        return Err(CetError::NoShadowStack);
    }
    if edx_leaf1 & IBT_SUPPORTED_BIT == 0 {
        return Err(CetError::NoIndirectBranchTracking);
    }
    Ok((cr4 | cr4_cet_bit(), s_cet | cet_enable_bits()))
}

} // verus!
