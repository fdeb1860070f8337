//! Address-space layout randomization: where the stack, the payload and the
//! mmap area go, derived from strong random values.

use vstd::prelude::*;
use crate::elf::LoadError;
use crate::loader::APP_SPAN;
use x86_64::instructions::random::RdRand;

verus! {

pub const USER_STACK_OFFSET: u64 = 0x7eff_0000_0000;
pub const USER_APP_OFFSET: u64 = 0x7e77_0000_0000;
pub const USER_STACK_SIZE: u64 = 0x80_0000;
pub const NEXT_MMAP: u64 = 0x5555_0000_0000;

/// The payload is relocated into `[APP_WINDOW_START, APP_WINDOW_END)`.
pub const APP_WINDOW_START: u64 = 0x7e77_0000_0000;
pub const APP_WINDOW_END: u64 = 0x7ef8_0000_0000;
/// The stack lies in `[STACK_WINDOW_START, STACK_WINDOW_END)`, with an
/// unmapped guard page just below it.
pub const STACK_WINDOW_START: u64 = 0x7eff_0000_0000;
pub const STACK_WINDOW_END: u64 = 0x7f00_0080_0000;

/// Values used where no strong random source exists and pseudo-random
/// values were explicitly allowed.
pub const PSEUDO_RANDOM: (u64, u64, u64) = (0xAFFE_AFFE_AFFE_AFFE, 0xC0FF_EEC0_FFEE_C0FF, 0xFCFC_0000);

/// Three random words: the first two seed the process's random bytes, the
/// third places the stack, the payload and the mmap area.
#[derive(Clone, Copy, Debug, PartialEq, Eq, Structural)]
pub struct Entropy {
    pub r1: u64,
    pub r2: u64,
    pub r3: u64,
}

/// The randomized layout.
#[derive(Clone, Copy, Debug, PartialEq, Eq, Structural)]
pub struct Layout {
    /// Lowest address of the stack region.
    pub stack_start: u64,
    /// Added to every (biased) link-time address of the payload.
    pub relocation: u64,
    /// Where anonymous mappings of the payload start.
    pub mmap_base: u64,
}

pub open spec fn spec_layout(r: u64) -> Layout {
    Layout {
        stack_start: (USER_STACK_OFFSET + ((r & 0xFFFFF) << 12u64)) as u64,
        relocation: (((r & 0xFF_FFF0_0000) >> 8u64) + USER_APP_OFFSET) as u64,
        mmap_base: (NEXT_MMAP + ((r & 0xFFF_FF00_0000_0000) >> 20u64)) as u64,
    }
}

proof fn lemma_masks(r: u64)
    ensures
        (r & 0xFFFFF) << 12u64 <= 0xFFFF_F000,
        ((r & 0xFFFFF) << 12u64) % 4096 == 0,
        (r & 0xFF_FFF0_0000) >> 8u64 <= 0xFFFF_F000,
        ((r & 0xFF_FFF0_0000) >> 8u64) % 4096 == 0,
        (r & 0xFFF_FF00_0000_0000) >> 20u64 <= 0xFF_FFF0_0000,
{
    assert((r & 0xFFFFF) << 12u64 <= 0xFFFF_F000) by (bit_vector);
    assert(((r & 0xFFFFF) << 12u64) % 4096 == 0) by (bit_vector);
    assert((r & 0xFF_FFF0_0000) >> 8u64 <= 0xFFFF_F000) by (bit_vector);
    assert(((r & 0xFF_FFF0_0000) >> 8u64) % 4096 == 0) by (bit_vector);
    assert((r & 0xFFF_FF00_0000_0000) >> 20u64 <= 0xFF_FFF0_0000) by (bit_vector);
}

/// Derives the layout from the random word `r`.
pub fn randomize(r: u64) -> (l: Layout)
    ensures
        l == spec_layout(r),
{
    proof {
        lemma_masks(r);
    }
    Layout {
        stack_start: USER_STACK_OFFSET + ((r & 0xFFFFF) << 12u64),
        relocation: ((r & 0xFF_FFF0_0000) >> 8u64) + USER_APP_OFFSET,
        mmap_base: NEXT_MMAP + ((r & 0xFFF_FF00_0000_0000) >> 20u64),
    }
}

/// For every random word, the stack and every payload address stay in their
/// windows, both are page aligned, and no payload address reaches the guard
/// page below the stack.
pub proof fn lemma_layout_in_windows(r: u64, a: int)
    requires
        0 <= a <= APP_SPAN,
    ensures
        ({
            let l = spec_layout(r);
            &&& STACK_WINDOW_START <= l.stack_start
            &&& l.stack_start + USER_STACK_SIZE <= STACK_WINDOW_END
            &&& l.stack_start % 4096 == 0
            &&& l.relocation % 4096 == 0
            &&& APP_WINDOW_START <= l.relocation + a <= APP_WINDOW_END
            &&& APP_WINDOW_END < l.stack_start - 4096
        }),
{
    lemma_masks(r);
}

/// Picks the random words: the hardware's when all three came, else the
/// fixed pseudo-random ones when they are allowed, else an error.
pub fn choose_entropy(a: Option<u64>, b: Option<u64>, c: Option<u64>, allow_pseudo: bool) -> (r: Result<Entropy, LoadError>)
    ensures
        match (a, b, c) {
            (Some(x), Some(y), Some(z)) => r == Ok::<Entropy, LoadError>(Entropy { r1: x, r2: y, r3: z }),
            _ => if allow_pseudo {
                r == Ok::<Entropy, LoadError>(Entropy { r1: PSEUDO_RANDOM.0, r2: PSEUDO_RANDOM.1, r3: PSEUDO_RANDOM.2 })
            } else {
                r == Err::<Entropy, LoadError>(LoadError::NoEntropy)
            },
        },
{
    match (a, b, c) {
        (Some(x), Some(y), Some(z)) => Ok(Entropy { r1: x, r2: y, r3: z }),
        _ => if allow_pseudo {
            Ok(Entropy { r1: PSEUDO_RANDOM.0, r2: PSEUDO_RANDOM.1, r3: PSEUDO_RANDOM.2 })
        } else {
            Err(LoadError::NoEntropy)
        },
    }
}

/// Relies on x86_64's `RdRand`: `None` when the CPU has no RDRAND or the
/// instruction failed, else a random word. Nothing is promised of the value.
#[verifier::external_body]
fn hardware_random() -> (r: Option<u64>) {
    match RdRand::new() {
        Some(rd) => rd.get_u64(),
        None => None,
    }
}

/// Draws three random words from the hardware; see `choose_entropy`.
pub fn gather_entropy(allow_pseudo: bool) -> (r: Result<Entropy, LoadError>)
    ensures
        allow_pseudo ==> r is Ok,
        r is Err ==> r == Err::<Entropy, LoadError>(LoadError::NoEntropy) && !allow_pseudo,
{
    let a = hardware_random();
    let b = hardware_random();
    let c = hardware_random();
    choose_entropy(a, b, c, allow_pseudo)
}

} // verus!
