//! The boot handoff: the decisions around the one-way transfer of control
//! into the loaded code.
//!
//! The irreversible steps themselves — terminating the firmware's boot
//! services and jumping to the entry point — belong to the surrounding
//! program; this module fixes what is handed over, validates the entry
//! address while failure can still be reported, and decides what follows
//! from the environment's answer to the termination request.

use vstd::prelude::*;

use crate::errors::BootError;

verus! {

/// Everything the one-way transfer hands to the loaded code: where to jump,
/// and the framebuffer descriptor passed as the entry function's two
/// arguments.
#[derive(Clone, Copy, Debug, PartialEq, Eq, Structural)]
pub struct HandoffPlan {
    /// Absolute address of the entry point: the load region's base plus the
    /// header's entry offset.
    pub entry_address: u64,
    /// Base address of the framebuffer handed to the loaded code.
    pub framebuffer_base: u64,
    /// Length in bytes of that framebuffer.
    pub framebuffer_len: u64,
}

/// The environment's answer to a request to terminate its boot services.
#[derive(Clone, Copy, Debug, PartialEq, Eq, Structural)]
pub enum TerminationReply {
    /// Boot services are gone; no firmware call may follow.
    Completed,
    /// The environment rejected the request, for example because the
    /// memory-map snapshot supplied with it was stale.
    Refused,
}

/// The only action that may follow a successful termination: invoke the
/// entry address with the framebuffer pair, never to return. There is no
/// action that issues another termination request; retrying with a fresh
/// memory map is the surrounding caller's decision, never this core's.
#[derive(Clone, Copy, Debug, PartialEq, Eq, Structural)]
pub enum HandoffStep {
    /// Jump to `plan.entry_address`, passing the framebuffer descriptor.
    Invoke(HandoffPlan),
}

/// Fixes the handoff artifacts before anything irreversible happens.
///
/// Returns the plan exactly when the entry offset falls inside the load
/// region and the absolute entry address is representable; an entry address
/// outside the region must be caught here, since after termination a bad
/// jump is unobservable.
pub fn plan_handoff(
    region_base: u64,
    region_len: u64,
    entry_offset: u64,
    framebuffer_base: u64,
    framebuffer_len: u64,
) -> (r: Option<HandoffPlan>)
    ensures
        (entry_offset < region_len && region_base + entry_offset <= u64::MAX) <==> r is Some,
        r matches Some(plan) ==> ({
            &&& plan.entry_address == region_base + entry_offset
            &&& plan.framebuffer_base == framebuffer_base
            &&& plan.framebuffer_len == framebuffer_len
        }),
{
    if entry_offset < region_len && region_base <= u64::MAX - entry_offset {
        Some(
            HandoffPlan {
                entry_address: region_base + entry_offset,
                framebuffer_base,
                framebuffer_len,
            },
        )
    } else {
        None
    }
}

/// Decides what follows the environment's answer to the termination
/// request, the last decision before control leaves this code.
///
/// A completed termination is followed by exactly one step: invoking the
/// plan's entry address with the plan's framebuffer pair. A refused
/// termination is surfaced as `TerminationError` and nothing more: this
/// core never retries the request itself, since a retry needs a fresh
/// memory-map snapshot only the surrounding caller can obtain.
pub fn transfer_control(plan: &HandoffPlan, reply: TerminationReply) -> (r: Result<
    HandoffStep,
    BootError,
>)
    ensures
        reply is Completed ==> r == Ok::<HandoffStep, BootError>(HandoffStep::Invoke(*plan)),
        reply is Refused ==> r == Err::<HandoffStep, BootError>(BootError::TerminationError),
{
    match reply {
        TerminationReply::Completed => Ok(HandoffStep::Invoke(*plan)),
        TerminationReply::Refused => Err(BootError::TerminationError),
    }
}

} // verus!
