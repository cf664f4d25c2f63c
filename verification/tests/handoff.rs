use oxidize::errors::BootError;
use oxidize::handoff::{plan_handoff, transfer_control, HandoffPlan, HandoffStep, TerminationReply};

#[test]
fn plan_accepts_entry_inside_region() {
    let plan = plan_handoff(0x8000_0000, 0x2000, 0x140, 0xb000_0000, 1920 * 1080 * 4);
    assert_eq!(
        plan,
        Some(HandoffPlan {
            entry_address: 0x8000_0140,
            framebuffer_base: 0xb000_0000,
            framebuffer_len: 1920 * 1080 * 4,
        })
    );
}

#[test]
fn plan_rejects_entry_outside_region() {
    // The entry offset must fall strictly inside the region; past its end a
    // jump would be unobservable after termination, so it is caught here.
    assert_eq!(plan_handoff(0x8000_0000, 0x2000, 0x2000, 0, 0), None);
    assert_eq!(plan_handoff(0x8000_0000, 0x2000, 0x3000, 0, 0), None);
    assert_eq!(plan_handoff(0x8000_0000, 0, 0, 0, 0), None);
    // An entry address that does not fit in an address word is refused too.
    assert_eq!(plan_handoff(u64::MAX, 0x2000, 0x10, 0, 0), None);
}

#[test]
fn refused_termination_is_an_error_and_not_retried() {
    // A stale memory-map snapshot makes the environment refuse termination:
    // the loader reports TerminationError and takes no further step itself;
    // retrying with a fresh snapshot is the caller's decision.
    let plan = HandoffPlan {
        entry_address: 0x8000_0140,
        framebuffer_base: 0xb000_0000,
        framebuffer_len: 0x10_0000,
    };
    let r = transfer_control(&plan, TerminationReply::Refused);
    assert_eq!(r, Err(BootError::TerminationError));
}

#[test]
fn completed_termination_invokes_the_plan() {
    let plan = HandoffPlan {
        entry_address: 0x8000_0140,
        framebuffer_base: 0xb000_0000,
        framebuffer_len: 0x10_0000,
    };
    let r = transfer_control(&plan, TerminationReply::Completed);
    assert_eq!(r, Ok(HandoffStep::Invoke(plan)));
}
