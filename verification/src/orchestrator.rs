//! Per-device retry policy: the glue between the operator and a drive.
//!
//! For each discovered device the policy is: skip it when it is already
//! unlocked; otherwise prompt for a password and attempt the unlock,
//! repeating on a rejected credential — with a retry prompt, and a screen
//! clear when so configured — until the drive unlocks or a fatal fault
//! abandons the device.  There is no retry cap: past a locked device there
//! is no fallback but to leave it locked, so only the operator decides to
//! stop.  The policy is a pure step function from phase and event to the
//! next phase and the action to perform; the surrounding program does the
//! prompting, transport and screen work.

use vstd::prelude::*;

verus! {

/// What the operator-facing collaborators supply: prompt texts and
/// whether to clear the screen before a retry.  Read-only to the core.
pub struct UnlockConfig {
    pub prompt: String,
    pub retry_prompt: String,
    pub clear_on_retry: bool,
}

/// How a device's handling ended.
#[derive(Debug, Clone, Copy, PartialEq, Eq, Structural)]
pub enum Disposition {
    /// The device reported itself unlocked; nothing to do.
    AlreadyUnlocked,
    /// An attempt succeeded.
    Unlocked,
    /// A fatal fault; the device stays locked and is left alone.
    Abandoned,
}

/// Where the handling of one device stands.
#[derive(Debug, Clone, Copy, PartialEq, Eq, Structural)]
pub enum DevicePhase {
    /// The locking-state read is in flight.
    AwaitLockStatus,
    /// The operator is being prompted; `retries` passwords were rejected
    /// so far.
    AwaitPassword { retries: u64 },
    /// An unlock attempt is in flight.
    AwaitAttempt { retries: u64 },
    /// Nothing more happens to this device.
    Settled { disposition: Disposition },
}

/// What the collaborators report back.
#[derive(Debug, Clone, Copy, PartialEq, Eq, Structural)]
pub enum OrchEvent {
    LockStatus { locked: bool },
    LockCheckFailed,
    PasswordEntered,
    AttemptSucceeded,
    AttemptRejected,
    AttemptFailed,
}

/// What the surrounding program is asked to do next.
#[derive(Debug, Clone, Copy, PartialEq, Eq, Structural)]
pub enum OrchAction {
    /// Show a prompt (the retry one after a rejection) and read a
    /// password; clear the screen first when asked to.
    PromptPassword { retry: bool, clear_screen: bool },
    /// Run one unlock attempt with the password just entered.
    RunUnlockAttempt,
    /// This device is settled; move to the next one.
    ProceedToNextDevice,
}

/// Which events a phase can receive.
pub open spec fn event_fits(p: DevicePhase, e: OrchEvent) -> bool {
    match p {
        DevicePhase::AwaitLockStatus => e is LockStatus || e is LockCheckFailed,
        DevicePhase::AwaitPassword { .. } => e is PasswordEntered,
        DevicePhase::AwaitAttempt { .. } => e is AttemptSucceeded || e is AttemptRejected
            || e is AttemptFailed,
        DevicePhase::Settled { .. } => false,
    }
}

/// The whole policy as one transition table.
pub open spec fn spec_step(p: DevicePhase, e: OrchEvent, clear_on_retry: bool)
    -> (DevicePhase, OrchAction) {
    match (p, e) {
        (DevicePhase::AwaitLockStatus, OrchEvent::LockStatus { locked }) => if locked {
            (
                DevicePhase::AwaitPassword { retries: 0 },
                OrchAction::PromptPassword { retry: false, clear_screen: false },
            )
        } else {
            (
                DevicePhase::Settled { disposition: Disposition::AlreadyUnlocked },
                OrchAction::ProceedToNextDevice,
            )
        },
        (DevicePhase::AwaitLockStatus, OrchEvent::LockCheckFailed) => (
            DevicePhase::Settled { disposition: Disposition::Abandoned },
            OrchAction::ProceedToNextDevice,
        ),
        (DevicePhase::AwaitPassword { retries }, OrchEvent::PasswordEntered) => (
            DevicePhase::AwaitAttempt { retries },
            OrchAction::RunUnlockAttempt,
        ),
        (DevicePhase::AwaitAttempt { .. }, OrchEvent::AttemptSucceeded) => (
            DevicePhase::Settled { disposition: Disposition::Unlocked },
            OrchAction::ProceedToNextDevice,
        ),
        (DevicePhase::AwaitAttempt { retries }, OrchEvent::AttemptRejected) => (
            DevicePhase::AwaitPassword {
                retries: if retries < u64::MAX { (retries + 1) as u64 } else { retries },
            },
            OrchAction::PromptPassword { retry: true, clear_screen: clear_on_retry },
        ),
        (DevicePhase::AwaitAttempt { .. }, OrchEvent::AttemptFailed) => (
            DevicePhase::Settled { disposition: Disposition::Abandoned },
            OrchAction::ProceedToNextDevice,
        ),
        _ => (p, OrchAction::ProceedToNextDevice),
    }
}

/// The phase a newly considered device starts in; the caller's first step
/// is the locking-state read whose outcome the phase awaits.
pub fn begin_device() -> (p: DevicePhase)
    ensures
        p is AwaitLockStatus,
{
    DevicePhase::AwaitLockStatus
}

/// One policy decision.
pub fn orchestrate_step(p: DevicePhase, e: OrchEvent, config: &UnlockConfig)
    -> (r: (DevicePhase, OrchAction))
    requires
        event_fits(p, e),
    ensures
        r == spec_step(p, e, config.clear_on_retry),
{
    match (p, e) {
        (DevicePhase::AwaitLockStatus, OrchEvent::LockStatus { locked }) => if locked {
            (
                DevicePhase::AwaitPassword { retries: 0 },
                OrchAction::PromptPassword { retry: false, clear_screen: false },
            )
        } else {
            (
                DevicePhase::Settled { disposition: Disposition::AlreadyUnlocked },
                OrchAction::ProceedToNextDevice,
            )
        },
        (DevicePhase::AwaitLockStatus, OrchEvent::LockCheckFailed) => (
            DevicePhase::Settled { disposition: Disposition::Abandoned },
            OrchAction::ProceedToNextDevice,
        ),
        (DevicePhase::AwaitPassword { retries }, OrchEvent::PasswordEntered) => (
            DevicePhase::AwaitAttempt { retries },
            OrchAction::RunUnlockAttempt,
        ),
        (DevicePhase::AwaitAttempt { .. }, OrchEvent::AttemptSucceeded) => (
            DevicePhase::Settled { disposition: Disposition::Unlocked },
            OrchAction::ProceedToNextDevice,
        ),
        (DevicePhase::AwaitAttempt { retries }, OrchEvent::AttemptRejected) => (
            DevicePhase::AwaitPassword {
                retries: if retries < u64::MAX { retries + 1 } else { retries },
            },
            OrchAction::PromptPassword { retry: true, clear_screen: config.clear_on_retry },
        ),
        (DevicePhase::AwaitAttempt { .. }, OrchEvent::AttemptFailed) => (
            DevicePhase::Settled { disposition: Disposition::Abandoned },
            OrchAction::ProceedToNextDevice,
        ),
        _ => (p, OrchAction::ProceedToNextDevice),
    }
}

/// Law: the first successful attempt settles the device at once, a
/// settled device accepts no further event, and an unlock attempt runs
/// only in answer to a freshly entered password — so after `Ok(true)` the
/// attempt function is never invoked again for that device.
pub proof fn lemma_attempt_never_repeated_after_success(retries: u64, c: bool)
    ensures
        spec_step(DevicePhase::AwaitAttempt { retries }, OrchEvent::AttemptSucceeded, c)
            == (
            (DevicePhase::Settled { disposition: Disposition::Unlocked }),
            OrchAction::ProceedToNextDevice,
        ),
        forall|e: OrchEvent, d: Disposition| !event_fits(
            (DevicePhase::Settled { disposition: d }), e,
        ),
        forall|p: DevicePhase, e: OrchEvent, cc: bool|
            spec_step(p, e, cc).1 is RunUnlockAttempt
                ==> p is AwaitPassword && e is PasswordEntered,
{
}

/// Law: the retry prompt (with its configured screen clear) appears
/// exactly in answer to a rejected attempt, once per rejection.
pub proof fn lemma_retry_prompt_iff_rejection(p: DevicePhase, e: OrchEvent, c: bool)
    requires
        event_fits(p, e),
    ensures
        (spec_step(p, e, c).1 matches OrchAction::PromptPassword { retry: true, .. })
            <==> (p is AwaitAttempt && e is AttemptRejected),
        e is AttemptRejected && p is AwaitAttempt ==> spec_step(p, e, c).1
            == (OrchAction::PromptPassword { retry: true, clear_screen: c }),
{
}

} // verus!
