use vstd::prelude::*;

use crate::anchor::Anchor;

verus! {

/// What the bootstrap needs to know of its configuration to make its decisions.
#[derive(Clone, Copy, Debug, PartialEq, Eq)]
pub struct BootstrapOptions {
    /// A snapshot configuration was given.
    pub snapshots_enabled: bool,
    /// How many account storage directories were given.
    pub account_path_count: usize,
    /// Shrink directories were given, to be attached to a decoded state.
    pub has_shrink_paths: bool,
    /// Recompute the accounts hash over the whole index before comparing.
    pub force_full_rehash: bool,
}

/// A condition under which the node must stop at once rather than go on.
#[derive(Clone, Copy, Debug, PartialEq, Eq)]
pub enum FatalError {
    /// The staging directory could not be created.
    StagingNotCreated,
    /// A checkpoint was found but no account storage directory was given.
    MissingAccountPaths,
    /// The checkpoint could not be decoded.
    UndecodableArchive,
    /// The decoded state does not reproduce what the checkpoint claims to be.
    AnchorMismatch { claimed: Anchor, actual: Anchor },
}

/// Where one bootstrap attempt stands.
#[derive(Clone, Copy, Debug, PartialEq, Eq)]
pub enum Phase {
    /// Nothing done yet.
    Start,
    /// The staging directory is being wiped and created again.
    ResettingStaging,
    /// The highest checkpoint under the archive directory is being looked up.
    Locating,
    /// A checkpoint that claims `claim` is being decoded.
    Decoding { claim: Anchor },
    /// The decoded state is being prepared and its slot and hash read.
    Measuring { claim: Anchor },
    /// The whole ledger is being replayed from its origin.
    ReplayingGenesis,
    /// Entries newer than the verified `anchor` are being replayed.
    ReplayingFromAnchor { anchor: Anchor },
    /// Done: the loaded state may be handed out with this anchor.
    Loaded { anchor: Option<Anchor> },
    /// Done: replay failed, and its error goes back to the caller.
    ReplayFailed,
    /// Done: the process must terminate.
    Terminated { error: FatalError },
}

/// What the outside world reports back after an action.
#[derive(Clone, Copy, Debug, PartialEq, Eq)]
pub enum Event {
    /// The attempt begins.
    Begin,
    /// The staging directory was wiped; `created` tells whether it could be made again.
    StagingReset { created: bool },
    /// The locator answered, with the claim of the highest checkpoint if any.
    Located { archive: Option<Anchor> },
    /// Decoding finished; `ok` tells whether it succeeded.
    Decoded { ok: bool },
    /// The slot and accounts hash of the decoded state.
    Measured { actual: Anchor },
    /// Replay finished; `ok` tells whether it succeeded.
    Replayed { ok: bool },
}

/// What the outside world is asked to do next.
#[derive(Clone, Copy, Debug, PartialEq, Eq)]
pub enum Action {
    /// Remove the staging directory if present and create it empty.
    ResetStaging,
    /// Ask the locator for the highest checkpoint under the archive directory.
    LocateArchive,
    /// Replay the whole ledger from its origin.
    ReplayFromGenesis,
    /// Decode the located checkpoint into the account storage directories.
    DecodeArchive,
    /// Attach the shrink directories and recompute the accounts hash where asked,
    /// then read the slot and accounts hash of the decoded state.
    PrepareDecoded { attach_shrink_paths: bool, full_rehash: bool },
    /// Replay the entries newer than the verified anchor.
    ReplayFromAnchor { anchor: Anchor },
    /// Hand the loaded state to the caller with this anchor.
    Finish { anchor: Option<Anchor> },
    /// Hand the replay error to the caller.
    ReportReplayError,
    /// Log the error and terminate the process.
    Terminate { error: FatalError },
    /// Nothing to do: the event does not apply in this phase.
    Stay,
}

/// The decisions of the top-level selector: reset staging, locate, pick a strategy.
pub open spec fn select_transition(opts: BootstrapOptions, phase: Phase, event: Event) -> (Phase, Action) {
    match (phase, event) {
        (Phase::Start, Event::Begin) =>
            if opts.snapshots_enabled {
                (Phase::ResettingStaging, Action::ResetStaging)
            } else {
                (Phase::ReplayingGenesis, Action::ReplayFromGenesis)
            },
        (Phase::ResettingStaging, Event::StagingReset { created }) =>
            if created {
                (Phase::Locating, Action::LocateArchive)
            } else {
                let error = FatalError::StagingNotCreated;
                (Phase::Terminated { error }, Action::Terminate { error })
            },
        (Phase::Locating, Event::Located { archive: None }) =>
            (Phase::ReplayingGenesis, Action::ReplayFromGenesis),
        _ => (phase, Action::Stay),
    }
}

/// The decisions of snapshot restoration: check the account directories, decode,
/// compare the decoded anchor with the claimed one, and replay from it.
pub open spec fn restore_transition(opts: BootstrapOptions, phase: Phase, event: Event) -> (Phase, Action) {
    match (phase, event) {
        (Phase::Locating, Event::Located { archive: Some(claim) }) =>
            if opts.account_path_count == 0 {
                let error = FatalError::MissingAccountPaths;
                (Phase::Terminated { error }, Action::Terminate { error })
            } else {
                (Phase::Decoding { claim }, Action::DecodeArchive)
            },
        (Phase::Decoding { claim }, Event::Decoded { ok }) =>
            if ok {
                (
                    Phase::Measuring { claim },
                    Action::PrepareDecoded {
                        attach_shrink_paths: opts.has_shrink_paths,
                        full_rehash: opts.force_full_rehash,
                    },
                )
            } else {
                let error = FatalError::UndecodableArchive;
                (Phase::Terminated { error }, Action::Terminate { error })
            },
        (Phase::Measuring { claim }, Event::Measured { actual }) =>
            if actual == claim {
                (Phase::ReplayingFromAnchor { anchor: actual }, Action::ReplayFromAnchor { anchor: actual })
            } else {
                let error = FatalError::AnchorMismatch { claimed: claim, actual };
                (Phase::Terminated { error }, Action::Terminate { error })
            },
        (Phase::ReplayingFromAnchor { anchor }, Event::Replayed { ok }) =>
            replay_outcome(Some(anchor), ok),
        _ => (phase, Action::Stay),
    }
}

/// How a finished replay ends the attempt.
pub open spec fn replay_outcome(anchor: Option<Anchor>, ok: bool) -> (Phase, Action) {
    if ok {
        (Phase::Loaded { anchor }, Action::Finish { anchor })
    } else {
        (Phase::ReplayFailed, Action::ReportReplayError)
    }
}

/// One step of a bootstrap attempt: the next phase and the action to perform.
pub open spec fn transition(opts: BootstrapOptions, phase: Phase, event: Event) -> (Phase, Action) {
    match phase {
        Phase::Start | Phase::ResettingStaging => select_transition(opts, phase, event),
        Phase::Locating => match event {
            Event::Located { archive: Some(_) } => restore_transition(opts, phase, event),
            _ => select_transition(opts, phase, event),
        },
        Phase::ReplayingGenesis => match event {
            Event::Replayed { ok } => replay_outcome(None, ok),
            _ => (phase, Action::Stay),
        },
        Phase::Decoding { .. } | Phase::Measuring { .. } | Phase::ReplayingFromAnchor { .. } =>
            restore_transition(opts, phase, event),
        _ => (phase, Action::Stay),
    }
}

/// The phase reached and the actions asked for, when `events` arrive one by one from `phase`.
pub open spec fn run(opts: BootstrapOptions, phase: Phase, events: Seq<Event>) -> (Phase, Seq<Action>)
    decreases events.len(),
{
    if events.len() == 0 {
        (phase, Seq::empty())
    } else {
        let (next, action) = transition(opts, phase, events[0]);
        let (last, actions) = run(opts, next, events.drop_first());
        (last, seq![action] + actions)
    }
}

/// The selector's decision on `event` in `phase`: reset the staging directory when
/// snapshots are enabled, then look for a checkpoint; replay from genesis when
/// snapshots are disabled or none is found.
pub fn select_step(opts: &BootstrapOptions, phase: &Phase, event: &Event) -> (r: (Phase, Action))
    ensures
        r == select_transition(*opts, *phase, *event),
{
    match (*phase, *event) {
        (Phase::Start, Event::Begin) => {
            if opts.snapshots_enabled {
                (Phase::ResettingStaging, Action::ResetStaging)
            } else {
                (Phase::ReplayingGenesis, Action::ReplayFromGenesis)
            }
        },
        (Phase::ResettingStaging, Event::StagingReset { created }) => {
            if created {
                (Phase::Locating, Action::LocateArchive)
            } else {
                let error = FatalError::StagingNotCreated;
                (Phase::Terminated { error }, Action::Terminate { error })
            }
        },
        (Phase::Locating, Event::Located { archive: None }) => {
            (Phase::ReplayingGenesis, Action::ReplayFromGenesis)
        },
        _ => (*phase, Action::Stay),
    }
}

/// The restorer's decision on `event` in `phase`: terminate on missing account
/// directories, on a failed decode and on a decoded anchor that differs from the
/// claimed one; otherwise replay from the verified anchor.
pub fn restore_step(opts: &BootstrapOptions, phase: &Phase, event: &Event) -> (r: (Phase, Action))
    ensures
        r == restore_transition(*opts, *phase, *event),
{
    match (*phase, *event) {
        (Phase::Locating, Event::Located { archive: Some(claim) }) => {
            if opts.account_path_count == 0 {
                let error = FatalError::MissingAccountPaths;
                (Phase::Terminated { error }, Action::Terminate { error })
            } else {
                (Phase::Decoding { claim }, Action::DecodeArchive)
            }
        },
        (Phase::Decoding { claim }, Event::Decoded { ok }) => {
            if ok {
                let action = Action::PrepareDecoded {
                    attach_shrink_paths: opts.has_shrink_paths,
                    full_rehash: opts.force_full_rehash,
                };
                (Phase::Measuring { claim }, action)
            } else {
                let error = FatalError::UndecodableArchive;
                (Phase::Terminated { error }, Action::Terminate { error })
            }
        },
        (Phase::Measuring { claim }, Event::Measured { actual }) => {
            if actual.same_as(&claim) {
                (Phase::ReplayingFromAnchor { anchor: actual }, Action::ReplayFromAnchor { anchor: actual })
            } else {
                let error = FatalError::AnchorMismatch { claimed: claim, actual };
                (Phase::Terminated { error }, Action::Terminate { error })
            }
        },
        (Phase::ReplayingFromAnchor { anchor }, Event::Replayed { ok }) => {
            finish_replay(Some(anchor), ok)
        },
        _ => (*phase, Action::Stay),
    }
}

/// How a finished replay ends the attempt: the loaded state with `anchor`, or the
/// replay error handed back.
pub fn finish_replay(anchor: Option<Anchor>, ok: bool) -> (r: (Phase, Action))
    ensures
        r == replay_outcome(anchor, ok),
{
    if ok {
        (Phase::Loaded { anchor }, Action::Finish { anchor })
    } else {
        (Phase::ReplayFailed, Action::ReportReplayError)
    }
}

/// The genesis bootstrapper's decision: a replay from the origin ends with no anchor.
pub fn genesis_step(phase: &Phase, event: &Event) -> (r: (Phase, Action))
    requires
        *phase == Phase::ReplayingGenesis,
    ensures
        r == (match *event {
            Event::Replayed { ok } => replay_outcome(None, ok),
            _ => (*phase, Action::Stay),
        }),
{
    match *event {
        Event::Replayed { ok } => finish_replay(None, ok),
        _ => (*phase, Action::Stay),
    }
}

/// One step of a bootstrap attempt: given the phase and what the outside world
/// reported, the next phase and the action to perform.
pub fn step(opts: &BootstrapOptions, phase: &Phase, event: &Event) -> (r: (Phase, Action))
    ensures
        r == transition(*opts, *phase, *event),
{
    match *phase {
        Phase::Start | Phase::ResettingStaging => select_step(opts, phase, event),
        Phase::Locating => match *event {
            Event::Located { archive: Some(_) } => restore_step(opts, phase, event),
            _ => select_step(opts, phase, event),
        },
        Phase::ReplayingGenesis => genesis_step(phase, event),
        Phase::Decoding { .. } | Phase::Measuring { .. } | Phase::ReplayingFromAnchor { .. } =>
            restore_step(opts, phase, event),
        _ => (*phase, Action::Stay),
    }
}

} // verus!
