use vstd::prelude::*;

use crate::anchor::Anchor;
use crate::bootstrap::{run, transition, Action, BootstrapOptions, Event, FatalError, Phase};

verus! {

/// Running two batches of events one after the other is running them together.
pub proof fn lemma_run_append(opts: BootstrapOptions, phase: Phase, first: Seq<Event>, rest: Seq<Event>)
    ensures
        run(opts, phase, first + rest) == (
            run(opts, run(opts, phase, first).0, rest).0,
            run(opts, phase, first).1 + run(opts, run(opts, phase, first).0, rest).1,
        ),
    decreases first.len(),
{
    if first.len() == 0 {
        assert(first + rest =~= rest);
        assert(run(opts, phase, first).1 + run(opts, phase, rest).1 =~= run(opts, phase, rest).1);
    } else {
        let next = transition(opts, phase, first[0]).0;
        assert((first + rest).drop_first() =~= first.drop_first() + rest);
        lemma_run_append(opts, next, first.drop_first(), rest);
        let a = transition(opts, phase, first[0]).1;
        assert(seq![a] + (run(opts, next, first.drop_first()).1 + run(opts, run(opts, next, first.drop_first()).0, rest).1)
            =~= (seq![a] + run(opts, next, first.drop_first()).1) + run(opts, run(opts, next, first.drop_first()).0, rest).1);
    }
}

/// A run asks for one action per event.
pub proof fn lemma_run_len(opts: BootstrapOptions, phase: Phase, events: Seq<Event>)
    ensures
        run(opts, phase, events).1.len() == events.len(),
    decreases events.len(),
{
    if events.len() > 0 {
        lemma_run_len(opts, transition(opts, phase, events[0]).0, events.drop_first());
    }
}

/// Once terminated, an attempt stays terminated and asks for nothing more, whatever arrives.
pub proof fn lemma_terminated_is_final(opts: BootstrapOptions, error: FatalError, events: Seq<Event>)
    ensures
        run(opts, Phase::Terminated { error }, events).0 == (Phase::Terminated { error }),
        forall|i: int| 0 <= i < events.len() ==> run(opts, Phase::Terminated { error }, events).1[i] == Action::Stay,
    decreases events.len(),
{
    lemma_run_len(opts, Phase::Terminated { error }, events);
    if events.len() > 0 {
        lemma_terminated_is_final(opts, error, events.drop_first());
        let acts = run(opts, Phase::Terminated { error }, events).1;
        assert forall|i: int| 0 <= i < events.len() implies acts[i] == Action::Stay by {
            if i > 0 {
                assert(acts[i] == run(opts, Phase::Terminated { error }, events.drop_first()).1[i - 1]);
            }
        }
    }
}

/// When the decoded state reproduces the claimed slot and hash, the attempt loads
/// the state with that anchor and never terminates.
pub proof fn lemma_matching_checkpoint_loads(opts: BootstrapOptions, claim: Anchor, actual: Anchor)
    requires
        opts.snapshots_enabled,
        opts.account_path_count > 0,
        actual == claim,
    ensures
        run(opts, Phase::Start, seq![
            Event::Begin,
            Event::StagingReset { created: true },
            Event::Located { archive: Some(claim) },
            Event::Decoded { ok: true },
            Event::Measured { actual },
            Event::Replayed { ok: true },
        ]) == (Phase::Loaded { anchor: Some(actual) }, seq![
            Action::ResetStaging,
            Action::LocateArchive,
            Action::DecodeArchive,
            Action::PrepareDecoded { attach_shrink_paths: opts.has_shrink_paths, full_rehash: opts.force_full_rehash },
            Action::ReplayFromAnchor { anchor: actual },
            Action::Finish { anchor: Some(actual) },
        ]),
{
    reveal_with_fuel(run, 7);
    let evs = seq![
        Event::Begin,
        Event::StagingReset { created: true },
        Event::Located { archive: Some(claim) },
        Event::Decoded { ok: true },
        Event::Measured { actual },
        Event::Replayed { ok: true },
    ];
    assert(evs.drop_first().drop_first().drop_first().drop_first().drop_first().drop_first() =~= Seq::<Event>::empty());
    let r = run(opts, Phase::Start, evs);
    assert(r.1 =~= seq![
        Action::ResetStaging,
        Action::LocateArchive,
        Action::DecodeArchive,
        Action::PrepareDecoded { attach_shrink_paths: opts.has_shrink_paths, full_rehash: opts.force_full_rehash },
        Action::ReplayFromAnchor { anchor: actual },
        Action::Finish { anchor: Some(actual) },
    ]);
}

/// When the decoded state's accounts hash differs from the claimed one, the attempt
/// terminates as soon as the hash is read, and no later event makes it hand out a
/// loaded state.
pub proof fn lemma_mismatched_checkpoint_terminates(
    opts: BootstrapOptions,
    claim: Anchor,
    actual: Anchor,
    later: Seq<Event>,
)
    requires
        opts.snapshots_enabled,
        opts.account_path_count > 0,
        actual.hash != claim.hash,
    ensures
        ({
            let error = FatalError::AnchorMismatch { claimed: claim, actual };
            let (last, actions) = run(opts, Phase::Start, seq![
                Event::Begin,
                Event::StagingReset { created: true },
                Event::Located { archive: Some(claim) },
                Event::Decoded { ok: true },
                Event::Measured { actual },
            ] + later);
            &&& last == Phase::Terminated { error }
            &&& actions[4] == Action::Terminate { error }
            &&& forall|i: int| 0 <= i < actions.len() ==> !(actions[i] is Finish)
        }),
{
    let error = FatalError::AnchorMismatch { claimed: claim, actual };
    let first = seq![
        Event::Begin,
        Event::StagingReset { created: true },
        Event::Located { archive: Some(claim) },
        Event::Decoded { ok: true },
        Event::Measured { actual },
    ];
    reveal_with_fuel(run, 6);
    assert(first.drop_first().drop_first().drop_first().drop_first().drop_first() =~= Seq::<Event>::empty());
    let head = run(opts, Phase::Start, first);
    assert(head.0 == Phase::Terminated { error });
    assert(head.1 =~= seq![
        Action::ResetStaging,
        Action::LocateArchive,
        Action::DecodeArchive,
        Action::PrepareDecoded { attach_shrink_paths: opts.has_shrink_paths, full_rehash: opts.force_full_rehash },
        Action::Terminate { error },
    ]);
    lemma_run_append(opts, Phase::Start, first, later);
    lemma_terminated_is_final(opts, error, later);
    lemma_run_len(opts, Phase::Terminated { error }, later);
    let actions = run(opts, Phase::Start, first + later).1;
    assert forall|i: int| 0 <= i < actions.len() implies !(actions[i] is Finish) by {
        if i >= 5 {
            assert(actions[i] == run(opts, Phase::Terminated { error }, later).1[i - 5]);
        }
    }
}

/// The phases from which only a replay from genesis can follow.
pub open spec fn genesis_side(phase: Phase) -> bool {
    match phase {
        Phase::ReplayingGenesis | Phase::Loaded { anchor: None } | Phase::ReplayFailed => true,
        _ => false,
    }
}

/// The actions that a replay from genesis may ask for: no staging, no checkpoint,
/// and no anchor on the loaded state.
pub open spec fn genesis_action(action: Action) -> bool {
    match action {
        Action::ReplayFromGenesis | Action::Finish { anchor: None } | Action::ReportReplayError | Action::Stay => true,
        _ => false,
    }
}

/// Once on the genesis side, every later phase and action stays there.
pub proof fn lemma_genesis_side_is_closed(opts: BootstrapOptions, phase: Phase, events: Seq<Event>)
    requires
        genesis_side(phase),
    ensures
        genesis_side(run(opts, phase, events).0),
        forall|i: int| 0 <= i < events.len() ==> genesis_action(#[trigger] run(opts, phase, events).1[i]),
    decreases events.len(),
{
    lemma_run_len(opts, phase, events);
    if events.len() > 0 {
        let next = transition(opts, phase, events[0]).0;
        lemma_genesis_side_is_closed(opts, next, events.drop_first());
        let acts = run(opts, phase, events).1;
        assert forall|i: int| 0 <= i < events.len() implies genesis_action(#[trigger] acts[i]) by {
            if i > 0 {
                assert(acts[i] == run(opts, next, events.drop_first()).1[i - 1]);
            }
        }
    }
}

/// With snapshots disabled, an attempt replays from genesis, whatever follows: it
/// never touches staging or looks for a checkpoint, and loads with no anchor.
pub proof fn lemma_disabled_snapshots_replay_genesis(opts: BootstrapOptions, later: Seq<Event>)
    requires
        !opts.snapshots_enabled,
    ensures
        run(opts, Phase::Start, seq![Event::Begin] + later).1[0] == Action::ReplayFromGenesis,
        genesis_side(run(opts, Phase::Start, seq![Event::Begin] + later).0),
        forall|i: int| 0 <= i < later.len() + 1 ==>
            genesis_action(#[trigger] run(opts, Phase::Start, seq![Event::Begin] + later).1[i]),
{
    let evs = seq![Event::Begin] + later;
    assert(evs.drop_first() =~= later);
    lemma_genesis_side_is_closed(opts, Phase::ReplayingGenesis, later);
    lemma_run_len(opts, Phase::ReplayingGenesis, later);
    let acts = run(opts, Phase::Start, evs).1;
    assert forall|i: int| 0 <= i < later.len() + 1 implies genesis_action(#[trigger] acts[i]) by {
        if i > 0 {
            assert(acts[i] == run(opts, Phase::ReplayingGenesis, later).1[i - 1]);
        }
    }
}

/// When the locator finds no checkpoint, the attempt falls back to a replay from
/// genesis, whatever follows, and loads with no anchor.
pub proof fn lemma_no_checkpoint_replays_genesis(opts: BootstrapOptions, later: Seq<Event>)
    ensures
        run(opts, Phase::Locating, seq![Event::Located { archive: None }] + later).1[0] == Action::ReplayFromGenesis,
        genesis_side(run(opts, Phase::Locating, seq![Event::Located { archive: None }] + later).0),
        forall|i: int| 0 <= i < later.len() + 1 ==>
            genesis_action(#[trigger] run(opts, Phase::Locating, seq![Event::Located { archive: None }] + later).1[i]),
{
    let evs = seq![Event::Located { archive: None }] + later;
    assert(evs.drop_first() =~= later);
    lemma_genesis_side_is_closed(opts, Phase::ReplayingGenesis, later);
    lemma_run_len(opts, Phase::ReplayingGenesis, later);
    let acts = run(opts, Phase::Locating, evs).1;
    assert forall|i: int| 0 <= i < later.len() + 1 implies genesis_action(#[trigger] acts[i]) by {
        if i > 0 {
            assert(acts[i] == run(opts, Phase::ReplayingGenesis, later).1[i - 1]);
        }
    }
}

/// The phases in which a checkpoint is being restored.
pub open spec fn restoring(phase: Phase) -> bool {
    match phase {
        Phase::Decoding { .. } | Phase::Measuring { .. } | Phase::ReplayingFromAnchor { .. } => true,
        _ => false,
    }
}

/// Without account directories no checkpoint is ever decoded: a located checkpoint
/// terminates the attempt at once, and from any phase outside restoration no event
/// leads to a decode.
pub proof fn lemma_no_account_paths_never_decode(opts: BootstrapOptions, phase: Phase, events: Seq<Event>)
    requires
        opts.account_path_count == 0,
        !restoring(phase),
    ensures
        forall|claim: Anchor| #[trigger] transition(opts, Phase::Locating, Event::Located { archive: Some(claim) })
            == (Phase::Terminated { error: FatalError::MissingAccountPaths },
                Action::Terminate { error: FatalError::MissingAccountPaths }),
        !restoring(run(opts, phase, events).0),
        forall|i: int| 0 <= i < events.len() ==> #[trigger] run(opts, phase, events).1[i] != Action::DecodeArchive,
    decreases events.len(),
{
    lemma_run_len(opts, phase, events);
    if events.len() > 0 {
        let next = transition(opts, phase, events[0]).0;
        lemma_no_account_paths_never_decode(opts, next, events.drop_first());
        let acts = run(opts, phase, events).1;
        assert forall|i: int| 0 <= i < events.len() implies #[trigger] acts[i] != Action::DecodeArchive by {
            if i > 0 {
                assert(acts[i] == run(opts, next, events.drop_first()).1[i - 1]);
            }
        }
    }
}

/// The phases reached only through a successful reset of the staging directory.
pub open spec fn after_staging_reset(phase: Phase) -> bool {
    match phase {
        Phase::Locating | Phase::Decoding { .. } | Phase::Measuring { .. } | Phase::ReplayingFromAnchor { .. } => true,
        _ => false,
    }
}

/// What must have happened before a decode in a run from `phase`.
pub open spec fn decode_is_preceded(phase: Phase, events: Seq<Event>, actions: Seq<Action>, j: int) -> bool {
    if after_staging_reset(phase) {
        true
    } else if phase == Phase::ResettingStaging {
        exists|i: int| 0 <= i < j && #[trigger] events[i] == (Event::StagingReset { created: true })
    } else if phase == Phase::Start {
        exists|k: int, i: int|
            0 <= k < i < j && #[trigger] actions[k] == Action::ResetStaging
                && #[trigger] events[i] == (Event::StagingReset { created: true })
    } else {
        false
    }
}

/// The step behind `lemma_every_restore_follows_staging_reset`, from any phase.
pub proof fn lemma_decode_is_preceded(opts: BootstrapOptions, phase: Phase, events: Seq<Event>)
    ensures
        forall|j: int| 0 <= j < events.len() && #[trigger] run(opts, phase, events).1[j] == Action::DecodeArchive
            ==> decode_is_preceded(phase, events, run(opts, phase, events).1, j),
    decreases events.len(),
{
    lemma_run_len(opts, phase, events);
    if events.len() > 0 {
        let e = events[0];
        let next = transition(opts, phase, e).0;
        let rest = events.drop_first();
        lemma_decode_is_preceded(opts, next, rest);
        let acts = run(opts, phase, events).1;
        let later = run(opts, next, rest).1;
        assert forall|j: int| 0 <= j < events.len() && #[trigger] acts[j] == Action::DecodeArchive
            implies decode_is_preceded(phase, events, acts, j) by {
            if !after_staging_reset(phase) {
                assert(j > 0);
                assert(acts[j] == later[j - 1]);
                assert(decode_is_preceded(next, rest, later, j - 1));
                if phase == Phase::ResettingStaging {
                    if after_staging_reset(next) {
                        assert(events[0] == (Event::StagingReset { created: true }));
                    } else {
                        let i = choose|i: int| 0 <= i < j - 1 && #[trigger] rest[i] == (Event::StagingReset { created: true });
                        assert(events[i + 1] == rest[i]);
                    }
                } else if phase == Phase::Start {
                    if next == Phase::ResettingStaging {
                        let i = choose|i: int| 0 <= i < j - 1 && #[trigger] rest[i] == (Event::StagingReset { created: true });
                        assert(events[i + 1] == rest[i]);
                        assert(acts[0] == Action::ResetStaging);
                    } else {
                        let (k, i) = choose|k: int, i: int|
                            0 <= k < i < j - 1 && #[trigger] later[k] == Action::ResetStaging
                                && #[trigger] rest[i] == (Event::StagingReset { created: true });
                        assert(events[i + 1] == rest[i]);
                        assert(acts[k + 1] == later[k]);
                    }
                }
            }
        }
    }
}

/// In every bootstrap attempt, whatever the events, a checkpoint is decoded only
/// after the attempt asked for the staging directory to be reset and heard that it
/// was created again: no file of an earlier attempt is left in it.
pub proof fn lemma_every_restore_follows_staging_reset(opts: BootstrapOptions, events: Seq<Event>, j: int)
    requires
        0 <= j < events.len(),
        run(opts, Phase::Start, events).1[j] == Action::DecodeArchive,
    ensures
        exists|k: int, i: int|
            0 <= k < i < j && #[trigger] run(opts, Phase::Start, events).1[k] == Action::ResetStaging
                && #[trigger] events[i] == (Event::StagingReset { created: true }),
{
    lemma_decode_is_preceded(opts, Phase::Start, events);
}

/// What must have happened in a run from `phase` before it loads with anchor `a` at step `j`.
pub open spec fn anchor_is_backed(phase: Phase, events: Seq<Event>, a: Anchor, j: int) -> bool {
    match phase {
        Phase::Start | Phase::ResettingStaging | Phase::Locating =>
            exists|i1: int, i2: int|
                0 <= i1 < i2 < j && #[trigger] events[i1] == (Event::Located { archive: Some(a) })
                    && #[trigger] events[i2] == (Event::Measured { actual: a }),
        Phase::Decoding { claim } | Phase::Measuring { claim } =>
            a == claim && exists|i2: int| 0 <= i2 < j && #[trigger] events[i2] == (Event::Measured { actual: a }),
        Phase::ReplayingFromAnchor { anchor } => a == anchor,
        _ => false,
    }
}

/// Whether the action at step `j` loads with an anchor that the run has backed.
pub open spec fn finish_is_backed(phase: Phase, events: Seq<Event>, actions: Seq<Action>, j: int) -> bool {
    match actions[j] {
        Action::Finish { anchor: Some(a) } => anchor_is_backed(phase, events, a, j),
        _ => true,
    }
}

/// The step behind `lemma_loaded_anchor_is_verified`, from any phase.
pub proof fn lemma_finish_is_backed(opts: BootstrapOptions, phase: Phase, events: Seq<Event>)
    ensures
        forall|j: int| 0 <= j < events.len() ==> #[trigger] finish_is_backed(phase, events, run(opts, phase, events).1, j),
    decreases events.len(),
{
    lemma_run_len(opts, phase, events);
    if events.len() > 0 {
        let next = transition(opts, phase, events[0]).0;
        let rest = events.drop_first();
        lemma_finish_is_backed(opts, next, rest);
        let acts = run(opts, phase, events).1;
        let later = run(opts, next, rest).1;
        assert forall|j: int| 0 <= j < events.len() implies #[trigger] finish_is_backed(phase, events, acts, j) by {
            if j > 0 {
                assert(acts[j] == later[j - 1]);
                assert(finish_is_backed(next, rest, later, j - 1));
                if let Action::Finish { anchor: Some(a) } = acts[j] {
                    assert(anchor_is_backed(next, rest, a, j - 1));
                    match next {
                        Phase::Start | Phase::ResettingStaging | Phase::Locating => {
                            let (i1, i2) = choose|i1: int, i2: int|
                                0 <= i1 < i2 < j - 1 && #[trigger] rest[i1] == (Event::Located { archive: Some(a) })
                                    && #[trigger] rest[i2] == (Event::Measured { actual: a });
                            assert(events[i1 + 1] == rest[i1]);
                            assert(events[i2 + 1] == rest[i2]);
                        },
                        Phase::Decoding { claim } | Phase::Measuring { claim } => {
                            let i2 = choose|i2: int| 0 <= i2 < j - 1 && #[trigger] rest[i2] == (Event::Measured { actual: a });
                            assert(events[i2 + 1] == rest[i2]);
                        },
                        _ => {},
                    }
                }
            }
        }
    }
}

/// In every bootstrap attempt, whatever the events, a loaded state handed out with
/// an anchor carries one that a located checkpoint claimed and that was then read,
/// identical, from the decoded state.
pub proof fn lemma_loaded_anchor_is_verified(opts: BootstrapOptions, events: Seq<Event>, j: int, a: Anchor)
    requires
        0 <= j < events.len(),
        run(opts, Phase::Start, events).1[j] == (Action::Finish { anchor: Some(a) }),
    ensures
        exists|i1: int, i2: int|
            0 <= i1 < i2 < j && #[trigger] events[i1] == (Event::Located { archive: Some(a) })
                && #[trigger] events[i2] == (Event::Measured { actual: a }),
{
    lemma_finish_is_backed(opts, Phase::Start, events);
    assert(finish_is_backed(Phase::Start, events, run(opts, Phase::Start, events).1, j));
}

} // verus!
