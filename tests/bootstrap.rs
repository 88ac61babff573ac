use ledger_bootstrap::anchor::{AccountsHash, Anchor};
use ledger_bootstrap::bootstrap::{step, Action, BootstrapOptions, Event, FatalError, Phase};
use ledger_bootstrap::load::to_loadresult;

fn hash_of(seed: u8) -> AccountsHash {
    let mut bytes = [0u8; 32];
    for (i, b) in bytes.iter_mut().enumerate() {
        *b = seed.wrapping_add(i as u8);
    }
    AccountsHash { bytes }
}

fn anchor(slot: u64, seed: u8) -> Anchor {
    Anchor { slot, hash: hash_of(seed) }
}

fn options(snapshots_enabled: bool, account_path_count: usize) -> BootstrapOptions {
    BootstrapOptions {
        snapshots_enabled,
        account_path_count,
        has_shrink_paths: false,
        force_full_rehash: false,
    }
}

fn drive(opts: &BootstrapOptions, events: &[Event]) -> (Phase, Vec<Action>) {
    let mut phase = Phase::Start;
    let mut actions = Vec::new();
    for event in events {
        let (next, action) = step(opts, &phase, event);
        phase = next;
        actions.push(action);
    }
    (phase, actions)
}

fn restore_events(claim: Anchor, actual: Anchor) -> Vec<Event> {
    vec![
        Event::Begin,
        Event::StagingReset { created: true },
        Event::Located { archive: Some(claim) },
        Event::Decoded { ok: true },
        Event::Measured { actual },
        Event::Replayed { ok: true },
    ]
}

#[test]
fn scenario_genesis_replay_without_snapshot_config() {
    let opts = options(false, 1);
    let (phase, actions) = drive(&opts, &[Event::Begin, Event::Replayed { ok: true }]);
    assert_eq!(actions, vec![Action::ReplayFromGenesis, Action::Finish { anchor: None }]);
    assert_eq!(phase, Phase::Loaded { anchor: None });
    let entries: Vec<u64> = (0..=10).collect();
    let loaded = to_loadresult::<Vec<u64>, &str, String>(Ok((entries.clone(), "schedule")), None);
    assert_eq!(loaded, Ok((entries, "schedule", None)));
}

#[test]
fn scenario_verified_checkpoint_replays_from_anchor() {
    let opts = options(true, 2);
    let h = anchor(500, 7);
    let (phase, actions) = drive(&opts, &restore_events(h, h));
    assert_eq!(
        actions,
        vec![
            Action::ResetStaging,
            Action::LocateArchive,
            Action::DecodeArchive,
            Action::PrepareDecoded { attach_shrink_paths: false, full_rehash: false },
            Action::ReplayFromAnchor { anchor: h },
            Action::Finish { anchor: Some(h) },
        ]
    );
    assert_eq!(phase, Phase::Loaded { anchor: Some(h) });
    let loaded = to_loadresult::<u32, u32, String>(Ok((1, 2)), Some(h));
    assert_eq!(loaded, Ok((1, 2, Some(anchor(500, 7)))));
}

#[test]
fn scenario_hash_mismatch_terminates() {
    let opts = options(true, 2);
    let claim = anchor(500, 7);
    let actual = anchor(500, 8);
    let (phase, actions) = drive(&opts, &restore_events(claim, actual));
    let error = FatalError::AnchorMismatch { claimed: claim, actual };
    assert_eq!(actions[4], Action::Terminate { error });
    assert_eq!(actions[5], Action::Stay);
    assert_eq!(phase, Phase::Terminated { error });
    assert!(!actions.iter().any(|a| matches!(a, Action::Finish { .. })));
}

#[test]
fn matching_checkpoint_loads_with_anchor() {
    let opts = BootstrapOptions {
        snapshots_enabled: true,
        account_path_count: 1,
        has_shrink_paths: true,
        force_full_rehash: true,
    };
    let a = anchor(42, 200);
    let (phase, actions) = drive(&opts, &restore_events(a, a));
    assert_eq!(actions[3], Action::PrepareDecoded { attach_shrink_paths: true, full_rehash: true });
    assert_eq!(phase, Phase::Loaded { anchor: Some(a) });
    assert!(!actions.iter().any(|a| matches!(a, Action::Terminate { .. })));
}

#[test]
fn slot_mismatch_terminates() {
    let opts = options(true, 1);
    let claim = anchor(500, 7);
    let actual = anchor(499, 7);
    let (phase, _) = drive(&opts, &restore_events(claim, actual));
    assert_eq!(phase, Phase::Terminated { error: FatalError::AnchorMismatch { claimed: claim, actual } });
}

#[test]
fn hash_differing_in_last_byte_is_a_mismatch() {
    let a = hash_of(3);
    let mut b = a;
    b.bytes[31] ^= 1;
    assert!(a.same_as(&a));
    assert!(!a.same_as(&b));
    assert!(!anchor(1, 3).same_as(&anchor(2, 3)));
    assert!(anchor(9, 3).same_as(&anchor(9, 3)));
}

#[test]
fn disabled_snapshots_ignore_checkpoints() {
    let opts = options(false, 1);
    let claim = anchor(500, 7);
    let (phase, actions) = drive(
        &opts,
        &[
            Event::Begin,
            Event::Located { archive: Some(claim) },
            Event::StagingReset { created: true },
            Event::Replayed { ok: true },
        ],
    );
    assert_eq!(
        actions,
        vec![Action::ReplayFromGenesis, Action::Stay, Action::Stay, Action::Finish { anchor: None }]
    );
    assert_eq!(phase, Phase::Loaded { anchor: None });
}

#[test]
fn missing_checkpoint_falls_back_to_genesis() {
    let opts = options(true, 1);
    let (phase, actions) = drive(
        &opts,
        &[
            Event::Begin,
            Event::StagingReset { created: true },
            Event::Located { archive: None },
            Event::Replayed { ok: true },
        ],
    );
    assert_eq!(
        actions,
        vec![
            Action::ResetStaging,
            Action::LocateArchive,
            Action::ReplayFromGenesis,
            Action::Finish { anchor: None },
        ]
    );
    assert_eq!(phase, Phase::Loaded { anchor: None });
}

#[test]
fn every_attempt_starts_by_resetting_staging() {
    let opts = options(true, 1);
    for _ in 0..2 {
        let (next, action) = step(&opts, &Phase::Start, &Event::Begin);
        assert_eq!(action, Action::ResetStaging);
        assert_eq!(next, Phase::ResettingStaging);
    }
    let (_, action) = step(&opts, &Phase::Start, &Event::Located { archive: Some(anchor(1, 1)) });
    assert_eq!(action, Action::Stay);
}

#[test]
fn staging_creation_failure_terminates() {
    let opts = options(true, 1);
    let (phase, actions) = drive(&opts, &[Event::Begin, Event::StagingReset { created: false }]);
    let error = FatalError::StagingNotCreated;
    assert_eq!(actions[1], Action::Terminate { error });
    assert_eq!(phase, Phase::Terminated { error });
}

#[test]
fn empty_account_paths_terminate_before_decode() {
    let opts = options(true, 0);
    let (phase, actions) = drive(&opts, &restore_events(anchor(500, 7), anchor(500, 7)));
    let error = FatalError::MissingAccountPaths;
    assert_eq!(actions[2], Action::Terminate { error });
    assert!(!actions.contains(&Action::DecodeArchive));
    assert_eq!(phase, Phase::Terminated { error });
}

#[test]
fn decode_failure_terminates() {
    let opts = options(true, 1);
    let (phase, actions) = drive(
        &opts,
        &[
            Event::Begin,
            Event::StagingReset { created: true },
            Event::Located { archive: Some(anchor(500, 7)) },
            Event::Decoded { ok: false },
            Event::Replayed { ok: true },
        ],
    );
    let error = FatalError::UndecodableArchive;
    assert_eq!(actions[3], Action::Terminate { error });
    assert_eq!(actions[4], Action::Stay);
    assert_eq!(phase, Phase::Terminated { error });
}

#[test]
fn genesis_replay_error_is_reported() {
    let opts = options(false, 0);
    let (phase, actions) = drive(&opts, &[Event::Begin, Event::Replayed { ok: false }]);
    assert_eq!(actions[1], Action::ReportReplayError);
    assert_eq!(phase, Phase::ReplayFailed);
    let loaded = to_loadresult::<u32, u32, String>(Err("bad entry".to_string()), None);
    assert_eq!(loaded, Err("bad entry".to_string()));
}

#[test]
fn catch_up_replay_error_is_reported() {
    let opts = options(true, 1);
    let a = anchor(500, 7);
    let mut events = restore_events(a, a);
    events[5] = Event::Replayed { ok: false };
    let (phase, actions) = drive(&opts, &events);
    assert_eq!(actions[5], Action::ReportReplayError);
    assert_eq!(phase, Phase::ReplayFailed);
}
