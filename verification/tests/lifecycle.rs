use shardlabel::api::{ShardingRuleSpec, SHARD_LABEL};
use shardlabel::lifecycle::{
    start, step, Command, DiscoveryError, ReconcilerEvent, ReconcilerState, ResourceDescriptor, Scope,
    REQUEUE_SECONDS,
};
use shardlabel::object::{Label, TargetObject};

fn rule(sharding_count: i32) -> ShardingRuleSpec {
    ShardingRuleSpec { group: "apps".to_string(), kind: "Deployment".to_string(), sharding_count }
}

fn deployments() -> ResourceDescriptor {
    ResourceDescriptor {
        group: "apps".to_string(),
        version: "v1".to_string(),
        kind: "Deployment".to_string(),
        plural: "deployments".to_string(),
        scope: Scope::Namespaced,
    }
}

fn unlabelled(name: &str) -> TargetObject {
    TargetObject { namespace: Some("ns1".to_string()), name: name.to_string(), labels: vec![] }
}

fn watching(sharding_count: i32) -> ReconcilerState {
    let (state, _) = start(rule(sharding_count));
    let (state, _) = step(state, ReconcilerEvent::Discovered(deployments()));
    state
}

#[test]
fn created_rule_starts_with_discovery() {
    let (state, command) = start(rule(4));
    assert!(matches!(state, ReconcilerState::Starting { ref rule } if rule.sharding_count == 4));
    assert!(matches!(command, Command::Discover));
}

#[test]
fn discovery_leads_to_watching() {
    let (state, _) = start(rule(4));
    let (state, command) = step(state, ReconcilerEvent::Discovered(deployments()));
    assert!(matches!(command, Command::StartWatcher));
    match state {
        ReconcilerState::Watching { rule, resource } => {
            assert_eq!(rule.kind, "Deployment");
            assert_eq!(resource.plural, "deployments");
            assert_eq!(resource.version, "v1");
            assert_eq!(resource.scope, Scope::Namespaced);
        }
        other => panic!("unexpected state {other:?}"),
    }
}

#[test]
fn failed_discovery_ends_the_reconciler() {
    for error in [DiscoveryError::ResourceNotFound, DiscoveryError::KindNotFound] {
        let (state, _) = start(rule(4));
        let (state, command) = step(state, ReconcilerEvent::DiscoveryFailed(error));
        assert!(matches!(state, ReconcilerState::Terminated));
        assert!(matches!(command, Command::Abort(reported) if reported == error));
    }
}

#[test]
fn delivered_object_is_reconciled_and_requeued() {
    let (state, command) = step(watching(4), ReconcilerEvent::ObjectChanged(unlabelled("foo")));
    assert!(matches!(state, ReconcilerState::Watching { .. }));
    match command {
        Command::Reconciled { patch, requeue_after_secs } => {
            let patch = patch.unwrap();
            assert_eq!(patch.value, "3/4");
            assert_eq!(patch.path, "/metadata/labels/shardlabel.sof3.github.io~1object-shard");
            assert_eq!(requeue_after_secs, 1);
            assert_eq!(requeue_after_secs, REQUEUE_SECONDS);
        }
        other => panic!("unexpected command {other:?}"),
    }
}

#[test]
fn up_to_date_object_is_requeued_without_patch() {
    let mut fresh = unlabelled("foo");
    fresh.labels.push(Label { key: SHARD_LABEL.to_string(), value: "3/4".to_string() });
    let (_, command) = step(watching(4), ReconcilerEvent::ObjectChanged(fresh));
    assert!(matches!(command, Command::Reconciled { patch: None, requeue_after_secs: 1 }));
}

#[test]
fn spec_update_restarts_from_discovery() {
    let (state, command) = step(watching(4), ReconcilerEvent::SpecUpdated(rule(8)));
    assert!(matches!(command, Command::CancelWatcher));
    assert!(matches!(state, ReconcilerState::Restarting { ref rule } if rule.sharding_count == 8));

    let (state, command) = step(state, ReconcilerEvent::ObjectChanged(unlabelled("foo")));
    assert!(matches!(command, Command::Nothing));

    let (state, command) = step(state, ReconcilerEvent::WatcherStopped);
    assert!(matches!(command, Command::Discover));
    assert!(matches!(state, ReconcilerState::Starting { ref rule } if rule.sharding_count == 8));

    let (state, command) = step(state, ReconcilerEvent::Discovered(deployments()));
    assert!(matches!(command, Command::StartWatcher));
    let (_, command) = step(state, ReconcilerEvent::ObjectChanged(unlabelled("foo")));
    match command {
        Command::Reconciled { patch: Some(patch), .. } => assert!(patch.value.ends_with("/8")),
        other => panic!("unexpected command {other:?}"),
    }
}

#[test]
fn spec_update_while_starting_discovers_again() {
    let (state, _) = start(rule(4));
    let (state, command) = step(state, ReconcilerEvent::SpecUpdated(rule(2)));
    assert!(matches!(command, Command::Discover));
    assert!(matches!(state, ReconcilerState::Starting { ref rule } if rule.sharding_count == 2));
}

#[test]
fn latest_spec_wins_while_restarting() {
    let (state, _) = step(watching(4), ReconcilerEvent::SpecUpdated(rule(8)));
    let (state, command) = step(state, ReconcilerEvent::SpecUpdated(rule(16)));
    assert!(matches!(command, Command::Nothing));
    assert!(matches!(state, ReconcilerState::Restarting { ref rule } if rule.sharding_count == 16));
}

#[test]
fn deleted_rule_cancels_and_patches_no_more() {
    let (state, command) = step(watching(4), ReconcilerEvent::RuleDeleted);
    assert!(matches!(command, Command::CancelWatcher));
    assert!(matches!(state, ReconcilerState::Terminated));

    let (state, command) = step(state, ReconcilerEvent::ObjectChanged(unlabelled("foo")));
    assert!(matches!(command, Command::Nothing));
    let (state, command) = step(state, ReconcilerEvent::WatcherStopped);
    assert!(matches!(command, Command::Nothing));
    let (state, command) = step(state, ReconcilerEvent::ObjectChanged(unlabelled("bar")));
    assert!(matches!(command, Command::Nothing));
    let (state, command) = step(state, ReconcilerEvent::SpecUpdated(rule(2)));
    assert!(matches!(command, Command::Nothing));
    assert!(matches!(state, ReconcilerState::Terminated));
}

#[test]
fn deletion_before_watching_has_nothing_to_cancel() {
    let (state, _) = start(rule(4));
    let (state, command) = step(state, ReconcilerEvent::RuleDeleted);
    assert!(matches!(command, Command::Nothing));
    assert!(matches!(state, ReconcilerState::Terminated));

    let (state, _) = step(watching(4), ReconcilerEvent::SpecUpdated(rule(8)));
    let (state, command) = step(state, ReconcilerEvent::RuleDeleted);
    assert!(matches!(command, Command::Nothing));
    assert!(matches!(state, ReconcilerState::Terminated));
}

#[test]
fn events_out_of_place_change_nothing() {
    let (state, command) = step(watching(4), ReconcilerEvent::Discovered(deployments()));
    assert!(matches!(command, Command::Nothing));
    let (state, command) = step(state, ReconcilerEvent::DiscoveryFailed(DiscoveryError::KindNotFound));
    assert!(matches!(command, Command::Nothing));
    let (state, command) = step(state, ReconcilerEvent::WatcherStopped);
    assert!(matches!(command, Command::Nothing));
    assert!(matches!(state, ReconcilerState::Watching { .. }));

    let (state, _) = start(rule(4));
    let (state, command) = step(state, ReconcilerEvent::ObjectChanged(unlabelled("foo")));
    assert!(matches!(command, Command::Nothing));
    assert!(matches!(state, ReconcilerState::Starting { .. }));
}

#[test]
fn update_with_the_same_spec_is_no_update() {
    let (state, command) = step(watching(4), ReconcilerEvent::SpecUpdated(rule(4)));
    assert!(matches!(command, Command::Nothing));
    assert!(matches!(state, ReconcilerState::Watching { ref rule, .. } if rule.sharding_count == 4));

    let (state, _) = start(rule(4));
    let (state, command) = step(state, ReconcilerEvent::SpecUpdated(rule(4)));
    assert!(matches!(command, Command::Nothing));
    assert!(matches!(state, ReconcilerState::Starting { .. }));

    let mut other_kind = rule(4);
    other_kind.kind = "StatefulSet".to_string();
    let (state, command) = step(watching(4), ReconcilerEvent::SpecUpdated(other_kind));
    assert!(matches!(command, Command::CancelWatcher));
    assert!(matches!(state, ReconcilerState::Restarting { ref rule } if rule.kind == "StatefulSet"));
}
