use service_bootstrap::bootstrap::{
    BootstrapError, BootstrapState, BootstrapStep, Capability, Sequencer,
};
use service_bootstrap::config::{Env, ServiceVariant, Source};

fn resolved_env() -> Env {
    let mut primary = Source::new();
    primary.insert("SERVER".to_string(), "0.0.0.0:8080".to_string());
    primary.insert("DATABASE_URL".to_string(), "postgres://db/x".to_string());
    primary.insert("KAFKA_GROUP_ID".to_string(), "g1".to_string());
    primary.insert("KAFKA_BROKER".to_string(), "broker:9092".to_string());
    Env::resolve(ServiceVariant::Catalog, &primary, None).ok().unwrap()
}

#[test]
fn sequencer_starts_unconfigured_and_offers_no_step() {
    let seq = Sequencer::new(Capability::DatastoreOnly);
    assert_eq!(seq.state(), BootstrapState::Unconfigured);
    assert_eq!(seq.next_step(), None);
}

#[test]
fn configuration_precedes_every_step() {
    let env = resolved_env();
    let mut seq = Sequencer::new(Capability::DatastoreOnly);
    seq.configure(&env);
    assert_eq!(seq.state(), BootstrapState::Configured);
    assert_eq!(seq.next_step(), Some(BootstrapStep::ConnectDatastore));
}

#[test]
fn datastore_only_success_path_runs_in_canonical_order() {
    let env = resolved_env();
    let mut seq = Sequencer::new(Capability::DatastoreOnly);
    seq.configure(&env);
    let mut performed = Vec::new();
    while let Some(step) = seq.next_step() {
        performed.push(step);
        seq.apply(step, None);
    }
    assert_eq!(
        performed,
        vec![
            BootstrapStep::ConnectDatastore,
            BootstrapStep::RunMigrations,
            BootstrapStep::InstallCrashHook,
            BootstrapStep::BindListener,
            BootstrapStep::Serve,
        ]
    );
    assert_eq!(seq.state(), BootstrapState::Serving);
}

#[test]
fn broker_variant_subscribes_before_binding() {
    let env = resolved_env();
    let mut seq = Sequencer::new(Capability::DatastoreAndBroker);
    seq.configure(&env);
    let mut performed = Vec::new();
    while let Some(step) = seq.next_step() {
        performed.push(step);
        seq.apply(step, None);
    }
    assert_eq!(
        performed,
        vec![
            BootstrapStep::ConnectDatastore,
            BootstrapStep::RunMigrations,
            BootstrapStep::InstallCrashHook,
            BootstrapStep::SubscribeBroker,
            BootstrapStep::BindListener,
            BootstrapStep::Serve,
        ]
    );
    assert_eq!(seq.state(), BootstrapState::Serving);
}

#[test]
fn datastore_failure_aborts_before_migrations() {
    // The datastore is unreachable: the bootstrap fails at once, no
    // migration runs and no listener is ever offered as a step.
    let env = resolved_env();
    let mut seq = Sequencer::new(Capability::DatastoreOnly);
    seq.configure(&env);
    assert_eq!(seq.next_step(), Some(BootstrapStep::ConnectDatastore));
    seq.apply(BootstrapStep::ConnectDatastore, Some(BootstrapError::DatastoreUnavailable));
    assert_eq!(seq.state(), BootstrapState::Failed(BootstrapError::DatastoreUnavailable));
    assert_eq!(seq.next_step(), None);
}

#[test]
fn listener_bind_failure_after_migrations_is_terminal() {
    // Datastore connects and migrations succeed; the port is already
    // bound: the process is to exit non-zero and never serve.
    let env = resolved_env();
    let mut seq = Sequencer::new(Capability::DatastoreOnly);
    seq.configure(&env);
    seq.apply(BootstrapStep::ConnectDatastore, None);
    seq.apply(BootstrapStep::RunMigrations, None);
    seq.apply(BootstrapStep::InstallCrashHook, None);
    assert_eq!(seq.next_step(), Some(BootstrapStep::BindListener));
    seq.apply(BootstrapStep::BindListener, Some(BootstrapError::ListenerBindFailed));
    assert_eq!(seq.state(), BootstrapState::Failed(BootstrapError::ListenerBindFailed));
    assert_eq!(seq.next_step(), None);
}

#[test]
fn migration_failure_never_reaches_the_listener() {
    let env = resolved_env();
    let mut seq = Sequencer::new(Capability::DatastoreAndBroker);
    seq.configure(&env);
    seq.apply(BootstrapStep::ConnectDatastore, None);
    seq.apply(BootstrapStep::RunMigrations, Some(BootstrapError::MigrationFailed));
    assert_eq!(seq.state(), BootstrapState::Failed(BootstrapError::MigrationFailed));
    assert_eq!(seq.next_step(), None);
}

#[test]
fn broker_subscription_failure_is_terminal() {
    let env = resolved_env();
    let mut seq = Sequencer::new(Capability::DatastoreAndBroker);
    seq.configure(&env);
    seq.apply(BootstrapStep::ConnectDatastore, None);
    seq.apply(BootstrapStep::RunMigrations, None);
    seq.apply(BootstrapStep::InstallCrashHook, None);
    assert_eq!(seq.next_step(), Some(BootstrapStep::SubscribeBroker));
    seq.apply(BootstrapStep::SubscribeBroker, Some(BootstrapError::SubscriptionFailed));
    assert_eq!(seq.state(), BootstrapState::Failed(BootstrapError::SubscriptionFailed));
    assert_eq!(seq.next_step(), None);
}
