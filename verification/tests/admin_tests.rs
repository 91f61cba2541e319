use kafka_oxide::admin::{
    admin_call_outcome, connect_outcome, create_topic_outcome, delete_topic_outcome,
    new_topic_request, AdminCallOutcome, AdminClientBuilder, TopicResult,
};
use kafka_oxide::error::Error;

fn completed(results: Vec<(&str, Option<&str>)>) -> AdminCallOutcome {
    AdminCallOutcome::Completed(
        results
            .into_iter()
            .map(|(name, error)| TopicResult {
                name: name.to_string(),
                error: error.map(|m| m.to_string()),
            })
            .collect(),
    )
}

#[test]
fn builder_joins_bootstrap_servers() {
    let servers = vec!["a:9092".to_string(), "b:9092".to_string()];
    let cfg = AdminClientBuilder::new()
        .bootstrap_servers(&servers)
        .client_id("facade")
        .build_config()
        .unwrap();
    assert!(cfg.contains(&("bootstrap.servers".to_string(), "a:9092,b:9092".to_string())));
    assert!(cfg.contains(&("client.id".to_string(), "facade".to_string())));
}

#[test]
fn builder_set_overwrites_earlier_value() {
    let servers = vec!["a:9092".to_string()];
    let cfg = AdminClientBuilder::new()
        .bootstrap_servers(&servers)
        .set("client.id", "first")
        .set("client.id", "second")
        .build_config()
        .unwrap();
    assert!(cfg.contains(&("client.id".to_string(), "second".to_string())));
    assert!(!cfg.contains(&("client.id".to_string(), "first".to_string())));
    assert_eq!(cfg.iter().filter(|p| p.0 == "client.id").count(), 1);
}

#[test]
fn empty_bootstrap_list_fails_fast_with_config_error() {
    let servers: Vec<String> = Vec::new();
    let e = AdminClientBuilder::new()
        .bootstrap_servers(&servers)
        .build_config()
        .unwrap_err();
    assert!(matches!(e, Error::Config(_)));
}

#[test]
fn missing_bootstrap_key_fails_with_config_error() {
    let e = AdminClientBuilder::new().build_config().unwrap_err();
    assert!(matches!(e, Error::Config(_)));
}

#[test]
fn default_builder_behaves_like_new() {
    let e = AdminClientBuilder::default().build_config().unwrap_err();
    assert!(matches!(e, Error::Config(_)));
}

#[test]
fn topic_request_carries_defaults() {
    let t = new_topic_request("orders", 3, 2).unwrap();
    assert_eq!(t.name, "orders");
    assert_eq!(t.num_partitions, 3);
    assert_eq!(t.replication_factor, 2);
    assert_eq!(
        t.config,
        vec![
            ("compression.type".to_string(), "zstd".to_string()),
            ("auto.offset.reset".to_string(), "beginning".to_string()),
        ]
    );
}

#[test]
fn topic_request_validates_inputs() {
    assert!(matches!(new_topic_request("", 1, 1), Err(Error::TopicValidation(_))));
    assert!(matches!(new_topic_request("orders", 0, 1), Err(Error::TopicValidation(_))));
    assert!(matches!(new_topic_request("orders", 1, 0), Err(Error::TopicValidation(_))));
    assert!(new_topic_request("o", 1, 1).is_ok());
}

#[test]
fn per_item_rejection_is_admin_and_transport_failure_is_kafka() {
    let rejected = create_topic_outcome(
        "orders",
        completed(vec![("orders", Some("topic already exists"))]),
    )
    .unwrap_err();
    assert!(matches!(rejected, Error::Admin(_)));

    let dropped = create_topic_outcome(
        "orders",
        AdminCallOutcome::RequestFailed("connection dropped".to_string()),
    )
    .unwrap_err();
    assert!(matches!(dropped, Error::Kafka(_)));
}

#[test]
fn accepted_topic_creation_is_ok() {
    let r = create_topic_outcome("orders", completed(vec![("orders", None)]));
    assert!(r.is_ok());
}

#[test]
fn results_are_correlated_by_name_not_position() {
    let outcome = completed(vec![("other", None), ("orders", Some("rejected"))]);
    let e = create_topic_outcome("orders", outcome).unwrap_err();
    assert!(matches!(e, Error::Admin(_)));

    let outcome = completed(vec![("other", Some("rejected")), ("orders", None)]);
    assert!(create_topic_outcome("orders", outcome).is_ok());
}

#[test]
fn missing_result_for_requested_name_is_admin_error() {
    let e = admin_call_outcome("orders", completed(vec![("other", None)])).unwrap_err();
    assert!(matches!(e, Error::Admin(_)));
}

#[test]
fn delete_topic_makes_the_same_distinction() {
    assert!(delete_topic_outcome("orders", completed(vec![("orders", None)])).is_ok());
    let e = delete_topic_outcome("orders", completed(vec![("orders", Some("unknown topic"))]))
        .unwrap_err();
    assert!(matches!(e, Error::Admin(_)));
    let e = delete_topic_outcome(
        "orders",
        AdminCallOutcome::RequestFailed("timed out".to_string()),
    )
    .unwrap_err();
    assert!(matches!(e, Error::Kafka(_)));
}

#[test]
fn probe_failure_surfaces_as_connection_error() {
    assert!(connect_outcome(Ok(())).is_ok());
    let e = connect_outcome(Err("no broker reachable".to_string())).unwrap_err();
    assert!(matches!(e, Error::Connection(_)));
}
