use kafka_oxide::metadata::{
    convert_kafka_error, Broker, ClusterMetadata, KafkaError, Partition, Topic,
};

fn partition(id: i32, leader: i32, error: Option<i32>, replicas: Vec<i32>, isr: Vec<i32>) -> Partition {
    Partition::from_raw(id, leader, error, replicas, isr)
}

fn sample_metadata() -> ClusterMetadata {
    let brokers = vec![
        Broker::from_raw(1, "broker-one".to_string(), 9092),
        Broker::from_raw(2, "broker-two".to_string(), 9093),
    ];
    let topics = vec![
        Topic::from_raw(
            "orders".to_string(),
            vec![
                partition(0, 1, None, vec![1, 2], vec![1, 2]),
                partition(1, 2, None, vec![1, 2], vec![2]),
            ],
            None,
        ),
        Topic::from_raw(
            "audit".to_string(),
            vec![partition(0, 1, None, vec![1], vec![1])],
            None,
        ),
        Topic::from_raw(
            "payments".to_string(),
            vec![
                partition(0, 2, None, vec![2], vec![2]),
                partition(1, 2, None, vec![2], vec![2]),
                partition(2, -1, Some(5), vec![2], vec![]),
            ],
            None,
        ),
    ];
    ClusterMetadata::from_raw(1, "broker-one".to_string(), brokers, topics)
}

#[test]
fn topic_names_are_sorted_and_stable() {
    let m = sample_metadata();
    let first = m.topic_names();
    let second = m.topic_names();
    assert_eq!(first, vec!["audit", "orders", "payments"]);
    assert_eq!(first, second);
}

#[test]
fn topic_names_of_empty_snapshot() {
    let m = ClusterMetadata::from_raw(7, "solo".to_string(), Vec::new(), Vec::new());
    assert_eq!(m.topic_names(), Vec::<String>::new());
    assert_eq!(m.broker_count(), 0);
    assert_eq!(m.total_partitions(), 0);
}

#[test]
fn has_topic_iff_find_topic() {
    let m = sample_metadata();
    for name in ["orders", "audit", "payments"] {
        assert!(m.has_topic(name));
        assert!(m.find_topic(name).is_some());
    }
    assert!(!m.has_topic("missing"));
    assert!(m.find_topic("missing").is_none());
    let orders = m.find_topic("orders").unwrap();
    assert_eq!(orders.name, "orders");
}

#[test]
fn total_partitions_is_sum_of_counts() {
    let m = sample_metadata();
    let sum: usize = m
        .topic_names()
        .iter()
        .map(|n| m.find_topic(n).unwrap().partition_count())
        .sum();
    assert_eq!(m.total_partitions(), sum);
    assert_eq!(m.total_partitions(), 6);
}

#[test]
fn broker_count_and_fields() {
    let m = sample_metadata();
    assert_eq!(m.broker_count(), 2);
    assert_eq!(m.orig_broker_id, 1);
    assert_eq!(m.orig_broker_name, "broker-one");
    assert_eq!(m.brokers[0].id, 1);
    assert_eq!(m.brokers[0].hostname, "broker-one");
    assert_eq!(m.brokers[0].port, 9092);
}

#[test]
fn broker_port_is_truncated_like_the_native_field() {
    let b = Broker::from_raw(3, "odd".to_string(), 65536 + 42);
    assert_eq!(b.port, 42);
}

#[test]
fn malformed_in_sync_set_is_preserved_not_corrected() {
    let p = partition(0, 1, None, vec![1, 2], vec![5]);
    assert!(p.is_in_sync(5));
    assert!(!p.has_replica(5));
    assert_eq!(p.replicas, vec![1, 2]);
    assert_eq!(p.in_sync_replicas, vec![5]);
}

#[test]
fn replica_queries() {
    let p = partition(3, 2, None, vec![1, 2, 3], vec![2, 3]);
    assert_eq!(p.replication_factor(), 3);
    assert!(p.has_replica(1));
    assert!(!p.has_replica(4));
    assert!(p.is_in_sync(2));
    assert!(!p.is_in_sync(1));
    assert_eq!(p.id, 3);
    assert_eq!(p.leader, 2);
}

#[test]
fn find_partition_by_id() {
    let m = sample_metadata();
    let t = m.find_topic("payments").unwrap();
    assert_eq!(t.partition_count(), 3);
    let p = t.find_partition(2).unwrap();
    assert_eq!(p.id, 2);
    assert_eq!(p.leader, -1);
    assert!(t.find_partition(9).is_none());
}

#[test]
fn has_error_from_topic_or_partition() {
    let clean = Topic::from_raw(
        "clean".to_string(),
        vec![partition(0, 1, None, vec![1], vec![1])],
        None,
    );
    assert!(!clean.has_error());

    let topic_level = Topic::from_raw("broken".to_string(), Vec::new(), Some(3));
    assert!(topic_level.has_error());

    let partition_level = Topic::from_raw(
        "flaky".to_string(),
        vec![partition(0, 1, Some(9), vec![1], vec![1])],
        None,
    );
    assert!(partition_level.has_error());
}

#[test]
fn error_codes_are_wrapped_opaquely() {
    assert!(convert_kafka_error(None).is_none());
    let e = convert_kafka_error(Some(-195)).unwrap();
    assert_eq!(e.code(), -195);
    let direct = KafkaError::from_code(7);
    assert_eq!(direct.code(), 7);
}
