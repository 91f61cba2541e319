//! Immutable, queryable model of one point-in-time cluster snapshot.
//!
//! A snapshot is materialized once, never mutated, and superseded by the
//! next fetch. Broker-native error codes are carried opaquely, without
//! interpretation.

use vstd::prelude::*;
use vstd::relations::sorted_by;
use crate::strutil::{
    char_seq_leq, views_of, str_eq, sort_strings, lemma_char_seq_le_total_ordering,
};

verus! {

/// A broker-native numeric error code, carried without interpretation.
#[derive(Debug, Clone, Copy, PartialEq, Eq, Structural)]
pub struct KafkaError {
    code: i32,
}

impl KafkaError {
    /// The wrapped native code, for spec-level reasoning.
    pub closed spec fn spec_code(self) -> i32 {
        self.code
    }

    /// Wrap a native error code.
    pub fn from_code(code: i32) -> (r: KafkaError)
        ensures
            r.spec_code() == code,
    {
        KafkaError { code }
    }

    /// The wrapped native code.
    pub fn code(self) -> (r: i32)
        ensures
            r == self.spec_code(),
    {
        self.code
    }
}

/// Wrap an optional native error code as reported in a snapshot.
pub fn convert_kafka_error(err: Option<i32>) -> (r: Option<KafkaError>)
    ensures
        match err {
            Some(code) => r matches Some(e) && e.spec_code() == code,
            None => r is None,
        },
{
    match err {
        Some(code) => Some(KafkaError::from_code(code)),
        None => None,
    }
}

/// Metadata for one broker of the cluster.
#[derive(Debug, Clone)]
pub struct Broker {
    /// Broker id, unique in the cluster at a point in time.
    pub id: i32,
    /// Broker hostname.
    pub hostname: String,
    /// Broker port.
    pub port: u16,
}

impl Broker {
    /// Reshape one broker entry of a raw snapshot; the native port is a
    /// wider integer and is truncated exactly as reported.
    pub fn from_raw(id: i32, hostname: String, port: i32) -> (r: Broker)
        ensures
            r.id == id,
            r.hostname@ == hostname@,
            r.port == port as u16,
    {
        Broker { id, hostname, port: port as u16 }
    }
}

/// Whether a vector of broker ids holds the given id.
fn contains_broker_id(v: &Vec<i32>, x: i32) -> (r: bool)
    ensures
        r == v@.contains(x),
{
    let mut i: usize = 0;
    while i < v.len()
        invariant
            0 <= i <= v@.len(),
            forall|j: int| 0 <= j < i ==> v@[j] != x,
        decreases v@.len() - i,
    {
        if v[i] == x {
            assert(v@[i as int] == x);
            return true;
        }
        i = i + 1;
    }
    proof {
        assert(!v@.contains(x));
    }
    false
}

/// Metadata for one partition of a topic.
///
/// The replica and in-sync lists are carried exactly as the broker
/// reported them; the model does not require the in-sync set to be a
/// subset of the replica set, it only reports what was observed.
#[derive(Debug, Clone)]
pub struct Partition {
    /// Partition id, unique within its topic.
    pub id: i32,
    /// Leader broker id; a sentinel such as -1 means "no leader".
    pub leader: i32,
    /// Partition error, if any.
    pub error: Option<KafkaError>,
    /// Replica broker ids, in reported order.
    pub replicas: Vec<i32>,
    /// In-sync replica broker ids, in reported order.
    pub in_sync_replicas: Vec<i32>,
}

impl Partition {
    /// Reshape one partition entry of a raw snapshot, field by field;
    /// nothing is validated or corrected.
    pub fn from_raw(
        id: i32,
        leader: i32,
        error: Option<i32>,
        replicas: Vec<i32>,
        in_sync_replicas: Vec<i32>,
    ) -> (r: Partition)
        ensures
            r.id == id,
            r.leader == leader,
            (match error {
                Some(code) => r.error matches Some(e) && e.spec_code() == code,
                None => r.error is None,
            }),
            r.replicas@ == replicas@,
            r.in_sync_replicas@ == in_sync_replicas@,
    {
        Partition { id, leader, error: convert_kafka_error(error), replicas, in_sync_replicas }
    }

    /// Whether the given broker holds a replica of this partition.
    pub fn has_replica(&self, broker_id: i32) -> (r: bool)
        ensures
            r == self.replicas@.contains(broker_id),
    {
        contains_broker_id(&self.replicas, broker_id)
    }

    /// Whether the given broker is an in-sync replica of this partition.
    pub fn is_in_sync(&self, broker_id: i32) -> (r: bool)
        ensures
            r == self.in_sync_replicas@.contains(broker_id),
    {
        contains_broker_id(&self.in_sync_replicas, broker_id)
    }

    /// The replication factor: how many replicas were reported.
    pub fn replication_factor(&self) -> (r: usize)
        ensures
            r == self.replicas@.len(),
    {
        self.replicas.len()
    }
}

/// A broker that is listed in-sync need not be listed as a replica: a
/// malformed snapshot is represented faithfully, not corrected.
pub proof fn lemma_in_sync_does_not_imply_replica()
    ensures
        exists|replicas: Seq<i32>, in_sync: Seq<i32>, b: i32|
            #[trigger] in_sync.contains(b) && !(#[trigger] replicas.contains(b)),
{
    let replicas: Seq<i32> = Seq::empty();
    let in_sync: Seq<i32> = seq![1i32];
    assert(in_sync[0] == 1i32);
    assert(in_sync.contains(1i32));
    assert(!replicas.contains(1i32));
}

/// The first partition of the sequence carrying the given id, if any.
pub open spec fn spec_find_partition(ps: Seq<Partition>, id: i32) -> Option<Partition>
    decreases ps.len(),
{
    if ps.len() == 0 {
        None
    } else if ps[0].id == id {
        Some(ps[0])
    } else {
        spec_find_partition(ps.drop_first(), id)
    }
}

/// Searching after an id-free prefix searches the rest of the sequence.
proof fn lemma_find_partition_skip(ps: Seq<Partition>, id: i32, i: int)
    requires
        0 <= i <= ps.len(),
        forall|j: int| 0 <= j < i ==> (#[trigger] ps[j]).id != id,
    ensures
        spec_find_partition(ps, id) == spec_find_partition(ps.skip(i), id),
    decreases i,
{
    if i > 0 {
        lemma_find_partition_skip(ps.drop_first(), id, i - 1);
        assert(ps.drop_first().skip(i - 1) =~= ps.skip(i));
    } else {
        assert(ps.skip(0) =~= ps);
    }
}

/// Metadata for one topic of the cluster.
#[derive(Debug, Clone)]
pub struct Topic {
    /// Topic name, the unique key within its snapshot.
    pub name: String,
    /// Partition metadata, in reported order.
    pub partitions: Vec<Partition>,
    /// Topic-level error, if any.
    pub error: Option<KafkaError>,
}

impl Topic {
    /// Reshape one topic entry of a raw snapshot.
    pub fn from_raw(name: String, partitions: Vec<Partition>, error: Option<i32>) -> (r: Topic)
        ensures
            r.name@ == name@,
            r.partitions@ == partitions@,
            (match error {
                Some(code) => r.error matches Some(e) && e.spec_code() == code,
                None => r.error is None,
            }),
    {
        Topic { name, partitions, error: convert_kafka_error(error) }
    }

    /// How many partitions the topic has.
    pub fn partition_count(&self) -> (r: usize)
        ensures
            r == self.partitions@.len(),
    {
        self.partitions.len()
    }

    /// The first partition with the given id, if any.
    pub fn find_partition(&self, id: i32) -> (r: Option<&Partition>)
        ensures
            (match r {
                Some(p) => spec_find_partition(self.partitions@, id) == Some(*p),
                None => spec_find_partition(self.partitions@, id) is None,
            }),
    {
        let mut i: usize = 0;
        while i < self.partitions.len()
            invariant
                0 <= i <= self.partitions@.len(),
                forall|j: int| 0 <= j < i ==> (#[trigger] self.partitions@[j]).id != id,
            decreases self.partitions@.len() - i,
        {
            if self.partitions[i].id == id {
                proof {
                    let ps = self.partitions@;
                    lemma_find_partition_skip(ps, id, i as int);
                    assert(ps.skip(i as int).len() > 0);
                    assert(ps.skip(i as int)[0] == ps[i as int]);
                    assert(spec_find_partition(ps.skip(i as int), id) == Some(ps[i as int]));
                }
                return Some(&self.partitions[i]);
            }
            i = i + 1;
        }
        proof {
            lemma_find_partition_skip(self.partitions@, id, self.partitions@.len() as int);
            assert(self.partitions@.skip(self.partitions@.len() as int).len() == 0);
        }
        None
    }

    /// Whether the topic error is set or any partition carries an error.
    pub fn has_error(&self) -> (r: bool)
        ensures
            r == (self.error is Some || exists|i: int|
                0 <= i < self.partitions@.len() && (#[trigger] self.partitions@[i]).error is Some),
    {
        if self.error.is_some() {
            return true;
        }
        let mut i: usize = 0;
        while i < self.partitions.len()
            invariant
                0 <= i <= self.partitions@.len(),
                forall|j: int| 0 <= j < i ==> (#[trigger] self.partitions@[j]).error is None,
            decreases self.partitions@.len() - i,
        {
            if self.partitions[i].error.is_some() {
                proof {
                    assert((self.partitions@[i as int]).error is Some);
                    assert(exists|j: int|
                        0 <= j < self.partitions@.len()
                            && (#[trigger] self.partitions@[j]).error is Some);
                }
                return true;
            }
            i = i + 1;
        }
        false
    }
}

/// The names of the topics of a snapshot, in reported order.
pub open spec fn spec_topic_names(topics: Seq<Topic>) -> Seq<Seq<char>> {
    topics.map_values(|t: Topic| t.name@)
}

/// Whether some topic of the snapshot carries the given name.
pub open spec fn spec_has_topic(topics: Seq<Topic>, name: Seq<char>) -> bool {
    exists|i: int| 0 <= i < topics.len() && (#[trigger] topics[i]).name@ == name
}

/// The first topic of the sequence carrying the given name, if any.
pub open spec fn spec_find_topic(topics: Seq<Topic>, name: Seq<char>) -> Option<Topic>
    decreases topics.len(),
{
    if topics.len() == 0 {
        None
    } else if topics[0].name@ == name {
        Some(topics[0])
    } else {
        spec_find_topic(topics.drop_first(), name)
    }
}

/// The total number of partitions across the topics.
pub open spec fn spec_total_partitions(topics: Seq<Topic>) -> int
    decreases topics.len(),
{
    if topics.len() == 0 {
        0
    } else {
        topics[0].partitions@.len() + spec_total_partitions(topics.drop_first())
    }
}

/// A sum of partition counts is never negative.
proof fn lemma_total_partitions_nonneg(topics: Seq<Topic>)
    ensures
        spec_total_partitions(topics) >= 0,
    decreases topics.len(),
{
    if topics.len() > 0 {
        lemma_total_partitions_nonneg(topics.drop_first());
    }
}

/// Splitting the sum at an index.
proof fn lemma_total_partitions_skip(topics: Seq<Topic>, i: int)
    requires
        0 <= i < topics.len(),
    ensures
        spec_total_partitions(topics.skip(i)) == topics[i].partitions@.len()
            + spec_total_partitions(topics.skip(i + 1)),
{
    assert(topics.skip(i).drop_first() =~= topics.skip(i + 1));
    assert(topics.skip(i)[0] == topics[i]);
}

/// Searching after a name-free prefix searches the rest of the sequence.
proof fn lemma_find_topic_skip(topics: Seq<Topic>, name: Seq<char>, i: int)
    requires
        0 <= i <= topics.len(),
        forall|j: int| 0 <= j < i ==> (#[trigger] topics[j]).name@ != name,
    ensures
        spec_find_topic(topics, name) == spec_find_topic(topics.skip(i), name),
    decreases i,
{
    if i > 0 {
        lemma_find_topic_skip(topics.drop_first(), name, i - 1);
        assert(topics.drop_first().skip(i - 1) =~= topics.skip(i));
    } else {
        assert(topics.skip(0) =~= topics);
    }
}

/// A topic name is present exactly when the lookup finds a topic; a
/// found topic carries the requested name and comes from the snapshot.
pub proof fn lemma_has_topic_iff_find_topic(topics: Seq<Topic>, name: Seq<char>)
    ensures
        spec_has_topic(topics, name) <==> (spec_find_topic(topics, name) is Some),
        (match spec_find_topic(topics, name) {
            Some(t) => t.name@ == name && topics.contains(t),
            None => true,
        }),
    decreases topics.len(),
{
    if topics.len() == 0 {
    } else if topics[0].name@ == name {
        assert(topics.contains(topics[0]));
    } else {
        lemma_has_topic_iff_find_topic(topics.drop_first(), name);
        let rest = topics.drop_first();
        if spec_has_topic(rest, name) {
            let i = choose|i: int| 0 <= i < rest.len() && (#[trigger] rest[i]).name@ == name;
            assert(topics[i + 1] == rest[i]);
        }
        if spec_has_topic(topics, name) {
            let i = choose|i: int| 0 <= i < topics.len() && (#[trigger] topics[i]).name@ == name;
            assert(i > 0);
            assert(rest[i - 1] == topics[i]);
            assert(spec_has_topic(rest, name));
        }
        if spec_find_topic(rest, name) is Some {
            let t = spec_find_topic(rest, name)->Some_0;
            if rest.contains(t) {
                let j = choose|j: int| 0 <= j < rest.len() && rest[j] == t;
                assert(topics[j + 1] == t);
                assert(topics.contains(t));
            }
        }
    }
}

/// A sum of integers, term by term.
pub open spec fn sum_counts(counts: Seq<int>) -> int
    decreases counts.len(),
{
    if counts.len() == 0 {
        0
    } else {
        counts[0] + sum_counts(counts.drop_first())
    }
}

/// The total partition count of a snapshot is the sum, over its topics,
/// of each topic's own partition count.
pub proof fn lemma_total_partitions_is_sum_of_counts(topics: Seq<Topic>)
    ensures
        spec_total_partitions(topics) == sum_counts(
            topics.map_values(|t: Topic| t.partitions@.len() as int),
        ),
    decreases topics.len(),
{
    let f = |t: Topic| t.partitions@.len() as int;
    if topics.len() == 0 {
        assert(topics.map_values(f).len() == 0);
    } else {
        lemma_total_partitions_is_sum_of_counts(topics.drop_first());
        assert(topics.drop_first().map_values(f) =~= topics.map_values(f).drop_first());
        assert(topics.map_values(f)[0] == f(topics[0]));
    }
}

/// Listing topic names is referentially transparent: any two sorted
/// listings of the same names are equal, so every call on one snapshot
/// yields the same sequence.
pub proof fn lemma_topic_names_deterministic(a: Seq<Seq<char>>, b: Seq<Seq<char>>)
    requires
        sorted_by(a, char_seq_leq()),
        sorted_by(b, char_seq_leq()),
        a.to_multiset() == b.to_multiset(),
    ensures
        a == b,
{
    lemma_char_seq_le_total_ordering();
    vstd::seq_lib::lemma_sorted_unique(a, b, char_seq_leq());
}

/// Metadata about a cluster: one immutable snapshot, materialized on a
/// fetch and superseded, never merged, by the next one.
#[derive(Debug, Clone)]
pub struct ClusterMetadata {
    /// Id of the broker originating this snapshot.
    pub orig_broker_id: i32,
    /// Hostname of the broker originating this snapshot.
    pub orig_broker_name: String,
    /// Metadata for all brokers of the cluster.
    pub brokers: Vec<Broker>,
    /// Metadata for all topics of the cluster.
    pub topics: Vec<Topic>,
}

impl ClusterMetadata {
    /// Assemble a snapshot from already-reshaped parts. The conversion
    /// is total: error codes are wrapped, not interpreted, so there is
    /// no failure path.
    pub fn from_raw(
        orig_broker_id: i32,
        orig_broker_name: String,
        brokers: Vec<Broker>,
        topics: Vec<Topic>,
    ) -> (r: ClusterMetadata)
        ensures
            r.orig_broker_id == orig_broker_id,
            r.orig_broker_name@ == orig_broker_name@,
            r.brokers@ == brokers@,
            r.topics@ == topics@,
    {
        ClusterMetadata { orig_broker_id, orig_broker_name, brokers, topics }
    }

    /// The names of all topics, sorted lexicographically ascending: the
    /// listing is deterministic whatever order the snapshot arrived in.
    pub fn topic_names(&self) -> (r: Vec<String>)
        ensures
            sorted_by(views_of(r@), char_seq_leq()),
            views_of(r@).to_multiset() == spec_topic_names(self.topics@).to_multiset(),
            views_of(r@) == spec_topic_names(self.topics@).sort_by(char_seq_leq()),
    {
        let mut names: Vec<String> = Vec::new();
        let mut i: usize = 0;
        while i < self.topics.len()
            invariant
                0 <= i <= self.topics@.len(),
                views_of(names@) =~= spec_topic_names(self.topics@).take(i as int),
            decreases self.topics@.len() - i,
        {
            let ghost names_pre = names@;
            names.push(self.topics[i].name.clone());
            proof {
                let ts = self.topics@;
                assert(views_of(names@) =~= views_of(names_pre).push(ts[i as int].name@));
                assert(spec_topic_names(ts).take(i + 1) =~= spec_topic_names(ts).take(
                    i as int,
                ).push(ts[i as int].name@));
            }
            i = i + 1;
        }
        proof {
            assert(spec_topic_names(self.topics@).take(self.topics@.len() as int)
                =~= spec_topic_names(self.topics@));
        }
        let r = sort_strings(names);
        proof {
            let ghost all = spec_topic_names(self.topics@);
            lemma_char_seq_le_total_ordering();
            all.lemma_sort_by_ensures(char_seq_leq());
            vstd::seq_lib::lemma_sorted_unique(
                views_of(r@),
                all.sort_by(char_seq_leq()),
                char_seq_leq(),
            );
        }
        r
    }

    /// The first topic with the given name, if any.
    pub fn find_topic(&self, name: &str) -> (r: Option<&Topic>)
        ensures
            (match r {
                Some(t) => spec_find_topic(self.topics@, name@) == Some(*t),
                None => spec_find_topic(self.topics@, name@) is None,
            }),
    {
        let mut i: usize = 0;
        while i < self.topics.len()
            invariant
                0 <= i <= self.topics@.len(),
                forall|j: int| 0 <= j < i ==> (#[trigger] self.topics@[j]).name@ != name@,
            decreases self.topics@.len() - i,
        {
            if str_eq(self.topics[i].name.as_str(), name) {
                proof {
                    let ts = self.topics@;
                    lemma_find_topic_skip(ts, name@, i as int);
                    assert(ts.skip(i as int).len() > 0);
                    assert(ts.skip(i as int)[0] == ts[i as int]);
                    assert(spec_find_topic(ts.skip(i as int), name@) == Some(ts[i as int]));
                }
                return Some(&self.topics[i]);
            }
            i = i + 1;
        }
        proof {
            lemma_find_topic_skip(self.topics@, name@, self.topics@.len() as int);
            assert(self.topics@.skip(self.topics@.len() as int).len() == 0);
        }
        None
    }

    /// How many brokers the cluster has.
    pub fn broker_count(&self) -> (r: usize)
        ensures
            r == self.brokers@.len(),
    {
        self.brokers.len()
    }

    /// The total number of partitions across all topics.
    pub fn total_partitions(&self) -> (r: usize)
        requires
            spec_total_partitions(self.topics@) <= usize::MAX,
        ensures
            r == spec_total_partitions(self.topics@),
    {
        let mut total: usize = 0;
        let mut i: usize = 0;
        proof {
            assert(self.topics@.skip(0) =~= self.topics@);
        }
        while i < self.topics.len()
            invariant
                0 <= i <= self.topics@.len(),
                spec_total_partitions(self.topics@) <= usize::MAX,
                total + spec_total_partitions(self.topics@.skip(i as int))
                    == spec_total_partitions(self.topics@),
            decreases self.topics@.len() - i,
        {
            proof {
                lemma_total_partitions_skip(self.topics@, i as int);
                lemma_total_partitions_nonneg(self.topics@.skip(i + 1));
            }
            total = total + self.topics[i].partitions.len();
            i = i + 1;
        }
        proof {
            assert(self.topics@.skip(self.topics@.len() as int).len() == 0);
        }
        total
    }

    /// Whether a topic with the given name exists in the snapshot.
    pub fn has_topic(&self, name: &str) -> (r: bool)
        ensures
            r == spec_has_topic(self.topics@, name@),
    {
        let mut i: usize = 0;
        while i < self.topics.len()
            invariant
                0 <= i <= self.topics@.len(),
                forall|j: int| 0 <= j < i ==> (#[trigger] self.topics@[j]).name@ != name@,
            decreases self.topics@.len() - i,
        {
            if str_eq(self.topics[i].name.as_str(), name) {
                proof {
                    assert((self.topics@[i as int]).name@ == name@);
                    assert(exists|j: int|
                        0 <= j < self.topics@.len() && (#[trigger] self.topics@[j]).name@
                            == name@);
                }
                return true;
            }
            i = i + 1;
        }
        false
    }
}

} // verus!
