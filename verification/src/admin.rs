//! The administrative layer's own engineering: configuration assembly
//! and the decision logic of topic lifecycle operations.
//!
//! The native calls themselves — the connectivity probe, the batched
//! create and delete requests — suspend and do I/O, so they stay with
//! the surrounding application; this module builds what is sent and
//! decides what every possible reply means.

use vstd::prelude::*;
use vstd::string::StringExecFns;
use crate::error::Error;
use crate::strutil::{join_comma, spec_join_comma, str_eq, views_of};

verus! {

/// An ordered list of key/value client properties, as views.
pub open spec fn props_of(cfg: Seq<(String, String)>) -> Seq<(Seq<char>, Seq<char>)> {
    cfg.map_values(|p: (String, String)| (p.0@, p.1@))
}

/// Setting a property: the first pair with the key is replaced, or the
/// pair is appended when the key is new.
pub open spec fn spec_set_prop(
    cfg: Seq<(Seq<char>, Seq<char>)>,
    key: Seq<char>,
    value: Seq<char>,
) -> Seq<(Seq<char>, Seq<char>)>
    decreases cfg.len(),
{
    if cfg.len() == 0 {
        seq![(key, value)]
    } else if cfg[0].0 == key {
        seq![(key, value)] + cfg.drop_first()
    } else {
        seq![cfg[0]] + spec_set_prop(cfg.drop_first(), key, value)
    }
}

/// Reading a property: the value of the first pair with the key.
pub open spec fn spec_get_prop(
    cfg: Seq<(Seq<char>, Seq<char>)>,
    key: Seq<char>,
) -> Option<Seq<char>>
    decreases cfg.len(),
{
    if cfg.len() == 0 {
        None
    } else if cfg[0].0 == key {
        Some(cfg[0].1)
    } else {
        spec_get_prop(cfg.drop_first(), key)
    }
}

/// Setting a present key updates its first pair in place.
proof fn lemma_set_prop_update(
    cfg: Seq<(Seq<char>, Seq<char>)>,
    key: Seq<char>,
    value: Seq<char>,
    i: int,
)
    requires
        0 <= i < cfg.len(),
        cfg[i].0 == key,
        forall|j: int| 0 <= j < i ==> (#[trigger] cfg[j]).0 != key,
    ensures
        spec_set_prop(cfg, key, value) == cfg.update(i, (key, value)),
    decreases i,
{
    if i == 0 {
        assert(spec_set_prop(cfg, key, value) =~= cfg.update(0, (key, value)));
    } else {
        assert(cfg[0].0 != key);
        assert forall|j: int| 0 <= j < i - 1 implies (#[trigger] cfg.drop_first()[j]).0
            != key by {
            assert(cfg.drop_first()[j] == cfg[j + 1]);
        }
        assert(cfg.drop_first()[i - 1] == cfg[i]);
        lemma_set_prop_update(cfg.drop_first(), key, value, i - 1);
        assert(seq![cfg[0]] + cfg.drop_first().update(i - 1, (key, value)) =~= cfg.update(
            i,
            (key, value),
        ));
    }
}

/// Setting an absent key appends its pair.
proof fn lemma_set_prop_append(cfg: Seq<(Seq<char>, Seq<char>)>, key: Seq<char>, value: Seq<char>)
    requires
        forall|j: int| 0 <= j < cfg.len() ==> (#[trigger] cfg[j]).0 != key,
    ensures
        spec_set_prop(cfg, key, value) == cfg.push((key, value)),
    decreases cfg.len(),
{
    if cfg.len() == 0 {
        assert(spec_set_prop(cfg, key, value) =~= cfg.push((key, value)));
    } else {
        assert forall|j: int| 0 <= j < cfg.drop_first().len() implies (#[trigger] cfg.drop_first()[j]).0
            != key by {
            assert(cfg.drop_first()[j] == cfg[j + 1]);
        }
        lemma_set_prop_append(cfg.drop_first(), key, value);
        assert(seq![cfg[0]] + cfg.drop_first().push((key, value)) =~= cfg.push((key, value)));
    }
}

/// Reading ignores a key-free prefix.
proof fn lemma_get_prop_skip(cfg: Seq<(Seq<char>, Seq<char>)>, key: Seq<char>, i: int)
    requires
        0 <= i <= cfg.len(),
        forall|j: int| 0 <= j < i ==> (#[trigger] cfg[j]).0 != key,
    ensures
        spec_get_prop(cfg, key) == spec_get_prop(cfg.skip(i), key),
    decreases i,
{
    if i > 0 {
        assert forall|j: int| 0 <= j < i - 1 implies (#[trigger] cfg.drop_first()[j]).0
            != key by {
            assert(cfg.drop_first()[j] == cfg[j + 1]);
        }
        lemma_get_prop_skip(cfg.drop_first(), key, i - 1);
        assert(cfg.drop_first().skip(i - 1) =~= cfg.skip(i));
    } else {
        assert(cfg.skip(0) =~= cfg);
    }
}

/// Builder that accumulates client configuration into an immutable
/// value; the configuration is write-once at build time.
#[derive(Debug, Clone)]
pub struct AdminClientBuilder {
    config: Vec<(String, String)>,
}

impl AdminClientBuilder {
    /// The accumulated properties, as views.
    pub closed spec fn props(self) -> Seq<(Seq<char>, Seq<char>)> {
        props_of(self.config@)
    }

    /// An empty configuration.
    pub fn new() -> (r: AdminClientBuilder)
        ensures
            r.props() == Seq::<(Seq<char>, Seq<char>)>::empty(),
    {
        let config: Vec<(String, String)> = Vec::new();
        proof {
            assert(props_of(config@) =~= Seq::<(Seq<char>, Seq<char>)>::empty());
        }
        AdminClientBuilder { config }
    }

    /// Set one property, replacing any earlier value of the key.
    pub fn set(self, key: &str, value: &str) -> (r: AdminClientBuilder)
        ensures
            r.props() == spec_set_prop(self.props(), key@, value@),
    {
        let ghost orig: Seq<(Seq<char>, Seq<char>)> = props_of(self.config@);
        let mut config = self.config;
        let mut i: usize = 0;
        while i < config.len()
            invariant
                0 <= i <= config@.len(),
                props_of(config@) == orig,
                orig == self.props(),
                forall|j: int| 0 <= j < i ==> (#[trigger] orig[j]).0 != key@,
            decreases config@.len() - i,
        {
            if str_eq(config[i].0.as_str(), key) {
                proof {
                    assert(orig[i as int].0 == config@[i as int].0@);
                }
                let pair = (key.to_owned(), value.to_owned());
                let ghost pre = config@;
                config.remove(i);
                config.insert(i, pair);
                proof {
                    lemma_set_prop_update(orig, key@, value@, i as int);
                    assert(config@ =~= pre.update(i as int, pair));
                    assert(props_of(config@) =~= orig.update(i as int, (key@, value@)));
                }
                return AdminClientBuilder { config };
            }
            proof {
                assert(orig[i as int].0 == config@[i as int].0@);
            }
            i = i + 1;
        }
        let pair = (key.to_owned(), value.to_owned());
        config.push(pair);
        proof {
            lemma_set_prop_append(orig, key@, value@);
            assert(props_of(config@) =~= orig.push((key@, value@)));
        }
        AdminClientBuilder { config }
    }

    /// Set the bootstrap endpoint list, joined with commas as the
    /// native client expects it.
    pub fn bootstrap_servers(self, servers: &Vec<String>) -> (r: AdminClientBuilder)
        ensures
            r.props() == spec_set_prop(
                self.props(),
                "bootstrap.servers"@,
                spec_join_comma(views_of(servers@)),
            ),
    {
        let joined = join_comma(servers);
        self.set("bootstrap.servers", joined.as_str())
    }

    /// Set the client identifier.
    pub fn client_id(self, client_id: &str) -> (r: AdminClientBuilder)
        ensures
            r.props() == spec_set_prop(self.props(), "client.id"@, client_id@),
    {
        self.set("client.id", client_id)
    }

    /// Validate the accumulated configuration and hand it out for the
    /// native client. Without a non-empty bootstrap endpoint list this
    /// fails fast with a configuration error — before any connection
    /// could be attempted.
    pub fn build_config(self) -> (r: Result<Vec<(String, String)>, Error>)
        ensures
            (match r {
                Ok(cfg) => {
                    &&& props_of(cfg@) == self.props()
                    &&& (match spec_get_prop(self.props(), "bootstrap.servers"@) {
                        Some(v) => v.len() > 0,
                        None => false,
                    })
                },
                Err(e) => {
                    &&& e matches Error::Config(_)
                    &&& (match spec_get_prop(self.props(), "bootstrap.servers"@) {
                        Some(v) => v.len() == 0,
                        None => true,
                    })
                },
            }),
    {
        let mut i: usize = 0;
        let ghost props = props_of(self.config@);
        while i < self.config.len()
            invariant
                0 <= i <= self.config@.len(),
                props == props_of(self.config@),
                forall|j: int| 0 <= j < i ==> (#[trigger] props[j]).0 != "bootstrap.servers"@,
            decreases self.config@.len() - i,
        {
            if str_eq(self.config[i].0.as_str(), "bootstrap.servers") {
                proof {
                    lemma_get_prop_skip(props, "bootstrap.servers"@, i as int);
                    assert(props.skip(i as int).len() > 0);
                    assert(props.skip(i as int)[0] == props[i as int]);
                    assert(spec_get_prop(props, "bootstrap.servers"@) == Some(
                        props[i as int].1,
                    ));
                }
                if !self.config[i].1.as_str().is_empty() {
                    return Ok(self.config);
                }
                return Err(
                    Error::Config("bootstrap.servers must not be empty".to_owned()),
                );
            }
            proof {
                assert(props[i as int].0 == self.config@[i as int].0@);
            }
            i = i + 1;
        }
        proof {
            lemma_get_prop_skip(props, "bootstrap.servers"@, props.len() as int);
            assert(props.skip(props.len() as int).len() == 0);
        }
        Err(Error::Config("bootstrap.servers is required".to_owned()))
    }
}

impl Default for AdminClientBuilder {
    /// The default builder holds an empty configuration.
    fn default() -> (r: AdminClientBuilder)
        ensures
            r.props() == Seq::<(Seq<char>, Seq<char>)>::empty(),
    {
        AdminClientBuilder::new()
    }
}

/// One topic-creation request: a fixed replication assignment and the
/// facade's default topic configuration.
#[derive(Debug, Clone)]
pub struct TopicSpec {
    /// Topic name.
    pub name: String,
    /// Number of partitions to create.
    pub num_partitions: i32,
    /// Replication factor of every partition.
    pub replication_factor: i32,
    /// Topic configuration overrides applied on creation.
    pub config: Vec<(String, String)>,
}

/// Build the single topic-creation request the facade submits: the
/// given name and sizes, with the fixed defaults of a space-efficient
/// compression codec and an earliest-available offset-reset policy.
/// The name must be non-empty and both sizes positive; broker-side
/// limits are not pre-validated here, what the broker answers is
/// surfaced by the operation instead.
pub fn new_topic_request(name: &str, num_partitions: u16, replication_factor: u16) -> (r: Result<
    TopicSpec,
    Error,
>)
    ensures
        (name@.len() > 0 && num_partitions >= 1 && replication_factor >= 1) <==> r is Ok,
        (match r {
            Ok(t) => {
                &&& t.name@ == name@
                &&& t.num_partitions == num_partitions as i32
                &&& t.replication_factor == replication_factor as i32
                &&& props_of(t.config@) == seq![
                    ("compression.type"@, "zstd"@),
                    ("auto.offset.reset"@, "beginning"@),
                ]
            },
            Err(e) => e matches Error::TopicValidation(_),
        }),
{
    if name.is_empty() {
        return Err(Error::TopicValidation("topic name must not be empty".to_owned()));
    }
    if num_partitions < 1 {
        return Err(
            Error::TopicValidation("partition count must be positive".to_owned()),
        );
    }
    if replication_factor < 1 {
        return Err(
            Error::TopicValidation("replication factor must be positive".to_owned()),
        );
    }
    let mut config: Vec<(String, String)> = Vec::new();
    config.push(("compression.type".to_owned(), "zstd".to_owned()));
    config.push(("auto.offset.reset".to_owned(), "beginning".to_owned()));
    proof {
        assert(props_of(config@) =~= seq![
            ("compression.type"@, "zstd"@),
            ("auto.offset.reset"@, "beginning"@),
        ]);
    }
    Ok(TopicSpec {
        name: name.to_owned(),
        num_partitions: num_partitions as i32,
        replication_factor: replication_factor as i32,
        config,
    })
}

/// The per-topic result the broker reported for one name inside a
/// batched administrative reply.
#[derive(Debug, Clone)]
pub struct TopicResult {
    /// The topic the result speaks of.
    pub name: String,
    /// The broker's answer for this topic: no error, or a failure message.
    pub error: Option<String>,
}

/// How one administrative round trip ended: either the request itself
/// never completed, or the broker answered with per-topic results.
#[derive(Debug, Clone)]
pub enum AdminCallOutcome {
    /// The request failed at the transport level; nothing was
    /// evaluated; carries the native failure as a message.
    RequestFailed(String),
    /// The broker evaluated the request and answered per topic.
    Completed(Vec<TopicResult>),
}

/// The first per-topic result carrying the given name, if any.
pub open spec fn spec_find_result(results: Seq<TopicResult>, name: Seq<char>) -> Option<
    TopicResult,
>
    decreases results.len(),
{
    if results.len() == 0 {
        None
    } else if results[0].name@ == name {
        Some(results[0])
    } else {
        spec_find_result(results.drop_first(), name)
    }
}

/// Matching ignores a name-free prefix.
proof fn lemma_find_result_skip(results: Seq<TopicResult>, name: Seq<char>, i: int)
    requires
        0 <= i <= results.len(),
        forall|j: int| 0 <= j < i ==> (#[trigger] results[j]).name@ != name,
    ensures
        spec_find_result(results, name) == spec_find_result(results.skip(i), name),
    decreases i,
{
    if i > 0 {
        assert forall|j: int| 0 <= j < i - 1 implies (#[trigger] results.drop_first()[j]).name@
            != name by {
            assert(results.drop_first()[j] == results[j + 1]);
        }
        lemma_find_result_skip(results.drop_first(), name, i - 1);
        assert(results.drop_first().skip(i - 1) =~= results.skip(i));
    } else {
        assert(results.skip(0) =~= results);
    }
}

/// What one administrative reply means for the one requested name: the
/// sub-result is correlated back by name, never by position.
/// A per-topic failure surfaces as an administrative error — the broker
/// evaluated and rejected this topic — while a transport failure
/// surfaces as a broker error: nothing was attempted.
pub fn admin_call_outcome(name: &str, outcome: AdminCallOutcome) -> (r: Result<(), Error>)
    ensures
        (match outcome {
            AdminCallOutcome::RequestFailed(m) => (match r {
                Err(Error::Kafka(mm)) => mm@ == m@,
                _ => false,
            }),
            AdminCallOutcome::Completed(results) => (match spec_find_result(
                results@,
                name@,
            ) {
                Some(tr) => (match tr.error {
                    None => r is Ok,
                    Some(m) => (match r {
                        Err(Error::Admin(mm)) => mm@ == m@,
                        _ => false,
                    }),
                }),
                None => r matches Err(Error::Admin(_)),
            }),
        }),
{
    match outcome {
        AdminCallOutcome::RequestFailed(m) => Err(Error::Kafka(m)),
        AdminCallOutcome::Completed(results) => {
            let mut i: usize = 0;
            while i < results.len()
                invariant
                    0 <= i <= results@.len(),
                    outcome == AdminCallOutcome::Completed(results),
                    forall|j: int| 0 <= j < i ==> (#[trigger] results@[j]).name@ != name@,
                decreases results@.len() - i,
            {
                if str_eq(results[i].name.as_str(), name) {
                    proof {
                        lemma_find_result_skip(results@, name@, i as int);
                        assert(results@.skip(i as int).len() > 0);
                        assert(results@.skip(i as int)[0] == results@[i as int]);
                        assert(spec_find_result(results@, name@) == Some(
                            results@[i as int],
                        ));
                    }
                    return match &results[i].error {
                        None => Ok(()),
                        Some(m) => Err(Error::Admin(m.clone())),
                    };
                }
                i = i + 1;
            }
            proof {
                lemma_find_result_skip(results@, name@, results@.len() as int);
                assert(results@.skip(results@.len() as int).len() == 0);
            }
            Err(Error::Admin("the reply carries no result for the requested topic".to_owned()))
        },
    }
}

/// Decide a topic-creation reply for the requested name.
pub fn create_topic_outcome(name: &str, outcome: AdminCallOutcome) -> (r: Result<(), Error>)
    ensures
        (match outcome {
            AdminCallOutcome::RequestFailed(m) => (match r {
                Err(Error::Kafka(mm)) => mm@ == m@,
                _ => false,
            }),
            AdminCallOutcome::Completed(results) => (match spec_find_result(
                results@,
                name@,
            ) {
                Some(tr) => (match tr.error {
                    None => r is Ok,
                    Some(m) => (match r {
                        Err(Error::Admin(mm)) => mm@ == m@,
                        _ => false,
                    }),
                }),
                None => r matches Err(Error::Admin(_)),
            }),
        }),
{
    admin_call_outcome(name, outcome)
}

/// Decide a topic-deletion reply for the requested name; the per-item
/// versus request-level distinction is the same as for creation.
pub fn delete_topic_outcome(name: &str, outcome: AdminCallOutcome) -> (r: Result<(), Error>)
    ensures
        (match outcome {
            AdminCallOutcome::RequestFailed(m) => (match r {
                Err(Error::Kafka(mm)) => mm@ == m@,
                _ => false,
            }),
            AdminCallOutcome::Completed(results) => (match spec_find_result(
                results@,
                name@,
            ) {
                Some(tr) => (match tr.error {
                    None => r is Ok,
                    Some(m) => (match r {
                        Err(Error::Admin(mm)) => mm@ == m@,
                        _ => false,
                    }),
                }),
                None => r matches Err(Error::Admin(_)),
            }),
        }),
{
    admin_call_outcome(name, outcome)
}

/// Decide what the build-time connectivity probe means: a facade is
/// handed out only when the probe succeeded; a probe failure surfaces
/// as a connection error, so an apparently-built but unreachable facade
/// never escapes.
pub fn connect_outcome(probe: Result<(), String>) -> (r: Result<(), Error>)
    ensures
        probe is Ok <==> r is Ok,
        (match probe {
            Err(m) => (match r {
                Err(Error::Connection(mm)) => mm@ == m@,
                _ => false,
            }),
            Ok(_) => r is Ok,
        }),
{
    match probe {
        Ok(_) => Ok(()),
        Err(m) => Err(Error::Connection(m)),
    }
}

} // verus!
