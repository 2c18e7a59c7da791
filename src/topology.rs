//! Compiling the declarative configuration into a validated graph of sources and sinks.
use vstd::prelude::*;
use vstd::string::StringExecFns;

use crate::config::{Config, DBConfig, StreamConfig, TopicSource};

verus! {

/// The abstract value of a `ComponentID`.
pub enum ComponentView {
    TopicSubscriber(Seq<char>),
    GRPCSink(Seq<char>),
    DBSink,
}

/// A node of the topology: a topic source, a streaming sink, or the archival sink.
#[derive(Debug)]
pub enum ComponentID {
    TopicSubscriber(String),
    GRPCSink(String),
    DBSink,
}

impl View for ComponentID {
    type V = ComponentView;

    open spec fn view(&self) -> ComponentView {
        match self {
            ComponentID::TopicSubscriber(n) => ComponentView::TopicSubscriber(n@),
            ComponentID::GRPCSink(n) => ComponentView::GRPCSink(n@),
            ComponentID::DBSink => ComponentView::DBSink,
        }
    }
}

impl ComponentID {
    pub fn duplicate(&self) -> (r: Self)
        ensures
            r == *self,
    {
        match self {
            ComponentID::TopicSubscriber(n) => ComponentID::TopicSubscriber(n.clone()),
            ComponentID::GRPCSink(n) => ComponentID::GRPCSink(n.clone()),
            ComponentID::DBSink => ComponentID::DBSink,
        }
    }

    /// Whether two identifiers denote the same component.
    pub fn same_as(&self, other: &ComponentID) -> (r: bool)
        ensures
            r == (self@ == other@),
    {
        match self {
            ComponentID::TopicSubscriber(a) => match other {
                ComponentID::TopicSubscriber(b) => *a == *b,
                _ => false,
            },
            ComponentID::GRPCSink(a) => match other {
                ComponentID::GRPCSink(b) => *a == *b,
                _ => false,
            },
            ComponentID::DBSink => match other {
                ComponentID::DBSink => true,
                _ => false,
            },
        }
    }

    /// A description for reports, naming the kind of component and its name.
    pub fn describe(&self) -> (r: String)
        ensures
            match self@ {
                ComponentView::TopicSubscriber(n) => r@ == seq!['t', 'o', 'p', 'i', 'c', ' '] + n,
                ComponentView::GRPCSink(n) => r@ == seq!['s', 't', 'r', 'e', 'a', 'm', ' '] + n,
                ComponentView::DBSink => r@ == seq!['d', 'a', 't', 'a', 'b', 'a', 's', 'e'],
            },
    {
        match self {
            ComponentID::TopicSubscriber(n) => {
                let p = "topic ";
                proof {
                    reveal_strlit("topic ");
                }
                assert(p@ =~= seq!['t', 'o', 'p', 'i', 'c', ' ']);
                String::from_str(p).concat(n.as_str())
            },
            ComponentID::GRPCSink(n) => {
                let p = "stream ";
                proof {
                    reveal_strlit("stream ");
                }
                assert(p@ =~= seq!['s', 't', 'r', 'e', 'a', 'm', ' ']);
                String::from_str(p).concat(n.as_str())
            },
            ComponentID::DBSink => {
                let p = "database";
                proof {
                    reveal_strlit("database");
                }
                assert(p@ =~= seq!['d', 'a', 't', 'a', 'b', 'a', 's', 'e']);
                String::from_str(p)
            },
        }
    }
}

/// Why a topology could not be compiled or applied.
#[derive(Debug)]
pub enum TopologyConfigError {
    /// Two components were declared under this name.
    DuplicateID(String),
    /// A sink names a sink as its input.
    SelfReference(ComponentID),
    /// The component could not be constructed.
    InitializationError(ComponentID),
    /// The component could not connect to the backend: reason.
    RerunInitializationError(ComponentID, String),
}

pub open spec fn names_of_topics(s: Seq<(String, TopicSource)>) -> Seq<Seq<char>> {
    s.map_values(|p: (String, TopicSource)| p.0@)
}

pub open spec fn names_of_streams(s: Seq<(String, StreamConfig)>) -> Seq<Seq<char>> {
    s.map_values(|p: (String, StreamConfig)| p.0@)
}

pub open spec fn texts(s: Seq<String>) -> Seq<Seq<char>> {
    s.map_values(|x: String| x@)
}

/// Every declared component name: topic sources first, then streaming sinks.
pub open spec fn declared_names(c: Config) -> Seq<Seq<char>> {
    names_of_topics(c.topics@) + names_of_streams(c.streams@)
}

/// The first name in `s` that already occurred before it.
pub open spec fn first_duplicate(s: Seq<Seq<char>>) -> Option<Seq<char>>
    decreases s.len(),
{
    if s.len() == 0 {
        None
    } else {
        match first_duplicate(s.drop_last()) {
            Some(d) => Some(d),
            None => if s.drop_last().contains(s.last()) {
                Some(s.last())
            } else {
                None
            },
        }
    }
}

/// The inputs of every streaming sink, in order of name.
pub open spec fn inputs_flat(streams: Seq<(String, StreamConfig)>) -> Seq<Seq<char>>
    decreases streams.len(),
{
    if streams.len() == 0 {
        Seq::empty()
    } else {
        inputs_flat(streams.drop_last()) + texts(streams.last().1.inputs@)
    }
}

/// The first input that is no topic source but names a streaming sink.
pub open spec fn first_sink_input(xs: Seq<Seq<char>>, topics: Seq<Seq<char>>, sinks: Seq<Seq<char>>) -> Option<Seq<char>>
    decreases xs.len(),
{
    if xs.len() == 0 {
        None
    } else {
        match first_sink_input(xs.drop_last(), topics, sinks) {
            Some(d) => Some(d),
            None => if !topics.contains(xs.last()) && sinks.contains(xs.last()) {
                Some(xs.last())
            } else {
                None
            },
        }
    }
}

/// The topic sources among `inputs`, in order; other names are dropped.
pub open spec fn feeding(inputs: Seq<Seq<char>>, topics: Seq<Seq<char>>) -> Seq<ComponentView>
    decreases inputs.len(),
{
    if inputs.len() == 0 {
        Seq::empty()
    } else {
        feeding(inputs.drop_last(), topics) + if topics.contains(inputs.last()) {
            seq![ComponentView::TopicSubscriber(inputs.last())]
        } else {
            Seq::empty()
        }
    }
}

/// The edges of streaming sinks, in order of name.
pub open spec fn stream_edges(streams: Seq<(String, StreamConfig)>, topics: Seq<Seq<char>>) -> Seq<(ComponentView, Seq<ComponentView>)> {
    streams.map_values(|p: (String, StreamConfig)| (ComponentView::GRPCSink(p.0@), feeding(texts(p.1.inputs@), topics)))
}

/// The edges a configuration compiles to: each streaming sink, then the
/// archival sink, with the topic sources that feed it.
pub open spec fn expected_edges(c: Config) -> Seq<(ComponentView, Seq<ComponentView>)> {
    stream_edges(c.streams@, names_of_topics(c.topics@)).push(
        (ComponentView::DBSink, feeding(texts(c.db.inputs@), names_of_topics(c.topics@))),
    )
}

/// The abstract value of a `TopologyConfig`.
pub struct TopologyView {
    pub topics: Seq<(String, TopicSource)>,
    pub streams: Seq<(String, StreamConfig)>,
    pub db: DBConfig,
    /// Each sink with the topic sources that feed it.
    pub edges: Seq<(ComponentView, Seq<ComponentView>)>,
}

/// The layout of a compiled topology's sinks: one edge list per streaming
/// sink, in order of name, then one for the archival sink.
pub open spec fn sinks_laid_out(t: TopologyView) -> bool {
    &&& t.edges.len() == t.streams.len() + 1
    &&& forall|j: int| 0 <= j < t.streams.len() ==> #[trigger] t.edges[j].0 == ComponentView::GRPCSink(t.streams[j].0@)
    &&& t.edges[t.streams.len() as int].0 == ComponentView::DBSink
}

/// The order of `ComponentID`s: topic sources, then streaming sinks, then the
/// archival sink; within one kind, by name.
pub open spec fn component_lt(a: ComponentView, b: ComponentView) -> bool {
    match (a, b) {
        (ComponentView::TopicSubscriber(x), ComponentView::TopicSubscriber(y)) => name_lt(x, y),
        (ComponentView::TopicSubscriber(_), _) => true,
        (ComponentView::GRPCSink(x), ComponentView::GRPCSink(y)) => name_lt(x, y),
        (ComponentView::GRPCSink(_), ComponentView::DBSink) => true,
        _ => false,
    }
}

/// Whether `x` is the least sink, by `ComponentID` order, that lists itself among its inputs.
pub open spec fn least_self_reference(edges: Seq<(ComponentView, Seq<ComponentView>)>, x: ComponentView) -> bool {
    &&& exists|i: int| 0 <= i < edges.len() && edges[i].0 == x && #[trigger] edges[i].1.contains(edges[i].0)
    &&& forall|j: int| 0 <= j < edges.len() && #[trigger] edges[j].1.contains(edges[j].0) && edges[j].0 != x
        ==> component_lt(x, edges[j].0)
}

/// Whether a sink lists itself among its inputs.
pub open spec fn has_self_edge(edges: Seq<(ComponentView, Seq<ComponentView>)>) -> bool {
    exists|i: int| 0 <= i < edges.len() && #[trigger] edges[i].1.contains(edges[i].0)
}

/// A validated description of how data flows from topic sources to sinks.
///
/// Only `parse_topology_config` makes one; it is never changed afterwards.
#[derive(Debug)]
pub struct TopologyConfig {
    topic_subscriptions: Vec<(String, TopicSource)>,
    grpc_sinks: Vec<(String, StreamConfig)>,
    db_sink: DBConfig,
    edges: Vec<(ComponentID, Vec<ComponentID>)>,
}

pub open spec fn ids_view(s: Seq<ComponentID>) -> Seq<ComponentView> {
    s.map_values(|c: ComponentID| c@)
}

impl View for TopologyConfig {
    type V = TopologyView;

    closed spec fn view(&self) -> TopologyView {
        TopologyView {
            topics: self.topic_subscriptions@,
            streams: self.grpc_sinks@,
            db: self.db_sink,
            edges: self.edges@.map_values(|e: (ComponentID, Vec<ComponentID>)| (e.0@, ids_view(e.1@))),
        }
    }
}

proof fn lemma_texts_push(s: Seq<String>, x: String)
    ensures
        texts(s.push(x)) == texts(s).push(x@),
{
    assert(texts(s.push(x)) =~= texts(s).push(x@));
}

/// Whether the topic sources include one named `n`.
fn topic_named(topics: &Vec<(String, TopicSource)>, n: &String) -> (r: bool)
    ensures
        r == names_of_topics(topics@).contains(n@),
{
    let mut i: usize = 0;
    while i < topics.len()
        invariant
            0 <= i <= topics@.len(),
            forall|j: int| 0 <= j < i ==> names_of_topics(topics@)[j] != n@,
        decreases topics@.len() - i,
    {
        if topics[i].0 == *n {
            assert(names_of_topics(topics@)[i as int] == n@);
            return true;
        }
        i = i + 1;
    }
    false
}

fn stream_named(streams: &Vec<(String, StreamConfig)>, n: &String) -> (r: bool)
    ensures
        r == names_of_streams(streams@).contains(n@),
{
    let mut i: usize = 0;
    while i < streams.len()
        invariant
            0 <= i <= streams@.len(),
            forall|j: int| 0 <= j < i ==> names_of_streams(streams@)[j] != n@,
        decreases streams@.len() - i,
    {
        if streams[i].0 == *n {
            assert(names_of_streams(streams@)[i as int] == n@);
            return true;
        }
        i = i + 1;
    }
    false
}

/// A name that occurs first among `s.take(n)` is the first duplicate of all of `s`.
proof fn lemma_first_duplicate_prefix(s: Seq<Seq<char>>, n: int)
    requires
        0 <= n <= s.len(),
        first_duplicate(s.take(n)) is Some,
    ensures
        first_duplicate(s) == first_duplicate(s.take(n)),
    decreases s.len() - n,
{
    if n < s.len() {
        assert(s.take(n + 1).drop_last() =~= s.take(n));
        lemma_first_duplicate_prefix(s, n + 1);
    } else {
        assert(s.take(n) =~= s);
    }
}

/// Appending to a list keeps its first input that names a streaming sink.
proof fn lemma_first_sink_input_append(a: Seq<Seq<char>>, b: Seq<Seq<char>>, topics: Seq<Seq<char>>, sinks: Seq<Seq<char>>)
    requires
        first_sink_input(a, topics, sinks) is Some,
    ensures
        first_sink_input(a + b, topics, sinks) == first_sink_input(a, topics, sinks),
    decreases b.len(),
{
    if b.len() == 0 {
        assert(a + b =~= a);
    } else {
        assert((a + b).drop_last() =~= a + b.drop_last());
        lemma_first_sink_input_append(a, b.drop_last(), topics, sinks);
    }
}

/// The inputs of the first `n` streaming sinks decide the first input that
/// names a streaming sink, once they hold one.
proof fn lemma_first_sink_input_streams(s: Seq<(String, StreamConfig)>, n: int, topics: Seq<Seq<char>>, sinks: Seq<Seq<char>>)
    requires
        0 <= n <= s.len(),
        first_sink_input(inputs_flat(s.take(n)), topics, sinks) is Some,
    ensures
        first_sink_input(inputs_flat(s), topics, sinks) == first_sink_input(inputs_flat(s.take(n)), topics, sinks),
    decreases s.len() - n,
{
    if n < s.len() {
        assert(s.take(n + 1).drop_last() =~= s.take(n));
        assert(inputs_flat(s.take(n + 1)) == inputs_flat(s.take(n)) + texts(s[n].1.inputs@));
        lemma_first_sink_input_append(inputs_flat(s.take(n)), texts(s[n].1.inputs@), topics, sinks);
        lemma_first_sink_input_streams(s, n + 1, topics, sinks);
    } else {
        assert(s.take(n) =~= s);
    }
}

/// The first name of `names` that already occurred before it.
fn find_duplicate(names: &Vec<String>) -> (r: Option<String>)
    ensures
        match r {
            Some(d) => first_duplicate(texts(names@)) == Some(d@),
            None => first_duplicate(texts(names@)) is None,
        },
{
    let ghost s = texts(names@);
    let mut j: usize = 0;
    assert(s.take(0) =~= Seq::<Seq<char>>::empty());
    while j < names.len()
        invariant
            0 <= j <= names@.len(),
            s == texts(names@),
            first_duplicate(s.take(j as int)) is None,
        decreases names@.len() - j,
    {
        assert(s.take(j + 1).drop_last() =~= s.take(j as int));
        let mut k: usize = 0;
        while k < j
            invariant
                0 <= k <= j < names@.len(),
                s == texts(names@),
                first_duplicate(s.take(j as int)) is None,
                forall|m: int| 0 <= m < k ==> s[m] != s[j as int],
            decreases j - k,
        {
            if names[k] == names[j] {
                proof {
                    assert(s.take(j + 1).drop_last() =~= s.take(j as int));
                    assert(s.take(j + 1).last() == s[j as int]);
                    assert(s.take(j as int)[k as int] == s[j as int]);
                    assert(s.take(j + 1).drop_last().contains(s.take(j + 1).last()));
                    lemma_first_duplicate_prefix(s, j + 1);
                }
                return Some(names[j].clone());
            }
            k = k + 1;
        }
        assert(!s.take(j + 1).drop_last().contains(s.take(j + 1).last())) by {
            if s.take(j + 1).drop_last().contains(s.take(j + 1).last()) {
                let m = choose|m: int| 0 <= m < s.take(j + 1).drop_last().len() && #[trigger] s.take(j + 1).drop_last()[m] == s.take(j + 1).last();
                assert(s[m] == s[j as int]);
            }
        }
        j = j + 1;
    }
    assert(s.take(names@.len() as int) =~= s);
    None
}

/// Every declared name: topic sources first, then streaming sinks.
fn collect_names(config: &Config) -> (r: Vec<String>)
    ensures
        texts(r@) == declared_names(*config),
{
    let mut out: Vec<String> = Vec::new();
    let mut i: usize = 0;
    while i < config.topics.len()
        invariant
            0 <= i <= config.topics@.len(),
            texts(out@) =~= names_of_topics(config.topics@).take(i as int),
        decreases config.topics@.len() - i,
    {
        let n = config.topics[i].0.clone();
        proof {
            lemma_texts_push(out@, n);
            assert(names_of_topics(config.topics@).take(i + 1) =~= names_of_topics(config.topics@).take(i as int).push(n@));
        }
        out.push(n);
        i = i + 1;
    }
    let mut k: usize = 0;
    while k < config.streams.len()
        invariant
            0 <= k <= config.streams@.len(),
            texts(out@) =~= names_of_topics(config.topics@) + names_of_streams(config.streams@).take(k as int),
        decreases config.streams@.len() - k,
    {
        let n = config.streams[k].0.clone();
        proof {
            lemma_texts_push(out@, n);
            assert(names_of_streams(config.streams@).take(k + 1) =~= names_of_streams(config.streams@).take(k as int).push(n@));
        }
        out.push(n);
        k = k + 1;
    }
    out
}

/// The topic sources among `inputs`, in order.
fn feeding_ids(inputs: &Vec<String>, topics: &Vec<(String, TopicSource)>) -> (r: Vec<ComponentID>)
    ensures
        ids_view(r@) == feeding(texts(inputs@), names_of_topics(topics@)),
{
    let ghost xs = texts(inputs@);
    let ghost tn = names_of_topics(topics@);
    let mut out: Vec<ComponentID> = Vec::new();
    let mut k: usize = 0;
    assert(ids_view(out@) =~= feeding(xs.take(0), tn));
    while k < inputs.len()
        invariant
            0 <= k <= inputs@.len(),
            xs == texts(inputs@),
            tn == names_of_topics(topics@),
            ids_view(out@) == feeding(xs.take(k as int), tn),
        decreases inputs@.len() - k,
    {
        assert(xs.take(k + 1).drop_last() =~= xs.take(k as int));
        if topic_named(topics, &inputs[k]) {
            out.push(ComponentID::TopicSubscriber(inputs[k].clone()));
        }
        assert(ids_view(out@) =~= feeding(xs.take(k + 1), tn));
        k = k + 1;
    }
    assert(xs.take(inputs@.len() as int) =~= xs);
    out
}

/// Whether `a` comes before `b` in the order of their characters' code
/// points, the order of `ComponentID`s of one kind.
pub open spec fn name_lt(a: Seq<char>, b: Seq<char>) -> bool
    decreases a.len(),
{
    if a.len() == 0 {
        b.len() > 0
    } else if b.len() == 0 {
        false
    } else if a[0] != b[0] {
        (a[0] as u32) < (b[0] as u32)
    } else {
        name_lt(a.drop_first(), b.drop_first())
    }
}

/// Whether names are strictly increasing, as the keys of a map walked in order.
pub open spec fn strictly_sorted(s: Seq<Seq<char>>) -> bool {
    forall|i: int, j: int| 0 <= i < j < s.len() ==> name_lt(#[trigger] s[i], #[trigger] s[j])
}

/// Whether `d` is the least streaming-sink name that is also a topic-source name.
pub open spec fn least_shared(topics: Seq<Seq<char>>, sinks: Seq<Seq<char>>, d: Seq<char>) -> bool {
    &&& topics.contains(d)
    &&& sinks.contains(d)
    &&& forall|j: int| 0 <= j < sinks.len() && topics.contains(#[trigger] sinks[j]) ==> sinks[j] == d || name_lt(d, sinks[j])
}

/// Whether topic-source names and streaming-sink names are each strictly
/// increasing, as the keys of two maps keyed by name.
pub open spec fn sorted_declarations(c: Config) -> bool {
    strictly_sorted(names_of_topics(c.topics@)) && strictly_sorted(names_of_streams(c.streams@))
}

proof fn lemma_name_lt_irreflexive(a: Seq<char>)
    ensures
        !name_lt(a, a),
    decreases a.len(),
{
    if a.len() > 0 {
        lemma_name_lt_irreflexive(a.drop_first());
    }
}

pub open spec fn distinct(x: Seq<Seq<char>>) -> bool {
    forall|i: int, j: int| 0 <= i < j < x.len() ==> #[trigger] x[i] != #[trigger] x[j]
}

proof fn lemma_sorted_distinct(x: Seq<Seq<char>>)
    requires
        strictly_sorted(x),
    ensures
        distinct(x),
{
    assert forall|i: int, j: int| 0 <= i < j < x.len() implies #[trigger] x[i] != #[trigger] x[j] by {
        lemma_name_lt_irreflexive(x[i]);
        assert(name_lt(x[i], x[j]));
    }
}

proof fn lemma_distinct_no_duplicate(x: Seq<Seq<char>>)
    requires
        distinct(x),
    ensures
        first_duplicate(x) is None,
    decreases x.len(),
{
    if x.len() > 0 {
        let p = x.drop_last();
        assert(distinct(p)) by {
            assert forall|i: int, j: int| 0 <= i < j < p.len() implies #[trigger] p[i] != #[trigger] p[j] by {
                assert(x[i] != x[j]);
            }
        }
        lemma_distinct_no_duplicate(p);
        if p.contains(x.last()) {
            let m = choose|m: int| 0 <= m < p.len() && #[trigger] p[m] == x.last();
            assert(x[m] != x[x.len() - 1]);
        }
    }
}

/// The least index of a streaming-sink name that is also a topic-source name.
proof fn lemma_least_shared_index(topics: Seq<Seq<char>>, sinks: Seq<Seq<char>>, j0: int) -> (k: int)
    requires
        0 <= j0 < sinks.len(),
        topics.contains(sinks[j0]),
    ensures
        0 <= k <= j0,
        topics.contains(sinks[k]),
        forall|m: int| 0 <= m < k ==> !topics.contains(#[trigger] sinks[m]),
    decreases j0,
{
    if exists|m: int| 0 <= m < j0 && topics.contains(#[trigger] sinks[m]) {
        let m = choose|m: int| 0 <= m < j0 && topics.contains(#[trigger] sinks[m]);
        lemma_least_shared_index(topics, sinks, m)
    } else {
        j0
    }
}

/// With topic-source names and streaming-sink names each strictly sorted,
/// the first repeated declared name is the least streaming-sink name that is
/// also a topic-source name, and there is none exactly when no name is shared.
pub proof fn lemma_sorted_first_duplicate(topics: Seq<Seq<char>>, sinks: Seq<Seq<char>>)
    requires
        strictly_sorted(topics),
        strictly_sorted(sinks),
    ensures
        match first_duplicate(topics + sinks) {
            Some(d) => least_shared(topics, sinks, d),
            None => forall|j: int| 0 <= j < sinks.len() ==> !topics.contains(#[trigger] sinks[j]),
        },
{
    lemma_sorted_distinct(topics);
    lemma_sorted_distinct(sinks);
    let x = topics + sinks;
    if exists|j: int| 0 <= j < sinks.len() && topics.contains(#[trigger] sinks[j]) {
        let j0 = choose|j: int| 0 <= j < sinks.len() && topics.contains(#[trigger] sinks[j]);
        let k = lemma_least_shared_index(topics, sinks, j0);
        let n = topics.len() + k;
        let pre = x.take(n);
        assert(distinct(pre)) by {
            assert forall|i: int, j: int| 0 <= i < j < pre.len() implies #[trigger] pre[i] != #[trigger] pre[j] by {
                if j < topics.len() {
                    assert(topics[i] != topics[j]);
                } else if i >= topics.len() {
                    assert(sinks[i - topics.len()] != sinks[j - topics.len()]);
                } else {
                    assert(pre[i] == topics[i]);
                    assert(!topics.contains(sinks[j - topics.len()]));
                }
            }
        }
        lemma_distinct_no_duplicate(pre);
        assert(x.take(n + 1).drop_last() =~= pre);
        assert(x.take(n + 1).last() == sinks[k]);
        let w = choose|w: int| 0 <= w < topics.len() && topics[w] == sinks[k];
        assert(pre[w] == sinks[k]);
        assert(first_duplicate(x.take(n + 1)) == Some(sinks[k]));
        lemma_first_duplicate_prefix(x, n + 1);
        assert(sinks.contains(sinks[k]));
        assert forall|j: int| 0 <= j < sinks.len() && topics.contains(#[trigger] sinks[j]) implies sinks[j] == sinks[k]
            || name_lt(sinks[k], sinks[j]) by {
            if j < k {
                assert(!topics.contains(sinks[j]));
            } else if j > k {
                assert(name_lt(sinks[k], sinks[j]));
            }
        }
    } else {
        assert(distinct(x)) by {
            assert forall|i: int, j: int| 0 <= i < j < x.len() implies #[trigger] x[i] != #[trigger] x[j] by {
                if j < topics.len() {
                    assert(topics[i] != topics[j]);
                } else if i >= topics.len() {
                    assert(sinks[i - topics.len()] != sinks[j - topics.len()]);
                } else {
                    assert(x[i] == topics[i]);
                    assert(!topics.contains(sinks[j - topics.len()]));
                }
            }
        }
        lemma_distinct_no_duplicate(x);
    }
}

/// Whether a configuration compiles: no name is declared twice, and no
/// streaming sink takes another streaming sink as input.
pub open spec fn compiles(c: Config) -> bool {
    first_duplicate(declared_names(c)) is None
        && first_sink_input(inputs_flat(c.streams@), names_of_topics(c.topics@), names_of_streams(c.streams@)) is None
}

/// Compiles the declarative configuration into a topology.
///
/// Every declared topic source becomes a source; every streaming sink and
/// the archival sink become sinks fed by those of their inputs that name
/// topic sources (other names are dropped).
///
/// Topic sources and streaming sinks are each keyed by name, in increasing
/// order, so components are walked in `ComponentID` order: topic sources, then
/// streaming sinks. Fails with `DuplicateID` on the first name met twice, which
/// is the least streaming-sink name that also names a topic source; else with
/// `SelfReference` on the first input of a streaming sink that names a
/// streaming sink.
pub fn parse_topology_config(config: Config) -> (r: Result<TopologyConfig, TopologyConfigError>)
    requires
        sorted_declarations(config),
    ensures
        r is Err && r->Err_0 is DuplicateID ==> least_shared(
            names_of_topics(config.topics@),
            names_of_streams(config.streams@),
            r->Err_0->DuplicateID_0@,
        ),
        match first_duplicate(declared_names(config)) {
            Some(d) => r is Err && r->Err_0 is DuplicateID && r->Err_0->DuplicateID_0@ == d,
            None => match first_sink_input(inputs_flat(config.streams@), names_of_topics(config.topics@), names_of_streams(config.streams@)) {
                Some(s) => r is Err && r->Err_0 is SelfReference && r->Err_0->SelfReference_0@ == ComponentView::GRPCSink(s),
                None => r is Ok && r->Ok_0@ == (TopologyView {
                    topics: config.topics@,
                    streams: config.streams@,
                    db: config.db,
                    edges: expected_edges(config),
                }) && sinks_laid_out(r->Ok_0@),
            },
        },
{
    proof {
        lemma_sorted_first_duplicate(names_of_topics(config.topics@), names_of_streams(config.streams@));
    }
    let names = collect_names(&config);
    if let Some(d) = find_duplicate(&names) {
        return Err(TopologyConfigError::DuplicateID(d));
    }
    let ghost tn = names_of_topics(config.topics@);
    let ghost sn = names_of_streams(config.streams@);
    let ghost flat = inputs_flat(config.streams@);
    let mut edges: Vec<(ComponentID, Vec<ComponentID>)> = Vec::new();
    let mut i: usize = 0;
    assert(config.streams@.take(0) =~= Seq::<(String, StreamConfig)>::empty());
    while i < config.streams.len()
        invariant
            0 <= i <= config.streams@.len(),
            tn == names_of_topics(config.topics@),
            sn == names_of_streams(config.streams@),
            flat == inputs_flat(config.streams@),
            first_duplicate(declared_names(config)) is None,
            first_sink_input(inputs_flat(config.streams@.take(i as int)), tn, sn) is None,
            edges@.map_values(|e: (ComponentID, Vec<ComponentID>)| (e.0@, ids_view(e.1@))) =~= stream_edges(config.streams@.take(i as int), tn),
        decreases config.streams@.len() - i,
    {
        let ghost pre = inputs_flat(config.streams@.take(i as int));
        let ghost xs = texts(config.streams@[i as int].1.inputs@);
        assert(config.streams@.take(i + 1).drop_last() =~= config.streams@.take(i as int));
        assert(inputs_flat(config.streams@.take(i + 1)) == pre + xs);
        let inputs = &config.streams[i].1.inputs;
        let mut k: usize = 0;
        assert(pre + xs.take(0) =~= pre);
        while k < inputs.len()
            invariant
                0 <= k <= inputs@.len(),
                0 <= i < config.streams@.len(),
                pre + xs == inputs_flat(config.streams@.take(i + 1)),
                inputs == config.streams@[i as int].1.inputs,
                xs == texts(inputs@),
                first_duplicate(declared_names(config)) is None,
                tn == names_of_topics(config.topics@),
                sn == names_of_streams(config.streams@),
                first_sink_input(pre + xs.take(k as int), tn, sn) is None,
            decreases inputs@.len() - k,
        {
            assert((pre + xs.take(k + 1)).drop_last() =~= pre + xs.take(k as int));
            let x = &inputs[k];
            if !topic_named(&config.topics, x) && stream_named(&config.streams, x) {
                proof {
                    assert((pre + xs.take(k + 1)).last() == x@);
                    assert(first_sink_input(pre + xs.take(k + 1), tn, sn) == Some(x@));
                    lemma_first_sink_input_append(pre + xs.take(k + 1), xs.skip(k + 1), tn, sn);
                    assert(pre + xs.take(k + 1) + xs.skip(k + 1) =~= pre + xs);
                    lemma_first_sink_input_streams(config.streams@, i + 1, tn, sn);
                }
                return Err(TopologyConfigError::SelfReference(ComponentID::GRPCSink(x.clone())));
            }
            k = k + 1;
        }
        assert(pre + xs.take(inputs@.len() as int) =~= pre + xs);
        let fed = feeding_ids(inputs, &config.topics);
        let sink = ComponentID::GRPCSink(config.streams[i].0.clone());
        let ghost before = edges@;
        edges.push((sink, fed));
        proof {
            let f = |e: (ComponentID, Vec<ComponentID>)| (e.0@, ids_view(e.1@));
            assert(edges@.map_values(f) =~= before.map_values(f).push(f((sink, fed))));
            assert(stream_edges(config.streams@.take(i + 1), tn) =~= stream_edges(config.streams@.take(i as int), tn).push(f((sink, fed))));
        }
        i = i + 1;
    }
    assert(config.streams@.take(config.streams@.len() as int) =~= config.streams@);
    let db_fed = feeding_ids(&config.db.inputs, &config.topics);
    edges.push((ComponentID::DBSink, db_fed));
    let Config { api: _, topics, streams, db, config_paths: _ } = config;
    let t = TopologyConfig { topic_subscriptions: topics, grpc_sinks: streams, db_sink: db, edges };
    assert(t@.edges =~= expected_edges(config));
    Ok(t)
}

impl TopologyConfig {
    /// The names of the topic sources, in order of name.
    pub fn topic_names(&self) -> (r: Vec<String>)
        ensures
            texts(r@) == names_of_topics(self@.topics),
    {
        let mut out: Vec<String> = Vec::new();
        let mut i: usize = 0;
        while i < self.topic_subscriptions.len()
            invariant
                0 <= i <= self@.topics.len(),
                texts(out@) =~= names_of_topics(self@.topics).take(i as int),
            decreases self@.topics.len() - i,
        {
            let n = self.topic_subscriptions[i].0.clone();
            proof {
                lemma_texts_push(out@, n);
                assert(names_of_topics(self@.topics).take(i + 1) =~= names_of_topics(self@.topics).take(i as int).push(n@));
            }
            out.push(n);
            i = i + 1;
        }
        assert(names_of_topics(self@.topics).take(i as int) =~= names_of_topics(self@.topics));
        out
    }

    /// The names of the streaming sinks, in order of name.
    pub fn stream_names(&self) -> (r: Vec<String>)
        ensures
            texts(r@) == names_of_streams(self@.streams),
    {
        let mut out: Vec<String> = Vec::new();
        let mut i: usize = 0;
        while i < self.grpc_sinks.len()
            invariant
                0 <= i <= self@.streams.len(),
                texts(out@) =~= names_of_streams(self@.streams).take(i as int),
            decreases self@.streams.len() - i,
        {
            let n = self.grpc_sinks[i].0.clone();
            proof {
                lemma_texts_push(out@, n);
                assert(names_of_streams(self@.streams).take(i + 1) =~= names_of_streams(self@.streams).take(i as int).push(n@));
            }
            out.push(n);
            i = i + 1;
        }
        assert(names_of_streams(self@.streams).take(i as int) =~= names_of_streams(self@.streams));
        out
    }

    /// The declared topic sources, in order of name.
    pub fn topic_subscriptions(&self) -> (r: &Vec<(String, TopicSource)>)
        ensures
            r@ == self@.topics,
    {
        &self.topic_subscriptions
    }

    /// The declared streaming sinks, in order of name.
    pub fn grpc_sinks(&self) -> (r: &Vec<(String, StreamConfig)>)
        ensures
            r@ == self@.streams,
    {
        &self.grpc_sinks
    }

    /// The declaration of the archival sink.
    pub fn db_sink(&self) -> (r: &DBConfig)
        ensures
            *r == self@.db,
    {
        &self.db_sink
    }

    /// Each sink with the topic sources that feed it: the streaming sinks in
    /// declaration order, then the archival sink.
    pub fn edges(&self) -> (r: &Vec<(ComponentID, Vec<ComponentID>)>)
        ensures
            r@.map_values(|e: (ComponentID, Vec<ComponentID>)| (e.0@, ids_view(e.1@))) == self@.edges,
    {
        &self.edges
    }

    /// Checks that no name is declared twice and no sink feeds itself.
    pub fn validate(&self) -> (r: Result<(), TopologyConfigError>)
        ensures
            strictly_sorted(names_of_topics(self@.topics)) && strictly_sorted(names_of_streams(self@.streams))
                && r is Err && r->Err_0 is DuplicateID ==> least_shared(
                names_of_topics(self@.topics),
                names_of_streams(self@.streams),
                r->Err_0->DuplicateID_0@,
            ),
            sinks_laid_out(self@) && strictly_sorted(names_of_streams(self@.streams))
                && r is Err && r->Err_0 is SelfReference ==> least_self_reference(self@.edges, r->Err_0->SelfReference_0@),
            match first_duplicate(names_of_topics(self@.topics) + names_of_streams(self@.streams)) {
                Some(d) => r is Err && r->Err_0 is DuplicateID && r->Err_0->DuplicateID_0@ == d,
                None => (r is Ok <==> !has_self_edge(self@.edges))
                    && (r is Err ==> r->Err_0 is SelfReference),
            },
    {
        proof {
            if strictly_sorted(names_of_topics(self@.topics)) && strictly_sorted(names_of_streams(self@.streams)) {
                lemma_sorted_first_duplicate(names_of_topics(self@.topics), names_of_streams(self@.streams));
            }
        }
        match self.check_duplicate_ids() {
            Err(e) => return Err(e),
            Ok(()) => {},
        }
        let r = self.check_invalid_edges();
        proof {
            let es = self@.edges;
            let sn = names_of_streams(self@.streams);
            if sinks_laid_out(self@) && strictly_sorted(sn) && r is Err {
                let x = r->Err_0->SelfReference_0@;
                let i = choose|i: int| 0 <= i < es.len() && x == es[i].0 && #[trigger] es[i].1.contains(es[i].0)
                    && forall|m: int| 0 <= m < i ==> !(#[trigger] es[m].1.contains(es[m].0));
                assert forall|j: int| 0 <= j < es.len() && #[trigger] es[j].1.contains(es[j].0) && es[j].0 != x
                    implies component_lt(x, es[j].0) by {
                    if j < i {
                        assert(!es[j].1.contains(es[j].0));
                    } else if j > i {
                        let n = self@.streams.len() as int;
                        if j == n {
                            assert(es[i].0 == ComponentView::GRPCSink(self@.streams[i].0@));
                        } else {
                            assert(es[i].0 == ComponentView::GRPCSink(self@.streams[i].0@));
                            assert(es[j].0 == ComponentView::GRPCSink(self@.streams[j].0@));
                            assert(name_lt(sn[i], sn[j]));
                        }
                    }
                }
            }
        }
        r
    }

    fn check_duplicate_ids(&self) -> (r: Result<(), TopologyConfigError>)
        ensures
            match first_duplicate(names_of_topics(self@.topics) + names_of_streams(self@.streams)) {
                Some(d) => r is Err && r->Err_0 is DuplicateID && r->Err_0->DuplicateID_0@ == d,
                None => r is Ok,
            },
    {
        let mut names = self.topic_names();
        let mut more = self.stream_names();
        let ghost a = texts(names@);
        let ghost b = texts(more@);
        names.append(&mut more);
        assert(texts(names@) =~= a + b);
        match find_duplicate(&names) {
            Some(d) => Err(TopologyConfigError::DuplicateID(d)),
            None => Ok(()),
        }
    }

    fn check_invalid_edges(&self) -> (r: Result<(), TopologyConfigError>)
        ensures
            r is Ok <==> !has_self_edge(self@.edges),
            r is Err ==> r->Err_0 is SelfReference && exists|i: int| 0 <= i < self@.edges.len()
                && r->Err_0->SelfReference_0@ == self@.edges[i].0
                && #[trigger] self@.edges[i].1.contains(self@.edges[i].0)
                && forall|m: int| 0 <= m < i ==> !(#[trigger] self@.edges[m].1.contains(self@.edges[m].0)),
    {
        let ghost es = self@.edges;
        let mut i: usize = 0;
        while i < self.edges.len()
            invariant
                0 <= i <= es.len(),
                es == self@.edges,
                es.len() == self.edges@.len(),
                forall|m: int| 0 <= m < i ==> !(#[trigger] es[m].1.contains(es[m].0)),
            decreases es.len() - i,
        {
            let sink = &self.edges[i].0;
            let sources = &self.edges[i].1;
            let mut k: usize = 0;
            while k < sources.len()
                invariant
                    0 <= k <= sources@.len(),
                    0 <= i < es.len(),
                    es == self@.edges,
                    es.len() == self.edges@.len(),
                    forall|m: int| 0 <= m < i ==> !(#[trigger] es[m].1.contains(es[m].0)),
                    es[i as int].0 == sink@,
                    es[i as int].1 == ids_view(sources@),
                    forall|m: int| 0 <= m < k ==> es[i as int].1[m] != es[i as int].0,
                decreases sources@.len() - k,
            {
                if sources[k].same_as(sink) {
                    assert(es[i as int].1[k as int] == es[i as int].0);
                    assert(es[i as int].1.contains(es[i as int].0));
                    assert(sources@[k as int]@ == es[i as int].0);
                    return Err(TopologyConfigError::SelfReference(sources[k].duplicate()));
                }
                k = k + 1;
            }
            assert(!es[i as int].1.contains(es[i as int].0)) by {
                if es[i as int].1.contains(es[i as int].0) {
                    let m = choose|m: int| 0 <= m < es[i as int].1.len() && #[trigger] es[i as int].1[m] == es[i as int].0;
                    assert(es[i as int].1[m] != es[i as int].0);
                }
            }
            i = i + 1;
        }
        Ok(())
    }
}

/// The names of the topic sources and streaming sinks that a compiled
/// topology reports are exactly the declared ones.
pub proof fn lemma_round_trip_names(c: Config, t: TopologyView)
    requires
        t == (TopologyView { topics: c.topics@, streams: c.streams@, db: c.db, edges: expected_edges(c) }),
    ensures
        names_of_topics(t.topics).to_set() == names_of_topics(c.topics@).to_set(),
        names_of_streams(t.streams).to_set() == names_of_streams(c.streams@).to_set(),
{
}

/// A list with no first duplicate holds every name once.
proof fn lemma_no_duplicate_distinct(s: Seq<Seq<char>>)
    requires
        first_duplicate(s) is None,
    ensures
        forall|i: int, j: int| 0 <= i < j < s.len() ==> s[i] != s[j],
    decreases s.len(),
{
    if s.len() > 0 {
        let p = s.drop_last();
        lemma_no_duplicate_distinct(p);
        assert forall|i: int, j: int| 0 <= i < j < s.len() implies s[i] != s[j] by {
            if j == s.len() - 1 {
                if s[i] == s[j] {
                    assert(p[i] == s.last());
                    assert(p.contains(s.last()));
                }
            } else {
                assert(p[i] == s[i] && p[j] == s[j]);
            }
        }
    }
}

/// A configuration that declares one name twice, as two topic sources, two
/// streaming sinks, or a topic source and a streaming sink, does not compile:
/// its compilation reports a duplicate name.
pub proof fn lemma_repeated_name_is_duplicate(c: Config, i: int, j: int)
    requires
        0 <= i < j < declared_names(c).len(),
        declared_names(c)[i] == declared_names(c)[j],
    ensures
        first_duplicate(declared_names(c)) is Some,
        !compiles(c),
{
    if first_duplicate(declared_names(c)) is None {
        lemma_no_duplicate_distinct(declared_names(c));
    }
}

} // verus!
