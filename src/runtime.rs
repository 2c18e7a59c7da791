//! Decisions of the running topology: fan-out wiring, delivery, and the sink life cycle.
use std::sync::Arc;
use tokio::sync::mpsc::UnboundedSender;
use vstd::prelude::*;

use crate::config::TopicSource;
use crate::converter::{converted_to, converts, Converter, ConverterError, ConverterSettings, SettingValue};
use crate::message::{LogPacket, MessageView};
use crate::names::{RerunName, ROSTypeName, TargetView};
use crate::registry::{built, owned_type_view, ConverterBuilder, ConverterRegistry};
use crate::topology::{ComponentID, ComponentView, TopologyConfig, TopologyConfigError};

verus! {

#[verifier::external_type_specification]
#[verifier::external_body]
#[verifier::reject_recursive_types(T)]
pub struct ExUnboundedSender<T>(UnboundedSender<T>);

/// Relies on tokio's `UnboundedSender::send`: it never blocks and fails only
/// when the receiving half is gone, handing the message back unchanged in its
/// `SendError`. Whether it fails depends on the receiving task.
#[verifier::external_body]
fn send_unbounded(tx: &UnboundedSender<LogData>, data: LogData) -> (r: Result<(), LogData>)
    ensures
        r is Err ==> r->Err_0 == data,
{
    tx.send(data).map_err(|e| e.0)
}

/// Relies on `Arc::clone`: the new handle points at the same value.
#[verifier::external_body]
fn share<T>(a: &Arc<T>) -> (r: Arc<T>)
    ensures
        r == *a,
{
    Arc::clone(a)
}

/// Converted data on its way to a sink, with the entity path it is logged under.
#[derive(Debug)]
pub struct LogComponents {
    pub entity_path: Arc<String>,
    /// Read-only and shared by every sink that receives it.
    pub packet: Arc<LogPacket>,
}

/// What travels through a sink's channel.
#[derive(Debug)]
pub enum LogData {
    Archetype(LogComponents),
    ArchetypeArray(Vec<LogComponents>),
    AnyComponents(LogComponents),
    AnyComponentsArray(Vec<LogComponents>),
}

/// The single units that a sink sends for `d`, batches taken apart in order.
pub open spec fn units_of(d: LogData) -> Seq<LogComponents> {
    match d {
        LogData::Archetype(c) => seq![c],
        LogData::ArchetypeArray(v) => v@,
        LogData::AnyComponents(c) => seq![c],
        LogData::AnyComponentsArray(v) => v@,
    }
}

/// Takes a batch apart into the single units that a sink sends.
pub fn flatten(d: LogData) -> (r: Vec<LogComponents>)
    ensures
        r@ == units_of(d),
{
    match d {
        LogData::Archetype(c) => {
            let mut v = Vec::new();
            v.push(c);
            assert(v@ =~= seq![c]);
            v
        },
        LogData::ArchetypeArray(v) => v,
        LogData::AnyComponents(c) => {
            let mut v = Vec::new();
            v.push(c);
            assert(v@ =~= seq![c]);
            v
        },
        LogData::AnyComponentsArray(v) => v,
    }
}

/// The sending halves of the channels of every sink that one source feeds.
pub struct ArchetypeSender {
    pub tx: Vec<UnboundedSender<LogData>>,
}

/// The unit that one sink's channel is handed for a packet of the topic `entity_path`.
pub fn unit_for(entity_path: &Arc<String>, packet: &Arc<LogPacket>) -> (d: LogData)
    ensures
        d == LogData::Archetype(LogComponents { entity_path: *entity_path, packet: *packet }),
{
    LogData::Archetype(LogComponents { entity_path: share(entity_path), packet: share(packet) })
}

impl ArchetypeSender {
    /// Sends one packet to every sink the source feeds.
    ///
    /// Channel `i`, in order, is handed its own `unit_for(entity_path, packet)`:
    /// every unit shares the one packet. A channel whose receiver is gone hands
    /// its unit back (`Err`), and the channels after it are still served; the
    /// result holds one outcome per channel.
    pub fn fan_out(&self, entity_path: &Arc<String>, packet: &Arc<LogPacket>) -> (outcomes: Vec<Result<(), LogData>>)
        ensures
            outcomes@.len() == self.tx@.len(),
            forall|i: int| 0 <= i < outcomes@.len() && #[trigger] outcomes@[i] is Err ==> outcomes@[i]->Err_0
                == LogData::Archetype(LogComponents { entity_path: *entity_path, packet: *packet }),
    {
        let mut outcomes: Vec<Result<(), LogData>> = Vec::new();
        let mut i: usize = 0;
        while i < self.tx.len()
            invariant
                0 <= i <= self.tx@.len(),
                outcomes@.len() == i,
                forall|k: int| 0 <= k < outcomes@.len() && #[trigger] outcomes@[k] is Err ==> outcomes@[k]->Err_0
                    == LogData::Archetype(LogComponents { entity_path: *entity_path, packet: *packet }),
            decreases self.tx@.len() - i,
        {
            let unit = unit_for(entity_path, packet);
            let outcome = send_unbounded(&self.tx[i], unit);
            outcomes.push(outcome);
            i = i + 1;
        }
        outcomes
    }
}

/// Handles one inbound message of a source: converts it once and sends the
/// resulting packet to every sink the source feeds.
///
/// A message that does not convert is dropped and its error returned; nothing
/// is sent for it. Otherwise the result holds the converted packet and one
/// delivery outcome per sink, as `ArchetypeSender::fan_out` gives them.
pub fn deliver(converter: &Converter, entity_path: &Arc<String>, msg: &MessageView, sender: &ArchetypeSender) -> (r: Result<(Arc<LogPacket>, Vec<Result<(), LogData>>), ConverterError>)
    ensures
        r is Ok <==> converts(*converter, *msg),
        r is Ok ==> ({
            let (packet, outcomes) = r->Ok_0;
            &&& converted_to(*converter, *msg, *packet)
            &&& outcomes@.len() == sender.tx@.len()
            &&& forall|i: int| 0 <= i < outcomes@.len() && #[trigger] outcomes@[i] is Err ==> outcomes@[i]->Err_0
                == LogData::Archetype(LogComponents { entity_path: *entity_path, packet })
        }),
{
    match converter.convert_view(msg) {
        Ok(packet) => {
            let shared = Arc::new(packet);
            let outcomes = sender.fan_out(entity_path, &shared);
            Ok((shared, outcomes))
        },
        Err(e) => Err(e),
    }
}

fn copy_settings(s: &ConverterSettings) -> (r: ConverterSettings)
    ensures
        r.entries@ == s.entries@,
{
    let mut out: Vec<(String, SettingValue)> = Vec::new();
    let mut i: usize = 0;
    while i < s.entries.len()
        invariant
            0 <= i <= s.entries@.len(),
            out@ == s.entries@.take(i as int),
        decreases s.entries@.len() - i,
    {
        out.push((s.entries[i].0.clone(), s.entries[i].1.duplicate()));
        i = i + 1;
        assert(out@ =~= s.entries@.take(i as int));
    }
    assert(s.entries@.take(i as int) =~= s.entries@);
    ConverterSettings { entries: out }
}

/// Builds the converter of a topic source: the declared archetype, the
/// message type as the schema catalog validated it, and the source's settings.
pub fn source_converter(registry: &ConverterRegistry, source: &TopicSource, ros_type: Option<ROSTypeName>) -> (r: Result<Converter, ConverterError>)
    ensures
        match built(
            registry@,
            owned_type_view(ros_type),
            Some(TargetView::RerunArchetype(source.archetype@)),
            Some(ConverterSettings { entries: source.converter.entries }),
        ) {
            Some(c) => r == Ok::<Converter, ConverterError>(c),
            None => r is Err,
        },
{
    let settings = copy_settings(&source.converter);
    let mut b = ConverterBuilder::new_with_registry(registry).topic(source.topic.as_str());
    match ros_type {
        Some(t) => {
            b = b.ros_type(t);
        },
        None => {},
    }
    let b = b.rerun_name(RerunName::RerunArchetype(source.archetype.clone())).config(settings);
    proof {
        assert(b.config == Some(settings));
    }
    b.build()
}

/// The sinks (indexes into the edge list) whose inputs include `source`, in order.
pub open spec fn is_target_list(edges: Seq<(ComponentView, Seq<ComponentView>)>, source: ComponentView, r: Seq<usize>) -> bool {
    &&& forall|k: int| 0 <= k < r.len() ==> #[trigger] r[k] < edges.len()
    &&& forall|k: int, m: int| 0 <= k < m < r.len() ==> #[trigger] r[k] < #[trigger] r[m]
    &&& forall|j: int| 0 <= j < edges.len() ==> (#[trigger] edges[j].1.contains(source) <==> r.contains(j as usize))
}

impl TopologyConfig {
    /// The sinks that the topic source `name` feeds, as indexes into `edges()`.
    pub fn fan_out_targets(&self, name: &String) -> (r: Vec<usize>)
        ensures
            is_target_list(self@.edges, ComponentView::TopicSubscriber(name@), r@),
    {
        let edges = self.edges();
        let ghost es = self@.edges;
        let ghost src = ComponentView::TopicSubscriber(name@);
        let id = crate::topology::ComponentID::TopicSubscriber(name.clone());
        let mut out: Vec<usize> = Vec::new();
        let mut j: usize = 0;
        while j < edges.len()
            invariant
                0 <= j <= es.len(),
                es.len() == edges@.len(),
                es == edges@.map_values(|e: (crate::topology::ComponentID, Vec<crate::topology::ComponentID>)| (e.0@, crate::topology::ids_view(e.1@))),
                id@ == src,
                forall|k: int| 0 <= k < out@.len() ==> #[trigger] out@[k] < j,
                forall|k: int, m: int| 0 <= k < m < out@.len() ==> #[trigger] out@[k] < #[trigger] out@[m],
                forall|q: int| 0 <= q < j ==> (#[trigger] es[q].1.contains(src) <==> out@.contains(q as usize)),
            decreases es.len() - j,
        {
            let sources = &edges[j].1;
            let mut found = false;
            let mut k: usize = 0;
            while k < sources.len()
                invariant
                    0 <= k <= sources@.len(),
                    0 <= j < es.len(),
                    es[j as int].1 == crate::topology::ids_view(sources@),
                    id@ == src,
                    found <==> exists|m: int| 0 <= m < k && #[trigger] es[j as int].1[m] == src,
                decreases sources@.len() - k,
            {
                proof {
                    assert(es[j as int].1[k as int] == sources@[k as int]@);
                }
                if sources[k].same_as(&id) {
                    found = true;
                }
                k = k + 1;
            }
            let ghost before = out@;
            if found {
                out.push(j);
            }
            proof {
                assert forall|q: int| 0 <= q < j + 1 implies (#[trigger] es[q].1.contains(src) <==> out@.contains(q as usize)) by {
                    if q < j {
                        if before.contains(q as usize) {
                            let w = choose|w: int| 0 <= w < before.len() && before[w] == q as usize;
                            assert(out@[w] == q as usize);
                        }
                        if out@.contains(q as usize) {
                            let w = choose|w: int| 0 <= w < out@.len() && out@[w] == q as usize;
                            if w < before.len() {
                                assert(before[w] == q as usize);
                            }
                        }
                    } else {
                        if found {
                            assert(out@[out@.len() - 1] == j);
                        } else {
                            if out@.contains(q as usize) {
                                let w = choose|w: int| 0 <= w < out@.len() && out@[w] == q as usize;
                                assert(before[w] < j);
                            }
                        }
                    }
                }
            }
            j = j + 1;
        }
        out
    }

    /// For each topic source, in order of name, the sinks it feeds.
    pub fn subscription_plan(&self) -> (r: Vec<Vec<usize>>)
        ensures
            r@.len() == self@.topics.len(),
            forall|i: int| 0 <= i < r@.len() ==> is_target_list(
                self@.edges,
                ComponentView::TopicSubscriber(self@.topics[i].0@),
                #[trigger] r@[i]@,
            ),
    {
        let topics = self.topic_subscriptions();
        let mut out: Vec<Vec<usize>> = Vec::new();
        let mut i: usize = 0;
        while i < topics.len()
            invariant
                0 <= i <= topics@.len(),
                topics@ == self@.topics,
                out@.len() == i,
                forall|m: int| 0 <= m < i ==> is_target_list(
                    self@.edges,
                    ComponentView::TopicSubscriber(self@.topics[m].0@),
                    #[trigger] out@[m]@,
                ),
            decreases topics@.len() - i,
        {
            out.push(self.fan_out_targets(&topics[i].0));
            i = i + 1;
        }
        out
    }
}

/// Fan-out reaches every sink that lists a source exactly once: each such
/// sink appears once among the source's targets, and no other sink does.
pub proof fn lemma_fan_out_once(edges: Seq<(ComponentView, Seq<ComponentView>)>, source: ComponentView, targets: Seq<usize>, j: usize)
    requires
        is_target_list(edges, source, targets),
        j < edges.len(),
    ensures
        edges[j as int].1.contains(source) ==> exists|k: int| 0 <= k < targets.len() && targets[k] == j
            && forall|m: int| 0 <= m < targets.len() && #[trigger] targets[m] == j ==> m == k,
        !edges[j as int].1.contains(source) ==> forall|m: int| 0 <= m < targets.len() ==> #[trigger] targets[m] != j,
{
    if edges[j as int].1.contains(source) {
        assert(targets.contains(j));
        let k = choose|k: int| 0 <= k < targets.len() && targets[k] == j;
        assert forall|m: int| 0 <= m < targets.len() && #[trigger] targets[m] == j implies m == k by {
            if m < k {
                assert(targets[m] < targets[k]);
            } else if k < m {
                assert(targets[k] < targets[m]);
            }
        }
        assert(0 <= k < targets.len() && targets[k] == j
            && forall|m: int| 0 <= m < targets.len() && #[trigger] targets[m] == j ==> m == k);
    } else {
        assert forall|m: int| 0 <= m < targets.len() implies #[trigger] targets[m] != j by {
            if targets[m] == j {
                assert(targets.contains(j));
            }
        }
    }
}

/// Where a sink worker is in its life: forward only, never restarted.
#[derive(Debug, Clone, Copy, PartialEq, Eq, Structural)]
pub enum SinkState {
    Starting,
    Running,
    ShuttingDown,
    Stopped,
}

/// What a sink worker observed.
#[derive(Debug)]
pub enum SinkEvent {
    /// The worker is connected and may take packets.
    Started,
    /// A packet arrived on the inbound channel.
    Packet(LogData),
    /// The shared shutdown signal fired.
    Shutdown,
    /// Buffered data was handed to the backend.
    Flushed,
}

/// What a sink worker must do next.
#[derive(Debug)]
pub enum SinkAction {
    /// Nothing; wait for the next event.
    Wait,
    /// Log each unit with the backend, in order.
    Send(Vec<LogComponents>),
    /// Flush buffered data to the backend.
    Flush,
    /// Release the connection and end the run loop.
    Exit,
}

pub open spec fn next_state(s: SinkState, e: SinkEvent) -> SinkState {
    match (s, e) {
        (SinkState::Starting, SinkEvent::Started) => SinkState::Running,
        (SinkState::Starting, SinkEvent::Shutdown) => SinkState::ShuttingDown,
        (SinkState::Running, SinkEvent::Shutdown) => SinkState::ShuttingDown,
        (SinkState::ShuttingDown, SinkEvent::Flushed) => SinkState::Stopped,
        _ => s,
    }
}

/// The units sent in state `s` on event `e`: those of a packet that arrives while running.
pub open spec fn sent(s: SinkState, e: SinkEvent) -> Option<Seq<LogComponents>> {
    match (s, e) {
        (SinkState::Running, SinkEvent::Packet(d)) => Some(units_of(d)),
        _ => None,
    }
}

/// Whether the worker flushes: when the shutdown signal reaches a live worker.
pub open spec fn flushes(s: SinkState, e: SinkEvent) -> bool {
    (s is Starting || s is Running) && e is Shutdown
}

/// Whether the worker ends its run loop: once flushed, and on every event after.
pub open spec fn exits(s: SinkState, e: SinkEvent) -> bool {
    (s is ShuttingDown && e is Flushed) || s is Stopped
}

/// The transition of a sink worker on one event.
pub fn step(state: SinkState, event: SinkEvent) -> (r: (SinkState, SinkAction))
    ensures
        r.0 == next_state(state, event),
        match r.1 {
            SinkAction::Send(v) => sent(state, event) == Some(v@),
            SinkAction::Flush => flushes(state, event) && sent(state, event) is None,
            SinkAction::Exit => exits(state, event) && sent(state, event) is None,
            SinkAction::Wait => sent(state, event) is None && !flushes(state, event) && !exits(state, event),
        },
{
    match state {
        SinkState::Starting => match event {
            SinkEvent::Started => (SinkState::Running, SinkAction::Wait),
            SinkEvent::Shutdown => (SinkState::ShuttingDown, SinkAction::Flush),
            _ => (SinkState::Starting, SinkAction::Wait),
        },
        SinkState::Running => match event {
            SinkEvent::Packet(d) => (SinkState::Running, SinkAction::Send(flatten(d))),
            SinkEvent::Shutdown => (SinkState::ShuttingDown, SinkAction::Flush),
            _ => (SinkState::Running, SinkAction::Wait),
        },
        SinkState::ShuttingDown => match event {
            SinkEvent::Flushed => (SinkState::Stopped, SinkAction::Exit),
            _ => (SinkState::ShuttingDown, SinkAction::Wait),
        },
        SinkState::Stopped => (SinkState::Stopped, SinkAction::Exit),
    }
}

/// Once the shutdown signal has reached a worker, it sends nothing more and
/// never runs again, whatever arrives; packets that arrived before, while it
/// was running, were sent.
pub proof fn lemma_no_delivery_after_shutdown(s: SinkState, e: SinkEvent, later: SinkEvent)
    requires
        s is Starting || s is Running,
    ensures
        next_state(s, SinkEvent::Shutdown) is ShuttingDown,
        flushes(s, SinkEvent::Shutdown),
        sent(next_state(s, SinkEvent::Shutdown), later) is None,
        next_state(next_state(s, SinkEvent::Shutdown), later) is ShuttingDown
            || next_state(next_state(s, SinkEvent::Shutdown), later) is Stopped,
        s is Running ==> match e {
            SinkEvent::Packet(d) => sent(s, e) == Some(units_of(d)),
            _ => true,
        },
{
}

/// A stopped or stopping worker stays so and sends nothing, on every event.
pub proof fn lemma_stopping_is_final(s: SinkState, e: SinkEvent)
    requires
        s is ShuttingDown || s is Stopped,
    ensures
        sent(s, e) is None,
        next_state(s, e) is ShuttingDown || next_state(s, e) is Stopped,
{
}

/// The components of a topology in the order they are started: the topic
/// sources, then the sinks in edge order.
pub open spec fn startup_order(t: crate::topology::TopologyView) -> Seq<ComponentView> {
    t.topics.map_values(|p: (String, TopicSource)| ComponentView::TopicSubscriber(p.0@))
        + t.edges.map_values(|e: (ComponentView, Seq<ComponentView>)| e.0)
}

/// The index of the first component that did not start: the first `false`,
/// or the number of outcomes when every recorded one is `true`.
pub open spec fn first_unstarted(s: Seq<bool>) -> nat
    decreases s.len(),
{
    if s.len() == 0 {
        0
    } else if first_unstarted(s.drop_last()) < s.len() - 1 {
        first_unstarted(s.drop_last())
    } else if s.last() {
        s.len()
    } else {
        (s.len() - 1) as nat
    }
}

proof fn lemma_first_unstarted_prefix(s: Seq<bool>, n: int)
    requires
        0 <= n <= s.len(),
        first_unstarted(s.take(n)) < n,
    ensures
        first_unstarted(s) == first_unstarted(s.take(n)),
    decreases s.len() - n,
{
    if n < s.len() {
        assert(s.take(n + 1).drop_last() =~= s.take(n));
        lemma_first_unstarted_prefix(s, n + 1);
    } else {
        assert(s.take(n) =~= s);
    }
}

proof fn lemma_ids_push(s: Seq<ComponentID>, x: ComponentID)
    ensures
        crate::topology::ids_view(s.push(x)) == crate::topology::ids_view(s).push(x@),
{
    assert(crate::topology::ids_view(s.push(x)) =~= crate::topology::ids_view(s).push(x@));
}

impl TopologyConfig {
    /// The components in the order they are started: the topic sources, then
    /// the sinks in edge order.
    pub fn startup_order(&self) -> (r: Vec<ComponentID>)
        ensures
            crate::topology::ids_view(r@) == startup_order(self@),
    {
        let ghost target = startup_order(self@);
        let topics = self.topic_subscriptions();
        let edges = self.edges();
        let mut out: Vec<ComponentID> = Vec::new();
        let mut i: usize = 0;
        while i < topics.len()
            invariant
                0 <= i <= topics@.len(),
                topics@ == self@.topics,
                target == startup_order(self@),
                crate::topology::ids_view(out@) =~= target.take(i as int),
            decreases topics@.len() - i,
        {
            let id = crate::topology::ComponentID::TopicSubscriber(topics[i].0.clone());
            proof {
                lemma_ids_push(out@, id);
                assert(target[i as int] == id@);
                assert(target.take(i + 1) =~= target.take(i as int).push(id@));
            }
            out.push(id);
            i = i + 1;
        }
        let mut j: usize = 0;
        while j < edges.len()
            invariant
                0 <= j <= edges@.len(),
                topics@ == self@.topics,
                edges@.map_values(|e: (crate::topology::ComponentID, Vec<crate::topology::ComponentID>)| (e.0@, crate::topology::ids_view(e.1@))) == self@.edges,
                target == startup_order(self@),
                crate::topology::ids_view(out@) =~= target.take((topics@.len() + j) as int),
            decreases edges@.len() - j,
        {
            let id = edges[j].0.duplicate();
            proof {
                assert(self@.edges[j as int].0 == edges@[j as int].0@);
                lemma_ids_push(out@, id);
                assert(target[topics@.len() + j] == id@);
                assert(target.take(topics@.len() + j + 1) =~= target.take((topics@.len() + j) as int).push(id@));
            }
            out.push(id);
            j = j + 1;
        }
        assert(target.take((topics@.len() + edges@.len()) as int) =~= target);
        out
    }
}

/// Whether applying a topology succeeded, given whether each component
/// started, in startup order. Starting stops at the first failure, so a
/// component without an outcome counts as not started.
///
/// Applying is all or nothing: it succeeds only when every component started,
/// and otherwise reports the first component that did not.
pub fn apply_outcome(order: &Vec<ComponentID>, started: &Vec<bool>) -> (r: Result<(), TopologyConfigError>)
    requires
        started@.len() <= order@.len(),
    ensures
        first_unstarted(started@) >= order@.len() ==> r is Ok,
        first_unstarted(started@) < order@.len() ==> r is Err && r->Err_0 is InitializationError
            && r->Err_0->InitializationError_0 == order@[first_unstarted(started@) as int],
        r is Ok <==> (started@.len() == order@.len() && forall|i: int| 0 <= i < started@.len() ==> started@[i]),
{
    let ghost s = started@;
    let mut i: usize = 0;
    assert(s.take(0) =~= Seq::<bool>::empty());
    while i < started.len()
        invariant
            0 <= i <= s.len(),
            s == started@,
            s.len() <= order@.len(),
            first_unstarted(s.take(i as int)) == i,
            forall|m: int| 0 <= m < i ==> s[m],
        decreases s.len() - i,
    {
        assert(s.take(i + 1).drop_last() =~= s.take(i as int));
        if !started[i] {
            proof {
                lemma_first_unstarted_prefix(s, i + 1);
            }
            return Err(TopologyConfigError::InitializationError(order[i].duplicate()));
        }
        i = i + 1;
    }
    assert(s.take(s.len() as int) =~= s);
    if started.len() < order.len() {
        Err(TopologyConfigError::InitializationError(order[started.len()].duplicate()))
    } else {
        Ok(())
    }
}

} // verus!
