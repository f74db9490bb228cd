//! The relay core: the one shared resource and the decisions taken on it.
//!
//! The core owns the rule table together with a mirror of the broker
//! subscriptions that must correspond to it; the pair is one logical
//! resource, and the well-formedness predicate `wf` states the
//! correspondence. The surrounding process runs two concurrent paths over
//! this resource behind one mutual-exclusion guard — a dispatch loop polling
//! the broker, and a reload supervisor driven by change notifications — and
//! performs all I/O; the decisions those paths take (what to publish, what to
//! subscribe, when to back off, when to give a contested reload up) are
//! functions in this module, verified over the events handed in.

use vstd::prelude::*;

use crate::evaluate::Evaluator;
use crate::mappings::load::{spec_load, DirScan, ScanEntry};
use crate::mappings::mapping::{
    spec_consistent_verdicts, spec_selected, MappingMessage, MappingModel, MessageModel,
};
use crate::mappings::{spec_table_get, MappingConfig};

pub mod reload;

verus! {

/// How long the dispatch loop sleeps after a transport error before polling
/// again, so that a broken connection is not busy-looped on.
pub const TRANSPORT_BACKOFF_MILLIS: u64 = 5000;

/// One event surfaced by the broker's incoming stream.
pub enum RelayEvent {
    /// A publish arrived on a subscribed topic.
    IncomingPublish { topic: String, payload: Vec<u8> },
    /// Any other incoming packet: noted and dropped.
    OtherIncoming,
    /// Outgoing activity echoed by the event loop: ignored.
    OutgoingActivity,
    /// A transport or protocol error: back off, never terminate.
    TransportError,
}

/// One outgoing publish: at the lowest delivery-assurance tier, not retained.
pub struct PublishCommand {
    pub topic: String,
    pub payload: String,
}

/// One subscription change to bring the broker in line with the table.
pub enum BrokerAction {
    /// Drop every subscription (the broker's all-topics wildcard).
    UnsubscribeAll,
    /// Subscribe to one topic at the lowest delivery-assurance tier.
    Subscribe { topic: String },
}

/// What the dispatch loop is to do with one event.
pub enum EventOutcome {
    /// Nothing: the event carries no work.
    Ignored,
    /// No rule is subscribed under the topic: log and drop.
    NoMapping,
    /// Publish these, in order, best-effort.
    Publishes(Vec<PublishCommand>),
    /// Sleep this long, then resume polling.
    Backoff { millis: u64 },
}

/// The target topic and payload of each template, in order.
pub open spec fn spec_publishes_of(msgs: Seq<MessageModel>) -> Seq<(Seq<char>, Seq<char>)> {
    msgs.map_values(|m: MessageModel| (m.topic, m.message))
}

/// What dispatching one incoming publish must yield: `NoMapping` exactly when
/// the table holds no rule under the topic, and otherwise the publishes of
/// the templates selected under some verdicts the evaluator may have given.
/// What dispatching to one rule must yield: the publishes of the templates
/// selected under some verdicts the evaluator may have given.
pub open spec fn spec_publishes_ok<E: Evaluator>(
    m: MappingModel,
    payload: Seq<u8>,
    eval: E,
    r: EventOutcome,
) -> bool {
    &&& r matches EventOutcome::Publishes(cmds)
    &&& exists|vs: Seq<bool>|
        {
            &&& #[trigger] spec_consistent_verdicts(m, payload, eval, vs)
            &&& cmds@.map_values(|c: PublishCommand| (c.topic@, c.payload@))
                == spec_publishes_of(spec_selected(m.conditions, m.messages, vs))
        }
}

pub open spec fn spec_dispatch_ok<E: Evaluator>(
    table: Seq<(Seq<char>, MappingModel)>,
    topic: Seq<char>,
    payload: Seq<u8>,
    eval: E,
    r: EventOutcome,
) -> bool {
    match spec_table_get(table, topic) {
        None => r == EventOutcome::NoMapping,
        Some(m) => spec_publishes_ok(m, payload, eval, r),
    }
}

/// The relay core's half of the shared resource: the rule table in force and
/// the subscriptions that correspond to it.
pub struct Relay {
    /// The rule table in force.
    pub mappings: MappingConfig,
    subscribed: Vec<String>,
}

impl Relay {
    /// The table in force, as contracts see it.
    pub closed spec fn spec_table(&self) -> Seq<(Seq<char>, MappingModel)> {
        self.mappings@
    }

    /// The topics subscribed to, as contracts see them.
    pub closed spec fn spec_subscribed(&self) -> Seq<Seq<char>> {
        self.subscribed@.map_values(|s: String| s@)
    }

    /// The root of the mapping directory tree.
    pub closed spec fn spec_path(&self) -> Seq<char> {
        self.mappings.spec_path()
    }

    /// The resource invariant: the subscriptions correspond exactly to the
    /// table in effect.
    pub open spec fn wf(&self) -> bool {
        self.spec_subscribed() == self.spec_table().map_values(
            |p: (Seq<char>, MappingModel)| p.0,
        )
    }

    /// A relay over the given table, subscribed to exactly its topics.
    pub fn new(mappings: MappingConfig) -> (r: Self)
        ensures
            r.wf(),
            r.spec_table() == mappings@,
            r.spec_path() == mappings.spec_path(),
    {
        let subscribed = mappings.get_topics();
        Relay { mappings, subscribed }
    }

    /// Reloads the table from a fresh scan and yields the subscription
    /// changes that bring the broker in line with it: one unsubscribe-all,
    /// then one subscribe per topic of the new table, in table order.
    /// Returns the actions and how many scanned entries were skipped.
    pub fn apply_reload(&mut self, scan: DirScan) -> (r: (Vec<BrokerAction>, usize))
        ensures
            final(self).wf(),
            final(self).spec_path() == old(self).spec_path(),
            match scan {
                DirScan::Missing => final(self).spec_table() == Seq::<
                    (Seq<char>, MappingModel),
                >::empty() && r.1 == 0,
                DirScan::Found(entries) => {
                    let lm = spec_load(entries@.map_values(|e: ScanEntry| e@));
                    final(self).spec_table() == lm.table && r.1 as nat == lm.skipped
                },
            },
            r.0@.len() == final(self).spec_table().len() + 1,
            r.0@[0] == BrokerAction::UnsubscribeAll,
            forall|i: int| 0 <= i < final(self).spec_table().len()
                ==> ((#[trigger] r.0@[i + 1]) matches BrokerAction::Subscribe { topic }
                    && topic@ == final(self).spec_table()[i].0),
    {
        let skipped = self.mappings.reload(scan);
        let topics = self.mappings.get_topics();
        let ghost keys = self.mappings@.map_values(|p: (Seq<char>, MappingModel)| p.0);
        let mut actions: Vec<BrokerAction> = Vec::new();
        actions.push(BrokerAction::UnsubscribeAll);
        let mut i: usize = 0;
        while i < topics.len()
            invariant
                topics@.map_values(|s: String| s@) == keys,
                topics@.len() == keys.len(),
                i <= topics@.len(),
                actions@.len() == i + 1,
                actions@[0] == BrokerAction::UnsubscribeAll,
                forall|j: int| 0 <= j < i
                    ==> ((#[trigger] actions@[j + 1]) matches BrokerAction::Subscribe { topic }
                        && topic@ == keys[j]),
            decreases topics@.len() - i,
        {
            proof {
                assert(topics@.map_values(|s: String| s@)[i as int] == keys[i as int]);
            }
            actions.push(BrokerAction::Subscribe { topic: topics[i].clone() });
            i = i + 1;
        }
        self.subscribed = topics;
        (actions, skipped)
    }

    /// What the dispatch loop is to do with one broker event: publishes for
    /// an incoming publish whose topic has a rule, a note for one without,
    /// nothing for other packets, and a bounded backoff for a transport
    /// error — the loop itself never terminates on one.
    pub fn handle_event<E: Evaluator>(&self, event: &RelayEvent, eval: &E) -> (r: EventOutcome)
        ensures
            match *event {
                RelayEvent::IncomingPublish { ref topic, ref payload } => spec_dispatch_ok(
                    self.spec_table(),
                    topic@,
                    payload@,
                    *eval,
                    r,
                ),
                RelayEvent::OtherIncoming => r == EventOutcome::Ignored,
                RelayEvent::OutgoingActivity => r == EventOutcome::Ignored,
                RelayEvent::TransportError => r == (EventOutcome::Backoff {
                    millis: TRANSPORT_BACKOFF_MILLIS,
                }),
            },
    {
        match event {
            RelayEvent::IncomingPublish { topic, payload } => {
                match self.mappings.get_mapping(topic) {
                    None => EventOutcome::NoMapping,
                    Some(m) => {
                        let selected = m.matching_messages(payload.as_slice(), eval);
                        let ghost vs = choose|vs: Seq<bool>|
                            {
                                &&& #[trigger] spec_consistent_verdicts(m@, payload@, *eval, vs)
                                &&& selected@.map_values(|mm: MappingMessage| mm@)
                                    == spec_selected(m@.conditions, m@.messages, vs)
                            };
                        let mut cmds: Vec<PublishCommand> = Vec::new();
                        let mut i: usize = 0;
                        while i < selected.len()
                            invariant
                                i <= selected@.len(),
                                cmds@.len() == i,
                                forall|j: int| 0 <= j < i
                                    ==> (#[trigger] cmds@[j]).topic@ == selected@[j]@.topic
                                        && cmds@[j].payload@ == selected@[j]@.message,
                            decreases selected@.len() - i,
                        {
                            let msg = &selected[i];
                            cmds.push(
                                PublishCommand {
                                    topic: msg.topic.clone(),
                                    payload: msg.message.clone(),
                                },
                            );
                            i = i + 1;
                        }
                        proof {
                            assert(spec_consistent_verdicts(m@, payload@, *eval, vs));
                            assert(selected@.map_values(|mm: MappingMessage| mm@) == spec_selected(
                                m@.conditions,
                                m@.messages,
                                vs,
                            ));
                            let sel = spec_selected(m@.conditions, m@.messages, vs);
                            assert(cmds@.map_values(|c: PublishCommand| (c.topic@, c.payload@))
                                =~= spec_publishes_of(sel));
                            assert(spec_table_get(self.spec_table(), topic@) == Some(m@));
                            assert(spec_publishes_ok(
                                m@,
                                payload@,
                                *eval,
                                EventOutcome::Publishes(cmds),
                            ));
                            assert(spec_dispatch_ok(
                                self.spec_table(),
                                topic@,
                                payload@,
                                *eval,
                                EventOutcome::Publishes(cmds),
                            ));
                        }
                        EventOutcome::Publishes(cmds)
                    },
                }
            },
            RelayEvent::OtherIncoming => EventOutcome::Ignored,
            RelayEvent::OutgoingActivity => EventOutcome::Ignored,
            RelayEvent::TransportError => EventOutcome::Backoff {
                millis: TRANSPORT_BACKOFF_MILLIS,
            },
        }
    }
}

} // verus!
