//! The dataflow graph: a closed set of tagged stages wired by bounded
//! channels, and the cooperative scheduler that polls them round-robin
//! until every stage has stopped or a round budget runs out.
//!
//! Stages never share state except through the channels; every step of a
//! stage is a total function of its own state and its channels' state, so
//! the whole pipeline is verified: what comes out of the persistence
//! stage is exactly one decision per enumerated record, in order, and the
//! scheduler's join is shown to reach the all-stopped state within a
//! round budget that is linear in the work.

use vstd::prelude::*;
use crate::channel::{Channel, SendOutcome};
use crate::decode::{Decision, spec_classify};
use crate::metadata::MetadataFields;

verus! {

/// One enumerated filesystem entry together with its assigned key.
pub struct Record {
    pub id: u64,
    pub meta: MetadataFields,
}

/// The outcome of triaging one record: its key, its path, and the
/// decision; produced exactly once per record that reaches the inference
/// stage.
#[derive(Debug, Clone)]
pub struct DecisionRecord {
    pub id: u64,
    pub path: String,
    pub decision: Decision,
}

/// The decision carried by the model output for the `k`-th record: the
/// early-exit rule applied to that output, the conservative fallback when
/// nothing is recognizable or no output exists (inference bypassed).
pub open spec fn spec_decision_for(script: Seq<Seq<u8>>, k: int) -> Decision {
    if 0 <= k < script.len() {
        match spec_classify(script[k]) {
            Some(d) => d,
            None => Decision::FallbackKeep,
        }
    } else {
        Decision::FallbackKeep
    }
}

/// The decision record produced for record `r` as the `k`-th processed.
pub open spec fn spec_decision_record(r: Record, script: Seq<Seq<u8>>, k: int) -> DecisionRecord {
    DecisionRecord { id: r.id, path: r.meta.full_path, decision: spec_decision_for(script, k) }
}

/// First index in `store` holding `id`, if any.
pub open spec fn find_id(store: Seq<DecisionRecord>, id: u64) -> Option<int>
    decreases store.len(),
{
    if store.len() == 0 {
        None
    } else if store[0].id == id {
        Some(0)
    } else {
        match find_id(store.drop_first(), id) {
            Some(j) => Some(j + 1),
            None => None,
        }
    }
}

/// One upsert into the store: overwrite the first entry with the same
/// key, or append when the key is new.
pub open spec fn upsert_one(store: Seq<DecisionRecord>, d: DecisionRecord) -> Seq<DecisionRecord> {
    match find_id(store, d.id) {
        Some(j) => store.update(j, d),
        None => store.push(d),
    }
}

/// The store contents after upserting a sequence of decisions in order.
pub open spec fn spec_store(taken: Seq<DecisionRecord>) -> Seq<DecisionRecord>
    decreases taken.len(),
{
    if taken.len() == 0 {
        Seq::empty()
    } else {
        upsert_one(spec_store(taken.drop_last()), taken.last())
    }
}

/// A stage that owns a finite batch of items and feeds them into its
/// output channel in order, then closes the channel and stops. The record
/// enumeration and the log-message source are both of this shape.
pub struct SourceStage<T> {
    pending: Vec<T>,
    running: bool,
}

impl<T> View for SourceStage<T> {
    type V = Seq<T>;

    /// The items not yet sent, oldest first.
    closed spec fn view(&self) -> Seq<T> {
        self.pending@
    }
}

impl<T> SourceStage<T> {
    pub closed spec fn running_spec(&self) -> bool {
        self.running
    }

    /// A source holding `items`, ready to run.
    pub fn new(items: Vec<T>) -> (s: SourceStage<T>)
        ensures
            s@ == items@,
            s.running_spec(),
    {
        SourceStage { pending: items, running: true }
    }

    pub fn is_running(&self) -> (r: bool)
        ensures
            r == self.running_spec(),
    {
        self.running
    }

    /// One scheduler poll: send the next item if the output has vacancy;
    /// with nothing left to send, close the output (writer-closed, so the
    /// consumer can reach its own termination predicate) and stop.
    pub fn step(&mut self, out: &mut Channel<T>)
        requires
            old(out).wf(),
            old(self).running_spec() ==> !old(out).is_closed_spec(),
        ensures
            final(out).wf(),
            final(out).capacity_spec() == old(out).capacity_spec(),
            final(out).taken_log() == old(out).taken_log(),
            !old(self).running_spec() ==> *final(self) == *old(self) && *final(out) == *old(out),
            old(self).running_spec() && old(self)@.len() == 0 ==> {
                &&& !final(self).running_spec()
                &&& final(self)@ == old(self)@
                &&& final(out).is_closed_spec()
                &&& final(out)@ == old(out)@
                &&& final(out).sent_log() == old(out).sent_log()
            },
            old(self).running_spec() && old(self)@.len() > 0 && old(out)@.len() < old(
                out,
            ).capacity_spec() ==> {
                &&& final(self).running_spec()
                &&& final(self)@ == old(self)@.drop_first()
                &&& final(out).sent_log() == old(out).sent_log().push(old(self)@[0])
                &&& final(out)@ == old(out)@.push(old(self)@[0])
                &&& final(out).is_closed_spec() == old(out).is_closed_spec()
            },
            old(self).running_spec() && old(self)@.len() > 0 && old(out)@.len() == old(
                out,
            ).capacity_spec() ==> *final(self) == *old(self) && *final(out) == *old(out),
    {
        if !self.running {
            return;
        }
        if self.pending.len() == 0 {
            out.mark_closed();
            self.running = false;
            return;
        }
        if out.fill() < out.capacity() {
            let item = self.pending.remove(0);
            match out.try_send(item) {
                SendOutcome::Success => {},
                SendOutcome::Blocked(_) => {
                    proof {
                        assert(false);
                    }
                },
                SendOutcome::Closed(_) => {
                    proof {
                        assert(false);
                    }
                },
            }
        }
    }
}

/// The inference stage: takes each record from its input, triages it
/// against the model output for that record's position, and sends the
/// decision downstream. Take and send happen together under a conjunctive
/// readiness condition — a record is only taken when the output has room, so
/// the stage never stops while holding unflushed output.
pub struct InferenceStage {
    script: Vec<Vec<u8>>,
    processed: usize,
    running: bool,
}

impl InferenceStage {
    /// The model outputs, one per record position; an empty script means
    /// inference is bypassed and every record falls back conservatively.
    pub closed spec fn script_spec(&self) -> Seq<Seq<u8>> {
        self.script@.map_values(|v: Vec<u8>| v@)
    }

    pub closed spec fn processed_spec(&self) -> int {
        self.processed as int
    }

    pub closed spec fn running_spec(&self) -> bool {
        self.running
    }

    pub fn new(script: Vec<Vec<u8>>) -> (s: InferenceStage)
        ensures
            s.script_spec() == script@.map_values(|v: Vec<u8>| v@),
            s.processed_spec() == 0,
            s.running_spec(),
    {
        InferenceStage { script, processed: 0, running: true }
    }

    pub fn is_running(&self) -> (r: bool)
        ensures
            r == self.running_spec(),
    {
        self.running
    }

    /// The decision for the record at the current position.
    fn decide_next(&self) -> (d: Decision)
        ensures
            d == spec_decision_for(self.script_spec(), self.processed_spec()),
    {
        if self.processed < self.script.len() {
            match crate::decode::classify_output(self.script[self.processed].as_slice()) {
                Some(d) => d,
                None => Decision::FallbackKeep,
            }
        } else {
            Decision::FallbackKeep
        }
    }

    /// One scheduler poll: stop (closing the output) once the input is
    /// closed and drained; otherwise, when a record is available and the
    /// output has room, take it, triage it, and send the decision.
    pub fn step(&mut self, input: &mut Channel<Record>, output: &mut Channel<DecisionRecord>)
        requires
            old(input).wf(),
            old(output).wf(),
            old(self).running_spec() ==> !old(output).is_closed_spec(),
            old(input)@.len() >= 1 ==> old(self).processed_spec() < usize::MAX,
        ensures
            final(input).wf(),
            final(output).wf(),
            final(input).capacity_spec() == old(input).capacity_spec(),
            final(output).capacity_spec() == old(output).capacity_spec(),
            final(self).script_spec() == old(self).script_spec(),
            final(input).sent_log() == old(input).sent_log(),
            final(input).is_closed_spec() == old(input).is_closed_spec(),
            final(output).taken_log() == old(output).taken_log(),
            !old(self).running_spec() ==> *final(self) == *old(self) && *final(input) == *old(
                input,
            ) && *final(output) == *old(output),
            old(self).running_spec() && old(input).closed_and_empty_spec() ==> {
                &&& !final(self).running_spec()
                &&& final(self).processed_spec() == old(self).processed_spec()
                &&& *final(input) == *old(input)
                &&& final(output).is_closed_spec()
                &&& final(output)@ == old(output)@
                &&& final(output).sent_log() == old(output).sent_log()
            },
            old(self).running_spec() && !old(input).closed_and_empty_spec() && old(input)@.len()
                >= 1 && old(output)@.len() < old(output).capacity_spec() ==> {
                &&& final(self).running_spec()
                &&& final(self).processed_spec() == old(self).processed_spec() + 1
                &&& final(input)@ == old(input)@.drop_first()
                &&& final(input).taken_log() == old(input).taken_log().push(old(input)@[0])
                &&& final(output)@ == old(output)@.push(spec_decision_record(old(input)@[0],
                    old(self).script_spec(), old(self).processed_spec()))
                &&& final(output).sent_log() == old(output).sent_log().push(spec_decision_record(
                    old(input)@[0], old(self).script_spec(), old(self).processed_spec()))
                &&& final(output).is_closed_spec() == old(output).is_closed_spec()
            },
            old(self).running_spec() && !old(input).closed_and_empty_spec() && (old(input)@.len()
                == 0 || old(output)@.len() == old(output).capacity_spec()) ==> *final(self)
                == *old(self) && *final(input) == *old(input) && *final(output) == *old(output),
    {
        if !self.running {
            return;
        }
        if input.is_closed_and_empty() {
            output.mark_closed();
            self.running = false;
            return;
        }
        if input.fill() >= 1 && output.fill() < output.capacity() {
            let d = self.decide_next();
            match input.try_take() {
                Some(rec) => {
                    let decision = DecisionRecord { id: rec.id, path: rec.meta.full_path, decision: d };
                    match output.try_send(decision) {
                        SendOutcome::Success => {},
                        SendOutcome::Blocked(_) => {
                            proof {
                                assert(false);
                            }
                        },
                        SendOutcome::Closed(_) => {
                            proof {
                                assert(false);
                            }
                        },
                    }
                    self.processed = self.processed + 1;
                },
                None => {
                    proof {
                        assert(false);
                    }
                },
            }
        }
    }
}

/// The persistence stage: drains decision records into its store, one
/// per poll, treating re-insertion of an existing key as overwrite; it
/// stops once its input is closed and drained.
pub struct PersistenceStage {
    store: Vec<DecisionRecord>,
    running: bool,
}

impl View for PersistenceStage {
    type V = Seq<DecisionRecord>;

    /// The persisted decisions.
    closed spec fn view(&self) -> Seq<DecisionRecord> {
        self.store@
    }
}

impl PersistenceStage {
    pub closed spec fn running_spec(&self) -> bool {
        self.running
    }

    pub fn new() -> (s: PersistenceStage)
        ensures
            s@ == Seq::<DecisionRecord>::empty(),
            s.running_spec(),
    {
        PersistenceStage { store: Vec::new(), running: true }
    }

    pub fn is_running(&self) -> (r: bool)
        ensures
            r == self.running_spec(),
    {
        self.running
    }

    /// The persisted decisions, for the report.
    pub fn rows(&self) -> (r: &Vec<DecisionRecord>)
        ensures
            r@ == self@,
    {
        &self.store
    }

    /// Upsert one decision: overwrite the first row with the same key, or
    /// append when the key is new.
    fn upsert(&mut self, d: DecisionRecord)
        ensures
            final(self)@ == upsert_one(old(self)@, d),
            final(self).running_spec() == old(self).running_spec(),
    {
        let ghost dd = d;
        let mut i: usize = 0;
        while i < self.store.len()
            invariant
                0 <= i <= self.store@.len(),
                self == old(self),
                d == dd,
                forall|k: int| 0 <= k < i ==> self.store@[k].id != d.id,
            decreases self.store@.len() - i,
        {
            if self.store[i].id == d.id {
                proof {
                    lemma_find_id_at(self.store@, d.id, i as int);
                }
                self.store.set(i, d);
                return;
            }
            i = i + 1;
        }
        proof {
            lemma_find_id_none(self.store@, d.id);
        }
        self.store.push(d);
    }

    /// One scheduler poll: persist one available decision, or stop when
    /// the input is closed and drained.
    pub fn step(&mut self, input: &mut Channel<DecisionRecord>)
        requires
            old(input).wf(),
        ensures
            final(input).wf(),
            final(input).capacity_spec() == old(input).capacity_spec(),
            final(input).sent_log() == old(input).sent_log(),
            final(input).is_closed_spec() == old(input).is_closed_spec(),
            !old(self).running_spec() ==> *final(self) == *old(self) && *final(input) == *old(
                input,
            ),
            old(self).running_spec() && old(input)@.len() > 0 ==> {
                &&& final(self).running_spec()
                &&& final(self)@ == upsert_one(old(self)@, old(input)@[0])
                &&& final(input)@ == old(input)@.drop_first()
                &&& final(input).taken_log() == old(input).taken_log().push(old(input)@[0])
            },
            old(self).running_spec() && old(input)@.len() == 0 && old(input).is_closed_spec()
                ==> {
                &&& !final(self).running_spec()
                &&& final(self)@ == old(self)@
                &&& *final(input) == *old(input)
            },
            old(self).running_spec() && old(input)@.len() == 0 && !old(input).is_closed_spec()
                ==> *final(self) == *old(self) && *final(input) == *old(input),
    {
        if !self.running {
            return;
        }
        match input.try_take() {
            Some(d) => {
                self.upsert(d);
            },
            None => {
                if input.is_closed_and_empty() {
                    self.running = false;
                }
            },
        }
    }
}

/// The presentation-forwarding stage: moves free-text messages from its
/// input to its output unchanged, under the same conjunctive readiness
/// condition as the inference stage, and closes its output when its input is
/// closed and drained.
pub struct ForwardStage {
    running: bool,
}

impl ForwardStage {
    pub closed spec fn running_spec(&self) -> bool {
        self.running
    }

    pub fn new() -> (s: ForwardStage)
        ensures
            s.running_spec(),
    {
        ForwardStage { running: true }
    }

    pub fn is_running(&self) -> (r: bool)
        ensures
            r == self.running_spec(),
    {
        self.running
    }

    /// One scheduler poll: forward one message when one is available and
    /// the output has room; stop, closing the output, once the input is
    /// closed and drained.
    pub fn step(&mut self, input: &mut Channel<String>, output: &mut Channel<String>)
        requires
            old(input).wf(),
            old(output).wf(),
            old(self).running_spec() ==> !old(output).is_closed_spec(),
        ensures
            final(input).wf(),
            final(output).wf(),
            final(input).capacity_spec() == old(input).capacity_spec(),
            final(output).capacity_spec() == old(output).capacity_spec(),
            final(input).sent_log() == old(input).sent_log(),
            final(input).is_closed_spec() == old(input).is_closed_spec(),
            final(output).taken_log() == old(output).taken_log(),
            !old(self).running_spec() ==> *final(self) == *old(self) && *final(input) == *old(
                input,
            ) && *final(output) == *old(output),
            old(self).running_spec() && old(input).closed_and_empty_spec() ==> {
                &&& !final(self).running_spec()
                &&& *final(input) == *old(input)
                &&& final(output).is_closed_spec()
                &&& final(output)@ == old(output)@
                &&& final(output).sent_log() == old(output).sent_log()
            },
            old(self).running_spec() && !old(input).closed_and_empty_spec() && old(input)@.len()
                >= 1 && old(output)@.len() < old(output).capacity_spec() ==> {
                &&& final(self).running_spec()
                &&& final(input)@ == old(input)@.drop_first()
                &&& final(input).taken_log() == old(input).taken_log().push(old(input)@[0])
                &&& final(output)@ == old(output)@.push(old(input)@[0])
                &&& final(output).sent_log() == old(output).sent_log().push(old(input)@[0])
                &&& final(output).is_closed_spec() == old(output).is_closed_spec()
            },
            old(self).running_spec() && !old(input).closed_and_empty_spec() && (old(input)@.len()
                == 0 || old(output)@.len() == old(output).capacity_spec()) ==> *final(self)
                == *old(self) && *final(input) == *old(input) && *final(output) == *old(output),
    {
        if !self.running {
            return;
        }
        if input.is_closed_and_empty() {
            output.mark_closed();
            self.running = false;
            return;
        }
        if input.fill() >= 1 && output.fill() < output.capacity() {
            match input.try_take() {
                Some(msg) => {
                    match output.try_send(msg) {
                        SendOutcome::Success => {},
                        SendOutcome::Blocked(_) => {
                            proof {
                                assert(false);
                            }
                        },
                        SendOutcome::Closed(_) => {
                            proof {
                                assert(false);
                            }
                        },
                    }
                },
                None => {
                    proof {
                        assert(false);
                    }
                },
            }
        }
    }
}

/// A stage that drains its input into a collection and stops when the
/// input is closed and drained; the presentation end of the log branch.
pub struct SinkStage<T> {
    collected: Vec<T>,
    running: bool,
}

impl<T> View for SinkStage<T> {
    type V = Seq<T>;

    /// Everything drained so far, in arrival order.
    closed spec fn view(&self) -> Seq<T> {
        self.collected@
    }
}

impl<T> SinkStage<T> {
    pub closed spec fn running_spec(&self) -> bool {
        self.running
    }

    pub fn new() -> (s: SinkStage<T>)
        ensures
            s@ == Seq::<T>::empty(),
            s.running_spec(),
    {
        SinkStage { collected: Vec::new(), running: true }
    }

    pub fn is_running(&self) -> (r: bool)
        ensures
            r == self.running_spec(),
    {
        self.running
    }

    /// What arrived, in order.
    pub fn items(&self) -> (r: &Vec<T>)
        ensures
            r@ == self@,
    {
        &self.collected
    }

    /// One scheduler poll: drain one available item, or stop when the
    /// input is closed and drained.
    pub fn step(&mut self, input: &mut Channel<T>)
        requires
            old(input).wf(),
        ensures
            final(input).wf(),
            final(input).capacity_spec() == old(input).capacity_spec(),
            final(input).sent_log() == old(input).sent_log(),
            final(input).is_closed_spec() == old(input).is_closed_spec(),
            !old(self).running_spec() ==> *final(self) == *old(self) && *final(input) == *old(
                input,
            ),
            old(self).running_spec() && old(input)@.len() > 0 ==> {
                &&& final(self).running_spec()
                &&& final(self)@ == old(self)@.push(old(input)@[0])
                &&& final(input)@ == old(input)@.drop_first()
                &&& final(input).taken_log() == old(input).taken_log().push(old(input)@[0])
            },
            old(self).running_spec() && old(input)@.len() == 0 && old(input).is_closed_spec()
                ==> {
                &&& !final(self).running_spec()
                &&& final(self)@ == old(self)@
                &&& *final(input) == *old(input)
            },
            old(self).running_spec() && old(input)@.len() == 0 && !old(input).is_closed_spec()
                ==> *final(self) == *old(self) && *final(input) == *old(input),
    {
        if !self.running {
            return;
        }
        match input.try_take() {
            Some(item) => {
                self.collected.push(item);
            },
            None => {
                if input.is_closed_and_empty() {
                    self.running = false;
                }
            },
        }
    }
}

/// What the scheduler's blocking join came to: every stage reached
/// `stopped`, or the round budget elapsed first.
#[derive(Clone, Copy, Debug, PartialEq, Eq, Structural)]
pub enum JoinOutcome {
    AllStopped,
    TimedOut,
}

/// The wired pipeline: the enumeration source feeding records through the
/// inference stage into the persistence store, and a parallel branch
/// carrying free-text log messages through the presentation forwarder
/// into the display sink.
pub struct Graph {
    enumeration: SourceStage<Record>,
    inference: InferenceStage,
    persistence: PersistenceStage,
    log_source: SourceStage<String>,
    forwarder: ForwardStage,
    display: SinkStage<String>,
    meta_ch: Channel<Record>,
    dec_ch: Channel<DecisionRecord>,
    log_ch: Channel<String>,
    pres_ch: Channel<String>,
    init_records: Ghost<Seq<Record>>,
    init_logs: Ghost<Seq<String>>,
}

impl Graph {
    /// The records the enumeration stage was built with.
    pub closed spec fn init_records_spec(&self) -> Seq<Record> {
        self.init_records@
    }

    /// The log messages the log source was built with.
    pub closed spec fn init_logs_spec(&self) -> Seq<String> {
        self.init_logs@
    }

    /// The model outputs the inference stage was built with.
    pub closed spec fn script_spec(&self) -> Seq<Seq<u8>> {
        self.inference.script_spec()
    }

    /// What the persistence stage has stored.
    pub closed spec fn store_spec(&self) -> Seq<DecisionRecord> {
        self.persistence@
    }

    /// What the display sink has received.
    pub closed spec fn displayed_spec(&self) -> Seq<String> {
        self.display@
    }

    /// The record branch — enumeration, inference, persistence — has
    /// stopped.
    pub closed spec fn record_branch_stopped_spec(&self) -> bool {
        &&& !self.enumeration.running_spec()
        &&& !self.inference.running_spec()
        &&& !self.persistence.running_spec()
    }

    /// The log branch — source, forwarder, display — has stopped.
    pub closed spec fn log_branch_stopped_spec(&self) -> bool {
        &&& !self.log_source.running_spec()
        &&& !self.forwarder.running_spec()
        &&& !self.display.running_spec()
    }

    /// Every stage has reached `stopped`.
    pub closed spec fn stopped_spec(&self) -> bool {
        self.record_branch_stopped_spec() && self.log_branch_stopped_spec()
    }

    /// The store the pipeline is expected to end with: one decision per
    /// enumerated record, keyed and ordered by the record's position.
    pub closed spec fn expected_store(&self) -> Seq<DecisionRecord> {
        Seq::new(self.init_records@.len(), |k: int| spec_decision_record(self.init_records@[k],
            self.inference.script_spec(), k))
    }

    /// The graph invariant, established by [`build_graph`] and preserved
    /// by every scheduler round.
    pub closed spec fn inv(&self) -> bool {
        // channels
        &&& self.meta_ch.wf()
        &&& self.dec_ch.wf()
        &&& self.log_ch.wf()
        &&& self.pres_ch.wf()
        // enumeration into the metadata channel
        &&& self.init_records@ == self.meta_ch.sent_log() + self.enumeration@
        &&& (self.enumeration.running_spec() ==> !self.meta_ch.is_closed_spec())
        &&& (!self.enumeration.running_spec() ==> self.enumeration@.len() == 0
            && self.meta_ch.is_closed_spec())
        // inference between the two channels
        &&& self.inference.processed_spec() == self.meta_ch.taken_log().len()
        &&& self.dec_ch.sent_log() == Seq::new(self.meta_ch.taken_log().len(), |k: int|
            spec_decision_record(self.meta_ch.taken_log()[k], self.inference.script_spec(), k))
        &&& (self.inference.running_spec() ==> !self.dec_ch.is_closed_spec())
        &&& (!self.inference.running_spec() ==> self.dec_ch.is_closed_spec()
            && self.meta_ch.closed_and_empty_spec())
        // persistence out of the decision channel
        &&& self.persistence@ == spec_store(self.dec_ch.taken_log())
        &&& (!self.persistence.running_spec() ==> self.dec_ch.closed_and_empty_spec())
        // the log branch
        &&& self.init_logs@ == self.log_ch.sent_log() + self.log_source@
        &&& (self.log_source.running_spec() ==> !self.log_ch.is_closed_spec())
        &&& (!self.log_source.running_spec() ==> self.log_source@.len() == 0
            && self.log_ch.is_closed_spec())
        &&& self.pres_ch.sent_log() == self.log_ch.taken_log()
        &&& (self.forwarder.running_spec() ==> !self.pres_ch.is_closed_spec())
        &&& (!self.forwarder.running_spec() ==> self.pres_ch.is_closed_spec()
            && self.log_ch.closed_and_empty_spec())
        &&& self.display@ == self.pres_ch.taken_log()
        &&& (!self.display.running_spec() ==> self.pres_ch.closed_and_empty_spec())
        // keys are the record positions
        &&& (forall|k: int| 0 <= k < self.init_records@.len() ==> (#[trigger] self.init_records@[
            k]).id == k as u64)
        &&& self.init_records@.len() <= u64::MAX
        &&& self.init_records@.len() <= usize::MAX
        &&& self.init_logs@.len() <= usize::MAX
    }

    /// How many scheduler rounds the pipeline still needs, at worst: each
    /// item costs one send, one transform and one take, and each running
    /// stage one more round to observe its termination predicate.
    pub closed spec fn measure_spec(&self) -> int {
        (if self.enumeration.running_spec() {
            self.enumeration@.len() + 1
        } else {
            0
        }) + (if self.inference.running_spec() {
            self.init_records@.len() - self.meta_ch.taken_log().len() + 1
        } else {
            0
        }) + (if self.persistence.running_spec() {
            self.init_records@.len() - self.dec_ch.taken_log().len() + 1
        } else {
            0
        }) + (if self.log_source.running_spec() {
            self.log_source@.len() + 1
        } else {
            0
        }) + (if self.forwarder.running_spec() {
            self.init_logs@.len() - self.log_ch.taken_log().len() + 1
        } else {
            0
        }) + (if self.display.running_spec() {
            self.init_logs@.len() - self.pres_ch.taken_log().len() + 1
        } else {
            0
        })
    }

    /// Whether every stage has stopped.
    pub fn all_stopped(&self) -> (r: bool)
        ensures
            r == self.stopped_spec(),
    {
        !self.enumeration.is_running() && !self.inference.is_running()
            && !self.persistence.is_running() && !self.log_source.is_running()
            && !self.forwarder.is_running() && !self.display.is_running()
    }

    /// The persisted decisions, for rendering the report.
    pub fn decisions(&self) -> (r: &Vec<DecisionRecord>)
        ensures
            r@ == self.store_spec(),
    {
        self.persistence.rows()
    }

    /// The log messages that reached the display sink.
    pub fn displayed(&self) -> (r: &Vec<String>)
        ensures
            r@ == self.displayed_spec(),
    {
        self.display.items()
    }

    /// Poll the record branch once: enumeration, then inference, then
    /// persistence.
    #[verifier::rlimit(60)]
    fn step_record_branch(&mut self)
        requires
            old(self).inv(),
        ensures
            final(self).inv(),
            final(self).init_records_spec() == old(self).init_records_spec(),
            final(self).init_logs_spec() == old(self).init_logs_spec(),
            final(self).script_spec() == old(self).script_spec(),
            final(self).log_source == old(self).log_source,
            final(self).forwarder == old(self).forwarder,
            final(self).display == old(self).display,
            final(self).log_ch == old(self).log_ch,
            final(self).pres_ch == old(self).pres_ch,
            final(self).measure_spec() <= old(self).measure_spec(),
            !old(self).record_branch_stopped_spec() ==> final(self).measure_spec() < old(
                self,
            ).measure_spec(),
            old(self).record_branch_stopped_spec() ==> *final(self) == *old(self),
    {
        let ghost g0 = *self;
        self.enumeration.step(&mut self.meta_ch);
        proof {
            if g0.enumeration.running_spec() && g0.enumeration@.len() > 0 && g0.meta_ch@.len()
                < g0.meta_ch.capacity_spec() {
                assert(self.init_records@ =~= self.meta_ch.sent_log() + self.enumeration@);
            }
            assert(self.inv());
            assert(self.measure_spec() <= g0.measure_spec());
        }
        let ghost g1 = *self;
        proof {
            if self.meta_ch@.len() >= 1 {
                assert(self.meta_ch.taken_log().len() < self.meta_ch.sent_log().len());
            }
        }
        self.inference.step(&mut self.meta_ch, &mut self.dec_ch);
        proof {
            if g1.inference.running_spec() && !g1.meta_ch.closed_and_empty_spec()
                && g1.meta_ch@.len() >= 1 && g1.dec_ch@.len() < g1.dec_ch.capacity_spec() {
                assert(self.dec_ch.sent_log() =~= Seq::new(self.meta_ch.taken_log().len(),
                    |k: int| spec_decision_record(self.meta_ch.taken_log()[k],
                    self.inference.script_spec(), k)));
            }
            assert(self.inv());
            assert(self.measure_spec() <= g1.measure_spec());
        }
        let ghost g2 = *self;
        self.persistence.step(&mut self.dec_ch);
        proof {
            if g2.persistence.running_spec() && g2.dec_ch@.len() > 0 {
                assert(self.dec_ch.taken_log().drop_last() =~= g2.dec_ch.taken_log());
            }
            assert(self.inv());
            assert(self.measure_spec() <= g2.measure_spec());
            if !g0.record_branch_stopped_spec() {
                lemma_record_branch_progress(g0, g1, g2, *self);
            }
        }
    }

    /// Poll the log branch once: source, then forwarder, then display.
    #[verifier::rlimit(60)]
    fn step_log_branch(&mut self)
        requires
            old(self).inv(),
        ensures
            final(self).inv(),
            final(self).init_records_spec() == old(self).init_records_spec(),
            final(self).init_logs_spec() == old(self).init_logs_spec(),
            final(self).script_spec() == old(self).script_spec(),
            final(self).enumeration == old(self).enumeration,
            final(self).inference == old(self).inference,
            final(self).persistence == old(self).persistence,
            final(self).meta_ch == old(self).meta_ch,
            final(self).dec_ch == old(self).dec_ch,
            final(self).measure_spec() <= old(self).measure_spec(),
            !old(self).log_branch_stopped_spec() ==> final(self).measure_spec() < old(
                self,
            ).measure_spec(),
            old(self).log_branch_stopped_spec() ==> *final(self) == *old(self),
    {
        let ghost g0 = *self;
        self.log_source.step(&mut self.log_ch);
        proof {
            if g0.log_source.running_spec() && g0.log_source@.len() > 0 && g0.log_ch@.len()
                < g0.log_ch.capacity_spec() {
                assert(self.init_logs@ =~= self.log_ch.sent_log() + self.log_source@);
            }
            assert(self.inv());
            assert(self.measure_spec() <= g0.measure_spec());
        }
        let ghost g1 = *self;
        self.forwarder.step(&mut self.log_ch, &mut self.pres_ch);
        proof {
            assert(self.inv());
            assert(self.measure_spec() <= g1.measure_spec());
        }
        let ghost g2 = *self;
        self.display.step(&mut self.pres_ch);
        proof {
            assert(self.inv());
            assert(self.measure_spec() <= g2.measure_spec());
            if !g0.log_branch_stopped_spec() {
                lemma_log_branch_progress(g0, g1, g2, *self);
            }
        }
    }

    /// Poll every stage once, in wiring order.
    fn step_round(&mut self)
        requires
            old(self).inv(),
        ensures
            final(self).inv(),
            final(self).init_records_spec() == old(self).init_records_spec(),
            final(self).init_logs_spec() == old(self).init_logs_spec(),
            final(self).script_spec() == old(self).script_spec(),
            final(self).measure_spec() <= old(self).measure_spec(),
            !old(self).stopped_spec() ==> final(self).measure_spec() < old(self).measure_spec(),
            old(self).stopped_spec() ==> final(self).stopped_spec(),
    {
        let ghost g0 = *self;
        self.step_record_branch();
        let ghost g1 = *self;
        self.step_log_branch();
        proof {
            if !g0.stopped_spec() {
                if !g0.record_branch_stopped_spec() {
                    assert(g1.measure_spec() < g0.measure_spec());
                } else {
                    assert(g1 == g0);
                    assert(self.measure_spec() < g1.measure_spec());
                }
            }
        }
    }

    /// Start every stage and block until all have stopped or the round
    /// budget elapses, whichever comes first. A budget of at least the
    /// graph's measure (three rounds per item plus one per stage; see
    /// [`build_graph`]) is always enough: the outcome is then
    /// `AllStopped`, every record has been processed end to end — the
    /// store holds exactly one decision per enumerated record, in order —
    /// and every log message has reached the display sink.
    pub fn run(&mut self, max_rounds: usize) -> (r: JoinOutcome)
        requires
            old(self).inv(),
        ensures
            final(self).inv(),
            final(self).init_records_spec() == old(self).init_records_spec(),
            final(self).init_logs_spec() == old(self).init_logs_spec(),
            final(self).script_spec() == old(self).script_spec(),
            r == JoinOutcome::AllStopped <==> final(self).stopped_spec(),
            old(self).measure_spec() <= max_rounds ==> r == JoinOutcome::AllStopped,
            r == JoinOutcome::AllStopped ==> final(self).store_spec()
                == final(self).expected_store() && final(self).displayed_spec()
                == final(self).init_logs_spec(),
    {
        let mut rounds: usize = 0;
        while rounds < max_rounds
            invariant
                self.inv(),
                0 <= rounds <= max_rounds,
                self.init_records_spec() == old(self).init_records_spec(),
                self.init_logs_spec() == old(self).init_logs_spec(),
                self.script_spec() == old(self).script_spec(),
                self.stopped_spec() || self.measure_spec() + rounds <= old(self).measure_spec(),
            ensures
                self.inv(),
                self.init_records_spec() == old(self).init_records_spec(),
                self.init_logs_spec() == old(self).init_logs_spec(),
                self.script_spec() == old(self).script_spec(),
                self.stopped_spec() || (rounds == max_rounds && self.measure_spec() + rounds
                    <= old(self).measure_spec()),
            decreases max_rounds - rounds,
        {
            if self.all_stopped() {
                break;
            }
            self.step_round();
            rounds = rounds + 1;
        }
        if self.all_stopped() {
            proof {
                law_shutdown_convergence(*self);
            }
            JoinOutcome::AllStopped
        } else {
            proof {
                lemma_running_measure_positive(*self);
            }
            JoinOutcome::TimedOut
        }
    }
}

/// Build the pipeline: assign each metadata record its position as key,
/// load the enumeration source with the records and the log source with
/// the messages, give the inference stage its model outputs (an empty
/// script bypasses inference), and wire the four channels at the given
/// capacity. The graph's measure — the round budget that always suffices
/// — is three rounds per record, three per log message, and six more.
pub fn build_graph(
    metas: Vec<MetadataFields>,
    logs: Vec<String>,
    script: Vec<Vec<u8>>,
    channel_capacity: usize,
) -> (g: Graph)
    requires
        1 <= channel_capacity,
        metas@.len() <= u64::MAX,
    ensures
        g.inv(),
        g.init_records_spec().len() == metas@.len(),
        forall|k: int|
            0 <= k < metas@.len() ==> (#[trigger] g.init_records_spec()[k]).meta == metas@[k]
                && g.init_records_spec()[k].id == k as u64,
        g.init_logs_spec() == logs@,
        g.script_spec() == script@.map_values(|v: Vec<u8>| v@),
        g.store_spec() == Seq::<DecisionRecord>::empty(),
        g.displayed_spec() == Seq::<String>::empty(),
        g.measure_spec() == 3 * metas@.len() + 3 * logs@.len() + 6,
{
    let ghost metas0 = metas@;
    let mut records: Vec<Record> = Vec::new();
    let mut rest = metas;
    loop
        invariant
            records@.len() + rest@.len() == metas0.len(),
            metas0.len() <= u64::MAX,
            rest@ == metas0.subrange(records@.len() as int, metas0.len() as int),
            forall|k: int|
                0 <= k < records@.len() ==> (#[trigger] records@[k]).id == k as u64
                    && records@[k].meta == metas0[k],
        ensures
            rest@.len() == 0,
        decreases rest@.len(),
    {
        if rest.len() == 0 {
            break;
        }
        let m = rest.remove(0);
        let id = records.len() as u64;
        records.push(Record { id, meta: m });
        proof {
            assert(rest@ =~= metas0.subrange(records@.len() as int, metas0.len() as int));
        }
    }
    let ghost init_r = records@;
    let ghost init_l = logs@;
    let records_len = records.len();
    let logs_len = logs.len();
    proof {
        assert(init_r.len() == records_len as int);
        assert(init_l.len() == logs_len as int);
    }
    let g = Graph {
        enumeration: SourceStage::new(records),
        inference: InferenceStage::new(script),
        persistence: PersistenceStage::new(),
        log_source: SourceStage::new(logs),
        forwarder: ForwardStage::new(),
        display: SinkStage::new(),
        meta_ch: Channel::new(channel_capacity),
        dec_ch: Channel::new(channel_capacity),
        log_ch: Channel::new(channel_capacity),
        pres_ch: Channel::new(channel_capacity),
        init_records: Ghost(init_r),
        init_logs: Ghost(init_l),
    };
    proof {
        assert(g.init_records@ =~= g.meta_ch.sent_log() + g.enumeration@);
        assert(g.init_logs@ =~= g.log_ch.sent_log() + g.log_source@);
        assert(g.dec_ch.sent_log() =~= Seq::new(g.meta_ch.taken_log().len(), |k: int|
            spec_decision_record(g.meta_ch.taken_log()[k], g.inference.script_spec(), k)));
        assert(g.persistence@ =~= spec_store(g.dec_ch.taken_log()));
        assert(g.pres_ch.sent_log() =~= g.log_ch.taken_log());
        assert(g.display@ =~= g.pres_ch.taken_log());
    }
    g
}

/// A graph that is not yet all-stopped still has work: its measure is at
/// least one.
proof fn lemma_running_measure_positive(g: Graph)
    requires
        g.inv(),
        !g.stopped_spec(),
    ensures
        g.measure_spec() >= 1,
{
    lemma_measure_terms_nonneg(g);
}

/// The per-stage terms of the measure are each nonnegative: nothing is
/// ever taken that was not first sent, and nothing sent that was not in
/// the initial batch.
proof fn lemma_measure_terms_nonneg(g: Graph)
    requires
        g.inv(),
    ensures
        g.meta_ch.taken_log().len() <= g.meta_ch.sent_log().len() <= g.init_records_spec().len(),
        g.dec_ch.taken_log().len() <= g.dec_ch.sent_log().len() == g.meta_ch.taken_log().len(),
        g.log_ch.taken_log().len() <= g.log_ch.sent_log().len() <= g.init_logs_spec().len(),
        g.pres_ch.taken_log().len() <= g.pres_ch.sent_log().len() == g.log_ch.taken_log().len(),
{
}

/// Every poll of the record branch makes progress while one of its stages
/// runs: a stage sends, transforms, takes, or observes its termination
/// predicate, so the measure strictly decreases.
proof fn lemma_record_branch_progress(g0: Graph, g1: Graph, g2: Graph, g3: Graph)
    requires
        g0.inv(),
        g1.inv(),
        g2.inv(),
        g3.inv(),
        !g0.record_branch_stopped_spec(),
        g1.measure_spec() <= g0.measure_spec(),
        g2.measure_spec() <= g1.measure_spec(),
        g3.measure_spec() <= g2.measure_spec(),
        // what each stage's step did, as the poll executed it
        spec_source_step(g0.enumeration, g0.meta_ch, g1.enumeration, g1.meta_ch),
        g1.inference == g0.inference && g1.dec_ch == g0.dec_ch && g1.persistence == g0.persistence
            && g1.log_source == g0.log_source && g1.log_ch == g0.log_ch && g1.forwarder
            == g0.forwarder && g1.pres_ch == g0.pres_ch && g1.display == g0.display
            && g1.init_records == g0.init_records && g1.init_logs == g0.init_logs,
        spec_inference_step(g1.inference, g1.meta_ch, g1.dec_ch, g2.inference, g2.meta_ch,
            g2.dec_ch),
        g2.enumeration == g1.enumeration && g2.persistence == g1.persistence && g2.log_source
            == g1.log_source && g2.log_ch == g1.log_ch && g2.forwarder == g1.forwarder
            && g2.pres_ch == g1.pres_ch && g2.display == g1.display && g2.init_records
            == g1.init_records && g2.init_logs == g1.init_logs,
        spec_drain_step(g2.persistence.running_spec(), g2.dec_ch, g3.persistence.running_spec(),
            g3.dec_ch),
        g3.enumeration == g2.enumeration && g3.inference == g2.inference && g3.meta_ch
            == g2.meta_ch && g3.log_source == g2.log_source && g3.log_ch == g2.log_ch
            && g3.forwarder == g2.forwarder && g3.pres_ch == g2.pres_ch && g3.display
            == g2.display && g3.init_records == g2.init_records && g3.init_logs == g2.init_logs,
    ensures
        g3.measure_spec() < g0.measure_spec(),
{
    if g0.enumeration.running_spec() {
        if g0.enumeration@.len() == 0 {
            assert(g1.measure_spec() < g0.measure_spec());
        } else if g0.meta_ch@.len() < g0.meta_ch.capacity_spec() {
            assert(g1.measure_spec() < g0.measure_spec());
        } else {
            // metadata channel full: the inference stage is running and
            // either transforms or the persistence stage drains
            assert(g1.meta_ch@.len() >= 1);
            assert(g1.inference.running_spec());
            if g1.dec_ch@.len() < g1.dec_ch.capacity_spec() {
                assert(g2.measure_spec() < g1.measure_spec());
            } else {
                assert(g2.dec_ch@.len() >= 1);
                assert(g2.persistence.running_spec());
                assert(g3.measure_spec() < g2.measure_spec());
            }
        }
    } else if g0.inference.running_spec() {
        if g1.meta_ch.closed_and_empty_spec() {
            assert(g2.measure_spec() < g1.measure_spec());
        } else {
            assert(g1.meta_ch@.len() >= 1);
            if g1.dec_ch@.len() < g1.dec_ch.capacity_spec() {
                assert(g2.measure_spec() < g1.measure_spec());
            } else {
                assert(g2.dec_ch@.len() >= 1);
                assert(g2.persistence.running_spec());
                assert(g3.measure_spec() < g2.measure_spec());
            }
        }
    } else {
        assert(g0.persistence.running_spec());
        assert(g2.persistence.running_spec());
        assert(g3.measure_spec() < g2.measure_spec());
    }
}

/// The log-branch counterpart of [`lemma_record_branch_progress`].
proof fn lemma_log_branch_progress(g0: Graph, g1: Graph, g2: Graph, g3: Graph)
    requires
        g0.inv(),
        g1.inv(),
        g2.inv(),
        g3.inv(),
        !g0.log_branch_stopped_spec(),
        g1.measure_spec() <= g0.measure_spec(),
        g2.measure_spec() <= g1.measure_spec(),
        g3.measure_spec() <= g2.measure_spec(),
        spec_source_step_str(g0.log_source, g0.log_ch, g1.log_source, g1.log_ch),
        g1.enumeration == g0.enumeration && g1.inference == g0.inference && g1.meta_ch
            == g0.meta_ch && g1.dec_ch == g0.dec_ch && g1.persistence == g0.persistence
            && g1.forwarder == g0.forwarder && g1.pres_ch == g0.pres_ch && g1.display
            == g0.display && g1.init_records == g0.init_records && g1.init_logs == g0.init_logs,
        spec_forward_step(g1.forwarder, g1.log_ch, g1.pres_ch, g2.forwarder, g2.log_ch,
            g2.pres_ch),
        g2.enumeration == g1.enumeration && g2.inference == g1.inference && g2.meta_ch
            == g1.meta_ch && g2.dec_ch == g1.dec_ch && g2.persistence == g1.persistence
            && g2.log_source == g1.log_source && g2.display == g1.display && g2.init_records
            == g1.init_records && g2.init_logs == g1.init_logs,
        spec_drain_step(g2.display.running_spec(), g2.pres_ch, g3.display.running_spec(),
            g3.pres_ch),
        g3.enumeration == g2.enumeration && g3.inference == g2.inference && g3.meta_ch
            == g2.meta_ch && g3.dec_ch == g2.dec_ch && g3.persistence == g2.persistence
            && g3.log_source == g2.log_source && g3.log_ch == g2.log_ch && g3.forwarder
            == g2.forwarder && g3.init_records == g2.init_records && g3.init_logs == g2.init_logs,
    ensures
        g3.measure_spec() < g0.measure_spec(),
{
    if g0.log_source.running_spec() {
        if g0.log_source@.len() == 0 {
            assert(g1.measure_spec() < g0.measure_spec());
        } else if g0.log_ch@.len() < g0.log_ch.capacity_spec() {
            assert(g1.measure_spec() < g0.measure_spec());
        } else {
            assert(g1.log_ch@.len() >= 1);
            assert(g1.forwarder.running_spec());
            if g1.pres_ch@.len() < g1.pres_ch.capacity_spec() {
                assert(g2.measure_spec() < g1.measure_spec());
            } else {
                assert(g2.pres_ch@.len() >= 1);
                assert(g2.display.running_spec());
                assert(g3.measure_spec() < g2.measure_spec());
            }
        }
    } else if g0.forwarder.running_spec() {
        if g1.log_ch.closed_and_empty_spec() {
            assert(g2.measure_spec() < g1.measure_spec());
        } else {
            assert(g1.log_ch@.len() >= 1);
            if g1.pres_ch@.len() < g1.pres_ch.capacity_spec() {
                assert(g2.measure_spec() < g1.measure_spec());
            } else {
                assert(g2.pres_ch@.len() >= 1);
                assert(g2.display.running_spec());
                assert(g3.measure_spec() < g2.measure_spec());
            }
        }
    } else {
        assert(g0.display.running_spec());
        assert(g2.display.running_spec());
        assert(g3.measure_spec() < g2.measure_spec());
    }
}

/// The step relation of a source stage, as its contract states it.
pub open spec fn spec_source_step(
    s0: SourceStage<Record>,
    c0: Channel<Record>,
    s1: SourceStage<Record>,
    c1: Channel<Record>,
) -> bool {
    &&& (!s0.running_spec() ==> s1 == s0 && c1 == c0)
    &&& c1.taken_log() == c0.taken_log()
    &&& c1.capacity_spec() == c0.capacity_spec()
    &&& (s0.running_spec() && s0@.len() == 0 ==> !s1.running_spec() && c1@ == c0@)
    &&& (s0.running_spec() && s0@.len() > 0 && c0@.len() < c0.capacity_spec()
        ==> s1.running_spec() && s1@ == s0@.drop_first() && c1@ == c0@.push(s0@[0]))
    &&& (s0.running_spec() && s0@.len() > 0 && c0@.len() == c0.capacity_spec() ==> s1 == s0 && c1
        == c0)
}

/// The step relation of the string source stage.
pub open spec fn spec_source_step_str(
    s0: SourceStage<String>,
    c0: Channel<String>,
    s1: SourceStage<String>,
    c1: Channel<String>,
) -> bool {
    &&& (!s0.running_spec() ==> s1 == s0 && c1 == c0)
    &&& c1.taken_log() == c0.taken_log()
    &&& c1.capacity_spec() == c0.capacity_spec()
    &&& (s0.running_spec() && s0@.len() == 0 ==> !s1.running_spec() && c1@ == c0@)
    &&& (s0.running_spec() && s0@.len() > 0 && c0@.len() < c0.capacity_spec()
        ==> s1.running_spec() && s1@ == s0@.drop_first() && c1@ == c0@.push(s0@[0]))
    &&& (s0.running_spec() && s0@.len() > 0 && c0@.len() == c0.capacity_spec() ==> s1 == s0 && c1
        == c0)
}

/// The step relation of the inference stage, reduced to what the progress
/// argument needs.
pub open spec fn spec_inference_step(
    s0: InferenceStage,
    i0: Channel<Record>,
    o0: Channel<DecisionRecord>,
    s1: InferenceStage,
    i1: Channel<Record>,
    o1: Channel<DecisionRecord>,
) -> bool {
    &&& o1.taken_log() == o0.taken_log()
    &&& i1.sent_log() == i0.sent_log()
    &&& i1.capacity_spec() == i0.capacity_spec()
    &&& o1.capacity_spec() == o0.capacity_spec()
    &&& (!s0.running_spec() ==> s1 == s0 && i1 == i0 && o1 == o0)
    &&& (s0.running_spec() && i0.closed_and_empty_spec() ==> !s1.running_spec() && i1 == i0 && o1@
        == o0@)
    &&& (s0.running_spec() && !i0.closed_and_empty_spec() && i0@.len() >= 1 && o0@.len()
        < o0.capacity_spec() ==> s1.running_spec() && i1.taken_log().len() == i0.taken_log().len()
        + 1 && o1@.len() == o0@.len() + 1)
    &&& (s0.running_spec() && !i0.closed_and_empty_spec() && (i0@.len() == 0 || o0@.len()
        == o0.capacity_spec()) ==> s1 == s0 && i1 == i0 && o1 == o0)
}

/// The step relation of a draining stage (persistence or display),
/// reduced to what the progress argument needs.
pub open spec fn spec_drain_step<T>(
    running0: bool,
    c0: Channel<T>,
    running1: bool,
    c1: Channel<T>,
) -> bool {
    &&& c1.sent_log() == c0.sent_log()
    &&& c1.capacity_spec() == c0.capacity_spec()
    &&& (!running0 ==> running1 == running0 && c1 == c0)
    &&& (running0 && c0@.len() > 0 ==> running1 && c1.taken_log().len() == c0.taken_log().len()
        + 1)
    &&& (running0 && c0@.len() == 0 && c0.is_closed_spec() ==> !running1 && c1 == c0)
    &&& (running0 && c0@.len() == 0 && !c0.is_closed_spec() ==> running1 == running0 && c1 == c0)
}

/// The step relation of the forwarding stage, reduced to what the
/// progress argument needs.
pub open spec fn spec_forward_step(
    s0: ForwardStage,
    i0: Channel<String>,
    o0: Channel<String>,
    s1: ForwardStage,
    i1: Channel<String>,
    o1: Channel<String>,
) -> bool {
    &&& o1.taken_log() == o0.taken_log()
    &&& i1.sent_log() == i0.sent_log()
    &&& i1.capacity_spec() == i0.capacity_spec()
    &&& o1.capacity_spec() == o0.capacity_spec()
    &&& (!s0.running_spec() ==> s1 == s0 && i1 == i0 && o1 == o0)
    &&& (s0.running_spec() && i0.closed_and_empty_spec() ==> !s1.running_spec() && i1 == i0 && o1@
        == o0@)
    &&& (s0.running_spec() && !i0.closed_and_empty_spec() && i0@.len() >= 1 && o0@.len()
        < o0.capacity_spec() ==> s1.running_spec() && i1.taken_log().len() == i0.taken_log().len()
        + 1 && o1@.len() == o0@.len() + 1)
    &&& (s0.running_spec() && !i0.closed_and_empty_spec() && (i0@.len() == 0 || o0@.len()
        == o0.capacity_spec()) ==> s1 == s0 && i1 == i0 && o1 == o0)
}

/// Shutdown convergence: once every stage has stopped, the store holds
/// exactly one decision per enumerated record, keyed and ordered by
/// position, and the display sink holds exactly the log messages, in
/// order — nothing was lost, duplicated or reordered anywhere in the
/// pipeline.
pub proof fn law_shutdown_convergence(g: Graph)
    requires
        g.inv(),
        g.stopped_spec(),
    ensures
        g.store_spec() == g.expected_store(),
        g.displayed_spec() == g.init_logs_spec(),
{
    // the enumeration sent everything
    assert(g.init_records_spec() =~= g.meta_ch.sent_log());
    // the inference took everything that was sent
    assert(g.meta_ch.sent_log() =~= g.meta_ch.taken_log() + g.meta_ch@);
    assert(g.meta_ch.taken_log() =~= g.init_records_spec());
    // so it sent one decision per record, in order
    assert(g.dec_ch.sent_log() =~= g.expected_store());
    // the persistence stage drained them all
    assert(g.dec_ch.taken_log() =~= g.dec_ch.sent_log());
    // distinct keys: the store is exactly the decision sequence
    assert(forall|i: int, j: int|
        0 <= i < j < g.expected_store().len() ==> g.expected_store()[i].id != g.expected_store()[
            j].id);
    lemma_store_of_distinct(g.expected_store());
    // the log branch: everything reached the display sink in order
    assert(g.init_logs_spec() =~= g.log_ch.sent_log());
    assert(g.log_ch.taken_log() =~= g.init_logs_spec());
    assert(g.pres_ch.taken_log() =~= g.pres_ch.sent_log());
    assert(g.displayed_spec() =~= g.init_logs_spec());
}

proof fn lemma_find_id_at(store: Seq<DecisionRecord>, id: u64, i: int)
    requires
        0 <= i < store.len(),
        store[i].id == id,
        forall|k: int| 0 <= k < i ==> store[k].id != id,
    ensures
        find_id(store, id) == Some(i),
    decreases store.len(),
{
    if store[0].id == id {
    } else {
        assert(i >= 1);
        lemma_find_id_at(store.drop_first(), id, i - 1);
    }
}

proof fn lemma_find_id_none(store: Seq<DecisionRecord>, id: u64)
    requires
        forall|k: int| 0 <= k < store.len() ==> store[k].id != id,
    ensures
        find_id(store, id) is None,
    decreases store.len(),
{
    if store.len() > 0 {
        lemma_find_id_none(store.drop_first(), id);
    }
}

/// With pairwise-distinct keys, upserting a sequence of decisions leaves
/// exactly that sequence: overwrite never fires and order is kept.
pub proof fn lemma_store_of_distinct(taken: Seq<DecisionRecord>)
    requires
        forall|i: int, j: int| 0 <= i < j < taken.len() ==> taken[i].id != taken[j].id,
    ensures
        spec_store(taken) == taken,
    decreases taken.len(),
{
    if taken.len() > 0 {
        let front = taken.drop_last();
        lemma_store_of_distinct(front);
        assert(forall|k: int| 0 <= k < front.len() ==> front[k].id != taken.last().id);
        lemma_find_id_none(front, taken.last().id);
        assert(spec_store(taken) =~= taken);
    }
}

} // verus!
