//! The aggregation loop's decision core.  The host program owns the
//! sockets and the timer; every inbound event is handed to the
//! `Collector`, which decodes it, routes ticks into the cache, drives
//! the run's phases, and says what the host must do next.  Exactly one
//! event is processed per step, so the cache has a single writer by
//! construction.

use vstd::prelude::*;
use vstd::string::*;

use crate::cache::{
    dedup_keys, key_index, pair_keys, spec_aggregate, sum_prices, CacheMap, PricesPairs,
};
use crate::decode::{decode_frame, decode_post, has_error_envelope, DecodeOutcome};
use crate::errors::{ProtocolFault, WSError};
use crate::json::json_ok;
use crate::pairs::Pair;
use crate::types::RequestParamType;

verus! {

/// What one feed's stream produced in one turn, as the transport layer
/// saw it: a text frame, a non-text frame, a transport error, or the
/// end of the stream.
#[derive(Clone, Debug)]
pub enum StreamItem {
    Text(String),
    NonText,
    StreamError,
    Closed,
}

/// One inbound transport message, at the boundary where the host hands
/// frames over: either text or something else.
#[derive(Clone, Debug)]
pub enum SocketMessage {
    Text(String),
    Other,
}

/// Extract the text of one received message.  Anything but a text
/// frame, including a transport-level error, is fatal and names the
/// feed it came from.
pub fn message_parser(feed: &String, msg: Result<SocketMessage, String>) -> (r: Result<
    String,
    WSError,
>)
    ensures
        match msg {
            Ok(SocketMessage::Text(s)) => r == Ok::<String, WSError>(s),
            Ok(SocketMessage::Other) => (r matches Err(e) && e matches WSError::Transport {
                feed: f,
            } && f == feed),
            Err(_) => (r matches Err(e) && e matches WSError::Transport { feed: f } && f == feed),
        },
{
    match msg {
        Ok(SocketMessage::Text(s)) => Ok(s),
        Ok(SocketMessage::Other) => Err(WSError::Transport { feed: feed.clone() }),
        Err(_) => Err(WSError::Transport { feed: feed.clone() }),
    }
}

/// The run's phases, `Aborted` reachable from any of them.
#[derive(Clone, Copy, Debug, PartialEq, Eq, Structural)]
pub enum Phase {
    Connecting,
    Subscribing,
    Collecting,
    Finalizing,
    Done,
    Aborted,
}

/// One configured feed: its display name and its wire conventions.
#[derive(Clone, Debug)]
pub struct Feed {
    pub name: String,
    pub kind: RequestParamType,
}

/// What the host must do after handing the collector one event.
#[derive(Clone, Copy, Debug, PartialEq, Eq, Structural)]
pub enum StepOutcome {
    /// Keep multiplexing.
    Continue,
    /// Collection is over and the aggregates are computed: persist the
    /// snapshot, then report completion.
    Finished,
    /// The run is unrecoverable: stop, persist nothing.
    Aborted,
}

/// Every sample sum of the cache fits the fixed-point range.
pub open spec fn sums_fit(c: CacheMap) -> bool {
    forall|i: int|
        0 <= i < c.records().len() ==> sum_prices(#[trigger] c.records()[i].entry.prices@)
            <= u128::MAX
}

/// `post` is `pre` with every aggregate computed and nothing else
/// changed.
pub open spec fn finalized(pre: CacheMap, post: CacheMap) -> bool {
    &&& post.records().len() == pre.records().len()
    &&& forall|i: int|
        0 <= i < pre.records().len() ==> {
            &&& post.records()[i].key == (#[trigger] pre.records()[i]).key
            &&& post.records()[i].entry.prices@ == pre.records()[i].entry.prices@
            &&& post.records()[i].entry.aggregate == spec_aggregate(
                pre.records()[i].entry.prices@,
            )
        }
}

/// The state of one collection run.
#[derive(Clone, Debug)]
pub struct Collector {
    pub feeds: Vec<Feed>,
    pub cache: CacheMap,
    pub warmed: bool,
    pub phase: Phase,
    pub error: Option<WSError>,
}

/// How one decoded frame from feed `feed` moves the run from `pre` to
/// `post`: an ignorable frame changes nothing; a tick for a requested
/// key appends exactly one sample, named after the feed, to that key's
/// entry; a tick for an unrequested key is a data-integrity abort; a
/// protocol fault is an abort naming the feed.
pub open spec fn step_effect(
    pre: Collector,
    post: Collector,
    r: StepOutcome,
    feed: int,
    d: DecodeOutcome,
) -> bool {
    match d {
        DecodeOutcome::Ignorable => post == pre && r == StepOutcome::Continue,
        DecodeOutcome::Tick(t) => match key_index(pre.cache.spec_keys(), t.key@) {
            Some(i) => {
                &&& r == StepOutcome::Continue
                &&& post.phase == pre.phase
                &&& post.error == pre.error
                &&& post.cache.records().len() == pre.cache.records().len()
                &&& post.cache.records()[i].key == pre.cache.records()[i].key
                &&& post.cache.records()[i].entry.prices@ == pre.cache.records()[i].entry.prices@
                    .push(PricesPairs { name: pre.feeds@[feed].name, price: t.price })
                &&& post.cache.records()[i].entry.aggregate
                    == pre.cache.records()[i].entry.aggregate
                &&& forall|j: int|
                    0 <= j < pre.cache.records().len() && j != i ==> post.cache.records()[j]
                        == pre.cache.records()[j]
            },
            None => {
                &&& r == StepOutcome::Aborted
                &&& post.phase == Phase::Aborted
                &&& post.cache == pre.cache
                &&& match post.error {
                    Some(WSError::Integrity { feed: fname, key }) => fname == pre.feeds@[feed].name
                        && key == t.key,
                    _ => false,
                }
            },
        },
        DecodeOutcome::Fatal(fault) => {
            &&& r == StepOutcome::Aborted
            &&& post.phase == Phase::Aborted
            &&& post.cache == pre.cache
            &&& match post.error {
                Some(WSError::Protocol { feed: fname, fault: fl }) => fname
                    == pre.feeds@[feed].name && fl == fault,
                _ => false,
            }
        },
    }
}

/// The fatal path: while collecting, a parseable frame carrying its
/// feed's error envelope admits only one outcome under the decoder's
/// contract and the step relation — the run aborts, the cache is
/// untouched (so nothing can be finalized or persisted from it), and
/// the error names the originating feed with the envelope fault.
pub proof fn lemma_envelope_aborts(
    pre: Collector,
    post: Collector,
    r: StepOutcome,
    feed: int,
    d: DecodeOutcome,
    frame: Seq<char>,
)
    requires
        0 <= feed < pre.feeds@.len(),
        json_ok(frame),
        has_error_envelope(pre.feeds@[feed].kind, frame),
        decode_post(pre.feeds@[feed].kind, frame, d),
        step_effect(pre, post, r, feed, d),
    ensures
        r == StepOutcome::Aborted,
        post.phase == Phase::Aborted,
        post.cache == pre.cache,
        (match post.error {
            Some(WSError::Protocol { feed: fname, fault }) => fname == pre.feeds@[feed].name
                && fault == ProtocolFault::ErrorEnvelope,
            _ => false,
        }),
{
    assert(d == DecodeOutcome::Fatal(ProtocolFault::ErrorEnvelope));
}

impl Collector {
    pub open spec fn wf(self) -> bool {
        self.cache.wf()
    }

    /// A fresh run: the cache holds one empty entry per requested
    /// pair, and the first connection is yet to be made.
    pub fn new(feeds: Vec<Feed>, pairs: &Vec<Pair>) -> (c: Collector)
        ensures
            c.wf(),
            c.feeds == feeds,
            c.phase == Phase::Connecting,
            !c.warmed,
            c.error is None,
            c.cache.spec_keys() == dedup_keys(pair_keys(pairs@)),
            forall|i: int|
                0 <= i < c.cache.records().len() ==> (
                #[trigger] c.cache.records()[i]).entry.prices.len() == 0
                    && c.cache.records()[i].entry.aggregate is Pending,
    {
        Collector {
            feeds,
            cache: CacheMap::init(pairs),
            warmed: false,
            phase: Phase::Connecting,
            error: None,
        }
    }

    /// All connections are up: move on to subscribing.
    pub fn on_connected(&mut self)
        requires
            old(self).phase == Phase::Connecting,
        ensures
            *final(self) == (Collector { phase: Phase::Subscribing, ..*old(self) }),
    {
        self.phase = Phase::Subscribing;
    }

    /// A connection failed: the run is over before it began.
    pub fn on_connect_failure(&mut self, feed: String)
        requires
            old(self).phase == Phase::Connecting,
        ensures
            final(self).phase == Phase::Aborted,
            final(self).cache == old(self).cache,
            final(self).feeds == old(self).feeds,
            final(self).warmed == old(self).warmed,
            match final(self).error {
                Some(WSError::Transport { feed: f }) => f == feed,
                _ => false,
            },
    {
        self.phase = Phase::Aborted;
        self.error = Some(WSError::Transport { feed });
    }

    /// Every subscription was sent: start collecting.
    pub fn on_subscribed(&mut self)
        requires
            old(self).phase == Phase::Subscribing,
        ensures
            *final(self) == (Collector { phase: Phase::Collecting, ..*old(self) }),
    {
        self.phase = Phase::Collecting;
    }

    /// Sending a subscription failed: the run is over.
    pub fn on_send_failure(&mut self, feed: String)
        requires
            old(self).phase == Phase::Subscribing,
        ensures
            final(self).phase == Phase::Aborted,
            final(self).cache == old(self).cache,
            final(self).feeds == old(self).feeds,
            final(self).warmed == old(self).warmed,
            match final(self).error {
                Some(WSError::Transport { feed: f }) => f == feed,
                _ => false,
            },
    {
        self.phase = Phase::Aborted;
        self.error = Some(WSError::Transport { feed });
    }

    /// React to one item from feed `feed_idx` while collecting.  A text
    /// frame is decoded and takes effect as `step_effect` says; a
    /// non-text frame, a transport error, or a stream ending early all
    /// abort the run naming the feed.
    pub fn on_event(&mut self, feed_idx: usize, item: StreamItem) -> (r: StepOutcome)
        requires
            old(self).wf(),
            old(self).phase == Phase::Collecting,
            feed_idx < old(self).feeds.len(),
        ensures
            final(self).wf(),
            final(self).feeds == old(self).feeds,
            final(self).warmed == old(self).warmed,
            final(self).cache.spec_keys() == old(self).cache.spec_keys(),
            match item {
                StreamItem::Text(f) => exists|d: DecodeOutcome|
                    #[trigger] decode_post(old(self).feeds@[feed_idx as int].kind, f@, d)
                        && step_effect(*old(self), *final(self), r, feed_idx as int, d),
                _ => {
                    &&& r == StepOutcome::Aborted
                    &&& final(self).phase == Phase::Aborted
                    &&& final(self).cache == old(self).cache
                    &&& match final(self).error {
                        Some(WSError::Transport { feed: f }) => f == old(self).feeds@[feed_idx as int].name,
                        _ => false,
                    }
                },
            },
    {
        let kind = self.feeds[feed_idx].kind;
        let name = self.feeds[feed_idx].name.clone();
        match item {
            StreamItem::Text(f) => {
                let d = decode_frame(kind, f.as_str());
                let ghost gd = d;
                proof {
                    assert(decode_post(old(self).feeds@[feed_idx as int].kind, f@, gd));
                }
                match d {
                    DecodeOutcome::Ignorable => {
                        proof {
                            assert(step_effect(
                                *old(self),
                                *self,
                                StepOutcome::Continue,
                                feed_idx as int,
                                gd,
                            ));
                        }
                        StepOutcome::Continue
                    },
                    DecodeOutcome::Tick(t) => {
                        let recorded = self.cache.record(&t.key, name.clone(), t.price);
                        if recorded {
                            proof {
                                assert(step_effect(
                                    *old(self),
                                    *self,
                                    StepOutcome::Continue,
                                    feed_idx as int,
                                    gd,
                                ));
                            }
                            StepOutcome::Continue
                        } else {
                            self.phase = Phase::Aborted;
                            self.error = Some(WSError::Integrity { feed: name, key: t.key });
                            proof {
                                assert(step_effect(
                                    *old(self),
                                    *self,
                                    StepOutcome::Aborted,
                                    feed_idx as int,
                                    gd,
                                ));
                            }
                            StepOutcome::Aborted
                        }
                    },
                    DecodeOutcome::Fatal(fault) => {
                        self.phase = Phase::Aborted;
                        self.error = Some(WSError::Protocol { feed: name, fault });
                        proof {
                            assert(step_effect(
                                *old(self),
                                *self,
                                StepOutcome::Aborted,
                                feed_idx as int,
                                gd,
                            ));
                        }
                        StepOutcome::Aborted
                    },
                }
            },
            _ => {
                self.phase = Phase::Aborted;
                self.error = Some(WSError::Transport { feed: name });
                StepOutcome::Aborted
            },
        }
    }

    /// React to the repeating timer while collecting.  The first fire
    /// only arms the stop flag (the warm-up interval); the second ends
    /// collection and computes every aggregate.
    pub fn on_timer(&mut self) -> (r: StepOutcome)
        requires
            old(self).wf(),
            old(self).phase == Phase::Collecting,
        ensures
            final(self).wf(),
            final(self).feeds == old(self).feeds,
            !old(self).warmed ==> *final(self) == (Collector { warmed: true, ..*old(self) }) && r
                == StepOutcome::Continue,
            old(self).warmed && sums_fit(old(self).cache) ==> {
                &&& r == StepOutcome::Finished
                &&& final(self).phase == Phase::Finalizing
                &&& finalized(old(self).cache, final(self).cache)
                &&& final(self).error == old(self).error
            },
            old(self).warmed && !sums_fit(old(self).cache) ==> {
                &&& r == StepOutcome::Aborted
                &&& final(self).phase == Phase::Aborted
                &&& final(self).cache == old(self).cache
                &&& match final(self).error {
                    Some(e) => e is Overflow,
                    None => false,
                }
            },
    {
        if !self.warmed {
            self.warmed = true;
            StepOutcome::Continue
        } else {
            match self.cache.finalize() {
                Ok(_) => {
                    self.phase = Phase::Finalizing;
                    StepOutcome::Finished
                },
                Err(e) => {
                    self.phase = Phase::Aborted;
                    self.error = Some(e);
                    StepOutcome::Aborted
                },
            }
        }
    }

    /// The snapshot was handed to its store: the run is done.
    pub fn on_persisted(&mut self)
        requires
            old(self).phase == Phase::Finalizing,
        ensures
            *final(self) == (Collector { phase: Phase::Done, ..*old(self) }),
    {
        self.phase = Phase::Done;
    }
}

} // verus!
