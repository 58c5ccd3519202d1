//! The batching of the storage service's consumer: which messages it takes,
//! and when the data points it gathers are written.
use vstd::prelude::*;
use crate::common::models::{DataPoint, PointView, points_view};
use crate::common::text::str_eq;
use crate::storage::config::KafkaConfig;

verus! {

/// A batch is written as soon as it holds this many points.
pub const BATCH_LIMIT: usize = 100;

/// A non-empty batch is written when this many milliseconds have passed
/// since the last timed write.
pub const FLUSH_INTERVAL_MS: u64 = 5000;

/// What a consumed message is to the storage service.
#[derive(Clone, Copy, Debug, PartialEq, Eq, Structural)]
pub enum MessageKind {
    /// A data point to store (raw or processed data).
    DataPoint,
    /// A stream's metadata to create or update.
    StreamMetadata,
    /// Anything else, or a message without a payload.
    Ignored,
}

/// What happens to the consumer, as seen by its batching.
pub enum Arrival {
    /// A data point arrives.
    Point(PointView),
    /// No message came for a while; the clock reads this many milliseconds.
    Idle(u64),
    /// The consumer stops.
    Finish,
}

/// One step of the batching: the points written, if any, then the new batch
/// and the time of the last timed write. A point joins the batch, which is
/// written once it holds 100 points; when idle, a non-empty batch is written
/// if 5 seconds have passed since the last timed write; when stopping, what
/// is left is written.
pub open spec fn storage_step(batch: Seq<PointView>, last: u64, a: Arrival) -> (
    Option<Seq<PointView>>,
    Seq<PointView>,
    u64,
) {
    match a {
        Arrival::Point(p) => {
            let b = batch.push(p);
            if b.len() >= 100 {
                (Some(b), Seq::empty(), last)
            } else {
                (None, b, last)
            }
        },
        Arrival::Idle(now) => if batch.len() > 0 && now >= last && now - last >= 5000 {
            (Some(batch), Seq::empty(), now)
        } else {
            (None, batch, last)
        },
        Arrival::Finish => if batch.len() > 0 {
            (Some(batch), Seq::empty(), last)
        } else {
            (None, batch, last)
        },
    }
}

/// A run of the batching over `arrivals`: everything written, in order, then
/// the batch left and the time of the last timed write.
pub open spec fn storage_run(batch: Seq<PointView>, last: u64, arrivals: Seq<Arrival>) -> (
    Seq<PointView>,
    Seq<PointView>,
    u64,
)
    decreases arrivals.len(),
{
    if arrivals.len() == 0 {
        (Seq::empty(), batch, last)
    } else {
        let prev = storage_run(batch, last, arrivals.drop_last());
        let step = storage_step(prev.1, prev.2, arrivals.last());
        let written = match step.0 {
            Some(w) => prev.0 + w,
            None => prev.0,
        };
        (written, step.1, step.2)
    }
}

/// The points among `arrivals`, in order.
pub open spec fn arrived_points(arrivals: Seq<Arrival>) -> Seq<PointView>
    decreases arrivals.len(),
{
    if arrivals.len() == 0 {
        Seq::empty()
    } else {
        let prev = arrived_points(arrivals.drop_last());
        match arrivals.last() {
            Arrival::Point(p) => prev.push(p),
            _ => prev,
        }
    }
}

/// No data point is lost, duplicated or reordered by the batching: what has
/// been written, followed by the batch still held, is the batch held at the
/// start followed by every point that arrived.
pub proof fn lemma_batching_keeps_points(batch: Seq<PointView>, last: u64, arrivals: Seq<Arrival>)
    ensures
        storage_run(batch, last, arrivals).0 + storage_run(batch, last, arrivals).1 =~= batch
            + arrived_points(arrivals),
    decreases arrivals.len(),
{
    if arrivals.len() > 0 {
        lemma_batching_keeps_points(batch, last, arrivals.drop_last());
        let prev = storage_run(batch, last, arrivals.drop_last());
        match arrivals.last() {
            Arrival::Point(p) => {
                assert(prev.0 + prev.1.push(p) =~= (prev.0 + prev.1).push(p));
            },
            _ => {},
        }
    }
}

/// The batch never holds 100 points between steps: a batch that starts
/// below the limit stays below it.
pub proof fn lemma_batch_below_limit(batch: Seq<PointView>, last: u64, arrivals: Seq<Arrival>)
    requires
        batch.len() < 100,
    ensures
        storage_run(batch, last, arrivals).1.len() < 100,
    decreases arrivals.len(),
{
    if arrivals.len() > 0 {
        lemma_batch_below_limit(batch, last, arrivals.drop_last());
    }
}

/// Stopping writes everything that is left: after a run that ends with
/// `Finish`, no batch is held.
pub proof fn lemma_finish_drains(batch: Seq<PointView>, last: u64, arrivals: Seq<Arrival>)
    requires
        arrivals.len() > 0,
        arrivals.last() is Finish,
    ensures
        storage_run(batch, last, arrivals).1.len() == 0,
{
}

/// The storage service's consumer: its topics, the batch it gathers, when it
/// last wrote on a timer, and whether it runs.
#[derive(Debug)]
pub struct KafkaConsumer {
    /// Kafka configuration
    pub config: KafkaConfig,
    /// Points gathered and not yet written
    pub batch: Vec<DataPoint>,
    /// The clock reading (milliseconds) of the last timed write
    pub last_commit_ms: u64,
    /// Running flag
    pub running: bool,
}

impl KafkaConsumer {
    /// The consumer's batching state is sound: the batch is below the limit.
    pub open spec fn wf(&self) -> bool {
        self.batch.len() < 100
    }

    /// A consumer for `config` that is not running yet.
    pub fn new(config: KafkaConfig) -> (r: KafkaConsumer)
        ensures
            r.config == config,
            r.batch.len() == 0,
            !r.running,
            r.wf(),
    {
        KafkaConsumer { config, batch: Vec::new(), last_commit_ms: 0, running: false }
    }

    /// Start consuming at the clock reading `now_ms`: the consumer runs with
    /// an empty batch, its timer starting now.
    pub fn start(&mut self, now_ms: u64)
        ensures
            final(self).running,
            final(self).batch.len() == 0,
            final(self).last_commit_ms == now_ms,
            final(self).config == old(self).config,
            final(self).wf(),
    {
        self.running = true;
        self.batch = Vec::new();
        self.last_commit_ms = now_ms;
    }

    /// Stop the consumer.
    pub fn stop(&mut self)
        ensures
            !final(self).running,
            final(self).batch == old(self).batch,
            final(self).last_commit_ms == old(self).last_commit_ms,
            final(self).config == old(self).config,
    {
        self.running = false;
    }

    /// The topics to subscribe to: raw data, processed data and stream
    /// metadata, in that order.
    pub fn topics(&self) -> (r: Vec<String>)
        ensures
            r@.len() == 3,
            r@[0]@ == self.config.topics.raw_data@,
            r@[1]@ == self.config.topics.processed_data@,
            r@[2]@ == self.config.topics.stream_metadata@,
    {
        let mut topics: Vec<String> = Vec::new();
        topics.push(self.config.topics.raw_data.clone());
        topics.push(self.config.topics.processed_data.clone());
        topics.push(self.config.topics.stream_metadata.clone());
        topics
    }

    /// What a message from `topic` is: data from the raw or processed data
    /// topic, metadata from the stream metadata topic; a message without a
    /// payload is ignored.
    pub fn classify(&self, topic: &str, has_payload: bool) -> (r: MessageKind)
        ensures
            r == (if !has_payload {
                MessageKind::Ignored
            } else if topic@ == self.config.topics.raw_data@ || topic@ == self.config.topics.processed_data@ {
                MessageKind::DataPoint
            } else if topic@ == self.config.topics.stream_metadata@ {
                MessageKind::StreamMetadata
            } else {
                MessageKind::Ignored
            }),
    {
        if !has_payload {
            MessageKind::Ignored
        } else if str_eq(topic, self.config.topics.raw_data.as_str()) || str_eq(
            topic,
            self.config.topics.processed_data.as_str(),
        ) {
            MessageKind::DataPoint
        } else if str_eq(topic, self.config.topics.stream_metadata.as_str()) {
            MessageKind::StreamMetadata
        } else {
            MessageKind::Ignored
        }
    }

    /// Takes the batch, leaving it empty.
    fn take_batch(&mut self) -> (r: Vec<DataPoint>)
        ensures
            r@ == old(self).batch@,
            final(self).batch.len() == 0,
            final(self).config == old(self).config,
            final(self).last_commit_ms == old(self).last_commit_ms,
            final(self).running == old(self).running,
    {
        let mut taken: Vec<DataPoint> = Vec::new();
        std::mem::swap(&mut taken, &mut self.batch);
        taken
    }

    /// A data point arrives: it joins the batch, and the batch is returned
    /// for writing once it holds 100 points.
    pub fn add_point(&mut self, data_point: DataPoint) -> (r: Option<Vec<DataPoint>>)
        requires
            old(self).wf(),
        ensures
            final(self).wf(),
            final(self).config == old(self).config,
            final(self).running == old(self).running,
            ({
                let (written, rest, last) = storage_step(
                    points_view(old(self).batch@),
                    old(self).last_commit_ms,
                    Arrival::Point(data_point.view()),
                );
                &&& points_view(final(self).batch@) == rest
                &&& final(self).last_commit_ms == last
                &&& match r {
                    Some(w) => written == Some(points_view(w@)),
                    None => written is None,
                }
            }),
    {
        let ghost b = points_view(self.batch@);
        let ghost p = data_point.view();
        self.batch.push(data_point);
        assert(points_view(self.batch@) =~= b.push(p));
        if self.batch.len() >= BATCH_LIMIT {
            let w = self.take_batch();
            assert(points_view(self.batch@) =~= Seq::<PointView>::empty());
            Some(w)
        } else {
            None
        }
    }

    /// No message came for a while and the clock reads `now_ms`: a non-empty
    /// batch is returned for writing when 5 seconds have passed since the
    /// last timed write, which then happens now.
    pub fn on_idle(&mut self, now_ms: u64) -> (r: Option<Vec<DataPoint>>)
        requires
            old(self).wf(),
        ensures
            final(self).wf(),
            final(self).config == old(self).config,
            final(self).running == old(self).running,
            ({
                let (written, rest, last) = storage_step(
                    points_view(old(self).batch@),
                    old(self).last_commit_ms,
                    Arrival::Idle(now_ms),
                );
                &&& points_view(final(self).batch@) == rest
                &&& final(self).last_commit_ms == last
                &&& match r {
                    Some(w) => written == Some(points_view(w@)),
                    None => written is None,
                }
            }),
    {
        if self.batch.len() > 0 && now_ms >= self.last_commit_ms && now_ms - self.last_commit_ms
            >= FLUSH_INTERVAL_MS {
            let w = self.take_batch();
            self.last_commit_ms = now_ms;
            assert(points_view(self.batch@) =~= Seq::<PointView>::empty());
            Some(w)
        } else {
            None
        }
    }

    /// The consumer stops: what is left of the batch is returned for writing.
    pub fn finish(&mut self) -> (r: Option<Vec<DataPoint>>)
        requires
            old(self).wf(),
        ensures
            final(self).wf(),
            final(self).config == old(self).config,
            final(self).running == old(self).running,
            ({
                let (written, rest, last) = storage_step(
                    points_view(old(self).batch@),
                    old(self).last_commit_ms,
                    Arrival::Finish,
                );
                &&& points_view(final(self).batch@) == rest
                &&& final(self).last_commit_ms == last
                &&& match r {
                    Some(w) => written == Some(points_view(w@)),
                    None => written is None,
                }
            }),
    {
        if self.batch.len() > 0 {
            let w = self.take_batch();
            assert(points_view(self.batch@) =~= Seq::<PointView>::empty());
            Some(w)
        } else {
            None
        }
    }
}

} // verus!
