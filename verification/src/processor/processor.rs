//! The processing loop of the stream processor: points are gathered into
//! batches, and each batch goes through the registered pipelines.
use vstd::prelude::*;
use crate::common::error::Error;
use crate::common::models::{DataPoint, Pipeline, PointView, points_view};
use crate::processor::config::Config;
use crate::processor::numeric::{consistent, oracle, NumericAnswer, NumericQuery, QueryView};
use crate::processor::pipeline::{manager_batch_safe, manager_batch_some_time, PipelineManager};
use crate::common::models::Timestamp;
use crate::common::utils::representable;

verus! {

/// What the processing loop is told.
#[derive(Debug)]
pub enum LoopEvent {
    /// The processor is shutting down.
    Shutdown,
    /// The processing interval has elapsed.
    Tick,
    /// A data point arrived from the consumer.
    Received(DataPoint),
}

/// What the processing loop asks of its caller.
#[derive(Debug)]
pub enum LoopAction {
    /// Leave the loop.
    Stop,
    /// Publish these processed points to the processed-data topic.
    Publish(Vec<DataPoint>),
    /// Nothing to do until the next event.
    Wait,
}

/// Where a step of the loop leaves the batch, and the points it hands to the
/// pipelines, if any: a tick hands over a non-empty batch; a received point
/// joins the batch, which is handed over once it holds `batch_size` points.
pub open spec fn loop_step(batch: Seq<PointView>, batch_size: usize, event: LoopEvent) -> (
    Option<Seq<PointView>>,
    Seq<PointView>,
) {
    match event {
        LoopEvent::Shutdown => (None, batch),
        LoopEvent::Tick => if batch.len() > 0 {
            (Some(batch), Seq::empty())
        } else {
            (None, batch)
        },
        LoopEvent::Received(p) => {
            let b = batch.push(p.view());
            if b.len() >= batch_size {
                (Some(b), Seq::empty())
            } else {
                (None, b)
            }
        },
    }
}

/// The points an event brings to the loop.
pub open spec fn received(event: LoopEvent) -> Seq<PointView> {
    match event {
        LoopEvent::Received(p) => seq![p.view()],
        _ => Seq::empty(),
    }
}

/// No point is lost or reordered by a step of the loop: the points handed to
/// the pipelines, followed by the new batch, are the old batch followed by
/// the points the event brings.
pub proof fn lemma_loop_keeps_points(batch: Seq<PointView>, batch_size: usize, event: LoopEvent)
    ensures
        ({
            let (handed, rest) = loop_step(batch, batch_size, event);
            match handed {
                Some(h) => h + rest,
                None => rest,
            }
        }) =~= batch + received(event),
{
}

/// What a step of the loop on `event` does: the batch becomes what
/// `loop_step` leaves; with nothing handed over the pipelines stay as they
/// were and the loop stops on a shutdown and waits otherwise; a batch handed
/// over goes through the pipelines, and their output is published when it is
/// not empty.
pub open spec fn loop_handled(
    batch: Seq<PointView>,
    batch_size: usize,
    event: LoopEvent,
    batch2: Seq<PointView>,
    manager: PipelineManager,
    manager2: PipelineManager,
    ans: spec_fn(QueryView) -> NumericAnswer,
    r: LoopAction,
) -> bool {
    let (handed, rest) = loop_step(batch, batch_size, event);
    &&& batch2 == rest
    &&& match handed {
        None => manager2 == manager && if event is Shutdown {
            r is Stop
        } else {
            r is Wait
        },
        Some(h) => batch_handled(manager, h, ans, manager2, r),
    }
}

/// What handing the batch `h` to the pipelines of `manager` does: the
/// pipelines are kept, and their output is published when not empty.
pub open spec fn batch_handled(
    manager: PipelineManager,
    h: Seq<PointView>,
    ans: spec_fn(QueryView) -> NumericAnswer,
    manager2: PipelineManager,
    r: LoopAction,
) -> bool {
    &&& manager2.pipelines.len() == manager.pipelines.len()
    &&& match r {
        LoopAction::Publish(out) => out.len() > 0 && manager_batch_some_time(
            manager.pipelines@,
            h,
            ans,
            manager2.pipelines@,
            points_view(out@),
        ),
        LoopAction::Wait => manager_batch_some_time(manager.pipelines@, h, ans, manager2.pipelines@, Seq::empty()),
        LoopAction::Stop => false,
    }
}

/// Whether a step of the loop on `event` hands the pipelines no batch that
/// would reach a zero-second aggregation, whatever the clock reads.
pub open spec fn loop_step_safe(
    batch: Seq<PointView>,
    batch_size: usize,
    event: LoopEvent,
    manager: PipelineManager,
    ans: spec_fn(QueryView) -> NumericAnswer,
) -> bool {
    match loop_step(batch, batch_size, event).0 {
        Some(h) => forall|t: Timestamp|
            representable(t) ==> #[trigger] manager_batch_safe(manager.pipelines@, h, t, ans),
        None => true,
    }
}

/// A step of the loop is safe for pipelines without zero-second
/// aggregations.
pub proof fn lemma_ready_loop_step_safe(
    batch: Seq<PointView>,
    batch_size: usize,
    event: LoopEvent,
    manager: PipelineManager,
    ans: spec_fn(QueryView) -> NumericAnswer,
)
    requires
        manager.ready(),
    ensures
        loop_step_safe(batch, batch_size, event, manager, ans),
{
    if let Some(h) = loop_step(batch, batch_size, event).0 {
        assert forall|t: Timestamp| representable(t) implies #[trigger] manager_batch_safe(
            manager.pipelines@,
            h,
            t,
            ans,
        ) by {
            manager.lemma_ready_is_safe(h, t, ans);
        }
    }
}

/// Stream processor: the pipelines, the batch being gathered, and whether
/// the processing loop has been started.
pub struct StreamProcessor {
    /// Configuration
    pub config: Config,
    /// Pipeline manager
    pub pipeline_manager: PipelineManager,
    /// Points gathered since the last batch was processed
    pub batch: Vec<DataPoint>,
    /// Whether the processing loop has been started
    pub started: bool,
}

impl StreamProcessor {
    /// Create a new stream processor with no pipelines.
    pub fn new(config: Config) -> (r: StreamProcessor)
        ensures
            r.config == config,
            r.pipeline_manager.pipelines.len() == 0,
            r.batch.len() == 0,
            !r.started,
    {
        StreamProcessor { config, pipeline_manager: PipelineManager::new(), batch: Vec::new(), started: false }
    }

    /// Register a pipeline with the pipeline manager.
    pub fn register_pipeline(&mut self, pipeline: Pipeline) -> (r: Result<(), Error>)
        ensures
            r is Ok,
            final(self).config == old(self).config,
            final(self).batch == old(self).batch,
            final(self).started == old(self).started,
            final(self).pipeline_manager.pipelines.len() == old(self).pipeline_manager.pipelines.len() + 1,
            forall|j: int|
                0 <= j < old(self).pipeline_manager.pipelines.len() ==> #[trigger] final(self).pipeline_manager.pipelines[j]
                    == old(self).pipeline_manager.pipelines[j],
            final(self).pipeline_manager.pipelines@.last().pipeline == pipeline,
    {
        self.pipeline_manager.register_pipeline(pipeline)
    }

    /// Start the processor: the processing loop can be started only once.
    pub fn start(&mut self) -> (r: Result<(), Error>)
        ensures
            final(self).started,
            final(self).config == old(self).config,
            final(self).batch == old(self).batch,
            final(self).pipeline_manager == old(self).pipeline_manager,
            old(self).started ==> (r matches Err(Error::Unexpected(m)) && m@ == "Shutdown receiver already taken"@),
            !old(self).started ==> r is Ok,
    {
        if self.started {
            return Err(Error::Unexpected("Shutdown receiver already taken".to_owned()));
        }
        self.started = true;
        Ok(())
    }

    /// Whether a step on `event` hands the gathered batch to the pipelines.
    pub fn hands_batch(&self, event: &LoopEvent) -> (r: bool)
        ensures
            r == loop_step(points_view(self.batch@), self.config.processing.batch_size, *event).0 is Some,
    {
        match event {
            LoopEvent::Shutdown => false,
            LoopEvent::Tick => self.batch.len() > 0,
            LoopEvent::Received(_) => self.batch.len() >= self.config.processing.batch_size
                || self.batch.len() + 1 >= self.config.processing.batch_size,
        }
    }

    /// One step of the processing loop. A batch handed to the pipelines
    /// gives the points to publish when there are any; a failure leaves
    /// nothing to publish.
    pub fn handle<F: Fn(NumericQuery) -> NumericAnswer>(&mut self, event: LoopEvent, eval: &F) -> (r: LoopAction)
        requires
            consistent(*eval),
            loop_step_safe(
                points_view(old(self).batch@),
                old(self).config.processing.batch_size,
                event,
                old(self).pipeline_manager,
                oracle(*eval),
            ),
        ensures
            final(self).pipeline_manager.ready() == old(self).pipeline_manager.ready(),
            final(self).config == old(self).config,
            final(self).started == old(self).started,
            loop_handled(
                points_view(old(self).batch@),
                old(self).config.processing.batch_size,
                event,
                points_view(final(self).batch@),
                old(self).pipeline_manager,
                final(self).pipeline_manager,
                oracle(*eval),
                r,
            ),
    {
        match event {
            LoopEvent::Shutdown => {
                LoopAction::Stop
            },
            LoopEvent::Tick => {
                if self.batch.len() > 0 {
                    assert(loop_step(points_view(self.batch@), self.config.processing.batch_size, event).0
                        == Some(points_view(self.batch@)));
                    assert forall|t: Timestamp| representable(t) implies #[trigger] manager_batch_safe(
                        self.pipeline_manager.pipelines@,
                        points_view(self.batch@),
                        t,
                        oracle(*eval),
                    ) by {
                        let st = loop_step(
                            points_view(old(self).batch@),
                            old(self).config.processing.batch_size,
                            event,
                        );
                        assert(st.0 == Some(points_view(self.batch@)));
                        assert(loop_step_safe(
                            points_view(old(self).batch@),
                            old(self).config.processing.batch_size,
                            event,
                            old(self).pipeline_manager,
                            oracle(*eval),
                        ));
                        assert(manager_batch_safe(old(self).pipeline_manager.pipelines@, st.0->Some_0, t, oracle(*eval)));
                        assert(old(self).pipeline_manager == self.pipeline_manager);
                    }
                    let r = self.process_pending(eval);
                    assert(points_view(self.batch@) =~= Seq::<PointView>::empty());
                    r
                } else {
                    LoopAction::Wait
                }
            },
            LoopEvent::Received(data_point) => {
                let ghost b = points_view(self.batch@);
                let ghost p = data_point.view();
                self.batch.push(data_point);
                assert(points_view(self.batch@) =~= b.push(p));
                if self.batch.len() >= self.config.processing.batch_size {
                    assert(loop_step(b, self.config.processing.batch_size, event).0 == Some(points_view(self.batch@)));
                    assert forall|t: Timestamp| representable(t) implies #[trigger] manager_batch_safe(
                        self.pipeline_manager.pipelines@,
                        points_view(self.batch@),
                        t,
                        oracle(*eval),
                    ) by {
                        let st = loop_step(
                            points_view(old(self).batch@),
                            old(self).config.processing.batch_size,
                            event,
                        );
                        assert(st.0 == Some(points_view(self.batch@)));
                        assert(loop_step_safe(
                            points_view(old(self).batch@),
                            old(self).config.processing.batch_size,
                            event,
                            old(self).pipeline_manager,
                            oracle(*eval),
                        ));
                        assert(manager_batch_safe(old(self).pipeline_manager.pipelines@, st.0->Some_0, t, oracle(*eval)));
                        assert(old(self).pipeline_manager == self.pipeline_manager);
                    }
                    let r = self.process_pending(eval);
                    assert(points_view(self.batch@) =~= Seq::<PointView>::empty());
                    r
                } else {
                    LoopAction::Wait
                }
            },
        }
    }

    /// Hands the gathered batch to the pipelines and empties it.
    fn process_pending<F: Fn(NumericQuery) -> NumericAnswer>(&mut self, eval: &F) -> (r: LoopAction)
        requires
            consistent(*eval),
            forall|t: Timestamp|
                representable(t) ==> #[trigger] manager_batch_safe(
                    old(self).pipeline_manager.pipelines@,
                    points_view(old(self).batch@),
                    t,
                    oracle(*eval),
                ),
        ensures
            final(self).pipeline_manager.ready() == old(self).pipeline_manager.ready(),
            final(self).config == old(self).config,
            final(self).started == old(self).started,
            final(self).batch.len() == 0,
            final(self).pipeline_manager.pipelines.len() == old(self).pipeline_manager.pipelines.len(),
            batch_handled(
                old(self).pipeline_manager,
                points_view(old(self).batch@),
                oracle(*eval),
                final(self).pipeline_manager,
                r,
            ),
    {
        let mut points: Vec<DataPoint> = Vec::new();
        std::mem::swap(&mut points, &mut self.batch);
        let ghost pv = points_view(points@);
        let ghost before = self.pipeline_manager.pipelines@;
        match self.pipeline_manager.process_batch(points, eval) {
            Ok(processed) => {
                if processed.len() > 0 {
                    LoopAction::Publish(processed)
                } else {
                    assert(points_view(processed@) =~= Seq::<PointView>::empty());
                    LoopAction::Wait
                }
            },
            Err(_) => LoopAction::Wait,
        }
    }
}

} // verus!
