//! Pipelines: a source stream, a sequence of operations, an optional
//! destination stream.
use vstd::prelude::*;
use crate::common::error::Error;
use crate::common::models::{DataPoint, Pipeline, PointView, Timestamp, operations_view, points_view};
use crate::common::utils::{current_timestamp, representable, rfc3339_text};
use crate::processor::numeric::{consistent, oracle, NumericAnswer, NumericQuery, QueryView};
use crate::processor::operations::{map_single, op_batch, op_single, OpState, OperationFactory, StreamOperation};

verus! {

/// The views of a sequence of operations with their state.
pub open spec fn ops_view(ops: Seq<StreamOperation>) -> Seq<OpState> {
    ops.map_values(|o: StreamOperation| o.view())
}

/// What the operations make of `points` one point at a time, in order; once
/// no point is left, the remaining operations see nothing.
pub open spec fn chain_single(
    ops: Seq<OpState>,
    points: Seq<PointView>,
    detected_at: Seq<char>,
    ans: spec_fn(QueryView) -> NumericAnswer,
) -> Seq<PointView>
    decreases ops.len(),
{
    if ops.len() == 0 || points.len() == 0 {
        points
    } else {
        chain_single(ops.drop_first(), map_single(ops[0], points, detected_at, ans), detected_at, ans)
    }
}

/// What the operations make of a batch at `now`, each taking the batch the
/// one before yields, the `i`-th taking fresh identifiers `ids[i]`: the
/// operations' new states and the resulting points. Once no point is left,
/// the remaining operations are not run.
pub open spec fn chain_batch(
    ops: Seq<OpState>,
    points: Seq<PointView>,
    now: Timestamp,
    ans: spec_fn(QueryView) -> NumericAnswer,
    ids: Seq<Seq<u128>>,
) -> (Seq<OpState>, Seq<PointView>)
    decreases ops.len(),
{
    if ops.len() == 0 || points.len() == 0 {
        (ops, points)
    } else {
        let first = op_batch(ops[0], points, now, ans, ids[0]);
        let rest = chain_batch(ops.drop_first(), first.1, now, ans, ids.drop_first());
        (seq![first.0] + rest.0, rest.1)
    }
}

/// The points of `points` that belong to stream `stream_id`, in order.
pub open spec fn from_stream(points: Seq<PointView>, stream_id: u128) -> Seq<PointView>
    decreases points.len(),
{
    if points.len() == 0 {
        points
    } else {
        let prev = from_stream(points.drop_last(), stream_id);
        if points.last().stream_id == stream_id {
            prev.push(points.last())
        } else {
            prev
        }
    }
}

/// Keeping the points of a stream twice keeps the same points.
pub proof fn lemma_from_stream_twice(points: Seq<PointView>, stream_id: u128)
    ensures
        from_stream(from_stream(points, stream_id), stream_id) == from_stream(points, stream_id),
    decreases points.len(),
{
    if points.len() > 0 {
        lemma_from_stream_twice(points.drop_last(), stream_id);
        let prev = from_stream(points.drop_last(), stream_id);
        if points.last().stream_id == stream_id {
            assert(prev.push(points.last()).drop_last() =~= prev);
        }
    }
}

/// The points moved to the destination stream, when there is one.
pub open spec fn retarget(points: Seq<PointView>, destination: Option<u128>) -> Seq<PointView> {
    match destination {
        Some(d) => points.map_values(|p: PointView| PointView { stream_id: d, ..p }),
        None => points,
    }
}

/// A pipeline with a destination moves every point it yields there, and
/// keeps their number.
pub proof fn lemma_retarget_moves_all(points: Seq<PointView>, destination: u128)
    ensures
        retarget(points, Some(destination)).len() == points.len(),
        forall|i: int|
            0 <= i < points.len() ==> #[trigger] retarget(points, Some(destination))[i] == (PointView {
                stream_id: destination,
                ..points[i]
            }),
{
}

/// Moves every point to the destination stream, when there is one.
pub fn retarget_points(points: Vec<DataPoint>, destination: Option<u128>) -> (r: Vec<DataPoint>)
    ensures
        points_view(r@) == retarget(points_view(points@), destination),
{
    match destination {
        None => points,
        Some(d) => {
            let ghost pv = points_view(points@);
            let mut rest = points;
            let mut out: Vec<DataPoint> = Vec::new();
            let n = rest.len();
            let mut i: usize = 0;
            assert(pv.skip(0) =~= pv);
            while i < n
                invariant
                    n == pv.len(),
                    i <= n,
                    rest.len() == n - i,
                    points_view(rest@) == pv.skip(i as int),
                    points_view(out@) == retarget(pv.take(i as int), Some(d)),
                decreases n - i,
            {
                let ghost before = rest@;
                let p = rest.remove(0);
                assert(points_view(before)[0] == p.view());
                assert(forall|j: int| 0 <= j < rest.len() ==> rest@[j] == before[j + 1]);
                assert(forall|j: int|
                    0 <= j < rest.len() ==> points_view(rest@)[j] == points_view(before)[j + 1]);
                assert(points_view(rest@) =~= pv.skip(i + 1));
                let ghost ob = points_view(out@);
                let ghost pview = p.view();
                out.push(
                    DataPoint { stream_id: d, id: p.id, timestamp: p.timestamp, payload: p.payload },
                );
                assert(points_view(out@) =~= ob.push(PointView { stream_id: d, ..pview }));
                assert(pv.take(i + 1)[i as int] == pview);
                assert(retarget(pv.take(i + 1), Some(d)) =~= retarget(pv.take(i as int), Some(d)).push(
                    PointView { stream_id: d, ..pview },
                ));
                i = i + 1;
            }
            assert(pv.take(n as int) =~= pv);
            out
        },
    }
}

/// Keeps the points that belong to stream `stream_id`, in order.
pub fn keep_stream(points: Vec<DataPoint>, stream_id: u128) -> (r: Vec<DataPoint>)
    ensures
        points_view(r@) == from_stream(points_view(points@), stream_id),
{
    let ghost pv = points_view(points@);
    let mut rest = points;
    let mut out: Vec<DataPoint> = Vec::new();
    let n = rest.len();
    let mut i: usize = 0;
    assert(pv.skip(0) =~= pv);
    assert(pv.take(0) =~= Seq::<PointView>::empty());
    assert(points_view(out@) =~= Seq::<PointView>::empty());
    while i < n
        invariant
            n == pv.len(),
            i <= n,
            rest.len() == n - i,
            points_view(rest@) == pv.skip(i as int),
            points_view(out@) == from_stream(pv.take(i as int), stream_id),
        decreases n - i,
    {
        let ghost before = rest@;
        let p = rest.remove(0);
        assert(points_view(before)[0] == p.view());
        assert(forall|j: int| 0 <= j < rest.len() ==> rest@[j] == before[j + 1]);
        assert(forall|j: int|
            0 <= j < rest.len() ==> points_view(rest@)[j] == points_view(before)[j + 1]);
        assert(points_view(rest@) =~= pv.skip(i + 1));
        assert(pv.take(i + 1).drop_last() =~= pv.take(i as int));
        assert(pv.take(i + 1).last() == p.view());
        let ghost ob = points_view(out@);
        let ghost pview = p.view();
        if p.stream_id == stream_id {
            out.push(p);
            assert(points_view(out@) =~= ob.push(pview));
        }
        i = i + 1;
    }
    assert(pv.take(n as int) =~= pv);
    out
}


/// Whether `op` aggregates over windows of zero seconds, which cannot take a
/// point (its window key divides by the window size).
pub open spec fn zero_window(op: OpState) -> bool {
    op matches OpState::Aggregate { settings, .. } && settings.window_seconds == 0
}

/// Whether, as the chain runs on `points` at `now`, the `i`-th operation
/// taking fresh identifiers `ids[i]`, no point reaches a zero-second
/// aggregation.
pub open spec fn chain_safe(
    ops: Seq<OpState>,
    points: Seq<PointView>,
    now: Timestamp,
    ans: spec_fn(QueryView) -> NumericAnswer,
    ids: Seq<Seq<u128>>,
) -> bool
    decreases ops.len(),
{
    if ops.len() == 0 || points.len() == 0 {
        true
    } else {
        !zero_window(ops[0]) && chain_safe(
            ops.drop_first(),
            op_batch(ops[0], points, now, ans, ids[0]).1,
            now,
            ans,
            ids.drop_first(),
        )
    }
}

/// Whether no point reaches a zero-second aggregation, whatever fresh
/// identifiers the aggregations take (which points flow does not depend on
/// them).
pub open spec fn chain_never_faults(
    ops: Seq<OpState>,
    points: Seq<PointView>,
    now: Timestamp,
    ans: spec_fn(QueryView) -> NumericAnswer,
) -> bool {
    forall|ids: Seq<Seq<u128>>| #[trigger] chain_safe(ops, points, now, ans, ids)
}

/// A chain without zero-second aggregations never faults.
pub proof fn lemma_no_zero_window_never_faults(
    ops: Seq<OpState>,
    points: Seq<PointView>,
    now: Timestamp,
    ans: spec_fn(QueryView) -> NumericAnswer,
    ids: Seq<Seq<u128>>,
)
    requires
        forall|i: int| 0 <= i < ops.len() ==> !zero_window(#[trigger] ops[i]),
    ensures
        chain_safe(ops, points, now, ans, ids),
    decreases ops.len(),
{
    if ops.len() > 0 && points.len() > 0 {
        assert(!zero_window(ops[0]));
        assert forall|i: int| 0 <= i < ops.drop_first().len() implies !zero_window(#[trigger] ops.drop_first()[i]) by {
            assert(ops.drop_first()[i] == ops[i + 1]);
        }
        lemma_no_zero_window_never_faults(
            ops.drop_first(),
            op_batch(ops[0], points, now, ans, ids[0]).1,
            now,
            ans,
            ids.drop_first(),
        );
    }
}

/// Runs the operations from index `i` on, each on the batch the one before
/// yields, stopping once no point is left.
fn run_ops<F: Fn(NumericQuery) -> NumericAnswer>(
    ops: &mut Vec<StreamOperation>,
    i: usize,
    points: Vec<DataPoint>,
    now: Timestamp,
    eval: &F,
) -> (r: Vec<DataPoint>)
    requires
        i <= old(ops).len(),
        consistent(*eval),
        representable(now),
        chain_never_faults(ops_view(old(ops)@).skip(i as int), points_view(points@), now, oracle(*eval)),
    ensures
        final(ops).len() == old(ops).len(),
        forall|j: int| 0 <= j < i ==> #[trigger] final(ops)[j] == old(ops)[j],
        forall|j: int|
            0 <= j < final(ops).len() ==> #[trigger] final(ops)[j].batch_ready() == old(ops)[j].batch_ready(),
        exists|ids: Seq<Seq<u128>>|
            #[trigger] chain_batch(
                ops_view(old(ops)@).skip(i as int),
                points_view(points@),
                now,
                oracle(*eval),
                ids,
            ) == (ops_view(final(ops)@).skip(i as int), points_view(r@)),
    decreases old(ops).len() - i,
{
    let ghost pv = points_view(points@);
    let ghost ov = ops_view(ops@);
    if i == ops.len() || points.len() == 0 {
        proof {
            let ids = Seq::<Seq<u128>>::empty();
            assert(chain_batch(ov.skip(i as int), pv, now, oracle(*eval), ids) == (
                ov.skip(i as int),
                pv,
            ));
        }
        return points;
    }
    proof {
        let some_ids = Seq::<Seq<u128>>::empty();
        assert(chain_safe(ov.skip(i as int), pv, now, oracle(*eval), some_ids));
        assert(ov.skip(i as int)[0] == ov[i as int]);
        assert(ov[i as int] == ops@[i as int].view());
    }
    let mut op = ops.remove(i);
    let ghost op_before = op.view();
    assert(op_before == ov[i as int]);
    let out = op.process_batch_at(points, now, eval);
    let out = match out {
        Ok(v) => v,
        Err(_) => Vec::new(),
    };
    let ghost op_after = op.view();
    let ghost ids0 = choose|ids: Seq<u128>|
        #[trigger] op_batch(op_before, pv, now, oracle(*eval), ids) == (op_after, points_view(out@));
    ops.insert(i, op);
    let ghost mid = ops@;
    assert(forall|j: int| 0 <= j < mid.len() && j != i ==> mid[j] == old(ops)[j]);
    proof {
        assert(ov.skip(i as int).drop_first() =~= ops_view(mid).skip(i + 1));
        assert(ov.skip(i as int)[0] == op_before);
        assert forall|ids2: Seq<Seq<u128>>|
            #[trigger] chain_safe(ops_view(mid).skip(i + 1), points_view(out@), now, oracle(*eval), ids2) by {
            let ids = seq![ids0] + ids2;
            assert(ids.drop_first() =~= ids2);
            assert(ids[0] == ids0);
            assert(chain_safe(ov.skip(i as int), pv, now, oracle(*eval), ids));
        }
    }
    let res = run_ops(ops, i + 1, out, now, eval);
    proof {
        let rest_ids = choose|ids: Seq<Seq<u128>>|
            #[trigger] chain_batch(
                ops_view(mid).skip(i + 1),
                points_view(out@),
                now,
                oracle(*eval),
                ids,
            ) == (ops_view(ops@).skip(i + 1), points_view(res@));
        let ids = seq![ids0] + rest_ids;
        assert(ids.drop_first() =~= rest_ids);
        assert(ov.skip(i as int).drop_first() =~= ops_view(mid).skip(i + 1));
        assert(ov.skip(i as int)[0] == op_before);
        assert(ops@[i as int] == mid[i as int]);
        assert(ops_view(ops@).skip(i as int) =~= seq![op_after] + ops_view(ops@).skip(i + 1));
        assert(chain_batch(ov.skip(i as int), pv, now, oracle(*eval), ids) == (
            ops_view(ops@).skip(i as int),
            points_view(res@),
        ));
    }
    res
}

/// Executes a processing pipeline on data points.
pub struct PipelineExecutor {
    /// The pipeline configuration
    pub pipeline: Pipeline,
    /// The operations to apply in sequence
    pub operations: Vec<StreamOperation>,
}

impl PipelineExecutor {
    /// The operations of this executor, with their state.
    pub open spec fn ops(&self) -> Seq<OpState> {
        ops_view(self.operations@)
    }

    /// Whether a batch can pass every operation (every aggregation has a
    /// window of at least one second).
    pub open spec fn ready(&self) -> bool {
        forall|j: int| 0 <= j < self.operations.len() ==> #[trigger] self.operations[j].batch_ready()
    }

    /// Create a new pipeline executor: one operation per configured operation,
    /// in order, aggregations producing points for the source stream.
    pub fn new(pipeline: Pipeline) -> (r: Result<PipelineExecutor, Error>)
        ensures
            r matches Ok(e) && e.pipeline == pipeline && e.operations.len()
                == pipeline.operations.len() && forall|j: int|
                0 <= j < e.operations.len() ==> #[trigger] e.operations[j].built_from(
                    pipeline.operations[j].view(),
                    pipeline.source_stream_id,
                ),
    {
        let mut operations: Vec<StreamOperation> = Vec::new();
        let mut i: usize = 0;
        while i < pipeline.operations.len()
            invariant
                i <= pipeline.operations.len(),
                operations.len() == i,
                forall|j: int|
                    0 <= j < i ==> #[trigger] operations[j].built_from(
                        pipeline.operations[j].view(),
                        pipeline.source_stream_id,
                    ),
            decreases pipeline.operations.len() - i,
        {
            let op = match OperationFactory::create(
                pipeline.operations[i].duplicate(),
                pipeline.source_stream_id,
            ) {
                Ok(op) => op,
                Err(e) => {
                    return Err(e);
                },
            };
            operations.push(op);
            i = i + 1;
        }
        Ok(PipelineExecutor { pipeline, operations })
    }

    /// What the pipeline makes of a single point: nothing for a point of
    /// another stream; otherwise the points the operations make of it, moved
    /// to the destination stream when there is one.
    pub open spec fn single_result(
        &self,
        p: PointView,
        detected_at: Seq<char>,
        ans: spec_fn(QueryView) -> NumericAnswer,
    ) -> Seq<PointView> {
        if p.stream_id != self.pipeline.source_stream_id {
            Seq::empty()
        } else {
            retarget(
                chain_single(self.ops(), seq![p], detected_at, ans),
                self.pipeline.destination_stream_id,
            )
        }
    }

    /// Process a single data point through the pipeline at the instant `now`.
    pub fn process_at<F: Fn(NumericQuery) -> NumericAnswer>(
        &self,
        data_point: DataPoint,
        now: Timestamp,
        eval: &F,
    ) -> (r: Result<Vec<DataPoint>, Error>)
        requires
            consistent(*eval),
            representable(now),
        ensures
            r matches Ok(out) && points_view(out@) == self.single_result(
                data_point.view(),
                rfc3339_text(now.secs, now.nanos),
                oracle(*eval),
            ),
    {
        if data_point.stream_id != self.pipeline.source_stream_id {
            return Ok(Vec::new());
        }
        let ghost text = rfc3339_text(now.secs, now.nanos);
        let ghost ops = self.ops();
        let ghost p0 = data_point.view();
        let mut current: Vec<DataPoint> = Vec::new();
        current.push(data_point);
        assert(points_view(current@) =~= seq![p0]);
        let mut i: usize = 0;
        assert(ops.skip(0) =~= ops);
        while i < self.operations.len() && current.len() > 0
            invariant
                i <= self.operations.len(),
                ops == self.ops(),
                consistent(*eval),
                representable(now),
                text == rfc3339_text(now.secs, now.nanos),
                chain_single(ops, seq![p0], text, oracle(*eval)) == chain_single(
                    ops.skip(i as int),
                    points_view(current@),
                    text,
                    oracle(*eval),
                ),
            decreases self.operations.len() - i,
        {
            assert(ops.skip(i as int)[0] == self.operations[i as int].view());
            assert(ops.skip(i as int).drop_first() =~= ops.skip(i + 1));
            let next = match self.operations[i].process_each(current, now, eval) {
                Ok(v) => v,
                Err(_) => Vec::new(),
            };
            current = next;
            i = i + 1;
        }
        proof {
            if current.len() > 0 {
                assert(ops.skip(i as int) =~= Seq::<OpState>::empty());
            }
        }
        Ok(retarget_points(current, self.pipeline.destination_stream_id))
    }

    /// Process a single data point through the pipeline at the current time.
    pub fn process<F: Fn(NumericQuery) -> NumericAnswer>(&self, data_point: DataPoint, eval: &F) -> (r:
        Result<Vec<DataPoint>, Error>)
        requires
            consistent(*eval),
        ensures
            r matches Ok(out) && exists|t: Timestamp|
                representable(t) && points_view(out@) == self.single_result(
                    data_point.view(),
                    #[trigger] rfc3339_text(t.secs, t.nanos),
                    oracle(*eval),
                ),
    {
        let now = current_timestamp();
        self.process_at(data_point, now, eval)
    }

    /// What the pipeline does with a batch at `now`, its operations taking
    /// fresh identifiers `ids`: the points of the source stream pass the
    /// operations in turn, and the result moves to the destination stream
    /// when there is one.
    pub open spec fn batch_result(
        &self,
        points: Seq<PointView>,
        now: Timestamp,
        ans: spec_fn(QueryView) -> NumericAnswer,
        ids: Seq<Seq<u128>>,
    ) -> (Seq<OpState>, Seq<PointView>) {
        let step = chain_batch(
            self.ops(),
            from_stream(points, self.pipeline.source_stream_id),
            now,
            ans,
            ids,
        );
        (step.0, retarget(step.1, self.pipeline.destination_stream_id))
    }

    /// Whether a batch at `now` reaches no zero-second aggregation of this
    /// pipeline (such an aggregation cannot take a point).
    pub open spec fn batch_safe(
        &self,
        points: Seq<PointView>,
        now: Timestamp,
        ans: spec_fn(QueryView) -> NumericAnswer,
    ) -> bool {
        chain_never_faults(self.ops(), from_stream(points, self.pipeline.source_stream_id), now, ans)
    }

    /// A pipeline without zero-second aggregations takes every batch.
    pub proof fn lemma_ready_is_safe(
        &self,
        points: Seq<PointView>,
        now: Timestamp,
        ans: spec_fn(QueryView) -> NumericAnswer,
    )
        requires
            self.ready(),
        ensures
            self.batch_safe(points, now, ans),
    {
        assert forall|i: int| 0 <= i < self.ops().len() implies !zero_window(#[trigger] self.ops()[i]) by {
            assert(self.operations[i].batch_ready());
        }
        assert forall|ids: Seq<Seq<u128>>|
            #[trigger] chain_safe(
                self.ops(),
                from_stream(points, self.pipeline.source_stream_id),
                now,
                ans,
                ids,
            ) by {
            lemma_no_zero_window_never_faults(
                self.ops(),
                from_stream(points, self.pipeline.source_stream_id),
                now,
                ans,
                ids,
            );
        }
    }

    /// Process a batch of data points through the pipeline at the instant `now`.
    pub fn process_batch_at<F: Fn(NumericQuery) -> NumericAnswer>(
        &mut self,
        data_points: Vec<DataPoint>,
        now: Timestamp,
        eval: &F,
    ) -> (r: Result<Vec<DataPoint>, Error>)
        requires
            consistent(*eval),
            representable(now),
            old(self).batch_safe(points_view(data_points@), now, oracle(*eval)),
        ensures
            final(self).ready() == old(self).ready(),
            final(self).pipeline == old(self).pipeline,
            r matches Ok(out) && exists|ids: Seq<Seq<u128>>|
                #[trigger] old(self).batch_result(points_view(data_points@), now, oracle(*eval), ids)
                    == (final(self).ops(), points_view(out@)),
            stateless(old(self).ops()) ==> (r matches Ok(out) && final(self).ops() == old(self).ops()
                && points_view(out@) == old(self).one_by_one(
                points_view(data_points@),
                rfc3339_text(now.secs, now.nanos),
                oracle(*eval),
            )),
    {
        let ghost pv = points_view(data_points@);
        let ghost before = *self;
        if data_points.len() == 0 {
            proof {
                let ids = Seq::<Seq<u128>>::empty();
                assert(from_stream(pv, self.pipeline.source_stream_id) =~= Seq::<PointView>::empty());
                assert(before.batch_result(pv, now, oracle(*eval), ids) == (self.ops(), pv));
                if stateless(before.ops()) {
                    before.lemma_batch_is_one_by_one(pv, now, oracle(*eval), ids);
                }
            }
            return Ok(Vec::new());
        }
        let current = keep_stream(data_points, self.pipeline.source_stream_id);
        let ghost cv = points_view(current@);
        proof {
            assert(ops_view(self.operations@).skip(0) =~= self.ops());
        }
        let out = run_ops(&mut self.operations, 0, current, now, eval);
        proof {
            assert(self.operations.len() == before.operations.len());
            if before.ready() {
                assert forall|j: int| 0 <= j < self.operations.len() implies #[trigger] self.operations[j].batch_ready() by {
                    assert(before.operations[j].batch_ready());
                }
            }
            if self.ready() {
                assert forall|j: int| 0 <= j < before.operations.len() implies #[trigger] before.operations[j].batch_ready() by {
                    assert(self.operations[j].batch_ready());
                }
            }
        }
        let res = retarget_points(out, self.pipeline.destination_stream_id);
        proof {
            let ids = choose|ids: Seq<Seq<u128>>|
                #[trigger] chain_batch(
                    ops_view(before.operations@).skip(0),
                    cv,
                    now,
                    oracle(*eval),
                    ids,
                ) == (ops_view(self.operations@).skip(0), points_view(out@));
            assert(ops_view(before.operations@).skip(0) =~= before.ops());
            assert(ops_view(self.operations@).skip(0) =~= self.ops());
            assert(before.batch_result(pv, now, oracle(*eval), ids) == (self.ops(), points_view(res@)));
            if stateless(before.ops()) {
                before.lemma_batch_is_one_by_one(pv, now, oracle(*eval), ids);
            }
        }
        Ok(res)
    }

    /// Process a batch of data points through the pipeline at the current time.
    pub fn process_batch<F: Fn(NumericQuery) -> NumericAnswer>(
        &mut self,
        data_points: Vec<DataPoint>,
        eval: &F,
    ) -> (r: Result<Vec<DataPoint>, Error>)
        requires
            consistent(*eval),
            forall|t: Timestamp|
                representable(t) ==> #[trigger] old(self).batch_safe(points_view(data_points@), t, oracle(*eval)),
        ensures
            final(self).ready() == old(self).ready(),
            final(self).pipeline == old(self).pipeline,
            r matches Ok(out) && executor_batch_some_time(
                *old(self),
                points_view(data_points@),
                oracle(*eval),
                final(self).ops(),
                points_view(out@),
            ),
            stateless(old(self).ops()) ==> (r matches Ok(out) && final(self).ops() == old(self).ops()
                && one_by_one_some_time(*old(self), points_view(data_points@), oracle(*eval), points_view(out@))),
    {
        let ghost before = *self;
        let ghost pv = points_view(data_points@);
        let now = current_timestamp();
        let r = self.process_batch_at(data_points, now, eval);
        proof {
            if r is Ok {
                let out = r->Ok_0;
                assert(executor_batch_outcome(before, pv, now, oracle(*eval), self.ops(), points_view(out@)));
                if stateless(before.ops()) {
                    assert(points_view(out@) == before.one_by_one(pv, rfc3339_text(now.secs, now.nanos), oracle(*eval)));
                }
            }
        }
        r
    }
}

/// `out` is what `e` makes of `points` one at a time at some instant that
/// chrono can represent.
pub open spec fn one_by_one_some_time(
    e: PipelineExecutor,
    points: Seq<PointView>,
    ans: spec_fn(QueryView) -> NumericAnswer,
    out: Seq<PointView>,
) -> bool {
    exists|t: Timestamp| representable(t) && out == e.one_by_one(points, #[trigger] rfc3339_text(t.secs, t.nanos), ans)
}

/// The executor `e` can turn the batch `points` at `now` into `out`, leaving
/// its operations in the states `ops2`, for some choice of fresh identifiers.
pub open spec fn executor_batch_outcome(
    e: PipelineExecutor,
    points: Seq<PointView>,
    now: Timestamp,
    ans: spec_fn(QueryView) -> NumericAnswer,
    ops2: Seq<OpState>,
    out: Seq<PointView>,
) -> bool {
    exists|ids: Seq<Seq<u128>>| #[trigger] e.batch_result(points, now, ans, ids) == (ops2, out)
}

/// `executor_batch_outcome` at some instant that chrono can represent.
pub open spec fn executor_batch_some_time(
    e: PipelineExecutor,
    points: Seq<PointView>,
    ans: spec_fn(QueryView) -> NumericAnswer,
    ops2: Seq<OpState>,
    out: Seq<PointView>,
) -> bool {
    exists|t: Timestamp| representable(t) && #[trigger] executor_batch_outcome(e, points, t, ans, ops2, out)
}

/// Whether no operation of `ops` aggregates.
pub open spec fn stateless(ops: Seq<OpState>) -> bool {
    forall|i: int| 0 <= i < ops.len() ==> !(#[trigger] ops[i] is Aggregate)
}

/// An operation handles a concatenation as it handles each part in turn.
proof fn lemma_map_single_concat(
    op: OpState,
    a: Seq<PointView>,
    b: Seq<PointView>,
    detected_at: Seq<char>,
    ans: spec_fn(QueryView) -> NumericAnswer,
)
    ensures
        map_single(op, a + b, detected_at, ans) == map_single(op, a, detected_at, ans) + map_single(
            op,
            b,
            detected_at,
            ans,
        ),
    decreases b.len(),
{
    if b.len() == 0 {
        assert(a + b =~= a);
        assert(map_single(op, a, detected_at, ans) + map_single(op, b, detected_at, ans) =~= map_single(
            op,
            a,
            detected_at,
            ans,
        ));
    } else {
        assert((a + b).drop_last() =~= a + b.drop_last());
        assert((a + b).last() == b.last());
        lemma_map_single_concat(op, a, b.drop_last(), detected_at, ans);
        let pa = map_single(op, a, detected_at, ans);
        let pb = map_single(op, b.drop_last(), detected_at, ans);
        match op_single(op, b.last(), detected_at, ans) {
            Some(q) => {
                assert((pa + pb).push(q) =~= pa + pb.push(q));
            },
            None => {},
        }
    }
}

/// A chain of operations handles a concatenation as it handles each part in
/// turn.
proof fn lemma_chain_single_concat(
    ops: Seq<OpState>,
    a: Seq<PointView>,
    b: Seq<PointView>,
    detected_at: Seq<char>,
    ans: spec_fn(QueryView) -> NumericAnswer,
)
    ensures
        chain_single(ops, a + b, detected_at, ans) == chain_single(ops, a, detected_at, ans) + chain_single(
            ops,
            b,
            detected_at,
            ans,
        ),
    decreases ops.len(),
{
    if ops.len() == 0 {
    } else {
        lemma_chain_step(ops, a, detected_at, ans);
        lemma_chain_step(ops, b, detected_at, ans);
        lemma_chain_step(ops, a + b, detected_at, ans);
        lemma_map_single_concat(ops[0], a, b, detected_at, ans);
        lemma_chain_single_concat(
            ops.drop_first(),
            map_single(ops[0], a, detected_at, ans),
            map_single(ops[0], b, detected_at, ans),
            detected_at,
            ans,
        );
    }
}

/// With at least one operation, a chain hands the points to the first one
/// and the rest to the others, even when there are no points.
proof fn lemma_chain_step(
    ops: Seq<OpState>,
    points: Seq<PointView>,
    detected_at: Seq<char>,
    ans: spec_fn(QueryView) -> NumericAnswer,
)
    requires
        ops.len() > 0,
    ensures
        chain_single(ops, points, detected_at, ans) == chain_single(
            ops.drop_first(),
            map_single(ops[0], points, detected_at, ans),
            detected_at,
            ans,
        ),
{
    if points.len() == 0 {
        assert(map_single(ops[0], points, detected_at, ans) =~= Seq::<PointView>::empty());
        lemma_chain_empty(ops.drop_first(), detected_at, ans);
    }
}

/// A chain makes nothing of no points.
proof fn lemma_chain_empty(ops: Seq<OpState>, detected_at: Seq<char>, ans: spec_fn(QueryView) -> NumericAnswer)
    ensures
        chain_single(ops, Seq::empty(), detected_at, ans) == Seq::<PointView>::empty(),
{
}

/// Without aggregation, a batch goes through the chain as the points would
/// one by one, and the operations keep their state.
proof fn lemma_stateless_chain_batch(
    ops: Seq<OpState>,
    points: Seq<PointView>,
    now: Timestamp,
    ans: spec_fn(QueryView) -> NumericAnswer,
    ids: Seq<Seq<u128>>,
)
    requires
        stateless(ops),
    ensures
        chain_batch(ops, points, now, ans, ids) == (ops, chain_single(
            ops,
            points,
            rfc3339_text(now.secs, now.nanos),
            ans,
        )),
    decreases ops.len(),
{
    if ops.len() > 0 && points.len() > 0 {
        assert(!(ops[0] is Aggregate));
        let text = rfc3339_text(now.secs, now.nanos);
        let mapped = map_single(ops[0], points, text, ans);
        assert forall|i: int| 0 <= i < ops.drop_first().len() implies !(#[trigger] ops.drop_first()[i] is Aggregate) by {
            assert(ops.drop_first()[i] == ops[i + 1]);
        }
        lemma_stateless_chain_batch(ops.drop_first(), mapped, now, ans, ids.drop_first());
        assert(seq![ops[0]] + ops.drop_first() =~= ops);
    }
}

impl PipelineExecutor {
    /// What the pipeline makes of `points` taken one at a time, in order.
    pub open spec fn one_by_one(
        &self,
        points: Seq<PointView>,
        detected_at: Seq<char>,
        ans: spec_fn(QueryView) -> NumericAnswer,
    ) -> Seq<PointView>
        decreases points.len(),
    {
        if points.len() == 0 {
            Seq::empty()
        } else {
            self.one_by_one(points.drop_last(), detected_at, ans) + self.single_result(
                points.last(),
                detected_at,
                ans,
            )
        }
    }

    /// A pipeline without aggregation does to a batch what it does to its
    /// points one at a time, in order, and its operations keep their state.
    pub proof fn lemma_batch_is_one_by_one(
        &self,
        points: Seq<PointView>,
        now: Timestamp,
        ans: spec_fn(QueryView) -> NumericAnswer,
        ids: Seq<Seq<u128>>,
    )
        requires
            stateless(self.ops()),
        ensures
            self.batch_result(points, now, ans, ids) == (self.ops(), self.one_by_one(
                points,
                rfc3339_text(now.secs, now.nanos),
                ans,
            )),
        decreases points.len(),
    {
        let text = rfc3339_text(now.secs, now.nanos);
        let src = self.pipeline.source_stream_id;
        lemma_stateless_chain_batch(self.ops(), from_stream(points, src), now, ans, ids);
        self.lemma_one_by_one(points, text, ans);
    }

    /// Taking the points one at a time gives the chain's result on the points
    /// of the source stream, moved to the destination.
    proof fn lemma_one_by_one(&self, points: Seq<PointView>, text: Seq<char>, ans: spec_fn(QueryView) -> NumericAnswer)
        ensures
            self.one_by_one(points, text, ans) == retarget(
                chain_single(self.ops(), from_stream(points, self.pipeline.source_stream_id), text, ans),
                self.pipeline.destination_stream_id,
            ),
        decreases points.len(),
    {
        let src = self.pipeline.source_stream_id;
        let dest = self.pipeline.destination_stream_id;
        if points.len() == 0 {
            lemma_chain_empty(self.ops(), text, ans);
            assert(from_stream(points, src) =~= Seq::<PointView>::empty());
            assert(retarget(Seq::<PointView>::empty(), dest) =~= Seq::<PointView>::empty());
        } else {
            self.lemma_one_by_one(points.drop_last(), text, ans);
            let prefix = from_stream(points.drop_last(), src);
            let p = points.last();
            let before = chain_single(self.ops(), prefix, text, ans);
            if p.stream_id == src {
                assert(from_stream(points, src) =~= prefix + seq![p]);
                lemma_chain_single_concat(self.ops(), prefix, seq![p], text, ans);
                let after = chain_single(self.ops(), seq![p], text, ans);
                assert(retarget(before + after, dest) =~= retarget(before, dest) + retarget(after, dest));
            } else {
                assert(from_stream(points, src) == prefix);
                assert(self.single_result(p, text, ans) =~= Seq::<PointView>::empty());
                assert(retarget(before, dest) + Seq::<PointView>::empty() =~= retarget(before, dest));
            }
        }
    }
}

/// A copy of each point, in order.
pub fn duplicate_points(points: &Vec<DataPoint>) -> (r: Vec<DataPoint>)
    ensures
        points_view(r@) == points_view(points@),
{
    let mut out: Vec<DataPoint> = Vec::new();
    let mut i: usize = 0;
    while i < points.len()
        invariant
            i <= points.len(),
            out.len() == i,
            forall|j: int| 0 <= j < i ==> #[trigger] out@[j].view() == points@[j].view(),
        decreases points.len() - i,
    {
        out.push(points[i].duplicate());
        i = i + 1;
    }
    assert(points_view(out@) =~= points_view(points@));
    out
}

/// The streams of `points` in the order each first appears.
pub open spec fn stream_order(points: Seq<PointView>) -> Seq<u128>
    decreases points.len(),
{
    if points.len() == 0 {
        Seq::empty()
    } else {
        let prev = stream_order(points.drop_last());
        if prev.contains(points.last().stream_id) {
            prev
        } else {
            prev.push(points.last().stream_id)
        }
    }
}

/// The outputs of the pipelines whose source is `sid`, in pipeline order.
pub open spec fn stream_outputs(sources: Seq<u128>, outs: Seq<Seq<PointView>>, sid: u128) -> Seq<
    PointView,
>
    decreases sources.len(),
{
    if sources.len() == 0 || outs.len() == 0 {
        Seq::empty()
    } else {
        let prev = stream_outputs(sources.drop_last(), outs.drop_last(), sid);
        if sources.last() == sid {
            prev + outs.last()
        } else {
            prev
        }
    }
}

/// The outputs grouped stream by stream, in the order `order` gives the streams.
pub open spec fn grouped_outputs(order: Seq<u128>, sources: Seq<u128>, outs: Seq<Seq<PointView>>) -> Seq<
    PointView,
>
    decreases order.len(),
{
    if order.len() == 0 {
        Seq::empty()
    } else {
        grouped_outputs(order.drop_last(), sources, outs) + stream_outputs(
            sources,
            outs,
            order.last(),
        )
    }
}

/// The source streams of the executors.
pub open spec fn sources_of(execs: Seq<PipelineExecutor>) -> Seq<u128> {
    execs.map_values(|e: PipelineExecutor| e.pipeline.source_stream_id)
}

/// What each executor does with the points of its source stream in `points`
/// at `now`, the `j`-th taking fresh identifiers `ids[j]`.
pub open spec fn executor_steps(
    execs: Seq<PipelineExecutor>,
    points: Seq<PointView>,
    now: Timestamp,
    ans: spec_fn(QueryView) -> NumericAnswer,
    ids: Seq<Seq<Seq<u128>>>,
) -> Seq<(Seq<OpState>, Seq<PointView>)> {
    Seq::new(
        execs.len(),
        |j: int|
            execs[j].batch_result(
                from_stream(points, execs[j].pipeline.source_stream_id),
                now,
                ans,
                ids[j],
            ),
    )
}

/// The streams of `points` in the order each first appears.
pub fn streams_in_order(points: &Vec<DataPoint>) -> (r: Vec<u128>)
    ensures
        r@ == stream_order(points_view(points@)),
{
    let ghost pv = points_view(points@);
    let mut order: Vec<u128> = Vec::new();
    let mut i: usize = 0;
    assert(pv.take(0) =~= Seq::<PointView>::empty());
    while i < points.len()
        invariant
            i <= points.len(),
            pv == points_view(points@),
            order@ == stream_order(pv.take(i as int)),
        decreases points.len() - i,
    {
        assert(pv.take(i + 1).drop_last() =~= pv.take(i as int));
        assert(pv.take(i + 1).last() == points@[i as int].view());
        let sid = points[i].stream_id;
        let mut k: usize = 0;
        let mut seen = false;
        while k < order.len() && !seen
            invariant
                k <= order.len(),
                seen ==> order@.contains(sid),
                !seen ==> forall|m: int| 0 <= m < k ==> order@[m] != sid,
            decreases order.len() - k + (if seen { 0int } else { 1int }),
        {
            if order[k] == sid {
                seen = true;
            } else {
                k = k + 1;
            }
        }
        if !seen {
            order.push(sid);
        }
        i = i + 1;
    }
    assert(pv.take(points.len() as int) =~= pv);
    order
}

/// The executors at `execs2` are the executors `execs` after a batch at
/// `now`, with fresh identifiers `ids`, and `out` is what the manager yields.
pub open spec fn manager_batch_yields(
    execs: Seq<PipelineExecutor>,
    points: Seq<PointView>,
    now: Timestamp,
    ans: spec_fn(QueryView) -> NumericAnswer,
    ids: Seq<Seq<Seq<u128>>>,
    execs2: Seq<PipelineExecutor>,
    out: Seq<PointView>,
) -> bool {
    let steps = executor_steps(execs, points, now, ans, ids);
    &&& forall|j: int| 0 <= j < execs.len() ==> #[trigger] execs2[j].ops() == steps[j].0
    &&& out == grouped_outputs(
        stream_order(points),
        sources_of(execs),
        steps.map_values(|st: (Seq<OpState>, Seq<PointView>)| st.1),
    )
}

/// A batch over `execs` can give `out` and leave `execs2`: for some choice
/// of the fresh identifiers, `manager_batch_yields` holds.
pub open spec fn manager_batch_outcome(
    execs: Seq<PipelineExecutor>,
    points: Seq<PointView>,
    now: Timestamp,
    ans: spec_fn(QueryView) -> NumericAnswer,
    execs2: Seq<PipelineExecutor>,
    out: Seq<PointView>,
) -> bool {
    exists|ids: Seq<Seq<Seq<u128>>>|
        #[trigger] manager_batch_yields(execs, points, now, ans, ids, execs2, out)
}

/// Whether a batch at `now` reaches no zero-second aggregation of any of the
/// executors.
pub open spec fn manager_batch_safe(
    execs: Seq<PipelineExecutor>,
    points: Seq<PointView>,
    now: Timestamp,
    ans: spec_fn(QueryView) -> NumericAnswer,
) -> bool {
    forall|j: int| 0 <= j < execs.len() ==> #[trigger] execs[j].batch_safe(points, now, ans)
}

/// Manages multiple pipeline executors.
pub struct PipelineManager {
    /// Registered pipelines
    pub pipelines: Vec<PipelineExecutor>,
}

impl PipelineManager {
    /// Whether every registered pipeline can take a batch.
    pub open spec fn ready(&self) -> bool {
        forall|j: int| 0 <= j < self.pipelines.len() ==> #[trigger] self.pipelines[j].ready()
    }

    /// Whether every registered pipeline can take a batch: no aggregation
    /// has a window of zero seconds.
    pub fn can_take_batch(&self) -> (r: bool)
        ensures
            r == self.ready(),
    {
        let mut j: usize = 0;
        while j < self.pipelines.len()
            invariant
                j <= self.pipelines.len(),
                forall|m: int| 0 <= m < j ==> #[trigger] self.pipelines[m].ready(),
            decreases self.pipelines.len() - j,
        {
            let ops = &self.pipelines[j].operations;
            let mut k: usize = 0;
            while k < ops.len()
                invariant
                    k <= ops.len(),
                    j < self.pipelines.len(),
                    ops == &self.pipelines[j as int].operations,
                    forall|m: int| 0 <= m < k ==> #[trigger] ops[m].batch_ready(),
                decreases ops.len() - k,
            {
                if let StreamOperation::Aggregate(a) = &ops[k] {
                    if a.window_seconds == 0 {
                        assert(!self.pipelines[j as int].operations[k as int].batch_ready());
                        assert(!self.pipelines[j as int].ready());
                        return false;
                    }
                }
                k = k + 1;
            }
            j = j + 1;
        }
        true
    }

    /// Pipelines without zero-second aggregations take every batch.
    pub proof fn lemma_ready_is_safe(
        &self,
        points: Seq<PointView>,
        now: Timestamp,
        ans: spec_fn(QueryView) -> NumericAnswer,
    )
        requires
            self.ready(),
        ensures
            manager_batch_safe(self.pipelines@, points, now, ans),
    {
        assert forall|j: int| 0 <= j < self.pipelines@.len() implies #[trigger] self.pipelines@[j].batch_safe(
            points,
            now,
            ans,
        ) by {
            assert(self.pipelines[j].ready());
            self.pipelines@[j].lemma_ready_is_safe(points, now, ans);
        }
    }

    /// Create a new pipeline manager with no pipelines.
    pub fn new() -> (r: PipelineManager)
        ensures
            r.pipelines.len() == 0,
    {
        PipelineManager { pipelines: Vec::new() }
    }

    /// Register a new pipeline: its executor joins the end of the list.
    pub fn register_pipeline(&mut self, pipeline: Pipeline) -> (r: Result<(), Error>)
        ensures
            r is Ok,
            final(self).pipelines.len() == old(self).pipelines.len() + 1,
            forall|j: int|
                0 <= j < old(self).pipelines.len() ==> #[trigger] final(self).pipelines[j]
                    == old(self).pipelines[j],
            final(self).pipelines@.last().pipeline == pipeline,
            final(self).pipelines@.last().operations.len() == pipeline.operations.len(),
            forall|j: int|
                0 <= j < pipeline.operations.len() ==> #[trigger] final(self).pipelines@.last().operations[j].built_from(
                    pipeline.operations[j].view(),
                    pipeline.source_stream_id,
                ),
    {
        let executor = match PipelineExecutor::new(pipeline) {
            Ok(e) => e,
            Err(e) => {
                return Err(e);
            },
        };
        self.pipelines.push(executor);
        Ok(())
    }

    /// What the pipelines make of a single point: each pipeline of the
    /// point's stream in turn, in registration order.
    pub open spec fn single_result(
        execs: Seq<PipelineExecutor>,
        p: PointView,
        detected_at: Seq<char>,
        ans: spec_fn(QueryView) -> NumericAnswer,
    ) -> Seq<PointView>
        decreases execs.len(),
    {
        if execs.len() == 0 {
            Seq::empty()
        } else {
            let prev = Self::single_result(execs.drop_last(), p, detected_at, ans);
            if execs.last().pipeline.source_stream_id == p.stream_id {
                prev + execs.last().single_result(p, detected_at, ans)
            } else {
                prev
            }
        }
    }

    /// A point of a stream that no pipeline reads from yields nothing.
    pub proof fn lemma_unread_stream_yields_nothing(
        execs: Seq<PipelineExecutor>,
        p: PointView,
        detected_at: Seq<char>,
        ans: spec_fn(QueryView) -> NumericAnswer,
    )
        requires
            forall|j: int| 0 <= j < execs.len() ==> #[trigger] execs[j].pipeline.source_stream_id != p.stream_id,
        ensures
            Self::single_result(execs, p, detected_at, ans) == Seq::<PointView>::empty(),
        decreases execs.len(),
    {
        if execs.len() > 0 {
            assert(execs.last() == execs[execs.len() - 1]);
            Self::lemma_unread_stream_yields_nothing(execs.drop_last(), p, detected_at, ans);
        }
    }

    /// Process a data point through all relevant pipelines at the instant `now`.
    pub fn process_at<F: Fn(NumericQuery) -> NumericAnswer>(
        &self,
        data_point: DataPoint,
        now: Timestamp,
        eval: &F,
    ) -> (r: Result<Vec<DataPoint>, Error>)
        requires
            consistent(*eval),
            representable(now),
        ensures
            r matches Ok(out) && points_view(out@) == Self::single_result(
                self.pipelines@,
                data_point.view(),
                rfc3339_text(now.secs, now.nanos),
                oracle(*eval),
            ),
    {
        let ghost text = rfc3339_text(now.secs, now.nanos);
        let ghost pv = data_point.view();
        let mut results: Vec<DataPoint> = Vec::new();
        let mut i: usize = 0;
        assert(self.pipelines@.take(0) =~= Seq::<PipelineExecutor>::empty());
        assert(points_view(results@) =~= Seq::<PointView>::empty());
        while i < self.pipelines.len()
            invariant
                i <= self.pipelines.len(),
                consistent(*eval),
                representable(now),
                text == rfc3339_text(now.secs, now.nanos),
                pv == data_point.view(),
                points_view(results@) == Self::single_result(
                    self.pipelines@.take(i as int),
                    pv,
                    text,
                    oracle(*eval),
                ),
            decreases self.pipelines.len() - i,
        {
            assert(self.pipelines@.take(i + 1).drop_last() =~= self.pipelines@.take(i as int));
            assert(self.pipelines@.take(i + 1).last() == self.pipelines@[i as int]);
            if self.pipelines[i].pipeline.source_stream_id == data_point.stream_id {
                let processed = self.pipelines[i].process_at(data_point.duplicate(), now, eval);
                let mut processed = match processed {
                    Ok(v) => v,
                    Err(_) => Vec::new(),
                };
                let ghost rb = points_view(results@);
                let ghost qb = points_view(processed@);
                results.append(&mut processed);
                assert(points_view(results@) =~= rb + qb);
            }
            i = i + 1;
        }
        assert(self.pipelines@.take(self.pipelines.len() as int) =~= self.pipelines@);
        Ok(results)
    }

    /// Process a data point through all relevant pipelines at the current time.
    pub fn process<F: Fn(NumericQuery) -> NumericAnswer>(&self, data_point: DataPoint, eval: &F) -> (r:
        Result<Vec<DataPoint>, Error>)
        requires
            consistent(*eval),
        ensures
            r matches Ok(out) && exists|t: Timestamp|
                representable(t) && points_view(out@) == Self::single_result(
                    self.pipelines@,
                    data_point.view(),
                    #[trigger] rfc3339_text(t.secs, t.nanos),
                    oracle(*eval),
                ),
    {
        let now = current_timestamp();
        self.process_at(data_point, now, eval)
    }

    /// Process a batch at the instant `now`: the points are grouped by
    /// stream, and each group goes through every pipeline of its stream. The
    /// output holds the streams in the order they first appear in the batch,
    /// and within a stream the pipelines' outputs in registration order.
    pub fn process_batch_at<F: Fn(NumericQuery) -> NumericAnswer>(
        &mut self,
        data_points: Vec<DataPoint>,
        now: Timestamp,
        eval: &F,
    ) -> (r: Result<Vec<DataPoint>, Error>)
        requires
            consistent(*eval),
            representable(now),
            manager_batch_safe(old(self).pipelines@, points_view(data_points@), now, oracle(*eval)),
        ensures
            final(self).ready() == old(self).ready(),
            final(self).pipelines.len() == old(self).pipelines.len(),
            forall|j: int|
                0 <= j < old(self).pipelines.len() ==> #[trigger] final(self).pipelines[j].pipeline
                    == old(self).pipelines[j].pipeline,
            r matches Ok(out) && manager_batch_outcome(
                old(self).pipelines@,
                points_view(data_points@),
                now,
                oracle(*eval),
                final(self).pipelines@,
                points_view(out@),
            ),
    {
        let ghost pv = points_view(data_points@);
        let ghost old_p = self.pipelines@;
        let ghost ans = oracle(*eval);
        let n = self.pipelines.len();
        let mut outs: Vec<Vec<DataPoint>> = Vec::new();
        let ghost mut idss: Seq<Seq<Seq<u128>>> = Seq::empty();
        let mut i: usize = 0;
        while i < n
            invariant
                n == self.pipelines.len(),
                n == old_p.len(),
                i <= n,
                consistent(*eval),
                representable(now),
                ans == oracle(*eval),
                pv == points_view(data_points@),
                forall|j: int| 0 <= j < n ==> #[trigger] self.pipelines[j].pipeline == old_p[j].pipeline,
                forall|j: int| i <= j < n ==> #[trigger] self.pipelines[j] == old_p[j],
                forall|j: int| 0 <= j < n ==> #[trigger] self.pipelines[j].ready() == old_p[j].ready(),
                manager_batch_safe(old_p, pv, now, ans),
                outs.len() == i,
                idss.len() == i,
                forall|j: int|
                    0 <= j < i ==> #[trigger] old_p[j].batch_result(
                        from_stream(pv, old_p[j].pipeline.source_stream_id),
                        now,
                        ans,
                        idss[j],
                    ) == (self.pipelines[j].ops(), points_view(outs@[j]@)),
            decreases n - i,
        {
            let sid = self.pipelines[i].pipeline.source_stream_id;
            let group = keep_stream(duplicate_points(&data_points), sid);
            let ghost gv = points_view(group@);
            let ghost before_vec = self.pipelines@;
            let mut e = self.pipelines.remove(i);
            let ghost e_before = e;
            assert(e_before == old_p[i as int]);
            let ghost ids_i: Seq<Seq<u128>>;
            let out: Vec<DataPoint>;
            if group.len() > 0 {
                proof {
                    assert(old_p[i as int].batch_safe(pv, now, ans));
                    lemma_from_stream_twice(pv, sid);
                }
                let res = e.process_batch_at(group, now, eval);
                out = match res {
                    Ok(v) => v,
                    Err(_) => Vec::new(),
                };
                proof {
                    ids_i = choose|ids: Seq<Seq<u128>>|
                        #[trigger] e_before.batch_result(gv, now, oracle(*eval), ids) == (
                            e.ops(),
                            points_view(out@),
                        );
                }
            } else {
                out = Vec::new();
                proof {
                    ids_i = Seq::empty();
                    assert(points_view(out@) =~= Seq::<PointView>::empty());
                    assert(retarget(gv, e.pipeline.destination_stream_id) =~= Seq::<PointView>::empty());
                    assert(e_before.batch_result(gv, now, oracle(*eval), ids_i) == (
                        e.ops(),
                        points_view(out@),
                    ));
                }
            }
            self.pipelines.insert(i, e);
            assert(forall|j: int| 0 <= j < n && j != i ==> self.pipelines@[j] == before_vec[j]);
            outs.push(out);
            proof {
                idss = idss.push(ids_i);
            }
            i = i + 1;
        }
        proof {
            if forall|j: int| 0 <= j < n ==> #[trigger] old_p[j].ready() {
                assert forall|j: int| 0 <= j < n implies #[trigger] self.pipelines[j].ready() by {
                    assert(old_p[j].ready());
                }
            }
            if forall|j: int| 0 <= j < n ==> #[trigger] self.pipelines[j].ready() {
                assert forall|j: int| 0 <= j < n implies #[trigger] old_p[j].ready() by {
                    assert(self.pipelines[j].ready());
                }
            }
        }
        let ghost srcs = sources_of(old_p);
        let ghost steps = executor_steps(old_p, pv, now, ans, idss);
        let ghost outs_view = outs@.map_values(|v: Vec<DataPoint>| points_view(v@));
        assert(steps.map_values(|st: (Seq<OpState>, Seq<PointView>)| st.1) =~= outs_view);
        let order = streams_in_order(&data_points);
        let mut results: Vec<DataPoint> = Vec::new();
        let mut k: usize = 0;
        assert(order@.take(0) =~= Seq::<u128>::empty());
        assert(points_view(results@) =~= Seq::<PointView>::empty());
        while k < order.len()
            invariant
                k <= order.len(),
                n == self.pipelines.len(),
                n == old_p.len(),
                outs.len() == n,
                srcs == sources_of(old_p),
                outs_view == outs@.map_values(|v: Vec<DataPoint>| points_view(v@)),
                forall|j: int| 0 <= j < n ==> #[trigger] self.pipelines[j].pipeline == old_p[j].pipeline,
                points_view(results@) == grouped_outputs(order@.take(k as int), srcs, outs_view),
            decreases order.len() - k,
        {
            let sid = order[k];
            let ghost base = points_view(results@);
            let mut j: usize = 0;
            assert(srcs.take(0) =~= Seq::<u128>::empty());
            assert(outs_view.take(0) =~= Seq::<Seq<PointView>>::empty());
            assert(base + Seq::<PointView>::empty() =~= base);
            while j < n
                invariant
                    j <= n,
                    n == self.pipelines.len(),
                    n == old_p.len(),
                    outs.len() == n,
                    srcs == sources_of(old_p),
                    outs_view == outs@.map_values(|v: Vec<DataPoint>| points_view(v@)),
                    forall|m: int| 0 <= m < n ==> #[trigger] self.pipelines[m].pipeline == old_p[m].pipeline,
                    points_view(results@) == base + stream_outputs(
                        srcs.take(j as int),
                        outs_view.take(j as int),
                        sid,
                    ),
                decreases n - j,
            {
                assert(srcs.take(j + 1).drop_last() =~= srcs.take(j as int));
                assert(outs_view.take(j + 1).drop_last() =~= outs_view.take(j as int));
                assert(srcs.take(j + 1).last() == srcs[j as int]);
                assert(outs_view.take(j + 1).last() == outs_view[j as int]);
                assert(srcs[j as int] == self.pipelines[j as int].pipeline.source_stream_id);
                if self.pipelines[j].pipeline.source_stream_id == sid {
                    let mut copy = duplicate_points(&outs[j]);
                    let ghost rb = points_view(results@);
                    let ghost cb = points_view(copy@);
                    results.append(&mut copy);
                    assert(points_view(results@) =~= rb + cb);
                    assert(cb == outs_view[j as int]);
                    assert(base + stream_outputs(srcs.take(j + 1), outs_view.take(j + 1), sid) =~= rb
                        + cb);
                }
                j = j + 1;
            }
            assert(srcs.take(n as int) =~= srcs);
            assert(outs_view.take(n as int) =~= outs_view);
            assert(order@.take(k + 1).drop_last() =~= order@.take(k as int));
            assert(order@.take(k + 1).last() == sid);
            k = k + 1;
        }
        assert(order@.take(order.len() as int) =~= order@);
        proof {
            assert(manager_batch_yields(
                old_p,
                pv,
                now,
                ans,
                idss,
                self.pipelines@,
                points_view(results@),
            ));
            assert(manager_batch_outcome(old_p, pv, now, ans, self.pipelines@, points_view(results@)));
        }
        Ok(results)
    }

    /// Process a batch at the current time (see `process_batch_at`).
    pub fn process_batch<F: Fn(NumericQuery) -> NumericAnswer>(
        &mut self,
        data_points: Vec<DataPoint>,
        eval: &F,
    ) -> (r: Result<Vec<DataPoint>, Error>)
        requires
            consistent(*eval),
            forall|t: Timestamp|
                representable(t) ==> #[trigger] manager_batch_safe(
                    old(self).pipelines@,
                    points_view(data_points@),
                    t,
                    oracle(*eval),
                ),
        ensures
            final(self).ready() == old(self).ready(),
            final(self).pipelines.len() == old(self).pipelines.len(),
            forall|j: int|
                0 <= j < old(self).pipelines.len() ==> #[trigger] final(self).pipelines[j].pipeline
                    == old(self).pipelines[j].pipeline,
            r matches Ok(out) && manager_batch_some_time(
                old(self).pipelines@,
                points_view(data_points@),
                oracle(*eval),
                final(self).pipelines@,
                points_view(out@),
            ),
    {
        let ghost before = self.pipelines@;
        let ghost pv = points_view(data_points@);
        let now = current_timestamp();
        let r = self.process_batch_at(data_points, now, eval);
        proof {
            if r is Ok {
                let out = r->Ok_0;
                assert(manager_batch_outcome(before, pv, now, oracle(*eval), self.pipelines@, points_view(out@)));
            }
        }
        r
    }
}

/// `manager_batch_outcome` at some instant that chrono can represent.
pub open spec fn manager_batch_some_time(
    execs: Seq<PipelineExecutor>,
    points: Seq<PointView>,
    ans: spec_fn(QueryView) -> NumericAnswer,
    execs2: Seq<PipelineExecutor>,
    out: Seq<PointView>,
) -> bool {
    exists|t: Timestamp| representable(t) && #[trigger] manager_batch_outcome(execs, points, t, ans, execs2, out)
}

} // verus!
