//! The span-accumulation state machine behind the tracing subscriber: the
//! decisions of when finished spans queue up and when they must be flushed.
//! The subscriber glue that feeds it lives outside the verified library; it
//! hands finished spans in and carries the drained batches to the sink.

use vstd::prelude::*;

use crate::entities::ZipkinSpan;

verus! {

/// Where the accumulated spans stand.
#[derive(Debug, Clone, Copy, PartialEq, Eq, Hash, Structural)]
pub enum IntermediateSpansState {
    /// Accumulating; no flush needed yet.
    Ready,
    /// Enough spans are waiting; the next flush pass must drain them.
    NeedsSpansFlushed,
    /// The subscriber has shut down.
    Exited,
}

/// A boundary-facing outcome tag.
#[derive(Debug, Clone, Copy, PartialEq, Eq, Structural)]
pub enum ReturnValue {
    /// The call did what it was asked.
    Success,
    /// The call failed.
    Error,
}

/// How many spans may wait before a flush becomes due.
pub const WAITING_SPANS_LIMIT: usize = 10;

/// The queue of finished spans waiting for the next flush, with the state
/// cell that coordinates the flushing pass.
pub struct SpanLog {
    waiting_spans: Vec<ZipkinSpan>,
    state: IntermediateSpansState,
}

impl SpanLog {
    /// The spans waiting to be flushed, oldest first.
    pub closed spec fn spec_waiting(self) -> Seq<ZipkinSpan> {
        self.waiting_spans@
    }

    /// The current coordination state.
    pub closed spec fn spec_state(self) -> IntermediateSpansState {
        self.state
    }

    /// An empty, ready log.
    pub fn new() -> (r: SpanLog)
        ensures
            r.spec_waiting() == Seq::<ZipkinSpan>::empty(),
            r.spec_state() == IntermediateSpansState::Ready,
    {
        SpanLog { waiting_spans: Vec::new(), state: IntermediateSpansState::Ready }
    }

    /// A span exited: queue it, and once more than the limit are waiting in
    /// the ready state, mark the log as needing a flush.
    pub fn record_completed(&mut self, span: ZipkinSpan)
        requires
            old(self).spec_waiting().len() < usize::MAX,
        ensures
            final(self).spec_waiting() == old(self).spec_waiting().push(span),
            final(self).spec_state() == (if old(self).spec_state()
                == IntermediateSpansState::Ready && old(self).spec_waiting().len() + 1
                > WAITING_SPANS_LIMIT {
                IntermediateSpansState::NeedsSpansFlushed
            } else {
                old(self).spec_state()
            }),
    {
        self.waiting_spans.push(span);
        if self.state == IntermediateSpansState::Ready && self.waiting_spans.len()
            > WAITING_SPANS_LIMIT {
            self.state = IntermediateSpansState::NeedsSpansFlushed;
        }
    }

    /// One flushing pass: when a flush is due, drain every waiting span and
    /// return to the ready state; otherwise hand back nothing and leave the
    /// queue alone.
    pub fn flush_spans(&mut self) -> (drained: Vec<ZipkinSpan>)
        ensures
            old(self).spec_state() == IntermediateSpansState::NeedsSpansFlushed ==> {
                &&& drained@ == old(self).spec_waiting()
                &&& final(self).spec_waiting() == Seq::<ZipkinSpan>::empty()
                &&& final(self).spec_state() == IntermediateSpansState::Ready
            },
            old(self).spec_state() != IntermediateSpansState::NeedsSpansFlushed ==> {
                &&& drained@ == Seq::<ZipkinSpan>::empty()
                &&& *final(self) == *old(self)
            },
    {
        if self.state == IntermediateSpansState::NeedsSpansFlushed {
            let mut drained: Vec<ZipkinSpan> = Vec::new();
            std::mem::swap(&mut drained, &mut self.waiting_spans);
            self.state = IntermediateSpansState::Ready;
            drained
        } else {
            Vec::new()
        }
    }

    /// Shut the log down: the flushing loop's trigger to stop.
    pub fn exit(&mut self)
        ensures
            final(self).spec_state() == IntermediateSpansState::Exited,
            final(self).spec_waiting() == old(self).spec_waiting(),
    {
        self.state = IntermediateSpansState::Exited;
    }
}

} // verus!
