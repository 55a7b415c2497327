use vstd::prelude::*;
use crate::json::{Response, ResponseView};
use crate::query::{Outcome, Phase, QueryIter, live, step_phase, step_reply};

verus! {

/// A use of a handle that breaks the lifecycle contract.
#[derive(Debug, PartialEq, Eq, Structural, Clone, Copy)]
pub enum Misuse {
    /// The instance handle was never issued or is destroyed.
    UnknownInstance,
    /// The iterator handle was never issued or is closed.
    UnknownQuery,
    /// The instance still has open iterators.
    OpenQueries,
    /// The buffer was never issued or is released.
    UnknownBuffer,
    /// A step of the search was handed over where none was asked for, or
    /// none where one was.
    StepMismatch,
}

/// The table of handles: engine instances, the iterators opened on them,
/// and the text buffers handed to callers. Handles are indices and are
/// never reused.
pub struct Registry {
    instances: Vec<bool>,
    owners: Vec<usize>,
    queries: Vec<QueryIter>,
    buffers: Vec<bool>,
}

impl Registry {
    /// Which instances are live, by handle.
    pub closed spec fn instances(&self) -> Seq<bool> {
        self.instances@
    }

    /// The instance that each iterator was opened on, by handle.
    pub closed spec fn owners(&self) -> Seq<usize> {
        self.owners@
    }

    /// The state of each iterator, by handle.
    pub closed spec fn queries(&self) -> Seq<QueryIter> {
        self.queries@
    }

    /// Which buffers are held by the caller, by handle.
    pub closed spec fn buffers(&self) -> Seq<bool> {
        self.buffers@
    }

    pub closed spec fn wf(&self) -> bool {
        self.owners@.len() == self.queries@.len()
    }

    pub open spec fn instance_live(&self, h: int) -> bool {
        0 <= h < self.instances().len() && self.instances()[h]
    }

    pub open spec fn query_open(&self, q: int) -> bool {
        0 <= q < self.queries().len() && !(self.queries()[q].phase is Closed)
    }

    /// Some iterator opened on `h` is still open.
    pub open spec fn has_open_queries(&self, h: int) -> bool {
        exists|q: int| self.query_open(q) && self.owners()[q] == h
    }

    pub fn new() -> (r: Registry)
        ensures
            r.wf(),
            r.instances() == Seq::<bool>::empty(),
            r.owners() == Seq::<usize>::empty(),
            r.queries() == Seq::<QueryIter>::empty(),
            r.buffers() == Seq::<bool>::empty(),
    {
        Registry { instances: Vec::new(), owners: Vec::new(), queries: Vec::new(), buffers: Vec::new() }
    }

    /// Issues the handle of a new instance.
    pub fn create(&mut self) -> (h: usize)
        requires
            old(self).wf(),
            old(self).instances().len() < usize::MAX,
        ensures
            final(self).wf(),
            h == old(self).instances().len(),
            final(self).instances() == old(self).instances().push(true),
            final(self).owners() == old(self).owners(),
            final(self).queries() == old(self).queries(),
            final(self).buffers() == old(self).buffers(),
    {
        self.instances.push(true);
        self.instances.len() - 1
    }

    /// Whether `h` names a live instance.
    pub fn is_live(&self, h: usize) -> (b: bool)
        ensures
            b == self.instance_live(h as int),
    {
        h < self.instances.len() && self.instances[h]
    }

    /// Opens an iterator over a compiled goal on instance `h`.
    pub fn open_query(&mut self, h: usize, ground: bool) -> (r: Result<usize, Misuse>)
        requires
            old(self).wf(),
            old(self).queries().len() < usize::MAX,
        ensures
            final(self).wf(),
            final(self).instances() == old(self).instances(),
            final(self).buffers() == old(self).buffers(),
            !old(self).instance_live(h as int) ==> r == Err::<usize, Misuse>(Misuse::UnknownInstance)
                && final(self).queries() == old(self).queries() && final(self).owners() == old(self).owners(),
            old(self).instance_live(h as int) ==> r == Ok::<usize, Misuse>(old(self).queries().len() as usize)
                && final(self).queries() == old(self).queries().push((QueryIter { ground: ground, phase: Phase::Created }))
                && final(self).owners() == old(self).owners().push(h),
    {
        if !self.is_live(h) {
            return Err(Misuse::UnknownInstance);
        }
        self.queries.push(QueryIter::open(ground));
        self.owners.push(h);
        Ok(self.queries.len() - 1)
    }

    /// Whether the next call of `next` on `q` needs a step of the search.
    pub fn wants_step(&self, q: usize) -> (r: Result<bool, Misuse>)
        ensures
            !self.query_open(q as int) ==> r == Err::<bool, Misuse>(Misuse::UnknownQuery),
            self.query_open(q as int) ==> r == Ok::<bool, Misuse>(live(self.queries()[q as int].phase)),
    {
        if q >= self.queries.len() {
            return Err(Misuse::UnknownQuery);
        }
        if let Phase::Closed = self.queries[q].phase {
            return Err(Misuse::UnknownQuery);
        }
        Ok(self.queries[q].wants_step())
    }

    /// One call of `next` on iterator `q`, with the step the search took
    /// where one was asked for. Only that iterator changes.
    pub fn next(&mut self, q: usize, outcome: Option<Outcome>) -> (r: Result<Response, Misuse>)
        requires
            old(self).wf(),
        ensures
            final(self).wf(),
            final(self).instances() == old(self).instances(),
            final(self).owners() == old(self).owners(),
            final(self).buffers() == old(self).buffers(),
            final(self).queries().len() == old(self).queries().len(),
            forall|i: int|
                0 <= i < old(self).queries().len() && i != q ==> #[trigger] final(self).queries()[i]
                    == old(self).queries()[i],
            !old(self).query_open(q as int) ==> r is Err && r->Err_0 is UnknownQuery
                && final(self).queries() == old(self).queries(),
            old(self).query_open(q as int) && (outcome is Some != live(old(self).queries()[q as int].phase))
                ==> r is Err && r->Err_0 is StepMismatch
                && final(self).queries() == old(self).queries(),
            old(self).query_open(q as int) && (outcome is Some == live(old(self).queries()[q as int].phase))
                ==> r is Ok && final(self).queries()[q as int].ground == old(self).queries()[q as int].ground
                && match outcome {
                Some(o) => final(self).queries()[q as int].phase == step_phase(
                    old(self).queries()[q as int].ground,
                    o,
                ) && r->Ok_0@ == step_reply(old(self).queries()[q as int].ground, o),
                None => final(self).queries()[q as int].phase is Exhausted && r->Ok_0@ is Done,
            },
    {
        if q >= self.queries.len() {
            return Err(Misuse::UnknownQuery);
        }
        if let Phase::Closed = self.queries[q].phase {
            return Err(Misuse::UnknownQuery);
        }
        if outcome.is_some() != self.queries[q].wants_step() {
            return Err(Misuse::StepMismatch);
        }
        let mut it = QueryIter { ground: self.queries[q].ground, phase: Phase::Created };
        if let Phase::Active = self.queries[q].phase {
            it.phase = Phase::Active;
        } else if let Phase::Exhausted = self.queries[q].phase {
            it.phase = Phase::Exhausted;
        }
        let r = it.next(outcome);
        self.queries.set(q, it);
        Ok(r)
    }

    /// Closes iterator `q` from any phase. Every other iterator, every
    /// instance and every buffer stays as it was.
    pub fn close_query(&mut self, q: usize) -> (r: Result<(), Misuse>)
        requires
            old(self).wf(),
        ensures
            final(self).wf(),
            final(self).instances() == old(self).instances(),
            final(self).owners() == old(self).owners(),
            final(self).buffers() == old(self).buffers(),
            final(self).queries().len() == old(self).queries().len(),
            forall|i: int|
                0 <= i < old(self).queries().len() && i != q ==> #[trigger] final(self).queries()[i]
                    == old(self).queries()[i],
            !old(self).query_open(q as int) ==> r == Err::<(), Misuse>(Misuse::UnknownQuery)
                && final(self).queries() == old(self).queries(),
            old(self).query_open(q as int) ==> r == Ok::<(), Misuse>(())
                && final(self).queries()[q as int].phase is Closed
                && final(self).queries()[q as int].ground == old(self).queries()[q as int].ground,
    {
        if q >= self.queries.len() {
            return Err(Misuse::UnknownQuery);
        }
        if let Phase::Closed = self.queries[q].phase {
            return Err(Misuse::UnknownQuery);
        }
        let ground = self.queries[q].ground;
        self.queries.set(q, QueryIter { ground, phase: Phase::Closed });
        Ok(())
    }

    /// Destroys instance `h`, which must have no open iterator.
    pub fn destroy(&mut self, h: usize) -> (r: Result<(), Misuse>)
        requires
            old(self).wf(),
        ensures
            final(self).wf(),
            final(self).owners() == old(self).owners(),
            final(self).queries() == old(self).queries(),
            final(self).buffers() == old(self).buffers(),
            !old(self).instance_live(h as int) ==> r == Err::<(), Misuse>(Misuse::UnknownInstance)
                && final(self).instances() == old(self).instances(),
            old(self).instance_live(h as int) && old(self).has_open_queries(h as int)
                ==> r == Err::<(), Misuse>(Misuse::OpenQueries)
                && final(self).instances() == old(self).instances(),
            old(self).instance_live(h as int) && !old(self).has_open_queries(h as int)
                ==> r == Ok::<(), Misuse>(())
                && final(self).instances() == old(self).instances().update(h as int, false),
    {
        if !self.is_live(h) {
            return Err(Misuse::UnknownInstance);
        }
        let mut q: usize = 0;
        while q < self.queries.len()
            invariant
                self.wf(),
                self.instance_live(h as int),
                q <= self.queries@.len(),
                forall|i: int| 0 <= i < q ==> !(self.query_open(i) && self.owners()[i] == h),
            decreases self.queries@.len() - q,
        {
            let closed = if let Phase::Closed = self.queries[q].phase {
                true
            } else {
                false
            };
            if !closed && self.owners[q] == h {
                assert(self.query_open(q as int) && self.owners()[q as int] == h);
                return Err(Misuse::OpenQueries);
            }
            q = q + 1;
        }
        self.instances.set(h, false);
        Ok(())
    }

    /// Issues the handle of a new buffer held by the caller.
    pub fn issue_buffer(&mut self) -> (b: usize)
        requires
            old(self).wf(),
            old(self).buffers().len() < usize::MAX,
        ensures
            final(self).wf(),
            b == old(self).buffers().len(),
            final(self).buffers() == old(self).buffers().push(true),
            final(self).instances() == old(self).instances(),
            final(self).owners() == old(self).owners(),
            final(self).queries() == old(self).queries(),
    {
        self.buffers.push(true);
        self.buffers.len() - 1
    }

    /// Releases buffer `b`; a second release of it is refused.
    pub fn release_buffer(&mut self, b: usize) -> (r: Result<(), Misuse>)
        requires
            old(self).wf(),
        ensures
            final(self).wf(),
            final(self).instances() == old(self).instances(),
            final(self).owners() == old(self).owners(),
            final(self).queries() == old(self).queries(),
            !(b < old(self).buffers().len() && old(self).buffers()[b as int])
                ==> r == Err::<(), Misuse>(Misuse::UnknownBuffer)
                && final(self).buffers() == old(self).buffers(),
            (b < old(self).buffers().len() && old(self).buffers()[b as int]) ==> r == Ok::<(), Misuse>(())
                && final(self).buffers() == old(self).buffers().update(b as int, false),
    {
        if b >= self.buffers.len() || !self.buffers[b] {
            return Err(Misuse::UnknownBuffer);
        }
        self.buffers.set(b, false);
        Ok(())
    }
}

} // verus!
