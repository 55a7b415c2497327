use vstd::prelude::*;
use crate::json::{Solution, Response, ResponseView};

verus! {

/// Where a solution iterator stands.
#[derive(Debug, PartialEq, Eq, Structural, Clone, Copy)]
pub enum Phase {
    /// The goal is compiled and no step was taken.
    Created,
    /// At least one step was taken and choice points may remain.
    Active,
    /// The search space is explored.
    Exhausted,
    /// Released; no call may follow.
    Closed,
}

/// What the engine's search reports for one step.
#[derive(Debug)]
pub enum Outcome {
    /// One more answer.
    Answer(Solution),
    /// No choice point is left.
    NoMore,
    /// The search raised an error, with its diagnostic.
    Fault(Vec<char>),
}

/// A phase in which a call of `next` asks the engine for one more step.
pub open spec fn live(p: Phase) -> bool {
    p is Created || p is Active
}

/// The phase after a live iterator was handed one outcome. A ground goal
/// is asked only whether it holds, so it is exhausted after one step.
pub open spec fn step_phase(ground: bool, o: Outcome) -> Phase {
    match o {
        Outcome::Answer(_) => if ground {
            Phase::Exhausted
        } else {
            Phase::Active
        },
        _ => Phase::Exhausted,
    }
}

/// What a live iterator replies to one outcome.
pub open spec fn step_reply(ground: bool, o: Outcome) -> ResponseView {
    match o {
        Outcome::Answer(s) => if ground {
            ResponseView::Truth(true)
        } else {
            ResponseView::Solutions(seq![s])
        },
        Outcome::NoMore => if ground {
            ResponseView::Truth(false)
        } else {
            ResponseView::Done
        },
        Outcome::Fault(m) => ResponseView::Failure(m@),
    }
}

/// The replies of an iterator in phase `p` that is handed `outs` one by
/// one, for as long as it asks for steps.
pub open spec fn drive(ground: bool, p: Phase, outs: Seq<Outcome>) -> Seq<ResponseView>
    decreases outs.len(),
{
    if outs.len() == 0 || !live(p) {
        Seq::empty()
    } else {
        seq![step_reply(ground, outs[0])] + drive(ground, step_phase(ground, outs[0]), outs.drop_first())
    }
}

/// The answer of the one-shot runner on a search that reports `outs`: for a
/// ground goal whether its first step found an answer; otherwise every
/// answer before the search ends; an error in place of either.
pub open spec fn run_result(ground: bool, outs: Seq<Outcome>) -> ResponseView
    decreases outs.len(),
{
    if outs.len() == 0 {
        if ground {
            ResponseView::Truth(false)
        } else {
            ResponseView::Solutions(Seq::empty())
        }
    } else {
        match outs[0] {
            Outcome::Fault(m) => ResponseView::Failure(m@),
            Outcome::NoMore => if ground {
                ResponseView::Truth(false)
            } else {
                ResponseView::Solutions(Seq::empty())
            },
            Outcome::Answer(s) => if ground {
                ResponseView::Truth(true)
            } else {
                match run_result(false, outs.drop_first()) {
                    ResponseView::Solutions(rest) => ResponseView::Solutions(seq![s] + rest),
                    other => other,
                }
            },
        }
    }
}

/// The answers carried by a sequence of replies, in order.
pub open spec fn answers_of(replies: Seq<ResponseView>) -> Seq<Solution>
    decreases replies.len(),
{
    if replies.len() == 0 {
        Seq::empty()
    } else {
        match replies[0] {
            ResponseView::Solutions(ss) => ss + answers_of(replies.drop_first()),
            _ => answers_of(replies.drop_first()),
        }
    }
}

/// A search report that ends: some outcome in it is not an answer.
pub open spec fn ends(outs: Seq<Outcome>) -> bool {
    exists|i: int| 0 <= i < outs.len() && !(#[trigger] outs[i] is Answer)
}

/// A resumable query: the state machine that turns a search into one reply
/// per call.
#[derive(Debug)]
pub struct QueryIter {
    /// Whether the goal has no free variables.
    pub ground: bool,
    pub phase: Phase,
}

impl QueryIter {
    /// A new iterator over a compiled goal; no step is taken yet.
    pub fn open(ground: bool) -> (r: QueryIter)
        ensures
            r.ground == ground,
            r.phase is Created,
    {
        QueryIter { ground, phase: Phase::Created }
    }

    /// Whether the next call of `next` needs one more step of the search.
    pub fn wants_step(&self) -> (r: bool)
        ensures
            r == live(self.phase),
    {
        match self.phase {
            Phase::Created | Phase::Active => true,
            _ => false,
        }
    }

    /// One call of `next`: `outcome` is the step that the engine took, and is
    /// present exactly when `wants_step` said so. An exhausted iterator
    /// answers the terminal marker, however often it is asked.
    pub fn next(&mut self, outcome: Option<Outcome>) -> (r: Response)
        requires
            !(old(self).phase is Closed),
            outcome is Some <==> live(old(self).phase),
        ensures
            final(self).ground == old(self).ground,
            match outcome {
                Some(o) => final(self).phase == step_phase(old(self).ground, o) && r@ == step_reply(
                    old(self).ground,
                    o,
                ),
                None => final(self).phase is Exhausted && r@ is Done,
            },
    {
        match outcome {
            None => {
                self.phase = Phase::Exhausted;
                Response::Done
            },
            Some(Outcome::Answer(s)) => {
                if self.ground {
                    self.phase = Phase::Exhausted;
                    Response::Truth(true)
                } else {
                    self.phase = Phase::Active;
                    let r = Response::Solutions(vec![s]);
                    assert(r@ == ResponseView::Solutions(seq![s])) by {
                        assert(r->Solutions_0@ =~= seq![s]);
                    }
                    r
                }
            },
            Some(Outcome::NoMore) => {
                self.phase = Phase::Exhausted;
                if self.ground {
                    Response::Truth(false)
                } else {
                    Response::Done
                }
            },
            Some(Outcome::Fault(m)) => {
                self.phase = Phase::Exhausted;
                Response::Failure(m)
            },
        }
    }

    /// Releases the iterator from any phase, dropping what is left of the
    /// search.
    pub fn close(&mut self)
        ensures
            final(self).ground == old(self).ground,
            final(self).phase is Closed,
    {
        self.phase = Phase::Closed;
    }
}

/// Every outcome in `outs` is an answer.
pub open spec fn all_answers(outs: Seq<Outcome>) -> bool {
    forall|i: int| 0 <= i < outs.len() ==> #[trigger] outs[i] is Answer
}

/// The solutions carried by a report made of answers only.
pub open spec fn solutions_in(outs: Seq<Outcome>) -> Seq<Solution> {
    outs.map_values(|o: Outcome| o->Answer_0)
}

proof fn lemma_run_of_answers(outs: Seq<Outcome>, o: Outcome)
    requires
        all_answers(outs),
    ensures
        run_result(false, outs) == ResponseView::Solutions(solutions_in(outs)),
        run_result(false, outs.push(o)) == match o {
            Outcome::Answer(s) => ResponseView::Solutions(solutions_in(outs).push(s)),
            Outcome::NoMore => ResponseView::Solutions(solutions_in(outs)),
            Outcome::Fault(m) => ResponseView::Failure(m@),
        },
    decreases outs.len(),
{
    if outs.len() == 0 {
        assert(solutions_in(outs) =~= Seq::empty());
        assert(outs.push(o)[0] == o);
        assert(outs.push(o).drop_first() =~= Seq::<Outcome>::empty());
        assert(solutions_in(Seq::<Outcome>::empty()) =~= Seq::empty());
        assert(run_result(false, outs.push(o).drop_first()) == ResponseView::Solutions(Seq::<Solution>::empty()));
        match o {
            Outcome::Answer(s) => {
                assert(seq![s] + Seq::<Solution>::empty() =~= solutions_in(outs).push(s));
            },
            _ => {},
        }
    } else {
        let rest = outs.drop_first();
        assert(all_answers(rest)) by {
            assert forall|i: int| 0 <= i < rest.len() implies #[trigger] rest[i] is Answer by {
                assert(rest[i] == outs[i + 1]);
            }
        }
        lemma_run_of_answers(rest, o);
        assert(outs.push(o).drop_first() =~= rest.push(o));
        assert(outs.push(o)[0] == outs[0]);
        assert(outs[0] is Answer);
        let s0 = outs[0]->Answer_0;
        assert(solutions_in(outs) =~= seq![s0] + solutions_in(rest));
        match o {
            Outcome::Answer(s) => {
                assert(seq![s0] + solutions_in(rest).push(s) =~= solutions_in(outs).push(s));
            },
            _ => {},
        }
    }
}

/// A ground goal: a single step of its iterator gives exactly the boolean
/// (or error) that the one-shot runner gives, and it is the only reply.
pub proof fn lemma_ground_single_step(outs: Seq<Outcome>)
    requires
        outs.len() > 0,
    ensures
        drive(true, Phase::Created, outs) == seq![run_result(true, outs)],
{
    assert(drive(true, Phase::Exhausted, outs.drop_first()) =~= Seq::empty());
    assert(drive(true, Phase::Created, outs) =~= seq![run_result(true, outs)]);
}

/// Driving the iterator of a goal with free variables to its end gives, in
/// order, the answers that the one-shot runner gives, then the terminal
/// marker; where the runner reports an error, the last reply is that error.
pub proof fn lemma_iterator_replays_run(p: Phase, outs: Seq<Outcome>)
    requires
        live(p),
        ends(outs),
    ensures
        drive(false, p, outs).len() > 0,
        match run_result(false, outs) {
            ResponseView::Solutions(ss) => answers_of(drive(false, p, outs)) == ss && drive(
                false,
                p,
                outs,
            ).last() is Done,
            ResponseView::Failure(m) => drive(false, p, outs).last() == ResponseView::Failure(m),
            _ => false,
        },
    decreases outs.len(),
{
    let d = drive(false, p, outs);
    let rest = outs.drop_first();
    let tail = drive(false, step_phase(false, outs[0]), rest);
    assert(d == seq![step_reply(false, outs[0])] + tail);
    assert(d.drop_first() =~= tail);
    match outs[0] {
        Outcome::Answer(s) => {
            let i = choose|i: int| 0 <= i < outs.len() && !(#[trigger] outs[i] is Answer);
            assert(i > 0);
            assert(rest[i - 1] == outs[i]);
            assert(ends(rest));
            lemma_iterator_replays_run(Phase::Active, rest);
            assert(d.last() == tail.last());
            assert(answers_of(d) == seq![s] + answers_of(tail));
        },
        _ => {
            assert(tail =~= Seq::empty());
            assert(answers_of(tail) =~= Seq::empty());
            assert(seq![] + Seq::<Solution>::empty() =~= Seq::<Solution>::empty());
        },
    }
}

/// The one-shot runner: it drives an iterator to its end and gathers what
/// it replies into one response.
pub struct QueryRun {
    iter: QueryIter,
    found: Vec<Solution>,
    truth: bool,
    fault: Option<Vec<char>>,
    fed: Ghost<Seq<Outcome>>,
}

impl QueryRun {
    pub closed spec fn ground(&self) -> bool {
        self.iter.ground
    }

    /// The outcomes handed over so far.
    pub closed spec fn fed(&self) -> Seq<Outcome> {
        self.fed@
    }

    /// The search has ended, and the response is known.
    pub closed spec fn done(&self) -> bool {
        !live(self.iter.phase)
    }

    closed spec fn gathered(&self) -> ResponseView {
        match self.fault {
            Some(m) => ResponseView::Failure(m@),
            None => if self.iter.ground {
                ResponseView::Truth(self.truth)
            } else {
                ResponseView::Solutions(self.found@)
            },
        }
    }

    pub closed spec fn wf(&self) -> bool {
        &&& !(self.iter.phase is Closed)
        &&& live(self.iter.phase) ==> {
            &&& all_answers(self.fed@)
            &&& self.fault is None
            &&& self.iter.ground ==> self.fed@.len() == 0
            &&& !self.iter.ground ==> self.found@ == solutions_in(self.fed@)
        }
        &&& !live(self.iter.phase) ==> self.gathered() == run_result(self.iter.ground, self.fed@)
    }

    /// A run of a compiled goal, before its first step.
    pub fn start(ground: bool) -> (r: QueryRun)
        ensures
            r.wf(),
            r.ground() == ground,
            r.fed() == Seq::<Outcome>::empty(),
            !r.done(),
    {
        let r = QueryRun {
            iter: QueryIter::open(ground),
            found: Vec::new(),
            truth: false,
            fault: None,
            fed: Ghost(Seq::empty()),
        };
        assert(r.found@ =~= solutions_in(r.fed@));
        r
    }

    /// Whether the search must take one more step.
    pub fn wants_step(&self) -> (b: bool)
        requires
            self.wf(),
        ensures
            b == !self.done(),
    {
        self.iter.wants_step()
    }

    /// Hands over the outcome of one step of the search.
    pub fn feed(&mut self, o: Outcome)
        requires
            old(self).wf(),
            !old(self).done(),
        ensures
            final(self).wf(),
            final(self).ground() == old(self).ground(),
            final(self).fed() == old(self).fed().push(o),
            final(self).done() == (old(self).ground() || !(o is Answer)),
    {
        let ghost before = self.fed@;
        let ghost go = o;
        proof {
            lemma_run_of_answers(before, o);
        }
        self.fed = Ghost(self.fed@.push(o));
        let reply = self.iter.next(Some(o));
        match reply {
            Response::Truth(b) => {
                self.truth = b;
                proof {
                    assert(before.push(go) =~= seq![go]);
                    assert(seq![go].drop_first() =~= Seq::<Outcome>::empty());
                }
            },
            Response::Solutions(mut v) => {
                let s = v.pop().unwrap();
                self.found.push(s);
                proof {
                    assert(all_answers(self.fed@)) by {
                        assert forall|i: int| 0 <= i < self.fed@.len() implies #[trigger] self.fed@[i] is Answer by {
                            if i < before.len() {
                                assert(self.fed@[i] == before[i]);
                            }
                        }
                    }
                    assert(solutions_in(before.push(go)) =~= solutions_in(before).push(s));
                }
            },
            Response::Failure(m) => {
                self.fault = Some(m);
                proof {
                    if self.iter.ground {
                        assert(before.push(go) =~= seq![go]);
                    }
                }
            },
            Response::Done => {},
        }
    }

    /// The gathered response, once the search has ended.
    pub fn finish(self) -> (r: Response)
        requires
            self.wf(),
            self.done(),
        ensures
            r@ == run_result(self.ground(), self.fed()),
    {
        match self.fault {
            Some(m) => Response::Failure(m),
            None => if self.iter.ground {
                Response::Truth(self.truth)
            } else {
                Response::Solutions(self.found)
            },
        }
    }
}

} // verus!
