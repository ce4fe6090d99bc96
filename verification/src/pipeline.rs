//! The fetch pipeline: drives fetches over the full dependency set with a
//! bounded number of outstanding requests, and yields completed results in
//! whatever order they finish.  The pipeline itself is a state machine; the
//! control loop performs the actual network calls and reports each one back.

use vstd::prelude::*;

use crate::registry::{FetchError, Metadata};

verus! {

/// The names a sequence of owned strings stands for.
pub open spec fn names_view(s: Seq<String>) -> Seq<Seq<char>> {
    s.map_values(|x: String| x@)
}

/// The names of a produced-results list.
pub open spec fn produced_names(s: Seq<(String, Result<Metadata, FetchError>)>) -> Seq<Seq<char>> {
    s.map_values(|p: (String, Result<Metadata, FetchError>)| p.0@)
}

/// A bounded-concurrency fetch scheduler.  `pending` holds the names not yet
/// launched, `in_flight` the names of outstanding requests, `produced` every
/// completed result; no more than `ceiling` requests are ever outstanding,
/// and every submitted name is at all times in exactly one of the three.
pub struct FetchPipeline {
    pending: Vec<String>,
    in_flight: Vec<String>,
    produced: Vec<(String, Result<Metadata, FetchError>)>,
    ceiling: usize,
    submitted: Ghost<Seq<Seq<char>>>,
}

impl FetchPipeline {
    /// The names not yet launched, in submission order.
    pub closed spec fn spec_pending(self) -> Seq<Seq<char>> {
        names_view(self.pending@)
    }

    /// The names of the outstanding requests.
    pub closed spec fn spec_in_flight(self) -> Seq<Seq<char>> {
        names_view(self.in_flight@)
    }

    /// The completed results, in completion order.
    pub closed spec fn spec_produced(self) -> Seq<(String, Result<Metadata, FetchError>)> {
        self.produced@
    }

    /// The concurrency ceiling.
    pub closed spec fn spec_ceiling(self) -> usize {
        self.ceiling
    }

    /// Every name the pipeline was created over.
    pub closed spec fn spec_submitted(self) -> Seq<Seq<char>> {
        self.submitted@
    }

    /// At most `ceiling` requests are outstanding, and the pending,
    /// outstanding and produced names together are exactly the submitted
    /// names.
    pub closed spec fn wf(self) -> bool {
        &&& self.ceiling >= 1
        &&& self.in_flight@.len() <= self.ceiling
        &&& self.spec_pending().to_multiset().add(self.spec_in_flight().to_multiset()).add(
            produced_names(self.produced@).to_multiset(),
        ) =~= self.submitted@.to_multiset()
    }

    /// A pipeline over `names` with concurrency ceiling `ceiling`; nothing
    /// launched yet.
    pub fn new(names: Vec<String>, ceiling: usize) -> (p: FetchPipeline)
        requires
            ceiling >= 1,
        ensures
            p.wf(),
            p.spec_pending() == names_view(names@),
            p.spec_in_flight().len() == 0,
            p.spec_produced().len() == 0,
            p.spec_ceiling() == ceiling,
            p.spec_submitted() == names_view(names@),
    {
        let ghost submitted = names_view(names@);
        let p = FetchPipeline {
            pending: names,
            in_flight: Vec::new(),
            produced: Vec::new(),
            ceiling,
            submitted: Ghost(submitted),
        };
        proof {
            broadcast use vstd::seq_lib::group_to_multiset_ensures;

            assert(p.spec_in_flight() =~= Seq::<Seq<char>>::empty());
            assert(produced_names(p.produced@) =~= Seq::<Seq<char>>::empty());
            assert(p.spec_pending().to_multiset().add(
                p.spec_in_flight().to_multiset(),
            ).add(produced_names(p.produced@).to_multiset()) =~= p.submitted@.to_multiset());
        }
        p
    }

    /// Whether another fetch may start: something is pending and a slot is
    /// free under the ceiling.
    pub fn can_launch(&self) -> (b: bool)
        ensures
            b == (self.spec_pending().len() > 0 && self.spec_in_flight().len()
                < self.spec_ceiling()),
    {
        self.pending.len() > 0 && self.in_flight.len() < self.ceiling
    }

    /// Start the next pending fetch: its name moves from pending to
    /// outstanding and is handed to the caller.  The ceiling is never
    /// exceeded.
    pub fn launch(&mut self) -> (name: String)
        requires
            old(self).wf(),
            old(self).spec_pending().len() > 0,
            old(self).spec_in_flight().len() < old(self).spec_ceiling(),
        ensures
            final(self).wf(),
            name@ == old(self).spec_pending()[0],
            final(self).spec_pending() == old(self).spec_pending().drop_first(),
            final(self).spec_in_flight() == old(self).spec_in_flight().push(name@),
            final(self).spec_in_flight().len() <= final(self).spec_ceiling(),
            final(self).spec_produced() == old(self).spec_produced(),
            final(self).spec_ceiling() == old(self).spec_ceiling(),
            final(self).spec_submitted() == old(self).spec_submitted(),
    {
        let name = self.pending.remove(0);
        let name_again = name.clone();
        self.in_flight.push(name);
        proof {
            broadcast use vstd::seq_lib::group_to_multiset_ensures;

            assert(self.spec_pending() =~= names_view(old(self).pending@).drop_first());
            assert(names_view(old(self).pending@).drop_first() =~= names_view(
                old(self).pending@,
            ).remove(0));
            assert(self.spec_in_flight() =~= old(self).spec_in_flight().push(name_again@));
            assert(self.spec_pending().to_multiset().add(
                self.spec_in_flight().to_multiset(),
            ).add(produced_names(self.produced@).to_multiset()) =~= self.submitted@.to_multiset());
        }
        name_again
    }

    /// How many requests are outstanding.
    pub fn outstanding(&self) -> (n: usize)
        ensures
            n == self.spec_in_flight().len(),
    {
        self.in_flight.len()
    }

    /// Record one completed fetch, successful or not: the request at `idx`
    /// leaves the outstanding set and its result is appended to the output,
    /// whatever it is — one failure never blocks the rest, and as long as
    /// anything is still pending the freed slot lets the next fetch start.
    pub fn complete(&mut self, idx: usize, outcome: Result<Metadata, FetchError>)
        requires
            old(self).wf(),
            idx < old(self).spec_in_flight().len(),
        ensures
            final(self).wf(),
            final(self).spec_produced().len() == old(self).spec_produced().len() + 1,
            produced_names(final(self).spec_produced()) == produced_names(
                old(self).spec_produced(),
            ).push(old(self).spec_in_flight()[idx as int]),
            final(self).spec_produced()[old(self).spec_produced().len() as int].1 == outcome,
            final(self).spec_in_flight() == old(self).spec_in_flight().remove(idx as int),
            final(self).spec_pending() == old(self).spec_pending(),
            final(self).spec_ceiling() == old(self).spec_ceiling(),
            final(self).spec_submitted() == old(self).spec_submitted(),
            final(self).spec_pending().len() > 0 ==> (final(self).spec_pending().len() > 0
                && final(self).spec_in_flight().len() < final(self).spec_ceiling()),
    {
        let name = self.in_flight.remove(idx);
        self.produced.push((name, outcome));
        proof {
            broadcast use vstd::seq_lib::group_to_multiset_ensures;

            assert(self.spec_in_flight() =~= old(self).spec_in_flight().remove(idx as int));
            assert(produced_names(self.produced@) =~= produced_names(
                old(self).produced@,
            ).push(old(self).spec_in_flight()[idx as int]));
            assert(old(self).spec_in_flight().remove(idx as int).to_multiset() =~= old(
                self,
            ).spec_in_flight().to_multiset().remove(old(self).spec_in_flight()[idx as int]));
            assert(self.spec_pending().to_multiset().add(
                self.spec_in_flight().to_multiset(),
            ).add(produced_names(self.produced@).to_multiset()) =~= self.submitted@.to_multiset());
        }
    }

    /// The completed results so far.
    pub fn produced(&self) -> (r: &Vec<(String, Result<Metadata, FetchError>)>)
        ensures
            r@ == self.spec_produced(),
    {
        &self.produced
    }

    /// Whether everything submitted has completed.
    pub fn is_drained(&self) -> (b: bool)
        ensures
            b == (self.spec_pending().len() == 0 && self.spec_in_flight().len() == 0),
    {
        self.pending.len() == 0 && self.in_flight.len() == 0
    }

    /// Law: the outstanding set never exceeds the ceiling.
    pub proof fn lemma_bounded(self)
        requires
            self.wf(),
        ensures
            self.spec_in_flight().len() <= self.spec_ceiling(),
    {
    }

    /// Law: once the pipeline is drained, the produced results carry exactly
    /// the submitted names — each as many times as it was submitted, so each
    /// distinct name exactly once.
    pub proof fn lemma_drained_exactly_once(self)
        requires
            self.wf(),
            self.spec_pending().len() == 0,
            self.spec_in_flight().len() == 0,
        ensures
            produced_names(self.spec_produced()).to_multiset() == self.spec_submitted()
                .to_multiset(),
            forall|n: Seq<char>|
                produced_names(self.spec_produced()).to_multiset().count(n)
                    == self.spec_submitted().to_multiset().count(n),
    {
        broadcast use vstd::seq_lib::group_to_multiset_ensures;

        assert(self.spec_pending() =~= Seq::<Seq<char>>::empty());
        assert(self.spec_in_flight() =~= Seq::<Seq<char>>::empty());
        assert(produced_names(self.spec_produced()).to_multiset() =~= self.spec_submitted()
            .to_multiset());
    }
}

} // verus!
