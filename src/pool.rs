use vstd::multiset::Multiset;
use vstd::prelude::*;

verus! {

broadcast use {
    vstd::multiset::group_multiset_axioms,
    vstd::seq_lib::group_to_multiset_ensures,
    vstd::seq_lib::lemma_multiset_commutative,
};

/// Number of command-buffer entries created when a pipeline starts; entries
/// are named `0 .. POOL_SIZE`.
pub const POOL_SIZE: usize = 2;

/// The entries held by a role: none, or the one it holds.
pub open spec fn held(slot: Option<u64>) -> Multiset<u64> {
    match slot {
        Some(e) => Multiset::empty().insert(e),
        None => Multiset::empty(),
    }
}

/// How many entries a role holds.
pub open spec fn held_count(slot: Option<u64>) -> nat {
    if slot is Some {
        1
    } else {
        0
    }
}

/// The identities of the pool's entries, each once.
pub open spec fn pool_ids() -> Multiset<u64> {
    Multiset::empty().insert(0).insert(1)
}

/// The state of the handoff protocol: where each entry of the pool is, which
/// sides are still there, and how often each role has done its work.
pub struct PipelineModel {
    /// Entries queued for the recorder, front first.
    pub to_recorder: Seq<u64>,
    /// Entries queued for the presenter, front first.
    pub to_presenter: Seq<u64>,
    /// The entry the recorder is drawing into.
    pub recording: Option<u64>,
    /// The entry the presenter is submitting.
    pub submitting: Option<u64>,
    /// Entries taken out of circulation because the side they were sent to,
    /// or queued for, had gone.
    pub discarded: Seq<u64>,
    pub recorder_open: bool,
    pub presenter_open: bool,
    /// Times the recorder has taken an entry to draw into.
    pub records: nat,
    /// Presenter calls that submitted an entry and handed it back.
    pub presents: nat,
}

impl PipelineModel {
    /// Both queues seeded: every entry waits for the recorder.
    pub open spec fn initial() -> PipelineModel {
        PipelineModel {
            to_recorder: seq![0u64, 1u64],
            to_presenter: Seq::empty(),
            recording: None,
            submitting: None,
            discarded: Seq::empty(),
            recorder_open: true,
            presenter_open: true,
            records: 0,
            presents: 0,
        }
    }

    /// Entries in circulation: queued on either side or held by a role.
    pub open spec fn in_circulation(self) -> Multiset<u64> {
        self.to_recorder.to_multiset().add(self.to_presenter.to_multiset()).add(
            held(self.recording),
        ).add(held(self.submitting))
    }

    /// Every entry the pipeline has ever owned, in circulation or not.
    pub open spec fn inventory(self) -> Multiset<u64> {
        self.in_circulation().add(self.discarded.to_multiset())
    }

    pub open spec fn running(self) -> bool {
        self.recorder_open && self.presenter_open
    }

    pub open spec fn wf(self) -> bool {
        &&& self.inventory() == pool_ids()
        &&& self.recording is Some ==> self.recorder_open
        &&& self.submitting is Some ==> self.presenter_open
        &&& !self.recorder_open ==> self.to_recorder.len() == 0
        &&& !self.presenter_open ==> self.to_presenter.len() == 0
        &&& self.running() ==> self.discarded.len() == 0
        &&& self.presents + self.to_presenter.len() + held_count(self.recording) + held_count(
            self.submitting,
        ) <= self.records
        &&& self.records + self.to_recorder.len() <= self.presents + 2
    }

    /// The recorder takes the front of its queue to draw into.
    pub open spec fn can_take_for_recording(self) -> bool {
        self.recorder_open && self.recording is None && self.to_recorder.len() > 0
    }

    pub open spec fn take_for_recording(self) -> PipelineModel {
        PipelineModel {
            to_recorder: self.to_recorder.drop_first(),
            recording: Some(self.to_recorder[0]),
            records: self.records + 1,
            ..self
        }
    }

    /// The recorder is done drawing and sends the entry on; where the
    /// presenter has gone, the send fails and the entry leaves circulation.
    pub open spec fn can_finish_recording(self) -> bool {
        self.recording is Some
    }

    pub open spec fn finish_recording(self) -> PipelineModel {
        let e = self.recording->Some_0;
        if self.presenter_open {
            PipelineModel { to_presenter: self.to_presenter.push(e), recording: None, ..self }
        } else {
            PipelineModel { discarded: self.discarded.push(e), recording: None, ..self }
        }
    }

    /// The presenter takes the front of its queue to submit.
    pub open spec fn can_take_for_submission(self) -> bool {
        self.presenter_open && self.submitting is None && self.to_presenter.len() > 0
    }

    pub open spec fn take_for_submission(self) -> PipelineModel {
        PipelineModel {
            to_presenter: self.to_presenter.drop_first(),
            submitting: Some(self.to_presenter[0]),
            ..self
        }
    }

    /// The presenter has submitted its entry and hands it back; where the
    /// recorder has gone, the send fails and the entry leaves circulation.
    pub open spec fn can_finish_submission(self) -> bool {
        self.submitting is Some
    }

    pub open spec fn finish_submission(self) -> PipelineModel {
        let e = self.submitting->Some_0;
        if self.recorder_open {
            PipelineModel {
                to_recorder: self.to_recorder.push(e),
                submitting: None,
                presents: self.presents + 1,
                ..self
            }
        } else {
            PipelineModel { discarded: self.discarded.push(e), submitting: None, ..self }
        }
    }

    /// The recorder's side goes away between iterations; what was queued for
    /// it is dropped with its receiving end.
    pub open spec fn can_close_recorder(self) -> bool {
        self.recorder_open && self.recording is None
    }

    pub open spec fn close_recorder(self) -> PipelineModel {
        PipelineModel {
            to_recorder: Seq::empty(),
            discarded: self.discarded + self.to_recorder,
            recorder_open: false,
            ..self
        }
    }

    /// The presenter's side goes away between calls; what was queued for it
    /// is dropped with its receiving end.
    pub open spec fn can_close_presenter(self) -> bool {
        self.presenter_open && self.submitting is None
    }

    pub open spec fn close_presenter(self) -> PipelineModel {
        PipelineModel {
            to_presenter: Seq::empty(),
            discarded: self.discarded + self.to_presenter,
            presenter_open: false,
            ..self
        }
    }

    /// One step of the protocol leads from `self` to `next`.
    pub open spec fn step(self, next: PipelineModel) -> bool {
        ||| self.can_take_for_recording() && next == self.take_for_recording()
        ||| self.can_finish_recording() && next == self.finish_recording()
        ||| self.can_take_for_submission() && next == self.take_for_submission()
        ||| self.can_finish_submission() && next == self.finish_submission()
        ||| self.can_close_recorder() && next == self.close_recorder()
        ||| self.can_close_presenter() && next == self.close_presenter()
    }
}

/// A new pipeline, with every entry waiting for the recorder, satisfies the
/// protocol's invariant.
pub proof fn lemma_initial_wf()
    ensures
        PipelineModel::initial().wf(),
{
    let m = PipelineModel::initial();
    assert(seq![0u64, 1u64] == Seq::<u64>::empty().push(0).push(1));
    assert(m.inventory() =~= pool_ids());
}

/// Every step of the protocol from a well-formed state leads to a
/// well-formed state, so the invariant holds of every reachable state.
pub proof fn lemma_step_preserves_wf(m: PipelineModel, n: PipelineModel)
    requires
        m.wf(),
        m.step(n),
    ensures
        n.wf(),
{
    if m.can_take_for_recording() && n == m.take_for_recording() {
        let s = m.to_recorder;
        assert(s.drop_first() == s.remove(0));
        assert(s.contains(s[0]));
        assert(n.inventory() =~= m.inventory());
    } else if m.can_finish_recording() && n == m.finish_recording() {
        assert(n.inventory() =~= m.inventory());
    } else if m.can_take_for_submission() && n == m.take_for_submission() {
        let s = m.to_presenter;
        assert(s.drop_first() == s.remove(0));
        assert(s.contains(s[0]));
        assert(n.inventory() =~= m.inventory());
    } else if m.can_finish_submission() && n == m.finish_submission() {
        assert(n.inventory() =~= m.inventory());
    } else if m.can_close_recorder() && n == m.close_recorder() {
        assert(n.to_recorder.to_multiset() =~= Multiset::empty());
        assert(n.inventory() =~= m.inventory());
    } else {
        assert(n.to_presenter.to_multiset() =~= Multiset::empty());
        assert(n.inventory() =~= m.inventory());
    }
}

/// In every reachable state the pool keeps its size: the entries in the two
/// queues, plus the one the recorder holds and the one the presenter holds,
/// plus those dropped at shutdown, number exactly `POOL_SIZE`; while both
/// sides are there, none has been dropped, so the queues and the two roles
/// account for all of them.
pub proof fn lemma_pool_conserved(m: PipelineModel)
    requires
        m.wf(),
    ensures
        m.in_circulation().len() + m.discarded.len() == POOL_SIZE,
        m.running() ==> m.to_recorder.len() + m.to_presenter.len() + held_count(m.recording)
            + held_count(m.submitting) == POOL_SIZE,
{
    assert(held(m.recording).len() == held_count(m.recording));
    assert(held(m.submitting).len() == held_count(m.submitting));
    assert(pool_ids().len() == 2);
}

/// An entry has one owner at a time: the recorder and the presenter never
/// hold the same entry, an entry that a role holds is in no queue, no entry
/// is queued on both sides, and no queue holds an entry twice.
pub proof fn lemma_exclusive_possession(m: PipelineModel)
    requires
        m.wf(),
    ensures
        m.recording is Some && m.submitting is Some ==> m.recording != m.submitting,
        m.recording is Some ==> !m.to_recorder.contains(m.recording->Some_0)
            && !m.to_presenter.contains(m.recording->Some_0),
        m.submitting is Some ==> !m.to_recorder.contains(m.submitting->Some_0)
            && !m.to_presenter.contains(m.submitting->Some_0),
        forall|e: u64| !(#[trigger] m.to_recorder.contains(e) && m.to_presenter.contains(e)),
        m.to_recorder.no_duplicates(),
        m.to_presenter.no_duplicates(),
{
    assert forall|e: u64| m.inventory().count(e) <= 1 by {}
    assert forall|e: u64| #[trigger] m.to_recorder.to_multiset().contains(e) implies m.to_recorder.to_multiset().count(e) == 1 by {
        assert(m.inventory().count(e) <= 1);
    }
    assert forall|e: u64| #[trigger] m.to_presenter.to_multiset().contains(e) implies m.to_presenter.to_multiset().count(e) == 1 by {
        assert(m.inventory().count(e) <= 1);
    }
    m.to_recorder.lemma_multiset_has_no_duplicates_conv();
    m.to_presenter.lemma_multiset_has_no_duplicates_conv();
    if m.recording is Some {
        let e = m.recording->Some_0;
        assert(m.inventory().count(e) <= 1);
        assert(m.to_recorder.to_multiset().count(e) == 0);
        assert(m.to_presenter.to_multiset().count(e) == 0);
    }
    if m.submitting is Some {
        let e = m.submitting->Some_0;
        assert(m.inventory().count(e) <= 1);
        assert(m.to_recorder.to_multiset().count(e) == 0);
        assert(m.to_presenter.to_multiset().count(e) == 0);
    }
    assert forall|e: u64| !(#[trigger] m.to_recorder.contains(e) && m.to_presenter.contains(e)) by {
        assert(m.inventory().count(e) <= 1);
    }
}

/// The recorder runs at most two entries ahead of the presenter and never
/// behind it: after `presents` successful presenter calls it has been
/// invoked between `presents` and `presents + 2` times, and whenever an entry
/// waits for it (as right after a successful presenter call) at most
/// `presents + 1` times.
pub proof fn lemma_bounded_lag(m: PipelineModel)
    requires
        m.wf(),
    ensures
        m.presents <= m.records <= m.presents + 2,
        m.to_recorder.len() > 0 ==> m.records <= m.presents + 1,
{
}

/// What a receive on one of the two queues yields.
#[derive(Debug, Clone, Copy, PartialEq, Eq, Structural)]
pub enum Received {
    /// The entry with this identity, taken off the front of the queue.
    Entry(u64),
    /// The queue is empty and the side that sends into it has gone: nothing
    /// will ever arrive, the caller stops.
    Closed,
    /// The queue is empty and its sender is still there: a blocking receive
    /// waits here until the other side sends.
    Pending,
}

/// The pipeline as a whole.
#[derive(Debug, Clone, Copy, PartialEq, Eq, Structural)]
pub enum Phase {
    /// Both sides are there and entries circulate.
    Running,
    /// One side has gone; the other finishes its current step and stops.
    Draining,
    /// Both sides have gone. A stopped pipeline is never restarted.
    Stopped,
}

/// The double-buffered handoff protocol between a recorder and a presenter:
/// a pool of `POOL_SIZE` entries, named by their identities, moved between
/// two FIFO queues and the two roles by ownership transfer.
pub struct Pipeline {
    to_recorder: Vec<u64>,
    to_presenter: Vec<u64>,
    recording: Option<u64>,
    submitting: Option<u64>,
    discarded: Vec<u64>,
    recorder_open: bool,
    presenter_open: bool,
    records: Ghost<nat>,
    presents: Ghost<nat>,
}

impl View for Pipeline {
    type V = PipelineModel;

    closed spec fn view(&self) -> PipelineModel {
        PipelineModel {
            to_recorder: self.to_recorder@,
            to_presenter: self.to_presenter@,
            recording: self.recording,
            submitting: self.submitting,
            discarded: self.discarded@,
            recorder_open: self.recorder_open,
            presenter_open: self.presenter_open,
            records: self.records@,
            presents: self.presents@,
        }
    }
}

impl Pipeline {
    /// A pipeline whose queue to the recorder is seeded with the pool's
    /// entries, in order, and whose queue to the presenter is empty.
    pub fn new() -> (p: Pipeline)
        ensures
            p@ == PipelineModel::initial(),
            p@.wf(),
    {
        let mut to_recorder: Vec<u64> = Vec::new();
        let mut id: u64 = 0;
        while id < POOL_SIZE as u64
            invariant
                id <= POOL_SIZE,
                to_recorder@.len() == id,
                forall|i: int| 0 <= i < id ==> to_recorder@[i] == i,
            decreases POOL_SIZE - id,
        {
            to_recorder.push(id);
            id = id + 1;
        }
        assert(to_recorder@ =~= seq![0u64, 1u64]);
        let p = Pipeline {
            to_recorder,
            to_presenter: Vec::new(),
            recording: None,
            submitting: None,
            discarded: Vec::new(),
            recorder_open: true,
            presenter_open: true,
            records: Ghost(0),
            presents: Ghost(0),
        };
        proof {
            lemma_initial_wf();
            assert(p@.to_presenter =~= Seq::<u64>::empty());
            assert(p@.discarded =~= Seq::<u64>::empty());
            assert(p@ == PipelineModel::initial());
        }
        p
    }

    /// The recorder's receive: the front of its queue, if any; else whether
    /// it must wait or stop because the presenter has gone.
    pub fn recorder_receive(&mut self) -> (r: Received)
        requires
            old(self)@.wf(),
            old(self)@.recorder_open,
            old(self)@.recording is None,
        ensures
            final(self)@.wf(),
            old(self)@.to_recorder.len() > 0 ==> r == Received::Entry(old(self)@.to_recorder[0])
                && final(self)@ == old(self)@.take_for_recording(),
            old(self)@.to_recorder.len() == 0 ==> final(self)@ == old(self)@ && if old(
                self,
            )@.presenter_open {
                r == Received::Pending
            } else {
                r == Received::Closed
            },
    {
        if self.to_recorder.len() > 0 {
            let ghost before = self@;
            let e = self.to_recorder.remove(0);
            self.recording = Some(e);
            self.records = Ghost(self.records@ + 1);
            proof {
                assert(self@.to_recorder =~= before.to_recorder.drop_first());
                assert(self@ == before.take_for_recording());
                lemma_step_preserves_wf(before, self@);
            }
            Received::Entry(e)
        } else if self.presenter_open {
            Received::Pending
        } else {
            Received::Closed
        }
    }

    /// The recorder is done drawing into its entry and sends it to the
    /// presenter; the result says whether the send went through (it fails
    /// only once the presenter has gone, and the entry is then dropped).
    pub fn recorder_send(&mut self) -> (delivered: bool)
        requires
            old(self)@.wf(),
            old(self)@.recording is Some,
        ensures
            final(self)@.wf(),
            final(self)@ == old(self)@.finish_recording(),
            delivered == old(self)@.presenter_open,
    {
        let ghost before = self@;
        let e = self.recording.unwrap();
        self.recording = None;
        let delivered = self.presenter_open;
        if delivered {
            self.to_presenter.push(e);
        } else {
            self.discarded.push(e);
        }
        proof {
            assert(self@ == before.finish_recording());
            lemma_step_preserves_wf(before, self@);
        }
        delivered
    }

    /// The presenter's receive: the front of its queue, if any; else whether
    /// it must wait or stop because the recorder has gone.
    pub fn presenter_receive(&mut self) -> (r: Received)
        requires
            old(self)@.wf(),
            old(self)@.presenter_open,
            old(self)@.submitting is None,
        ensures
            final(self)@.wf(),
            old(self)@.to_presenter.len() > 0 ==> r == Received::Entry(
                old(self)@.to_presenter[0],
            ) && final(self)@ == old(self)@.take_for_submission(),
            old(self)@.to_presenter.len() == 0 ==> final(self)@ == old(self)@ && if old(
                self,
            )@.recorder_open {
                r == Received::Pending
            } else {
                r == Received::Closed
            },
    {
        if self.to_presenter.len() > 0 {
            let ghost before = self@;
            let e = self.to_presenter.remove(0);
            self.submitting = Some(e);
            proof {
                assert(self@.to_presenter =~= before.to_presenter.drop_first());
                assert(self@ == before.take_for_submission());
                lemma_step_preserves_wf(before, self@);
            }
            Received::Entry(e)
        } else if self.recorder_open {
            Received::Pending
        } else {
            Received::Closed
        }
    }

    /// The presenter has submitted its entry and sends it back to the
    /// recorder; the result says whether the send went through, which is
    /// when the presenter call counts as a presented frame.
    pub fn presenter_send(&mut self) -> (returned: bool)
        requires
            old(self)@.wf(),
            old(self)@.submitting is Some,
        ensures
            final(self)@.wf(),
            final(self)@ == old(self)@.finish_submission(),
            returned == old(self)@.recorder_open,
            returned ==> final(self)@.presents <= final(self)@.records <= final(self)@.presents
                + 1,
    {
        let ghost before = self@;
        let e = self.submitting.unwrap();
        self.submitting = None;
        let returned = self.recorder_open;
        if returned {
            self.to_recorder.push(e);
            self.presents = Ghost(self.presents@ + 1);
        } else {
            self.discarded.push(e);
        }
        proof {
            assert(self@ == before.finish_submission());
            lemma_step_preserves_wf(before, self@);
            lemma_bounded_lag(self@);
        }
        returned
    }

    /// The recorder's side goes away: its receiving end is dropped with
    /// whatever was queued for it.
    pub fn close_recorder(&mut self)
        requires
            old(self)@.wf(),
            old(self)@.can_close_recorder(),
        ensures
            final(self)@.wf(),
            final(self)@ == old(self)@.close_recorder(),
    {
        let ghost before = self@;
        self.discarded.append(&mut self.to_recorder);
        self.recorder_open = false;
        proof {
            assert(self@ == before.close_recorder());
            lemma_step_preserves_wf(before, self@);
        }
    }

    /// The presenter's side goes away: its receiving end is dropped with
    /// whatever was queued for it.
    pub fn close_presenter(&mut self)
        requires
            old(self)@.wf(),
            old(self)@.can_close_presenter(),
        ensures
            final(self)@.wf(),
            final(self)@ == old(self)@.close_presenter(),
    {
        let ghost before = self@;
        self.discarded.append(&mut self.to_presenter);
        self.presenter_open = false;
        proof {
            assert(self@ == before.close_presenter());
            lemma_step_preserves_wf(before, self@);
        }
    }

    /// The loop driver's decision at the end of an iteration, given what the
    /// "continue?" predicate answered: keep running, or leave the loop, which
    /// closes the recorder's side.
    pub fn end_iteration(&mut self, proceed: bool) -> (keep_running: bool)
        requires
            old(self)@.wf(),
            old(self)@.can_close_recorder(),
        ensures
            final(self)@.wf(),
            keep_running == proceed,
            proceed ==> final(self)@ == old(self)@,
            !proceed ==> final(self)@ == old(self)@.close_recorder(),
    {
        if !proceed {
            self.close_recorder();
        }
        proceed
    }

    pub fn phase(&self) -> (ph: Phase)
        ensures
            ph == (if self@.recorder_open && self@.presenter_open {
                Phase::Running
            } else if self@.recorder_open || self@.presenter_open {
                Phase::Draining
            } else {
                Phase::Stopped
            }),
    {
        if self.recorder_open && self.presenter_open {
            Phase::Running
        } else if self.recorder_open || self.presenter_open {
            Phase::Draining
        } else {
            Phase::Stopped
        }
    }

    pub fn is_recorder_open(&self) -> (r: bool)
        ensures
            r == self@.recorder_open,
    {
        self.recorder_open
    }

    pub fn is_presenter_open(&self) -> (r: bool)
        ensures
            r == self@.presenter_open,
    {
        self.presenter_open
    }

    /// The entry the recorder holds, if any.
    pub fn recording(&self) -> (r: Option<u64>)
        ensures
            r == self@.recording,
    {
        self.recording
    }

    /// The entry the presenter holds, if any.
    pub fn submitting(&self) -> (r: Option<u64>)
        ensures
            r == self@.submitting,
    {
        self.submitting
    }

    /// The entries queued for the recorder, front first.
    pub fn recorder_queue(&self) -> (r: &Vec<u64>)
        ensures
            r@ == self@.to_recorder,
    {
        &self.to_recorder
    }

    /// The entries queued for the presenter, front first.
    pub fn presenter_queue(&self) -> (r: &Vec<u64>)
        ensures
            r@ == self@.to_presenter,
    {
        &self.to_presenter
    }

    /// The entries that left circulation at shutdown.
    pub fn discarded(&self) -> (r: &Vec<u64>)
        ensures
            r@ == self@.discarded,
    {
        &self.discarded
    }

    /// How many entries are in circulation: queued on either side or held by
    /// a role.
    pub fn in_circulation(&self) -> (n: usize)
        requires
            self@.wf(),
        ensures
            n == self@.in_circulation().len(),
            self@.running() ==> n == POOL_SIZE,
    {
        proof {
            lemma_pool_conserved(self@);
            assert(held(self@.recording).len() == held_count(self@.recording));
            assert(held(self@.submitting).len() == held_count(self@.submitting));
        }
        let mut n = self.to_recorder.len() + self.to_presenter.len();
        if self.recording.is_some() {
            n = n + 1;
        }
        if self.submitting.is_some() {
            n = n + 1;
        }
        n
    }
}

} // verus!
