//! Background jobs: registering them, polling them, and removing the finished.

use vstd::prelude::*;
use vstd::string::*;
use crate::sys::{wait_child, ChildStatus};
use crate::text::{texts, decimal, push_decimal, push_signed_decimal, signed_decimal};

verus! {

/// One tracked child process.
pub struct Job {
    pub job_number: usize,
    pub pid: i32,
    pub command: String,
    pub finished: bool,
}

/// A job as contracts see it.
pub ghost struct JobView {
    pub job_number: nat,
    pub pid: int,
    pub command: Seq<char>,
    pub finished: bool,
}

impl JobView {
    /// The same job, marked as finished.
    pub open spec fn done(self) -> JobView {
        JobView { finished: true, ..self }
    }
}

impl View for Job {
    type V = JobView;

    open spec fn view(&self) -> JobView {
        JobView {
            job_number: self.job_number as nat,
            pid: self.pid as int,
            command: self.command@,
            finished: self.finished,
        }
    }
}

impl Clone for Job {
    fn clone(&self) -> (copy: Self)
        ensures
            copy == *self,
    {
        Job {
            job_number: self.job_number,
            pid: self.pid,
            command: self.command.clone(),
            finished: self.finished,
        }
    }
}

/// The views of a list of jobs, in order.
pub open spec fn job_views(jobs: Seq<Job>) -> Seq<JobView> {
    Seq::new(jobs.len(), |i: int| jobs[i]@)
}

/// What registering a job hands back: its number and its process id.
#[derive(Clone, Copy, Debug, PartialEq, Eq, Structural)]
pub struct JobHandle {
    pub job_number: usize,
    pub pid: i32,
}

/// The line that announces a new background job: its number in square
/// brackets, a space, and its process id.
pub open spec fn announcement_text(job_number: nat, pid: int) -> Seq<char> {
    seq!['['] + decimal(job_number) + "] "@ + signed_decimal(pid)
}

/// The line that reports a finished job: its number in square brackets, then
/// `+ done` and the text of its command.
pub open spec fn done_text(job: JobView) -> Seq<char> {
    seq!['['] + decimal(job.job_number) + "] + done "@ + job.command
}

/// The line that lists a live job: its number, its process id and the text of
/// its command.
pub open spec fn listing_text(job: JobView) -> Seq<char> {
    seq!['['] + decimal(job.job_number) + "]+ "@ + signed_decimal(job.pid) + seq![' ']
        + job.command
}

/// What listing the jobs prints: one line per live job, oldest first, or a
/// single fixed line when there is none.
pub open spec fn listing(jobs: Seq<JobView>) -> Seq<Seq<char>> {
    if jobs.len() == 0 {
        seq!["No active background processes."@]
    } else {
        Seq::new(jobs.len(), |i: int| listing_text(jobs[i]))
    }
}

impl JobHandle {
    /// The line that announces this job.
    pub fn announcement(&self) -> (line: String)
        ensures
            line@ == announcement_text(self.job_number as nat, self.pid as int),
    {
        let mut line = String::new();
        line.push('[');
        push_decimal(&mut line, self.job_number as u64);
        line.append("] ");
        push_signed_decimal(&mut line, self.pid as i64);
        assert(line@ =~= announcement_text(self.job_number as nat, self.pid as int));
        line
    }
}

impl Job {
    /// The line that reports this job as finished.
    pub fn done_line(&self) -> (line: String)
        ensures
            line@ == done_text(self@),
    {
        let mut line = String::new();
        line.push('[');
        push_decimal(&mut line, self.job_number as u64);
        line.append("] + done ");
        line.append(self.command.as_str());
        assert(line@ =~= done_text(self@));
        line
    }

    /// The line that lists this job.
    pub fn listing_line(&self) -> (line: String)
        ensures
            line@ == listing_text(self@),
    {
        let mut line = String::new();
        line.push('[');
        push_decimal(&mut line, self.job_number as u64);
        line.append("]+ ");
        push_signed_decimal(&mut line, self.pid as i64);
        line.push(' ');
        line.append(self.command.as_str());
        assert(line@ =~= listing_text(self@));
        line
    }
}

/// The jobs that stay live after a poll: those whose status does not say that
/// the process has terminated, in their old order.
pub open spec fn kept(jobs: Seq<JobView>, statuses: Seq<ChildStatus>) -> Seq<JobView>
    recommends
        jobs.len() == statuses.len(),
    decreases jobs.len(),
{
    if jobs.len() == 0 || statuses.len() == 0 {
        Seq::empty()
    } else {
        let before = kept(jobs.drop_last(), statuses.drop_last());
        if statuses.last().terminated() {
            before
        } else {
            before.push(jobs.last())
        }
    }
}

/// The jobs that a poll found terminated, each marked finished, in their old
/// order.
pub open spec fn reaped(jobs: Seq<JobView>, statuses: Seq<ChildStatus>) -> Seq<JobView>
    recommends
        jobs.len() == statuses.len(),
    decreases jobs.len(),
{
    if jobs.len() == 0 || statuses.len() == 0 {
        Seq::empty()
    } else {
        let before = reaped(jobs.drop_last(), statuses.drop_last());
        if statuses.last().terminated() {
            before.push(jobs.last().done())
        } else {
            before
        }
    }
}

/// The job manager as contracts see it.
pub ghost struct ManagerView {
    pub jobs: Seq<JobView>,
    pub next_job_number: nat,
}

impl ManagerView {
    /// A manager that has registered nothing yet.
    pub open spec fn initial() -> ManagerView {
        ManagerView { jobs: Seq::empty(), next_job_number: 1 }
    }

    /// Job numbers start at 1, grow along the list, and stay below the next
    /// number to be given out; no live job is marked finished.
    pub open spec fn wf(self) -> bool {
        &&& self.next_job_number >= 1
        &&& forall|i: int|
            0 <= i < self.jobs.len() ==> 1 <= (#[trigger] self.jobs[i]).job_number
                < self.next_job_number && !self.jobs[i].finished
        &&& forall|i: int, j: int|
            0 <= i < j < self.jobs.len() ==> (#[trigger] self.jobs[i]).job_number
                < (#[trigger] self.jobs[j]).job_number
    }

    /// The job that the next registration makes: it carries the next job
    /// number and is not finished.
    pub open spec fn next_job(self, pid: int, command: Seq<char>) -> JobView {
        JobView { job_number: self.next_job_number, pid, command, finished: false }
    }

    /// The manager after a new job is registered: the new job stands after the
    /// live ones, which keep their place.
    pub open spec fn register(self, pid: int, command: Seq<char>) -> ManagerView {
        ManagerView {
            jobs: self.jobs.push(self.next_job(pid, command)),
            next_job_number: self.next_job_number + 1,
        }
    }

    /// The manager after a poll that reported `statuses`, one per live job.
    pub open spec fn sweep(self, statuses: Seq<ChildStatus>) -> ManagerView {
        ManagerView { jobs: kept(self.jobs, statuses), next_job_number: self.next_job_number }
    }

    /// The manager after every job was waited for.
    pub open spec fn drained(self) -> ManagerView {
        ManagerView { jobs: Seq::empty(), next_job_number: self.next_job_number }
    }
}

/// Whether `job` is one of `jobs` whose status does not say terminated.
pub open spec fn stays(jobs: Seq<JobView>, statuses: Seq<ChildStatus>, job: JobView) -> bool {
    exists|i: int| 0 <= i < jobs.len() && !statuses[i].terminated() && #[trigger] jobs[i] == job
}

/// Whether `job` is one of `jobs` whose status says terminated, marked finished.
pub open spec fn leaves(jobs: Seq<JobView>, statuses: Seq<ChildStatus>, job: JobView) -> bool {
    exists|i: int|
        0 <= i < jobs.len() && statuses[i].terminated() && (#[trigger] jobs[i]).done() == job
}

/// Every job that stays, and every job that is reported, was one of the polled
/// jobs, and together they are as many as were polled.
pub proof fn lemma_sweep_sources(jobs: Seq<JobView>, statuses: Seq<ChildStatus>)
    requires
        jobs.len() == statuses.len(),
    ensures
        forall|k: int|
            0 <= k < kept(jobs, statuses).len() ==> stays(
                jobs,
                statuses,
                #[trigger] kept(jobs, statuses)[k],
            ),
        forall|k: int|
            0 <= k < reaped(jobs, statuses).len() ==> leaves(
                jobs,
                statuses,
                #[trigger] reaped(jobs, statuses)[k],
            ),
        kept(jobs, statuses).len() + reaped(jobs, statuses).len() == jobs.len(),
    decreases jobs.len(),
{
    if jobs.len() > 0 {
        let j0 = jobs.drop_last();
        let s0 = statuses.drop_last();
        lemma_sweep_sources(j0, s0);
        let last = jobs.len() - 1;
        assert forall|k: int| 0 <= k < kept(jobs, statuses).len() implies stays(
            jobs,
            statuses,
            #[trigger] kept(jobs, statuses)[k],
        ) by {
            if k < kept(j0, s0).len() {
                assert(stays(j0, s0, kept(j0, s0)[k]));
                let i = choose|i: int|
                    0 <= i < j0.len() && !s0[i].terminated() && #[trigger] j0[i] == kept(j0, s0)[k];
                assert(jobs[i] == j0[i] && statuses[i] == s0[i]);
            } else {
                assert(jobs[last] == kept(jobs, statuses)[k]);
            }
        }
        assert forall|k: int| 0 <= k < reaped(jobs, statuses).len() implies leaves(
            jobs,
            statuses,
            #[trigger] reaped(jobs, statuses)[k],
        ) by {
            if k < reaped(j0, s0).len() {
                assert(leaves(j0, s0, reaped(j0, s0)[k]));
                let i = choose|i: int|
                    0 <= i < j0.len() && s0[i].terminated() && (#[trigger] j0[i]).done() == reaped(
                        j0,
                        s0,
                    )[k];
                assert(jobs[i] == j0[i] && statuses[i] == s0[i]);
            } else {
                assert(jobs[last].done() == reaped(jobs, statuses)[k]);
            }
        }
    }
}

/// Each polled job lands in exactly one of the two lists: among the kept if its
/// status does not say terminated, among the reported otherwise.
pub proof fn lemma_sweep_members(jobs: Seq<JobView>, statuses: Seq<ChildStatus>, i: int)
    requires
        jobs.len() == statuses.len(),
        0 <= i < jobs.len(),
    ensures
        !statuses[i].terminated() ==> kept(jobs, statuses).contains(jobs[i]),
        statuses[i].terminated() ==> reaped(jobs, statuses).contains(jobs[i].done()),
    decreases jobs.len(),
{
    let j0 = jobs.drop_last();
    let s0 = statuses.drop_last();
    let last = jobs.len() - 1;
    if i == last {
        if statuses[i].terminated() {
            let r = reaped(jobs, statuses);
            assert(r[r.len() - 1] == jobs[i].done());
        } else {
            let k = kept(jobs, statuses);
            assert(k[k.len() - 1] == jobs[i]);
        }
    } else {
        lemma_sweep_members(j0, s0, i);
        assert(jobs[i] == j0[i] && statuses[i] == s0[i]);
        if statuses[i].terminated() {
            let w = choose|w: int| 0 <= w < reaped(j0, s0).len() && reaped(j0, s0)[w] == j0[i].done();
            assert(reaped(jobs, statuses)[w] == jobs[i].done());
        } else {
            let w = choose|w: int| 0 <= w < kept(j0, s0).len() && kept(j0, s0)[w] == j0[i];
            assert(kept(jobs, statuses)[w] == jobs[i]);
        }
    }
}

/// Job numbers strictly increase along `jobs`.
pub open spec fn numbers_increase(jobs: Seq<JobView>) -> bool {
    forall|i: int, j: int|
        0 <= i < j < jobs.len() ==> (#[trigger] jobs[i]).job_number
            < (#[trigger] jobs[j]).job_number
}

/// A poll keeps the job numbers in increasing order, both among the jobs that
/// stay and among those that are reported, so neither list names a job twice.
pub proof fn lemma_sweep_ordered(jobs: Seq<JobView>, statuses: Seq<ChildStatus>)
    requires
        jobs.len() == statuses.len(),
        numbers_increase(jobs),
    ensures
        numbers_increase(kept(jobs, statuses)),
        numbers_increase(reaped(jobs, statuses)),
    decreases jobs.len(),
{
    if jobs.len() > 0 {
        let j0 = jobs.drop_last();
        let s0 = statuses.drop_last();
        let last = jobs.len() - 1;
        assert(numbers_increase(j0)) by {
            assert forall|i: int, j: int| 0 <= i < j < j0.len() implies (#[trigger] j0[i]).job_number
                < (#[trigger] j0[j]).job_number by {
                assert(j0[i] == jobs[i] && j0[j] == jobs[j]);
            }
        }
        lemma_sweep_ordered(j0, s0);
        lemma_sweep_sources(j0, s0);
        let k0 = kept(j0, s0);
        let r0 = reaped(j0, s0);
        assert forall|k: int| 0 <= k < k0.len() implies (#[trigger] k0[k]).job_number
            < jobs[last].job_number by {
            assert(stays(j0, s0, k0[k]));
            let i = choose|i: int|
                0 <= i < j0.len() && !s0[i].terminated() && #[trigger] j0[i] == k0[k];
            assert(j0[i] == jobs[i]);
        }
        assert forall|k: int| 0 <= k < r0.len() implies (#[trigger] r0[k]).job_number
            < jobs[last].job_number by {
            assert(leaves(j0, s0, r0[k]));
            let i = choose|i: int|
                0 <= i < j0.len() && s0[i].terminated() && (#[trigger] j0[i]).done() == r0[k];
            assert(j0[i] == jobs[i]);
        }
    }
}

/// After a poll the live set holds exactly the jobs whose status did not say
/// terminated, and the reported list holds exactly the others, each once.
pub proof fn lemma_sweep_exact(m: ManagerView, statuses: Seq<ChildStatus>)
    requires
        m.wf(),
        m.jobs.len() == statuses.len(),
    ensures
        m.sweep(statuses).wf(),
        forall|i: int|
            0 <= i < m.jobs.len() ==> (!statuses[i].terminated() <==> m.sweep(
                statuses,
            ).jobs.contains(#[trigger] m.jobs[i])),
        forall|i: int|
            0 <= i < m.jobs.len() ==> (statuses[i].terminated() <==> reaped(
                m.jobs,
                statuses,
            ).contains(#[trigger] m.jobs[i].done())),
        numbers_increase(reaped(m.jobs, statuses)),
        m.sweep(statuses).jobs.len() + reaped(m.jobs, statuses).len() == m.jobs.len(),
{
    let jobs = m.jobs;
    let k = kept(jobs, statuses);
    let r = reaped(jobs, statuses);
    lemma_sweep_sources(jobs, statuses);
    lemma_sweep_ordered(jobs, statuses);
    assert forall|w: int| 0 <= w < k.len() implies 1 <= (#[trigger] k[w]).job_number
        < m.next_job_number && !k[w].finished by {
        assert(stays(jobs, statuses, k[w]));
        let i = choose|i: int|
            0 <= i < jobs.len() && !statuses[i].terminated() && #[trigger] jobs[i] == k[w];
    }
    assert forall|i: int| 0 <= i < jobs.len() implies (!statuses[i].terminated() <==> k.contains(
        #[trigger] jobs[i],
    )) by {
        lemma_sweep_members(jobs, statuses, i);
        if k.contains(jobs[i]) {
            let w = choose|w: int| 0 <= w < k.len() && k[w] == jobs[i];
            assert(stays(jobs, statuses, k[w]));
            let i2 = choose|i2: int|
                0 <= i2 < jobs.len() && !statuses[i2].terminated() && #[trigger] jobs[i2] == k[w];
            if i2 < i {
                assert(jobs[i2].job_number < jobs[i].job_number);
            } else if i < i2 {
                assert(jobs[i].job_number < jobs[i2].job_number);
            }
        }
    }
    assert forall|i: int| 0 <= i < jobs.len() implies (statuses[i].terminated() <==> r.contains(
        #[trigger] jobs[i].done(),
    )) by {
        lemma_sweep_members(jobs, statuses, i);
        if r.contains(jobs[i].done()) {
            let w = choose|w: int| 0 <= w < r.len() && r[w] == jobs[i].done();
            assert(leaves(jobs, statuses, r[w]));
            let i2 = choose|i2: int|
                0 <= i2 < jobs.len() && statuses[i2].terminated() && (#[trigger] jobs[i2]).done()
                    == r[w];
            if i2 < i {
                assert(jobs[i2].job_number < jobs[i].job_number);
            } else if i < i2 {
                assert(jobs[i].job_number < jobs[i2].job_number);
            }
        }
    }
}

/// One thing that can happen to a job manager.
pub ghost enum ManagerStep {
    /// A job is registered.
    Register { pid: int, command: Seq<char> },
    /// The live jobs are polled, with these answers, and the finished removed.
    Sweep { statuses: Seq<ChildStatus> },
    /// Every job is waited for and forgotten.
    Drain,
}

impl ManagerView {
    /// The manager after one step.
    pub open spec fn step(self, s: ManagerStep) -> ManagerView {
        match s {
            ManagerStep::Register { pid, command } => self.register(pid, command),
            ManagerStep::Sweep { statuses } => self.sweep(statuses),
            ManagerStep::Drain => self.drained(),
        }
    }
}

/// The manager after a run of steps from a fresh start.
pub open spec fn after(steps: Seq<ManagerStep>) -> ManagerView
    decreases steps.len(),
{
    if steps.len() == 0 {
        ManagerView::initial()
    } else {
        after(steps.drop_last()).step(steps.last())
    }
}

/// The job numbers given out during a run, in the order of the registrations.
pub open spec fn issued(steps: Seq<ManagerStep>) -> Seq<nat>
    decreases steps.len(),
{
    if steps.len() == 0 {
        Seq::empty()
    } else {
        let before = issued(steps.drop_last());
        if steps.last() is Register {
            before.push(after(steps.drop_last()).next_job_number)
        } else {
            before
        }
    }
}

/// In a proper run every poll brings one answer per live job.
pub open spec fn proper_run(steps: Seq<ManagerStep>) -> bool {
    forall|k: int|
        0 <= k < steps.len() ==> ((#[trigger] steps[k]) matches ManagerStep::Sweep { statuses }
            ==> statuses.len() == after(steps.take(k)).jobs.len())
}

/// Over any run, whatever is polled, removed or drained in between, the
/// registrations get the numbers 1, 2, 3, ... in order: job numbers strictly
/// increase and none is given out twice. The manager stays well formed.
pub proof fn lemma_job_numbers_never_reused(steps: Seq<ManagerStep>)
    requires
        proper_run(steps),
    ensures
        after(steps).wf(),
        after(steps).next_job_number == issued(steps).len() + 1,
        forall|k: int| 0 <= k < issued(steps).len() ==> #[trigger] issued(steps)[k] == k + 1,
        forall|i: int, j: int|
            0 <= i < j < issued(steps).len() ==> #[trigger] issued(steps)[i] < #[trigger] issued(
                steps,
            )[j],
    decreases steps.len(),
{
    if steps.len() > 0 {
        let init = steps.drop_last();
        let n = steps.len() - 1;
        assert(proper_run(init)) by {
            assert forall|k: int| 0 <= k < init.len() implies ((#[trigger] init[k]) matches ManagerStep::Sweep {
                statuses,
            } ==> statuses.len() == after(init.take(k)).jobs.len()) by {
                assert(init[k] == steps[k]);
                assert(init.take(k) =~= steps.take(k));
            }
        }
        lemma_job_numbers_never_reused(init);
        assert(steps.take(n) =~= init);
        let m = after(init);
        match steps.last() {
            ManagerStep::Register { pid, command } => {
                assert(m.register(pid, command).wf());
            },
            ManagerStep::Sweep { statuses } => {
                assert(steps[n] == steps.last());
                lemma_sweep_exact(m, statuses);
            },
            ManagerStep::Drain => {},
        }
    }
}

/// After any run, whatever was polled, removed or drained in it, the next
/// registration gets the number after the count of registrations so far: a
/// number above every number given out before, whether its job is still live
/// or long removed. The live jobs keep their place and their fields, and the
/// new job stands after them.
pub proof fn lemma_registration_is_fresh(steps: Seq<ManagerStep>, pid: int, command: Seq<char>)
    requires
        proper_run(steps),
    ensures
        after(steps).next_job(pid, command).job_number == issued(steps).len() + 1,
        forall|k: int|
            0 <= k < issued(steps).len() ==> #[trigger] issued(steps)[k] < after(steps).next_job(
                pid,
                command,
            ).job_number,
        forall|i: int|
            0 <= i < after(steps).jobs.len() ==> (#[trigger] after(steps).jobs[i]).job_number
                < after(steps).next_job(pid, command).job_number,
        after(steps).register(pid, command).jobs.len() == after(steps).jobs.len() + 1,
        after(steps).register(pid, command).jobs.drop_last() == after(steps).jobs,
        after(steps).register(pid, command).jobs.last() == after(steps).next_job(pid, command),
        after(steps).register(pid, command).wf(),
{
    lemma_job_numbers_never_reused(steps);
    let before = after(steps);
    assert(before.register(pid, command).jobs.drop_last() =~= before.jobs);
}

/// The life of a background job. Registered on a well-formed manager, it
/// gets the next number and is announced under it with its process id. When a
/// later poll finds its process terminated, it is reported last, under the
/// same number and with its command, and it leaves the live set; the jobs
/// before it fare as if it had never been there.
pub proof fn lemma_background_job_is_reported(
    m: ManagerView,
    pid: int,
    command: Seq<char>,
    statuses: Seq<ChildStatus>,
)
    requires
        m.wf(),
        statuses.len() == m.jobs.len() + 1,
        statuses.last().terminated(),
    ensures
        m.register(pid, command).wf(),
        announcement_text(m.next_job(pid, command).job_number, pid) == seq!['['] + decimal(
            m.next_job_number,
        ) + "] "@ + signed_decimal(pid),
        reaped(m.register(pid, command).jobs, statuses).len() > 0,
        reaped(m.register(pid, command).jobs, statuses).last() == m.next_job(pid, command).done(),
        done_text(m.next_job(pid, command).done()) == seq!['['] + decimal(m.next_job_number)
            + "] + done "@ + command,
        m.register(pid, command).sweep(statuses).jobs == kept(m.jobs, statuses.drop_last()),
        m.register(pid, command).sweep(statuses).next_job_number == m.next_job_number + 1,
{
    let now = m.register(pid, command);
    assert(now.jobs.drop_last() =~= m.jobs);
    assert(now.jobs.last() == m.next_job(pid, command));
}

/// The store of live background jobs. Jobs are kept in the order in which they
/// were registered.
pub struct BackgroundManager {
    jobs: Vec<Job>,
    next_job_number: usize,
}

impl View for BackgroundManager {
    type V = ManagerView;

    closed spec fn view(&self) -> ManagerView {
        ManagerView {
            jobs: job_views(self.jobs@),
            next_job_number: self.next_job_number as nat,
        }
    }
}

impl BackgroundManager {
    /// A manager with no jobs, whose first job will get number 1.
    pub fn new() -> (manager: Self)
        ensures
            manager@ == ManagerView::initial(),
            manager@.wf(),
    {
        let manager = BackgroundManager { jobs: Vec::new(), next_job_number: 1 };
        assert(manager@.jobs =~= Seq::empty());
        manager
    }

    /// The live jobs, oldest first.
    pub fn jobs(&self) -> (jobs: &Vec<Job>)
        ensures
            job_views(jobs@) == self@.jobs,
    {
        &self.jobs
    }

    /// The number that the next registered job will get.
    pub fn next_job_number(&self) -> (n: usize)
        ensures
            n == self@.next_job_number,
    {
        self.next_job_number
    }

    /// Whether another job can be registered: job numbers are never reused, so
    /// the counter must not have reached its largest value.
    pub fn can_register(&self) -> (r: bool)
        ensures
            r == (self@.next_job_number < usize::MAX),
    {
        self.next_job_number < usize::MAX
    }

    /// Registers a new live job for `pid` under the next job number and returns
    /// that number with the pid, for the caller to announce.
    pub fn add_job(&mut self, pid: i32, command: String) -> (handle: JobHandle)
        requires
            old(self)@.next_job_number < usize::MAX,
        ensures
            final(self)@ == old(self)@.register(pid as int, command@),
            handle.job_number == old(self)@.next_job_number,
            handle.pid == pid,
            old(self)@.wf() ==> final(self)@.wf(),
    {
        let job_number = self.next_job_number;
        let job = Job { job_number, pid, command, finished: false };
        self.jobs.push(job);
        self.next_job_number = job_number + 1;
        assert(self@.jobs =~= old(self)@.register(pid as int, command@).jobs);
        JobHandle { job_number, pid }
    }

    /// The lines that show the live jobs, oldest first, or the one line that
    /// says there is none. The manager is not changed.
    pub fn list_jobs(&self) -> (lines: Vec<String>)
        ensures
            texts(lines@) == listing(self@.jobs),
    {
        let mut lines: Vec<String> = Vec::new();
        if self.jobs.len() == 0 {
            lines.push(String::from_str("No active background processes."));
            assert(texts(lines@) =~= listing(self@.jobs));
            return lines;
        }
        let mut i: usize = 0;
        while i < self.jobs.len()
            invariant
                i <= self.jobs.len(),
                lines@.len() == i,
                forall|k: int| 0 <= k < i ==> (#[trigger] lines@[k])@ == listing_text(self.jobs@[k]@),
            decreases self.jobs.len() - i,
        {
            lines.push(self.jobs[i].listing_line());
            i += 1;
        }
        assert(texts(lines@) =~= listing(self@.jobs));
        lines
    }

    /// Asks, without blocking, for the status of every live job's process, in
    /// registration order. The answers are the kernel's: only their number is
    /// known in advance.
    pub fn poll_jobs(&self) -> (statuses: Vec<ChildStatus>)
        ensures
            statuses@.len() == self@.jobs.len(),
    {
        let mut statuses: Vec<ChildStatus> = Vec::new();
        let mut i: usize = 0;
        while i < self.jobs.len()
            invariant
                i <= self.jobs.len(),
                statuses@.len() == i,
            decreases self.jobs.len() - i,
        {
            statuses.push(wait_child(self.jobs[i].pid, true));
            i += 1;
        }
        statuses
    }

    /// Applies the outcome of a poll: every job whose status says terminated
    /// leaves the live set and is returned, marked finished, for the caller to
    /// report; every other job stays, unchanged and in place.
    pub fn reap(&mut self, statuses: &Vec<ChildStatus>) -> (done: Vec<Job>)
        requires
            statuses@.len() == old(self)@.jobs.len(),
        ensures
            final(self)@ == old(self)@.sweep(statuses@),
            job_views(done@) == reaped(old(self)@.jobs, statuses@),
            old(self)@.wf() ==> final(self)@.wf(),
    {
        let mut live: Vec<Job> = Vec::new();
        let mut done: Vec<Job> = Vec::new();
        let n = self.jobs.len();
        let ghost before = self@.jobs;
        let mut i: usize = 0;
        proof {
            assert(before.take(0) =~= Seq::empty());
            assert(job_views(live@) =~= Seq::empty());
            assert(job_views(done@) =~= Seq::empty());
        }
        while i < n
            invariant
                i <= n,
                n == self.jobs.len(),
                n == statuses@.len(),
                before == job_views(self.jobs@),
                job_views(live@) == kept(before.take(i as int), statuses@.take(i as int)),
                job_views(done@) == reaped(before.take(i as int), statuses@.take(i as int)),
            decreases n - i,
        {
            let job = &self.jobs[i];
            let ghost live0 = job_views(live@);
            let ghost done0 = job_views(done@);
            proof {
                assert(before.take(i + 1).drop_last() =~= before.take(i as int));
                assert(statuses@.take(i + 1).drop_last() =~= statuses@.take(i as int));
                assert(before.take(i + 1).last() == job@);
            }
            if statuses[i].is_terminated() {
                done.push(
                    Job {
                        job_number: job.job_number,
                        pid: job.pid,
                        command: job.command.clone(),
                        finished: true,
                    },
                );
                assert(job_views(done@) =~= done0.push(job@.done()));
            } else {
                live.push(job.clone());
                assert(job_views(live@) =~= live0.push(job@));
            }
            i += 1;
        }
        proof {
            assert(before.take(n as int) =~= before);
            assert(statuses@.take(n as int) =~= statuses@);
            if old(self)@.wf() {
                lemma_sweep_exact(old(self)@, statuses@);
            }
        }
        self.jobs = live;
        done
    }

    /// Polls every live job once, without blocking, and removes those whose
    /// process has exited or was killed by a signal. The removed jobs are
    /// returned, marked finished, for the caller to report. A job that is still
    /// running, is stopped, or whose poll failed stays live and unchanged.
    pub fn check_and_cleanup_jobs(&mut self) -> (done: Vec<Job>)
        ensures
            exists|statuses: Seq<ChildStatus>|
                statuses.len() == old(self)@.jobs.len() && final(self)@ == (#[trigger] old(
                    self,
                )@.sweep(statuses)) && job_views(done@) == reaped(old(self)@.jobs, statuses),
            final(self)@.next_job_number == old(self)@.next_job_number,
            old(self)@.wf() ==> final(self)@.wf(),
    {
        let statuses = self.poll_jobs();
        let done = self.reap(&statuses);
        assert(self@ == old(self)@.sweep(statuses@));
        done
    }

    /// Waits, blocking, for the process of every live job, oldest first, and
    /// then forgets all of them. Failed waits are ignored and nothing is
    /// reported.
    pub fn wait_all(&mut self)
        ensures
            final(self)@ == old(self)@.drained(),
            old(self)@.wf() ==> final(self)@.wf(),
    {
        let mut i: usize = 0;
        while i < self.jobs.len()
            invariant
                i <= self.jobs.len(),
                *self == *old(self),
            decreases self.jobs.len() - i,
        {
            let _ = wait_child(self.jobs[i].pid, false);
            i += 1;
        }
        self.jobs.clear();
        assert(self@.jobs =~= Seq::empty());
    }
}

} // verus!
