//! Batch bookkeeping: the two monotone counters, the first-success output
//! directory, and the ordered progress events. One failure degrades that
//! file alone; the batch always runs to completion and reports final counts.

use vstd::prelude::*;
use crate::paths;

verus! {

/// How one conversion job ended: the path written, or a failure message.
pub enum JobOutcome {
    Success(Vec<u8>),
    Failure(Vec<u8>),
}

/// One progress report, consumed in delivery order (completion order across
/// workers, not submission order).
pub enum ProgressEvent {
    BatchStarted { total: usize },
    JobFinished { completed: usize, failed: usize, file_name: Vec<u8> },
    JobError { message: Vec<u8> },
    BatchFinished { completed: usize, failed: usize, first_output_dir: Option<Vec<u8>> },
}

/// The counters of one running batch, owned by the orchestrator.
pub struct BatchState {
    pub total: usize,
    pub completed: usize,
    pub failed: usize,
    pub first_output_dir: Option<Vec<u8>>,
}

impl BatchState {
    /// Jobs resolve at most once each: the counters never outrun the total.
    pub open spec fn wf(self) -> bool {
        self.completed + self.failed <= self.total
    }

    /// How many jobs have resolved, either way.
    pub open spec fn resolved(self) -> int {
        self.completed + self.failed
    }

    /// Opens a batch of `total` jobs. An empty batch finishes on the spot;
    /// any other announces its size first.
    pub fn start(total: usize) -> (r: (BatchState, Vec<ProgressEvent>))
        ensures
            r.0.wf(),
            r.0.total == total,
            r.0.completed == 0,
            r.0.failed == 0,
            r.0.first_output_dir is None,
            r.1@.len() == 1,
            total == 0 ==> r.1@[0] == (ProgressEvent::BatchFinished {
                completed: 0,
                failed: 0,
                first_output_dir: None,
            }),
            total > 0 ==> r.1@[0] == (ProgressEvent::BatchStarted { total }),
    {
        let st = BatchState { total, completed: 0, failed: 0, first_output_dir: None };
        let mut events: Vec<ProgressEvent> = Vec::new();
        if total == 0 {
            events.push(ProgressEvent::BatchFinished {
                completed: 0,
                failed: 0,
                first_output_dir: None,
            });
        } else {
            events.push(ProgressEvent::BatchStarted { total });
        }
        (st, events)
    }

    /// Books one resolved job: a success bumps the completed counter and —
    /// first writer wins — remembers the output's directory; a failure bumps
    /// the failed counter and reports its message first. Either way the
    /// job's finish is reported with the running counts.
    pub fn record(&mut self, file_name: Vec<u8>, outcome: JobOutcome) -> (events: Vec<
        ProgressEvent,
    >)
        requires
            old(self).wf(),
            old(self).resolved() < old(self).total,
        ensures
            final(self).wf(),
            final(self).total == old(self).total,
            final(self).resolved() == old(self).resolved() + 1,
            match outcome {
                JobOutcome::Success(out_path) => {
                    &&& final(self).completed == old(self).completed + 1
                    &&& final(self).failed == old(self).failed
                    &&& (old(self).first_output_dir is Some ==> final(self).first_output_dir
                        == old(self).first_output_dir)
                    &&& (old(self).first_output_dir is None ==> (final(self).first_output_dir
                        matches Some(d) && d@ == paths::dir_of(out_path@)))
                    &&& events@.len() == 1
                    &&& events@[0] == (ProgressEvent::JobFinished {
                        completed: final(self).completed,
                        failed: final(self).failed,
                        file_name: file_name,
                    })
                },
                JobOutcome::Failure(message) => {
                    &&& final(self).failed == old(self).failed + 1
                    &&& final(self).completed == old(self).completed
                    &&& final(self).first_output_dir == old(self).first_output_dir
                    &&& events@.len() == 2
                    &&& events@[0] == (ProgressEvent::JobError { message })
                    &&& events@[1] == (ProgressEvent::JobFinished {
                        completed: final(self).completed,
                        failed: final(self).failed,
                        file_name: file_name,
                    })
                },
            },
    {
        let mut events: Vec<ProgressEvent> = Vec::new();
        match outcome {
            JobOutcome::Success(out_path) => {
                self.completed = self.completed + 1;
                if self.first_output_dir.is_none() {
                    self.first_output_dir = Some(paths::dir_of_path(&out_path));
                }
                events.push(ProgressEvent::JobFinished {
                    completed: self.completed,
                    failed: self.failed,
                    file_name,
                });
            },
            JobOutcome::Failure(message) => {
                self.failed = self.failed + 1;
                events.push(ProgressEvent::JobError { message });
                events.push(ProgressEvent::JobFinished {
                    completed: self.completed,
                    failed: self.failed,
                    file_name,
                });
            },
        }
        events
    }

    /// Closes the batch once every job has resolved. The counts in the
    /// finishing event sum exactly to the total.
    pub fn finish(self) -> (ev: ProgressEvent)
        requires
            self.wf(),
            self.resolved() == self.total,
        ensures
            ev == (ProgressEvent::BatchFinished {
                completed: self.completed,
                failed: self.failed,
                first_output_dir: self.first_output_dir,
            }),
            self.completed + self.failed == self.total,
    {
        ProgressEvent::BatchFinished {
            completed: self.completed,
            failed: self.failed,
            first_output_dir: self.first_output_dir,
        }
    }
}

/// How many of the given outcomes are successes.
pub open spec fn success_count(s: Seq<JobOutcome>) -> int
    decreases s.len(),
{
    if s.len() == 0 {
        0int
    } else {
        success_count(s.drop_last()) + (if s.last() is Success {
            1int
        } else {
            0int
        })
    }
}

proof fn lemma_success_count_bounds(s: Seq<JobOutcome>)
    ensures
        0 <= success_count(s) <= s.len(),
    decreases s.len(),
{
    if s.len() > 0 {
        lemma_success_count_bounds(s.drop_last());
    }
}

/// Drives a whole batch over already-resolved jobs, in order. This is the
/// sequential core of the orchestrator: the event stream opens with the
/// batch size (or closes at once when there is nothing to do), reports every
/// job, and ends with a finishing event whose counts sum to the total —
/// completed successes plus failures, for every input.
pub fn run_batch(jobs: Vec<(Vec<u8>, JobOutcome)>) -> (events: Vec<ProgressEvent>)
    ensures
        jobs@.len() == 0 ==> events@ == seq![
            ProgressEvent::BatchFinished { completed: 0, failed: 0, first_output_dir: None },
        ],
        jobs@.len() > 0 ==> {
            &&& events@.len() > 1
            &&& events@[0] == (ProgressEvent::BatchStarted { total: jobs@.len() as usize })
            &&& (events@.last() matches ProgressEvent::BatchFinished {
                completed,
                failed,
                first_output_dir: _,
            } && completed == success_count(
                jobs@.map_values(|j: (Vec<u8>, JobOutcome)| j.1),
            ) && completed + failed == jobs@.len())
        },
{
    let ghost all = jobs@;
    let ghost outs = all.map_values(|j: (Vec<u8>, JobOutcome)| j.1);
    proof {
        lemma_success_count_bounds(outs);
    }
    let total = jobs.len();
    let (mut st, mut events) = BatchState::start(total);
    if total == 0 {
        proof {
            assert(events@ =~= seq![
                ProgressEvent::BatchFinished {
                    completed: 0,
                    failed: 0,
                    first_output_dir: None,
                },
            ]);
        }
        return events;
    }
    let mut jobs = jobs;
    let mut i: usize = 0;
    while i < total
        invariant
            i <= all.len(),
            all.len() == total,
            jobs@ == all.skip(i as int),
            outs == all.map_values(|j: (Vec<u8>, JobOutcome)| j.1),
            st.wf(),
            st.total == total,
            st.resolved() == i,
            st.completed == success_count(outs.take(i as int)),
            events@.len() >= 1,
            events@[0] == (ProgressEvent::BatchStarted { total }),
        decreases total - i,
    {
        proof {
            assert(jobs@.len() == all.len() - i);
        }
        let (name, outcome) = jobs.remove(0);
        proof {
            assert(all.skip(i as int)[0] == all[i as int]);
            assert(all.skip(i as int).remove(0) =~= all.skip(i + 1));
            assert(outs.take(i + 1).drop_last() =~= outs.take(i as int));
            assert(outs.take(i + 1).last() == outs[i as int]);
            assert(outs[i as int] == all[i as int].1);
        }
        let mut evs = st.record(name, outcome);
        events.append(&mut evs);
        i = i + 1;
    }
    proof {
        assert(outs.take(outs.len() as int) =~= outs);
    }
    let ev = st.finish();
    events.push(ev);
    events
}

} // verus!
