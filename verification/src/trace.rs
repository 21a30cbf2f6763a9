//! Whole runs: what a run reports over a sequence of outcomes.

use vstd::prelude::*;
use crate::executor::{destinations, no_files_text, Phase, Run};
use crate::listing::files_in_order;
use crate::message::Event;

verus! {

/// What the caller tells a run.
pub enum Report {
    /// The paths found under the input directory, or why it could not be read.
    Listed(Result<Seq<Seq<char>>, Seq<char>>),
    /// The output directory is there (`None`), or why it is not.
    DirectoryCreated(Option<Seq<char>>),
    /// The file that was due is copied (`None`), or why it is not.
    Copied(Option<Seq<char>>),
}

/// The run after one report.
pub open spec fn step(run: Run, report: Report) -> Run {
    match report {
        Report::Listed(found) => run.after_listing(found),
        Report::DirectoryCreated(failure) => run.after_directory(failure),
        Report::Copied(failure) => run.after_copy(failure),
    }
}

/// What the run emits on one report.
pub open spec fn step_events(run: Run, report: Report) -> Seq<Event> {
    match report {
        Report::Listed(found) => run.listing_events(found),
        Report::DirectoryCreated(failure) => run.directory_events(failure),
        Report::Copied(failure) => run.copy_events(failure),
    }
}

/// The run after all of `reports`, taken in turn.
pub open spec fn run_after(run: Run, reports: Seq<Report>) -> Run
    decreases reports.len(),
{
    if reports.len() == 0 {
        run
    } else {
        run_after(step(run, reports[0]), reports.drop_first())
    }
}

/// Everything the run emits over `reports`, in order.
pub open spec fn run_events(run: Run, reports: Seq<Report>) -> Seq<Event>
    decreases reports.len(),
{
    if reports.len() == 0 {
        Seq::empty()
    } else {
        step_events(run, reports[0]) + run_events(step(run, reports[0]), reports.drop_first())
    }
}

/// `count` successful copies in a row.
pub open spec fn copies(count: nat) -> Seq<Report> {
    Seq::new(count, |i: int| Report::Copied(None))
}

/// The progress events for the files `from + 1` to `from + count` of `total`.
pub open spec fn progress_events(from: nat, count: nat, total: nat) -> Seq<Event> {
    Seq::new(count, |i: int| Event::Progress { completed: (from + i + 1) as nat, total })
}

/// The reports of a run up to the first copy: the listing came in and the
/// output directory is there.
pub open spec fn opening(paths: Seq<Seq<char>>) -> Seq<Report> {
    seq![Report::Listed(Ok(paths)), Report::DirectoryCreated(None)]
}

/// Every step keeps a run well formed.
pub proof fn lemma_step_keeps_wf(run: Run, report: Report)
    requires
        run.wf(),
    ensures
        step(run, report).wf(),
{
}

/// A run over a single report is one step.
pub proof fn lemma_single_report(run: Run, report: Report)
    ensures
        run_after(run, seq![report]) == step(run, report),
        run_events(run, seq![report]) == step_events(run, report),
{
    let one = seq![report];
    let next = step(run, report);
    assert(one[0] == report);
    assert(one.drop_first() =~= Seq::<Report>::empty());
    assert(run_after(next, Seq::<Report>::empty()) == next);
    assert(run_events(next, Seq::<Report>::empty()) =~= Seq::<Event>::empty());
    assert(run_events(run, one) =~= step_events(run, report));
}

/// A run over two stretches of reports is the run over the first, followed
/// by the run over the second from where the first ended.
pub proof fn lemma_run_in_two(run: Run, first: Seq<Report>, second: Seq<Report>)
    ensures
        run_after(run, first + second) == run_after(run_after(run, first), second),
        run_events(run, first + second) == run_events(run, first) + run_events(
            run_after(run, first),
            second,
        ),
    decreases first.len(),
{
    if first.len() == 0 {
        assert(first + second =~= second);
        assert(Seq::<Event>::empty() + run_events(run, second) =~= run_events(run, second));
    } else {
        let all = first + second;
        assert(all[0] == first[0]);
        assert(all.drop_first() =~= first.drop_first() + second);
        let next = step(run, first[0]);
        lemma_run_in_two(next, first.drop_first(), second);
        assert(run_events(run, all) =~= run_events(run, first) + run_events(
            run_after(run, first),
            second,
        ));
    }
}

/// Once a run is finished it stays as it is and emits nothing, whatever it
/// is told.
pub proof fn lemma_finished_is_final(run: Run, reports: Seq<Report>)
    requires
        run.phase is Finished,
    ensures
        run_after(run, reports) == run,
        run_events(run, reports) == Seq::<Event>::empty(),
    decreases reports.len(),
{
    if reports.len() > 0 {
        assert(step(run, reports[0]) == run);
        assert(step_events(run, reports[0]) =~= Seq::<Event>::empty());
        lemma_finished_is_final(run, reports.drop_first());
        assert(run_events(run, reports) =~= Seq::<Event>::empty());
    }
}

/// A listing without a matching file ends the run at once: the one event is
/// the failure that says so, and no progress is ever reported.
pub proof fn lemma_empty_listing_fails(run: Run, paths: Seq<Seq<char>>, rest: Seq<Report>)
    requires
        run.phase is Listing,
        files_in_order(paths, run.extension).len() == 0,
    ensures
        run_events(run, seq![Report::Listed(Ok(paths))] + rest) == seq![
            Event::Failure(no_files_text()),
        ],
        run_after(run, seq![Report::Listed(Ok(paths))] + rest).phase is Finished,
{
    let first = seq![Report::Listed(Ok(paths))];
    lemma_run_in_two(run, first, rest);
    let next = step(run, first[0]);
    lemma_single_report(run, first[0]);
    assert(run_events(run, first) =~= seq![Event::Failure(no_files_text())]);
    lemma_finished_is_final(next, rest);
    assert(run_events(run, first + rest) =~= seq![Event::Failure(no_files_text())]);
}

/// A listing that could not be had ends the run at once with that failure.
pub proof fn lemma_unreadable_input_fails(run: Run, error: Seq<char>, rest: Seq<Report>)
    requires
        run.phase is Listing,
    ensures
        run_events(run, seq![Report::Listed(Err(error))] + rest) == seq![Event::Failure(error)],
        run_after(run, seq![Report::Listed(Err(error))] + rest).phase is Finished,
{
    let first = seq![Report::Listed(Err(error))];
    lemma_run_in_two(run, first, rest);
    let next = step(run, first[0]);
    lemma_single_report(run, first[0]);
    assert(run_events(run, first) =~= seq![Event::Failure(error)]);
    lemma_finished_is_final(next, rest);
    assert(run_events(run, first + rest) =~= seq![Event::Failure(error)]);
}

/// With a listing that holds a matching file and the output directory in
/// place, the run stands before its first copy, with all destinations
/// planned, and has emitted nothing yet.
pub proof fn lemma_opening(run: Run, paths: Seq<Seq<char>>)
    requires
        run.phase is Listing,
        run.wf(),
        files_in_order(paths, run.extension).len() > 0,
    ensures
        run_events(run, opening(paths)) == Seq::<Event>::empty(),
        run_after(run, opening(paths)) == (Run {
            phase: Phase::Copying,
            sources: files_in_order(paths, run.extension),
            targets: destinations(
                files_in_order(paths, run.extension),
                run.output,
                run.padding_zeros,
                run.include_original_name,
            ),
            ..run
        }),
        run_after(run, opening(paths)).wf(),
{
    let reports = opening(paths);
    let one = step(run, reports[0]);
    let tail = reports.drop_first();
    assert(tail[0] == Report::DirectoryCreated(None));
    assert(tail =~= seq![Report::DirectoryCreated(None)]);
    lemma_single_report(one, Report::DirectoryCreated(None));
    assert(run_events(one, tail) =~= Seq::<Event>::empty());
    assert(run_events(run, reports) =~= Seq::<Event>::empty());
}

/// While files are left over, `count` successful copies are reported one by
/// one, each with a count one higher than the last.
pub proof fn lemma_copies_progress(run: Run, count: nat)
    requires
        run.phase is Copying,
        run.wf(),
        run.completed + count < run.sources.len(),
    ensures
        run_after(run, copies(count)) == (Run { completed: run.completed + count, ..run }),
        run_events(run, copies(count)) == progress_events(
            run.completed,
            count,
            run.sources.len(),
        ),
    decreases count,
{
    let reports = copies(count);
    if count == 0 {
        assert(run_events(run, reports) =~= progress_events(run.completed, 0, run.sources.len()));
    } else {
        let next = step(run, reports[0]);
        assert(reports.drop_first() =~= copies((count - 1) as nat));
        lemma_copies_progress(next, (count - 1) as nat);
        assert(run_events(run, reports) =~= progress_events(
            run.completed,
            count,
            run.sources.len(),
        ));
    }
}

/// A run in which every copy succeeds reports each file once, counting from
/// 1 to the number of files, and closes with the list of all destinations.
pub proof fn lemma_full_success(run: Run, paths: Seq<Seq<char>>)
    requires
        run.phase is Listing,
        run.wf(),
        files_in_order(paths, run.extension).len() > 0,
    ensures
        ({
            let files = files_in_order(paths, run.extension);
            let reports = opening(paths) + copies(files.len());
            &&& run_events(run, reports) == progress_events(0, files.len(), files.len()).push(
                Event::Success(
                    destinations(files, run.output, run.padding_zeros, run.include_original_name),
                ),
            )
            &&& run_after(run, reports).phase is Finished
        }),
{
    let files = files_in_order(paths, run.extension);
    let total = files.len();
    let targets = destinations(files, run.output, run.padding_zeros, run.include_original_name);
    let start = run_after(run, opening(paths));
    lemma_opening(run, paths);
    lemma_run_in_two(run, opening(paths), copies(total));
    let before_last = copies((total - 1) as nat);
    let last = seq![Report::Copied(None)];
    assert(copies(total) =~= before_last + last);
    lemma_run_in_two(start, before_last, last);
    lemma_copies_progress(start, (total - 1) as nat);
    let almost = run_after(start, before_last);
    lemma_single_report(almost, Report::Copied(None));
    assert(run_events(almost, last) =~= almost.copy_events(None));
    assert(run_events(start, copies(total)) =~= progress_events(0, total, total).push(
        Event::Success(targets),
    ));
    assert(run_events(run, opening(paths) + copies(total)) =~= progress_events(
        0,
        total,
        total,
    ).push(Event::Success(targets)));
}

/// A copy that fails ends the run at once. The copies made before it were
/// each reported; the failure follows them as the last event, and whatever
/// the run is told afterwards, it reports nothing more and asks for no
/// further copy.
pub proof fn lemma_fail_fast(
    run: Run,
    paths: Seq<Seq<char>>,
    done: nat,
    error: Seq<char>,
    rest: Seq<Report>,
)
    requires
        run.phase is Listing,
        run.wf(),
        done < files_in_order(paths, run.extension).len(),
    ensures
        ({
            let total = files_in_order(paths, run.extension).len();
            let reports = opening(paths) + copies(done) + seq![Report::Copied(Some(error))] + rest;
            &&& run_events(run, reports) == progress_events(0, done, total).push(
                Event::Failure(error),
            )
            &&& run_after(run, reports).phase is Finished
            &&& run_after(run, reports).completed == done
        }),
{
    let total = files_in_order(paths, run.extension).len();
    let failing = seq![Report::Copied(Some(error))];
    let start = run_after(run, opening(paths));
    lemma_opening(run, paths);
    lemma_copies_progress(start, done);
    let stopped_at = run_after(start, copies(done));
    let ended = step(stopped_at, failing[0]);
    lemma_single_report(stopped_at, Report::Copied(Some(error)));
    assert(run_events(stopped_at, failing) =~= seq![Event::Failure(error)]);
    lemma_finished_is_final(ended, rest);
    lemma_run_in_two(stopped_at, failing, rest);
    lemma_run_in_two(start, copies(done), failing + rest);
    lemma_run_in_two(run, opening(paths), copies(done) + (failing + rest));
    assert(opening(paths) + copies(done) + failing + rest =~= opening(paths) + (copies(done) + (
        failing + rest)));
    assert(run_events(run, opening(paths) + copies(done) + failing + rest)
        =~= progress_events(0, done, total).push(Event::Failure(error)));
}

/// Whether an event closes a run.
pub open spec fn is_terminal(event: Event) -> bool {
    event is Success || event is Failure
}

/// What one step emits: progress only for the file just copied, counted
/// within the total; a closing event only as the last one, and exactly when
/// the step finishes the run.
pub proof fn lemma_step_events(run: Run, report: Report)
    requires
        run.wf(),
    ensures
        ({
            let emitted = step_events(run, report);
            let next = step(run, report);
            &&& next.completed >= run.completed
            &&& run.phase is Finished ==> emitted.len() == 0
            &&& forall|i: int|
                0 <= i < emitted.len() && is_terminal(#[trigger] emitted[i]) ==> i == emitted.len()
                    - 1
            &&& !(run.phase is Finished) ==> (next.phase is Finished <==> emitted.len() > 0
                && is_terminal(emitted.last()))
            &&& forall|i: int|
                0 <= i < emitted.len() ==> (#[trigger] emitted[i] matches Event::Progress {
                    completed,
                    total,
                } ==> completed == next.completed && completed == run.completed + 1 && 0 < completed
                    <= total)
        }),
{
}

/// A run closes at most once, and with its last event: no event follows a
/// success or a failure, and the run is finished exactly when the last event
/// emitted is one of the two.
pub proof fn lemma_one_terminal_event(run: Run, reports: Seq<Report>)
    requires
        run.wf(),
        !(run.phase is Finished),
    ensures
        ({
            let emitted = run_events(run, reports);
            &&& forall|i: int|
                0 <= i < emitted.len() && is_terminal(#[trigger] emitted[i]) ==> i == emitted.len()
                    - 1
            &&& run_after(run, reports).phase is Finished <==> emitted.len() > 0 && is_terminal(
                emitted.last(),
            )
        }),
    decreases reports.len(),
{
    if reports.len() > 0 {
        let first = step_events(run, reports[0]);
        let next = step(run, reports[0]);
        let rest = reports.drop_first();
        let later = run_events(next, rest);
        let emitted = run_events(run, reports);
        lemma_step_events(run, reports[0]);
        assert(emitted =~= first + later);
        if next.phase is Finished {
            lemma_finished_is_final(next, rest);
            assert(emitted =~= first);
        } else {
            lemma_one_terminal_event(next, rest);
            assert forall|i: int| 0 <= i < emitted.len() && is_terminal(
                #[trigger] emitted[i],
            ) implies i == emitted.len() - 1 by {
                if i < first.len() {
                    assert(emitted[i] == first[i]);
                } else {
                    assert(emitted[i] == later[i - first.len()]);
                }
            }
            if later.len() > 0 {
                assert(emitted.last() == later.last());
            } else if first.len() > 0 {
                assert(emitted.last() == first.last());
            }
        }
    }
}

/// Progress counts upwards: every progress event of a run counts a file
/// beyond those already copied and stays within the total, and of two
/// progress events the later has the higher count.
pub proof fn lemma_progress_rises(run: Run, reports: Seq<Report>)
    requires
        run.wf(),
    ensures
        ({
            let emitted = run_events(run, reports);
            &&& run_after(run, reports).completed >= run.completed
            &&& forall|i: int|
                0 <= i < emitted.len() ==> (#[trigger] emitted[i] matches Event::Progress {
                    completed,
                    total,
                } ==> run.completed < completed <= total && completed <= run_after(
                    run,
                    reports,
                ).completed)
            &&& forall|i: int, j: int|
                0 <= i < j < emitted.len() ==> (#[trigger] emitted[i] matches Event::Progress {
                    completed: earlier,
                    total: _,
                } ==> (#[trigger] emitted[j] matches Event::Progress { completed: later, total: _ }
                    ==> earlier < later))
        }),
    decreases reports.len(),
{
    if reports.len() > 0 {
        let first = step_events(run, reports[0]);
        let next = step(run, reports[0]);
        let rest = reports.drop_first();
        let later = run_events(next, rest);
        let emitted = run_events(run, reports);
        lemma_step_events(run, reports[0]);
        lemma_step_keeps_wf(run, reports[0]);
        lemma_progress_rises(next, rest);
        assert(emitted =~= first + later);
        assert forall|i: int| 0 <= i < emitted.len() implies (#[trigger] emitted[i] matches Event::Progress {
            completed,
            total,
        } ==> run.completed < completed <= total && completed <= run_after(
            run,
            reports,
        ).completed) by {
            if i < first.len() {
                assert(emitted[i] == first[i]);
            } else {
                assert(emitted[i] == later[i - first.len()]);
            }
        }
        assert forall|i: int, j: int| 0 <= i < j < emitted.len() implies (#[trigger] emitted[i] matches Event::Progress {
            completed: earlier,
            total: _,
        } ==> (#[trigger] emitted[j] matches Event::Progress { completed: later, total: _ }
            ==> earlier < later)) by {
            if i < first.len() {
                assert(emitted[i] == first[i]);
            } else {
                assert(emitted[i] == later[i - first.len()]);
            }
            if j < first.len() {
                assert(emitted[j] == first[j]);
            } else {
                assert(emitted[j] == later[j - first.len()]);
            }
        }
    }
}

} // verus!
