//! Whole runs: what holds of every sequence of events the driver is fed.
//!
//! A run is the driver's `step` folded over the events of a walk. The
//! theorems here are stated over that fold, so they hold of whatever tree is
//! walked and of whatever the files and the backend turn out to be.

use vstd::prelude::*;
use crate::audio::wav_header;
use crate::dispatch::{outcome_of, DenoiseOutcome, FailureReason, OrderView, ReplyView};
use crate::driver::{
    doubled, failure_text, skip_text, summary_text, ActionView, Counters, DriverView, EventView,
    FatalView, PhaseView, FIRST_READ,
};
use crate::paths::{
    ends_in_separator, is_candidate, is_wav_name, lemma_mirror_one_to_one, mirrored, parent_of,
    under_root, wav_suffix,
};

verus! {

/// The state after `events`, one step for each.
pub open spec fn run(start: DriverView, events: Seq<EventView>) -> DriverView
    decreases events.len(),
{
    if events.len() == 0 {
        start
    } else {
        run(start, events.drop_last()).step(events.last()).0
    }
}

/// What the driver asks in answer to the event at place `i`.
pub open spec fn answer(start: DriverView, events: Seq<EventView>, i: int) -> ActionView {
    run(start, events.take(i)).step(events[i]).1
}

/// Whether an event brings a candidate: a regular file named `*.wav`.
pub open spec fn brings_candidate(event: EventView) -> bool {
    event matches EventView::Entry { path, is_file } && is_candidate(path, is_file)
}

/// How many candidates a walk brings.
pub open spec fn candidates(events: Seq<EventView>) -> nat
    decreases events.len(),
{
    if events.len() == 0 {
        0
    } else {
        candidates(events.drop_last()) + if brings_candidate(events.last()) {
            1nat
        } else {
            0nat
        }
    }
}

/// How many files the driver has taken up and not yet counted.
pub open spec fn in_hand(phase: PhaseView) -> nat {
    match phase {
        PhaseView::Validating { .. } => 1,
        PhaseView::Preparing { .. } => 1,
        PhaseView::Dispatching { .. } => 1,
        _ => 0,
    }
}

/// `path` stands somewhere in `line`.
pub open spec fn mentions(line: Seq<char>, path: Seq<char>) -> bool {
    exists|i: int|
        0 <= i && i + path.len() <= line.len() && #[trigger] line.subrange(i, i + path.len())
            == path
}

/// The path the backend is to write, as an order names it.
pub open spec fn output_of(order: OrderView) -> Seq<char> {
    match order {
        OrderView::Post { filename_denoised, .. } => filename_denoised,
        OrderView::Spawn { args, .. } => args.last(),
    }
}

/// The path the backend is to read, as an order names it.
pub open spec fn input_of(order: OrderView) -> Seq<char> {
    match order {
        OrderView::Post { filename, .. } => filename,
        OrderView::Spawn { args, .. } => args[args.len() - 2],
    }
}

/// Both diagnostics name the file they are about.
pub proof fn lemma_diagnostics_name_the_file(path: Seq<char>, reason: FailureReason)
    ensures
        mentions(skip_text(path), path),
        mentions(failure_text(path, reason), path),
{
    let a = "Skipping invalid WAV file: "@.len() as int;
    assert(skip_text(path).subrange(a, a + path.len()) =~= path);
    let b = "Denoising failed for "@.len() as int;
    assert(failure_text(path, reason).subrange(b, b + path.len()) =~= path);
}

/// A run that was given up stays given up.
pub proof fn lemma_failed_is_final(start: DriverView, events: Seq<EventView>)
    requires
        start.phase is Failed,
    ensures
        run(start, events).phase is Failed,
    decreases events.len(),
{
    if events.len() > 0 {
        lemma_failed_is_final(start, events.drop_last());
    }
}

/// The summary answers the end of the walk between two files, and nothing
/// else: a run that was given up, or that is told of the end while a file
/// is in hand, never gets one.
pub proof fn lemma_summary_only_at_the_end(state: DriverView, event: EventView)
    ensures
        state.step(event).1 is Finish <==> state.phase is Walking && event is EndOfTree,
        state.step(event).1 is Finish ==> state.step(event) == (
            DriverView { phase: PhaseView::Finished, ..state },
            ActionView::Finish { summary: summary_text(state.counters) },
        ),
{
}

/// One step keeps the books: unless it gives the run up, what is counted
/// and what is in hand grows by the candidate the event brings, if any.
pub proof fn lemma_step_keeps_count(state: DriverView, event: EventView)
    ensures
        !(state.step(event).0.phase is Failed) ==> state.step(event).0.counters.total() + in_hand(
            state.step(event).0.phase,
        ) == state.counters.total() + in_hand(state.phase) + if brings_candidate(event) {
            1nat
        } else {
            0nat
        },
{
}

/// Every candidate of a walk is accounted for: in a run that was not given
/// up, the two counters and the file in hand add up to the candidates met.
pub proof fn lemma_every_candidate_counted(start: DriverView, events: Seq<EventView>)
    ensures
        !(run(start, events).phase is Failed) ==> run(start, events).counters.total() + in_hand(
            run(start, events).phase,
        ) == start.counters.total() + in_hand(start.phase) + candidates(events),
    decreases events.len(),
{
    if events.len() > 0 {
        let before = run(start, events.drop_last());
        lemma_every_candidate_counted(start, events.drop_last());
        lemma_step_keeps_count(before, events.last());
    }
}

/// At the end of a run that began with nothing counted, `processed` and
/// `skipped` add up to the number of regular files named `*.wav` that the
/// walk met. A walk without such a file, an empty one too, ends with both
/// at zero.
pub proof fn lemma_counters_at_the_end(
    input_root: Seq<char>,
    output_root: Seq<char>,
    backend: crate::dispatch::BackendView,
    events: Seq<EventView>,
)
    requires
        run(DriverView::initial(input_root, output_root, backend), events).phase is Finished,
    ensures
        ({
            let end = run(DriverView::initial(input_root, output_root, backend), events);
            &&& end.counters.processed + end.counters.skipped == candidates(events)
            &&& candidates(events) == 0 ==> end.counters == Counters { processed: 0, skipped: 0 }
        }),
{
    lemma_every_candidate_counted(DriverView::initial(input_root, output_root, backend), events);
}

/// The same walk, the same files and the same replies give the same
/// counters: a run is a function of where it starts and what it is told.
pub proof fn lemma_run_is_repeatable(
    first: DriverView,
    second: DriverView,
    first_events: Seq<EventView>,
    second_events: Seq<EventView>,
)
    requires
        first == second,
        first_events == second_events,
    ensures
        run(first, first_events).counters == run(second, second_events).counters,
{
}

/// A candidate is taken up: the entry that brings it has the first bytes
/// of the file asked for, and nothing else changes.
pub proof fn lemma_candidate_is_taken_up(state: DriverView, path: Seq<char>)
    requires
        state.phase is Walking,
        is_wav_name(path),
    ensures
        state.step(EventView::Entry { path, is_file: true }) == (
            DriverView { phase: PhaseView::Validating { input: path, asked: FIRST_READ }, ..state },
            ActionView::ReadHeader { path, length: FIRST_READ },
        ),
{
}

/// Bytes without a header: more of the file is asked for, twice as much
/// each time, as long as the file may go on; a file that ends without a
/// header gives the run up.
pub proof fn lemma_header_is_asked_for_again(
    state: DriverView,
    path: Seq<char>,
    asked: u64,
    bytes: Seq<u8>,
)
    requires
        state.phase == (PhaseView::Validating { input: path, asked }),
        wav_header(bytes) is None,
    ensures
        ({
            let (read, answer) = state.step(EventView::Header { bytes });
            if bytes.len() < asked || asked == u64::MAX {
                answer == (ActionView::Abort { fatal: FatalView::MalformedHeader { path } })
            } else {
                &&& answer == ActionView::ReadHeader { path, length: doubled(asked) }
                &&& read.phase == PhaseView::Validating { input: path, asked: doubled(asked) }
                &&& read.counters == state.counters
                &&& read.backend == state.backend
                &&& asked > 0 ==> doubled(asked) > asked
            }
        }),
{
}

/// What is asked of a file is never less than at first, so every further
/// ask is for more.
pub proof fn lemma_asks_never_shrink(start: DriverView, events: Seq<EventView>)
    requires
        !(start.phase is Validating),
    ensures
        run(start, events).phase matches PhaseView::Validating { asked, .. } ==> asked
            >= FIRST_READ,
    decreases events.len(),
{
    if events.len() > 0 {
        lemma_asks_never_shrink(start, events.drop_last());
    }
}

/// A candidate in another format is passed over: a diagnostic names it,
/// `skipped` goes up by one, and no order is given.
pub proof fn lemma_rejected_is_passed_over(
    state: DriverView,
    path: Seq<char>,
    asked: u64,
    bytes: Seq<u8>,
)
    requires
        state.phase == (PhaseView::Validating { input: path, asked }),
        wav_header(bytes) matches Some(spec) && !spec.accepted(),
        state.counters.skipped < u64::MAX,
    ensures
        ({
            let (read, answer) = state.step(EventView::Header { bytes });
            &&& answer == ActionView::NextEntry { diagnostic: Some(skip_text(path)) }
            &&& mentions(skip_text(path), path)
            &&& read.counters.skipped == state.counters.skipped + 1
            &&& read.counters.processed == state.counters.processed
            &&& read.backend == state.backend
            &&& read.phase is Walking
        }),
{
    lemma_diagnostics_name_the_file(path, FailureReason::EmptyResponse);
}

/// What is asked in answer to the header of an accepted candidate, and in
/// answer to the news that its directory is ready: the state when the
/// order is out, and the order.
pub open spec fn sent(state: DriverView, bytes: Seq<u8>) -> (DriverView, ActionView) {
    let (read, answer) = state.step(EventView::Header { bytes });
    if answer is CreateDirectory {
        read.step(EventView::DirectoryReady)
    } else {
        (read, answer)
    }
}

/// An accepted candidate under the input root is dispatched exactly once:
/// its directory is asked for first, if it has one; then one order is
/// given, for the file and its mirrored output path; and the reply only
/// moves a counter and names the file where the backend failed on it.
pub proof fn lemma_accepted_is_dispatched_once(
    state: DriverView,
    path: Seq<char>,
    asked: u64,
    bytes: Seq<u8>,
    reply: ReplyView,
)
    requires
        state.phase == (PhaseView::Validating { input: path, asked }),
        wav_header(bytes) matches Some(spec) && spec.accepted(),
        under_root(state.input_root, path),
        state.counters.processed < u64::MAX,
        state.counters.skipped < u64::MAX,
    ensures
        ({
            let output = mirrored(state.input_root, state.output_root, path);
            let answer = state.step(EventView::Header { bytes }).1;
            let (waiting, order) = sent(state, bytes);
            let (done, last) = waiting.step(EventView::Replied { reply });
            &&& match parent_of(output) {
                Some(directory) => answer == ActionView::CreateDirectory { path: directory },
                None => answer == order,
            }
            &&& order == ActionView::Dispatch { order: state.backend.order_for(path, output) }
            &&& waiting.backend == state.backend.after_order()
            &&& waiting.counters == state.counters
            &&& done.backend == waiting.backend
            &&& done.phase is Walking
            &&& match outcome_of(reply) {
                DenoiseOutcome::Success => {
                    &&& last == ActionView::NextEntry { diagnostic: None }
                    &&& done.counters.processed == state.counters.processed + 1
                    &&& done.counters.skipped == state.counters.skipped
                },
                DenoiseOutcome::Failure(reason) => {
                    &&& last == ActionView::NextEntry {
                        diagnostic: Some(failure_text(path, reason)),
                    }
                    &&& mentions(failure_text(path, reason), path)
                    &&& done.counters.processed == state.counters.processed
                    &&& done.counters.skipped == state.counters.skipped + 1
                },
            }
        }),
{
    match outcome_of(reply) {
        DenoiseOutcome::Failure(reason) => {
            lemma_diagnostics_name_the_file(path, reason);
        },
        _ => {},
    }
}

/// An order names the paths it was made for, whatever the backend.
pub proof fn lemma_order_names_paths(
    backend: crate::dispatch::BackendView,
    input: Seq<char>,
    output: Seq<char>,
)
    ensures
        input_of(backend.order_for(input, output)) == input,
        output_of(backend.order_for(input, output)) == output,
{
}

/// The state after `i + 1` events is one step from the state after `i`.
proof fn lemma_run_unfolds(start: DriverView, events: Seq<EventView>, i: int)
    requires
        0 <= i < events.len(),
    ensures
        run(start, events.take(i + 1)) == run(start, events.take(i)).step(events[i]).0,
{
    assert(events.take(i + 1).drop_last() == events.take(i));
}

/// No order is given before the directory of its output exists: where the
/// output path has a parent directory, the order answers the news that this
/// directory is ready, and the action just before it asked for it.
pub proof fn lemma_directory_before_dispatch(start: DriverView, events: Seq<EventView>, i: int)
    requires
        start.phase is Walking,
        0 <= i < events.len(),
        answer(start, events, i) is Dispatch,
    ensures
        ({
            let output = output_of(answer(start, events, i)->order);
            parent_of(output) matches Some(directory) ==> {
                &&& i > 0
                &&& events[i] is DirectoryReady
                &&& answer(start, events, i - 1) == ActionView::CreateDirectory { path: directory }
            }
        }),
{
    let before = run(start, events.take(i));
    match before.phase {
        PhaseView::Preparing { input, output } => {
            lemma_order_names_paths(before.backend, input, output);
            if i == 0 {
            } else {
                lemma_run_unfolds(start, events, i - 1);
            }
        },
        PhaseView::Validating { input, .. } => {
            let output = mirrored(before.input_root, before.output_root, input);
            lemma_order_names_paths(before.backend, input, output);
        },
        _ => {},
    }
}

/// The place of the last entry among `events`, or -1 where the walk has
/// brought none.
pub open spec fn last_entry(events: Seq<EventView>) -> int
    decreases events.len(),
{
    if events.len() == 0 {
        -1
    } else if events.last() is Entry {
        events.len() - 1
    } else {
        last_entry(events.drop_last())
    }
}

proof fn lemma_last_entry(events: Seq<EventView>)
    ensures
        -1 <= last_entry(events) < events.len(),
        last_entry(events) >= 0 ==> events[last_entry(events)] is Entry,
    decreases events.len(),
{
    if events.len() > 0 && !(events.last() is Entry) {
        lemma_last_entry(events.drop_last());
    }
}

/// The event at place `origin` brought the candidate `input`.
spec fn brought(events: Seq<EventView>, origin: int, input: Seq<char>) -> bool {
    &&& 0 <= origin < events.len()
    &&& brings_candidate(events[origin])
    &&& events[origin]->path == input
}

/// After `k` events the file in hand, if there is one, is the candidate of
/// the last entry, and the output path kept for it is its mirror image.
spec fn file_in_hand_known(start: DriverView, events: Seq<EventView>, k: int) -> bool {
    let state = run(start, events.take(k));
    let origin = last_entry(events.take(k));
    &&& state.input_root == start.input_root
    &&& state.output_root == start.output_root
    &&& match state.phase {
        PhaseView::Validating { input, .. } => brought(events, origin, input),
        PhaseView::Preparing { input, output } => {
            &&& brought(events, origin, input)
            &&& under_root(start.input_root, input)
            &&& output == mirrored(start.input_root, start.output_root, input)
        },
        PhaseView::Dispatching { input } => brought(events, origin, input),
        _ => true,
    }
}

proof fn lemma_file_in_hand(start: DriverView, events: Seq<EventView>, k: int)
    requires
        start.phase is Walking,
        0 <= k <= events.len(),
    ensures
        file_in_hand_known(start, events, k),
    decreases k,
{
    if k > 0 {
        lemma_file_in_hand(start, events, k - 1);
        lemma_run_unfolds(start, events, k - 1);
        lemma_last_entry(events.take(k - 1));
        assert(events.take(k).drop_last() == events.take(k - 1));
    }
}

/// Once an order was given, a file taken up for validation came with a
/// later entry.
proof fn lemma_next_file_is_later(start: DriverView, events: Seq<EventView>, i: int, k: int)
    requires
        0 <= i < k <= events.len(),
        answer(start, events, i) is Dispatch,
    ensures
        ({
            let state = run(start, events.take(k));
            state.phase is Validating || state.phase is Preparing ==> last_entry(events.take(k))
                > i
        }),
    decreases k,
{
    lemma_run_unfolds(start, events, k - 1);
    assert(events.take(k).drop_last() == events.take(k - 1));
    if k > i + 1 {
        lemma_next_file_is_later(start, events, i, k - 1);
    }
}

proof fn lemma_wav_name_is_no_directory(path: Seq<char>)
    requires
        is_wav_name(path),
    ensures
        !ends_in_separator(path),
{
    assert(path.skip(path.len() - 4)[3] == path.last());
}

/// What the order at place `i` was made for: the candidate of the last
/// entry before it, and the mirror image of its path.
proof fn lemma_order_is_for_last_entry(start: DriverView, events: Seq<EventView>, i: int)
    requires
        start.phase is Walking,
        0 <= i < events.len(),
        answer(start, events, i) is Dispatch,
    ensures
        ({
            let order = answer(start, events, i)->order;
            let origin = last_entry(events.take(i));
            &&& brought(events, origin, input_of(order))
            &&& origin < i
            &&& under_root(start.input_root, input_of(order))
            &&& output_of(order) == mirrored(
                start.input_root,
                start.output_root,
                input_of(order),
            )
        }),
{
    let before = run(start, events.take(i));
    lemma_file_in_hand(start, events, i);
    lemma_last_entry(events.take(i));
    match before.phase {
        PhaseView::Preparing { input, output } => {
            lemma_order_names_paths(before.backend, input, output);
        },
        PhaseView::Validating { input, .. } => {
            let output = mirrored(before.input_root, before.output_root, input);
            lemma_order_names_paths(before.backend, input, output);
        },
        _ => {},
    }
}

/// No output path is the target of two orders: in a run over a walk that
/// meets no candidate twice, any two orders name different output paths.
pub proof fn lemma_outputs_never_shared(
    start: DriverView,
    events: Seq<EventView>,
    i: int,
    j: int,
)
    requires
        start.phase is Walking,
        0 <= i < j < events.len(),
        answer(start, events, i) is Dispatch,
        answer(start, events, j) is Dispatch,
        forall|a: int, b: int|
            0 <= a < b < events.len() && brings_candidate(#[trigger] events[a])
                && brings_candidate(#[trigger] events[b]) ==> events[a]->path != events[b]->path,
    ensures
        output_of(answer(start, events, i)->order) != output_of(answer(start, events, j)->order),
{
    let first = answer(start, events, i)->order;
    let second = answer(start, events, j)->order;
    lemma_order_is_for_last_entry(start, events, i);
    lemma_order_is_for_last_entry(start, events, j);
    lemma_next_file_is_later(start, events, i, j);
    // The two orders are for the candidates of two different entries.
    let a = last_entry(events.take(i));
    let b = last_entry(events.take(j));
    assert(a < i < b);
    assert(input_of(first) != input_of(second));
    lemma_wav_name_is_no_directory(input_of(first));
    lemma_wav_name_is_no_directory(input_of(second));
    if output_of(first) == output_of(second) {
        lemma_mirror_one_to_one(
            start.input_root,
            start.output_root,
            input_of(first),
            input_of(second),
        );
    }
}

} // verus!
