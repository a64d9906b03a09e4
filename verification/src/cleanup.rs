//! The conflict resolver: finds the places where the log repeats a start or
//! a stop, and settles each by an answer of the operator.

use vstd::prelude::*;
use crate::days::joined;
use crate::event::TrackingEvent;
use crate::text::{parse_number, parsed_number, same_text, trim_text, trimmed};

verus! {

/// Whether two events are of the same kind: both starts, or both stops.
pub open spec fn same_kind(a: TrackingEvent, b: TrackingEvent) -> bool {
    (a is Start) == (b is Start)
}

/// Whether the log changes between start and stop at every step, so that
/// it holds no conflict.
pub open spec fn alternating(log: Seq<TrackingEvent>) -> bool {
    forall|i: int| 0 <= i < log.len() - 1 ==> !same_kind(#[trigger] log[i], log[i + 1])
}

/// The length of the run at the front of the log: the count of events of
/// one kind that stand there side by side.
pub open spec fn first_run_len(log: Seq<TrackingEvent>) -> nat
    decreases log.len(),
{
    if log.len() == 0 {
        0
    } else if log.len() >= 2 && same_kind(log[0], log[1]) {
        1 + first_run_len(log.drop_first())
    } else {
        1
    }
}

/// The log cut into its runs: the longest stretches of events of one kind.
/// These are what the resolver works on. A run of one event is in order as
/// it stands; a longer run is a conflict, wherever in the log it stands.
pub open spec fn runs(log: Seq<TrackingEvent>) -> Seq<Seq<TrackingEvent>>
    decreases log.len(),
    via runs_decreases
{
    if log.len() == 0 {
        Seq::empty()
    } else {
        let n = first_run_len(log) as int;
        seq![log.take(n)] + runs(log.skip(n))
    }
}

#[via_fn]
proof fn runs_decreases(log: Seq<TrackingEvent>) {
    lemma_first_run(log);
}

/// The run at the front is not empty, does not pass the end of the log,
/// holds one kind of event, and ends where the kind changes.
pub proof fn lemma_first_run(log: Seq<TrackingEvent>)
    ensures
        first_run_len(log) <= log.len(),
        log.len() > 0 ==> first_run_len(log) >= 1,
        forall|i: int| 0 <= i < first_run_len(log) ==> same_kind(#[trigger] log[i], log[0]),
        first_run_len(log) < log.len() ==> !same_kind(log[first_run_len(log) as int], log[0]),
    decreases log.len(),
{
    if log.len() >= 2 && same_kind(log[0], log[1]) {
        let rest = log.drop_first();
        lemma_first_run(rest);
        assert forall|i: int| 0 <= i < first_run_len(log) implies same_kind(
            #[trigger] log[i],
            log[0],
        ) by {
            if i > 0 {
                assert(log[i] == rest[i - 1]);
            }
        }
    }
}

/// A stretch at the front that holds one kind of event and ends where the
/// kind changes is the run at the front.
pub proof fn lemma_first_run_is(log: Seq<TrackingEvent>, n: int)
    requires
        1 <= n <= log.len(),
        forall|i: int| 0 <= i < n ==> same_kind(#[trigger] log[i], log[0]),
        n < log.len() ==> !same_kind(log[n], log[0]),
    ensures
        first_run_len(log) == n,
{
    lemma_first_run(log);
}

/// In a log without conflicts every run is a single event.
pub proof fn lemma_alternating_runs(log: Seq<TrackingEvent>)
    requires
        alternating(log),
    ensures
        runs(log).len() == log.len(),
        forall|i: int| 0 <= i < log.len() ==> #[trigger] runs(log)[i] == seq![log[i]],
    decreases log.len(),
{
    if log.len() > 0 {
        let rest = log.skip(1);
        assert forall|i: int| 0 <= i < rest.len() - 1 implies !same_kind(
            #[trigger] rest[i],
            rest[i + 1],
        ) by {
        }
        lemma_alternating_runs(rest);
        assert forall|i: int| 0 <= i < log.len() implies #[trigger] runs(log)[i] == seq![
            log[i],
        ] by {
        }
    }
}

/// The contents of a list of runs.
pub open spec fn views(list: Seq<Vec<TrackingEvent>>) -> Seq<Seq<TrackingEvent>> {
    list.map_values(|run: Vec<TrackingEvent>| run@)
}

/// Scans the log for conflicts. The result holds the runs of the log in
/// their order: a run of one event stands for an event that is in order, a
/// longer run is a conflict to settle. The last run is closed by the end of
/// the log as any other is by the event that follows it.
pub fn conflict_plan(data: &[TrackingEvent]) -> (found: Vec<Vec<TrackingEvent>>)
    ensures
        views(found@) == runs(data@),
        forall|i: int| 0 <= i < found@.len() ==> (#[trigger] found@[i])@.len() >= 1,
{
    let mut found: Vec<Vec<TrackingEvent>> = Vec::new();
    let mut i: usize = 0;
    proof {
        assert(data@.skip(0) =~= data@);
    }
    while i < data.len()
        invariant
            i <= data.len(),
            views(found@) + runs(data@.skip(i as int)) == runs(data@),
            forall|k: int| 0 <= k < found@.len() ==> (#[trigger] found@[k])@.len() >= 1,
        decreases data.len() - i,
    {
        let starts = data[i].is_start();
        let mut run: Vec<TrackingEvent> = Vec::new();
        run.push(data[i].clone());
        let mut j: usize = i + 1;
        while j < data.len() && data[j].is_start() == starts
            invariant
                i < j <= data.len(),
                starts == (data@[i as int] is Start),
                run@ == data@.subrange(i as int, j as int),
                forall|k: int| i <= k < j ==> same_kind(#[trigger] data@[k], data@[i as int]),
            decreases data.len() - j,
        {
            run.push(data[j].clone());
            j += 1;
        }
        proof {
            let rest = data@.skip(i as int);
            let n = (j - i) as int;
            assert forall|k: int| 0 <= k < n implies same_kind(#[trigger] rest[k], rest[0]) by {
            }
            lemma_first_run_is(rest, n);
            assert(rest.take(n) =~= run@);
            assert(rest.skip(n) =~= data@.skip(j as int));
        }
        let ghost before = found@;
        found.push(run);
        proof {
            assert(views(found@) =~= views(before).push(run@));
            assert(views(found@) + runs(data@.skip(j as int)) =~= views(before) + (seq![run@]
                + runs(data@.skip(j as int))));
        }
        i = j;
    }
    found
}

/// What an answer of the operator asks for.
#[derive(Debug, Clone, Copy, PartialEq, Eq, Structural)]
pub enum Choice {
    /// Keep every event of the conflict.
    KeepAll,
    /// Keep the event at this place of the conflict, counted from zero, and
    /// drop the others.
    Keep(usize),
    /// The answer is neither a number nor a word to skip: ask again.
    NotANumber,
    /// The answer is a number that names no event of the conflict: ask
    /// again.
    OutOfRange,
}

/// What an answer asks for, given the answer without the white space at
/// its ends, the number read from it, and the length of the conflict. The
/// word `skip` and the empty answer keep all; a number from 1 to the
/// length keeps the event that is listed under it.
pub open spec fn spec_choice(answer: Seq<char>, number: Option<u64>, run_len: nat) -> Choice {
    if answer == "skip"@ || answer.len() == 0 {
        Choice::KeepAll
    } else {
        match number {
            Some(n) => if 1 <= n <= run_len {
                Choice::Keep((n - 1) as usize)
            } else {
                Choice::OutOfRange
            },
            None => Choice::NotANumber,
        }
    }
}

/// What a line of input asks for.
pub open spec fn line_choice(line: Seq<char>, run_len: nat) -> Choice {
    spec_choice(trimmed(line), parsed_number(trimmed(line)), run_len)
}

/// What an answer asks for, given the answer without the white space at
/// its ends and the number read from it.
pub fn choice_of(answer: &str, number: Option<u64>, run_len: usize) -> (choice: Choice)
    ensures
        choice == spec_choice(answer@, number, run_len as nat),
        choice matches Choice::Keep(n) ==> n < run_len,
{
    if same_text(answer, "skip") || answer.is_empty() {
        Choice::KeepAll
    } else {
        match number {
            Some(n) => {
                if 1 <= n && n <= run_len as u64 {
                    Choice::Keep((n - 1) as usize)
                } else {
                    Choice::OutOfRange
                }
            },
            None => Choice::NotANumber,
        }
    }
}

/// What a line of input asks for.
pub fn read_choice(line: &str, run_len: usize) -> (choice: Choice)
    ensures
        choice == line_choice(line@, run_len as nat),
        choice matches Choice::Keep(n) ==> n < run_len,
{
    let answer = trim_text(line);
    choice_of(answer, parse_number(answer), run_len)
}

/// The texts of a list of lines.
pub open spec fn lines_of(answers: Seq<String>) -> Seq<Seq<char>> {
    answers.map_values(|line: String| line@)
}

/// The log that a plan comes to under the lines of the operator. The runs
/// are taken in their order. A run of one event is kept. A conflict takes
/// the next line: one that keeps all leaves the conflict as it is, one
/// that names an event leaves that event alone, and any other line is
/// passed over and the next one asked for. A conflict for which no line is
/// left stays as it is.
pub open spec fn settled(plan: Seq<Seq<TrackingEvent>>, lines: Seq<Seq<char>>) -> Seq<
    TrackingEvent,
>
    decreases plan.len(), lines.len(),
{
    if plan.len() == 0 {
        Seq::empty()
    } else if plan[0].len() < 2 || lines.len() == 0 {
        plan[0] + settled(plan.drop_first(), lines)
    } else {
        match line_choice(lines[0], plan[0].len()) {
            Choice::KeepAll => plan[0] + settled(plan.drop_first(), lines.drop_first()),
            Choice::Keep(n) => seq![plan[0][n as int]] + settled(
                plan.drop_first(),
                lines.drop_first(),
            ),
            _ => settled(plan, lines.drop_first()),
        }
    }
}

/// A plan whose runs are all single events comes to those events, whatever
/// the lines are.
pub proof fn lemma_settled_singles(plan: Seq<Seq<TrackingEvent>>, lines: Seq<Seq<char>>)
    requires
        forall|i: int| 0 <= i < plan.len() ==> (#[trigger] plan[i]).len() == 1,
    ensures
        settled(plan, lines).len() == plan.len(),
        forall|i: int| 0 <= i < plan.len() ==> #[trigger] settled(plan, lines)[i] == plan[i][0],
    decreases plan.len(),
{
    if plan.len() > 0 {
        let rest = plan.drop_first();
        assert forall|i: int| 0 <= i < rest.len() implies (#[trigger] rest[i]).len() == 1 by {
        }
        lemma_settled_singles(rest, lines);
        assert forall|i: int| 0 <= i < plan.len() implies #[trigger] settled(plan, lines)[i]
            == plan[i][0] by {
        }
    }
}

/// Cleaning a log that holds no conflict gives the log back, whatever the
/// operator would answer.
pub proof fn lemma_cleanup_keeps_alternating(log: Seq<TrackingEvent>, lines: Seq<Seq<char>>)
    requires
        alternating(log),
    ensures
        settled(runs(log), lines) == log,
{
    lemma_alternating_runs(log);
    assert forall|i: int| 0 <= i < runs(log).len() implies (#[trigger] runs(log)[i]).len()
        == 1 by {
    }
    lemma_settled_singles(runs(log), lines);
    assert forall|i: int| 0 <= i < log.len() implies settled(runs(log), lines)[i] == log[i] by {
    }
}

/// The runs of a log are not empty, each holds events of one kind, and a
/// run is of the other kind than the run before it.
pub proof fn lemma_runs_shape(log: Seq<TrackingEvent>)
    ensures
        forall|i: int| 0 <= i < runs(log).len() ==> (#[trigger] runs(log)[i]).len() >= 1,
        forall|i: int, k: int|
            0 <= i < runs(log).len() && 0 <= k < runs(log)[i].len() ==> same_kind(
                #[trigger] runs(log)[i][k],
                runs(log)[i][0],
            ),
        forall|i: int|
            0 <= i < runs(log).len() - 1 ==> !same_kind(
                (#[trigger] runs(log)[i])[0],
                runs(log)[i + 1][0],
            ),
        runs(log).len() > 0 ==> runs(log)[0][0] == log[0],
        runs(log).len() <= log.len(),
    decreases log.len(),
{
    if log.len() > 0 {
        lemma_first_run(log);
        let n = first_run_len(log) as int;
        let rest = log.skip(n);
        let tail = runs(rest);
        lemma_runs_shape(rest);
        assert forall|i: int| 0 <= i < runs(log).len() implies (#[trigger] runs(log)[i]).len()
            >= 1 by {
            if i > 0 {
                assert(runs(log)[i] == tail[i - 1]);
            }
        }
        assert forall|i: int, k: int|
            0 <= i < runs(log).len() && 0 <= k < runs(log)[i].len() implies same_kind(
            #[trigger] runs(log)[i][k],
            runs(log)[i][0],
        ) by {
            if i > 0 {
                assert(runs(log)[i] == tail[i - 1]);
            } else {
                assert(runs(log)[0][k] == log[k]);
            }
        }
        assert forall|i: int| 0 <= i < runs(log).len() - 1 implies !same_kind(
            (#[trigger] runs(log)[i])[0],
            runs(log)[i + 1][0],
        ) by {
            assert(runs(log)[i + 1] == tail[i]);
            if i > 0 {
                assert(runs(log)[i] == tail[i - 1]);
            } else {
                assert(tail[0][0] == rest[0]);
                assert(rest[0] == log[n]);
            }
        }
    }
}

/// Whether every conflict of the plan is answered by a number: each takes
/// the next line, and that line names one of its events.
pub open spec fn numbered(plan: Seq<Seq<TrackingEvent>>, lines: Seq<Seq<char>>) -> bool
    decreases plan.len(),
{
    if plan.len() == 0 {
        true
    } else if plan[0].len() < 2 {
        numbered(plan.drop_first(), lines)
    } else {
        lines.len() > 0 && line_choice(lines[0], plan[0].len()) is Keep && numbered(
            plan.drop_first(),
            lines.drop_first(),
        )
    }
}

/// Where every conflict is answered by a number, the cleaned log holds one
/// event of each run, in the order of the runs: a run of one event gives
/// that event, a conflict the event that was chosen.
pub proof fn lemma_numbered_keeps_one(plan: Seq<Seq<TrackingEvent>>, lines: Seq<Seq<char>>)
    requires
        numbered(plan, lines),
        forall|i: int| 0 <= i < plan.len() ==> 1 <= (#[trigger] plan[i]).len() <= usize::MAX,
    ensures
        settled(plan, lines).len() == plan.len(),
        forall|i: int|
            0 <= i < plan.len() ==> (#[trigger] plan[i]).contains(settled(plan, lines)[i]),
    decreases plan.len(),
{
    if plan.len() > 0 {
        let rest = plan.drop_first();
        let left = if plan[0].len() < 2 {
            lines
        } else {
            lines.drop_first()
        };
        assert forall|i: int| 0 <= i < rest.len() implies 1 <= (#[trigger] rest[i]).len()
            <= usize::MAX by {
            assert(rest[i] == plan[i + 1]);
        }
        lemma_numbered_keeps_one(rest, left);
        let all = settled(plan, lines);
        let chosen: int = if plan[0].len() < 2 {
            0
        } else {
            line_choice(lines[0], plan[0].len())->Keep_0 as int
        };
        assert(0 <= chosen < plan[0].len());
        assert(all[0] == plan[0][chosen]);
        assert forall|i: int| 0 <= i < plan.len() implies (#[trigger] plan[i]).contains(
            all[i],
        ) by {
            if i > 0 {
                assert(all[i] == settled(rest, left)[i - 1]);
                assert(rest[i - 1] == plan[i]);
            }
        }
    }
}

/// Cleaning a log with a number for every conflict leaves a log without
/// conflicts: one event is left of each run, and starts and stops take
/// turns.
pub proof fn lemma_numbered_cleanup_alternates(log: Seq<TrackingEvent>, lines: Seq<Seq<char>>)
    requires
        numbered(runs(log), lines),
        log.len() <= usize::MAX,
    ensures
        settled(runs(log), lines).len() == runs(log).len(),
        forall|i: int|
            0 <= i < runs(log).len() ==> (#[trigger] runs(log)[i]).contains(
                settled(runs(log), lines)[i],
            ),
        alternating(settled(runs(log), lines)),
{
    lemma_runs_shape(log);
    let plan = runs(log);
    let cleaned = settled(plan, lines);
    assert forall|i: int| 0 <= i < plan.len() implies 1 <= (#[trigger] plan[i]).len()
        <= usize::MAX by {
        lemma_run_within(log, i);
    }
    lemma_numbered_keeps_one(plan, lines);
    assert forall|i: int| 0 <= i < cleaned.len() - 1 implies !same_kind(
        #[trigger] cleaned[i],
        cleaned[i + 1],
    ) by {
        assert(plan[i].contains(cleaned[i]));
        assert(plan[i + 1].contains(cleaned[i + 1]));
        let here = plan[i];
        let next = plan[i + 1];
        let k = choose|k: int| 0 <= k < here.len() && #[trigger] here[k] == cleaned[i];
        let m = choose|m: int| 0 <= m < next.len() && #[trigger] next[m] == cleaned[i + 1];
        assert(same_kind(plan[i][k], plan[i][0]));
        assert(same_kind(plan[i + 1][m], plan[i + 1][0]));
        assert(!same_kind(plan[i][0], plan[i + 1][0]));
    }
}

/// The runs of a log, one after the other, are the log.
pub proof fn lemma_runs_cover(log: Seq<TrackingEvent>)
    ensures
        joined(runs(log)) == log,
    decreases log.len(),
{
    if log.len() > 0 {
        lemma_first_run(log);
        let n = first_run_len(log) as int;
        lemma_runs_cover(log.skip(n));
        assert(runs(log).drop_first() =~= runs(log.skip(n)));
        assert(log.take(n) + log.skip(n) =~= log);
    }
}

/// No run of a log is longer than the log.
pub proof fn lemma_run_within(log: Seq<TrackingEvent>, i: int)
    requires
        0 <= i < runs(log).len(),
    ensures
        runs(log)[i].len() <= log.len(),
    decreases log.len(),
{
    if log.len() > 0 {
        lemma_first_run(log);
        let n = first_run_len(log) as int;
        if i > 0 {
            assert(runs(log)[i] == runs(log.skip(n))[i - 1]);
            lemma_run_within(log.skip(n), i - 1);
        }
    }
}

/// Whether every conflict of the plan is left as it is: each takes the
/// next line, if one is left, and that line keeps all.
pub open spec fn skipped(plan: Seq<Seq<TrackingEvent>>, lines: Seq<Seq<char>>) -> bool
    decreases plan.len(),
{
    if plan.len() == 0 {
        true
    } else if plan[0].len() < 2 || lines.len() == 0 {
        skipped(plan.drop_first(), lines)
    } else {
        line_choice(lines[0], plan[0].len()) is KeepAll && skipped(
            plan.drop_first(),
            lines.drop_first(),
        )
    }
}

/// A plan whose conflicts are all left as they are comes to its runs, one
/// after the other.
pub proof fn lemma_skipped(plan: Seq<Seq<TrackingEvent>>, lines: Seq<Seq<char>>)
    requires
        skipped(plan, lines),
    ensures
        settled(plan, lines) == joined(plan),
    decreases plan.len(),
{
    if plan.len() > 0 {
        if plan[0].len() < 2 || lines.len() == 0 {
            lemma_skipped(plan.drop_first(), lines);
        } else {
            lemma_skipped(plan.drop_first(), lines.drop_first());
        }
    }
}

/// No event leaves the log without a choice of the operator: where every
/// conflict is skipped, cleaning gives the log back.
pub proof fn lemma_skipped_cleanup_keeps_log(log: Seq<TrackingEvent>, lines: Seq<Seq<char>>)
    requires
        skipped(runs(log), lines),
    ensures
        settled(runs(log), lines) == log,
{
    lemma_runs_cover(log);
    lemma_skipped(runs(log), lines);
}

/// Where no answer is given at all, cleaning gives the log back.
pub proof fn lemma_unanswered_cleanup_keeps_log(log: Seq<TrackingEvent>)
    ensures
        settled(runs(log), Seq::empty()) == log,
{
    lemma_no_lines_skip(runs(log));
    lemma_skipped_cleanup_keeps_log(log, Seq::empty());
}

/// Without lines every conflict is left as it is.
pub proof fn lemma_no_lines_skip(plan: Seq<Seq<TrackingEvent>>)
    ensures
        skipped(plan, Seq::empty()),
    decreases plan.len(),
{
    if plan.len() > 0 {
        lemma_no_lines_skip(plan.drop_first());
    }
}

/// Copies the events of a run to the end of the cleaned log.
fn append_run(cleaned: &mut Vec<TrackingEvent>, run: &Vec<TrackingEvent>)
    ensures
        final(cleaned)@ == old(cleaned)@ + run@,
{
    let mut i: usize = 0;
    while i < run.len()
        invariant
            i <= run.len(),
            cleaned@ == old(cleaned)@ + run@.take(i as int),
        decreases run.len() - i,
    {
        cleaned.push(run[i].clone());
        i += 1;
    }
}

/// Cleans the log with the answers of the operator given in advance. The
/// conflicts of the log are settled in their order, each by the next
/// answer that is a valid choice for it; the answers in between are passed
/// over as the operator would be asked again. Conflicts for which no
/// answer is left stay as they are. The result holds the events that are
/// left, in the order of the log; a log without conflicts comes back
/// unchanged.
pub fn cleanup(data: &[TrackingEvent], answers: &[String]) -> (cleaned: Vec<TrackingEvent>)
    ensures
        cleaned@ == settled(runs(data@), lines_of(answers@)),
        alternating(data@) ==> cleaned@ == data@,
{
    let found = conflict_plan(data);
    let ghost todo = views(found@);
    let ghost lines = lines_of(answers@);
    let mut cleaned: Vec<TrackingEvent> = Vec::new();
    let mut p: usize = 0;
    let mut k: usize = 0;
    proof {
        assert(todo.skip(0) =~= todo);
        assert(lines.skip(0) =~= lines);
    }
    while p < found.len()
        invariant
            p <= found.len(),
            k <= answers.len(),
            todo == views(found@),
            lines == lines_of(answers@),
            cleaned@ + settled(todo.skip(p as int), lines.skip(k as int)) == settled(todo, lines),
        decreases found.len() - p + answers.len() - k,
    {
        let run = &found[p];
        proof {
            let open = todo.skip(p as int);
            assert(open.drop_first() =~= todo.skip(p + 1));
            if k < answers.len() {
                let left = lines.skip(k as int);
                assert(left.drop_first() =~= lines.skip(k + 1));
            }
        }
        if run.len() < 2 || k >= answers.len() {
            append_run(&mut cleaned, run);
            p += 1;
        } else {
            let choice = read_choice(answers[k].as_str(), run.len());
            match choice {
                Choice::KeepAll => {
                    append_run(&mut cleaned, run);
                    p += 1;
                },
                Choice::Keep(n) => {
                    cleaned.push(run[n].clone());
                    p += 1;
                },
                _ => {},
            }
            k += 1;
        }
    }
    proof {
        if alternating(data@) {
            lemma_cleanup_keeps_alternating(data@, lines);
        }
    }
    cleaned
}

/// A cleanup in progress, for an operator who answers one conflict at a
/// time. It holds what is settled so far and the runs that are still open;
/// while it is not finished, the first open run is a conflict that waits
/// for an answer.
pub struct CleanupSession {
    found: Vec<Vec<TrackingEvent>>,
    position: usize,
    cleaned: Vec<TrackingEvent>,
}

impl CleanupSession {
    /// The place of the session lies within its runs, and the run at that
    /// place, if there is one, is a conflict.
    #[verifier::type_invariant]
    spec fn waits_at_conflict(self) -> bool {
        &&& self.position <= self.found@.len()
        &&& self.position < self.found@.len() ==> self.found@[self.position as int]@.len() >= 2
    }

    /// The runs that are still open.
    pub closed spec fn open_runs(self) -> Seq<Seq<TrackingEvent>> {
        views(self.found@).skip(self.position as int)
    }

    /// The events that are settled so far.
    pub closed spec fn so_far(self) -> Seq<TrackingEvent> {
        self.cleaned@
    }

    /// The log that the session comes to if the operator goes on to answer
    /// with the given lines.
    pub open spec fn outcome(self, lines: Seq<Seq<char>>) -> Seq<TrackingEvent> {
        self.so_far() + settled(self.open_runs(), lines)
    }

    /// Settles the runs of one event from `position` on, up to the next
    /// conflict, and makes the session that waits there.
    fn advance(
        found: Vec<Vec<TrackingEvent>>,
        position: usize,
        cleaned: Vec<TrackingEvent>,
    ) -> (session: CleanupSession)
        requires
            position <= found@.len(),
        ensures
            forall|lines: Seq<Seq<char>>| #[trigger]
                session.outcome(lines) == cleaned@ + settled(
                    views(found@).skip(position as int),
                    lines,
                ),
            (forall|i: int| position <= i < found@.len() ==> (#[trigger] found@[i])@.len() < 2)
                ==> session.open_runs().len() == 0,
    {
        let mut position = position;
        let mut cleaned = cleaned;
        let ghost start = position;
        let ghost first = cleaned@;
        while position < found.len() && found[position].len() < 2
            invariant
                start <= position <= found@.len(),
                forall|lines: Seq<Seq<char>>| #[trigger]
                    (cleaned@ + settled(views(found@).skip(position as int), lines)) == first
                        + settled(views(found@).skip(start as int), lines),
            decreases found.len() - position,
        {
            let ghost before = cleaned@;
            let ghost open = views(found@).skip(position as int);
            append_run(&mut cleaned, &found[position]);
            position += 1;
            proof {
                assert(open.drop_first() =~= views(found@).skip(position as int));
                assert forall|lines: Seq<Seq<char>>| #[trigger]
                    (cleaned@ + settled(views(found@).skip(position as int), lines)) == first
                        + settled(views(found@).skip(start as int), lines) by {
                    assert(cleaned@ + settled(views(found@).skip(position as int), lines)
                        =~= before + settled(open, lines));
                }
            }
        }
        let session = CleanupSession { found, position, cleaned };
        proof {
            assert forall|lines: Seq<Seq<char>>| #[trigger]
                session.outcome(lines) == first + settled(
                    views(found@).skip(start as int),
                    lines,
                ) by {
            }
        }
        session
    }

    /// Opens a cleanup of the log. The events before the first conflict
    /// are settled at once; whatever the operator then answers, the session
    /// comes to what those answers make of the log.
    pub fn begin(data: &[TrackingEvent]) -> (session: CleanupSession)
        ensures
            forall|lines: Seq<Seq<char>>| #[trigger]
                session.outcome(lines) == settled(runs(data@), lines),
            alternating(data@) ==> session.open_runs().len() == 0 && session.so_far() == data@,
    {
        let found = conflict_plan(data);
        let session = CleanupSession::advance(found, 0, Vec::new());
        proof {
            assert(views(found@).skip(0) =~= views(found@));
            assert forall|lines: Seq<Seq<char>>| #[trigger]
                session.outcome(lines) == settled(runs(data@), lines) by {
            }
            if alternating(data@) {
                let none = Seq::<Seq<char>>::empty();
                lemma_cleanup_keeps_alternating(data@, none);
                lemma_alternating_runs(data@);
                assert forall|i: int| 0 <= i < found@.len() implies (#[trigger] found@[i])@.len()
                    < 2 by {
                    assert(runs(data@)[i] == seq![data@[i]]);
                }
                assert(session.outcome(none) =~= session.so_far());
            }
        }
        session
    }

    /// The conflict that waits for an answer; `None` when the cleanup has
    /// none left.
    pub fn conflict(&self) -> (run: Option<&Vec<TrackingEvent>>)
        ensures
            run is Some <==> self.open_runs().len() > 0,
            run matches Some(r) ==> r@ == self.open_runs()[0] && r@.len() >= 2,
    {
        proof {
            use_type_invariant(self);
        }
        if self.position < self.found.len() {
            Some(&self.found[self.position])
        } else {
            None
        }
    }

    /// Takes a line of the operator as the answer to the waiting conflict.
    /// The choice read from the line is handed back with the session that
    /// follows. A valid choice settles the conflict, and the events up to
    /// the next conflict with it; any other leaves the session as it was,
    /// to ask again. Either way the session that follows comes, under any
    /// further lines, to what the session before came to under this line
    /// and those.
    pub fn answer(self, line: &str) -> (next: (CleanupSession, Choice))
        ensures
            forall|lines: Seq<Seq<char>>| #[trigger]
                next.0.outcome(lines) == self.outcome(seq![line@] + lines),
            self.open_runs().len() > 0 ==> next.1 == line_choice(
                line@,
                self.open_runs()[0].len(),
            ),
            self.open_runs().len() == 0 ==> next.1 == Choice::KeepAll && next.0 == self,
            next.1 is NotANumber || next.1 is OutOfRange ==> next.0 == self,
    {
        proof {
            use_type_invariant(&self);
        }
        let ghost open = self.open_runs();
        if self.position >= self.found.len() {
            proof {
                assert forall|lines: Seq<Seq<char>>| #[trigger]
                    self.outcome(lines) == self.outcome(seq![line@] + lines) by {
                }
            }
            return (self, Choice::KeepAll);
        }
        let choice = read_choice(line, self.found[self.position].len());
        proof {
            assert forall|lines: Seq<Seq<char>>|
                (seq![line@] + lines).drop_first() == lines && (seq![line@] + lines)[0]
                    == line@ && #[trigger] (seq![line@] + lines).len() > 0 by {
            }
        }
        match choice {
            Choice::KeepAll => {
                let CleanupSession { found, position, cleaned } = self;
                let mut cleaned = cleaned;
                append_run(&mut cleaned, &found[position]);
                proof {
                    assert(open.drop_first() =~= views(found@).skip(position + 1));
                }
                let next = CleanupSession::advance(found, position + 1, cleaned);
                proof {
                    assert forall|lines: Seq<Seq<char>>| #[trigger]
                        next.outcome(lines) == self.outcome(seq![line@] + lines) by {
                    }
                }
                (next, choice)
            },
            Choice::Keep(n) => {
                let CleanupSession { found, position, cleaned } = self;
                let mut cleaned = cleaned;
                cleaned.push(found[position][n].clone());
                proof {
                    assert(open.drop_first() =~= views(found@).skip(position + 1));
                }
                let next = CleanupSession::advance(found, position + 1, cleaned);
                proof {
                    assert forall|lines: Seq<Seq<char>>| #[trigger]
                        next.outcome(lines) == self.outcome(seq![line@] + lines) by {
                    }
                }
                (next, choice)
            },
            _ => {
                proof {
                    assert forall|lines: Seq<Seq<char>>| #[trigger]
                        self.outcome(lines) == self.outcome(seq![line@] + lines) by {
                    }
                }
                (self, choice)
            },
        }
    }

    /// Ends the cleanup. Conflicts that are still open stay in the log as
    /// they are.
    pub fn finish(self) -> (cleaned: Vec<TrackingEvent>)
        ensures
            cleaned@ == self.outcome(Seq::<Seq<char>>::empty()),
            self.open_runs().len() == 0 ==> cleaned@ == self.so_far(),
    {
        proof {
            use_type_invariant(&self);
        }
        let ghost none = Seq::<Seq<char>>::empty();
        let CleanupSession { found, position, cleaned } = self;
        let mut cleaned = cleaned;
        let mut position = position;
        while position < found.len()
            invariant
                position <= found@.len(),
                none.len() == 0,
                cleaned@ + settled(views(found@).skip(position as int), none) == self.outcome(
                    none,
                ),
            decreases found.len() - position,
        {
            let ghost open = views(found@).skip(position as int);
            append_run(&mut cleaned, &found[position]);
            position += 1;
            proof {
                assert(open.drop_first() =~= views(found@).skip(position as int));
            }
        }
        cleaned
    }
}

} // verus!
