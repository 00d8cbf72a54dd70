//! The per-issue control flow: a state machine from phase and event to next
//! phase and action. The driver performs each action (an existence check, a
//! download, an engine step, a post) and hands the result back as the next
//! event. Terminal phases absorb every further event without action, so an
//! issue that already carries a terminal artifact is never reworked.

use vstd::prelude::*;

verus! {

/// Where the processing of one issue stands.
#[derive(Debug, Clone, Copy, PartialEq, Eq, Structural)]
pub enum Phase {
    AwaitPrCheck,
    AwaitCommentCheck,
    AwaitExtraction,
    AwaitFetch,
    AwaitParse,
    AwaitSmoothing,
    AwaitValidation,
    AwaitGeneration,
    AwaitReport,
    Done(Terminal),
}

/// How the processing of one issue ended.
#[derive(Debug, Clone, Copy, PartialEq, Eq, Structural)]
pub enum Terminal {
    /// A linked change request or a prior automated comment already exists.
    Skipped,
    /// The submission was rejected; the reason was posted.
    Declined,
    /// A confirmation was posted and a change request opened.
    Succeeded,
    /// An unexpected error; nothing was posted, the next pass retries.
    Failed,
}

/// What the driver reports back.
#[derive(Debug, Clone, Copy, PartialEq, Eq, Structural)]
pub enum Event {
    PrLinked(bool),
    Commented(bool),
    /// Extraction ran: was a usable URL found, and was smoothing requested?
    Extracted { has_url: bool, smoothing: bool },
    /// Download finished; `false` is a transport failure.
    Fetched(bool),
    /// Parsing finished; `false` is a parse failure.
    Parsed(bool),
    Smoothed,
    /// Validation finished; `false` means errors were found.
    Validated(bool),
    /// Generation of both artifact variants finished.
    Generated(bool),
    Posted,
}

/// What the driver must do next.
#[derive(Debug, Clone, Copy, PartialEq, Eq, Structural)]
pub enum Action {
    CheckPrLinked,
    CheckCommented,
    Extract,
    FetchDocument,
    ParseDocument,
    SmoothLines,
    ValidateDocument,
    GenerateArtifacts,
    PostDecline,
    PostSuccessAndOpenChangeRequest,
    Idle,
}

/// The machine: the phase, and whether smoothing was requested.
#[derive(Debug, Clone, Copy, PartialEq, Eq, Structural)]
pub struct ControlState {
    pub phase: Phase,
    pub smoothing: bool,
}

/// The transition function, in full.
pub open spec fn spec_step(s: ControlState, e: Event) -> (ControlState, Action) {
    match (s.phase, e) {
        (Phase::AwaitPrCheck, Event::PrLinked(true)) => (
            ControlState { phase: Phase::Done(Terminal::Skipped), ..s },
            Action::Idle,
        ),
        (Phase::AwaitPrCheck, Event::PrLinked(false)) => (
            ControlState { phase: Phase::AwaitCommentCheck, ..s },
            Action::CheckCommented,
        ),
        (Phase::AwaitCommentCheck, Event::Commented(true)) => (
            ControlState { phase: Phase::Done(Terminal::Skipped), ..s },
            Action::Idle,
        ),
        (Phase::AwaitCommentCheck, Event::Commented(false)) => (
            ControlState { phase: Phase::AwaitExtraction, ..s },
            Action::Extract,
        ),
        (Phase::AwaitExtraction, Event::Extracted { has_url: false, .. }) => (
            ControlState { phase: Phase::Done(Terminal::Declined), ..s },
            Action::PostDecline,
        ),
        (Phase::AwaitExtraction, Event::Extracted { has_url: true, smoothing }) => (
            ControlState { phase: Phase::AwaitFetch, smoothing },
            Action::FetchDocument,
        ),
        (Phase::AwaitFetch, Event::Fetched(false)) => (
            ControlState { phase: Phase::Done(Terminal::Failed), ..s },
            Action::Idle,
        ),
        (Phase::AwaitFetch, Event::Fetched(true)) => (
            ControlState { phase: Phase::AwaitParse, ..s },
            Action::ParseDocument,
        ),
        (Phase::AwaitParse, Event::Parsed(false)) => (
            ControlState { phase: Phase::Done(Terminal::Declined), ..s },
            Action::PostDecline,
        ),
        (Phase::AwaitParse, Event::Parsed(true)) => if s.smoothing {
            (ControlState { phase: Phase::AwaitSmoothing, ..s }, Action::SmoothLines)
        } else {
            (ControlState { phase: Phase::AwaitValidation, ..s }, Action::ValidateDocument)
        },
        (Phase::AwaitSmoothing, Event::Smoothed) => (
            ControlState { phase: Phase::AwaitValidation, ..s },
            Action::ValidateDocument,
        ),
        (Phase::AwaitValidation, Event::Validated(false)) => (
            ControlState { phase: Phase::Done(Terminal::Declined), ..s },
            Action::PostDecline,
        ),
        (Phase::AwaitValidation, Event::Validated(true)) => (
            ControlState { phase: Phase::AwaitGeneration, ..s },
            Action::GenerateArtifacts,
        ),
        (Phase::AwaitGeneration, Event::Generated(false)) => (
            ControlState { phase: Phase::Done(Terminal::Failed), ..s },
            Action::Idle,
        ),
        (Phase::AwaitGeneration, Event::Generated(true)) => (
            ControlState { phase: Phase::AwaitReport, ..s },
            Action::PostSuccessAndOpenChangeRequest,
        ),
        (Phase::AwaitReport, Event::Posted) => (
            ControlState { phase: Phase::Done(Terminal::Succeeded), ..s },
            Action::Idle,
        ),
        (Phase::Done(t), _) => (ControlState { phase: Phase::Done(t), ..s }, Action::Idle),
        // an event that does not fit the phase is a driver fault: the issue
        // is abandoned without a comment and retried on the next pass
        _ => (ControlState { phase: Phase::Done(Terminal::Failed), ..s }, Action::Idle),
    }
}

/// The machine's first state and the first thing the driver does.
pub fn start() -> (r: (ControlState, Action))
    ensures
        r.0 == (ControlState { phase: Phase::AwaitPrCheck, smoothing: false }),
        r.1 == Action::CheckPrLinked,
{
    (ControlState { phase: Phase::AwaitPrCheck, smoothing: false }, Action::CheckPrLinked)
}

/// Take one step.
pub fn step(s: ControlState, e: Event) -> (r: (ControlState, Action))
    ensures
        r == spec_step(s, e),
{
    let (phase, smoothing) = (s.phase, s.smoothing);
    match (phase, e) {
        (Phase::AwaitPrCheck, Event::PrLinked(true)) => (
            ControlState { phase: Phase::Done(Terminal::Skipped), smoothing },
            Action::Idle,
        ),
        (Phase::AwaitPrCheck, Event::PrLinked(false)) => (
            ControlState { phase: Phase::AwaitCommentCheck, smoothing },
            Action::CheckCommented,
        ),
        (Phase::AwaitCommentCheck, Event::Commented(true)) => (
            ControlState { phase: Phase::Done(Terminal::Skipped), smoothing },
            Action::Idle,
        ),
        (Phase::AwaitCommentCheck, Event::Commented(false)) => (
            ControlState { phase: Phase::AwaitExtraction, smoothing },
            Action::Extract,
        ),
        (Phase::AwaitExtraction, Event::Extracted { has_url, smoothing: sm }) => if has_url {
            (ControlState { phase: Phase::AwaitFetch, smoothing: sm }, Action::FetchDocument)
        } else {
            (
                ControlState { phase: Phase::Done(Terminal::Declined), smoothing },
                Action::PostDecline,
            )
        },
        (Phase::AwaitFetch, Event::Fetched(ok)) => if ok {
            (ControlState { phase: Phase::AwaitParse, smoothing }, Action::ParseDocument)
        } else {
            (ControlState { phase: Phase::Done(Terminal::Failed), smoothing }, Action::Idle)
        },
        (Phase::AwaitParse, Event::Parsed(ok)) => if !ok {
            (
                ControlState { phase: Phase::Done(Terminal::Declined), smoothing },
                Action::PostDecline,
            )
        } else if smoothing {
            (ControlState { phase: Phase::AwaitSmoothing, smoothing }, Action::SmoothLines)
        } else {
            (ControlState { phase: Phase::AwaitValidation, smoothing }, Action::ValidateDocument)
        },
        (Phase::AwaitSmoothing, Event::Smoothed) => (
            ControlState { phase: Phase::AwaitValidation, smoothing },
            Action::ValidateDocument,
        ),
        (Phase::AwaitValidation, Event::Validated(ok)) => if ok {
            (
                ControlState { phase: Phase::AwaitGeneration, smoothing },
                Action::GenerateArtifacts,
            )
        } else {
            (
                ControlState { phase: Phase::Done(Terminal::Declined), smoothing },
                Action::PostDecline,
            )
        },
        (Phase::AwaitGeneration, Event::Generated(ok)) => if ok {
            (
                ControlState { phase: Phase::AwaitReport, smoothing },
                Action::PostSuccessAndOpenChangeRequest,
            )
        } else {
            (ControlState { phase: Phase::Done(Terminal::Failed), smoothing }, Action::Idle)
        },
        (Phase::AwaitReport, Event::Posted) => (
            ControlState { phase: Phase::Done(Terminal::Succeeded), smoothing },
            Action::Idle,
        ),
        (Phase::Done(t), _) => (ControlState { phase: Phase::Done(t), smoothing }, Action::Idle),
        _ => (ControlState { phase: Phase::Done(Terminal::Failed), smoothing }, Action::Idle),
    }
}

/// The actions a whole run emits, one per event.
pub open spec fn run_actions(s: ControlState, es: Seq<Event>) -> Seq<Action>
    decreases es.len(),
{
    if es.len() == 0 {
        seq![]
    } else {
        let (s2, a) = spec_step(s, es[0]);
        seq![a] + run_actions(s2, es.drop_first())
    }
}

/// A terminal state absorbs every event: the run emits nothing but `Idle`.
pub proof fn lemma_done_is_idle(s: ControlState, es: Seq<Event>)
    requires
        s.phase is Done,
    ensures
        forall|k: int| 0 <= k < run_actions(s, es).len() ==> run_actions(s, es)[k] == Action::Idle,
    decreases es.len(),
{
    if es.len() > 0 {
        let (s2, a) = spec_step(s, es[0]);
        lemma_done_is_idle(s2, es.drop_first());
        assert(a == Action::Idle);
        assert(forall|k: int|
            1 <= k < run_actions(s, es).len() ==> run_actions(s, es)[k] == run_actions(
                s2,
                es.drop_first(),
            )[k - 1]);
    }
}

/// An issue with a linked change request is a no-op: after the first
/// existence check reports it, no further action of any kind is taken.
pub proof fn lemma_linked_issue_is_noop(es: Seq<Event>)
    ensures
        ({
            let s0 = ControlState { phase: Phase::AwaitPrCheck, smoothing: false };
            let acts = run_actions(s0, seq![Event::PrLinked(true)] + es);
            forall|k: int| 0 <= k < acts.len() ==> acts[k] == Action::Idle
        }),
{
    let s0 = ControlState { phase: Phase::AwaitPrCheck, smoothing: false };
    let full = seq![Event::PrLinked(true)] + es;
    assert(full[0] == Event::PrLinked(true));
    let (s2, a) = spec_step(s0, full[0]);
    assert(a == Action::Idle);
    assert(s2.phase is Done);
    assert(full.drop_first() =~= es);
    lemma_done_is_idle(s2, es);
    assert(forall|k: int|
        1 <= k < run_actions(s0, full).len() ==> run_actions(s0, full)[k] == run_actions(
            s2,
            es,
        )[k - 1]);
}

/// An issue with a prior automated comment is a no-op: beyond the two
/// existence checks, no further action of any kind is taken.
pub proof fn lemma_commented_issue_is_noop(es: Seq<Event>)
    ensures
        ({
            let s0 = ControlState { phase: Phase::AwaitPrCheck, smoothing: false };
            let acts = run_actions(
                s0,
                seq![Event::PrLinked(false), Event::Commented(true)] + es,
            );
            forall|k: int|
                0 <= k < acts.len() ==> acts[k] == Action::CheckCommented || acts[k]
                    == Action::Idle
        }),
{
    let s0 = ControlState { phase: Phase::AwaitPrCheck, smoothing: false };
    let full = seq![Event::PrLinked(false), Event::Commented(true)] + es;
    assert(full[0] == Event::PrLinked(false));
    let (s1, a1) = spec_step(s0, full[0]);
    assert(a1 == Action::CheckCommented);
    let tail1 = full.drop_first();
    assert(tail1 =~= seq![Event::Commented(true)] + es);
    assert(tail1[0] == Event::Commented(true));
    let (s2, a2) = spec_step(s1, tail1[0]);
    assert(a2 == Action::Idle);
    assert(s2.phase is Done);
    assert(tail1.drop_first() =~= es);
    lemma_done_is_idle(s2, es);
    let acts = run_actions(s0, full);
    assert(forall|k: int|
        1 <= k < acts.len() ==> acts[k] == run_actions(s1, tail1)[k - 1]);
    assert(forall|k: int|
        1 <= k < run_actions(s1, tail1).len() ==> run_actions(s1, tail1)[k] == run_actions(
            s2,
            es,
        )[k - 1]);
}

/// The phases from which no decline can ever be posted.
pub open spec fn past_validation(s: ControlState) -> bool {
    s.phase is AwaitGeneration || s.phase is AwaitReport || s.phase is Done
}

/// Once the machine is past validation, a run never posts a decline, and it
/// stays past validation.
pub proof fn lemma_no_decline_past_validation(s: ControlState, es: Seq<Event>)
    requires
        past_validation(s),
    ensures
        forall|k: int|
            0 <= k < run_actions(s, es).len() ==> run_actions(s, es)[k] != Action::PostDecline,
    decreases es.len(),
{
    if es.len() > 0 {
        let (s2, a) = spec_step(s, es[0]);
        assert(a != Action::PostDecline);
        assert(past_validation(s2));
        lemma_no_decline_past_validation(s2, es.drop_first());
        assert(forall|k: int|
            1 <= k < run_actions(s, es).len() ==> run_actions(s, es)[k] == run_actions(
                s2,
                es.drop_first(),
            )[k - 1]);
    }
}

/// Declining skips generation and change-request creation entirely: a run
/// that posts a decline never generates artifacts and never opens a change
/// request, whatever the events.
pub proof fn lemma_decline_skips_artifacts(s: ControlState, es: Seq<Event>)
    ensures
        run_actions(s, es).contains(Action::PostDecline) ==> !run_actions(s, es).contains(
            Action::GenerateArtifacts,
        ) && !run_actions(s, es).contains(Action::PostSuccessAndOpenChangeRequest),
    decreases es.len(),
{
    let acts = run_actions(s, es);
    if es.len() > 0 && acts.contains(Action::PostDecline) {
        let (s2, a) = spec_step(s, es[0]);
        let tail = run_actions(s2, es.drop_first());
        assert(acts =~= seq![a] + tail);
        lemma_decline_skips_artifacts(s2, es.drop_first());
        if a == Action::PostDecline {
            assert(s2.phase is Done);
            lemma_done_is_idle(s2, es.drop_first());
            assert(!tail.contains(Action::GenerateArtifacts)) by {
                if tail.contains(Action::GenerateArtifacts) {
                    let k = choose|k: int|
                        0 <= k < tail.len() && tail[k] == Action::GenerateArtifacts;
                    assert(tail[k] == Action::Idle);
                }
            }
            assert(!tail.contains(Action::PostSuccessAndOpenChangeRequest)) by {
                if tail.contains(Action::PostSuccessAndOpenChangeRequest) {
                    let k = choose|k: int|
                        0 <= k < tail.len() && tail[k]
                            == Action::PostSuccessAndOpenChangeRequest;
                    assert(tail[k] == Action::Idle);
                }
            }
            assert(!acts.contains(Action::GenerateArtifacts)) by {
                if acts.contains(Action::GenerateArtifacts) {
                    let k = choose|k: int|
                        0 <= k < acts.len() && acts[k] == Action::GenerateArtifacts;
                    if k == 0 {
                        assert(acts[0] == a);
                    } else {
                        assert(acts[k] == tail[k - 1]);
                    }
                }
            }
            assert(!acts.contains(Action::PostSuccessAndOpenChangeRequest)) by {
                if acts.contains(Action::PostSuccessAndOpenChangeRequest) {
                    let k = choose|k: int|
                        0 <= k < acts.len() && acts[k]
                            == Action::PostSuccessAndOpenChangeRequest;
                    if k == 0 {
                        assert(acts[0] == a);
                    } else {
                        assert(acts[k] == tail[k - 1]);
                    }
                }
            }
        } else {
            assert(tail.contains(Action::PostDecline)) by {
                let k = choose|k: int| 0 <= k < acts.len() && acts[k] == Action::PostDecline;
                assert(k != 0);
                assert(tail[k - 1] == Action::PostDecline);
            }
            if a == Action::GenerateArtifacts || a == Action::PostSuccessAndOpenChangeRequest {
                assert(past_validation(s2));
                lemma_no_decline_past_validation(s2, es.drop_first());
                let k = choose|k: int| 0 <= k < tail.len() && tail[k] == Action::PostDecline;
                assert(false);
            }
            assert(!acts.contains(Action::GenerateArtifacts)) by {
                if acts.contains(Action::GenerateArtifacts) {
                    let k = choose|k: int|
                        0 <= k < acts.len() && acts[k] == Action::GenerateArtifacts;
                    if k == 0 {
                        assert(acts[0] == a);
                        assert(false);
                    } else {
                        assert(tail[k - 1] == Action::GenerateArtifacts);
                    }
                }
            }
            assert(!acts.contains(Action::PostSuccessAndOpenChangeRequest)) by {
                if acts.contains(Action::PostSuccessAndOpenChangeRequest) {
                    let k = choose|k: int|
                        0 <= k < acts.len() && acts[k]
                            == Action::PostSuccessAndOpenChangeRequest;
                    if k == 0 {
                        assert(acts[0] == a);
                        assert(false);
                    } else {
                        assert(tail[k - 1] == Action::PostSuccessAndOpenChangeRequest);
                    }
                }
            }
        }
    }
}

/// The smoothing transform is requested only when the submission asked for
/// it: without the opt-in, the step after parsing goes straight to
/// validation and the lines are left untouched.
pub proof fn lemma_smooth_only_when_requested(s: ControlState, e: Event)
    ensures
        spec_step(s, e).1 == Action::SmoothLines ==> s.smoothing,
        !s.smoothing && s.phase is AwaitParse && e == Event::Parsed(true) ==> spec_step(s, e)
            == (ControlState { phase: Phase::AwaitValidation, ..s }, Action::ValidateDocument),
{
}

} // verus!
