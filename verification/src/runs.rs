//! Whole resolutions: where a run of events leads a resolver.
//!
//! [`step`] says what one event does. The statements here follow a resolver
//! through many: through a filled cache, through candidates that fail one
//! after the other, and to the first candidate that can be used.

use crate::candidate::{DapBinarySourceView, UnityDapBinaryView};
use crate::errors::{FailureView, ResolveErrorView};
use crate::inventory::local_candidates_of;
use crate::provisioner::binary_path_of;
use crate::ranker::{lemma_local_before_remote, pool_of, ranking};
use crate::release::{remote_candidate_of, GithubReleaseView};
use crate::resolver::{
    attempt, begin, completes, resolved_path, step, ActionView, EventView, PhaseView,
    ResolverView,
};
use vstd::prelude::*;

verus! {

/// The resolver after `events`, one handed in after the other, and the action
/// it hands out last. `asked` is the action that the first event answers.
pub open spec fn run(m: ResolverView, asked: ActionView, events: Seq<EventView>) -> (
    ResolverView,
    ActionView,
)
    decreases events.len(),
{
    if events.len() == 0 {
        (m, asked)
    } else {
        let (next, action) = step(m, events[0]);
        run(next, action, events.drop_first())
    }
}

/// The actions that the resolver hands out in answer to `events`, one for
/// each event.
pub open spec fn answers(m: ResolverView, events: Seq<EventView>) -> Seq<ActionView>
    decreases events.len(),
{
    if events.len() == 0 {
        Seq::empty()
    } else {
        let (next, action) = step(m, events[0]);
        seq![action] + answers(next, events.drop_first())
    }
}

/// The action asks the host to download, look for or mark the candidate at
/// place `i` of the ranking.
pub open spec fn is_about(action: ActionView, ranked: Seq<UnityDapBinaryView>, i: int) -> bool {
    match action {
        ActionView::Download { url, directory } => ranked[i].source
            == (DapBinarySourceView::Github { url }) && ranked[i].dir_name == directory,
        ActionView::CheckExists { path } => path == binary_path_of(ranked[i].dir_name),
        ActionView::MakeExecutable { path } => ranked[i].source is Github && path
            == binary_path_of(ranked[i].dir_name),
        _ => false,
    }
}

/// The action ends the resolution, or is about one of the first `limit`
/// candidates of the ranking.
pub open spec fn stays_within(
    action: ActionView,
    ranked: Seq<UnityDapBinaryView>,
    limit: int,
) -> bool {
    action is Finish || exists|i: int|
        0 <= i < limit && i < ranked.len() && #[trigger] is_about(action, ranked, i)
}

/// The action asks the host to download an archive into `directory`.
pub open spec fn is_download_into(action: ActionView, directory: Seq<char>) -> bool {
    action matches ActionView::Download { directory: target, .. } && target == directory
}

/// The failure is one that can befall the candidate: its executable is
/// missing, or, for a remote candidate only, its archive cannot be
/// downloaded or its executable cannot be marked.
pub open spec fn befalls(f: FailureView, c: UnityDapBinaryView) -> bool {
    match f {
        FailureView::Missing { path } => path == binary_path_of(c.dir_name),
        FailureView::Download { url, .. } => c.source == (DapBinarySourceView::Github { url }),
        FailureView::Marking { path, .. } => c.source is Github && path == binary_path_of(
            c.dir_name,
        ),
        _ => false,
    }
}

/// The events by which the host reports that failure of that candidate.
pub open spec fn events_of_failure(c: UnityDapBinaryView, f: FailureView) -> Seq<EventView> {
    match f {
        FailureView::Download { reason, .. } => seq![EventView::Downloaded(Err(reason))],
        FailureView::Missing { .. } => match c.source {
            DapBinarySourceView::Local => seq![EventView::Exists(false)],
            DapBinarySourceView::Github { .. } => seq![
                EventView::Downloaded(Ok(())),
                EventView::Exists(false),
            ],
        },
        FailureView::Marking { reason, .. } => seq![
            EventView::Downloaded(Ok(())),
            EventView::Exists(true),
            EventView::MadeExecutable(Err(reason)),
        ],
        _ => Seq::empty(),
    }
}

/// The events by which the host reports that the candidate can be used.
pub open spec fn events_of_success(c: UnityDapBinaryView) -> Seq<EventView> {
    match c.source {
        DapBinarySourceView::Local => seq![EventView::Exists(true)],
        DapBinarySourceView::Github { .. } => seq![
            EventView::Downloaded(Ok(())),
            EventView::Exists(true),
            EventView::MadeExecutable(Ok(())),
        ],
    }
}

/// The events of a run in which the candidates from `from` on fail one after
/// the other, as `failures` says.
pub open spec fn events_of_failures(
    ranked: Seq<UnityDapBinaryView>,
    from: int,
    failures: Seq<FailureView>,
) -> Seq<EventView>
    decreases failures.len(),
{
    if failures.len() == 0 {
        Seq::empty()
    } else {
        events_of_failure(ranked[from], failures[0]) + events_of_failures(
            ranked,
            from + 1,
            failures.drop_first(),
        )
    }
}

/// There is one failure for each of the candidates from `from` on, as far
/// as the failures reach, and each can befall its candidate.
pub open spec fn failures_fit(
    ranked: Seq<UnityDapBinaryView>,
    from: int,
    failures: Seq<FailureView>,
) -> bool {
    &&& 0 <= from
    &&& from + failures.len() <= ranked.len()
    &&& forall|k: int|
        0 <= k < failures.len() ==> befalls(#[trigger] failures[k], ranked[from + k])
}

/// The resolver that has just turned to the candidate at `index`, and the
/// action it has handed out.
pub open spec fn turned_to(
    cwd: Seq<char>,
    ranked: Seq<UnityDapBinaryView>,
    index: int,
    errors: Seq<FailureView>,
) -> (ResolverView, ActionView) {
    let (phase, action) = attempt(cwd, ranked, index, errors);
    (ResolverView { cached: None, phase }, action)
}

/// The resolver that has ended a resolution with `path`, and its last
/// action.
pub open spec fn resolved_with(path: Seq<char>) -> (ResolverView, ActionView) {
    (ResolverView { cached: Some(path), phase: PhaseView::Idle }, ActionView::Finish(Ok(path)))
}

/// The resolver that has run out of candidates, and its last action.
pub open spec fn exhausted_with(failures: Seq<FailureView>) -> (ResolverView, ActionView) {
    (
        ResolverView { cached: None, phase: PhaseView::Idle },
        ActionView::Finish(Err(ResolveErrorView::Exhausted { failures })),
    )
}

/// A run can be cut in two: the second part goes on where the first ended.
pub proof fn lemma_run_in_parts(
    m: ResolverView,
    asked: ActionView,
    first: Seq<EventView>,
    second: Seq<EventView>,
)
    ensures
        run(m, asked, first + second) == run(
            run(m, asked, first).0,
            run(m, asked, first).1,
            second,
        ),
    decreases first.len(),
{
    if first.len() == 0 {
        assert(first + second =~= second);
    } else {
        let (next, action) = step(m, first[0]);
        assert((first + second).drop_first() =~= first.drop_first() + second);
        lemma_run_in_parts(next, action, first.drop_first(), second);
    }
}

/// The answers to a run that is cut in two are the answers to the first part
/// and then those to the second.
pub proof fn lemma_answers_in_parts(
    m: ResolverView,
    asked: ActionView,
    first: Seq<EventView>,
    second: Seq<EventView>,
)
    ensures
        answers(m, first + second) == answers(m, first) + answers(
            run(m, asked, first).0,
            second,
        ),
    decreases first.len(),
{
    if first.len() == 0 {
        assert(first + second =~= second);
        assert(answers(m, first) + answers(m, second) =~= answers(m, second));
    } else {
        let (next, action) = step(m, first[0]);
        let later = answers(run(next, action, first.drop_first()).0, second);
        assert((first + second).drop_first() =~= first.drop_first() + second);
        lemma_answers_in_parts(next, action, first.drop_first(), second);
        assert(seq![action] + (answers(next, first.drop_first()) + later) =~= (seq![action]
            + answers(next, first.drop_first())) + later);
    }
}

/// With a path in the cache every call ends at once with that path: the
/// start of a resolution, and any event handed in. The host is asked
/// nothing, and the resolver stays as it is.
pub proof fn lemma_cache_answers_every_call(m: ResolverView, e: EventView)
    requires
        m.coherent(),
        m.cached is Some,
    ensures
        begin(m) == (m, ActionView::Finish(Ok(m.cached->0))),
        step(m, e) == (m, ActionView::Finish(Ok(m.cached->0))),
{
}

/// A resolution that ends with a path has put that path in the cache and
/// left nothing under way, so every later call is answered from the cache.
pub proof fn lemma_success_fills_cache(m: ResolverView, e: EventView, path: Seq<char>)
    requires
        step(m, e).1 == ActionView::Finish(Ok(path)),
    ensures
        step(m, e) == resolved_with(path),
        begin(step(m, e).0) == resolved_with(path),
{
}

/// The cache is written only when a candidate has been found on disk: a
/// step changes it only while a candidate is being provisioned and the
/// event completes that candidate, and then the cache holds the absolute
/// path of that candidate's executable. The start of a resolution never
/// changes it.
pub proof fn lemma_cache_is_written_on_success_only(m: ResolverView, e: EventView)
    ensures
        begin(m).0.cached == m.cached,
        step(m, e).0.cached != m.cached ==> (m.phase matches PhaseView::Provisioning {
            cwd,
            ranked,
            index,
            stage,
            ..
        } && completes(ranked, index, stage, e) && step(m, e).0.cached == Some(
            resolved_path(cwd, ranked, index),
        )),
{
}

/// Every step keeps the cache and what is under way in accord.
pub proof fn lemma_step_keeps_coherent(m: ResolverView, e: EventView)
    requires
        m.coherent(),
    ensures
        step(m, e).0.coherent(),
        begin(m).0.coherent(),
{
}

/// Turning to a candidate asks about that candidate, or ends the resolution
/// when there is none.
pub proof fn lemma_turning_asks_about_candidate(
    cwd: Seq<char>,
    ranked: Seq<UnityDapBinaryView>,
    index: int,
    errors: Seq<FailureView>,
)
    requires
        0 <= index,
    ensures
        stays_within(turned_to(cwd, ranked, index, errors).1, ranked, index + 1),
{
    if index < ranked.len() {
        assert(is_about(turned_to(cwd, ranked, index, errors).1, ranked, index));
    }
}

/// An action that stays within some candidates stays within more.
pub proof fn lemma_stays_within_more(
    action: ActionView,
    ranked: Seq<UnityDapBinaryView>,
    limit: int,
    more: int,
)
    requires
        stays_within(action, ranked, limit),
        limit <= more,
    ensures
        stays_within(action, ranked, more),
{
    if !(action is Finish) {
        let i = choose|i: int|
            0 <= i < limit && i < ranked.len() && #[trigger] is_about(action, ranked, i);
        assert(is_about(action, ranked, i));
    }
}

/// When a candidate fails, the failure goes on record behind what is there,
/// and the resolver turns to the candidate next in rank. On the way the host
/// is asked about the failing candidate alone.
pub proof fn lemma_failure_leads_to_next(
    cwd: Seq<char>,
    ranked: Seq<UnityDapBinaryView>,
    index: int,
    errors: Seq<FailureView>,
    f: FailureView,
)
    requires
        0 <= index < ranked.len(),
        befalls(f, ranked[index]),
    ensures
        ({
            let (m, asked) = turned_to(cwd, ranked, index, errors);
            let events = events_of_failure(ranked[index], f);
            &&& run(m, asked, events) == turned_to(cwd, ranked, index + 1, errors.push(f))
            &&& forall|k: int|
                0 <= k < answers(m, events).len() ==> stays_within(
                    #[trigger] answers(m, events)[k],
                    ranked,
                    index + 2,
                )
        }),
{
    reveal_with_fuel(run, 4);
    reveal_with_fuel(answers, 4);
    let (m, asked) = turned_to(cwd, ranked, index, errors);
    let events = events_of_failure(ranked[index], f);
    let given = answers(m, events);
    if events.len() == 1 {
        assert(events.drop_first() =~= Seq::empty());
    } else if events.len() == 2 {
        assert(events.drop_first() =~= seq![events[1]]);
        assert(events.drop_first().drop_first() =~= Seq::empty());
    } else {
        assert(events.drop_first() =~= seq![events[1], events[2]]);
        assert(events.drop_first().drop_first() =~= seq![events[2]]);
        assert(events.drop_first().drop_first().drop_first() =~= Seq::empty());
    }
    lemma_turning_asks_about_candidate(cwd, ranked, index + 1, errors.push(f));
    assert(given.len() == events.len());
    assert forall|k: int| 0 <= k < given.len() implies stays_within(
        #[trigger] given[k],
        ranked,
        index + 2,
    ) by {
        if k == given.len() - 1 {
            assert(given[k] == turned_to(cwd, ranked, index + 1, errors.push(f)).1);
            if !(given[k] is Finish) {
                assert(is_about(given[k], ranked, index + 1));
            }
        } else {
            assert(is_about(given[k], ranked, index));
        }
    }
}

/// When a candidate can be used, the resolution ends with the absolute path
/// of its executable, whatever is on record, and the path is in the cache.
/// On the way the host is asked about that candidate alone.
pub proof fn lemma_success_ends_resolution(
    cwd: Seq<char>,
    ranked: Seq<UnityDapBinaryView>,
    index: int,
    errors: Seq<FailureView>,
)
    requires
        0 <= index < ranked.len(),
    ensures
        ({
            let (m, asked) = turned_to(cwd, ranked, index, errors);
            let events = events_of_success(ranked[index]);
            &&& run(m, asked, events) == resolved_with(resolved_path(cwd, ranked, index))
            &&& forall|k: int|
                0 <= k < answers(m, events).len() ==> stays_within(
                    #[trigger] answers(m, events)[k],
                    ranked,
                    index + 1,
                )
        }),
{
    reveal_with_fuel(run, 4);
    reveal_with_fuel(answers, 4);
    let (m, asked) = turned_to(cwd, ranked, index, errors);
    let events = events_of_success(ranked[index]);
    let given = answers(m, events);
    if events.len() == 1 {
        assert(events.drop_first() =~= Seq::empty());
    } else {
        assert(events.drop_first() =~= seq![events[1], events[2]]);
        assert(events.drop_first().drop_first() =~= seq![events[2]]);
        assert(events.drop_first().drop_first().drop_first() =~= Seq::empty());
    }
    assert(given.len() == events.len());
    assert forall|k: int| 0 <= k < given.len() implies stays_within(
        #[trigger] given[k],
        ranked,
        index + 1,
    ) by {
        if k < given.len() - 1 {
            assert(is_about(given[k], ranked, index));
        }
    }
}

/// When candidates fail one after the other, each failure goes on record,
/// in the order in which it was met, and the resolver turns to the first
/// candidate behind them. On the way the host is asked about the failing
/// candidates and, at the end, about the one behind them; about no other.
pub proof fn lemma_failures_lead_on(
    cwd: Seq<char>,
    ranked: Seq<UnityDapBinaryView>,
    from: int,
    errors: Seq<FailureView>,
    failures: Seq<FailureView>,
)
    requires
        failures_fit(ranked, from, failures),
    ensures
        ({
            let (m, asked) = turned_to(cwd, ranked, from, errors);
            let events = events_of_failures(ranked, from, failures);
            &&& run(m, asked, events) == turned_to(
                cwd,
                ranked,
                from + failures.len(),
                errors + failures,
            )
            &&& forall|k: int|
                0 <= k < answers(m, events).len() ==> stays_within(
                    #[trigger] answers(m, events)[k],
                    ranked,
                    from + failures.len() + 1,
                )
        }),
    decreases failures.len(),
{
    let (m, asked) = turned_to(cwd, ranked, from, errors);
    let limit = from + failures.len() + 1;
    if failures.len() == 0 {
        assert(errors + failures =~= errors);
    } else {
        let first = events_of_failure(ranked[from], failures[0]);
        let rest = failures.drop_first();
        let later = events_of_failures(ranked, from + 1, rest);
        assert(befalls(failures[0], ranked[from + 0]));
        assert forall|k: int| 0 <= k < rest.len() implies befalls(
            #[trigger] rest[k],
            ranked[from + 1 + k],
        ) by {
            assert(rest[k] == failures[k + 1]);
        }
        lemma_failure_leads_to_next(cwd, ranked, from, errors, failures[0]);
        lemma_failures_lead_on(cwd, ranked, from + 1, errors.push(failures[0]), rest);
        lemma_run_in_parts(m, asked, first, later);
        lemma_answers_in_parts(m, asked, first, later);
        assert(errors.push(failures[0]) + rest =~= errors + failures);
        let head = answers(m, first);
        let tail = answers(run(m, asked, first).0, later);
        let given = answers(m, first + later);
        assert forall|k: int| 0 <= k < given.len() implies stays_within(
            #[trigger] given[k],
            ranked,
            limit,
        ) by {
            if k < head.len() {
                assert(given[k] == head[k]);
                lemma_stays_within_more(head[k], ranked, from + 2, limit);
            } else {
                assert(given[k] == tail[k - head.len()]);
            }
        }
    }
}

/// Falling back is invisible in the outcome: when the candidates ranked
/// first fail and the one behind them can be used, the resolution ends with
/// the path of that one, as if the others had not been there. No candidate
/// behind it is touched: every action on the way is about one of the
/// candidates up to that one.
pub proof fn lemma_first_usable_candidate_wins(
    cwd: Seq<char>,
    ranked: Seq<UnityDapBinaryView>,
    errors: Seq<FailureView>,
    failures: Seq<FailureView>,
)
    requires
        failures_fit(ranked, 0, failures),
        failures.len() < ranked.len(),
    ensures
        ({
            let (m, asked) = turned_to(cwd, ranked, 0, errors);
            let winner = failures.len() as int;
            let events = events_of_failures(ranked, 0, failures) + events_of_success(
                ranked[winner],
            );
            &&& run(m, asked, events) == resolved_with(resolved_path(cwd, ranked, winner))
            &&& stays_within(asked, ranked, winner + 1)
            &&& forall|k: int|
                0 <= k < answers(m, events).len() ==> stays_within(
                    #[trigger] answers(m, events)[k],
                    ranked,
                    winner + 1,
                )
        }),
{
    let (m, asked) = turned_to(cwd, ranked, 0, errors);
    let winner = failures.len() as int;
    let first = events_of_failures(ranked, 0, failures);
    let second = events_of_success(ranked[winner]);
    lemma_turning_asks_about_candidate(cwd, ranked, 0, errors);
    lemma_stays_within_more(asked, ranked, 1, winner + 1);
    lemma_failures_lead_on(cwd, ranked, 0, errors, failures);
    lemma_success_ends_resolution(cwd, ranked, winner, errors + failures);
    lemma_run_in_parts(m, asked, first, second);
    lemma_answers_in_parts(m, asked, first, second);
    let head = answers(m, first);
    let tail = answers(run(m, asked, first).0, second);
    let given = answers(m, first + second);
    assert forall|k: int| 0 <= k < given.len() implies stays_within(
        #[trigger] given[k],
        ranked,
        winner + 1,
    ) by {
        if k < head.len() {
            assert(given[k] == head[k]);
        } else {
            assert(given[k] == tail[k - head.len()]);
        }
    }
}

/// When every candidate fails, the resolution ends without a path, and the
/// error holds what was on record before the first candidate was tried and
/// then one failure for each candidate, in rank order. The cache stays
/// empty.
pub proof fn lemma_total_failure_reports_every_failure(
    cwd: Seq<char>,
    ranked: Seq<UnityDapBinaryView>,
    errors: Seq<FailureView>,
    failures: Seq<FailureView>,
)
    requires
        failures_fit(ranked, 0, failures),
        failures.len() == ranked.len(),
    ensures
        ({
            let (m, asked) = turned_to(cwd, ranked, 0, errors);
            run(m, asked, events_of_failures(ranked, 0, failures)) == exhausted_with(
                errors + failures,
            )
        }),
{
    lemma_failures_lead_on(cwd, ranked, 0, errors, failures);
}

/// A copy on disk spares the download: in a ranking a local candidate stands
/// before a remote one of the same directory name, so when those before it
/// have failed and its executable is found, the resolution ends with the
/// local copy, and nothing is ever downloaded into the directory of that
/// name.
pub proof fn lemma_local_copy_spares_download(
    pool: Seq<UnityDapBinaryView>,
    local: int,
    remote: int,
    cwd: Seq<char>,
    errors: Seq<FailureView>,
    failures: Seq<FailureView>,
)
    requires
        0 <= local < ranking(pool).len(),
        0 <= remote < ranking(pool).len(),
        ranking(pool)[local].dir_name == ranking(pool)[remote].dir_name,
        ranking(pool)[local].source is Local,
        ranking(pool)[remote].source is Github,
        failures_fit(ranking(pool), 0, failures),
        failures.len() == local,
    ensures
        local < remote,
        ({
            let ranked = ranking(pool);
            let (m, asked) = turned_to(cwd, ranked, 0, errors);
            let events = events_of_failures(ranked, 0, failures) + seq![EventView::Exists(true)];
            &&& run(m, asked, events) == resolved_with(resolved_path(cwd, ranked, local))
            &&& !is_download_into(asked, ranked[local].dir_name)
            &&& forall|k: int|
                0 <= k < answers(m, events).len() ==> !is_download_into(
                    #[trigger] answers(m, events)[k],
                    ranked[local].dir_name,
                )
        }),
{
    let ranked = ranking(pool);
    let name = ranked[local].dir_name;
    lemma_local_before_remote(pool, local, remote);
    lemma_first_usable_candidate_wins(cwd, ranked, errors, failures);
    assert forall|action: ActionView|
        stays_within(action, ranked, local + 1) implies !is_download_into(action, name) by {
        if is_download_into(action, name) {
            let i = choose|i: int|
                0 <= i < local + 1 && i < ranked.len() && #[trigger] is_about(action, ranked, i);
            lemma_local_before_remote(pool, local, i);
        }
    }
}

/// The remote candidate, if the registry gave one.
pub open spec fn remote_of(answer: Result<GithubReleaseView, Seq<char>>) -> Option<
    UnityDapBinaryView,
> {
    match remote_candidate_of(answer) {
        Ok(candidate) => Some(candidate),
        Err(_) => None,
    }
}

/// The local candidates, as far as the working directory could be listed.
pub open spec fn locals_of(listing: Result<Seq<Seq<char>>, Seq<char>>) -> Seq<
    UnityDapBinaryView,
> {
    match listing {
        Ok(entries) => local_candidates_of(entries),
        Err(_) => Seq::empty(),
    }
}

/// The candidates of a resolution in the order in which they are tried.
pub open spec fn ranked_for(
    answer: Result<GithubReleaseView, Seq<char>>,
    listing: Result<Seq<Seq<char>>, Seq<char>>,
) -> Seq<UnityDapBinaryView> {
    ranking(pool_of(remote_of(answer), locals_of(listing)))
}

/// What is on record when the first candidate is tried: the failure that
/// left no remote candidate, and the failure that left no local ones.
pub open spec fn opening_record(
    answer: Result<GithubReleaseView, Seq<char>>,
    listing: Result<Seq<Seq<char>>, Seq<char>>,
) -> Seq<FailureView> {
    let registry = match remote_candidate_of(answer) {
        Ok(_) => Seq::empty(),
        Err(failure) => seq![failure],
    };
    match listing {
        Ok(_) => registry,
        Err(reason) => registry.push(FailureView::Listing { reason }),
    }
}

/// There is something to go on with: the working directory could be listed,
/// or there is a remote candidate.
pub open spec fn goes_on(
    answer: Result<GithubReleaseView, Seq<char>>,
    listing: Result<Seq<Seq<char>>, Seq<char>>,
) -> bool {
    listing is Ok || remote_of(answer) is Some
}

/// The events of a whole resolution in which the working directory is told,
/// the registry answers, the directory is listed or not, and then `tail`
/// follows.
pub open spec fn events_of_resolution(
    cwd: Seq<char>,
    answer: Result<GithubReleaseView, Seq<char>>,
    listing: Result<Seq<Seq<char>>, Seq<char>>,
    tail: Seq<EventView>,
) -> Seq<EventView> {
    seq![
        EventView::WorkingDirectory(Ok(cwd)),
        EventView::Release(answer),
        EventView::Listing(listing),
    ] + tail
}

/// A resolver with an empty cache and nothing under way.
pub open spec fn fresh() -> ResolverView {
    ResolverView { cached: None, phase: PhaseView::Idle }
}

/// From a resolver with an empty cache, the working directory, the
/// registry's answer and the listing lead to the first candidate of the
/// ranking of the remote candidate and the local ones. A registry that
/// fails does not end the resolution, nor does a directory that cannot be
/// listed while there is a remote candidate: the failure is on record, and
/// the candidates that are left are tried.
pub proof fn lemma_opening(
    cwd: Seq<char>,
    answer: Result<GithubReleaseView, Seq<char>>,
    listing: Result<Seq<Seq<char>>, Seq<char>>,
)
    requires
        goes_on(answer, listing),
    ensures
        run(begin(fresh()).0, begin(fresh()).1, events_of_resolution(cwd, answer, listing, seq![]))
            == turned_to(cwd, ranked_for(answer, listing), 0, opening_record(answer, listing)),
{
    reveal_with_fuel(run, 4);
    let events = events_of_resolution(cwd, answer, listing, seq![]);
    assert(events.drop_first() =~= seq![events[1], events[2]]);
    assert(events.drop_first().drop_first() =~= seq![events[2]]);
    assert(events.drop_first().drop_first().drop_first() =~= Seq::empty());
}

/// With no remote candidate and a working directory that cannot be listed
/// there is nothing to go on with: the resolution ends at once, and the
/// error is the failure of the listing.
pub proof fn lemma_opening_without_candidates(
    cwd: Seq<char>,
    answer: Result<GithubReleaseView, Seq<char>>,
    reason: Seq<char>,
)
    requires
        remote_of(answer) is None,
    ensures
        run(
            begin(fresh()).0,
            begin(fresh()).1,
            events_of_resolution(cwd, answer, Err(reason), seq![]),
        ) == (fresh(), ActionView::Finish(Err(ResolveErrorView::Listing { reason }))),
{
    reveal_with_fuel(run, 4);
    let events = events_of_resolution(cwd, answer, Err(reason), seq![]);
    assert(events.drop_first() =~= seq![events[1], events[2]]);
    assert(events.drop_first().drop_first() =~= seq![events[2]]);
    assert(events.drop_first().drop_first().drop_first() =~= Seq::empty());
}

/// A whole resolution that succeeds. Whatever the registry answered, and
/// whatever went wrong with the candidates ranked first, the resolution ends
/// with the path of the first candidate that can be used, and that path is
/// in the cache. What went wrong on the way does not show.
pub proof fn lemma_resolution_succeeds(
    cwd: Seq<char>,
    answer: Result<GithubReleaseView, Seq<char>>,
    listing: Result<Seq<Seq<char>>, Seq<char>>,
    failures: Seq<FailureView>,
)
    requires
        goes_on(answer, listing),
        failures_fit(ranked_for(answer, listing), 0, failures),
        failures.len() < ranked_for(answer, listing).len(),
    ensures
        ({
            let ranked = ranked_for(answer, listing);
            let winner = failures.len() as int;
            let tail = events_of_failures(ranked, 0, failures) + events_of_success(
                ranked[winner],
            );
            run(
                begin(fresh()).0,
                begin(fresh()).1,
                events_of_resolution(cwd, answer, listing, tail),
            ) == resolved_with(resolved_path(cwd, ranked, winner))
        }),
{
    let ranked = ranked_for(answer, listing);
    let winner = failures.len() as int;
    let head = events_of_resolution(cwd, answer, listing, seq![]);
    let tail = events_of_failures(ranked, 0, failures) + events_of_success(ranked[winner]);
    assert(head + tail =~= events_of_resolution(cwd, answer, listing, tail));
    lemma_opening(cwd, answer, listing);
    lemma_run_in_parts(begin(fresh()).0, begin(fresh()).1, head, tail);
    lemma_first_usable_candidate_wins(cwd, ranked, opening_record(answer, listing), failures);
}

/// A whole resolution that fails. When every candidate fails, the
/// resolution ends without a path, and the error holds every failure in the
/// order in which it was met: first the failure that left no remote
/// candidate, if there is none, then the failure that left no local ones, if
/// the directory could not be listed, then one failure for each candidate,
/// in rank order. The cache stays empty, so the next resolution starts anew.
pub proof fn lemma_resolution_fails(
    cwd: Seq<char>,
    answer: Result<GithubReleaseView, Seq<char>>,
    listing: Result<Seq<Seq<char>>, Seq<char>>,
    failures: Seq<FailureView>,
)
    requires
        goes_on(answer, listing),
        failures_fit(ranked_for(answer, listing), 0, failures),
        failures.len() == ranked_for(answer, listing).len(),
    ensures
        ({
            let tail = events_of_failures(ranked_for(answer, listing), 0, failures);
            run(
                begin(fresh()).0,
                begin(fresh()).1,
                events_of_resolution(cwd, answer, listing, tail),
            ) == exhausted_with(opening_record(answer, listing) + failures)
        }),
{
    let ranked = ranked_for(answer, listing);
    let head = events_of_resolution(cwd, answer, listing, seq![]);
    let tail = events_of_failures(ranked, 0, failures);
    assert(head + tail =~= events_of_resolution(cwd, answer, listing, tail));
    lemma_opening(cwd, answer, listing);
    lemma_run_in_parts(begin(fresh()).0, begin(fresh()).1, head, tail);
    lemma_total_failure_reports_every_failure(
        cwd,
        ranked,
        opening_record(answer, listing),
        failures,
    );
}

} // verus!
