//! Whole runs: what a run asks of the desktop, in which order, and how it ends,
//! for everything that the desktop may answer.
//!
//! A desktop is a function that answers the request which is made as the
//! `k`-th of a run, counted from zero. As the answer may depend on `k`, it
//! need not be the same each time.

use crate::apps::AppView;
use crate::backend::ErrorView;
use crate::decision::{
    decided, law_a_press_from_elsewhere_brings_the_first_window,
    law_a_press_stays_with_the_application, DecisionView,
};
use crate::run::{
    activate_outcome, active_or_none, close_outcome, expects, launch_outcome, listing_failed,
    minimize_outcome, started, stepped, windows_or_none, with_close, Goal, OutcomeView, PlanView,
    ProgressView, ReplyView, RequestView, RunView, StageView,
};
use crate::settings::{
    law_a_key_without_a_target, law_the_target_of_a_key, overridden, second_class, selected_app,
    target_of, SettingsView,
};
use vstd::prelude::*;

verus! {

/// Whether `reply` is an answer to `request`.
pub open spec fn answers(request: RequestView, reply: ReplyView) -> bool {
    match request {
        RequestView::ListWindows(_) => reply is Windows,
        RequestView::ActiveWindow => reply is Active,
        RequestView::Activate(_) => reply is Done,
        RequestView::Minimize(_) => reply is Done,
        RequestView::Close(_) => reply is Done,
        RequestView::Launch { .. } => reply is Launched,
    }
}

/// Whether the desktop answers every request with an answer to it.
pub open spec fn is_desktop(desktop: spec_fn(nat, RequestView) -> ReplyView) -> bool {
    forall|k: nat, request: RequestView| answers(request, #[trigger] desktop(k, request))
}

/// How far a run is from its end: the part that it is in.
pub open spec fn phase(progress: ProgressView) -> nat {
    match progress {
        ProgressView::Finished(_) => 0,
        ProgressView::Ask(run, _) => match run.stage {
            StageView::Launching => 1,
            StageView::Activating(_) => 1,
            StageView::Minimizing(_) => 1,
            StageView::Closing { .. } => 2,
            StageView::AskingActive { .. } => 3,
            StageView::ListingFallback => 4,
            StageView::Listing { .. } => 5,
        },
    }
}

/// How many windows a run still has to close.
pub open spec fn left_to_close(progress: ProgressView) -> nat {
    match progress {
        ProgressView::Ask(run, _) => match run.stage {
            StageView::Closing { windows, next, .. } => if next < windows.len() {
                (windows.len() - next) as nat
            } else {
                0
            },
            _ => 0,
        },
        ProgressView::Finished(_) => 0,
    }
}

/// How a run ends that stands at `progress` when it makes its `k`-th request.
pub open spec fn outcome_of(
    desktop: spec_fn(nat, RequestView) -> ReplyView,
    progress: ProgressView,
    k: nat,
) -> OutcomeView
    decreases phase(progress), left_to_close(progress),
{
    match progress {
        ProgressView::Finished(outcome) => outcome,
        ProgressView::Ask(run, request) => outcome_of(
            desktop,
            stepped(run, desktop(k, request)),
            k + 1,
        ),
    }
}

/// What a run asks, in order, that stands at `progress` when it makes its
/// `k`-th request.
pub open spec fn requests_of(
    desktop: spec_fn(nat, RequestView) -> ReplyView,
    progress: ProgressView,
    k: nat,
) -> Seq<RequestView>
    decreases phase(progress), left_to_close(progress),
{
    match progress {
        ProgressView::Finished(_) => Seq::empty(),
        ProgressView::Ask(run, request) => seq![request] + requests_of(
            desktop,
            stepped(run, desktop(k, request)),
            k + 1,
        ),
    }
}

// ---------------------------------------------------------------------------
// What a run amounts to
// ---------------------------------------------------------------------------
/// The windows in an answer to a search.
pub open spec fn windows_in(reply: ReplyView) -> Result<Seq<Seq<char>>, ErrorView> {
    reply->Windows_0
}

/// Whether the search by the target's class finds nothing and there is another
/// class to search by.
pub open spec fn searches_again(
    desktop: spec_fn(nat, RequestView) -> ReplyView,
    settings: SettingsView,
    class: Seq<char>,
    entry: AppView,
) -> bool {
    windows_in(desktop(0, RequestView::ListWindows(class))) == Ok::<Seq<Seq<char>>, ErrorView>(
        Seq::empty(),
    ) && second_class(settings, class, entry) is Some
}

/// What a run asks to learn the application's windows.
pub open spec fn search_requests(
    desktop: spec_fn(nat, RequestView) -> ReplyView,
    settings: SettingsView,
    apps: Seq<AppView>,
) -> Seq<RequestView> {
    match target_of(settings, apps) {
        None => Seq::empty(),
        Some((class, entry)) => if searches_again(desktop, settings, class, entry) {
            seq![
                RequestView::ListWindows(class),
                RequestView::ListWindows(second_class(settings, class, entry)->0),
            ]
        } else {
            seq![RequestView::ListWindows(class)]
        },
    }
}

/// The application and its windows, or how the run ends without them: those
/// that the search by the target's class finds, and where that finds none,
/// those of a second search by the application's id, if there is one and it
/// succeeds; there is none where the user set the class.
pub open spec fn target_windows(
    desktop: spec_fn(nat, RequestView) -> ReplyView,
    settings: SettingsView,
    apps: Seq<AppView>,
) -> Result<(AppView, Seq<Seq<char>>), OutcomeView> {
    match target_of(settings, apps) {
        None => Err(OutcomeView::NoAppSelected),
        Some((class, entry)) => match windows_in(desktop(0, RequestView::ListWindows(class))) {
            Err(e) => Err(listing_failed(e)),
            Ok(windows) => if searches_again(desktop, settings, class, entry) {
                Ok(
                    (
                        entry,
                        windows_or_none(
                            windows_in(
                                desktop(
                                    1,
                                    RequestView::ListWindows(second_class(settings, class, entry)->0),
                                ),
                            ),
                        ),
                    ),
                )
            } else {
                Ok((entry, windows))
            },
        },
    }
}

/// The window with the focus, which matters only where the application has
/// windows.
pub open spec fn focus_among(
    desktop: spec_fn(nat, RequestView) -> ReplyView,
    windows: Seq<Seq<char>>,
    k: nat,
) -> Option<Seq<char>> {
    if windows.len() == 0 {
        None
    } else {
        active_or_none(desktop(k, RequestView::ActiveWindow)->Active_0)
    }
}

/// What a run that focuses or launches does with the application's windows:
/// the requests that it makes, from the `k`-th on, and how it ends.
pub open spec fn focus_or_launch_with(
    desktop: spec_fn(nat, RequestView) -> ReplyView,
    settings: SettingsView,
    entry: AppView,
    windows: Seq<Seq<char>>,
    k: nat,
) -> (Seq<RequestView>, OutcomeView) {
    let asked = if windows.len() == 0 {
        Seq::empty()
    } else {
        seq![RequestView::ActiveWindow]
    };
    let then = k + asked.len();
    match decided(
        windows,
        focus_among(desktop, windows, k),
        settings.cycle_windows,
        settings.minimize_when_focused,
    ) {
        DecisionView::Launch => {
            let request = RequestView::Launch {
                exec_line: overridden(settings.exec_override, entry.exec_line),
                args: settings.custom_args,
            };
            (asked.push(request), launch_outcome(desktop(then, request)->Launched_0))
        },
        DecisionView::Activate(id) => {
            let request = RequestView::Activate(id);
            (asked.push(request), activate_outcome(id, desktop(then, request)->Done_0))
        },
        DecisionView::Minimize(id) => {
            let request = RequestView::Minimize(id);
            (asked.push(request), minimize_outcome(id, desktop(then, request)->Done_0))
        },
        DecisionView::NoOp => (asked, OutcomeView::NoOp),
    }
}

/// The windows from position `next` on that do not close, each with the
/// message about it, when the window at `next` is closed as the `k`-th request.
pub open spec fn close_failures(
    desktop: spec_fn(nat, RequestView) -> ReplyView,
    windows: Seq<Seq<char>>,
    next: int,
    k: nat,
) -> Seq<(Seq<char>, Seq<char>)>
    decreases windows.len() - next,
{
    if next < 0 || next >= windows.len() {
        Seq::empty()
    } else {
        with_close(
            Seq::empty(),
            windows[next],
            desktop(k, RequestView::Close(windows[next]))->Done_0,
        ) + close_failures(desktop, windows, next + 1, k + 1)
    }
}

/// The requests that close the windows, one each, in order.
pub open spec fn close_requests(windows: Seq<Seq<char>>) -> Seq<RequestView> {
    windows.map_values(|id: Seq<char>| RequestView::Close(id))
}

/// A run that focuses or launches does this, whatever the desktop answers: it
/// learns the application's windows, where there are some which of them has
/// the focus, and then does the one thing that is decided on, or nothing.
pub proof fn law_focus_or_launch(
    desktop: spec_fn(nat, RequestView) -> ReplyView,
    settings: SettingsView,
    apps: Seq<AppView>,
)
    requires
        is_desktop(desktop),
    ensures
        ({
            let progress = started(Goal::FocusOrLaunch, settings, apps);
            let searched = search_requests(desktop, settings, apps);
            match target_windows(desktop, settings, apps) {
                Err(outcome) => {
                    &&& outcome_of(desktop, progress, 0) == outcome
                    &&& requests_of(desktop, progress, 0) == searched
                },
                Ok((entry, windows)) => {
                    let (asked, outcome) = focus_or_launch_with(
                        desktop,
                        settings,
                        entry,
                        windows,
                        searched.len(),
                    );
                    &&& outcome_of(desktop, progress, 0) == outcome
                    &&& requests_of(desktop, progress, 0) == searched + asked
                },
            }
        }),
{
    reveal_with_fuel(outcome_of, 5);
    reveal_with_fuel(requests_of, 5);
    let progress = started(Goal::FocusOrLaunch, settings, apps);
    let searched = search_requests(desktop, settings, apps);
    if target_of(settings, apps) is Some {
        let (class, entry) = target_of(settings, apps)->0;
        let first = RequestView::ListWindows(class);
        assert(answers(first, desktop(0, first)));
        if windows_in(desktop(0, first)) is Ok && windows_in(desktop(0, first))->Ok_0.len() == 0 {
            assert(windows_in(desktop(0, first))->Ok_0 =~= Seq::<Seq<char>>::empty());
        }
        let second = RequestView::ListWindows(second_class(settings, class, entry)->0);
        assert(answers(second, desktop(1, second)));
        if target_windows(desktop, settings, apps) is Ok {
            let (entry, windows) = target_windows(desktop, settings, apps)->Ok_0;
            let k = searched.len();
            assert(answers(RequestView::ActiveWindow, desktop(k, RequestView::ActiveWindow)));
            law_a_press_stays_with_the_application(
                windows,
                focus_among(desktop, windows, k),
                settings.cycle_windows,
                settings.minimize_when_focused,
            );
            let (asked, outcome) = focus_or_launch_with(desktop, settings, entry, windows, k);
            if asked.len() > 0 {
                assert(answers(asked.last(), desktop((k + asked.len() - 1) as nat, asked.last())));
            }
            assert(requests_of(desktop, progress, 0) =~= searched + asked);
        } else {
            assert(requests_of(desktop, progress, 0) =~= searched);
        }
    } else {
        assert(requests_of(desktop, progress, 0) =~= searched);
    }
}

proof fn lemma_closing(
    desktop: spec_fn(nat, RequestView) -> ReplyView,
    plan: PlanView,
    windows: Seq<Seq<char>>,
    next: int,
    failures: Seq<(Seq<char>, Seq<char>)>,
    k: nat,
)
    requires
        is_desktop(desktop),
        0 <= next < windows.len(),
    ensures
        ({
            let progress = ProgressView::Ask(
                RunView { plan, stage: StageView::Closing { windows, next, failures } },
                RequestView::Close(windows[next]),
            );
            &&& outcome_of(desktop, progress, k) == close_outcome(
                windows,
                failures + close_failures(desktop, windows, next, k),
            )
            &&& requests_of(desktop, progress, k) == close_requests(windows.skip(next))
        }),
    decreases windows.len() - next,
{
    reveal_with_fuel(outcome_of, 2);
    reveal_with_fuel(requests_of, 2);
    let request = RequestView::Close(windows[next]);
    let reply = desktop(k, request);
    assert(answers(request, reply));
    let all = with_close(failures, windows[next], reply->Done_0);
    let rest = close_failures(desktop, windows, next + 1, k + 1);
    assert(all + rest =~= failures + close_failures(desktop, windows, next, k));
    if next + 1 < windows.len() {
        lemma_closing(desktop, plan, windows, next + 1, all, k + 1);
        assert(close_requests(windows.skip(next)) =~= seq![request] + close_requests(
            windows.skip(next + 1),
        ));
    } else {
        assert(rest =~= Seq::<(Seq<char>, Seq<char>)>::empty());
        assert(all + rest =~= all);
        assert(close_requests(windows.skip(next)) =~= seq![request] + Seq::<RequestView>::empty());
    }
}

/// A run that closes all windows does this, whatever the desktop answers: it
/// learns the application's windows and tries to close each of them, in order,
/// whether or not one before it did close. It ends with all of them where all
/// closed, else with exactly those that did not, in order, each with the
/// message about it; and with nothing done where there are none.
pub proof fn law_close_all(
    desktop: spec_fn(nat, RequestView) -> ReplyView,
    settings: SettingsView,
    apps: Seq<AppView>,
)
    requires
        is_desktop(desktop),
    ensures
        ({
            let progress = started(Goal::CloseAll, settings, apps);
            let searched = search_requests(desktop, settings, apps);
            match target_windows(desktop, settings, apps) {
                Err(outcome) => {
                    &&& outcome_of(desktop, progress, 0) == outcome
                    &&& requests_of(desktop, progress, 0) == searched
                },
                Ok((_, windows)) => {
                    &&& requests_of(desktop, progress, 0) == searched + close_requests(windows)
                    &&& outcome_of(desktop, progress, 0) == if windows.len() == 0 {
                        OutcomeView::NoOp
                    } else {
                        close_outcome(
                            windows,
                            close_failures(desktop, windows, 0, searched.len()),
                        )
                    }
                },
            }
        }),
{
    reveal_with_fuel(outcome_of, 3);
    reveal_with_fuel(requests_of, 3);
    let progress = started(Goal::CloseAll, settings, apps);
    let searched = search_requests(desktop, settings, apps);
    if target_of(settings, apps) is Some {
        let (class, entry) = target_of(settings, apps)->0;
        let first = RequestView::ListWindows(class);
        assert(answers(first, desktop(0, first)));
        if windows_in(desktop(0, first)) is Ok && windows_in(desktop(0, first))->Ok_0.len() == 0 {
            assert(windows_in(desktop(0, first))->Ok_0 =~= Seq::<Seq<char>>::empty());
        }
        let second = RequestView::ListWindows(second_class(settings, class, entry)->0);
        assert(answers(second, desktop(1, second)));
        if target_windows(desktop, settings, apps) is Ok {
            let (_, windows) = target_windows(desktop, settings, apps)->Ok_0;
            let plan = progress->Ask_0.plan;
            let none = Seq::<(Seq<char>, Seq<char>)>::empty();
            if windows.len() > 0 {
                lemma_closing(desktop, plan, windows, 0, none, searched.len());
                assert(windows.skip(0) =~= windows);
                let failures = close_failures(desktop, windows, 0, searched.len());
                assert(none + failures =~= failures);
            } else {
                assert(close_requests(windows) =~= Seq::<RequestView>::empty());
            }
            assert(requests_of(desktop, progress, 0) =~= searched + close_requests(windows));
        } else {
            assert(requests_of(desktop, progress, 0) =~= searched);
        }
    } else {
        assert(requests_of(desktop, progress, 0) =~= searched);
    }
}

/// All windows count as closed exactly where each of them did close.
pub proof fn law_all_closed_means_each_closed(
    desktop: spec_fn(nat, RequestView) -> ReplyView,
    windows: Seq<Seq<char>>,
    k: nat,
)
    ensures
        close_failures(desktop, windows, 0, k).len() == 0 <==> forall|i: nat|
            i < windows.len() ==> (#[trigger] desktop(
                k + i,
                RequestView::Close(windows[i as int]),
            ))->Done_0 is Ok,
{
    lemma_no_failure_means_each_closed(desktop, windows, 0, k);
}

proof fn lemma_no_failure_means_each_closed(
    desktop: spec_fn(nat, RequestView) -> ReplyView,
    windows: Seq<Seq<char>>,
    next: nat,
    k: nat,
)
    requires
        next <= windows.len(),
    ensures
        close_failures(desktop, windows, next as int, k + next).len() == 0 <==> forall|i: nat|
            next <= i < windows.len() ==> (#[trigger] desktop(
                k + i,
                RequestView::Close(windows[i as int]),
            ))->Done_0 is Ok,
    decreases windows.len() - next,
{
    if next < windows.len() {
        lemma_no_failure_means_each_closed(desktop, windows, next + 1, k);
        assert(k + next + 1 == k + (next + 1));
        let here = desktop(k + next, RequestView::Close(windows[next as int]));
        if here->Done_0 is Ok {
            assert forall|i: nat| next + 1 <= i < windows.len() && (forall|j: nat|
                next <= j < windows.len() ==> (#[trigger] desktop(
                    k + j,
                    RequestView::Close(windows[j as int]),
                ))->Done_0 is Ok) implies (#[trigger] desktop(
                k + i,
                RequestView::Close(windows[i as int]),
            ))->Done_0 is Ok by {
            }
        }
    }
}

/// Whether the run that asks waits for just what answers its request.
pub open spec fn waits_for_the_answer(progress: ProgressView) -> bool {
    progress matches ProgressView::Ask(run, request) ==> forall|reply: ReplyView|
        expects(run.stage, reply) == #[trigger] answers(request, reply)
}

/// An answer to what a run asked can always be handed to it, from its start to
/// its end.
pub proof fn law_an_answer_is_always_accepted(
    goal: Goal,
    settings: SettingsView,
    apps: Seq<AppView>,
    run: RunView,
    reply: ReplyView,
)
    ensures
        waits_for_the_answer(started(goal, settings, apps)),
        waits_for_the_answer(stepped(run, reply)),
{
}

/// An application is launched only where the desktop told that it has no
/// window: never where the windows could not be listed, and never where there
/// is one.
pub proof fn law_launching_takes_a_search_without_windows(
    desktop: spec_fn(nat, RequestView) -> ReplyView,
    settings: SettingsView,
    apps: Seq<AppView>,
    goal: Goal,
    i: int,
)
    requires
        is_desktop(desktop),
        0 <= i < requests_of(desktop, started(goal, settings, apps), 0).len(),
        requests_of(desktop, started(goal, settings, apps), 0)[i] is Launch,
    ensures
        goal == Goal::FocusOrLaunch,
        target_windows(desktop, settings, apps) matches Ok((_, windows)) && windows.len() == 0,
{
    let searched = search_requests(desktop, settings, apps);
    let asked = requests_of(desktop, started(goal, settings, apps), 0);
    assert(forall|j: int| 0 <= j < searched.len() ==> (#[trigger] searched[j]) is ListWindows);
    match goal {
        Goal::FocusOrLaunch => {
            law_focus_or_launch(desktop, settings, apps);
            if target_windows(desktop, settings, apps) is Ok {
                let (entry, windows) = target_windows(desktop, settings, apps)->Ok_0;
                let k = searched.len();
                law_a_press_stays_with_the_application(
                    windows,
                    focus_among(desktop, windows, k),
                    settings.cycle_windows,
                    settings.minimize_when_focused,
                );
                let (then, _) = focus_or_launch_with(desktop, settings, entry, windows, k);
                assert(i >= k);
                assert(asked[i] == then[i - k]);
            }
        },
        Goal::CloseAll => {
            law_close_all(desktop, settings, apps);
            if target_windows(desktop, settings, apps) is Ok {
                let (_, windows) = target_windows(desktop, settings, apps)->Ok_0;
                let k = searched.len();
                assert(i >= k);
                assert(asked[i] == close_requests(windows)[i - k]);
            }
        },
    }
}

/// A class that the user set is left at that, even where it is the
/// application's own: the windows are searched by it and by nothing else, and
/// what that finds, though it be nothing, is what the run goes on with.
pub proof fn law_a_class_override_is_not_second_guessed(
    desktop: spec_fn(nat, RequestView) -> ReplyView,
    settings: SettingsView,
    apps: Seq<AppView>,
    class: Seq<char>,
)
    requires
        settings.class_override == Some(class),
        class.len() > 0,
        selected_app(settings, apps) is Some,
    ensures
        search_requests(desktop, settings, apps) == seq![RequestView::ListWindows(class)],
        target_windows(desktop, settings, apps) == match windows_in(
            desktop(0, RequestView::ListWindows(class)),
        ) {
            Ok(windows) => Ok((selected_app(settings, apps)->0, windows)),
            Err(e) => Err(listing_failed(e)),
        },
{
}

/// Where the application's own class finds no window, its id is searched by
/// too, if it is another: an application whose windows go by its id is
/// focused and not launched once more.
pub proof fn law_the_id_is_searched_where_the_class_finds_nothing(
    desktop: spec_fn(nat, RequestView) -> ReplyView,
    settings: SettingsView,
    apps: Seq<AppView>,
    windows: Seq<Seq<char>>,
)
    requires
        settings.class_override is None || settings.class_override->0.len() == 0,
        target_of(settings, apps) is Some,
        ({
            let (class, entry) = target_of(settings, apps)->0;
            &&& class != entry.id
            &&& desktop(0, RequestView::ListWindows(class)) == ReplyView::Windows(
                Ok(Seq::empty()),
            )
            &&& desktop(1, RequestView::ListWindows(entry.id)) == ReplyView::Windows(Ok(windows))
        }),
    ensures
        target_windows(desktop, settings, apps) == Ok::<
            (AppView, Seq<Seq<char>>),
            OutcomeView,
        >((selected_app(settings, apps)->0, windows)),
{
}

/// Whether the key with these settings is for the application at `i`: the first
/// with the id in the settings.
pub open spec fn is_for(settings: SettingsView, apps: Seq<AppView>, i: int) -> bool {
    &&& 0 <= i < apps.len()
    &&& settings.app == Some(apps[i].id)
    &&& forall|k: int| 0 <= k < i ==> (#[trigger] apps[k]).id != apps[i].id
}

/// A run of a key that is for no installed application asks nothing and says so.
pub proof fn law_a_run_without_an_application_asks_nothing(
    desktop: spec_fn(nat, RequestView) -> ReplyView,
    goal: Goal,
    settings: SettingsView,
    apps: Seq<AppView>,
)
    requires
        settings.app is Some ==> forall|k: int|
            0 <= k < apps.len() ==> (#[trigger] apps[k]).id != settings.app->0,
    ensures
        outcome_of(desktop, started(goal, settings, apps), 0) == OutcomeView::NoAppSelected,
        requests_of(desktop, started(goal, settings, apps), 0).len() == 0,
{
    law_a_key_without_a_target(settings, apps);
}

/// A run searches first by the class that the user set, else by the
/// application's own. Where that search fails, the run ends with its message and
/// asks nothing more, whatever it is for.
pub proof fn law_a_failed_search_ends_the_run(
    desktop: spec_fn(nat, RequestView) -> ReplyView,
    goal: Goal,
    settings: SettingsView,
    apps: Seq<AppView>,
    i: int,
    class: Seq<char>,
    e: ErrorView,
)
    requires
        is_desktop(desktop),
        is_for(settings, apps, i),
        is_searched_first(settings, apps[i], class),
        desktop(0, RequestView::ListWindows(class)) == ReplyView::Windows(Err(e)),
    ensures
        requests_of(desktop, started(goal, settings, apps), 0) == seq![
            RequestView::ListWindows(class),
        ],
        match e {
            ErrorView::Unavailable(msg) => outcome_of(
                desktop,
                started(goal, settings, apps),
                0,
            ) == OutcomeView::BackendUnavailable(msg),
            ErrorView::CommandFailed(msg) => outcome_of(
                desktop,
                started(goal, settings, apps),
                0,
            ) == OutcomeView::ListWindowsFailed(msg),
        },
{
    law_the_target_of_a_key(settings, apps, i);
    match goal {
        Goal::FocusOrLaunch => law_focus_or_launch(desktop, settings, apps),
        Goal::CloseAll => law_close_all(desktop, settings, apps),
    }
}

/// Whether `class` is what the windows are searched by first: the class that the
/// user set, or the application's own where none is set.
pub open spec fn is_searched_first(
    settings: SettingsView,
    app: AppView,
    class: Seq<char>,
) -> bool {
    if settings.class_override is Some && settings.class_override->0.len() > 0 {
        class == settings.class_override->0
    } else {
        class == app.window_class
    }
}

/// Whether the desktop tells these windows for the application, with `asked`
/// searches: those of the first search, or where it finds none and may be
/// followed by a second one by the id, those of the second, and none where that
/// fails.
pub open spec fn are_told(
    desktop: spec_fn(nat, RequestView) -> ReplyView,
    settings: SettingsView,
    app: AppView,
    class: Seq<char>,
    windows: Seq<Seq<char>>,
    asked: nat,
) -> bool {
    let again = !(settings.class_override is Some && settings.class_override->0.len() > 0)
        && app.window_class != app.id;
    let first = desktop(0, RequestView::ListWindows(class));
    let second = desktop(1, RequestView::ListWindows(app.id));
    ||| asked == 1 && windows.len() > 0 && first == ReplyView::Windows(Ok(windows))
    ||| asked == 1 && windows.len() == 0 && !again && first == ReplyView::Windows(Ok(windows))
    ||| asked == 2 && again && first == ReplyView::Windows(Ok(Seq::empty())) && second
        == ReplyView::Windows(Ok(windows))
    ||| asked == 2 && again && first == ReplyView::Windows(Ok(Seq::empty()))
        && windows.len() == 0 && (second matches ReplyView::Windows(r) && r is Err)
}

/// A run goes on with the windows that the desktop tells, after one search, or
/// two where there is reason for a second one.
pub proof fn law_a_run_goes_on_with_the_windows_told(
    desktop: spec_fn(nat, RequestView) -> ReplyView,
    settings: SettingsView,
    apps: Seq<AppView>,
    i: int,
    class: Seq<char>,
    windows: Seq<Seq<char>>,
    asked: nat,
)
    requires
        is_desktop(desktop),
        is_for(settings, apps, i),
        is_searched_first(settings, apps[i], class),
        are_told(desktop, settings, apps[i], class, windows, asked),
    ensures
        target_windows(desktop, settings, apps) == Ok::<(AppView, Seq<Seq<char>>), OutcomeView>(
            (apps[i], windows),
        ),
        asked == 1 ==> search_requests(desktop, settings, apps) == seq![
            RequestView::ListWindows(class),
        ],
        asked == 2 ==> search_requests(desktop, settings, apps) == seq![
            RequestView::ListWindows(class),
            RequestView::ListWindows(apps[i].id),
        ],
        search_requests(desktop, settings, apps).len() == asked,
{
    law_the_target_of_a_key(settings, apps, i);
    if windows.len() == 0 {
        assert(windows =~= Seq::<Seq<char>>::empty());
    }
}

/// Where the application has no window, a press launches it once, by the command
/// that the user set, else by its own, with the arguments that are set, and does
/// nothing else; the outcome is the launch's.
pub proof fn law_a_press_without_windows_launches(
    desktop: spec_fn(nat, RequestView) -> ReplyView,
    settings: SettingsView,
    apps: Seq<AppView>,
    i: int,
    class: Seq<char>,
    asked: nat,
    exec_line: Seq<char>,
    r: Result<(), Seq<char>>,
)
    requires
        is_desktop(desktop),
        is_for(settings, apps, i),
        is_searched_first(settings, apps[i], class),
        are_told(desktop, settings, apps[i], class, Seq::empty(), asked),
        settings.exec_override is Some && settings.exec_override->0.len() > 0 ==> exec_line
            == settings.exec_override->0,
        settings.exec_override is None || settings.exec_override->0.len() == 0 ==> exec_line
            == apps[i].exec_line,
        desktop(
            asked,
            RequestView::Launch { exec_line, args: settings.custom_args },
        ) == ReplyView::Launched(r),
    ensures
        ({
            let progress = started(Goal::FocusOrLaunch, settings, apps);
            let requests = requests_of(desktop, progress, 0);
            &&& requests.len() == asked + 1
            &&& requests[asked as int] == (RequestView::Launch {
                exec_line,
                args: settings.custom_args,
            })
            &&& r is Ok ==> outcome_of(desktop, progress, 0) == OutcomeView::Launched
            &&& r is Err ==> outcome_of(desktop, progress, 0) == OutcomeView::LaunchFailed(
                r->Err_0,
            )
        }),
{
    let none = Seq::<Seq<char>>::empty();
    law_a_run_goes_on_with_the_windows_told(desktop, settings, apps, i, class, none, asked);
    law_focus_or_launch(desktop, settings, apps);
    law_a_press_from_elsewhere_brings_the_first_window(
        none,
        None,
        settings.cycle_windows,
        settings.minimize_when_focused,
    );
}

/// Where the application has windows, a press asks once which window has the
/// focus, and then does just the one thing that is decided on: it brings a
/// window to the front, or minimizes one, or nothing; it never launches. The
/// outcome names the window, with the message where that failed. An answer about
/// the focus that fails is as good as none.
pub proof fn law_a_press_with_windows_does_one_thing(
    desktop: spec_fn(nat, RequestView) -> ReplyView,
    settings: SettingsView,
    apps: Seq<AppView>,
    i: int,
    class: Seq<char>,
    windows: Seq<Seq<char>>,
    asked: nat,
    active: Option<Seq<char>>,
)
    requires
        is_desktop(desktop),
        is_for(settings, apps, i),
        is_searched_first(settings, apps[i], class),
        are_told(desktop, settings, apps[i], class, windows, asked),
        windows.len() > 0,
        match desktop(asked, RequestView::ActiveWindow) {
            ReplyView::Active(Ok(id)) => active == id,
            _ => active is None,
        },
    ensures
        ({
            let progress = started(Goal::FocusOrLaunch, settings, apps);
            let requests = requests_of(desktop, progress, 0);
            let outcome = outcome_of(desktop, progress, 0);
            let next = (asked + 1) as nat;
            &&& requests.len() > asked
            &&& requests[asked as int] == RequestView::ActiveWindow
            &&& match decided(
                windows,
                active,
                settings.cycle_windows,
                settings.minimize_when_focused,
            ) {
                DecisionView::Launch => false,
                DecisionView::NoOp => requests.len() == asked + 1 && outcome == OutcomeView::NoOp,
                DecisionView::Activate(id) => {
                    &&& requests.len() == asked + 2
                    &&& requests[(asked + 1) as int] == RequestView::Activate(id)
                    &&& match desktop(next, RequestView::Activate(id)) {
                        ReplyView::Done(Ok(_)) => outcome == OutcomeView::Activated(id),
                        ReplyView::Done(Err(e)) => outcome == OutcomeView::ActivateFailed(
                            id,
                            e.message(),
                        ),
                        _ => false,
                    }
                },
                DecisionView::Minimize(id) => {
                    &&& requests.len() == asked + 2
                    &&& requests[(asked + 1) as int] == RequestView::Minimize(id)
                    &&& match desktop(next, RequestView::Minimize(id)) {
                        ReplyView::Done(Ok(_)) => outcome == OutcomeView::Minimized(id),
                        ReplyView::Done(Err(e)) => outcome == OutcomeView::MinimizeFailed(
                            id,
                            e.message(),
                        ),
                        _ => false,
                    }
                },
            }
        }),
{
    law_a_run_goes_on_with_the_windows_told(desktop, settings, apps, i, class, windows, asked);
    law_focus_or_launch(desktop, settings, apps);
    assert(answers(RequestView::ActiveWindow, desktop(asked, RequestView::ActiveWindow)));
    let decision = decided(
        windows,
        active,
        settings.cycle_windows,
        settings.minimize_when_focused,
    );
    law_a_press_stays_with_the_application(
        windows,
        active,
        settings.cycle_windows,
        settings.minimize_when_focused,
    );
    let next = (asked + 1) as nat;
    match decision {
        DecisionView::Activate(id) => {
            let request = RequestView::Activate(id);
            assert(answers(request, desktop(next, request)));
        },
        DecisionView::Minimize(id) => {
            let request = RequestView::Minimize(id);
            assert(answers(request, desktop(next, request)));
        },
        _ => {},
    }
}

/// A hold asks to close each of the application's windows, once, in order, and
/// nothing else; without windows it asks nothing more. It ends well exactly
/// where each did close, and then names them all; else it names just those that
/// did not, in order, each with the message about it.
pub proof fn law_a_hold_closes_each_window(
    desktop: spec_fn(nat, RequestView) -> ReplyView,
    settings: SettingsView,
    apps: Seq<AppView>,
    i: int,
    class: Seq<char>,
    windows: Seq<Seq<char>>,
    asked: nat,
)
    requires
        is_desktop(desktop),
        is_for(settings, apps, i),
        is_searched_first(settings, apps[i], class),
        are_told(desktop, settings, apps[i], class, windows, asked),
    ensures
        ({
            let progress = started(Goal::CloseAll, settings, apps);
            let requests = requests_of(desktop, progress, 0);
            let outcome = outcome_of(desktop, progress, 0);
            &&& requests.len() == asked + windows.len()
            &&& forall|k: int|
                0 <= k < windows.len() ==> #[trigger] requests[asked + k] == RequestView::Close(
                    windows[k],
                )
            &&& windows.len() == 0 ==> outcome == OutcomeView::NoOp
            &&& windows.len() > 0 && (forall|k: nat|
                k < windows.len() ==> !fails_to_close(desktop, windows, asked, k)) ==> outcome
                == OutcomeView::ClosedAll(windows)
            &&& (exists|k: nat| k < windows.len() && fails_to_close(desktop, windows, asked, k))
                ==> {
                &&& outcome is CloseFailed
                &&& forall|k: nat|
                    k < windows.len() && #[trigger] fails_to_close(desktop, windows, asked, k)
                        ==> outcome->CloseFailed_0.contains(
                        close_failure(desktop, windows, asked, k),
                    )
                &&& forall|j: int|
                    0 <= j < outcome->CloseFailed_0.len() ==> is_close_failure(
                        desktop,
                        windows,
                        asked,
                        #[trigger] outcome->CloseFailed_0[j],
                    )
                &&& stand_in_window_order(desktop, windows, asked, outcome->CloseFailed_0)
            }
        }),
{
    law_a_run_goes_on_with_the_windows_told(desktop, settings, apps, i, class, windows, asked);
    law_close_all(desktop, settings, apps);
    let progress = started(Goal::CloseAll, settings, apps);
    let requests = requests_of(desktop, progress, 0);
    assert forall|k: int| 0 <= k < windows.len() implies #[trigger] requests[asked + k]
        == RequestView::Close(windows[k]) by {
        assert(close_requests(windows)[k] == RequestView::Close(windows[k]));
    }
    lemma_close_failures(desktop, windows, 0, asked);
    let failures = close_failures(desktop, windows, 0, asked);
    assert(asked + 0 == asked);
    assert(failures == close_failures(desktop, windows, 0nat as int, asked + 0nat));
    if exists|k: nat| k < windows.len() && fails_to_close(desktop, windows, asked, k) {
        let k = choose|k: nat| k < windows.len() && fails_to_close(desktop, windows, asked, k);
        assert(failures.contains(close_failure(desktop, windows, asked, k)));
        let at = lemma_failures_stand_in_order(desktop, windows, 0, asked);
        assert(stand_at(desktop, windows, asked, failures, at));
    } else if failures.len() > 0 {
        assert(is_close_failure(desktop, windows, asked, failures[0]));
    }
}

/// Whether the window at `k` does not close when it is its turn.
pub open spec fn fails_to_close(
    desktop: spec_fn(nat, RequestView) -> ReplyView,
    windows: Seq<Seq<char>>,
    asked: nat,
    k: nat,
) -> bool {
    desktop(asked + k, RequestView::Close(windows[k as int])) matches ReplyView::Done(r) && r is Err
}

/// The window at `k` with the message about its not closing.
pub open spec fn close_failure(
    desktop: spec_fn(nat, RequestView) -> ReplyView,
    windows: Seq<Seq<char>>,
    asked: nat,
    k: nat,
) -> (Seq<char>, Seq<char>) {
    let reply = desktop(asked + k, RequestView::Close(windows[k as int]));
    (windows[k as int], reply->Done_0->Err_0.message())
}

/// Whether `failure` is one of the windows that did not close, with its message.
pub open spec fn is_close_failure(
    desktop: spec_fn(nat, RequestView) -> ReplyView,
    windows: Seq<Seq<char>>,
    asked: nat,
    failure: (Seq<char>, Seq<char>),
) -> bool {
    exists|k: nat|
        k < windows.len() && #[trigger] fails_to_close(desktop, windows, asked, k) && failure
            == close_failure(desktop, windows, asked, k)
}

/// Whether the failures stand in the order of their windows: `at` tells where
/// each of them stands, one behind the other.
pub open spec fn stand_at(
    desktop: spec_fn(nat, RequestView) -> ReplyView,
    windows: Seq<Seq<char>>,
    asked: nat,
    failures: Seq<(Seq<char>, Seq<char>)>,
    at: Seq<nat>,
) -> bool {
    &&& at.len() == failures.len()
    &&& forall|j: int|
        0 <= j < at.len() ==> #[trigger] at[j] < windows.len() && fails_to_close(
            desktop,
            windows,
            asked,
            at[j],
        ) && failures[j] == close_failure(desktop, windows, asked, at[j])
    &&& forall|i: int, j: int| 0 <= i < j < at.len() ==> #[trigger] at[i] < #[trigger] at[j]
}

/// Whether the failures are of windows that did not close, in the order of the
/// windows, each but once.
pub open spec fn stand_in_window_order(
    desktop: spec_fn(nat, RequestView) -> ReplyView,
    windows: Seq<Seq<char>>,
    asked: nat,
    failures: Seq<(Seq<char>, Seq<char>)>,
) -> bool {
    exists|at: Seq<nat>| stand_at(desktop, windows, asked, failures, at)
}

proof fn lemma_failures_stand_in_order(
    desktop: spec_fn(nat, RequestView) -> ReplyView,
    windows: Seq<Seq<char>>,
    next: nat,
    asked: nat,
) -> (at: Seq<nat>)
    requires
        is_desktop(desktop),
        next <= windows.len(),
    ensures
        stand_at(
            desktop,
            windows,
            asked,
            close_failures(desktop, windows, next as int, asked + next),
            at,
        ),
        forall|j: int| 0 <= j < at.len() ==> next <= #[trigger] at[j],
    decreases windows.len() - next,
{
    if next < windows.len() {
        let rest_at = lemma_failures_stand_in_order(desktop, windows, next + 1, asked);
        assert(asked + next + 1 == asked + (next + 1));
        let request = RequestView::Close(windows[next as int]);
        let reply = desktop(asked + next, request);
        assert(answers(request, reply));
        let failures = close_failures(desktop, windows, next as int, asked + next);
        let rest = close_failures(desktop, windows, (next + 1) as int, (asked + next + 1) as nat);
        let own = with_close(Seq::empty(), windows[next as int], reply->Done_0);
        assert(failures == own + rest);
        if own.len() > 0 {
            let at = seq![next] + rest_at;
            assert(fails_to_close(desktop, windows, asked, next));
            assert forall|j: int| 0 <= j < at.len() implies #[trigger] at[j] < windows.len()
                && fails_to_close(desktop, windows, asked, at[j]) && failures[j] == close_failure(
                desktop,
                windows,
                asked,
                at[j],
            ) && next <= at[j] by {
                if j > 0 {
                    assert(at[j] == rest_at[j - 1]);
                    assert(failures[j] == rest[j - 1]);
                } else {
                    assert(failures[0] == own[0]);
                }
            }
            assert forall|i: int, j: int| 0 <= i < j < at.len() implies #[trigger] at[i]
                < #[trigger] at[j] by {
                assert(at[j] == rest_at[j - 1]);
                if i > 0 {
                    assert(at[i] == rest_at[i - 1]);
                }
            }
            at
        } else {
            assert(failures =~= rest);
            rest_at
        }
    } else {
        Seq::empty()
    }
}

proof fn lemma_close_failures(
    desktop: spec_fn(nat, RequestView) -> ReplyView,
    windows: Seq<Seq<char>>,
    next: nat,
    asked: nat,
)
    requires
        is_desktop(desktop),
        next <= windows.len(),
    ensures
        ({
            let failures = close_failures(desktop, windows, next as int, asked + next);
            &&& forall|k: nat|
                next <= k < windows.len() && #[trigger] fails_to_close(desktop, windows, asked, k)
                    ==> failures.contains(close_failure(desktop, windows, asked, k))
            &&& forall|j: int|
                0 <= j < failures.len() ==> is_close_failure(
                    desktop,
                    windows,
                    asked,
                    #[trigger] failures[j],
                )
        }),
    decreases windows.len() - next,
{
    if next < windows.len() {
        lemma_close_failures(desktop, windows, next + 1, asked);
        assert(asked + next + 1 == asked + (next + 1));
        let request = RequestView::Close(windows[next as int]);
        let reply = desktop(asked + next, request);
        assert(answers(request, reply));
        let failures = close_failures(desktop, windows, next as int, asked + next);
        let rest = close_failures(desktop, windows, (next + 1) as int, (asked + next + 1) as nat);
        let own = with_close(Seq::empty(), windows[next as int], reply->Done_0);
        assert(failures == own + rest);
        assert(own.len() > 0 <==> fails_to_close(desktop, windows, asked, next));
        if own.len() > 0 {
            assert(own[0] == close_failure(desktop, windows, asked, next));
            assert(failures[0] == own[0]);
        }
        assert forall|k: nat|
            next <= k < windows.len() && #[trigger] fails_to_close(
                desktop,
                windows,
                asked,
                k,
            ) implies failures.contains(close_failure(desktop, windows, asked, k)) by {
            if k > next {
                let f = close_failure(desktop, windows, asked, k);
                assert(rest.contains(f));
                let at = choose|at: int| 0 <= at < rest.len() && rest[at] == f;
                assert(failures[own.len() + at] == f);
            }
        }
        assert forall|j: int| 0 <= j < failures.len() implies is_close_failure(
            desktop,
            windows,
            asked,
            #[trigger] failures[j],
        ) by {
            if j >= own.len() {
                assert(failures[j] == rest[j - own.len()]);
            } else {
                assert(j == 0);
            }
        }
    }
}

} // verus!
