//! What one press of a key does, given the application's windows and the
//! window that has the focus.

use crate::backend::WindowId;
use crate::text::views;
use vstd::prelude::*;

verus! {

/// What a press does.
#[derive(Debug, PartialEq, Eq)]
pub enum Decision {
    /// Start the application.
    Launch,
    /// Bring this window to the front.
    Activate(WindowId),
    /// Minimize this window.
    Minimize(WindowId),
    /// Do nothing.
    NoOp,
}

/// The contents of a [`Decision`].
#[verifier::ext_equal]
pub enum DecisionView {
    Launch,
    Activate(Seq<char>),
    Minimize(Seq<char>),
    NoOp,
}

impl View for Decision {
    type V = DecisionView;

    open spec fn view(&self) -> DecisionView {
        match *self {
            Decision::Launch => DecisionView::Launch,
            Decision::Activate(id) => DecisionView::Activate(id@),
            Decision::Minimize(id) => DecisionView::Minimize(id@),
            Decision::NoOp => DecisionView::NoOp,
        }
    }
}

/// The window after `active` in `windows`, the first one coming after the
/// last.
pub open spec fn next_window(windows: Seq<Seq<char>>, active: Seq<char>) -> Seq<char>
    recommends
        windows.contains(active),
{
    windows[(windows.index_of_first(active)->0 + 1) % windows.len() as int]
}

/// What a press does: without windows the application starts; with windows of
/// which none has the focus the first comes to the front; a lone window with
/// the focus is minimized and several are cycled through, each only where that
/// is switched on.
pub open spec fn decided(
    windows: Seq<Seq<char>>,
    active: Option<Seq<char>>,
    cycle_windows: bool,
    minimize_when_focused: bool,
) -> DecisionView {
    let focused = active is Some && windows.contains(active->0);
    if windows.len() == 0 {
        DecisionView::Launch
    } else if !focused {
        DecisionView::Activate(windows[0])
    } else if windows.len() == 1 {
        if minimize_when_focused {
            DecisionView::Minimize(active->0)
        } else {
            DecisionView::NoOp
        }
    } else if cycle_windows {
        DecisionView::Activate(next_window(windows, active->0))
    } else {
        DecisionView::NoOp
    }
}

/// The contents of an optional borrowed window identifier.
pub open spec fn active_view(active: Option<&WindowId>) -> Option<Seq<char>> {
    match active {
        Some(id) => Some(id@),
        None => None,
    }
}

/// The first position of `id` in `windows`.
fn position(windows: &[WindowId], id: &WindowId) -> (r: Option<usize>)
    ensures
        match r {
            Some(i) => {
                &&& i < windows@.len()
                &&& views(windows@).contains(id@)
                &&& views(windows@).index_of_first(id@) == Some(i as int)
            },
            None => !views(windows@).contains(id@),
        },
{
    let mut i: usize = 0;
    while i < windows.len()
        invariant
            i <= windows.len(),
            forall|k: int| 0 <= k < i ==> views(windows@)[k] != id@,
        decreases windows.len() - i,
    {
        if windows[i] == *id {
            proof {
                assert(views(windows@)[i as int] == id@);
                views(windows@).index_of_first_ensures(id@);
            }
            return Some(i);
        }
        i += 1;
    }
    None
}

/// Decides what a press does, for the application's `windows`, the window that
/// is `active` and the key's two settings.
pub fn decide(
    windows: &[WindowId],
    active: Option<&WindowId>,
    cycle_windows: bool,
    minimize_when_focused: bool,
) -> (r: Decision)
    ensures
        r@ == decided(
            views(windows@),
            active_view(active),
            cycle_windows,
            minimize_when_focused,
        ),
{
    if windows.len() == 0 {
        return Decision::Launch;
    }
    match active {
        Some(active_id) => {
            match position(windows, active_id) {
                Some(pos) => {
                    if windows.len() == 1 {
                        if minimize_when_focused {
                            Decision::Minimize(active_id.clone())
                        } else {
                            Decision::NoOp
                        }
                    } else if cycle_windows {
                        let next: usize = (pos + 1) % windows.len();
                        Decision::Activate(windows[next].clone())
                    } else {
                        Decision::NoOp
                    }
                },
                None => Decision::Activate(windows[0].clone()),
            }
        },
        None => Decision::Activate(windows[0].clone()),
    }
}

/// The window that has the focus after `presses` presses with cycling on, each
/// of them made while the window that the one before brought to the front has
/// the focus.
pub open spec fn after_presses(
    windows: Seq<Seq<char>>,
    active: Seq<char>,
    minimize_when_focused: bool,
    presses: nat,
) -> Seq<char>
    decreases presses,
{
    if presses == 0 {
        active
    } else {
        let before = after_presses(windows, active, minimize_when_focused, (presses - 1) as nat);
        match decided(windows, Some(before), true, minimize_when_focused) {
            DecisionView::Activate(id) => id,
            _ => before,
        }
    }
}

/// Pressing the key over and over goes round the application's windows in the
/// order in which they are listed: `k` presses lead from the window at
/// position `start` to the one `k` places on, counted round the end.
pub proof fn law_presses_go_round(
    windows: Seq<Seq<char>>,
    start: int,
    minimize_when_focused: bool,
    presses: nat,
)
    requires
        windows.no_duplicates(),
        windows.len() >= 2,
        0 <= start < windows.len(),
    ensures
        after_presses(windows, windows[start], minimize_when_focused, presses) == windows[(start
            + presses) % windows.len() as int],
    decreases presses,
{
    let n = windows.len() as int;
    if presses == 0 {
        assert(start % n == start) by (nonlinear_arith)
            requires
                0 <= start < n,
        ;
    } else {
        let k = (presses - 1) as nat;
        law_presses_go_round(windows, start, minimize_when_focused, k);
        let p = (start + k) % n;
        assert(0 <= p < n) by (nonlinear_arith)
            requires
                n > 0,
                p == (start + k) % n,
        ;
        assert(windows.contains(windows[p]));
        windows.index_of_first_ensures(windows[p]);
        assert(windows.index_of_first(windows[p]) == Some(p));
        assert((p + 1) % n == (start + presses) % n) by {
            vstd::arithmetic::div_mod::lemma_add_mod_noop(start + k, 1, n);
            assert(1int % n == 1) by (nonlinear_arith)
                requires
                    n >= 2,
            ;
        }
    }
}

/// As many presses as the application has windows lead back to the window
/// that had the focus at first, and on the way every window has had it.
pub proof fn law_a_full_round_visits_every_window(
    windows: Seq<Seq<char>>,
    start: int,
    target: int,
    minimize_when_focused: bool,
)
    requires
        windows.no_duplicates(),
        windows.len() >= 2,
        0 <= start < windows.len(),
        0 <= target < windows.len(),
    ensures
        after_presses(windows, windows[start], minimize_when_focused, windows.len())
            == windows[start],
        exists|k: nat|
            k < windows.len() && #[trigger] after_presses(
                windows,
                windows[start],
                minimize_when_focused,
                k,
            ) == windows[target],
{
    let n = windows.len() as int;
    law_presses_go_round(windows, start, minimize_when_focused, windows.len());
    assert((start + n) % n == start) by (nonlinear_arith)
        requires
            0 <= start < n,
    ;
    let k: nat = if target >= start {
        (target - start) as nat
    } else {
        (target - start + n) as nat
    };
    law_presses_go_round(windows, start, minimize_when_focused, k);
    if target >= start {
        assert((start + k) % n == target) by (nonlinear_arith)
            requires
                start + k == target,
                0 <= target < n,
        ;
    } else {
        assert((start + k) % n == target) by (nonlinear_arith)
            requires
                start + k == target + n,
                0 <= target < n,
        ;
    }
}

/// A press acts on nothing but a listed window: whatever it brings to the
/// front or minimizes is one of the application's windows, and the
/// application is started exactly where it has none.
pub proof fn law_a_press_stays_with_the_application(
    windows: Seq<Seq<char>>,
    active: Option<Seq<char>>,
    cycle_windows: bool,
    minimize_when_focused: bool,
)
    ensures
        match decided(windows, active, cycle_windows, minimize_when_focused) {
            DecisionView::Launch => windows.len() == 0,
            DecisionView::Activate(id) => windows.contains(id),
            DecisionView::Minimize(id) => windows == seq![id] && active == Some(id),
            DecisionView::NoOp => windows.len() > 0 && active is Some && windows.contains(
                active->0,
            ),
        },
{
    if windows.len() > 0 {
        assert(windows.contains(windows[0]));
        if active is Some && windows.contains(active->0) {
            windows.index_of_first_ensures(active->0);
            let n = windows.len() as int;
            let p = windows.index_of_first(active->0)->0 + 1;
            assert(0 <= p % n < n) by (nonlinear_arith)
                requires
                    n > 0,
            ;
            assert(windows.contains(windows[p % n]));
        }
    }
}

/// A press obeys the two switches: it never minimizes a window where minimizing
/// is off, and never takes the focus from a focused window of the application
/// where cycling is off. A lone window with the focus is minimized exactly where
/// minimizing is on, whatever cycling is, and otherwise left alone.
pub proof fn law_a_press_obeys_the_switches(
    windows: Seq<Seq<char>>,
    active: Option<Seq<char>>,
    cycle_windows: bool,
    minimize_when_focused: bool,
)
    ensures
        !minimize_when_focused ==> !(decided(
            windows,
            active,
            cycle_windows,
            minimize_when_focused,
        ) is Minimize),
        !cycle_windows && active is Some && windows.contains(active->0) ==> !(decided(
            windows,
            active,
            cycle_windows,
            minimize_when_focused,
        ) is Activate),
        windows.len() == 1 && active == Some(windows[0]) && minimize_when_focused ==> decided(
            windows,
            active,
            cycle_windows,
            minimize_when_focused,
        ) == DecisionView::Minimize(windows[0]),
        windows.len() == 1 && active == Some(windows[0]) && !minimize_when_focused ==> decided(
            windows,
            active,
            cycle_windows,
            minimize_when_focused,
        ) == DecisionView::NoOp,
{
    if windows.len() == 1 {
        assert(windows.contains(windows[0]));
    }
}

/// With several windows of which one has the focus, a press goes on to the
/// window behind it, and from the last one to the first; where cycling is off
/// it does nothing, whatever minimizing is.
pub proof fn law_a_press_goes_on_to_the_next_window(
    windows: Seq<Seq<char>>,
    focused: int,
    minimize_when_focused: bool,
)
    requires
        windows.len() >= 2,
        0 <= focused < windows.len(),
        forall|k: int| 0 <= k < focused ==> #[trigger] windows[k] != windows[focused],
    ensures
        focused + 1 < windows.len() ==> decided(
            windows,
            Some(windows[focused]),
            true,
            minimize_when_focused,
        ) == DecisionView::Activate(windows[focused + 1]),
        focused + 1 == windows.len() ==> decided(
            windows,
            Some(windows[focused]),
            true,
            minimize_when_focused,
        ) == DecisionView::Activate(windows[0]),
        decided(windows, Some(windows[focused]), false, minimize_when_focused)
            == DecisionView::NoOp,
{
    let n = windows.len() as int;
    windows.index_of_first_ensures(windows[focused]);
    assert(windows.contains(windows[focused]));
    let i = windows.index_of_first(windows[focused])->0;
    if i < focused {
        assert(windows[i] != windows[focused]);
    }
    if focused + 1 < n {
        vstd::arithmetic::div_mod::lemma_small_mod((focused + 1) as nat, n as nat);
    } else {
        vstd::arithmetic::div_mod::lemma_mod_self_0(n);
    }
}

/// Where the focus is elsewhere, a press brings the application's first window
/// to the front, or starts the application where it has none, whatever the
/// switches are.
pub proof fn law_a_press_from_elsewhere_brings_the_first_window(
    windows: Seq<Seq<char>>,
    active: Option<Seq<char>>,
    cycle_windows: bool,
    minimize_when_focused: bool,
)
    requires
        active is Some ==> forall|k: int|
            0 <= k < windows.len() ==> #[trigger] windows[k] != active->0,
    ensures
        windows.len() == 0 ==> decided(windows, active, cycle_windows, minimize_when_focused)
            == DecisionView::Launch,
        windows.len() > 0 ==> decided(windows, active, cycle_windows, minimize_when_focused)
            == DecisionView::Activate(windows[0]),
{
}

} // verus!
