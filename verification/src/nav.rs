//! Back/forward navigation history of the frontend, and the report of
//! whether its window is on screen.

use vstd::prelude::*;
use crate::text::str_eq;

verus! {

/// The visited page states and the position of the current one.
pub struct NavControllerRust {
    entries: Vec<String>,
    cursor: usize,
    can_go_back: bool,
    can_go_forward: bool,
}

/// The history as values: the states and the current position.
pub struct NavView {
    pub entries: Seq<Seq<char>>,
    pub cursor: nat,
}

/// A consistent history: the cursor points at an entry (or is 0 when empty).
pub open spec fn nav_ok(v: NavView) -> bool {
    if v.entries.len() == 0 {
        v.cursor == 0
    } else {
        v.cursor < v.entries.len()
    }
}

pub open spec fn back_flag(v: NavView) -> bool {
    v.cursor > 0
}

pub open spec fn forward_flag(v: NavView) -> bool {
    v.entries.len() > 0 && v.cursor < v.entries.len() - 1
}

/// Visiting `state`: a repeat of the current state changes nothing; otherwise
/// everything after the current entry is dropped and `state` becomes the
/// newest, current entry.
pub open spec fn record_spec(v: NavView, state: Seq<char>) -> NavView {
    if v.entries.len() > v.cursor && v.entries[v.cursor as int] == state {
        v
    } else {
        let kept = if v.entries.len() == 0 {
            v.entries
        } else {
            v.entries.take(v.cursor + 1int)
        };
        NavView { entries: kept.push(state), cursor: kept.len() }
    }
}

/// One step back, if there is an entry before the current one.
pub open spec fn back_spec(v: NavView) -> NavView {
    if v.cursor == 0 {
        v
    } else {
        NavView { entries: v.entries, cursor: (v.cursor - 1) as nat }
    }
}

/// One step forward, if there is an entry after the current one.
pub open spec fn forward_spec(v: NavView) -> NavView {
    if forward_flag(v) {
        NavView { entries: v.entries, cursor: v.cursor + 1 }
    } else {
        v
    }
}

impl NavControllerRust {
    pub closed spec fn view(&self) -> NavView {
        NavView { entries: self.entries@.map_values(|s: String| s@), cursor: self.cursor as nat }
    }

    /// Whether the back button is enabled.
    pub closed spec fn back_enabled(&self) -> bool {
        self.can_go_back
    }

    /// Whether the forward button is enabled.
    pub closed spec fn forward_enabled(&self) -> bool {
        self.can_go_forward
    }

    /// The cursor is consistent and the two flags describe it.
    pub closed spec fn wf(&self) -> bool {
        &&& nav_ok(self.view())
        &&& self.can_go_back == back_flag(self.view())
        &&& self.can_go_forward == forward_flag(self.view())
    }

    /// An empty history.
    pub fn new() -> (r: Self)
        ensures
            r.wf(),
            r.view().entries.len() == 0,
            r.view().cursor == 0,
            r.view() == start_view(),
            !r.back_enabled(),
            !r.forward_enabled(),
    {
        let r = NavControllerRust {
            entries: Vec::new(),
            cursor: 0,
            can_go_back: false,
            can_go_forward: false,
        };
        assert(r.view().entries =~= Seq::<Seq<char>>::empty());
        r
    }

    pub fn can_go_back(&self) -> (r: bool)
        ensures
            r == self.back_enabled(),
    {
        self.can_go_back
    }

    pub fn can_go_forward(&self) -> (r: bool)
        ensures
            r == self.forward_enabled(),
    {
        self.can_go_forward
    }

    /// A well-formed history is consistent, and its flags say whether there
    /// is an entry before and after the current one.
    pub proof fn law_flags_follow_cursor(&self)
        requires
            self.wf(),
        ensures
            nav_ok(self.view()),
            self.back_enabled() == back_flag(self.view()),
            self.forward_enabled() == forward_flag(self.view()),
    {
    }

    /// Sets both flags from the cursor.
    fn update_flags(&mut self)
        requires
            nav_ok(old(self).view()),
        ensures
            final(self).view() == old(self).view(),
            final(self).wf(),
    {
        let back = self.cursor > 0;
        let forward = self.entries.len() > 0 && self.cursor < self.entries.len() - 1;
        self.can_go_back = back;
        self.can_go_forward = forward;
    }

    /// Visits `state`.
    pub fn record(&mut self, state: String)
        requires
            old(self).wf(),
        ensures
            final(self).wf(),
            final(self).view() == record_spec(old(self).view(), state@),
            final(self).back_enabled() == back_flag(final(self).view()),
            final(self).forward_enabled() == forward_flag(final(self).view()),
    {
        let ghost v = self.view();
        if self.cursor < self.entries.len() && str_eq(self.entries[self.cursor].as_str(), state.as_str()) {
            assert(v.entries[v.cursor as int] == self.entries@[self.cursor as int]@);
            return;
        }
        assert(v.entries.len() > v.cursor ==> v.entries[v.cursor as int] == self.entries@[self.cursor as int]@);
        let ghost sv = state@;
        if self.entries.len() > 0 {
            let keep = self.cursor + 1;
            self.entries.truncate(keep);
        }
        self.entries.push(state);
        self.cursor = self.entries.len() - 1;
        proof {
            let kept = if v.entries.len() == 0 {
                v.entries
            } else {
                v.entries.take(v.cursor + 1int)
            };
            assert(self.view().entries =~= kept.push(sv));
            assert(self.view().cursor == kept.len());
        }
        self.update_flags();
    }

    /// Steps back; returns the state to restore, if the step was possible.
    pub fn go_back(&mut self) -> (r: Option<String>)
        requires
            old(self).wf(),
        ensures
            final(self).wf(),
            final(self).view() == back_spec(old(self).view()),
            final(self).back_enabled() == back_flag(final(self).view()),
            final(self).forward_enabled() == forward_flag(final(self).view()),
            match r {
                Some(s) => old(self).view().cursor > 0 && s@ == final(self).view().entries[(
                final(self).view().cursor) as int],
                None => old(self).view().cursor == 0,
            },
    {
        if self.cursor == 0 {
            return None;
        }
        self.cursor = self.cursor - 1;
        let state = self.entries[self.cursor].clone();
        self.update_flags();
        Some(state)
    }

    /// Steps forward; returns the state to restore, if the step was possible.
    pub fn go_forward(&mut self) -> (r: Option<String>)
        requires
            old(self).wf(),
        ensures
            final(self).wf(),
            final(self).view() == forward_spec(old(self).view()),
            final(self).back_enabled() == back_flag(final(self).view()),
            final(self).forward_enabled() == forward_flag(final(self).view()),
            match r {
                Some(s) => forward_flag(old(self).view()) && s@ == final(self).view().entries[(
                final(self).view().cursor) as int],
                None => !forward_flag(old(self).view()),
            },
    {
        if self.entries.len() == 0 || self.cursor >= self.entries.len() - 1 {
            return None;
        }
        self.cursor = self.cursor + 1;
        let state = self.entries[self.cursor].clone();
        self.update_flags();
        Some(state)
    }
}

/// Going back and then forward returns to the same entry.
pub proof fn law_back_then_forward(v: NavView)
    requires
        nav_ok(v),
        back_flag(v),
    ensures
        forward_spec(back_spec(v)) == v,
{
}

/// Going forward and then back returns to the same entry.
pub proof fn law_forward_then_back(v: NavView)
    requires
        nav_ok(v),
        forward_flag(v),
    ensures
        back_spec(forward_spec(v)) == v,
{
}

/// After visiting a state it is the current entry, nothing lies ahead, and
/// everything up to the previous current entry is kept.
pub proof fn law_record_makes_current(v: NavView, state: Seq<char>)
    requires
        nav_ok(v),
    ensures
        nav_ok(record_spec(v, state)),
        record_spec(v, state).entries[record_spec(v, state).cursor as int] == state,
        v.entries.len() == 0 || v.entries[v.cursor as int] != state ==> !forward_flag(
            record_spec(v, state),
        ),
        v.entries.len() > 0 ==> record_spec(v, state).entries.take(v.cursor + 1int) == v.entries.take(
            v.cursor + 1int,
        ),
{
    let r = record_spec(v, state);
    if v.entries.len() > 0 && v.entries[v.cursor as int] != state {
        assert(r.entries.take(v.cursor + 1int) =~= v.entries.take(v.cursor + 1int));
    }
}

/// Every step keeps the history consistent.
pub proof fn law_steps_keep_history_consistent(v: NavView, state: Seq<char>)
    requires
        nav_ok(v),
    ensures
        nav_ok(record_spec(v, state)),
        nav_ok(back_spec(v)),
        nav_ok(forward_spec(v)),
{
}

/// One navigation call: a visit to a state, a step back or a step forward.
pub enum NavStep {
    Record(Seq<char>),
    Back,
    Forward,
}

/// The history after `steps`, taken in order from `v`.
pub open spec fn run_steps(v: NavView, steps: Seq<NavStep>) -> NavView
    decreases steps.len(),
{
    if steps.len() == 0 {
        v
    } else {
        let w = run_steps(v, steps.drop_last());
        match steps.last() {
            NavStep::Record(state) => record_spec(w, state),
            NavStep::Back => back_spec(w),
            NavStep::Forward => forward_spec(w),
        }
    }
}

/// The empty history a controller starts with.
pub open spec fn start_view() -> NavView {
    NavView { entries: Seq::empty(), cursor: 0 }
}

/// After any sequence of visits and steps from the empty history, the cursor
/// points at an entry (or is 0 when there is none); the flags each call
/// leaves (see `record`, `go_back`, `go_forward`) are then `back_flag` and
/// `forward_flag` of that history.
pub proof fn law_any_steps_keep_history_consistent(steps: Seq<NavStep>)
    ensures
        nav_ok(run_steps(start_view(), steps)),
    decreases steps.len(),
{
    if steps.len() > 0 {
        law_any_steps_keep_history_consistent(steps.drop_last());
    }
}

/// Whether the frontend window was last reported on screen.
pub struct WindowControllerRust {
    reported: bool,
}

impl WindowControllerRust {
    /// The last state reported (initially: not visible).
    pub closed spec fn last_reported(&self) -> bool {
        self.reported
    }

    pub fn new() -> (r: Self)
        ensures
            !r.last_reported(),
    {
        WindowControllerRust { reported: false }
    }

    /// Records the window's visibility; true when it differs from what was
    /// last reported, that is when the daemon must be told.
    pub fn set_visible(&mut self, visible: bool) -> (r: bool)
        ensures
            r == (old(self).last_reported() != visible),
            final(self).last_reported() == visible,
    {
        let previous = self.reported;
        self.reported = visible;
        previous != visible
    }
}

} // verus!
