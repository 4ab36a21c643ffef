use vstd::prelude::*;

use crate::format::{format_number, formatted};
use crate::router::{lemma_route_of_path, resolve, route_of, route_path, Page};
use crate::signal::{tracked_by, ScopeId, Signal};

verus! {

/// The live node counter's value when the home page mounts.
pub const INITIAL_NODE_COUNT: i32 = 12847;

/// Period of the live counter's timer, in milliseconds.
pub const COUNTER_PERIOD_MS: u32 = 3000;

/// Identifies a repeating timer started for a mounted page.
pub type TimerId = u64;

/// The home page's live counter and the timer that drives it; `timer` is
/// `None` only once timer identities have run out.
struct LiveCounter {
    count: Signal<i32>,
    timer: Option<TimerId>,
}

/// The whole reactive state of the site: the persistent navigation's menu
/// toggle, the page mounted in the content slot, and the resources that page
/// owns.
pub struct Site {
    menu: Signal<bool>,
    page: Option<Page>,
    counter: Option<LiveCounter>,
    next_timer: TimerId,
}

/// Model of a mounted live counter.
pub struct CounterModel {
    pub count: i32,
    pub dependents: Seq<ScopeId>,
    pub timer: Option<TimerId>,
}

/// Model of a [`Site`].
pub struct SiteModel {
    pub menu_open: bool,
    pub menu_dependents: Seq<ScopeId>,
    pub page: Option<Page>,
    pub counter: Option<CounterModel>,
    /// Every timer handed out so far has a smaller identity.
    pub next_timer: TimerId,
}

/// What one navigation did: the page taken down and the page put up, the
/// timer to cancel with the old page and the timer to start for the new one.
#[derive(Clone, Copy, Debug, PartialEq, Eq, Structural)]
pub struct Navigation {
    pub unmounted: Option<Page>,
    pub mounted: Option<Page>,
    pub cancelled: Option<TimerId>,
    pub started: Option<TimerId>,
}

impl View for Site {
    type V = SiteModel;

    closed spec fn view(&self) -> SiteModel {
        SiteModel {
            menu_open: self.menu.value(),
            menu_dependents: self.menu.dependents(),
            page: self.page,
            counter: match self.counter {
                Some(c) => Some(
                    CounterModel {
                        count: c.count.value(),
                        dependents: c.count.dependents(),
                        timer: c.timer,
                    },
                ),
                None => None,
            },
            next_timer: self.next_timer,
        }
    }
}

/// A well-formed site: no dependent is registered twice, the live counter
/// exists exactly while the home page is mounted, and its timer was handed
/// out before.
pub open spec fn site_ok(m: SiteModel) -> bool {
    &&& m.menu_dependents.no_duplicates()
    &&& (m.counter is Some <==> m.page == Some(Page::Home))
    &&& match m.counter {
        Some(c) => c.dependents.no_duplicates() && (c.timer matches Some(t) ==> t < m.next_timer),
        None => true,
    }
}

/// The timer of the mounted live counter, if any.
pub open spec fn live_timer(m: SiteModel) -> Option<TimerId> {
    match m.counter {
        Some(c) => c.timer,
        None => None,
    }
}

/// A live counter's state right after the home page mounts.
pub open spec fn fresh_counter(next_timer: TimerId) -> CounterModel {
    CounterModel {
        count: INITIAL_NODE_COUNT,
        dependents: Seq::empty(),
        timer: if next_timer < u64::MAX {
            Some(next_timer)
        } else {
            None
        },
    }
}

/// The site after the content slot is switched to `target`: the old page and
/// everything it owned are gone; the home page brings a fresh live counter.
pub open spec fn mounted(m: SiteModel, target: Option<Page>) -> SiteModel {
    if target == Some(Page::Home) {
        SiteModel {
            page: target,
            counter: Some(fresh_counter(m.next_timer)),
            next_timer: if m.next_timer < u64::MAX {
                (m.next_timer + 1) as u64
            } else {
                m.next_timer
            },
            ..m
        }
    } else {
        SiteModel { page: target, counter: None, ..m }
    }
}

/// The report of switching the content slot from `m` to `target`.
pub open spec fn navigation(m: SiteModel, target: Option<Page>) -> Navigation {
    Navigation {
        unmounted: m.page,
        mounted: target,
        cancelled: live_timer(m),
        started: live_timer(mounted(m, target)),
    }
}

/// The site after the menu toggle is activated.
pub open spec fn toggled(m: SiteModel) -> SiteModel {
    SiteModel { menu_open: !m.menu_open, ..m }
}

/// The counter's next value: one more, held at the largest `i32`.
pub open spec fn incremented(n: i32) -> i32 {
    if n < i32::MAX {
        (n + 1) as i32
    } else {
        n
    }
}

/// `timer` drives the live counter that is mounted now.
pub open spec fn drives(m: SiteModel, timer: TimerId) -> bool {
    live_timer(m) == Some(timer)
}

/// The site after `timer` fires: only the timer of the mounted live counter
/// changes anything.
pub open spec fn ticked(m: SiteModel, timer: TimerId) -> SiteModel {
    match m.counter {
        Some(c) => if c.timer == Some(timer) {
            SiteModel { counter: Some(CounterModel { count: incremented(c.count), ..c }), ..m }
        } else {
            m
        },
        None => m,
    }
}

/// The dependents to re-run after `timer` fires.
pub open spec fn tick_stale(m: SiteModel, timer: TimerId) -> Seq<ScopeId> {
    match m.counter {
        Some(c) => if c.timer == Some(timer) {
            c.dependents
        } else {
            Seq::empty()
        },
        None => Seq::empty(),
    }
}

/// The site after `timer` fires `n` times in a row.
pub open spec fn ticked_times(m: SiteModel, timer: TimerId, n: nat) -> SiteModel
    decreases n,
{
    if n == 0 {
        m
    } else {
        ticked(ticked_times(m, timer, (n - 1) as nat), timer)
    }
}

/// How many times `scope` is re-run while `timer` fires `n` times in a row.
pub open spec fn times_rerun(m: SiteModel, timer: TimerId, n: nat, scope: ScopeId) -> nat
    decreases n,
{
    if n == 0 {
        0
    } else {
        times_rerun(m, timer, (n - 1) as nat, scope) + tick_stale(
            ticked_times(m, timer, (n - 1) as nat),
            timer,
        ).to_multiset().count(scope)
    }
}

/// `timer` was handed out before and drives nothing that is mounted now.
pub open spec fn retired(m: SiteModel, timer: TimerId) -> bool {
    timer < m.next_timer && !drives(m, timer)
}

/// Navigating to the path of a page mounts that page, once, in place of
/// whatever was mounted before, whose timer is cancelled.
pub proof fn lemma_navigate_to_page(m: SiteModel, p: Page)
    ensures
        route_of(route_path(p)) == Some(p),
        mounted(m, route_of(route_path(p))).page == Some(p),
        navigation(m, route_of(route_path(p))).mounted == Some(p),
        navigation(m, route_of(route_path(p))).unmounted == m.page,
        navigation(m, route_of(route_path(p))).cancelled == live_timer(m),
{
    lemma_route_of_path(p);
}

/// Navigating to a path outside the route table is no failure: the old page
/// is unmounted, its timer cancelled, and the content slot stays empty.
pub proof fn lemma_navigate_unknown(m: SiteModel, path: Seq<char>)
    requires
        forall|p: Page| route_path(p) != path,
    ensures
        route_of(path) is None,
        mounted(m, route_of(path)).page is None,
        mounted(m, route_of(path)).counter is None,
        navigation(m, route_of(path)).mounted is None,
        navigation(m, route_of(path)).unmounted == m.page,
        navigation(m, route_of(path)).cancelled == live_timer(m),
        navigation(m, route_of(path)).started is None,
{
}

/// Activating the menu toggle flips it, and activating it twice gives back
/// the state it started from.
pub proof fn lemma_toggle_twice(m: SiteModel)
    ensures
        toggled(m).menu_open == !m.menu_open,
        toggled(toggled(m)) == m,
{
}

/// Over `n` firings of the timer that drives the mounted live counter, with
/// nothing else in between, the counter goes up by exactly `n`, and each of
/// its dependents re-runs exactly `n` times.
pub proof fn lemma_ticks_accumulate(m: SiteModel, timer: TimerId, n: nat, scope: ScopeId)
    requires
        site_ok(m),
        drives(m, timer),
        m.counter.unwrap().dependents.contains(scope),
        m.counter.unwrap().count + n <= i32::MAX,
    ensures
        drives(ticked_times(m, timer, n), timer),
        ticked_times(m, timer, n).counter.unwrap().dependents == m.counter.unwrap().dependents,
        ticked_times(m, timer, n).counter.unwrap().count == m.counter.unwrap().count + n,
        times_rerun(m, timer, n, scope) == n,
    decreases n,
{
    if n > 0 {
        let k = (n - 1) as nat;
        lemma_ticks_accumulate(m, timer, k, scope);
        lemma_tick_step(ticked_times(m, timer, k), timer);
        let deps = m.counter.unwrap().dependents;
        deps.lemma_multiset_has_no_duplicates();
        deps.to_multiset_ensures();
        assert(deps.to_multiset().contains(scope));
    }
}

proof fn lemma_tick_step(m: SiteModel, timer: TimerId)
    requires
        drives(m, timer),
    ensures
        drives(ticked(m, timer), timer),
        ticked(m, timer).counter.unwrap().dependents == m.counter.unwrap().dependents,
        ticked(m, timer).counter.unwrap().count == incremented(m.counter.unwrap().count),
        tick_stale(m, timer) == m.counter.unwrap().dependents,
{
}

/// Navigating away from the home page cancels its timer: the navigation
/// reports it, and the timer is retired whichever page comes next.
pub proof fn lemma_navigation_retires_timer(m: SiteModel, target: Option<Page>, timer: TimerId)
    requires
        site_ok(m),
        drives(m, timer),
    ensures
        navigation(m, target).cancelled == Some(timer),
        retired(mounted(m, target), timer),
{
}

/// A retired timer changes nothing and re-runs nothing when it fires, and it
/// stays retired through every later event.
pub proof fn lemma_retired_timer_is_inert(
    m: SiteModel,
    timer: TimerId,
    other: TimerId,
    target: Option<Page>,
)
    requires
        site_ok(m),
        retired(m, timer),
    ensures
        ticked(m, timer) == m,
        tick_stale(m, timer) == Seq::<ScopeId>::empty(),
        retired(ticked(m, other), timer),
        retired(toggled(m), timer),
        retired(mounted(m, target), timer),
{
}

fn flip(open: &bool) -> (r: bool)
    ensures
        r == !*open,
{
    !*open
}

fn step_count(n: &i32) -> (r: i32)
    ensures
        r == incremented(*n),
{
    if *n < i32::MAX {
        *n + 1
    } else {
        *n
    }
}

impl Site {
    pub open spec fn wf(&self) -> bool {
        site_ok(self@)
    }

    /// The site before the first navigation: menu closed, nothing mounted.
    pub fn new() -> (s: Self)
        ensures
            s.wf(),
            s@.menu_open == false,
            s@.menu_dependents == Seq::<ScopeId>::empty(),
            s@.page is None,
            s@.counter is None,
            s@.next_timer == 0,
    {
        Site { menu: Signal::new(false), page: None, counter: None, next_timer: 0 }
    }

    /// Tears down the mounted page and whatever it owns; returns that page
    /// and the timer to cancel with it.
    fn unmount(&mut self) -> (r: (Option<Page>, Option<TimerId>))
        ensures
            r == (old(self)@.page, live_timer(old(self)@)),
            final(self)@ == (SiteModel { page: None, counter: None, ..old(self)@ }),
    {
        let page = self.page;
        let cancelled = match &self.counter {
            Some(c) => c.timer,
            None => None,
        };
        self.counter = None;
        self.page = None;
        (page, cancelled)
    }

    /// Mounts `target` in the empty content slot; returns the timer the new
    /// page starts, if any.
    fn mount(&mut self, target: Option<Page>) -> (started: Option<TimerId>)
        requires
            old(self)@.page is None,
            old(self)@.counter is None,
        ensures
            final(self)@ == mounted(old(self)@, target),
            started == live_timer(final(self)@),
    {
        match target {
            Some(Page::Home) => {
                let timer = if self.next_timer < u64::MAX {
                    let t = self.next_timer;
                    self.next_timer = t + 1;
                    Some(t)
                } else {
                    None
                };
                self.counter = Some(LiveCounter { count: Signal::new(INITIAL_NODE_COUNT), timer });
                self.page = target;
                timer
            },
            _ => {
                self.page = target;
                None
            },
        }
    }

    /// Handles a navigation to `path`: the current page is unmounted, then
    /// the page that the route table gives for `path` is mounted, exactly
    /// once; an unknown path leaves the content slot empty.
    pub fn navigate(&mut self, path: &str) -> (r: Navigation)
        requires
            old(self).wf(),
        ensures
            final(self).wf(),
            final(self)@ == mounted(old(self)@, route_of(path@)),
            r == navigation(old(self)@, route_of(path@)),
    {
        let target = resolve(path);
        let (unmounted, cancelled) = self.unmount();
        let started = self.mount(target);
        Navigation { unmounted, mounted: target, cancelled, started }
    }

    /// Whether the mobile menu is open; a read from inside `scope` makes it a
    /// dependent of the toggle.
    pub fn menu_open(&mut self, scope: Option<ScopeId>) -> (r: bool)
        requires
            old(self).wf(),
        ensures
            final(self).wf(),
            r == old(self)@.menu_open,
            final(self)@ == (SiteModel {
                menu_dependents: tracked_by(old(self)@.menu_dependents, scope),
                ..old(self)@
            }),
    {
        self.menu.get(scope)
    }

    /// Flips the mobile menu; returns the dependents to re-run.
    pub fn toggle_menu(&mut self) -> (stale: Vec<ScopeId>)
        requires
            old(self).wf(),
        ensures
            final(self).wf(),
            final(self)@ == toggled(old(self)@),
            stale@ == old(self)@.menu_dependents,
    {
        self.menu.update(flip)
    }

    /// The live counter's value while the home page is mounted; a read from
    /// inside `scope` makes it a dependent of the counter.
    pub fn node_count(&mut self, scope: Option<ScopeId>) -> (r: Option<i32>)
        requires
            old(self).wf(),
        ensures
            final(self).wf(),
            r == match old(self)@.counter {
                Some(c) => Some(c.count),
                None => None,
            },
            final(self)@ == (SiteModel {
                counter: match old(self)@.counter {
                    Some(c) => Some(CounterModel { dependents: tracked_by(c.dependents, scope), ..c }),
                    None => None,
                },
                ..old(self)@
            }),
    {
        match &mut self.counter {
            Some(c) => Some(c.count.get(scope)),
            None => None,
        }
    }

    /// The live counter as displayed, with thousands separators.
    pub fn node_count_text(&mut self, scope: Option<ScopeId>) -> (r: Option<String>)
        requires
            old(self).wf(),
        ensures
            final(self).wf(),
            match (r, old(self)@.counter) {
                (Some(s), Some(c)) => s@ == formatted(c.count as int),
                (None, None) => true,
                _ => false,
            },
            final(self)@ == (SiteModel {
                counter: match old(self)@.counter {
                    Some(c) => Some(CounterModel { dependents: tracked_by(c.dependents, scope), ..c }),
                    None => None,
                },
                ..old(self)@
            }),
    {
        match self.node_count(scope) {
            Some(n) => Some(format_number(n)),
            None => None,
        }
    }

    /// Handles one firing of `timer`: if it drives the mounted live counter,
    /// the counter goes up by one and its dependents are returned; a timer
    /// of a page that is gone changes nothing.
    pub fn tick(&mut self, timer: TimerId) -> (stale: Vec<ScopeId>)
        requires
            old(self).wf(),
        ensures
            final(self).wf(),
            final(self)@ == ticked(old(self)@, timer),
            stale@ == tick_stale(old(self)@, timer),
    {
        match &mut self.counter {
            Some(c) => {
                let runs = match c.timer {
                    Some(t) => t == timer,
                    None => false,
                };
                if runs {
                    c.count.update(step_count)
                } else {
                    Vec::new()
                }
            },
            None => Vec::new(),
        }
    }
}

} // verus!
