//! The monitors on the panel, and how probing the displays yields them.
use crate::arith::clamp_int;
use crate::geometry::layout_fits;
use crate::text::{decimal, monitor_name};
use vstd::prelude::*;

verus! {

/// A physical monitor with its section on the panel.
#[derive(Debug, PartialEq, Eq)]
pub struct MonitorInfo {
    /// The raw handle of the physical monitor.
    pub handle: usize,
    pub name: String,
    /// In percent; 0 where the monitor's brightness cannot be controlled.
    pub brightness: u32,
    /// Whether the monitor's brightness can be read and set.
    pub supported: bool,
}

/// What a [`MonitorInfo`] holds.
pub ghost struct MonitorView {
    pub handle: usize,
    pub name: Seq<char>,
    pub brightness: u32,
    pub supported: bool,
}

impl View for MonitorInfo {
    type V = MonitorView;

    open spec fn view(&self) -> MonitorView {
        MonitorView {
            handle: self.handle,
            name: self.name@,
            brightness: self.brightness,
            supported: self.supported,
        }
    }
}

impl MonitorView {
    /// A controllable monitor has a brightness of 1 to 100 percent, any other 0.
    pub open spec fn wf(self) -> bool {
        if self.supported {
            1 <= self.brightness <= 100
        } else {
            self.brightness == 0
        }
    }
}

/// The handle with which a worker sets a monitor's brightness: a worker runs for
/// exactly those monitors whose brightness can be set.
pub fn worker_handle(m: &MonitorInfo) -> (handle: Option<usize>)
    ensures
        handle == if m.supported {
            Some(m.handle)
        } else {
            None
        },
{
    if m.supported {
        Some(m.handle)
    } else {
        None
    }
}

/// The contents of a list of monitors.
pub open spec fn monitor_views(monitors: Seq<MonitorInfo>) -> Seq<MonitorView> {
    monitors.map_values(|m: MonitorInfo| m@)
}

/// What was read of one physical monitor.
#[derive(Clone, Copy, Debug, PartialEq, Eq, Structural)]
pub struct MonitorProbe {
    pub handle: usize,
    /// What reading the brightness returned: 0 where it failed.
    pub status: i32,
    /// The brightness that was read.
    pub current: u32,
}

/// What was read of one display.
#[derive(Debug, PartialEq, Eq)]
pub struct DisplayProbe {
    /// How many physical monitors it has, where that could be read.
    pub count: Option<u32>,
    /// Its physical monitors, where they could be read.
    pub physical: Option<Vec<MonitorProbe>>,
}

/// Whether a display's physical monitors are asked for: it has some.
pub open spec fn has_physical(count: Option<u32>) -> bool {
    count is Some && count->0 != 0
}

/// Whether a display's physical monitors are to be asked for.
pub fn wants_physical(count: Option<u32>) -> (wanted: bool)
    ensures
        wanted == has_physical(count),
        wanted <==> count is Some && count != Some(0u32),
{
    match count {
        Some(n) => n != 0,
        None => false,
    }
}

/// The monitor that a probe of the display at `idx` yields.
pub open spec fn probed_monitor(idx: int, probe: MonitorProbe) -> MonitorView {
    MonitorView {
        handle: probe.handle,
        name: "Monitor "@ + decimal((idx + 1) as nat),
        brightness: if probe.status != 0 {
            clamp_int(probe.current as int, 1, 100) as u32
        } else {
            0
        },
        supported: probe.status != 0,
    }
}

/// The monitors that the display at `idx` yields: none where it was skipped.
pub open spec fn display_monitors(idx: int, display: DisplayProbe) -> Seq<MonitorView> {
    if has_physical(display.count) && display.physical is Some {
        display.physical->0@.map_values(|p: MonitorProbe| probed_monitor(idx, p))
    } else {
        Seq::empty()
    }
}

/// The monitors that the displays yield, in order. A skipped display still
/// counts in the numbering of those after it.
pub open spec fn all_monitors(displays: Seq<DisplayProbe>) -> Seq<MonitorView>
    decreases displays.len(),
{
    if displays.len() == 0 {
        Seq::empty()
    } else {
        all_monitors(displays.drop_last()) + display_monitors(
            displays.len() - 1,
            displays.last(),
        )
    }
}

fn monitor_from_probe(idx: usize, probe: &MonitorProbe) -> (m: MonitorInfo)
    requires
        idx < usize::MAX,
    ensures
        m@ == probed_monitor(idx as int, *probe),
{
    let supported: bool = probe.status != 0;
    let brightness: u32 = if !supported {
        0
    } else if probe.current < 1 {
        1
    } else if probe.current > 100 {
        100
    } else {
        probe.current
    };
    MonitorInfo { handle: probe.handle, name: monitor_name(idx), brightness, supported }
}

/// The monitors that the displays yield.
pub fn enumerate_monitors(displays: &Vec<DisplayProbe>) -> (monitors: Vec<MonitorInfo>)
    ensures
        monitor_views(monitors@) == all_monitors(displays@),
{
    let mut monitors: Vec<MonitorInfo> = Vec::new();
    assert(monitor_views(monitors@) =~= all_monitors(displays@.take(0)));
    for idx in 0..displays.len()
        invariant
            monitor_views(monitors@) == all_monitors(displays@.take(idx as int)),
    {
        let ghost before = monitor_views(monitors@);
        let ghost display = displays@[idx as int];
        assert(displays@.take(idx + 1).drop_last() == displays@.take(idx as int));
        if wants_physical(displays[idx].count) {
            if let Some(probes) = &displays[idx].physical {
                let ghost views = probes@.map_values(
                    |p: MonitorProbe| probed_monitor(idx as int, p),
                );
                for j in 0..probes.len()
                    invariant
                        idx < displays.len(),
                        views == probes@.map_values(
                            |p: MonitorProbe| probed_monitor(idx as int, p),
                        ),
                        monitor_views(monitors@) == before + views.take(j as int),
                {
                    let m: MonitorInfo = monitor_from_probe(idx, &probes[j]);
                    let ghost done = monitor_views(monitors@);
                    monitors.push(m);
                    assert(monitor_views(monitors@) =~= done.push(m@));
                    assert(views.take(j + 1) =~= views.take(j as int).push(views[j as int]));
                    assert(monitor_views(monitors@) =~= before + views.take(j + 1));
                }
                assert(views.take(probes@.len() as int) =~= views);
            }
        }
        assert(monitor_views(monitors@) =~= before + display_monitors(idx as int, display));
    }
    assert(displays@.take(displays@.len() as int) == displays@);
    monitors
}

/// The state of the panel.
#[derive(Debug, PartialEq, Eq)]
pub struct AppState {
    pub monitors: Vec<MonitorInfo>,
    /// The monitor whose slider is being dragged.
    pub dragging: Option<usize>,
}

/// What an [`AppState`] holds.
pub ghost struct StateView {
    pub monitors: Seq<MonitorView>,
    pub dragging: Option<usize>,
}

impl View for AppState {
    type V = StateView;

    open spec fn view(&self) -> StateView {
        StateView { monitors: monitor_views(self.monitors@), dragging: self.dragging }
    }
}

impl StateView {
    /// The panel can be laid out, every brightness is in range, and only a
    /// controllable monitor's slider is being dragged.
    pub open spec fn wf(self) -> bool {
        &&& layout_fits(self.monitors.len() as int)
        &&& forall|i: int| 0 <= i < self.monitors.len() ==> (#[trigger] self.monitors[i]).wf()
        &&& self.dragging matches Some(i) ==> i < self.monitors.len()
            && self.monitors[i as int].supported
    }
}

impl AppState {
    /// The panel as it is when its window is created: no slider is being dragged.
    pub fn new(monitors: Vec<MonitorInfo>) -> (state: AppState)
        ensures
            state@ == (StateView { monitors: monitor_views(monitors@), dragging: None }),
    {
        AppState { monitors, dragging: None }
    }
}

/// A panel made of enumerated monitors is well-formed, if it can be laid out.
pub proof fn law_initial_state(displays: Seq<DisplayProbe>)
    requires
        layout_fits(all_monitors(displays).len() as int),
    ensures
        (StateView { monitors: all_monitors(displays), dragging: None }).wf(),
{
    assert forall|i: int| 0 <= i < all_monitors(displays).len() implies (
    #[trigger] all_monitors(displays)[i]).wf() by {
        law_enumerated_brightness(displays, i);
    }
}

/// Every monitor on the list has a brightness in the range its kind allows.
pub proof fn law_enumerated_brightness(displays: Seq<DisplayProbe>, i: int)
    requires
        0 <= i < all_monitors(displays).len(),
    ensures
        all_monitors(displays)[i].wf(),
    decreases displays.len(),
{
    let n = displays.len();
    if n > 0 {
        let rest = all_monitors(displays.drop_last());
        if i < rest.len() {
            law_enumerated_brightness(displays.drop_last(), i);
        }
    }
}

/// A monitor is named after the display it was found on, counted from 1, whatever
/// happened to the displays before it: a skipped display leaves a gap.
pub proof fn law_monitor_named_by_display(displays: Seq<DisplayProbe>, i: int)
    requires
        0 <= i < all_monitors(displays).len(),
    ensures
        exists|d: int, j: int|
            {
                &&& 0 <= d < displays.len()
                &&& 0 <= j < display_monitors(d, displays[d]).len()
                &&& all_monitors(displays)[i] == #[trigger] display_monitors(d, displays[d])[j]
                &&& all_monitors(displays)[i].name == "Monitor "@ + decimal((d + 1) as nat)
            },
    decreases displays.len(),
{
    let last = displays.len() - 1;
    let init = displays.drop_last();
    let rest = all_monitors(init);
    if i < rest.len() {
        law_monitor_named_by_display(init, i);
        let (d, j) = choose|d: int, j: int|
            {
                &&& 0 <= d < init.len()
                &&& 0 <= j < display_monitors(d, init[d]).len()
                &&& all_monitors(init)[i] == #[trigger] display_monitors(d, init[d])[j]
                &&& all_monitors(init)[i].name == "Monitor "@ + decimal((d + 1) as nat)
            };
        assert(init[d] == displays[d]);
        assert(all_monitors(displays)[i] == display_monitors(d, displays[d])[j]);
    } else {
        let found = display_monitors(last, displays[last]);
        assert(all_monitors(displays)[i] == found[i - rest.len()]);
    }
}

/// Where on the list the monitors of the display at `d` begin: after all those of
/// the displays before it.
pub open spec fn display_start(displays: Seq<DisplayProbe>, d: int) -> int {
    all_monitors(displays.take(d)).len() as int
}

/// The monitors that the displays from the one at `d` on yield.
pub open spec fn monitors_from(displays: Seq<DisplayProbe>, d: int) -> Seq<MonitorView>
    decreases displays.len() - d,
{
    if d >= displays.len() {
        Seq::empty()
    } else {
        display_monitors(d, displays[d]) + monitors_from(displays, d + 1)
    }
}

/// The list can be cut before any display.
proof fn lemma_cut(displays: Seq<DisplayProbe>, d: int)
    requires
        0 <= d <= displays.len(),
    ensures
        all_monitors(displays) == all_monitors(displays.take(d)) + monitors_from(displays, d),
    decreases displays.len() - d,
{
    if d == displays.len() {
        assert(displays.take(d) =~= displays);
        assert(all_monitors(displays) + Seq::<MonitorView>::empty() =~= all_monitors(displays));
    } else {
        lemma_cut(displays, d + 1);
        assert(displays.take(d + 1).drop_last() =~= displays.take(d));
        assert(all_monitors(displays.take(d)) + (display_monitors(d, displays[d])
            + monitors_from(displays, d + 1)) =~= (all_monitors(displays.take(d))
            + display_monitors(d, displays[d])) + monitors_from(displays, d + 1));
    }
}

/// What displays yield does not depend on those before them.
proof fn lemma_from_same(a: Seq<DisplayProbe>, b: Seq<DisplayProbe>, d: int)
    requires
        a.len() == b.len(),
        forall|i: int| d <= i < a.len() ==> a[i] == #[trigger] b[i],
    ensures
        monitors_from(a, d) == monitors_from(b, d),
    decreases a.len() - d,
{
    if d < a.len() {
        assert(a[d] == b[d]);
        lemma_from_same(a, b, d + 1);
    }
}

/// The monitors of a display stand together on the list, in the order in which they
/// were found, after those of the displays before it.
pub proof fn law_display_position(displays: Seq<DisplayProbe>, d: int)
    requires
        0 <= d < displays.len(),
    ensures
        ({
            let all = all_monitors(displays);
            let own = display_monitors(d, displays[d]);
            let start = display_start(displays, d);
            &&& 0 <= start
            &&& start + own.len() <= all.len()
            &&& all.subrange(start, start + own.len()) == own
            &&& d + 1 < displays.len() ==> display_start(displays, d + 1) == start + own.len()
        }),
{
    lemma_cut(displays, d);
    let all = all_monitors(displays);
    let own = display_monitors(d, displays[d]);
    let start = display_start(displays, d);
    assert(monitors_from(displays, d) == own + monitors_from(displays, d + 1));
    assert(all.subrange(start, start + own.len()) =~= own);
    assert(displays.take(d + 1).drop_last() =~= displays.take(d));
}

/// A display that fails takes exactly its own monitors off the list: all others
/// stay, with their names, in the same order.
pub proof fn law_failed_display(displays: Seq<DisplayProbe>, d: int, failed: DisplayProbe)
    requires
        0 <= d < displays.len(),
        !has_physical(failed.count) || failed.physical is None,
    ensures
        ({
            let all = all_monitors(displays);
            let start = display_start(displays, d);
            let end = start + display_monitors(d, displays[d]).len();
            all_monitors(displays.update(d, failed)) == all.take(start) + all.skip(end)
        }),
{
    let others = displays.update(d, failed);
    let all = all_monitors(displays);
    let own = display_monitors(d, displays[d]);
    let start = display_start(displays, d);
    let end = start + own.len();
    let rest = monitors_from(displays, d + 1);
    lemma_cut(displays, d);
    lemma_cut(others, d);
    lemma_from_same(displays, others, d + 1);
    assert(others.take(d) =~= displays.take(d));
    assert(monitors_from(displays, d) == own + rest);
    assert(monitors_from(others, d) == Seq::<MonitorView>::empty() + rest);
    assert(all.take(start) =~= all_monitors(displays.take(d)));
    assert(all.skip(end) =~= rest);
    assert(all_monitors(others) =~= all.take(start) + all.skip(end));
}

/// How many monitors a display adds to the list: as many as were read of it, where
/// it is known to have some.
pub open spec fn display_share(display: DisplayProbe) -> int {
    if display.count is Some && display.count->0 > 0 && display.physical is Some {
        display.physical->0@.len() as int
    } else {
        0
    }
}

/// The list is made of the displays' shares, one after another.
pub proof fn law_list_of_shares(displays: Seq<DisplayProbe>, d: int)
    requires
        0 <= d < displays.len(),
    ensures
        all_monitors(Seq::empty()).len() == 0,
        display_start(displays, 0) == 0,
        display_start(displays, d + 1) == display_start(displays, d) + display_share(displays[d]),
        display_start(displays, displays.len() as int) == all_monitors(displays).len(),
{
    assert(displays.take(0) =~= Seq::empty());
    assert(displays.take(d + 1).drop_last() =~= displays.take(d));
    assert(displays.take(displays.len() as int) =~= displays);
}

/// Each monitor that was probed is on the list with the handle that was probed. One
/// whose brightness was read is controllable and has that brightness, or 1 or 100
/// where it was below or above these; any other is not and has 0. Its name is that
/// of its display, counted from 1.
pub proof fn law_probed_monitor_listed(displays: Seq<DisplayProbe>, d: int, j: int)
    requires
        0 <= d < displays.len(),
        0 <= j < display_share(displays[d]),
    ensures
        ({
            let at = display_start(displays, d) + j;
            let probe = displays[d].physical->0@[j];
            let m = all_monitors(displays)[at];
            &&& 0 <= at < all_monitors(displays).len()
            &&& m.handle == probe.handle
            &&& m.supported <==> probe.status != 0
            &&& probe.status == 0 ==> m.brightness == 0
            &&& probe.status != 0 && 1 <= probe.current <= 100 ==> m.brightness == probe.current
            &&& probe.status != 0 && probe.current == 0 ==> m.brightness == 1
            &&& probe.status != 0 && probe.current > 100 ==> m.brightness == 100
            &&& m.name == "Monitor "@ + decimal((d + 1) as nat)
        }),
{
    law_display_position(displays, d);
    let all = all_monitors(displays);
    let own = display_monitors(d, displays[d]);
    let start = display_start(displays, d);
    assert(own.len() == display_share(displays[d]));
    assert(all.subrange(start, start + own.len())[j] == all[start + j]);
}

/// The views hold what the values hold.
pub proof fn law_monitor_view(m: MonitorInfo, monitors: Seq<MonitorInfo>, state: AppState)
    ensures
        m@.handle == m.handle,
        m@.name == m.name@,
        m@.brightness == m.brightness,
        m@.supported == m.supported,
        monitor_views(monitors).len() == monitors.len(),
        forall|i: int|
            0 <= i < monitors.len() ==> #[trigger] monitor_views(monitors)[i] == monitors[i]@,
        state@.dragging == state.dragging,
        state@.monitors == monitor_views(state.monitors@),
{
}

} // verus!
