//! Screen capture: what can be captured, and with which API.
//!
//! DXGI Desktop Duplication is the primary path for whole-monitor capture,
//! falling back to Windows.Graphics.Capture (WGC) if it fails to initialize.
//! Capturing a single window (rather than a whole monitor) is only possible
//! through WGC, since DXGI Desktop Duplication can't target an individual
//! window.
use vstd::prelude::*;

verus! {

/// One capturable monitor.
#[derive(Debug, Clone)]
pub struct CaptureTarget {
    pub adapter_index: u32,
    pub adapter_name: String,
    pub output_index: u32,
    pub output_name: String,
}

/// One capturable open window.
#[derive(Debug, Clone)]
pub struct WindowTarget {
    /// Raw `HWND` value. Kept as a plain integer so it can be stored in
    /// `Args` and moved across threads freely; it's converted back to `HWND`
    /// only at the point of use.
    pub hwnd: isize,
    pub title: String,
}

/// What to capture: an entire monitor, or a single window.
#[derive(Debug, Clone, Copy, PartialEq, Eq, Structural)]
pub enum CaptureSource {
    Monitor { adapter_index: u32, output_index: u32 },
    Window { hwnd: isize },
}

#[derive(Debug, Clone, Copy, PartialEq, Eq, Structural)]
pub enum Backend {
    /// DXGI first, falling back to WGC on failure (default). Only applies
    /// to monitor capture; window capture always uses WGC.
    Auto,
    /// Forces DXGI only (for testing). Not valid for window capture.
    ForceDxgi,
    /// Forces WGC only (for testing).
    ForceWgc,
}

// ---------------------------------------------------------------------
// Names given as UTF-16
// ---------------------------------------------------------------------

/// The text that `String::from_utf16_lossy` reads out of UTF-16 code units.
pub uninterp spec fn utf16_text(units: Seq<u16>) -> Seq<char>;

/// `String::from_utf16_lossy`: the text of the code units, with the
/// replacement character in place of invalid ones. The text depends on the
/// units alone; what it is for given units is left to the standard library.
#[verifier::external_body]
fn utf16_lossy(units: &Vec<u16>) -> (text: String)
    ensures
        text@ == utf16_text(units@),
{
    String::from_utf16_lossy(units)
}

/// The code units in front of the first zero.
pub open spec fn before_nul(units: Seq<u16>) -> Seq<u16> {
    if units.contains(0) {
        units.take(units.index_of_first(0)->0)
    } else {
        units
    }
}

/// The code units in front of the first zero; all of them if there is none.
pub fn until_nul(units: &Vec<u16>) -> (head: Vec<u16>)
    ensures
        head@ == before_nul(units@),
{
    let mut head: Vec<u16> = Vec::new();
    let mut i: usize = 0;
    while i < units.len()
        invariant
            i <= units@.len(),
            head@ == units@.take(i as int),
            forall|j: int| 0 <= j < i ==> units@[j] != 0,
        decreases units@.len() - i,
    {
        if units[i] == 0 {
            proof {
                units@.index_of_first_ensures(0);
                assert(units@[i as int] == 0);
                assert(units@.contains(0));
                let first = units@.index_of_first(0)->0;
                assert(first == i);
            }
            return head;
        }
        head.push(units[i]);
        i = i + 1;
        assert(head@ =~= units@.take(i as int));
    }
    assert(head@ =~= units@);
    head
}

/// The name in a zero-terminated UTF-16 buffer.
fn wide_name(units: &Vec<u16>) -> (name: String)
    ensures
        name@ == utf16_text(before_nul(units@)),
{
    utf16_lossy(&until_nul(units))
}

// ---------------------------------------------------------------------
// Monitors
// ---------------------------------------------------------------------

/// A graphics adapter as enumerated: its description, and the device names
/// of the outputs attached to it, as zero-terminated UTF-16.
pub struct AdapterInfo {
    pub description: Vec<u16>,
    pub outputs: Vec<Vec<u16>>,
}

/// What a [`CaptureTarget`] says.
pub struct TargetView {
    pub adapter_index: int,
    pub adapter_name: Seq<char>,
    pub output_index: int,
    pub output_name: Seq<char>,
}

impl View for CaptureTarget {
    type V = TargetView;

    open spec fn view(&self) -> TargetView {
        TargetView {
            adapter_index: self.adapter_index as int,
            adapter_name: self.adapter_name@,
            output_index: self.output_index as int,
            output_name: self.output_name@,
        }
    }
}

/// The first `n` targets of the adapter at `adapter_index`.
pub open spec fn adapter_targets(
    adapter_index: int,
    adapter: AdapterInfo,
    n: nat,
) -> Seq<TargetView> {
    Seq::new(
        n,
        |o: int|
            TargetView {
                adapter_index,
                adapter_name: utf16_text(before_nul(adapter.description@)),
                output_index: o,
                output_name: utf16_text(before_nul(adapter.outputs@[o]@)),
            },
    )
}

/// The targets of all adapters: adapter by adapter, output by output.
pub open spec fn all_targets(adapters: Seq<AdapterInfo>) -> Seq<TargetView>
    decreases adapters.len(),
{
    if adapters.len() == 0 {
        Seq::empty()
    } else {
        all_targets(adapters.drop_last()) + adapter_targets(
            adapters.len() - 1,
            adapters.last(),
            adapters.last().outputs@.len(),
        )
    }
}

/// What a list of targets says.
pub open spec fn target_views(targets: Seq<CaptureTarget>) -> Seq<TargetView> {
    targets.map_values(|t: CaptureTarget| t@)
}

/// Lists the available monitor capture targets.
pub fn list_targets(adapters: &Vec<AdapterInfo>) -> (targets: Vec<CaptureTarget>)
    requires
        adapters@.len() <= u32::MAX,
        forall|a: int|
            0 <= a < adapters@.len() ==> (#[trigger] adapters@[a]).outputs@.len() <= u32::MAX,
    ensures
        target_views(targets@) == all_targets(adapters@),
{
    let mut targets: Vec<CaptureTarget> = Vec::new();
    let mut a: usize = 0;
    proof {
        assert(adapters@.take(0) =~= Seq::<AdapterInfo>::empty());
        assert(target_views(targets@) =~= Seq::<TargetView>::empty());
    }
    while a < adapters.len()
        invariant
            a <= adapters@.len() <= u32::MAX,
            forall|i: int|
                0 <= i < adapters@.len() ==> (#[trigger] adapters@[i]).outputs@.len() <= u32::MAX,
            target_views(targets@) == all_targets(adapters@.take(a as int)),
        decreases adapters@.len() - a,
    {
        let adapter = &adapters[a];
        let ghost earlier = target_views(targets@);
        let adapter_name = wide_name(&adapter.description);
        let mut o: usize = 0;
        proof {
            assert(earlier + adapter_targets(a as int, *adapter, 0) =~= earlier);
        }
        while o < adapter.outputs.len()
            invariant
                a < adapters@.len() <= u32::MAX,
                *adapter == adapters@[a as int],
                o <= adapter.outputs@.len() <= u32::MAX,
                adapter_name@ == utf16_text(before_nul(adapter.description@)),
                target_views(targets@) == earlier + adapter_targets(a as int, *adapter, o as nat),
            decreases adapter.outputs@.len() - o,
        {
            let ghost so_far = target_views(targets@);
            let target = CaptureTarget {
                adapter_index: a as u32,
                adapter_name: adapter_name.clone(),
                output_index: o as u32,
                output_name: wide_name(&adapter.outputs[o]),
            };
            targets.push(target);
            o = o + 1;
            proof {
                assert(target_views(targets@) =~= so_far.push(target@));
                assert(target_views(targets@) =~= earlier + adapter_targets(
                    a as int,
                    *adapter,
                    o as nat,
                ));
            }
        }
        proof {
            let upto = adapters@.take(a + 1);
            assert(upto.drop_last() =~= adapters@.take(a as int));
            assert(upto.last() == *adapter);
        }
        a = a + 1;
    }
    assert(adapters@.take(adapters@.len() as int) =~= adapters@);
    targets
}

// ---------------------------------------------------------------------
// Windows
// ---------------------------------------------------------------------

/// Extended style bit of floating toolbars and other utility windows.
pub const WS_EX_TOOLWINDOW: u32 = 0x80;

/// Extended style bit of windows that want to appear as applications.
pub const WS_EX_APPWINDOW: u32 = 0x40000;

/// What the system says of a top-level window.
#[derive(Debug, Clone, Copy)]
pub struct WindowFacts {
    pub visible: bool,
    pub minimized: bool,
    /// The DWM cloaking attribute; `None` if it could not be read.
    pub cloaked: Option<u32>,
    pub is_shell: bool,
    pub has_owner: bool,
    pub ex_style: u32,
    pub title_len: i32,
}

/// Whether a window represents an application that is on screen: visible,
/// not minimized, not cloaked, not the shell, not owned by another window,
/// not a tool window (unless it asks to appear as an application), titled.
pub open spec fn is_application(w: WindowFacts) -> bool {
    &&& w.visible
    &&& !w.minimized
    &&& (w.cloaked is None || w.cloaked->0 == 0)
    &&& !w.is_shell
    &&& !w.has_owner
    &&& (w.ex_style & WS_EX_TOOLWINDOW == 0 || w.ex_style & WS_EX_APPWINDOW != 0)
    &&& w.title_len != 0
}

/// Whether a window is listed for window-specific capture: the same "real
/// applications only" heuristic used by Alt-Tab and app-picker UIs,
/// filtering out toolbars, notification popups, and other overlay/utility
/// windows.
pub fn is_capturable(w: &WindowFacts) -> (listed: bool)
    ensures
        listed == is_application(*w),
{
    if !w.visible {
        return false;
    }
    if w.minimized {
        // There's no live frame to capture.
        return false;
    }
    // Windows on another virtual desktop stay visible but are cloaked.
    if let Some(cloaked) = w.cloaked {
        if cloaked != 0 {
            return false;
        }
    }
    if w.is_shell {
        return false;
    }
    if w.has_owner {
        // Tooltip, popup, etc., not a top-level app window.
        return false;
    }
    let is_tool_window = w.ex_style & WS_EX_TOOLWINDOW != 0;
    let is_app_window = w.ex_style & WS_EX_APPWINDOW != 0;
    if is_tool_window && !is_app_window {
        return false;
    }
    w.title_len != 0
}

/// The list entry for a capturable window whose title was read into `buf`,
/// `copied` code units of it; `None` if nothing could be read.
pub fn window_target(hwnd: isize, buf: &Vec<u16>, copied: i32) -> (target: Option<WindowTarget>)
    requires
        0 <= copied <= buf@.len(),
    ensures
        target is None <==> copied == 0,
        target is Some ==> target->0.hwnd == hwnd && target->0.title@ == utf16_text(
            buf@.take(copied as int),
        ),
{
    if copied == 0 {
        return None;
    }
    let n: usize = copied as usize;
    let mut title: Vec<u16> = Vec::new();
    let mut i: usize = 0;
    while i < n
        invariant
            i <= n <= buf@.len(),
            title@ == buf@.take(i as int),
        decreases n - i,
    {
        title.push(buf[i]);
        i = i + 1;
        assert(title@ =~= buf@.take(i as int));
    }
    Some(WindowTarget { hwnd, title: utf16_lossy(&title) })
}

/// A top-level window: what the system says of it, and its title as far as
/// it was read.
pub struct WindowInfo {
    pub hwnd: isize,
    pub facts: WindowFacts,
    pub title: Vec<u16>,
}

/// Whether a window is listed, once its title has been read.
pub open spec fn is_listed(w: WindowInfo) -> bool {
    is_application(w.facts) && w.title@.len() > 0
}

/// The handles and titles of a list of entries.
pub open spec fn window_views(targets: Seq<WindowTarget>) -> Seq<(isize, Seq<char>)> {
    targets.map_values(|t: WindowTarget| (t.hwnd, t.title@))
}

/// The handles and titles of the windows that are listed, in order.
pub open spec fn all_windows(windows: Seq<WindowInfo>) -> Seq<(isize, Seq<char>)> {
    windows.filter(|w: WindowInfo| is_listed(w)).map_values(
        |w: WindowInfo| (w.hwnd, utf16_text(w.title@)),
    )
}

/// Lists visible, non-minimized, titled top-level application windows for
/// window-specific capture.
pub fn list_windows(windows: &Vec<WindowInfo>) -> (targets: Vec<WindowTarget>)
    requires
        forall|i: int| 0 <= i < windows@.len() ==> (#[trigger] windows@[i]).title@.len() <= i32::MAX,
    ensures
        window_views(targets@) == all_windows(windows@),
{
    let mut targets: Vec<WindowTarget> = Vec::new();
    let mut i: usize = 0;
    proof {
        reveal(Seq::filter);
        assert(window_views(targets@) =~= all_windows(windows@.take(0)));
    }
    while i < windows.len()
        invariant
            i <= windows@.len(),
            forall|j: int|
                0 <= j < windows@.len() ==> (#[trigger] windows@[j]).title@.len() <= i32::MAX,
            window_views(targets@) == all_windows(windows@.take(i as int)),
        decreases windows@.len() - i,
    {
        let ghost before = window_views(targets@);
        let w = &windows[i];
        let ghost listed = |w: WindowInfo| is_listed(w);
        let ghost view = |w: WindowInfo| (w.hwnd, utf16_text(w.title@));
        let ghost upto = windows@.take(i + 1);
        proof {
            reveal(Seq::filter);
            assert(upto.drop_last() =~= windows@.take(i as int));
            assert(upto.last() == *w);
        }
        let found = if is_capturable(&w.facts) {
            window_target(w.hwnd, &w.title, w.title.len() as i32)
        } else {
            None
        };
        match found {
            Some(target) => {
                proof {
                    assert(w.title@.take(w.title@.len() as int) =~= w.title@);
                    let kept = windows@.take(i as int).filter(listed);
                    assert(kept.push(*w).map_values(view) =~= kept.map_values(view).push(view(*w)));
                }
                targets.push(target);
                assert(window_views(targets@) =~= before.push(view(*w)));
            },
            None => {},
        }
        i = i + 1;
    }
    assert(windows@.take(windows@.len() as int) =~= windows@);
    targets
}

// ---------------------------------------------------------------------
// Laws
// ---------------------------------------------------------------------

/// A name ends in front of the first zero: what is kept comes from the front
/// of the buffer and has no zero in it, and either everything is kept or a
/// zero comes right behind.
pub proof fn law_name_ends_at_the_first_zero(units: Vec<u16>, head: Vec<u16>)
    requires
        call_ensures(until_nul, (&units,), head),
    ensures
        head@.len() <= units@.len(),
        forall|i: int| 0 <= i < head@.len() ==> #[trigger] head@[i] == units@[i] && head@[i] != 0,
        head@.len() < units@.len() ==> units@[head@.len() as int] == 0,
{
    units@.index_of_first_ensures(0);
}

proof fn lemma_targets(adapters: Seq<AdapterInfo>)
    ensures
        forall|i: int|
            0 <= i < all_targets(adapters).len() ==> {
                let t = #[trigger] all_targets(adapters)[i];
                &&& 0 <= t.adapter_index < adapters.len()
                &&& 0 <= t.output_index < adapters[t.adapter_index].outputs@.len()
                &&& t.adapter_name == utf16_text(
                    before_nul(adapters[t.adapter_index].description@),
                )
                &&& t.output_name == utf16_text(
                    before_nul(adapters[t.adapter_index].outputs@[t.output_index]@),
                )
            },
        forall|i: int, j: int|
            0 <= i < j < all_targets(adapters).len() ==> {
                let s = #[trigger] all_targets(adapters)[i];
                let t = #[trigger] all_targets(adapters)[j];
                s.adapter_index < t.adapter_index || (s.adapter_index == t.adapter_index
                    && s.output_index < t.output_index)
            },
    decreases adapters.len(),
{
    if adapters.len() > 0 {
        let rest = adapters.drop_last();
        lemma_targets(rest);
        let earlier = all_targets(rest);
        let last = adapters.last();
        let n = adapters.len() - 1;
        let added = adapter_targets(n, last, last.outputs@.len());
        let all = all_targets(adapters);
        assert(all =~= earlier + added);
        assert forall|i: int| 0 <= i < all.len() implies {
            let t = #[trigger] all[i];
            &&& 0 <= t.adapter_index < adapters.len()
            &&& 0 <= t.output_index < adapters[t.adapter_index].outputs@.len()
            &&& t.adapter_name == utf16_text(before_nul(adapters[t.adapter_index].description@))
            &&& t.output_name == utf16_text(
                before_nul(adapters[t.adapter_index].outputs@[t.output_index]@),
            )
        } by {
            if i < earlier.len() {
                let t = earlier[i];
                assert(rest[t.adapter_index] == adapters[t.adapter_index]);
            }
        }
        assert forall|i: int, j: int| 0 <= i < j < all.len() implies {
            let s = #[trigger] all[i];
            let t = #[trigger] all[j];
            s.adapter_index < t.adapter_index || (s.adapter_index == t.adapter_index
                && s.output_index < t.output_index)
        } by {
            if j < earlier.len() {
                assert(all[i] == earlier[i] && all[j] == earlier[j]);
            } else if i < earlier.len() {
                assert(all[i] == earlier[i]);
            }
        }
    }
}

/// Where an output is listed.
proof fn lemma_target_of(adapters: Seq<AdapterInfo>, a: int, o: int) -> (i: int)
    requires
        0 <= a < adapters.len(),
        0 <= o < adapters[a].outputs@.len(),
    ensures
        0 <= i < all_targets(adapters).len(),
        all_targets(adapters)[i].adapter_index == a,
        all_targets(adapters)[i].output_index == o,
    decreases adapters.len(),
{
    let rest = adapters.drop_last();
    let earlier = all_targets(rest);
    if a < adapters.len() - 1 {
        lemma_target_of(rest, a, o)
    } else {
        earlier.len() + o
    }
}

/// Every output of every adapter is listed exactly once, under its own
/// numbers and names, adapter by adapter and output by output; and nothing
/// else is.
pub proof fn law_every_monitor_is_listed_once(
    adapters: Vec<AdapterInfo>,
    targets: Vec<CaptureTarget>,
    a: int,
    o: int,
)
    requires
        call_ensures(list_targets, (&adapters,), targets),
    ensures
        forall|i: int|
            0 <= i < targets@.len() ==> {
                let t = #[trigger] targets@[i];
                &&& t.adapter_index < adapters@.len()
                &&& t.output_index < adapters@[t.adapter_index as int].outputs@.len()
                &&& t.adapter_name@ == utf16_text(
                    before_nul(adapters@[t.adapter_index as int].description@),
                )
                &&& t.output_name@ == utf16_text(
                    before_nul(adapters@[t.adapter_index as int].outputs@[t.output_index as int]@),
                )
            },
        forall|i: int, j: int|
            0 <= i < j < targets@.len() ==> {
                let s = #[trigger] targets@[i];
                let t = #[trigger] targets@[j];
                s.adapter_index < t.adapter_index || (s.adapter_index == t.adapter_index
                    && s.output_index < t.output_index)
            },
        0 <= a < adapters@.len() && 0 <= o < adapters@[a].outputs@.len() ==> exists|i: int|
            0 <= i < targets@.len() && (#[trigger] targets@[i]).adapter_index == a
                && targets@[i].output_index == o,
{
    lemma_targets(adapters@);
    let all = all_targets(adapters@);
    let seen = target_views(targets@);
    assert(seen.len() == targets@.len());
    assert forall|i: int| 0 <= i < targets@.len() implies (#[trigger] targets@[i])@ == all[i] by {
        assert(seen[i] == targets@[i]@);
    }
    if 0 <= a < adapters@.len() && 0 <= o < adapters@[a].outputs@.len() {
        let i = lemma_target_of(adapters@, a, o);
        assert(targets@[i]@ == all[i]);
    }
}

/// What keeps a window off the list: being invisible, minimized, cloaked, the
/// shell, owned, without a title, or a tool window (0x80) that does not ask
/// to appear as an application (0x40000). Nothing else does.
pub proof fn law_application_windows(w: WindowFacts, listed: bool)
    requires
        call_ensures(is_capturable, (&w,), listed),
    ensures
        !w.visible ==> !listed,
        w.minimized ==> !listed,
        w.is_shell ==> !listed,
        w.has_owner ==> !listed,
        w.title_len == 0 ==> !listed,
        w.cloaked is Some && w.cloaked != Some(0u32) ==> !listed,
        w.ex_style & 0x80 != 0 && w.ex_style & 0x40000 == 0 ==> !listed,
        w.visible && !w.minimized && !w.is_shell && !w.has_owner && w.title_len != 0 && (w.cloaked
            is None || w.cloaked == Some(0u32)) && (w.ex_style & 0x80 == 0 || w.ex_style & 0x40000
            != 0) ==> listed,
{
}

/// Whether an entry has the handle and the title of one of the windows that
/// are listed.
pub open spec fn stands_for_one_of(target: WindowTarget, windows: Seq<WindowInfo>) -> bool {
    exists|k: int|
        0 <= k < windows.len() && is_listed(#[trigger] windows[k]) && windows[k].hwnd == target.hwnd
            && target.title@ == utf16_text(windows[k].title@)
}

/// A window that counts as an application and has a title is listed under its
/// own handle and title, every listed one is such a window, and the order is
/// kept.
pub proof fn law_windows_are_listed(
    windows: Vec<WindowInfo>,
    targets: Vec<WindowTarget>,
    i: int,
    listed: bool,
)
    requires
        call_ensures(list_windows, (&windows,), targets),
        0 <= i < windows@.len(),
        call_ensures(is_capturable, (&windows@[i].facts,), listed),
    ensures
        targets@.len() <= windows@.len(),
        listed && windows@[i].title@.len() > 0 ==> exists|j: int|
            0 <= j < targets@.len() && (#[trigger] targets@[j]).hwnd == windows@[i].hwnd
                && targets@[j].title@ == utf16_text(windows@[i].title@),
        forall|j: int|
            0 <= j < targets@.len() ==> stands_for_one_of(#[trigger] targets@[j], windows@),
{
    let pred = |w: WindowInfo| is_listed(w);
    let kept = windows@.filter(pred);
    let seen = window_views(targets@);
    broadcast use vstd::seq_lib::group_filter_ensures;

    lemma_filter_len(windows@, pred);
    assert(seen.len() == targets@.len());
    assert(forall|j: int| 0 <= j < targets@.len() ==> seen[j] == (targets@[j].hwnd, targets@[j].title@));
    if listed && windows@[i].title@.len() > 0 {
        assert(pred(windows@[i]));
        assert(kept.contains(windows@[i]));
        let j = choose|j: int| 0 <= j < kept.len() && kept[j] == windows@[i];
        assert(seen[j] == (windows@[i].hwnd, utf16_text(windows@[i].title@)));
        assert(targets@[j].hwnd == windows@[i].hwnd);
    }
    assert forall|j: int| 0 <= j < targets@.len() implies stands_for_one_of(
        #[trigger] targets@[j],
        windows@,
    ) by {
        assert(pred(kept[j]));
        let k = lemma_filter_source(windows@, pred, j);
        assert(seen[j] == (kept[j].hwnd, utf16_text(kept[j].title@)));
        assert(is_listed(windows@[k]));
    }
}

/// Where an item that was kept comes from.
proof fn lemma_filter_source(
    windows: Seq<WindowInfo>,
    pred: spec_fn(WindowInfo) -> bool,
    j: int,
) -> (k: int)
    requires
        0 <= j < windows.filter(pred).len(),
    ensures
        0 <= k < windows.len(),
        windows[k] == windows.filter(pred)[j],
    decreases windows.len(),
{
    reveal(Seq::filter);
    let rest = windows.drop_last();
    if pred(windows.last()) && j == rest.filter(pred).len() {
        windows.len() - 1
    } else {
        lemma_filter_source(rest, pred, j)
    }
}

proof fn lemma_filter_len(windows: Seq<WindowInfo>, pred: spec_fn(WindowInfo) -> bool)
    ensures
        windows.filter(pred).len() <= windows.len(),
    decreases windows.len(),
{
    reveal(Seq::filter);
    if windows.len() > 0 {
        lemma_filter_len(windows.drop_last(), pred);
    }
}

/// Windows are listed in the order in which they were found: listing some
/// windows lists those in front first, and then the rest.
pub proof fn law_windows_keep_their_order(
    front: Vec<WindowInfo>,
    rest: Vec<WindowInfo>,
    all: Vec<WindowInfo>,
    first: Vec<WindowTarget>,
    then_listed: Vec<WindowTarget>,
    targets: Vec<WindowTarget>,
)
    requires
        all@ == front@ + rest@,
        call_ensures(list_windows, (&front,), first),
        call_ensures(list_windows, (&rest,), then_listed),
        call_ensures(list_windows, (&all,), targets),
    ensures
        window_views(targets@) == window_views(first@) + window_views(then_listed@),
{
    let pred = |w: WindowInfo| is_listed(w);
    let view = |w: WindowInfo| (w.hwnd, utf16_text(w.title@));
    Seq::filter_distributes_over_add(front@, rest@, pred);
    assert((front@.filter(pred) + rest@.filter(pred)).map_values(view) =~= front@.filter(
        pred,
    ).map_values(view) + rest@.filter(pred).map_values(view));
}

/// A title is read as far as it was copied, and a window without any is left
/// out.
pub proof fn law_window_title(
    hwnd: isize,
    buf: Vec<u16>,
    copied: i32,
    target: Option<WindowTarget>,
)
    requires
        0 <= copied <= buf@.len(),
        call_ensures(window_target, (hwnd, &buf, copied), target),
    ensures
        target is Some <==> copied > 0,
        target matches Some(t) ==> t.hwnd == hwnd && t.title@ == utf16_text(
            buf@.subrange(0, copied as int),
        ),
{
    assert(buf@.subrange(0, copied as int) =~= buf@.take(copied as int));
}

} // verus!
