//! The editor's dock layout: four dock areas holding tabs, one active tab
//! per area, and every tab docked at most once.
use vstd::prelude::*;

verus! {

broadcast use vstd::seq_lib::group_seq_properties;

/// A dock area of the editor window.
#[derive(Debug, Clone, Copy, PartialEq, Eq, Structural, Default)]
pub enum DockArea {
    Left,
    #[default]
    Center,
    Right,
    Bottom,
}

impl DockArea {
    /// The dock areas in the order in which they are searched.
    pub const ALL: [DockArea; 4] = [DockArea::Left, DockArea::Center, DockArea::Right, DockArea::Bottom];

    /// The name shown for the area.
    pub fn label(self) -> (s: &'static str)
        ensures
            s@ == spec_area_label(self),
    {
        match self {
            DockArea::Left => "Left",
            DockArea::Center => "Center",
            DockArea::Right => "Right",
            DockArea::Bottom => "Bottom",
        }
    }
}

/// The name shown for a dock area.
pub open spec fn spec_area_label(area: DockArea) -> Seq<char> {
    match area {
        DockArea::Left => "Left"@,
        DockArea::Center => "Center"@,
        DockArea::Right => "Right"@,
        DockArea::Bottom => "Bottom"@,
    }
}

/// A panel that can be docked.
#[derive(Debug, Clone, Copy, PartialEq, Eq, Structural, PartialOrd, Ord, Hash)]
pub enum DockTab {
    Toolbox,
    Scene,
    Inspector,
    Outliner,
    Assets,
    Animation,
    Diagnostics,
    BuildReport,
    Playtest,
}

/// The name shown for a tab.
pub open spec fn spec_tab_label(tab: DockTab) -> Seq<char> {
    match tab {
        DockTab::Toolbox => "Toolbox"@,
        DockTab::Scene => "Scene"@,
        DockTab::Inspector => "Inspector"@,
        DockTab::Outliner => "Outliner"@,
        DockTab::Assets => "Assets"@,
        DockTab::Animation => "Animation"@,
        DockTab::Diagnostics => "Diagnostics"@,
        DockTab::BuildReport => "Build Report"@,
        DockTab::Playtest => "Playtest"@,
    }
}

/// The area where a tab goes when it is first shown.
pub open spec fn spec_default_area(tab: DockTab) -> DockArea {
    match tab {
        DockTab::Toolbox | DockTab::Outliner => DockArea::Left,
        DockTab::Scene => DockArea::Center,
        DockTab::Inspector | DockTab::Animation => DockArea::Right,
        _ => DockArea::Bottom,
    }
}

impl DockTab {
    /// Every tab.
    pub const ALL: [DockTab; 9] = [
        DockTab::Toolbox,
        DockTab::Scene,
        DockTab::Inspector,
        DockTab::Outliner,
        DockTab::Assets,
        DockTab::Animation,
        DockTab::Diagnostics,
        DockTab::BuildReport,
        DockTab::Playtest,
    ];

    /// The name shown for the tab.
    pub fn label(self) -> (s: &'static str)
        ensures
            s@ == spec_tab_label(self),
    {
        match self {
            DockTab::Toolbox => "Toolbox",
            DockTab::Scene => "Scene",
            DockTab::Inspector => "Inspector",
            DockTab::Outliner => "Outliner",
            DockTab::Assets => "Assets",
            DockTab::Animation => "Animation",
            DockTab::Diagnostics => "Diagnostics",
            DockTab::BuildReport => "Build Report",
            DockTab::Playtest => "Playtest",
        }
    }

    /// The area where the tab goes when it is first shown.
    pub fn default_area(self) -> (a: DockArea)
        ensures
            a == spec_default_area(self),
    {
        match self {
            DockTab::Toolbox | DockTab::Outliner => DockArea::Left,
            DockTab::Scene => DockArea::Center,
            DockTab::Inspector | DockTab::Animation => DockArea::Right,
            DockTab::Assets | DockTab::Diagnostics | DockTab::BuildReport | DockTab::Playtest => {
                DockArea::Bottom
            },
        }
    }
}

/// The tabs of one dock area and the index of the active one.
#[derive(Debug, Clone, PartialEq, Eq)]
pub struct DockSlot {
    pub tabs: Vec<DockTab>,
    pub active: usize,
}

/// What a dock slot holds.
#[verifier::ext_equal]
pub ghost struct SlotView {
    pub tabs: Seq<DockTab>,
    pub active: int,
}

impl View for DockSlot {
    type V = SlotView;

    open spec fn view(&self) -> SlotView {
        SlotView { tabs: self.tabs@, active: self.active as int }
    }
}

/// The active index clamped to `len` tabs: 0 for no tabs.
pub open spec fn clamped_active(active: int, len: int) -> int {
    if len == 0 {
        0
    } else if active < len - 1 {
        active
    } else {
        len - 1
    }
}

/// A slot with its active index clamped to its tabs.
pub open spec fn clamp_slot(s: SlotView) -> SlotView {
    SlotView { tabs: s.tabs, active: clamped_active(s.active, s.tabs.len() as int) }
}

/// The active index points at a tab, or is 0 for an empty slot.
pub open spec fn slot_wf(s: SlotView) -> bool {
    if s.tabs.len() == 0 { s.active == 0 } else { 0 <= s.active < s.tabs.len() }
}

/// The active tab of a slot, if its index points at one.
pub open spec fn spec_active_tab(s: SlotView) -> Option<DockTab> {
    if 0 <= s.active < s.tabs.len() { Some(s.tabs[s.active]) } else { None }
}

impl DockSlot {
    /// A slot with its active index clamped to its tabs.
    pub fn new(tabs: Vec<DockTab>, active: usize) -> (s: Self)
        ensures
            s@ == clamp_slot(SlotView { tabs: tabs@, active: active as int }),
    {
        let mut slot = DockSlot { tabs, active };
        slot.normalize();
        slot
    }

    /// Clamps the active index to the tabs.
    pub fn normalize(&mut self)
        ensures
            final(self)@ == clamp_slot(old(self)@),
            slot_wf(final(self)@),
    {
        if self.tabs.len() == 0 {
            self.active = 0;
        } else if self.active >= self.tabs.len() - 1 {
            self.active = self.tabs.len() - 1;
        }
    }

    /// The active tab, if the slot holds any.
    pub fn active_tab(&self) -> (t: Option<DockTab>)
        ensures
            t == spec_active_tab(self@),
    {
        if self.active < self.tabs.len() {
            Some(self.tabs[self.active])
        } else {
            None
        }
    }
}

impl DockSlot {
    /// A copy of the slot.
    pub fn copy(&self) -> (r: Self)
        ensures
            r@ == self@,
    {
        let mut tabs: Vec<DockTab> = Vec::new();
        let mut i: usize = 0;
        while i < self.tabs.len()
            invariant
                i <= self.tabs@.len(),
                tabs@ == self.tabs@.take(i as int),
            decreases self.tabs@.len() - i,
        {
            tabs.push(self.tabs[i]);
            assert(self.tabs@.take(i + 1) =~= self.tabs@.take(i as int).push(self.tabs@[i as int]));
            i = i + 1;
        }
        assert(self.tabs@.take(i as int) =~= self.tabs@);
        DockSlot { tabs, active: self.active }
    }
}

/// The arrangement of all dock areas.
#[derive(Debug, Clone, PartialEq, Eq)]
pub struct DockLayout {
    pub show_status_bar: bool,
    pub left: DockSlot,
    pub center: DockSlot,
    pub right: DockSlot,
    pub bottom: DockSlot,
}

/// What a dock layout holds: the status bar switch and the four slots in
/// search order (left, center, right, bottom).
#[verifier::ext_equal]
pub ghost struct LayoutView {
    pub show_status_bar: bool,
    pub slots: Seq<SlotView>,
}

impl View for DockLayout {
    type V = LayoutView;

    open spec fn view(&self) -> LayoutView {
        LayoutView {
            show_status_bar: self.show_status_bar,
            slots: seq![self.left@, self.center@, self.right@, self.bottom@],
        }
    }
}

/// The position of an area in the search order.
pub open spec fn area_rank(area: DockArea) -> int {
    match area {
        DockArea::Left => 0,
        DockArea::Center => 1,
        DockArea::Right => 2,
        DockArea::Bottom => 3,
    }
}

/// The slot of an area.
pub open spec fn view_slot(v: LayoutView, area: DockArea) -> SlotView {
    v.slots[area_rank(area)]
}

/// The layout with the slot of an area replaced.
pub open spec fn view_with_slot(v: LayoutView, area: DockArea, s: SlotView) -> LayoutView {
    LayoutView { show_status_bar: v.show_status_bar, slots: v.slots.update(area_rank(area), s) }
}

/// The layout holds `tab` in some area.
pub open spec fn view_contains(v: LayoutView, tab: DockTab) -> bool {
    exists|r: int| 0 <= r < 4 && #[trigger] v.slots[r].tabs.contains(tab)
}

/// The first area, in search order, that holds `tab`.
pub open spec fn view_area_for(v: LayoutView, tab: DockTab) -> Option<DockArea> {
    if v.slots[0].tabs.contains(tab) {
        Some(DockArea::Left)
    } else if v.slots[1].tabs.contains(tab) {
        Some(DockArea::Center)
    } else if v.slots[2].tabs.contains(tab) {
        Some(DockArea::Right)
    } else if v.slots[3].tabs.contains(tab) {
        Some(DockArea::Bottom)
    } else {
        None
    }
}

/// Index of the first occurrence of `tab`.
pub open spec fn first_index(tabs: Seq<DockTab>, tab: DockTab) -> int
    decreases tabs.len(),
{
    if tabs.len() == 0 {
        0
    } else if tabs.last() == tab && !tabs.drop_last().contains(tab) {
        tabs.len() - 1
    } else {
        first_index(tabs.drop_last(), tab)
    }
}

/// The layout after making tab index `index` of `area` active: clamped to
/// the slot's tabs, nothing happening for an empty slot.
pub open spec fn view_set_active(v: LayoutView, area: DockArea, index: int) -> LayoutView {
    let s = view_slot(v, area);
    if s.tabs.len() == 0 {
        v
    } else {
        view_with_slot(
            v,
            area,
            SlotView { tabs: s.tabs, active: if index < s.tabs.len() - 1 { index } else { s.tabs.len() - 1 } },
        )
    }
}

/// The layout after showing `tab`: activated where it is docked, else
/// docked and activated at the end of its default area.
pub open spec fn view_show_tab(v: LayoutView, tab: DockTab) -> LayoutView {
    match view_area_for(v, tab) {
        Some(area) => view_set_active(v, area, first_index(view_slot(v, area).tabs, tab)),
        None => {
            let area = spec_default_area(tab);
            let s = view_slot(v, area);
            view_with_slot(v, area, SlotView { tabs: s.tabs.push(tab), active: s.tabs.len() as int })
        },
    }
}

/// The layout after hiding `tab`: its first occurrence, in search order, is
/// removed, and that slot's active index follows the tab it pointed at.
pub open spec fn view_hide_tab(v: LayoutView, tab: DockTab) -> LayoutView {
    match view_area_for(v, tab) {
        Some(area) => {
            let s = view_slot(v, area);
            let i = first_index(s.tabs, tab);
            let tabs = s.tabs.remove(i);
            let active = if s.active > i { s.active - 1 } else { s.active };
            view_with_slot(v, area, clamp_slot(SlotView { tabs, active }))
        },
        None => v,
    }
}

/// The layout after moving `tab` to the end of `target`, where it becomes
/// active.
pub open spec fn view_move_tab(v: LayoutView, tab: DockTab, target: DockArea) -> LayoutView {
    let h = view_hide_tab(v, tab);
    let s = view_slot(h, target);
    view_with_slot(h, target, SlotView { tabs: s.tabs.push(tab), active: s.tabs.len() as int })
}

/// The layout after swapping the active tab of `area` with its neighbor in
/// `direction` (-1 or 1), when there is one.
pub open spec fn view_move_active(v: LayoutView, area: DockArea, direction: int) -> LayoutView {
    let s = view_slot(v, area);
    let len = s.tabs.len() as int;
    let active = clamped_active(s.active, len);
    if len == 0 {
        v
    } else if direction == -1 && active > 0 {
        view_with_slot(
            v,
            area,
            SlotView { tabs: s.tabs.update(active, s.tabs[active - 1]).update(active - 1, s.tabs[active]), active: active - 1 },
        )
    } else if direction == 1 && active + 1 < len {
        view_with_slot(
            v,
            area,
            SlotView { tabs: s.tabs.update(active, s.tabs[active + 1]).update(active + 1, s.tabs[active]), active: active + 1 },
        )
    } else {
        v
    }
}

/// The first `n` tabs of `tabs` that are not in `seen` and not taken
/// already, in order.
pub open spec fn keep_unseen(tabs: Seq<DockTab>, seen: Set<DockTab>, n: int) -> Seq<DockTab>
    decreases n,
{
    if n <= 0 {
        seq![]
    } else {
        let prev = keep_unseen(tabs, seen, n - 1);
        if seen.contains(tabs[n - 1]) || prev.contains(tabs[n - 1]) {
            prev
        } else {
            prev.push(tabs[n - 1])
        }
    }
}

/// A slot without the tabs already `seen` nor repeats, its active index
/// clamped before and after.
pub open spec fn dedup_slot(s: SlotView, seen: Set<DockTab>) -> SlotView {
    clamp_slot(SlotView { tabs: keep_unseen(s.tabs, seen, s.tabs.len() as int), active: clamp_slot(s).active })
}

/// Tabs kept by the first `r` areas of a normalized layout.
pub open spec fn kept_before(v: LayoutView, r: int) -> Set<DockTab>
    decreases r,
{
    if r <= 0 {
        Set::empty()
    } else {
        kept_before(v, r - 1) + dedup_slot(v.slots[r - 1], kept_before(v, r - 1)).tabs.to_set()
    }
}

/// The normalized layout: each area in search order keeps the first
/// occurrence of each tab that no earlier area kept.
pub open spec fn view_normalized(v: LayoutView) -> LayoutView {
    LayoutView {
        show_status_bar: v.show_status_bar,
        slots: Seq::new(4, |r: int| dedup_slot(v.slots[r], kept_before(v, r))),
    }
}

/// A layout view that a `DockLayout` can have: four slots, no negative
/// index.
pub open spec fn layout_valid(v: LayoutView) -> bool {
    &&& v.slots.len() == 4
    &&& forall|r: int| 0 <= r < 4 ==> #[trigger] v.slots[r].active >= 0
}

/// A tab sequence without repeats.
pub open spec fn no_repeats(tabs: Seq<DockTab>) -> bool {
    forall|i: int, j: int| 0 <= i < j < tabs.len() ==> tabs[i] != tabs[j]
}

/// Every slot's active index is valid and no tab is docked twice.
pub open spec fn layout_wf(v: LayoutView) -> bool {
    &&& v.slots.len() == 4
    &&& forall|r: int| 0 <= r < 4 ==> slot_wf(#[trigger] v.slots[r])
    &&& forall|r: int| 0 <= r < 4 ==> no_repeats(#[trigger] v.slots[r].tabs)
    &&& forall|r1: int, r2: int, tab: DockTab|
        0 <= r1 < r2 < 4 && #[trigger] v.slots[r1].tabs.contains(tab) ==> !#[trigger] v.slots[r2].tabs.contains(tab)
}

/// The first occurrence of a tab, if the tabs hold it.
proof fn lemma_first_index(tabs: Seq<DockTab>, tab: DockTab)
    ensures
        tabs.contains(tab) ==> {
            &&& 0 <= first_index(tabs, tab) < tabs.len()
            &&& tabs[first_index(tabs, tab)] == tab
            &&& forall|j: int| 0 <= j < first_index(tabs, tab) ==> tabs[j] != tab
        },
    decreases tabs.len(),
{
    if tabs.len() > 0 {
        let init = tabs.drop_last();
        lemma_first_index(init, tab);
        assert(forall|j: int| 0 <= j < init.len() ==> tabs[j] == init[j]);
        if init.contains(tab) {
            assert(first_index(tabs, tab) == first_index(init, tab));
        } else if tabs.contains(tab) {
            let k = choose|k: int| 0 <= k < tabs.len() && tabs[k] == tab;
            if k < tabs.len() - 1 {
                assert(init[k] == tab);
            }
            assert(tabs.last() == tab);
            assert(first_index(tabs, tab) == tabs.len() - 1);
            assert forall|j: int| 0 <= j < tabs.len() - 1 implies tabs[j] != tab by {
                if tabs[j] == tab {
                    assert(init[j] == tab);
                }
            }
        }
    }
}

/// Index of the first occurrence of `tab`.
pub fn position_of(tabs: &Vec<DockTab>, tab: DockTab) -> (r: Option<usize>)
    ensures
        match r {
            Some(i) => tabs@.contains(tab) && i == first_index(tabs@, tab) && i < tabs@.len(),
            None => !tabs@.contains(tab),
        },
{
    proof {
        lemma_first_index(tabs@, tab);
    }
    let mut i: usize = 0;
    while i < tabs.len()
        invariant
            i <= tabs@.len(),
            forall|j: int| 0 <= j < i ==> tabs@[j] != tab,
            tabs@.contains(tab) ==> {
                &&& 0 <= first_index(tabs@, tab) < tabs@.len()
                &&& tabs@[first_index(tabs@, tab)] == tab
                &&& forall|j: int| 0 <= j < first_index(tabs@, tab) ==> tabs@[j] != tab
            },
        decreases tabs.len() - i,
    {
        if tabs[i] == tab {
            assert(tabs@.contains(tab));
            return Some(i);
        }
        i = i + 1;
    }
    None
}

impl DockLayout {
    /// A copy of the layout.
    pub fn copy(&self) -> (r: Self)
        ensures
            r@ == self@,
    {
        DockLayout {
            show_status_bar: self.show_status_bar,
            left: self.left.copy(),
            center: self.center.copy(),
            right: self.right.copy(),
            bottom: self.bottom.copy(),
        }
    }
}

impl DockLayout {
    /// The slot of an area.
    pub fn slot(&self, area: DockArea) -> (s: &DockSlot)
        ensures
            s@ == view_slot(self@, area),
    {
        match area {
            DockArea::Left => &self.left,
            DockArea::Center => &self.center,
            DockArea::Right => &self.right,
            DockArea::Bottom => &self.bottom,
        }
    }

    /// The slot of an area, to change it.
    pub fn slot_mut(&mut self, area: DockArea) -> (s: &mut DockSlot)
        ensures
            s@ == view_slot(old(self)@, area),
            final(self)@ == view_with_slot(old(self)@, area, final(s)@),
    {
        match area {
            DockArea::Left => &mut self.left,
            DockArea::Center => &mut self.center,
            DockArea::Right => &mut self.right,
            DockArea::Bottom => &mut self.bottom,
        }
    }

    /// Whether some area holds `tab`.
    pub fn contains(&self, tab: DockTab) -> (r: bool)
        ensures
            r == view_contains(self@, tab),
    {
        let r = self.area_for(tab).is_some();
        proof {
            if view_contains(self@, tab) {
                let k = choose|k: int| 0 <= k < 4 && #[trigger] self@.slots[k].tabs.contains(tab);
                assert(k == 0 || k == 1 || k == 2 || k == 3);
            }
            if r {
                let a = view_area_for(self@, tab)->0;
                assert(self@.slots[area_rank(a)].tabs.contains(tab));
            }
        }
        r
    }

    /// The first area, in search order, that holds `tab`.
    pub fn area_for(&self, tab: DockTab) -> (r: Option<DockArea>)
        ensures
            r == view_area_for(self@, tab),
    {
        if position_of(&self.left.tabs, tab).is_some() {
            Some(DockArea::Left)
        } else if position_of(&self.center.tabs, tab).is_some() {
            Some(DockArea::Center)
        } else if position_of(&self.right.tabs, tab).is_some() {
            Some(DockArea::Right)
        } else if position_of(&self.bottom.tabs, tab).is_some() {
            Some(DockArea::Bottom)
        } else {
            None
        }
    }

    /// The active tab of an area.
    pub fn active_tab(&self, area: DockArea) -> (t: Option<DockTab>)
        ensures
            t == spec_active_tab(view_slot(self@, area)),
    {
        self.slot(area).active_tab()
    }

    /// Makes tab `index` of `area` active, clamped to its tabs; does nothing
    /// for an empty area.
    pub fn set_active_tab(&mut self, area: DockArea, index: usize)
        ensures
            final(self)@ == view_set_active(old(self)@, area, index as int),
    {
        let slot = self.slot_mut(area);
        if slot.tabs.len() > 0 {
            let last = slot.tabs.len() - 1;
            slot.active = if index < last { index } else { last };
        }
    }

    /// Shows `tab`: activates it where it is docked, or docks it at the end
    /// of its default area.
    pub fn show_tab(&mut self, tab: DockTab)
        ensures
            final(self)@ == view_show_tab(old(self)@, tab),
    {
        if let Some(area) = self.area_for(tab) {
            if let Some(index) = position_of(&self.slot(area).tabs, tab) {
                self.set_active_tab(area, index);
            }
            return;
        }
        let area = tab.default_area();
        let slot = self.slot_mut(area);
        slot.tabs.push(tab);
        slot.active = slot.tabs.len() - 1;
        slot.normalize();
    }

    /// Shows or hides a tab.
    pub fn set_tab_visible(&mut self, tab: DockTab, visible: bool)
        ensures
            visible ==> final(self)@ == view_show_tab(old(self)@, tab),
            !visible ==> final(self)@ == view_hide_tab(old(self)@, tab),
    {
        if visible {
            self.show_tab(tab);
        } else {
            self.hide_tab(tab);
        }
    }

    /// Hides `tab`: removes its first occurrence in search order.
    pub fn hide_tab(&mut self, tab: DockTab)
        ensures
            final(self)@ == view_hide_tab(old(self)@, tab),
    {
        if let Some(area) = self.area_for(tab) {
            let slot = self.slot_mut(area);
            if let Some(index) = position_of(&slot.tabs, tab) {
                slot.tabs.remove(index);
                if slot.active > index {
                    slot.active = slot.active - 1;
                }
                slot.normalize();
            }
        }
    }

    /// Moves `tab` to the end of `target`, where it becomes active.
    pub fn move_tab(&mut self, tab: DockTab, target: DockArea)
        ensures
            final(self)@ == view_move_tab(old(self)@, tab, target),
    {
        self.hide_tab(tab);
        let slot = self.slot_mut(target);
        slot.tabs.push(tab);
        slot.active = slot.tabs.len() - 1;
        slot.normalize();
    }

    /// Swaps the active tab of `area` with its neighbor in `direction`
    /// (-1 or 1), when there is one.
    pub fn move_active_within_slot(&mut self, area: DockArea, direction: i32)
        ensures
            final(self)@ == view_move_active(old(self)@, area, direction as int),
    {
        let slot = self.slot_mut(area);
        if slot.tabs.len() == 0 {
            return;
        }
        let last = slot.tabs.len() - 1;
        let active = if slot.active < last { slot.active } else { last };
        let target = if direction == -1 && active > 0 {
            active - 1
        } else if direction == 1 && active + 1 < slot.tabs.len() {
            active + 1
        } else {
            return;
        };
        let a = slot.tabs[active];
        let b = slot.tabs[target];
        slot.tabs.set(active, b);
        slot.tabs.set(target, a);
        slot.active = target;
    }
}

/// Drops from a slot the tabs already kept by earlier areas, and repeats;
/// records the kept tabs.
fn dedup_slot_tabs(slot: &mut DockSlot, seen: &mut Vec<DockTab>)
    requires
        slot_wf(old(slot)@),
    ensures
        final(slot)@ == dedup_slot(old(slot)@, old(seen)@.to_set()),
        forall|t: DockTab|
            #[trigger] final(seen)@.contains(t) <==> (old(seen)@.contains(t) || final(slot)@.tabs.contains(t)),
{
    let ghost seen0 = old(seen)@.to_set();
    let ghost tabs0 = old(slot)@.tabs;
    let mut kept: Vec<DockTab> = Vec::new();
    let mut i: usize = 0;
    while i < slot.tabs.len()
        invariant
            slot@ == old(slot)@,
            slot@.tabs == tabs0,
            i <= tabs0.len(),
            kept@ == keep_unseen(tabs0, seen0, i as int),
            forall|t: DockTab| #[trigger] seen@.contains(t) <==> (seen0.contains(t) || kept@.contains(t)),
        decreases slot.tabs.len() - i,
    {
        let tab = slot.tabs[i];
        let ghost prev_seen = seen@;
        let ghost prev_kept = kept@;
        if position_of(seen, tab).is_none() {
            kept.push(tab);
            seen.push(tab);
            proof {
                assert forall|t: DockTab| #[trigger] seen@.contains(t) <==> (seen0.contains(t) || kept@.contains(t)) by {
                    assert(seen@.contains(t) <==> (prev_seen.contains(t) || t == tab));
                    assert(kept@.contains(t) <==> (prev_kept.contains(t) || t == tab));
                }
            }
        }
        i = i + 1;
    }
    assert(tabs0.len() == i);
    slot.tabs = kept;
    slot.normalize();
}

impl DockLayout {
    /// Makes every active index valid and keeps each tab only in the first
    /// area, in search order, that holds it, at its first position there.
    pub fn normalize(&mut self)
        ensures
            final(self)@ == view_normalized(old(self)@),
    {
        self.left.normalize();
        self.center.normalize();
        self.right.normalize();
        self.bottom.normalize();
        let ghost v = old(self)@;
        let mut seen: Vec<DockTab> = Vec::new();
        assert(seen@.to_set() =~= kept_before(v, 0));
        dedup_slot_tabs(&mut self.left, &mut seen);
        proof {
            assert(seen@.to_set() =~= kept_before(v, 1));
        }
        dedup_slot_tabs(&mut self.center, &mut seen);
        proof {
            assert(seen@.to_set() =~= kept_before(v, 2));
        }
        dedup_slot_tabs(&mut self.right, &mut seen);
        proof {
            assert(seen@.to_set() =~= kept_before(v, 3));
        }
        dedup_slot_tabs(&mut self.bottom, &mut seen);
        proof {
            assert(self@.slots =~= view_normalized(v).slots);
        }
    }
}

impl Default for DockLayout {
    fn default() -> (l: Self)
        ensures
            l@ == default_layout_view(),
    {
        let mut center_tabs: Vec<DockTab> = Vec::new();
        center_tabs.push(DockTab::Scene);
        let l = DockLayout {
            show_status_bar: true,
            left: DockSlot::new(Vec::new(), 0),
            center: DockSlot::new(center_tabs, 0),
            right: DockSlot::new(Vec::new(), 0),
            bottom: DockSlot::new(Vec::new(), 0),
        };
        assert(l@.slots =~= default_layout_view().slots);
        l
    }
}

/// The layout of a new workspace: the scene alone, in the center, and the
/// status bar shown.
pub open spec fn default_layout_view() -> LayoutView {
    LayoutView {
        show_status_bar: true,
        slots: seq![
            SlotView { tabs: seq![], active: 0 },
            SlotView { tabs: seq![DockTab::Scene], active: 0 },
            SlotView { tabs: seq![], active: 0 },
            SlotView { tabs: seq![], active: 0 },
        ],
    }
}

proof fn lemma_keep_unseen(tabs: Seq<DockTab>, seen: Set<DockTab>, n: int)
    requires
        0 <= n <= tabs.len(),
    ensures
        no_repeats(keep_unseen(tabs, seen, n)),
        forall|t: DockTab|
            #[trigger] keep_unseen(tabs, seen, n).contains(t) <==> (tabs.take(n).contains(t)
                && !seen.contains(t)),
    decreases n,
{
    if n > 0 {
        lemma_keep_unseen(tabs, seen, n - 1);
        let prev = keep_unseen(tabs, seen, n - 1);
        assert(tabs.take(n) =~= tabs.take(n - 1).push(tabs[n - 1]));
        assert forall|t: DockTab| #[trigger] keep_unseen(tabs, seen, n).contains(t) <==> (tabs.take(n).contains(t)
            && !seen.contains(t)) by {
            assert(tabs.take(n).contains(t) <==> (tabs.take(n - 1).contains(t) || t == tabs[n - 1]));
        }
    } else {
        assert(tabs.take(0) =~= seq![]);
    }
}

proof fn lemma_keep_all(tabs: Seq<DockTab>, seen: Set<DockTab>, n: int)
    requires
        0 <= n <= tabs.len(),
        no_repeats(tabs),
        forall|i: int| 0 <= i < n ==> !seen.contains(#[trigger] tabs[i]),
    ensures
        keep_unseen(tabs, seen, n) == tabs.take(n),
    decreases n,
{
    if n > 0 {
        lemma_keep_all(tabs, seen, n - 1);
        assert(!tabs.take(n - 1).contains(tabs[n - 1])) by {
            if tabs.take(n - 1).contains(tabs[n - 1]) {
                let k = choose|k: int| 0 <= k < n - 1 && #[trigger] tabs.take(n - 1)[k] == tabs[n - 1];
                assert(tabs[k] == tabs[n - 1]);
            }
        }
        assert(tabs.take(n) =~= tabs.take(n - 1).push(tabs[n - 1]));
    } else {
        assert(tabs.take(0) =~= seq![]);
    }
}

proof fn lemma_kept_before(v: LayoutView, r: int)
    requires
        0 <= r <= 4,
        v.slots.len() == 4,
    ensures
        forall|t: DockTab|
            #[trigger] kept_before(v, r).contains(t) <==> exists|r2: int|
                0 <= r2 < r && #[trigger] view_normalized(v).slots[r2].tabs.contains(t),
    decreases r,
{
    if r > 0 {
        lemma_kept_before(v, r - 1);
        assert forall|t: DockTab| #[trigger] kept_before(v, r).contains(t) <==> exists|r2: int|
            0 <= r2 < r && #[trigger] view_normalized(v).slots[r2].tabs.contains(t) by {
            if kept_before(v, r).contains(t) {
                if !kept_before(v, r - 1).contains(t) {
                    assert(view_normalized(v).slots[r - 1].tabs.contains(t));
                }
            }
            if exists|r2: int| 0 <= r2 < r && #[trigger] view_normalized(v).slots[r2].tabs.contains(t) {
                let r2 = choose|r2: int| 0 <= r2 < r && #[trigger] view_normalized(v).slots[r2].tabs.contains(t);
                if r2 < r - 1 {
                    assert(kept_before(v, r - 1).contains(t));
                }
            }
        }
    }
}

/// Law: a normalized layout is well formed: every active index is valid
/// and no tab is docked twice.
pub proof fn lemma_normalized_wf(v: LayoutView)
    requires
        layout_valid(v),
    ensures
        layout_wf(view_normalized(v)),
{
    let w = view_normalized(v);
    assert forall|r: int| 0 <= r < 4 implies slot_wf(#[trigger] w.slots[r]) by {
        assert(v.slots[r].active >= 0);
    }
    assert forall|r: int| 0 <= r < 4 implies no_repeats(#[trigger] w.slots[r].tabs) by {
        lemma_keep_unseen(v.slots[r].tabs, kept_before(v, r), v.slots[r].tabs.len() as int);
    }
    assert forall|r1: int, r2: int, tab: DockTab|
        0 <= r1 < r2 < 4 && #[trigger] w.slots[r1].tabs.contains(tab) implies !#[trigger] w.slots[r2].tabs.contains(tab) by {
        lemma_kept_before(v, r2);
        assert(kept_before(v, r2).contains(tab));
        lemma_keep_unseen(v.slots[r2].tabs, kept_before(v, r2), v.slots[r2].tabs.len() as int);
    }
}

/// A well-formed layout is unchanged by normalization.
pub(crate) proof fn lemma_wf_normalized_unchanged(v: LayoutView)
    requires
        layout_wf(v),
    ensures
        view_normalized(v) == v,
{
    let w = view_normalized(v);
    assert forall|r: int| 0 <= r < 4 implies #[trigger] w.slots[r] == v.slots[r] by {
        let s = v.slots[r];
        lemma_kept_before(v, r);
        assert forall|i: int| 0 <= i < s.tabs.len() implies !kept_before(v, r).contains(#[trigger] s.tabs[i]) by {
            if kept_before(v, r).contains(s.tabs[i]) {
                let r2 = choose|r2: int| 0 <= r2 < r && #[trigger] w.slots[r2].tabs.contains(s.tabs[i]);
                lemma_keep_unseen(v.slots[r2].tabs, kept_before(v, r2), v.slots[r2].tabs.len() as int);
                assert(v.slots[r2].tabs.take(v.slots[r2].tabs.len() as int) =~= v.slots[r2].tabs);
                assert(v.slots[r2].tabs.contains(s.tabs[i]));
                assert(v.slots[r].tabs.contains(s.tabs[i]));
            }
        }
        lemma_keep_all(s.tabs, kept_before(v, r), s.tabs.len() as int);
        assert(s.tabs.take(s.tabs.len() as int) =~= s.tabs);
    }
    assert(w.slots =~= v.slots);
}

/// Law: normalizing twice is normalizing once.
pub proof fn lemma_normalize_idempotent(v: LayoutView)
    requires
        layout_valid(v),
    ensures
        view_normalized(view_normalized(v)) == view_normalized(v),
{
    lemma_normalized_wf(v);
    lemma_wf_normalized_unchanged(view_normalized(v));
}

/// The view of every dock layout is valid.
pub proof fn lemma_layout_view_valid(l: DockLayout)
    ensures
        layout_valid(l@),
{
}

proof fn lemma_area_for(v: LayoutView, tab: DockTab)
    requires
        layout_valid(v),
    ensures
        view_area_for(v, tab) is Some <==> view_contains(v, tab),
        view_area_for(v, tab) matches Some(a) ==> view_slot(v, a).tabs.contains(tab),
{
    if view_contains(v, tab) {
        let k = choose|k: int| 0 <= k < 4 && #[trigger] v.slots[k].tabs.contains(tab);
        assert(k == 0 || k == 1 || k == 2 || k == 3);
    }
    if view_area_for(v, tab) is Some {
        assert(v.slots[area_rank(view_area_for(v, tab)->0)].tabs.contains(tab));
    }
}

/// Law: after showing a tab, the layout holds it, and the tab is the active
/// tab of the first area that holds it; a well-formed layout stays well
/// formed.
pub proof fn lemma_show_tab(v: LayoutView, tab: DockTab)
    requires
        layout_valid(v),
    ensures
        view_area_for(view_show_tab(v, tab), tab) is Some,
        spec_active_tab(view_slot(view_show_tab(v, tab), view_area_for(view_show_tab(v, tab), tab)->0))
            == Some(tab),
        layout_wf(v) ==> layout_wf(view_show_tab(v, tab)),
{
    let w = view_show_tab(v, tab);
    lemma_area_for(v, tab);
    lemma_first_index(view_slot(v, spec_default_area(tab)).tabs, tab);
    match view_area_for(v, tab) {
        Some(a) => {
            lemma_first_index(view_slot(v, a).tabs, tab);
            assert(w.slots =~= v.slots.update(area_rank(a), view_slot(w, a)));
            assert(view_area_for(w, tab) == Some(a)) by {
                assert(forall|r: int| 0 <= r < 4 ==> #[trigger] w.slots[r].tabs == v.slots[r].tabs);
            }
            if layout_wf(v) {
                assert forall|r: int| 0 <= r < 4 implies slot_wf(#[trigger] w.slots[r]) by {
                    assert(slot_wf(v.slots[r]));
                }
                assert(forall|r: int| 0 <= r < 4 ==> #[trigger] w.slots[r].tabs == v.slots[r].tabs);
            }
        },
        None => {
            let a = spec_default_area(tab);
            let s = view_slot(v, a);
            assert(view_slot(w, a).tabs[s.tabs.len() as int] == tab);
            assert(view_slot(w, a).tabs.contains(tab));
            assert(forall|r: int| 0 <= r < 4 && r != area_rank(a) ==> #[trigger] w.slots[r] == v.slots[r]);
            assert(view_area_for(w, tab) == Some(a)) by {
                assert(!v.slots[0].tabs.contains(tab));
                assert(!v.slots[1].tabs.contains(tab));
                assert(!v.slots[2].tabs.contains(tab));
                assert(!v.slots[3].tabs.contains(tab));
            }
            if layout_wf(v) {
                assert forall|r: int| 0 <= r < 4 implies no_repeats(#[trigger] w.slots[r].tabs) by {
                    if r == area_rank(a) {
                        assert(no_repeats(s.tabs));
                        assert forall|i: int, j: int| 0 <= i < j < w.slots[r].tabs.len() implies w.slots[r].tabs[i]
                            != w.slots[r].tabs[j] by {
                            if j == s.tabs.len() {
                                assert(s.tabs[i] == w.slots[r].tabs[i]);
                                assert(!s.tabs.contains(tab));
                            }
                        }
                    }
                }
                assert forall|r1: int, r2: int, t: DockTab|
                    0 <= r1 < r2 < 4 && #[trigger] w.slots[r1].tabs.contains(t) implies !#[trigger] w.slots[r2].tabs.contains(t) by {
                    if t == tab {
                        assert(!v.slots[r1].tabs.contains(t));
                        assert(!v.slots[r2].tabs.contains(t));
                    } else {
                        assert(v.slots[r1].tabs.contains(t));
                        if w.slots[r2].tabs.contains(t) {
                            assert(v.slots[r2].tabs.contains(t));
                        }
                    }
                }
                assert forall|r: int| 0 <= r < 4 implies slot_wf(#[trigger] w.slots[r]) by {
                    assert(slot_wf(v.slots[r]));
                }
            }
        },
    }
}

/// A slot of a well-formed layout holds `tab` only in the area that
/// `view_area_for` names, at one index.
proof fn lemma_wf_unique(v: LayoutView, tab: DockTab)
    requires
        layout_wf(v),
        view_area_for(v, tab) is Some,
    ensures
        forall|r: int|
            0 <= r < 4 && r != area_rank(view_area_for(v, tab)->0) ==> !#[trigger] v.slots[r].tabs.contains(tab),
{
    let a = view_area_for(v, tab)->0;
    assert forall|r: int| 0 <= r < 4 && r != area_rank(a) implies !#[trigger] v.slots[r].tabs.contains(tab) by {
        assert(v.slots[area_rank(a)].tabs.contains(tab));
        if r < area_rank(a) {
            assert(!v.slots[r].tabs.contains(tab));
        }
    }
}

/// Law: hiding a tab of a well-formed layout leaves no copy of it, and the
/// layout well formed.
pub proof fn lemma_hide_tab(v: LayoutView, tab: DockTab)
    requires
        layout_wf(v),
    ensures
        !view_contains(view_hide_tab(v, tab), tab),
        layout_wf(view_hide_tab(v, tab)),
{
    let w = view_hide_tab(v, tab);
    lemma_area_for(v, tab);
    match view_area_for(v, tab) {
        Some(a) => {
            lemma_wf_unique(v, tab);
            let s = view_slot(v, a);
            let i = first_index(s.tabs, tab);
            lemma_first_index(s.tabs, tab);
            let tabs = s.tabs.remove(i);
            assert(no_repeats(s.tabs));
            assert(forall|j: int| 0 <= j < tabs.len() ==> #[trigger] tabs[j] == (if j < i { s.tabs[j] } else { s.tabs[j + 1] }));
            assert(!tabs.contains(tab)) by {
                if tabs.contains(tab) {
                    let k = choose|k: int| 0 <= k < tabs.len() && tabs[k] == tab;
                    if k >= i {
                        assert(s.tabs[k + 1] == s.tabs[i]);
                    }
                }
            }
            assert(forall|r: int| 0 <= r < 4 && r != area_rank(a) ==> #[trigger] w.slots[r] == v.slots[r]);
            assert(w.slots[area_rank(a)].tabs == tabs);
            assert(!view_contains(w, tab)) by {
                if view_contains(w, tab) {
                    let k = choose|k: int| 0 <= k < 4 && #[trigger] w.slots[k].tabs.contains(tab);
                    if k != area_rank(a) {
                        assert(v.slots[k].tabs.contains(tab));
                    }
                }
            }
            assert forall|r: int| 0 <= r < 4 implies slot_wf(#[trigger] w.slots[r]) by {
                assert(slot_wf(v.slots[r]));
            }
            assert forall|r: int| 0 <= r < 4 implies no_repeats(#[trigger] w.slots[r].tabs) by {
                assert(no_repeats(v.slots[r].tabs));
            }
            assert forall|r1: int, r2: int, t: DockTab|
                0 <= r1 < r2 < 4 && #[trigger] w.slots[r1].tabs.contains(t) implies !#[trigger] w.slots[r2].tabs.contains(t) by {
                if w.slots[r1].tabs.contains(t) {
                    let k = choose|k: int| 0 <= k < w.slots[r1].tabs.len() && w.slots[r1].tabs[k] == t;
                    if r1 == area_rank(a) {
                        if k < i {
                            assert(v.slots[r1].tabs[k] == t);
                        } else {
                            assert(v.slots[r1].tabs[k + 1] == t);
                        }
                    }
                    assert(v.slots[r1].tabs.contains(t));
                }
                if w.slots[r2].tabs.contains(t) {
                    let k = choose|k: int| 0 <= k < w.slots[r2].tabs.len() && w.slots[r2].tabs[k] == t;
                    if r2 == area_rank(a) {
                        if k < i {
                            assert(v.slots[r2].tabs[k] == t);
                        } else {
                            assert(v.slots[r2].tabs[k + 1] == t);
                        }
                    }
                    assert(v.slots[r2].tabs.contains(t));
                }
            }
        },
        None => {},
    }
}

/// Law: moving a tab of a well-formed layout docks it once, in the target
/// area, as that area's active tab, and keeps the layout well formed.
pub proof fn lemma_move_tab(v: LayoutView, tab: DockTab, target: DockArea)
    requires
        layout_wf(v),
    ensures
        layout_wf(view_move_tab(v, tab, target)),
        view_area_for(view_move_tab(v, tab, target), tab) == Some(target),
        spec_active_tab(view_slot(view_move_tab(v, tab, target), target)) == Some(tab),
{
    let h = view_hide_tab(v, tab);
    lemma_hide_tab(v, tab);
    let w = view_move_tab(v, tab, target);
    let s = view_slot(h, target);
    let t = area_rank(target);
    assert(forall|r: int| 0 <= r < 4 ==> !#[trigger] h.slots[r].tabs.contains(tab));
    assert(w.slots[t].tabs == s.tabs.push(tab));
    assert(w.slots[t].tabs[s.tabs.len() as int] == tab);
    assert(forall|r: int| 0 <= r < 4 && r != t ==> #[trigger] w.slots[r] == h.slots[r]);
    assert forall|r: int| 0 <= r < 4 implies slot_wf(#[trigger] w.slots[r]) by {
        assert(slot_wf(h.slots[r]));
    }
    assert forall|r: int| 0 <= r < 4 implies no_repeats(#[trigger] w.slots[r].tabs) by {
        assert(no_repeats(h.slots[r].tabs));
        if r == t {
            assert forall|i: int, j: int| 0 <= i < j < w.slots[r].tabs.len() implies w.slots[r].tabs[i]
                != w.slots[r].tabs[j] by {
                if j == s.tabs.len() {
                    assert(w.slots[r].tabs[i] == s.tabs[i]);
                    assert(!h.slots[t].tabs.contains(tab));
                }
            }
        }
    }
    assert forall|r1: int, r2: int, u: DockTab|
        0 <= r1 < r2 < 4 && #[trigger] w.slots[r1].tabs.contains(u) implies !#[trigger] w.slots[r2].tabs.contains(u) by {
        if u != tab {
            if w.slots[r1].tabs.contains(u) {
                assert(h.slots[r1].tabs.contains(u));
            }
            if w.slots[r2].tabs.contains(u) {
                assert(h.slots[r2].tabs.contains(u));
            }
        } else {
            if r1 != t {
                assert(!h.slots[r1].tabs.contains(u));
            }
            if r2 != t {
                assert(!h.slots[r2].tabs.contains(u));
            }
        }
    }
    assert(view_area_for(w, tab) == Some(target)) by {
        assert(w.slots[t].tabs.contains(tab));
        assert(forall|r: int| 0 <= r < 4 && r != t ==> !#[trigger] w.slots[r].tabs.contains(tab));
    }
}


/// A saved layout shows the status bar unless it says otherwise.
pub fn default_show_status_bar() -> (b: bool)
    ensures
        b,
{
    true
}

/// The center slot of a layout that names none: the scene alone.
pub fn default_center_slot() -> (s: DockSlot)
    ensures
        s@ == (SlotView { tabs: seq![DockTab::Scene], active: 0 }),
{
    let mut tabs = Vec::new();
    tabs.push(DockTab::Scene);
    let s = DockSlot::new(tabs, 0);
    assert(s@.tabs =~= seq![DockTab::Scene]);
    s
}

} // verus!
