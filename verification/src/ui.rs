//! Decisions of the dock surface that do not depend on drawing: the width of
//! the panel and the place of its slots, the folder popup's grid, what a press
//! or a release of the button does, the running indicators, smart hiding, and
//! the bookkeeping of the animations.

use vstd::prelude::*;
use crate::launcher::{Entry, EntryView, FolderEntryView, folder_views};

verus! {

/// Pixels reserved above the panel for bounce animation overdraw.
pub const BOUNCE_MARGIN: u32 = 56;

/// Pixels reserved above the bounce margin for folder popup rendering.
pub const POPUP_RESERVE: u32 = 180;

/// Total pixels above the dock panel.
pub const OVERDRAW: u32 = POPUP_RESERVE + BOUNCE_MARGIN;

/// Width of the dock panel for `n` slots: each slot takes the icon and its
/// padding on both sides, plus 40 pixels; 200 pixels when there is no slot.
pub open spec fn panel_width(n: u32, icon_size: u32, icon_padding: u32) -> int {
    if n == 0 {
        200
    } else {
        n * (icon_size + icon_padding * 2) + 40
    }
}

/// The width of the dock panel (see [`panel_width`]); the slot count is taken
/// as a `u32`, as the surface size is.
pub fn calculate_dock_width(n_entries: u32, icon_size: u32, icon_padding: u32) -> (r: u32)
    requires
        panel_width(n_entries, icon_size, icon_padding) <= u32::MAX,
    ensures
        r == panel_width(n_entries, icon_size, icon_padding),
{
    if n_entries == 0 {
        return 200;
    }
    assert(icon_padding * 2 <= icon_size + icon_padding * 2);
    assert(n_entries * (icon_size + icon_padding * 2) <= u32::MAX) by (nonlinear_arith)
        requires
            n_entries * (icon_size + icon_padding * 2) + 40 <= u32::MAX;
    assert(icon_size + icon_padding * 2 <= u32::MAX) by (nonlinear_arith)
        requires
            n_entries >= 1,
            n_entries * (icon_size + icon_padding * 2) <= u32::MAX,
            icon_size + icon_padding * 2 >= 0;
    n_entries * (icon_size + icon_padding * 2) + 40
}

// ── Button release ───────────────────────────────────────────────────────────

/// What releasing the main button on the dock does.
#[derive(Debug, Clone, Copy, PartialEq, Eq, Structural)]
pub enum ReleaseAction {
    /// Nothing is being dragged: no effect.
    Nothing,
    /// Launch app `.1` of the open folder `.0`, then close the folder.
    LaunchFolderApp(usize, usize),
    /// A click on a folder: the open folder becomes `.0`.
    ToggleFolder(Option<usize>),
    /// A click on an app slot: close any folder and launch it.
    LaunchSlot(usize),
    /// A drag that ended on another slot: close any folder and move the slot.
    Reorder(usize, usize),
    /// A drag that ended nowhere else: close any folder.
    CloseFolder,
}

/// The action of a release, given the open folder, the hovered app in it, the
/// dragged slot, whether the pointer stayed within the click distance, whether
/// the dragged slot is a folder, and the hovered slot.
pub open spec fn release_action_spec(
    open_folder: Option<usize>,
    hovered_folder_app: Option<usize>,
    dragging: Option<usize>,
    is_click: bool,
    dragged_is_folder: bool,
    hovered_app: Option<usize>,
) -> ReleaseAction {
    if open_folder is Some && hovered_folder_app is Some {
        ReleaseAction::LaunchFolderApp(open_folder->0, hovered_folder_app->0)
    } else if dragging is None {
        ReleaseAction::Nothing
    } else if is_click {
        if dragged_is_folder {
            ReleaseAction::ToggleFolder(if open_folder == Some(dragging->0) { None } else { dragging })
        } else {
            ReleaseAction::LaunchSlot(dragging->0)
        }
    } else if hovered_app is Some && hovered_app->0 != dragging->0 {
        ReleaseAction::Reorder(dragging->0, hovered_app->0)
    } else {
        ReleaseAction::CloseFolder
    }
}

/// Decides what a button release does (see [`release_action_spec`]).
pub fn release_action(
    open_folder: Option<usize>,
    hovered_folder_app: Option<usize>,
    dragging: Option<usize>,
    is_click: bool,
    dragged_is_folder: bool,
    hovered_app: Option<usize>,
) -> (r: ReleaseAction)
    ensures
        r == release_action_spec(open_folder, hovered_folder_app, dragging, is_click, dragged_is_folder,
            hovered_app),
{
    match (open_folder, hovered_folder_app) {
        (Some(f), Some(a)) => return ReleaseAction::LaunchFolderApp(f, a),
        _ => {},
    }
    let d = match dragging {
        Some(d) => d,
        None => return ReleaseAction::Nothing,
    };
    if is_click {
        if dragged_is_folder {
            let now_open = match open_folder {
                Some(f) => if f == d { None } else { Some(d) },
                None => Some(d),
            };
            ReleaseAction::ToggleFolder(now_open)
        } else {
            ReleaseAction::LaunchSlot(d)
        }
    } else {
        match hovered_app {
            Some(t) => if t != d { ReleaseAction::Reorder(d, t) } else { ReleaseAction::CloseFolder },
            None => ReleaseAction::CloseFolder,
        }
    }
}

/// What a release does, case by case: over an app of the open folder it
/// launches that app; with nothing dragged it does nothing; a click launches an
/// app slot or opens and closes a folder (a second click on it closes what the
/// first opened); a drag onto another slot moves the dragged slot there,
/// folder or not; any other drag only closes the folder.
pub proof fn release_cases(
    open_folder: Option<usize>,
    hovered_folder_app: Option<usize>,
    dragging: Option<usize>,
    is_click: bool,
    dragged_is_folder: bool,
    hovered_app: Option<usize>,
)
    ensures
        ({
            let r = release_action_spec(open_folder, hovered_folder_app, dragging, is_click, dragged_is_folder,
                hovered_app);
            let hit = open_folder is Some && hovered_folder_app is Some;
            &&& hit ==> r == ReleaseAction::LaunchFolderApp(open_folder->0, hovered_folder_app->0)
            &&& !hit && dragging is None ==> r == ReleaseAction::Nothing
            &&& forall|d: usize| !hit && dragging == Some(d) && is_click && !dragged_is_folder
                ==> r == ReleaseAction::LaunchSlot(d)
            &&& forall|d: usize| !hit && dragging == Some(d) && is_click && dragged_is_folder && open_folder != Some(d)
                ==> r == ReleaseAction::ToggleFolder(Some(d))
            &&& forall|d: usize| !hit && dragging == Some(d) && is_click && dragged_is_folder && open_folder == Some(d)
                ==> r == ReleaseAction::ToggleFolder(None)
            &&& forall|d: usize, t: usize| !hit && dragging == Some(d) && !is_click && hovered_app == Some(t) && t != d
                ==> r == ReleaseAction::Reorder(d, t)
            &&& forall|d: usize| !hit && dragging == Some(d) && !is_click && (hovered_app is None || hovered_app == Some(d))
                ==> r == ReleaseAction::CloseFolder
        }),
{
}

/// A click on a closed folder opens it, and a click on the open folder closes
/// it.
pub proof fn folder_click_twice_closes(d: usize, hovered_app: Option<usize>)
    ensures
        release_action_spec(None, None, Some(d), true, true, hovered_app) == ReleaseAction::ToggleFolder(Some(d)),
        release_action_spec(Some(d), None, Some(d), true, true, hovered_app) == ReleaseAction::ToggleFolder(None),
{
}

// ── Pointer press and hover zoom ────────────────────────────────────────────

/// The slot a press of the main button starts dragging: the hovered slot, when
/// the dock is visible enough and the slot exists.
pub fn press_target(visible_enough: bool, hovered: Option<usize>, n_entries: usize) -> (r: Option<usize>)
    ensures
        r == (if visible_enough && hovered is Some && hovered->0 < n_entries { hovered } else { None::<usize> }),
{
    if !visible_enough {
        return None;
    }
    match hovered {
        Some(i) => if i < n_entries { Some(i) } else { None },
        None => None,
    }
}

/// The slot zoomed for hovering: the hovered one, unless a slot is dragged or
/// a folder is open.
pub fn zoom_slot(hovered: Option<usize>, dragging: Option<usize>, open_folder: Option<usize>) -> (r: Option<usize>)
    ensures
        r == (if dragging is None && open_folder is None { hovered } else { None::<usize> }),
{
    if dragging.is_none() && open_folder.is_none() { hovered } else { None }
}

// ── Animations ───────────────────────────────────────────────────────────────

/// The phase of an animation.
#[derive(Debug, Clone, Copy, PartialEq, Eq, Structural)]
pub enum AnimationState {
    Idle,
    Running,
    Completed,
}

/// The present animation is running.
pub open spec fn running(a: Option<AnimationState>) -> bool {
    a == Some(AnimationState::Running)
}

/// Whether any of the dock's animations is still running: the visibility
/// animation, one of the icon zooms, one of the bounces, or the folder popup.
pub fn any_running(
    visibility: Option<AnimationState>,
    icon_scales: &Vec<Option<AnimationState>>,
    icon_bounces: &Vec<Option<AnimationState>>,
    folder_popup: Option<AnimationState>,
) -> (r: bool)
    ensures
        r == (running(visibility) || (exists|i: int| 0 <= i < icon_scales@.len() && running(#[trigger] icon_scales@[i]))
            || (exists|i: int| 0 <= i < icon_bounces@.len() && running(#[trigger] icon_bounces@[i]))
            || running(folder_popup)),
{
    if visibility == Some(AnimationState::Running) {
        return true;
    }
    for i in 0..icon_scales.len()
        invariant
            forall|j: int| 0 <= j < i ==> !running(#[trigger] icon_scales@[j]),
    {
        if icon_scales[i] == Some(AnimationState::Running) {
            return true;
        }
    }
    for i in 0..icon_bounces.len()
        invariant
            forall|j: int| 0 <= j < i ==> !running(#[trigger] icon_bounces@[j]),
    {
        if icon_bounces[i] == Some(AnimationState::Running) {
            return true;
        }
    }
    folder_popup == Some(AnimationState::Running)
}

/// Grows both per-slot animation lists with empty places, in step, while the
/// first is shorter than `count`.
pub fn ensure_capacity<A, B>(icon_scales: &mut Vec<Option<A>>, icon_bounces: &mut Vec<Option<B>>, count: usize)
    ensures
        final(icon_scales)@.len() == (if old(icon_scales)@.len() < count { count as int } else { old(icon_scales)@.len() as int }),
        final(icon_scales)@.take(old(icon_scales)@.len() as int) == old(icon_scales)@,
        forall|i: int| old(icon_scales)@.len() <= i < final(icon_scales)@.len() ==> final(icon_scales)@[i] is None,
        final(icon_bounces)@.len() == old(icon_bounces)@.len() + (final(icon_scales)@.len() - old(icon_scales)@.len()),
        final(icon_bounces)@.take(old(icon_bounces)@.len() as int) == old(icon_bounces)@,
        forall|i: int| old(icon_bounces)@.len() <= i < final(icon_bounces)@.len() ==> final(icon_bounces)@[i] is None,
{
    let ghost s0 = icon_scales@;
    let ghost b0 = icon_bounces@;
    while icon_scales.len() < count
        invariant
            s0.len() <= icon_scales@.len(),
            s0.len() < count ==> icon_scales@.len() <= count,
            s0.len() >= count ==> icon_scales@ == s0,
            icon_scales@.take(s0.len() as int) == s0,
            forall|i: int| s0.len() <= i < icon_scales@.len() ==> icon_scales@[i] is None,
            icon_bounces@.len() == b0.len() + (icon_scales@.len() - s0.len()),
            icon_bounces@.take(b0.len() as int) == b0,
            forall|i: int| b0.len() <= i < icon_bounces@.len() ==> icon_bounces@[i] is None,
        decreases count - icon_scales@.len(),
    {
        icon_scales.push(None);
        icon_bounces.push(None);
        assert(icon_scales@.take(s0.len() as int) == s0);
        assert(icon_bounces@.take(b0.len() as int) == b0);
    }
}

// ── Slot geometry ────────────────────────────────────────────────────────────

/// The width of one slot: the icon with its padding on both sides.
pub open spec fn slot_width(icon_size: u32, icon_padding: u32) -> int {
    icon_size + icon_padding * 2
}

/// The left edge of slot `i` when `n` slots are centred on a surface `width`
/// pixels wide; when the slots are wider than the surface the first one starts
/// left of it, half the excess rounded towards zero.
pub open spec fn slot_left_spec(width: u32, n: u32, icon_size: u32, icon_padding: u32, i: u32) -> int {
    let total = n * slot_width(icon_size, icon_padding);
    let start = if width >= total { (width - total) / 2 } else { -((total - width) / 2) };
    start + i * slot_width(icon_size, icon_padding)
}

/// The left edge of slot `i` of `n` centred slots (see [`slot_left_spec`]).
pub fn slot_left(width: u32, n: u32, icon_size: u32, icon_padding: u32, i: u32) -> (r: i64)
    requires
        i <= n,
        n * slot_width(icon_size, icon_padding) <= u32::MAX,
    ensures
        r == slot_left_spec(width, n, icon_size, icon_padding, i),
{
    let ghost w = slot_width(icon_size, icon_padding);
    assert(i * w <= n * w) by (nonlinear_arith)
        requires
            i <= n,
            w >= 0;
    assert(0 <= i * w) by (nonlinear_arith)
        requires
            i >= 0,
            w >= 0;
    let slot: u64 = icon_size as u64 + 2 * (icon_padding as u64);
    assert(slot == w);
    assert(n as u64 * slot == n * w);
    assert(i as u64 * slot == i * w);
    let total: u64 = n as u64 * slot;
    let offset: i64 = (i as u64 * slot) as i64;
    let start: i64 = if width as u64 >= total {
        ((width as u64 - total) / 2) as i64
    } else {
        -(((total - width as u64) / 2) as i64)
    };
    start + offset
}

/// Slot `i` spans a pointer position given rounded down and rounded up: the
/// slot's left edge is not right of it and its right edge not left of it (for
/// whole-pixel edges, the position rounded down is at least the left edge
/// exactly when the position is, and likewise rounded up for the right edge).
pub open spec fn spans(width: u32, n: u32, icon_size: u32, icon_padding: u32, i: u32, x_floor: i64, x_ceil: i64) -> bool {
    slot_left_spec(width, n, icon_size, icon_padding, i) <= x_floor
        && x_ceil <= slot_left_spec(width, n, icon_size, icon_padding, i) + slot_width(icon_size, icon_padding)
}

/// The slot under the pointer: the first of the `n` centred slots that spans
/// the pointer's column, when the pointer is at the icons' height.
pub fn slot_under_pointer(
    x_floor: i64,
    x_ceil: i64,
    y_inside: bool,
    width: u32,
    n: u32,
    icon_size: u32,
    icon_padding: u32,
) -> (r: Option<u32>)
    requires
        n * slot_width(icon_size, icon_padding) <= u32::MAX,
    ensures
        match r {
            Some(i) => y_inside && i < n && spans(width, n, icon_size, icon_padding, i, x_floor, x_ceil)
                && forall|j: u32| j < i ==> !spans(width, n, icon_size, icon_padding, j, x_floor, x_ceil),
            None => !y_inside || forall|j: u32| j < n ==> !spans(width, n, icon_size, icon_padding, j, x_floor, x_ceil),
        },
{
    if !y_inside {
        return None;
    }
    let slot: i64 = icon_size as i64 + 2 * (icon_padding as i64);
    assert(slot == slot_width(icon_size, icon_padding));
    let mut i: u32 = 0;
    while i < n
        invariant
            i <= n,
            y_inside,
            n * slot_width(icon_size, icon_padding) <= u32::MAX,
            slot == slot_width(icon_size, icon_padding),
            forall|j: u32| j < i ==> !spans(width, n, icon_size, icon_padding, j, x_floor, x_ceil),
        decreases n - i,
    {
        let left = slot_left(width, n, icon_size, icon_padding, i);
        assert(-(u32::MAX as int) <= left <= u32::MAX) by (nonlinear_arith)
            requires
                left == slot_left_spec(width, n, icon_size, icon_padding, i),
                i <= n,
                n * slot_width(icon_size, icon_padding) <= u32::MAX,
                slot_width(icon_size, icon_padding) >= 0;
        if left <= x_floor && x_ceil <= left + slot {
            return Some(i);
        }
        i = i + 1;
    }
    None
}

// ── Folder popup grid ────────────────────────────────────────────────────────

/// The columns of the folder popup: the configured count, at least one.
pub open spec fn grid_columns(columns: u32) -> int {
    if columns == 0 { 1 } else { columns as int }
}

/// The columns of the folder popup (see [`grid_columns`]).
pub fn popup_columns(columns: u32) -> (r: u32)
    ensures
        r == grid_columns(columns),
{
    if columns == 0 { 1 } else { columns }
}

/// The rows the popup needs for `n` apps in `cols` columns: `n / cols`
/// rounded up.
pub fn popup_rows(n: usize, cols: u32) -> (r: usize)
    requires
        cols >= 1,
    ensures
        r * cols >= n,
        r == 0 || (r - 1) * cols < n,
{
    let c = cols as usize;
    let q = n / c;
    assert(q * c + n % c == n) by (nonlinear_arith)
        requires
            c >= 1,
            q == n / c;
    assert(0 <= n % c < c) by (nonlinear_arith)
        requires
            c >= 1;
    assert(n % c != 0 ==> q < n) by (nonlinear_arith)
        requires
            c >= 1,
            q >= 0,
            q * c + n % c == n,
            0 <= n % c;
    let r = if n % c == 0 { q } else { q + 1 };
    assert(r * c >= n && (r == 0 || (r - 1) * c < n)) by (nonlinear_arith)
        requires
            c >= 1,
            q * c + n % c == n,
            0 <= n % c < c,
            n % c == 0 ==> r == q,
            n % c != 0 ==> r == q + 1,
            q >= 0;
    r
}

/// The app under cell (`row`, `col`) of a popup with `cols` columns holding
/// `n` apps: the index `row * cols + col`, when there is an app there.
pub fn grid_cell(row: usize, col: usize, cols: u32, n: usize) -> (r: Option<usize>)
    requires
        row * cols + col <= usize::MAX,
    ensures
        r == (if row * cols + col < n { Some((row * cols + col) as usize) } else { None::<usize> }),
{
    assert(0 <= row * cols) by (nonlinear_arith)
        requires
            row >= 0,
            cols >= 0;
    assert(row * (cols as usize) == row * cols);
    let idx = row * (cols as usize) + col;
    if idx < n { Some(idx) } else { None }
}

// ── Running indicator ────────────────────────────────────────────────────────

/// The dot drawn under a slot.
#[derive(Debug, Clone, Copy, PartialEq, Eq, Structural)]
pub enum IndicatorDot {
    /// No dot.
    Absent,
    /// The slot's own app runs.
    Running,
    /// The slot is a folder one of whose apps runs.
    FolderRunning,
}

/// Some app of the folder runs.
pub open spec fn any_inner_active(fs: Seq<FolderEntryView>) -> bool {
    exists|i: int| 0 <= i < fs.len() && (#[trigger] fs[i]).is_active
}

/// The dot under a slot: none while indicators are off or the slot is dragged.
pub open spec fn indicator_spec(e: EntryView, show: bool, dragged: bool) -> IndicatorDot {
    if !show || dragged {
        IndicatorDot::Absent
    } else if e.is_active {
        IndicatorDot::Running
    } else if e.is_folder && any_inner_active(e.folder_entries) {
        IndicatorDot::FolderRunning
    } else {
        IndicatorDot::Absent
    }
}

/// Whether any app of a folder runs decides its dot: a shown, undragged,
/// inactive folder slot gets the folder dot exactly when some app of the
/// folder, at any position, is running; an active slot always gets the running
/// dot, and hidden or dragged slots get none.
pub proof fn folder_dot_iff_some_app_runs(e: EntryView, show: bool, dragged: bool)
    ensures
        (!show || dragged) ==> indicator_spec(e, show, dragged) == IndicatorDot::Absent,
        show && !dragged && e.is_active ==> indicator_spec(e, show, dragged) == IndicatorDot::Running,
        show && !dragged && !e.is_active && e.is_folder ==> (indicator_spec(e, show, dragged)
            == IndicatorDot::FolderRunning <==> exists|i: int| 0 <= i < e.folder_entries.len()
            && e.folder_entries[i].is_active),
        show && !dragged && !e.is_active && e.is_folder ==> (indicator_spec(e, show, dragged)
            == IndicatorDot::Absent <==> forall|i: int| 0 <= i < e.folder_entries.len()
            ==> !e.folder_entries[i].is_active),
        !e.is_active && !e.is_folder ==> indicator_spec(e, show, dragged) == IndicatorDot::Absent,
{
}

/// The dot drawn under a slot (see [`indicator_spec`]).
pub fn indicator_for(e: &Entry, show: bool, dragged: bool) -> (r: IndicatorDot)
    ensures
        r == indicator_spec(e@, show, dragged),
{
    if !show || dragged {
        return IndicatorDot::Absent;
    }
    if e.is_active {
        return IndicatorDot::Running;
    }
    if e.is_folder {
        for i in 0..e.folder_entries.len()
            invariant
                e.is_folder && !e.is_active && show && !dragged,
                e@.folder_entries == folder_views(e.folder_entries@),
                forall|j: int| 0 <= j < i ==> !(#[trigger] e@.folder_entries[j]).is_active,
        {
            if e.folder_entries[i].is_active {
                assert(e@.folder_entries[i as int].is_active);
                return IndicatorDot::FolderRunning;
            }
        }
    }
    IndicatorDot::Absent
}

/// Slots sit side by side: each starts where the one before ends, and with
/// room on the surface the row is centred, its free space split in halves
/// (the right one takes the odd pixel).
pub proof fn slots_sit_side_by_side(width: u32, n: u32, icon_size: u32, icon_padding: u32, i: u32)
    requires
        i < n,
    ensures
        slot_left_spec(width, n, icon_size, icon_padding, (i + 1) as u32)
            == slot_left_spec(width, n, icon_size, icon_padding, i) + slot_width(icon_size, icon_padding),
        width >= n * slot_width(icon_size, icon_padding) ==> {
            let left = slot_left_spec(width, n, icon_size, icon_padding, 0);
            let right = width - (slot_left_spec(width, n, icon_size, icon_padding, (n - 1) as u32)
                + slot_width(icon_size, icon_padding));
            left <= right <= left + 1
        },
{
    let w = slot_width(icon_size, icon_padding);
    assert((i + 1) * w == i * w + w) by (nonlinear_arith);
    assert((n - 1) * w + w == n * w) by (nonlinear_arith);
    assert(0 * w == 0);
}

/// The panel is 200 pixels wide when empty; otherwise each slot adds its
/// width, on top of 40 pixels.
pub proof fn panel_grows_by_a_slot(n: u32, icon_size: u32, icon_padding: u32)
    requires
        n < u32::MAX,
    ensures
        panel_width(0, icon_size, icon_padding) == 200,
        panel_width(1, icon_size, icon_padding) == slot_width(icon_size, icon_padding) + 40,
        n >= 1 ==> panel_width((n + 1) as u32, icon_size, icon_padding)
            == panel_width(n, icon_size, icon_padding) + slot_width(icon_size, icon_padding),
{
    let w = icon_size + icon_padding * 2;
    assert((n + 1) * w == n * w + w) by (nonlinear_arith);
}

/// Smart hiding shows the dock only once the cursor has rested within 10
/// pixels of the bottom edge for at least the delay, and only while both
/// switches are on and the dock is hidden.
pub proof fn smart_hide_reveals_after_rest(
    auto_hide: bool,
    smart_hide: bool,
    dock_revealed: bool,
    mouse_y: i32,
    monitor_height: i32,
    rested_ms: Option<u64>,
    delay_ms: u64,
)
    ensures
        (smart_hide_step_spec(auto_hide, smart_hide, dock_revealed, mouse_y, monitor_height, rested_ms, delay_ms)
            == SmartHideStep::Reveal) <==> (auto_hide && smart_hide && !dock_revealed
            && mouse_y >= monitor_height - 10 && rested_ms is Some && rested_ms->0 >= delay_ms),
        auto_hide && smart_hide && !dock_revealed && mouse_y < monitor_height - 10 ==>
            smart_hide_step_spec(auto_hide, smart_hide, dock_revealed, mouse_y, monitor_height, rested_ms, delay_ms)
            == SmartHideStep::ResetTimer,
        auto_hide && smart_hide && !dock_revealed && mouse_y >= monitor_height - 10 && rested_ms is None ==>
            smart_hide_step_spec(auto_hide, smart_hide, dock_revealed, mouse_y, monitor_height, rested_ms, delay_ms)
            == SmartHideStep::StartTimer,
{
}

// ── Smart hide ───────────────────────────────────────────────────────────────

/// What one tick of smart hiding does while the dock is hidden.
#[derive(Debug, Clone, Copy, PartialEq, Eq, Structural)]
pub enum SmartHideStep {
    /// Smart hiding is off, or the dock is already shown.
    Idle,
    /// The cursor reached the bottom edge: start timing.
    StartTimer,
    /// The cursor rests at the bottom edge, not long enough yet.
    KeepWaiting,
    /// The cursor rested long enough: show the dock.
    Reveal,
    /// The cursor left the bottom edge: forget the timer.
    ResetTimer,
}

/// The step of smart hiding, given the switches, whether the dock is shown, the
/// cursor's height and the monitor's, how long the cursor has rested at the
/// bottom edge (none when it just arrived) and the delay before showing.
pub open spec fn smart_hide_step_spec(
    auto_hide: bool,
    smart_hide: bool,
    dock_revealed: bool,
    mouse_y: i32,
    monitor_height: i32,
    rested_ms: Option<u64>,
    delay_ms: u64,
) -> SmartHideStep {
    if !auto_hide || !smart_hide || dock_revealed {
        SmartHideStep::Idle
    } else if mouse_y >= monitor_height - 10 {
        match rested_ms {
            None => SmartHideStep::StartTimer,
            Some(t) => if t >= delay_ms { SmartHideStep::Reveal } else { SmartHideStep::KeepWaiting },
        }
    } else {
        SmartHideStep::ResetTimer
    }
}

/// Decides one tick of smart hiding (see [`smart_hide_step_spec`]): the dock
/// appears once the cursor has rested within 10 pixels of the bottom edge for
/// the configured delay.
pub fn smart_hide_step(
    auto_hide: bool,
    smart_hide: bool,
    dock_revealed: bool,
    mouse_y: i32,
    monitor_height: i32,
    rested_ms: Option<u64>,
    delay_ms: u64,
) -> (r: SmartHideStep)
    requires
        monitor_height - 10 >= i32::MIN,
    ensures
        r == smart_hide_step_spec(auto_hide, smart_hide, dock_revealed, mouse_y, monitor_height, rested_ms,
            delay_ms),
{
    if !auto_hide || !smart_hide || dock_revealed {
        return SmartHideStep::Idle;
    }
    if mouse_y >= monitor_height - 10 {
        match rested_ms {
            None => SmartHideStep::StartTimer,
            Some(t) => if t >= delay_ms { SmartHideStep::Reveal } else { SmartHideStep::KeepWaiting },
        }
    } else {
        SmartHideStep::ResetTimer
    }
}

} // verus!
