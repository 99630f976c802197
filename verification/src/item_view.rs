//! The item view's interaction state: row selection by keyboard and mouse,
//! double-click activation, context-menu requests and column sorting from
//! the table header. Geometry (which row lies under the cursor, how many
//! columns a grid shows) is measured by the host and handed in.

use vstd::prelude::*;
use crate::update::{Update, UPDATE_DRAW, UPDATE_LAYOUT};
use crate::selection::{
    strictly_sorted, normalized, ins, toggled, rows_between, normalize, toggle_row, row_range,
    lemma_normalized_props, lemma_without_first_set,
};

verus! {

/// How the items are laid out.
#[derive(Clone, Copy, PartialEq, Eq, Structural, Debug)]
pub enum ViewMode {
    List,
    Icon,
    Table,
    Compact,
}

/// The direction a column is sorted in.
#[derive(Clone, Copy, PartialEq, Eq, Structural, Debug)]
pub enum SortOrder {
    Ascending,
    Descending,
}

/// The keys the view reacts to.
#[derive(Clone, Copy, PartialEq, Eq, Structural, Debug)]
pub enum NavKey {
    ArrowDown,
    ArrowUp,
    ArrowLeft,
    ArrowRight,
    Enter,
    Space,
    Other,
}

/// One keyboard event of the frame.
#[derive(Clone, Copy, PartialEq, Eq, Structural, Debug)]
pub struct KeyInput {
    pub key: NavKey,
    pub pressed: bool,
    pub repeat: bool,
}

/// The modifier keys held during the frame.
#[derive(Clone, Copy, PartialEq, Eq, Structural, Debug)]
pub struct Modifiers {
    pub shift: bool,
    pub ctrl: bool,
}

/// The pointer over the view: the row under it, the table column whose
/// header it is over (table mode only), and which buttons are pressed.
#[derive(Clone, Copy, PartialEq, Eq, Structural, Debug)]
pub struct PointerInput {
    pub hovered: Option<usize>,
    pub header_column: Option<usize>,
    pub left_down: bool,
    pub right_down: bool,
}

/// What the view asks its host to do, in order: report a new selection,
/// activate a row, open the context menu for a row, sort the model.
pub enum ViewEvent {
    SelectionChanged(Vec<usize>),
    Activate(usize),
    ContextMenu(usize),
    Sort(usize, SortOrder),
}

/// A `ViewEvent` with its selection as a sequence.
pub enum ViewEventView {
    SelectionChanged(Seq<usize>),
    Activate(usize),
    ContextMenu(usize),
    Sort(usize, SortOrder),
}

impl View for ViewEvent {
    type V = ViewEventView;

    open spec fn view(&self) -> ViewEventView {
        match self {
            ViewEvent::SelectionChanged(v) => ViewEventView::SelectionChanged(v@),
            ViewEvent::Activate(r) => ViewEventView::Activate(*r),
            ViewEvent::ContextMenu(r) => ViewEventView::ContextMenu(*r),
            ViewEvent::Sort(c, o) => ViewEventView::Sort(*c, *o),
        }
    }
}

pub open spec fn events_view(v: Seq<ViewEvent>) -> Seq<ViewEventView> {
    v.map_values(|e: ViewEvent| e@)
}

/// The item view's state. `selection_tracked` says whether the selection is
/// held in a signal (the default): when it is not, setting it has no effect.
/// The same holds of `sort_tracked` for the sorted column (not a signal by
/// default). `last_click` holds the row and time, in milliseconds, of the
/// last click.
pub struct ItemView {
    pub view_mode: ViewMode,
    pub selected_rows: Vec<usize>,
    pub selection_tracked: bool,
    pub sorted_column: Option<(usize, SortOrder)>,
    pub sort_tracked: bool,
    pub last_click: Option<(usize, u64)>,
    pub last_selected_index: Option<usize>,
    pub was_left_down: bool,
    pub last_row_count: usize,
    pub hovered_row: Option<usize>,
}

/// The item view's state with its selection as a sequence.
pub struct ItemViewModel {
    pub view_mode: ViewMode,
    pub selected: Seq<usize>,
    pub selection_tracked: bool,
    pub sorted_column: Option<(usize, SortOrder)>,
    pub sort_tracked: bool,
    pub last_click: Option<(usize, u64)>,
    pub last_selected: Option<usize>,
    pub was_left_down: bool,
    pub last_row_count: usize,
    pub hovered_row: Option<usize>,
}

impl View for ItemView {
    type V = ItemViewModel;

    open spec fn view(&self) -> ItemViewModel {
        ItemViewModel {
            view_mode: self.view_mode,
            selected: self.selected_rows@,
            selection_tracked: self.selection_tracked,
            sorted_column: self.sorted_column,
            sort_tracked: self.sort_tracked,
            last_click: self.last_click,
            last_selected: self.last_selected_index,
            was_left_down: self.was_left_down,
            last_row_count: self.last_row_count,
            hovered_row: self.hovered_row,
        }
    }
}

/// Setting the selection: it takes `new` only when a signal holds it.
pub open spec fn set_selection(m: ItemViewModel, new: Seq<usize>) -> ItemViewModel {
    if m.selection_tracked { ItemViewModel { selected: new, ..m } } else { m }
}

/// Selecting row `n` by a move: with Shift it joins the selection.
pub open spec fn moved_to(m: ItemViewModel, n: usize, shift: bool) -> (ItemViewModel, Seq<ViewEventView>, bool) {
    let new = normalized(if shift { m.selected.push(n) } else { seq![n] });
    (ItemViewModel { last_selected: Some(n), ..set_selection(m, new) }, seq![ViewEventView::SelectionChanged(new)], true)
}

/// Selecting row `n` alone when nothing was selected.
pub open spec fn jumped_to(m: ItemViewModel, n: usize) -> (ItemViewModel, Seq<ViewEventView>, bool) {
    (ItemViewModel { last_selected: Some(n), ..set_selection(m, seq![n]) }, seq![ViewEventView::SelectionChanged(seq![n])], true)
}

pub open spec fn unchanged(m: ItemViewModel) -> (ItemViewModel, Seq<ViewEventView>, bool) {
    (m, Seq::empty(), false)
}

/// One key event: the arrows move the selection by a row or, up and down,
/// by a line of `columns` items; Enter activates the first selected row;
/// Space toggles the row selected last. Only fresh presses count.
pub open spec fn key_step(
    m: ItemViewModel,
    k: KeyInput,
    shift: bool,
    columns: usize,
    rows: usize,
) -> (ItemViewModel, Seq<ViewEventView>, bool) {
    let sel = m.selected;
    if !k.pressed || k.repeat {
        unchanged(m)
    } else {
        match k.key {
            NavKey::ArrowDown => if sel.len() > 0 {
                if sel.last() + columns < rows { moved_to(m, (sel.last() + columns) as usize, shift) } else { unchanged(m) }
            } else if rows > 0 {
                jumped_to(m, 0)
            } else {
                unchanged(m)
            },
            NavKey::ArrowUp => if sel.len() > 0 {
                if sel[0] >= columns { moved_to(m, (sel[0] - columns) as usize, shift) } else { unchanged(m) }
            } else if rows > 0 {
                jumped_to(m, (rows - 1) as usize)
            } else {
                unchanged(m)
            },
            NavKey::ArrowRight => if sel.len() > 0 && sel.last() + 1 < rows {
                moved_to(m, (sel.last() + 1) as usize, shift)
            } else {
                unchanged(m)
            },
            NavKey::ArrowLeft => if sel.len() > 0 && sel[0] > 0 {
                moved_to(m, (sel[0] - 1) as usize, shift)
            } else {
                unchanged(m)
            },
            NavKey::Enter => if sel.len() > 0 {
                (m, seq![ViewEventView::Activate(sel[0])], false)
            } else {
                unchanged(m)
            },
            NavKey::Space => match m.last_selected {
                Some(li) => {
                    let new = normalized(toggled(sel, li));
                    (set_selection(m, new), seq![ViewEventView::SelectionChanged(new)], true)
                },
                None => unchanged(m),
            },
            NavKey::Other => unchanged(m),
        }
    }
}

/// The key events of a frame, in order.
pub open spec fn keys_fold(
    m: ItemViewModel,
    keys: Seq<KeyInput>,
    shift: bool,
    columns: usize,
    rows: usize,
) -> (ItemViewModel, Seq<ViewEventView>, bool)
    decreases keys.len(),
{
    if keys.len() == 0 {
        unchanged(m)
    } else {
        let p = keys_fold(m, keys.drop_last(), shift, columns, rows);
        let s = key_step(p.0, keys.last(), shift, columns, rows);
        (s.0, p.1 + s.1, p.2 || s.2)
    }
}

/// The other direction.
pub open spec fn flipped(o: SortOrder) -> SortOrder {
    match o {
        SortOrder::Ascending => SortOrder::Descending,
        SortOrder::Descending => SortOrder::Ascending,
    }
}

/// The order a click on the header of column `c` sorts by: the other
/// direction when the view is sorted by `c`, else ascending.
pub open spec fn header_order(sorted: Option<(usize, SortOrder)>, c: usize) -> SortOrder {
    match sorted {
        Some((cc, o)) => if cc == c { flipped(o) } else { SortOrder::Ascending },
        None => SortOrder::Ascending,
    }
}

/// The milliseconds from `then` to `now`, 0 when `now` is earlier.
pub open spec fn elapsed(now: u64, then: u64) -> int {
    if now >= then { now - then } else { 0 }
}

/// A click on row `r` within half a second of the last click on the same row.
pub open spec fn is_double_click(last: Option<(usize, u64)>, r: usize, now: u64) -> bool {
    match last {
        Some((lr, lt)) => lr == r && elapsed(now, lt) < 500,
        None => false,
    }
}

/// The selection a left click on row `r` asks for, and the row it keeps as
/// the last selected: Ctrl toggles the row; Shift selects the range from
/// the last selected row (below `rows`); a plain click selects the row.
pub open spec fn click_selection(m: ItemViewModel, r: usize, mods: Modifiers, rows: usize) -> (Seq<usize>, Option<usize>) {
    if mods.ctrl {
        (toggled(m.selected, r), Some(r))
    } else if mods.shift {
        match m.last_selected {
            Some(li) => {
                let lo = if li < r { li } else { r };
                let hi = if li < r { r } else { li };
                (rows_between(lo as int, if hi < rows { hi + 1 } else { rows as int }), Some(li))
            },
            None => (seq![r], Some(r)),
        }
    } else {
        (seq![r], Some(r))
    }
}

/// A left click on row `r`: the selection, then activation on a double click.
pub open spec fn row_click(m: ItemViewModel, r: usize, mods: Modifiers, rows: usize, now: u64) -> (ItemViewModel, Seq<ViewEventView>, bool) {
    let c = click_selection(m, r, mods, rows);
    let new = normalized(c.0);
    let dbl = is_double_click(m.last_click, r, now);
    let m1 = ItemViewModel {
        last_selected: c.1,
        last_click: if dbl { None } else { Some((r, now)) },
        ..set_selection(m, new)
    };
    (m1, seq![ViewEventView::SelectionChanged(new)] + (if dbl { seq![ViewEventView::Activate(r)] } else { Seq::empty() }), true)
}

/// The pointer over the view: hover, a right press (which selects the row
/// under it when not selected and opens its context menu), and a fresh
/// left press on a header (sorting by that column) or on a row.
pub open spec fn pointer_step(
    m: ItemViewModel,
    p: PointerInput,
    mods: Modifiers,
    now: u64,
    column_count: usize,
    rows: usize,
) -> (ItemViewModel, Seq<ViewEventView>, bool) {
    let hover_changed = m.hovered_row != p.hovered;
    let left_click = p.left_down && !m.was_left_down;
    let m1 = ItemViewModel { hovered_row: p.hovered, was_left_down: p.left_down, ..m };
    let right: (ItemViewModel, Seq<ViewEventView>, bool) = if p.right_down {
        match p.hovered {
            Some(i) => if !m1.selected.contains(i) {
                (set_selection(m1, seq![i]), seq![ViewEventView::SelectionChanged(seq![i]), ViewEventView::ContextMenu(i)], true)
            } else {
                (m1, seq![ViewEventView::ContextMenu(i)], false)
            },
            None => unchanged(m1),
        }
    } else {
        unchanged(m1)
    };
    let m2 = right.0;
    let left: (ItemViewModel, Seq<ViewEventView>, bool) = if !left_click {
        unchanged(m2)
    } else {
        match p.header_column {
            Some(c) if c < column_count => {
                let o = header_order(m2.sorted_column, c);
                (
                    if m2.sort_tracked { ItemViewModel { sorted_column: Some((c, o)), ..m2 } } else { m2 },
                    seq![ViewEventView::Sort(c, o)],
                    true,
                )
            },
            _ => match p.hovered {
                Some(r) => if r < rows { row_click(m2, r, mods, rows, now) } else { unchanged(m2) },
                None => unchanged(m2),
            },
        }
    };
    (left.0, right.1 + left.1, hover_changed || right.2 || left.2)
}

/// One frame of the view: a change of the row count asks for a
/// new layout, then the keys, then the pointer when it is over the view.
pub open spec fn view_frame(
    m: ItemViewModel,
    rows: usize,
    keys: Seq<KeyInput>,
    mods: Modifiers,
    columns: usize,
    pointer: Option<PointerInput>,
    column_count: usize,
    now: u64,
) -> (ItemViewModel, Seq<ViewEventView>, u32) {
    let rc_changed = rows != m.last_row_count;
    let m0 = ItemViewModel { last_row_count: rows, ..m };
    let bits0: u32 = if rc_changed { UPDATE_LAYOUT | UPDATE_DRAW } else { 0 };
    let kf = keys_fold(m0, keys, mods.shift, columns, rows);
    match pointer {
        None => (kf.0, kf.1, bits0 | (if kf.2 { UPDATE_DRAW } else { 0u32 })),
        Some(p) => {
            let ps = pointer_step(kf.0, p, mods, now, column_count, rows);
            (ps.0, kf.1 + ps.1, bits0 | (if kf.2 || ps.2 { UPDATE_DRAW } else { 0u32 }))
        },
    }
}

fn single(n: usize) -> (r: Vec<usize>)
    ensures
        r@ == seq![n],
{
    let mut v: Vec<usize> = Vec::new();
    v.push(n);
    assert(v@ =~= seq![n]);
    v
}

impl ItemView {
    /// A list view with an empty selection held in a signal and no sorted column.
    pub fn new() -> (r: Self)
        ensures
            r.view_mode == ViewMode::List,
            r.selected_rows@.len() == 0,
            r.selection_tracked,
            r.sorted_column is None,
            !r.sort_tracked,
            r.last_click is None,
            r.last_selected_index is None,
            !r.was_left_down,
            r.last_row_count == 0,
            r.hovered_row is None,
    {
        ItemView {
            view_mode: ViewMode::List,
            selected_rows: Vec::new(),
            selection_tracked: true,
            sorted_column: None,
            sort_tracked: false,
            last_click: None,
            last_selected_index: None,
            was_left_down: false,
            last_row_count: 0,
            hovered_row: None,
        }
    }

    /// Sets the view mode.
    pub fn with_view_mode(self, mode: ViewMode) -> (r: Self)
        ensures
            r == (ItemView { view_mode: mode, ..self }),
    {
        ItemView { view_mode: mode, ..self }
    }

    /// Sets the selection and whether a signal holds it.
    pub fn with_selected_rows(self, rows: Vec<usize>, held: bool) -> (r: Self)
        ensures
            r == (ItemView { selected_rows: rows, selection_tracked: held, ..self }),
    {
        ItemView { selected_rows: rows, selection_tracked: held, ..self }
    }

    /// Sets the sorted column and whether a signal holds it.
    pub fn with_sorted_column(self, sorted: Option<(usize, SortOrder)>, held: bool) -> (r: Self)
        ensures
            r == (ItemView { sorted_column: sorted, sort_tracked: held, ..self }),
    {
        ItemView { sorted_column: sorted, sort_tracked: held, ..self }
    }

    /// The current selection.
    pub fn selected_rows(&self) -> (r: &Vec<usize>)
        ensures
            r@ == self.selected_rows@,
    {
        &self.selected_rows
    }

    fn set_selection(&mut self, new: &Vec<usize>)
        ensures
            final(self)@ == set_selection(old(self)@, new@),
    {
        if self.selection_tracked {
            self.selected_rows = new.clone();
            proof {
                assert(self.selected_rows@ =~= new@);
            }
        }
    }

    fn move_to(&mut self, n: usize, shift: bool, events: &mut Vec<ViewEvent>)
        ensures
            final(self)@ == moved_to(old(self)@, n, shift).0,
            events_view(final(events)@) == events_view(old(events)@) + moved_to(old(self)@, n, shift).1,
    {
        let mut cand = if shift { self.selected_rows.clone() } else { single(n) };
        if shift {
            assert(cand@ =~= self.selected_rows@);
            cand.push(n);
        }
        let new = normalize(&cand);
        self.set_selection(&new);
        self.last_selected_index = Some(n);
        events.push(ViewEvent::SelectionChanged(new));
        proof {
            assert(events_view(events@) =~= events_view(old(events)@) + moved_to(old(self)@, n, shift).1);
        }
    }

    fn jump_to(&mut self, n: usize, events: &mut Vec<ViewEvent>)
        ensures
            final(self)@ == jumped_to(old(self)@, n).0,
            events_view(final(events)@) == events_view(old(events)@) + jumped_to(old(self)@, n).1,
    {
        let new = single(n);
        self.set_selection(&new);
        self.last_selected_index = Some(n);
        events.push(ViewEvent::SelectionChanged(new));
        proof {
            assert(events_view(events@) =~= events_view(old(events)@) + jumped_to(old(self)@, n).1);
        }
    }

    /// Handles one key event; returns whether a redraw is due.
    pub fn handle_key(&mut self, k: KeyInput, shift: bool, columns: usize, rows: usize, events: &mut Vec<ViewEvent>) -> (r: bool)
        ensures
            final(self)@ == key_step(old(self)@, k, shift, columns, rows).0,
            events_view(final(events)@) == events_view(old(events)@) + key_step(old(self)@, k, shift, columns, rows).1,
            r == key_step(old(self)@, k, shift, columns, rows).2,
    {
        proof {
            assert(events_view(events@) + Seq::<ViewEventView>::empty() =~= events_view(events@));
        }
        if !k.pressed || k.repeat {
            return false;
        }
        let len = self.selected_rows.len();
        match k.key {
            NavKey::ArrowDown => {
                if len > 0 {
                    let l = self.selected_rows[len - 1];
                    if l < rows && columns < rows - l {
                        self.move_to(l + columns, shift, events);
                        true
                    } else {
                        false
                    }
                } else if rows > 0 {
                    self.jump_to(0, events);
                    true
                } else {
                    false
                }
            },
            NavKey::ArrowUp => {
                if len > 0 {
                    let f = self.selected_rows[0];
                    if f >= columns {
                        self.move_to(f - columns, shift, events);
                        true
                    } else {
                        false
                    }
                } else if rows > 0 {
                    self.jump_to(rows - 1, events);
                    true
                } else {
                    false
                }
            },
            NavKey::ArrowRight => {
                if len > 0 && self.selected_rows[len - 1] < rows && 1 < rows - self.selected_rows[len - 1] {
                    let n = self.selected_rows[len - 1] + 1;
                    self.move_to(n, shift, events);
                    true
                } else {
                    false
                }
            },
            NavKey::ArrowLeft => {
                if len > 0 && self.selected_rows[0] > 0 {
                    let n = self.selected_rows[0] - 1;
                    self.move_to(n, shift, events);
                    true
                } else {
                    false
                }
            },
            NavKey::Enter => {
                if len > 0 {
                    events.push(ViewEvent::Activate(self.selected_rows[0]));
                    proof {
                        assert(events_view(events@) =~= events_view(old(events)@) + key_step(old(self)@, k, shift, columns, rows).1);
                    }
                }
                false
            },
            NavKey::Space => {
                match self.last_selected_index {
                    Some(li) => {
                        let t = toggle_row(&self.selected_rows, li);
                        let new = normalize(&t);
                        self.set_selection(&new);
                        events.push(ViewEvent::SelectionChanged(new));
                        proof {
                            assert(events_view(events@) =~= events_view(old(events)@) + key_step(old(self)@, k, shift, columns, rows).1);
                        }
                        true
                    },
                    None => false,
                }
            },
            NavKey::Other => false,
        }
    }

    /// A left click on row `r` (below `rows`).
    fn click_row(&mut self, r: usize, mods: Modifiers, rows: usize, now: u64, events: &mut Vec<ViewEvent>)
        ensures
            final(self)@ == row_click(old(self)@, r, mods, rows, now).0,
            events_view(final(events)@) == events_view(old(events)@) + row_click(old(self)@, r, mods, rows, now).1,
    {
        let ghost m = self@;
        let cand: Vec<usize>;
        let last: Option<usize>;
        if mods.ctrl {
            cand = toggle_row(&self.selected_rows, r);
            last = Some(r);
        } else if mods.shift {
            match self.last_selected_index {
                Some(li) => {
                    let lo = if li < r { li } else { r };
                    let hi = if li < r { r } else { li };
                    cand = row_range(lo, hi, rows);
                    last = Some(li);
                },
                None => {
                    cand = single(r);
                    last = Some(r);
                },
            }
        } else {
            cand = single(r);
            last = Some(r);
        }
        assert(cand@ == click_selection(m, r, mods, rows).0);
        let new = normalize(&cand);
        self.set_selection(&new);
        self.last_selected_index = last;
        let dbl = match self.last_click {
            Some((lr, lt)) => lr == r && (if now >= lt { now - lt } else { 0 }) < 500,
            None => false,
        };
        events.push(ViewEvent::SelectionChanged(new));
        if dbl {
            events.push(ViewEvent::Activate(r));
            self.last_click = None;
        } else {
            self.last_click = Some((r, now));
        }
        proof {
            assert(events_view(events@) =~= events_view(old(events)@) + row_click(m, r, mods, rows, now).1);
        }
    }

    /// Handles the pointer over the view; returns whether a redraw is due.
    pub fn handle_pointer(
        &mut self,
        p: PointerInput,
        mods: Modifiers,
        now: u64,
        column_count: usize,
        rows: usize,
        events: &mut Vec<ViewEvent>,
    ) -> (r: bool)
        ensures
            final(self)@ == pointer_step(old(self)@, p, mods, now, column_count, rows).0,
            events_view(final(events)@) == events_view(old(events)@) + pointer_step(old(self)@, p, mods, now, column_count, rows).1,
            r == pointer_step(old(self)@, p, mods, now, column_count, rows).2,
    {
        let ghost m = self@;
        let ghost e0 = events_view(events@);
        let mut draw = false;
        if self.hovered_row != p.hovered {
            self.hovered_row = p.hovered;
            draw = true;
        }
        let left_click = p.left_down && !self.was_left_down;
        self.was_left_down = p.left_down;
        let ghost m1 = self@;
        assert(m1 == ItemViewModel { hovered_row: p.hovered, was_left_down: p.left_down, ..m });
        if p.right_down {
            match p.hovered {
                Some(i) => {
                    let mut contains = false;
                    let mut k: usize = 0;
                    while k < self.selected_rows.len()
                        invariant
                            k <= self.selected_rows@.len(),
                            contains == (exists|j: int| 0 <= j < k && self.selected_rows@[j] == i),
                        decreases self.selected_rows@.len() - k,
                    {
                        if self.selected_rows[k] == i {
                            contains = true;
                        }
                        k = k + 1;
                    }
                    assert(contains == m1.selected.contains(i));
                    if !contains {
                        let one = single(i);
                        self.set_selection(&one);
                        events.push(ViewEvent::SelectionChanged(one));
                        draw = true;
                    }
                    events.push(ViewEvent::ContextMenu(i));
                },
                None => {},
            }
        }
        let ghost right = if p.right_down {
            match p.hovered {
                Some(i) => if !m1.selected.contains(i) {
                    (set_selection(m1, seq![i]), seq![ViewEventView::SelectionChanged(seq![i]), ViewEventView::ContextMenu(i)], true)
                } else {
                    (m1, seq![ViewEventView::ContextMenu(i)], false)
                },
                None => unchanged(m1),
            }
        } else {
            unchanged(m1)
        };
        assert(self@ == right.0);
        assert(events_view(events@) =~= e0 + right.1);
        let ghost e1 = events_view(events@);
        if left_click {
            match p.header_column {
                Some(c) if c < column_count => {
                    let o = match self.sorted_column {
                        Some((cc, co)) => if cc == c {
                            match co {
                                SortOrder::Ascending => SortOrder::Descending,
                                SortOrder::Descending => SortOrder::Ascending,
                            }
                        } else {
                            SortOrder::Ascending
                        },
                        None => SortOrder::Ascending,
                    };
                    if self.sort_tracked {
                        self.sorted_column = Some((c, o));
                    }
                    events.push(ViewEvent::Sort(c, o));
                    assert(events_view(events@) =~= e1 + seq![ViewEventView::Sort(c, o)]);
                    assert(events_view(events@) =~= e0 + (right.1 + seq![ViewEventView::Sort(c, o)]));
                    return true;
                },
                _ => {
                    match p.hovered {
                        Some(r) => {
                            if r < rows {
                                self.click_row(r, mods, rows, now, events);
                                assert(events_view(events@) =~= e0 + (right.1 + row_click(right.0, r, mods, rows, now).1));
                                return true;
                            }
                        },
                        None => {},
                    }
                },
            }
        }
        assert(events_view(events@) =~= e0 + (right.1 + Seq::<ViewEventView>::empty()));
        draw
    }

    /// One frame: `rows` items in the model, the frame's keys and modifiers,
    /// `columns` items per line, the pointer when it is over the view, the
    /// model's `column_count` and the time `now` in milliseconds. Returns the
    /// update requests and the events for the host, in order.
    pub fn update(
        &mut self,
        rows: usize,
        keys: &Vec<KeyInput>,
        mods: Modifiers,
        columns: usize,
        pointer: Option<PointerInput>,
        column_count: usize,
        now: u64,
    ) -> (r: (Update, Vec<ViewEvent>))
        ensures
            final(self)@ == view_frame(old(self)@, rows, keys@, mods, columns, pointer, column_count, now).0,
            events_view(r.1@) == view_frame(old(self)@, rows, keys@, mods, columns, pointer, column_count, now).1,
            r.0.bits == view_frame(old(self)@, rows, keys@, mods, columns, pointer, column_count, now).2,
    {
        let ghost m = self@;
        let rc_changed = rows != self.last_row_count;
        self.last_row_count = rows;
        let bits0: u32 = if rc_changed { UPDATE_LAYOUT | UPDATE_DRAW } else { 0 };
        let ghost m0 = self@;
        let mut events: Vec<ViewEvent> = Vec::new();
        let mut draw = false;
        let mut i: usize = 0;
        assert(events_view(events@) =~= Seq::<ViewEventView>::empty());
        while i < keys.len()
            invariant
                i <= keys@.len(),
                self@ == keys_fold(m0, keys@.take(i as int), mods.shift, columns, rows).0,
                events_view(events@) == keys_fold(m0, keys@.take(i as int), mods.shift, columns, rows).1,
                draw == keys_fold(m0, keys@.take(i as int), mods.shift, columns, rows).2,
            decreases keys@.len() - i,
        {
            proof {
                assert(keys@.take(i + 1).drop_last() =~= keys@.take(i as int));
            }
            let d = self.handle_key(keys[i], mods.shift, columns, rows, &mut events);
            draw = draw || d;
            i = i + 1;
        }
        proof {
            assert(keys@.take(keys@.len() as int) =~= keys@);
        }
        match pointer {
            None => {
                (Update { bits: bits0 | (if draw { UPDATE_DRAW } else { 0u32 }) }, events)
            },
            Some(p) => {
                let d = self.handle_pointer(p, mods, now, column_count, rows, &mut events);
                (Update { bits: bits0 | (if draw || d { UPDATE_DRAW } else { 0u32 }) }, events)
            },
        }
    }
}


proof fn lemma_key_step_sorted(m: ItemViewModel, k: KeyInput, shift: bool, columns: usize, rows: usize)
    requires
        strictly_sorted(m.selected),
    ensures
        strictly_sorted(key_step(m, k, shift, columns, rows).0.selected),
{
    let sel = m.selected;
    if sel.len() > 0 {
        lemma_normalized_props(sel.push((sel.last() + columns) as usize));
        lemma_normalized_props(sel.push((sel[0] - columns) as usize));
        lemma_normalized_props(sel.push((sel.last() + 1) as usize));
        lemma_normalized_props(sel.push((sel[0] - 1) as usize));
        lemma_normalized_props(seq![(sel.last() + columns) as usize]);
        lemma_normalized_props(seq![(sel[0] - columns) as usize]);
        lemma_normalized_props(seq![(sel.last() + 1) as usize]);
        lemma_normalized_props(seq![(sel[0] - 1) as usize]);
    }
    match m.last_selected {
        Some(li) => lemma_normalized_props(toggled(sel, li)),
        None => {},
    }
}

proof fn lemma_keys_fold_sorted(m: ItemViewModel, keys: Seq<KeyInput>, shift: bool, columns: usize, rows: usize)
    requires
        strictly_sorted(m.selected),
    ensures
        strictly_sorted(keys_fold(m, keys, shift, columns, rows).0.selected),
    decreases keys.len(),
{
    if keys.len() > 0 {
        lemma_keys_fold_sorted(m, keys.drop_last(), shift, columns, rows);
        lemma_key_step_sorted(keys_fold(m, keys.drop_last(), shift, columns, rows).0, keys.last(), shift, columns, rows);
    }
}

proof fn lemma_pointer_step_sorted(m: ItemViewModel, p: PointerInput, mods: Modifiers, now: u64, column_count: usize, rows: usize)
    requires
        strictly_sorted(m.selected),
    ensures
        strictly_sorted(pointer_step(m, p, mods, now, column_count, rows).0.selected),
{
    match p.hovered {
        Some(r) => {
            lemma_normalized_props(toggled(m.selected, r));
            lemma_normalized_props(seq![r]);
            let lo = if m.last_selected is Some && m.last_selected->0 < r { m.last_selected->0 } else { r };
            let hi = if m.last_selected is Some && m.last_selected->0 < r { r } else if m.last_selected is Some { m.last_selected->0 } else { r };
            lemma_normalized_props(rows_between(lo as int, if hi < rows { hi + 1 } else { rows as int }));
        },
        None => {},
    }
}

/// The selection stays sorted and free of duplicates: a frame that starts
/// from such a selection ends with one.
pub proof fn law_selection_stays_sorted(
    m: ItemViewModel,
    rows: usize,
    keys: Seq<KeyInput>,
    mods: Modifiers,
    columns: usize,
    pointer: Option<PointerInput>,
    column_count: usize,
    now: u64,
)
    requires
        strictly_sorted(m.selected),
    ensures
        strictly_sorted(view_frame(m, rows, keys, mods, columns, pointer, column_count, now).0.selected),
{
    let m0 = ItemViewModel { last_row_count: rows, ..m };
    lemma_keys_fold_sorted(m0, keys, mods.shift, columns, rows);
    match pointer {
        Some(p) => lemma_pointer_step_sorted(keys_fold(m0, keys, mods.shift, columns, rows).0, p, mods, now, column_count, rows),
        None => {},
    }
}

/// A Ctrl-click on a row flips whether it is selected and leaves the other
/// rows as they were (with the selection held in a signal, and sorted
/// without duplicates before the click).
pub proof fn law_ctrl_click_toggles(m: ItemViewModel, r: usize, mods: Modifiers, rows: usize, now: u64)
    requires
        m.selection_tracked,
        strictly_sorted(m.selected),
        mods.ctrl,
    ensures
        row_click(m, r, mods, rows, now).0.selected.to_set()
            == (if m.selected.contains(r) { m.selected.to_set().remove(r) } else { m.selected.to_set().insert(r) }),
{
    lemma_normalized_props(toggled(m.selected, r));
    if m.selected.contains(r) {
        lemma_without_first_set(m.selected, r);
    } else {
        assert(m.selected.push(r).to_set() =~= m.selected.to_set().insert(r)) by {
            let t = m.selected.push(r);
            assert forall|e: usize| #[trigger] t.to_set().contains(e) == m.selected.to_set().insert(r).contains(e) by {
                if t.contains(e) {
                    let k = choose|k: int| 0 <= k < t.len() && t[k] == e;
                    if k < m.selected.len() {
                        assert(m.selected[k] == e);
                    }
                }
                if m.selected.contains(e) {
                    let k = choose|k: int| 0 <= k < m.selected.len() && m.selected[k] == e;
                    assert(t[k] == e);
                }
                if e == r {
                    assert(t[m.selected.len() as int] == e);
                }
            }
        }
    }
}

/// A second click on the same row within half a second activates it, and
/// the next click starts over.
pub proof fn law_double_click_activates(m: ItemViewModel, r: usize, t: u64, mods: Modifiers, rows: usize, now: u64)
    requires
        m.last_click == Some((r, t)),
        t <= now < t + 500,
    ensures
        row_click(m, r, mods, rows, now).1.last() == ViewEventView::Activate(r),
        row_click(m, r, mods, rows, now).0.last_click is None,
{
}

/// Clicking the same column header twice sorts it one way and then the
/// other (with the sorted column held in a signal).
pub proof fn law_header_click_flips(m: ItemViewModel, p: PointerInput, c: usize, mods: Modifiers, now: u64, column_count: usize, rows: usize)
    requires
        m.sort_tracked,
        !m.was_left_down,
        p.left_down,
        p.header_column == Some(c),
        c < column_count,
    ensures
        ({
            let first = pointer_step(m, p, mods, now, column_count, rows);
            let second = pointer_step(ItemViewModel { was_left_down: false, ..first.0 }, p, mods, now, column_count, rows);
            &&& first.0.sorted_column == Some((c, header_order(m.sorted_column, c)))
            &&& second.0.sorted_column == Some((c, flipped(header_order(m.sorted_column, c))))
        }),
{
}

/// Every selection that the events report is sorted without duplicates.
pub open spec fn reported_sorted(evs: Seq<ViewEventView>) -> bool {
    forall|i: int| 0 <= i < evs.len() && (#[trigger] evs[i]) is SelectionChanged ==>
        strictly_sorted(evs[i]->SelectionChanged_0)
}

/// The selection the events report last, or `init` when they report none.
pub open spec fn last_reported(evs: Seq<ViewEventView>, init: Seq<usize>) -> Seq<usize>
    decreases evs.len(),
{
    if evs.len() == 0 {
        init
    } else {
        match evs.last() {
            ViewEventView::SelectionChanged(s) => s,
            _ => last_reported(evs.drop_last(), init),
        }
    }
}

/// A step keeps the selection paired with its reports: every reported
/// selection is sorted, and the stored selection is the one reported last
/// (when a signal holds it; otherwise it stays as it was).
pub open spec fn step_pairs(m: ItemViewModel, r: (ItemViewModel, Seq<ViewEventView>, bool)) -> bool {
    &&& reported_sorted(r.1)
    &&& r.0.selection_tracked == m.selection_tracked
    &&& r.0.selected == (if m.selection_tracked { last_reported(r.1, m.selected) } else { m.selected })
}

proof fn lemma_last_reported_concat(a: Seq<ViewEventView>, b: Seq<ViewEventView>, init: Seq<usize>)
    ensures
        last_reported(a + b, init) == last_reported(b, last_reported(a, init)),
    decreases b.len(),
{
    if b.len() == 0 {
        assert(a + b =~= a);
    } else {
        assert((a + b).drop_last() =~= a + b.drop_last());
        assert((a + b).last() == b.last());
        lemma_last_reported_concat(a, b.drop_last(), init);
    }
}

proof fn lemma_reported_sorted_concat(a: Seq<ViewEventView>, b: Seq<ViewEventView>)
    requires
        reported_sorted(a),
        reported_sorted(b),
    ensures
        reported_sorted(a + b),
{
    assert forall|i: int| 0 <= i < (a + b).len() && (#[trigger] (a + b)[i]) is SelectionChanged implies
        strictly_sorted((a + b)[i]->SelectionChanged_0) by {
        if i >= a.len() {
            assert((a + b)[i] == b[i - a.len()]);
        }
    }
}

proof fn lemma_steps_pair(m: ItemViewModel, p: (ItemViewModel, Seq<ViewEventView>, bool), q: (ItemViewModel, Seq<ViewEventView>, bool))
    requires
        step_pairs(m, p),
        step_pairs(p.0, q),
    ensures
        step_pairs(m, (q.0, p.1 + q.1, p.2 || q.2)),
{
    lemma_reported_sorted_concat(p.1, q.1);
    lemma_last_reported_concat(p.1, q.1, m.selected);
}

proof fn lemma_unchanged_pairs(m: ItemViewModel)
    ensures
        step_pairs(m, unchanged(m)),
{
}

proof fn lemma_key_step_pairs(m: ItemViewModel, k: KeyInput, shift: bool, columns: usize, rows: usize)
    ensures
        step_pairs(m, key_step(m, k, shift, columns, rows)),
{
    let sel = m.selected;
    let r = key_step(m, k, shift, columns, rows);
    if sel.len() > 0 {
        lemma_normalized_props(sel.push((sel.last() + columns) as usize));
        lemma_normalized_props(sel.push((sel[0] - columns) as usize));
        lemma_normalized_props(sel.push((sel.last() + 1) as usize));
        lemma_normalized_props(sel.push((sel[0] - 1) as usize));
        lemma_normalized_props(seq![(sel.last() + columns) as usize]);
        lemma_normalized_props(seq![(sel[0] - columns) as usize]);
        lemma_normalized_props(seq![(sel.last() + 1) as usize]);
        lemma_normalized_props(seq![(sel[0] - 1) as usize]);
    }
    match m.last_selected {
        Some(li) => lemma_normalized_props(toggled(sel, li)),
        None => {},
    }
    assert(strictly_sorted(seq![0usize]));
    if rows > 0 {
        assert(strictly_sorted(seq![(rows - 1) as usize]));
    }
    reveal_with_fuel(last_reported, 2);
    assert(reported_sorted(r.1)) by {
        assert forall|i: int| 0 <= i < r.1.len() && (#[trigger] r.1[i]) is SelectionChanged implies
            strictly_sorted(r.1[i]->SelectionChanged_0) by {
            assert(r.1.len() == 1 && i == 0);
        }
    }
    if r.1.len() == 1 {
        assert(r.1.drop_last() =~= Seq::<ViewEventView>::empty());
    }
}

proof fn lemma_keys_fold_pairs(m: ItemViewModel, keys: Seq<KeyInput>, shift: bool, columns: usize, rows: usize)
    ensures
        step_pairs(m, keys_fold(m, keys, shift, columns, rows)),
    decreases keys.len(),
{
    if keys.len() == 0 {
        lemma_unchanged_pairs(m);
    } else {
        let p = keys_fold(m, keys.drop_last(), shift, columns, rows);
        lemma_keys_fold_pairs(m, keys.drop_last(), shift, columns, rows);
        lemma_key_step_pairs(p.0, keys.last(), shift, columns, rows);
        lemma_steps_pair(m, p, key_step(p.0, keys.last(), shift, columns, rows));
    }
}

proof fn lemma_pointer_step_pairs(m: ItemViewModel, p: PointerInput, mods: Modifiers, now: u64, column_count: usize, rows: usize)
    ensures
        step_pairs(m, pointer_step(m, p, mods, now, column_count, rows)),
{
    let m1 = ItemViewModel { hovered_row: p.hovered, was_left_down: p.left_down, ..m };
    let right: (ItemViewModel, Seq<ViewEventView>, bool) = if p.right_down {
        match p.hovered {
            Some(i) => if !m1.selected.contains(i) {
                (set_selection(m1, seq![i]), seq![ViewEventView::SelectionChanged(seq![i]), ViewEventView::ContextMenu(i)], true)
            } else {
                (m1, seq![ViewEventView::ContextMenu(i)], false)
            },
            None => unchanged(m1),
        }
    } else {
        unchanged(m1)
    };
    reveal_with_fuel(last_reported, 3);
    assert(step_pairs(m, right)) by {
        match p.hovered {
            Some(i) => {
                assert(strictly_sorted(seq![i]));
                let e2 = seq![ViewEventView::SelectionChanged(seq![i]), ViewEventView::ContextMenu(i)];
                assert(e2.drop_last() =~= seq![ViewEventView::SelectionChanged(seq![i])]);
                assert(e2.drop_last().drop_last() =~= Seq::<ViewEventView>::empty());
                assert(seq![ViewEventView::ContextMenu(i)].drop_last() =~= Seq::<ViewEventView>::empty());
            },
            None => {},
        }
    }
    let m2 = right.0;
    let left_click = p.left_down && !m.was_left_down;
    let left: (ItemViewModel, Seq<ViewEventView>, bool) = if !left_click {
        unchanged(m2)
    } else {
        match p.header_column {
            Some(c) if c < column_count => {
                let o = header_order(m2.sorted_column, c);
                (
                    if m2.sort_tracked { ItemViewModel { sorted_column: Some((c, o)), ..m2 } } else { m2 },
                    seq![ViewEventView::Sort(c, o)],
                    true,
                )
            },
            _ => match p.hovered {
                Some(r) => if r < rows { row_click(m2, r, mods, rows, now) } else { unchanged(m2) },
                None => unchanged(m2),
            },
        }
    };
    assert(step_pairs(m2, left)) by {
        match p.hovered {
            Some(r) => {
                let c = click_selection(m2, r, mods, rows);
                lemma_normalized_props(c.0);
                let new = normalized(c.0);
                let e1 = seq![ViewEventView::SelectionChanged(new)];
                let e2 = seq![ViewEventView::SelectionChanged(new), ViewEventView::Activate(r)];
                assert(e2.drop_last() =~= e1);
                assert(e1.drop_last() =~= Seq::<ViewEventView>::empty());
                assert(e1 + Seq::<ViewEventView>::empty() =~= e1);
                assert(e1 + seq![ViewEventView::Activate(r)] =~= e2);
            },
            None => {},
        }
        match p.header_column {
            Some(c) => {
                let o = header_order(m2.sorted_column, c);
                assert(seq![ViewEventView::Sort(c, o)].drop_last() =~= Seq::<ViewEventView>::empty());
            },
            None => {},
        }
    }
    lemma_steps_pair(m, right, left);
    let ps = pointer_step(m, p, mods, now, column_count, rows);
    assert(ps.1 == right.1 + left.1);
}

/// Every selection a frame reports is sorted without duplicates, whatever
/// the selection was before, and the selection the view holds after the
/// frame is the one it reported last (the one it held, when it reported
/// none): each change of the stored selection comes with its report. A
/// view whose selection is not held in a signal keeps it.
pub proof fn law_selection_reports_pair_with_stores(
    m: ItemViewModel,
    rows: usize,
    keys: Seq<KeyInput>,
    mods: Modifiers,
    columns: usize,
    pointer: Option<PointerInput>,
    column_count: usize,
    now: u64,
)
    ensures
        ({
            let f = view_frame(m, rows, keys, mods, columns, pointer, column_count, now);
            &&& reported_sorted(f.1)
            &&& f.0.selected == (if m.selection_tracked { last_reported(f.1, m.selected) } else { m.selected })
        }),
{
    let m0 = ItemViewModel { last_row_count: rows, ..m };
    lemma_keys_fold_pairs(m0, keys, mods.shift, columns, rows);
    let kf = keys_fold(m0, keys, mods.shift, columns, rows);
    match pointer {
        Some(p) => {
            lemma_pointer_step_pairs(kf.0, p, mods, now, column_count, rows);
            lemma_steps_pair(m0, kf, pointer_step(kf.0, p, mods, now, column_count, rows));
        },
        None => {},
    }
}

/// Whether a key is one of the four arrows.
pub open spec fn is_arrow(k: NavKey) -> bool {
    k == NavKey::ArrowUp || k == NavKey::ArrowDown || k == NavKey::ArrowLeft || k == NavKey::ArrowRight
}

/// A fresh arrow press with Shift held extends the selection: when it moves
/// to row `n` (up or down by a line of `columns`, left or right by one, or
/// to the first or last row when nothing was selected), the new selection is
/// the old one with `n` added, sorted without duplicates, and it is
/// reported. Without Shift the selection becomes `n` alone. A press that
/// cannot move changes nothing and reports nothing.
pub proof fn law_arrow_moves_and_shift_extends(m: ItemViewModel, k: KeyInput, shift: bool, columns: usize, rows: usize)
    requires
        k.pressed,
        !k.repeat,
        is_arrow(k.key),
        m.selection_tracked,
    ensures
        ({
            let r = key_step(m, k, shift, columns, rows);
            let sel = m.selected;
            &&& r.1.len() == 0 ==> r.0 == m
            &&& r.1.len() > 0 ==> {
                &&& r.0.last_selected is Some
                &&& r.1 == seq![ViewEventView::SelectionChanged(r.0.selected)]
                &&& strictly_sorted(r.0.selected)
                &&& shift ==> r.0.selected.to_set() == sel.to_set().insert(r.0.last_selected->0)
                &&& !shift ==> r.0.selected == seq![r.0.last_selected->0]
            }
            &&& (k.key == NavKey::ArrowUp && sel.len() > 0 && sel[0] >= columns) ==>
                r.1.len() > 0 && r.0.last_selected == Some((sel[0] - columns) as usize)
            &&& (k.key == NavKey::ArrowDown && sel.len() > 0 && sel.last() + columns < rows) ==>
                r.1.len() > 0 && r.0.last_selected == Some((sel.last() + columns) as usize)
            &&& (k.key == NavKey::ArrowLeft && sel.len() > 0 && sel[0] > 0) ==>
                r.1.len() > 0 && r.0.last_selected == Some((sel[0] - 1) as usize)
            &&& (k.key == NavKey::ArrowRight && sel.len() > 0 && sel.last() + 1 < rows) ==>
                r.1.len() > 0 && r.0.last_selected == Some((sel.last() + 1) as usize)
            &&& (k.key == NavKey::ArrowDown && sel.len() == 0 && rows > 0) ==>
                r.1.len() > 0 && r.0.last_selected == Some(0usize)
            &&& (k.key == NavKey::ArrowUp && sel.len() == 0 && rows > 0) ==>
                r.1.len() > 0 && r.0.last_selected == Some((rows - 1) as usize)
        }),
{
    let sel = m.selected;
    let r = key_step(m, k, shift, columns, rows);
    if r.1.len() > 0 {
        let n = r.0.last_selected->0;
        assert(seq![n].drop_last() =~= Seq::<usize>::empty());
        assert(seq![n].last() == n);
        reveal_with_fuel(normalized, 2);
        assert(normalized(Seq::<usize>::empty()) == Seq::<usize>::empty());
        assert(normalized(seq![n]) == ins(Seq::<usize>::empty(), n));
        assert(normalized(seq![n]) == seq![n]);
        if sel.len() > 0 {
            lemma_normalized_props(sel.push(n));
            lemma_push_to_set(sel, n);
        } else {
            assert(strictly_sorted(seq![n]));
            assert(seq![n].to_set() =~= sel.to_set().insert(n)) by {
                assert forall|e: usize| #[trigger] seq![n].to_set().contains(e) == sel.to_set().insert(n).contains(e) by {
                    if e == n {
                        assert(seq![n][0] == n);
                    }
                }
            }
        }
    }
}

proof fn lemma_push_to_set(s: Seq<usize>, n: usize)
    ensures
        s.push(n).to_set() == s.to_set().insert(n),
{
    let t = s.push(n);
    assert forall|e: usize| #[trigger] t.to_set().contains(e) == s.to_set().insert(n).contains(e) by {
        if t.contains(e) {
            let k = choose|k: int| 0 <= k < t.len() && t[k] == e;
            if k < s.len() {
                assert(s[k] == e);
            }
        }
        if s.contains(e) {
            let k = choose|k: int| 0 <= k < s.len() && s[k] == e;
            assert(t[k] == e);
        }
        if e == n {
            assert(t[s.len() as int] == e);
        }
    }
    assert(t.to_set() =~= s.to_set().insert(n));
}

/// A right press on a row opens its context menu. On a selected row the
/// selection stays as it was; on another row the selection becomes that row
/// alone, reported before the menu is asked for.
pub proof fn law_right_press_opens_context_menu(m: ItemViewModel, p: PointerInput, i: usize, mods: Modifiers, now: u64, column_count: usize, rows: usize)
    requires
        m.selection_tracked,
        p.right_down,
        !p.left_down,
        p.hovered == Some(i),
    ensures
        ({
            let r = pointer_step(m, p, mods, now, column_count, rows);
            &&& r.1.last() == ViewEventView::ContextMenu(i)
            &&& r.0.selected.contains(i)
            &&& m.selected.contains(i) ==> r.0.selected == m.selected && r.1 == seq![ViewEventView::ContextMenu(i)]
            &&& !m.selected.contains(i) ==> r.0.selected == seq![i]
                && r.1 == seq![ViewEventView::SelectionChanged(seq![i]), ViewEventView::ContextMenu(i)]
        }),
{
    let r = pointer_step(m, p, mods, now, column_count, rows);
    assert(seq![i][0] == i);
    if m.selected.contains(i) {
        assert(seq![ViewEventView::ContextMenu(i)] + Seq::<ViewEventView>::empty() =~= seq![ViewEventView::ContextMenu(i)]);
    } else {
        assert(seq![ViewEventView::SelectionChanged(seq![i]), ViewEventView::ContextMenu(i)] + Seq::<ViewEventView>::empty()
            =~= seq![ViewEventView::SelectionChanged(seq![i]), ViewEventView::ContextMenu(i)]);
    }
}

} // verus!
