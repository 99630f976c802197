//! The file list's selection and navigation logic: clicks with Shift and
//! Ctrl, context-menu requests, double-click into folders, rubber-band
//! selection and the actions chosen from the context menu. Which entry lies
//! under the cursor, and which entries a rubber band covers, are measured by
//! the host and handed in.

use vstd::prelude::*;
use crate::update::{Update, UPDATE_DRAW, UPDATE_LAYOUT};
use crate::widget_input::{ButtonEvent, MouseButton, ElementState};
use crate::textutil::{str_eq, strings_view, names_contain, clone_strings};

verus! {

/// How the file list lays out its entries.
#[derive(Clone, Copy, PartialEq, Eq, Structural, Debug)]
pub enum FileListViewMode {
    /// Icon and text in rows.
    List,
    /// A grid of large icons with labels below.
    Icon,
    /// A grid of tiles: icon left, text right.
    Compact,
}

/// One directory entry: its path and whether it is a directory.
pub struct FileEntryInfo {
    pub path: String,
    pub is_dir: bool,
}

/// The file list's state.
pub struct FileList {
    pub current_path: String,
    pub entries: Vec<FileEntryInfo>,
    pub selected: Vec<String>,
    pub view_mode: FileListViewMode,
    pub icon_size: u32,
    pub anchor_index: Option<usize>,
    pub last_click_index: Option<usize>,
    pub last_click_ms: Option<u64>,
}

/// The file list's state with its paths as character sequences.
pub struct FileListModel {
    pub current_path: Seq<char>,
    pub entries: Seq<(Seq<char>, bool)>,
    pub selected: Seq<Seq<char>>,
    pub view_mode: FileListViewMode,
    pub icon_size: u32,
    pub anchor_index: Option<usize>,
    pub last_click_index: Option<usize>,
    pub last_click_ms: Option<u64>,
}

pub open spec fn entries_view(v: Seq<FileEntryInfo>) -> Seq<(Seq<char>, bool)> {
    v.map_values(|e: FileEntryInfo| (e.path@, e.is_dir))
}

/// The paths of the entries, in order.
pub open spec fn paths_of(v: Seq<(Seq<char>, bool)>) -> Seq<Seq<char>> {
    v.map_values(|e: (Seq<char>, bool)| e.0)
}

impl View for FileList {
    type V = FileListModel;

    open spec fn view(&self) -> FileListModel {
        FileListModel {
            current_path: self.current_path@,
            entries: entries_view(self.entries@),
            selected: strings_view(self.selected@),
            view_mode: self.view_mode,
            icon_size: self.icon_size,
            anchor_index: self.anchor_index,
            last_click_index: self.last_click_index,
            last_click_ms: self.last_click_ms,
        }
    }
}

/// What the file list asks its host to do.
pub enum FileListEvent {
    /// Show the context menu for the entry with this path, acting on these
    /// selected paths.
    ContextMenu(String, Vec<String>),
    /// Load this directory.
    Navigate(String),
    /// A rubber band starts at the cursor.
    BeginDrag,
}

pub enum FileListEventView {
    ContextMenu(Seq<char>, Seq<Seq<char>>),
    Navigate(Seq<char>),
    BeginDrag,
}

impl View for FileListEvent {
    type V = FileListEventView;

    open spec fn view(&self) -> FileListEventView {
        match self {
            FileListEvent::ContextMenu(t, s) => FileListEventView::ContextMenu(t@, strings_view(s@)),
            FileListEvent::Navigate(p) => FileListEventView::Navigate(p@),
            FileListEvent::BeginDrag => FileListEventView::BeginDrag,
        }
    }
}

pub open spec fn file_events_view(v: Seq<FileListEvent>) -> Seq<FileListEventView> {
    v.map_values(|e: FileListEvent| e@)
}

/// `acc` followed by the paths of `b` it does not hold yet, each once.
pub open spec fn add_new(acc: Seq<Seq<char>>, b: Seq<Seq<char>>) -> Seq<Seq<char>>
    decreases b.len(),
{
    if b.len() == 0 {
        acc
    } else {
        let p = add_new(acc, b.drop_last());
        if p.contains(b.last()) { p } else { p.push(b.last()) }
    }
}

/// `s` without any occurrence of `x`.
pub open spec fn without_all(s: Seq<Seq<char>>, x: Seq<char>) -> Seq<Seq<char>>
    decreases s.len(),
{
    if s.len() == 0 {
        s
    } else {
        let p = without_all(s.drop_last(), x);
        if s.last() == x { p } else { p.push(s.last()) }
    }
}

/// The paths from the anchor (the first entry when there is none) to entry
/// `i`, both included.
pub open spec fn range_of(m: FileListModel, i: usize) -> Seq<Seq<char>> {
    let a: usize = match m.anchor_index { Some(a) => a, None => 0 };
    let lo = if a < i { a } else { i };
    let hi = if a < i { i } else { a };
    paths_of(m.entries).subrange(lo as int, hi + 1)
}

/// A Shift-click on entry `i` can read its range: the anchor names an entry.
pub open spec fn range_readable(m: FileListModel, i: usize) -> bool {
    match m.anchor_index {
        Some(a) => a < m.entries.len(),
        None => true,
    }
}

pub open spec fn elapsed_ms(now: u64, then: u64) -> int {
    if now >= then { now - then } else { 0 }
}

/// One button event over entry `i`. A right press selects the entry when it
/// is not selected (added with Ctrl, alone without) and asks for its context
/// menu. A left press selects: the range (added to the selection with Ctrl)
/// when Shift is held, else the entry toggled with Ctrl or alone; a second
/// press on the same entry within half a second opens a directory.
pub open spec fn entry_press(
    m: FileListModel,
    i: usize,
    b: ButtonEvent,
    range: Option<Seq<Seq<char>>>,
    ctrl: bool,
    now: u64,
) -> (FileListModel, Seq<FileListEventView>, u32) {
    let tp = m.entries[i as int].0;
    if b.state == ElementState::Pressed && b.button == MouseButton::Right {
        let cur = m.selected;
        if !cur.contains(tp) {
            let n = if ctrl { cur.push(tp) } else { seq![tp] };
            (FileListModel { selected: n, ..m }, seq![FileListEventView::ContextMenu(tp, n)], UPDATE_DRAW)
        } else {
            (m, seq![FileListEventView::ContextMenu(tp, cur)], UPDATE_DRAW)
        }
    } else if b.state == ElementState::Pressed && b.button == MouseButton::Left {
        let sel = m.selected;
        let choice: (Seq<Seq<char>>, Option<usize>) = match range {
            Some(r) => (if ctrl { add_new(add_new(Seq::empty(), sel), r) } else { r }, m.anchor_index),
            None => if ctrl {
                (if sel.contains(tp) { without_all(sel, tp) } else { sel.push(tp) }, Some(i))
            } else {
                (seq![tp], Some(i))
            },
        };
        let dbl = match m.last_click_ms {
            Some(lt) => m.last_click_index == Some(i) && elapsed_ms(now, lt) < 500,
            None => false,
        };
        let nav = dbl && m.entries[i as int].1;
        let m1 = FileListModel {
            selected: if nav { Seq::empty() } else { choice.0 },
            current_path: if nav { tp } else { m.current_path },
            anchor_index: choice.1,
            last_click_ms: Some(now),
            last_click_index: Some(i),
            ..m
        };
        (m1, if nav { seq![FileListEventView::Navigate(tp)] } else { Seq::empty() }, if nav { UPDATE_DRAW | UPDATE_LAYOUT } else { UPDATE_DRAW })
    } else {
        (m, Seq::empty(), 0)
    }
}

pub open spec fn entry_presses(
    m: FileListModel,
    i: usize,
    buttons: Seq<ButtonEvent>,
    range: Option<Seq<Seq<char>>>,
    ctrl: bool,
    now: u64,
) -> (FileListModel, Seq<FileListEventView>, u32)
    decreases buttons.len(),
{
    if buttons.len() == 0 {
        (m, Seq::empty(), 0)
    } else {
        let p = entry_presses(m, i, buttons.drop_last(), range, ctrl, now);
        let s = entry_press(p.0, i, buttons.last(), range, ctrl, now);
        (s.0, p.1 + s.1, p.2 | s.2)
    }
}

/// Left presses on the empty area: each starts a rubber band and, without
/// Ctrl, clears the selection.
pub open spec fn empty_presses(m: FileListModel, buttons: Seq<ButtonEvent>, ctrl: bool) -> (FileListModel, Seq<FileListEventView>, u32)
    decreases buttons.len(),
{
    if buttons.len() == 0 {
        (m, Seq::empty(), 0)
    } else {
        let p = empty_presses(m, buttons.drop_last(), ctrl);
        let b = buttons.last();
        if b.state == ElementState::Pressed && b.button == MouseButton::Left {
            if ctrl {
                (p.0, p.1.push(FileListEventView::BeginDrag), p.2)
            } else {
                (FileListModel { selected: Seq::empty(), ..p.0 }, p.1.push(FileListEventView::BeginDrag), p.2 | UPDATE_DRAW)
            }
        } else {
            p
        }
    }
}

/// The clicks of one frame with the cursor over the list, `index` being the
/// entry under it.
pub open spec fn click_frame(
    m: FileListModel,
    index: Option<usize>,
    buttons: Seq<ButtonEvent>,
    shift: bool,
    ctrl: bool,
    now: u64,
) -> (FileListModel, Seq<FileListEventView>, u32) {
    match index {
        Some(i) => if i < m.entries.len() {
            entry_presses(m, i, buttons, if shift { Some(range_of(m, i)) } else { None }, ctrl, now)
        } else {
            empty_presses(m, buttons, ctrl)
        },
        None => empty_presses(m, buttons, ctrl),
    }
}

/// An action picked from the context menu.
pub struct PendingAction {
    pub paths: Vec<String>,
    pub app_id: Option<String>,
    pub properties: bool,
}

/// What the host does for a picked action.
pub enum PendingPlan {
    /// Open each path with this application.
    LaunchWith(String, Vec<String>),
    /// Show the properties of these paths.
    ShowProperties(Vec<String>),
    /// Load this directory.
    Navigate(String),
    /// Open each of these files with its default application.
    Launch(Vec<String>),
}

pub enum PendingPlanView {
    LaunchWith(Seq<char>, Seq<Seq<char>>),
    ShowProperties(Seq<Seq<char>>),
    Navigate(Seq<char>),
    Launch(Seq<Seq<char>>),
}

impl View for PendingPlan {
    type V = PendingPlanView;

    open spec fn view(&self) -> PendingPlanView {
        match self {
            PendingPlan::LaunchWith(a, p) => PendingPlanView::LaunchWith(a@, strings_view(p@)),
            PendingPlan::ShowProperties(p) => PendingPlanView::ShowProperties(strings_view(p@)),
            PendingPlan::Navigate(p) => PendingPlanView::Navigate(p@),
            PendingPlan::Launch(p) => PendingPlanView::Launch(strings_view(p@)),
        }
    }
}

/// The paths that are not directories, in order.
pub open spec fn files_only(paths: Seq<Seq<char>>, is_dir: Seq<bool>) -> Seq<Seq<char>>
    decreases paths.len(),
{
    if paths.len() == 0 || is_dir.len() < paths.len() {
        Seq::empty()
    } else {
        let p = files_only(paths.drop_last(), is_dir.subrange(0, is_dir.len() - 1));
        if is_dir[paths.len() - 1] { p } else { p.push(paths.last()) }
    }
}

/// The paths of an optional list.
pub open spec fn opt_paths(o: Option<Vec<String>>) -> Option<Seq<Seq<char>>> {
    match o {
        Some(r) => Some(strings_view(r@)),
        None => None,
    }
}

fn push_new(out: &mut Vec<String>, p: &String)
    ensures
        strings_view(final(out)@) == (if strings_view(old(out)@).contains(p@) { strings_view(old(out)@) } else { strings_view(old(out)@).push(p@) }),
{
    if !names_contain(out, p.as_str()) {
        out.push(p.clone());
        assert(strings_view(out@) =~= strings_view(old(out)@).push(p@));
    }
}

fn add_new_paths(out: &mut Vec<String>, b: &Vec<String>)
    ensures
        strings_view(final(out)@) == add_new(strings_view(old(out)@), strings_view(b@)),
{
    let ghost acc = strings_view(out@);
    let mut i: usize = 0;
    while i < b.len()
        invariant
            i <= b@.len(),
            strings_view(out@) == add_new(acc, strings_view(b@).take(i as int)),
        decreases b@.len() - i,
    {
        proof {
            let t = strings_view(b@).take(i + 1);
            assert(t.drop_last() =~= strings_view(b@).take(i as int));
            assert(t.last() == b@[i as int]@);
        }
        push_new(out, &b[i]);
        i = i + 1;
    }
    assert(strings_view(b@).take(b@.len() as int) =~= strings_view(b@));
}

fn without_path(v: &Vec<String>, x: &String) -> (r: Vec<String>)
    ensures
        strings_view(r@) == without_all(strings_view(v@), x@),
{
    let mut out: Vec<String> = Vec::new();
    let mut i: usize = 0;
    while i < v.len()
        invariant
            i <= v@.len(),
            strings_view(out@) == without_all(strings_view(v@).take(i as int), x@),
        decreases v@.len() - i,
    {
        proof {
            let t = strings_view(v@).take(i + 1);
            assert(t.drop_last() =~= strings_view(v@).take(i as int));
            assert(t.last() == v@[i as int]@);
        }
        if !str_eq(v[i].as_str(), x.as_str()) {
            out.push(v[i].clone());
            assert(strings_view(out@) =~= without_all(strings_view(v@).take(i + 1), x@));
        }
        i = i + 1;
    }
    assert(strings_view(v@).take(v@.len() as int) =~= strings_view(v@));
    out
}

fn one_path(p: &String) -> (r: Vec<String>)
    ensures
        strings_view(r@) == seq![p@],
{
    let mut v: Vec<String> = Vec::new();
    v.push(p.clone());
    assert(strings_view(v@) =~= seq![p@]);
    v
}

impl FileList {
    /// A list showing `initial_path` in list mode, 48-pixel icons, nothing
    /// loaded or selected.
    pub fn new(initial_path: String) -> (r: Self)
        ensures
            r.current_path@ == initial_path@,
            r.entries@.len() == 0,
            r.selected@.len() == 0,
            r.view_mode == FileListViewMode::List,
            r.icon_size == 48,
            r.anchor_index is None && r.last_click_index is None && r.last_click_ms is None,
    {
        FileList {
            current_path: initial_path,
            entries: Vec::new(),
            selected: Vec::new(),
            view_mode: FileListViewMode::List,
            icon_size: 48,
            anchor_index: None,
            last_click_index: None,
            last_click_ms: None,
        }
    }

    /// Shows another directory (the host reloads it).
    pub fn set_path(&mut self, path: String)
        ensures
            final(self)@ == (FileListModel { current_path: path@, ..old(self)@ }),
    {
        self.current_path = path;
    }

    /// The entries of a loaded directory: taken when it is the one shown.
    pub fn directory_loaded(&mut self, path: &str, entries: Vec<FileEntryInfo>) -> (r: Update)
        ensures
            path@ == old(self).current_path@ ==> final(self)@ == (FileListModel { entries: entries_view(entries@), ..old(self)@ }) && r.bits == UPDATE_LAYOUT | UPDATE_DRAW,
            path@ != old(self).current_path@ ==> final(self)@ == old(self)@ && r.bits == 0,
    {
        if str_eq(path, self.current_path.as_str()) {
            self.entries = entries;
            Update { bits: UPDATE_LAYOUT | UPDATE_DRAW }
        } else {
            Update { bits: 0 }
        }
    }

    /// The selected paths.
    pub fn selected_paths(&self) -> (r: Vec<String>)
        ensures
            strings_view(r@) == self@.selected,
    {
        clone_strings(&self.selected)
    }

    /// The first selected path.
    pub fn selected_path(&self) -> (r: Option<String>)
        ensures
            match r {
                Some(p) => self@.selected.len() > 0 && p@ == self@.selected[0],
                None => self@.selected.len() == 0,
            },
    {
        if self.selected.len() > 0 {
            Some(self.selected[0].clone())
        } else {
            None
        }
    }

    /// Selects nothing.
    pub fn clear_selection(&mut self)
        ensures
            final(self)@ == (FileListModel { selected: Seq::empty(), ..old(self)@ }),
    {
        self.selected = Vec::new();
        assert(strings_view(self.selected@) =~= Seq::<Seq<char>>::empty());
    }

    /// Selects every entry, in order.
    pub fn select_all(&mut self)
        ensures
            final(self)@ == (FileListModel { selected: paths_of(old(self)@.entries), ..old(self)@ }),
    {
        let mut all: Vec<String> = Vec::new();
        let mut i: usize = 0;
        while i < self.entries.len()
            invariant
                i <= self.entries@.len(),
                all@.len() == i,
                strings_view(all@) == paths_of(entries_view(self.entries@)).take(i as int),
            decreases self.entries@.len() - i,
        {
            let ghost prev = all@;
            all.push(self.entries[i].path.clone());
            proof {
                let ps = paths_of(entries_view(self.entries@));
                assert(ps[i as int] == self.entries@[i as int].path@);
                assert forall|k: int| 0 <= k < i + 1 implies #[trigger] strings_view(all@)[k] == ps.take(i + 1)[k] by {
                    if k < i {
                        assert(strings_view(prev)[k] == ps.take(i as int)[k]);
                        assert(all@[k] == prev[k]);
                    }
                }
                assert(strings_view(all@) =~= ps.take(i + 1));
            }
            i = i + 1;
        }
        assert(paths_of(entries_view(self.entries@)).take(self.entries@.len() as int) =~= paths_of(entries_view(self.entries@)));
        self.selected = all;
    }

    /// Sets the view mode.
    pub fn set_view_mode(&mut self, mode: FileListViewMode)
        ensures
            final(self)@ == (FileListModel { view_mode: mode, ..old(self)@ }),
    {
        self.view_mode = mode;
    }

    /// Sets the icon size of the icon view.
    pub fn set_icon_size(&mut self, size: u32)
        ensures
            final(self)@ == (FileListModel { icon_size: size, ..old(self)@ }),
    {
        self.icon_size = size;
    }

    /// Sets the view mode (builder form).
    pub fn with_view_mode(self, mode: FileListViewMode) -> (r: Self)
        ensures
            r@ == (FileListModel { view_mode: mode, ..self@ }),
    {
        let mut s = self;
        s.view_mode = mode;
        s
    }

    /// Sets the icon size (builder form).
    pub fn with_icon_size(self, size: u32) -> (r: Self)
        ensures
            r@ == (FileListModel { icon_size: size, ..self@ }),
    {
        let mut s = self;
        s.icon_size = size;
        s
    }

    fn range_paths(&self, i: usize) -> (r: Vec<String>)
        requires
            i < self.entries@.len(),
            range_readable(self@, i),
        ensures
            strings_view(r@) == range_of(self@, i),
    {
        let a: usize = match self.anchor_index { Some(a) => a, None => 0 };
        let lo = if a < i { a } else { i };
        let hi = if a < i { i } else { a };
        let n = self.entries.len();
        assert(hi < n);
        let end = hi + 1;
        let mut out: Vec<String> = Vec::new();
        let mut k: usize = lo;
        while k < end
            invariant
                lo <= k <= end,
                end == hi + 1,
                hi < self.entries@.len(),
                out@.len() == k - lo,
                strings_view(out@) == paths_of(entries_view(self.entries@)).subrange(lo as int, k as int),
            decreases end - k,
        {
            let ghost prev = out@;
            out.push(self.entries[k].path.clone());
            proof {
                let ps = paths_of(entries_view(self.entries@));
                assert(ps[k as int] == self.entries@[k as int].path@);
                assert forall|j: int| 0 <= j < k + 1 - lo implies #[trigger] strings_view(out@)[j] == ps.subrange(lo as int, k + 1)[j] by {
                    if j < k - lo {
                        assert(strings_view(prev)[j] == ps.subrange(lo as int, k as int)[j]);
                        assert(out@[j] == prev[j]);
                    }
                }
            }
            assert(strings_view(out@) =~= paths_of(entries_view(self.entries@)).subrange(lo as int, k + 1));
            k = k + 1;
        }
        out
    }

    fn press_entry(&mut self, i: usize, b: ButtonEvent, range: &Option<Vec<String>>, ctrl: bool, now: u64, events: &mut Vec<FileListEvent>) -> (bits: u32)
        requires
            i < old(self).entries@.len(),
        ensures
            final(self).entries@ == old(self).entries@,
            ({
                let s = entry_press(old(self)@, i, b, opt_paths(*range), ctrl, now);
                &&& final(self)@ == s.0
                &&& file_events_view(final(events)@) == file_events_view(old(events)@) + s.1
                &&& bits == s.2
            }),
    {
        let ghost m = self@;
        let ghost rv = opt_paths(*range);
        let tp = self.entries[i].path.clone();
        proof {
            assert(tp@ == m.entries[i as int].0);
        }
        if b.state == ElementState::Pressed && b.button == MouseButton::Right {
            if !names_contain(&self.selected, tp.as_str()) {
                let n = if ctrl {
                    let mut c = clone_strings(&self.selected);
                    c.push(tp.clone());
                    assert(strings_view(c@) =~= m.selected.push(tp@));
                    c
                } else {
                    one_path(&tp)
                };
                self.selected = clone_strings(&n);
                events.push(FileListEvent::ContextMenu(tp, n));
            } else {
                events.push(FileListEvent::ContextMenu(tp, clone_strings(&self.selected)));
            }
            assert(file_events_view(events@) =~= file_events_view(old(events)@) + entry_press(m, i, b, rv, ctrl, now).1);
            UPDATE_DRAW
        } else if b.state == ElementState::Pressed && b.button == MouseButton::Left {
            let n: Vec<String>;
            let anchor: Option<usize>;
            match range {
                Some(r) => {
                    if ctrl {
                        let mut acc: Vec<String> = Vec::new();
                        assert(strings_view(acc@) =~= Seq::<Seq<char>>::empty());
                        add_new_paths(&mut acc, &self.selected);
                        add_new_paths(&mut acc, r);
                        n = acc;
                    } else {
                        n = clone_strings(r);
                    }
                    anchor = self.anchor_index;
                },
                None => {
                    if ctrl {
                        if names_contain(&self.selected, tp.as_str()) {
                            n = without_path(&self.selected, &tp);
                        } else {
                            let mut c = clone_strings(&self.selected);
                            c.push(tp.clone());
                            assert(strings_view(c@) =~= m.selected.push(tp@));
                            n = c;
                        }
                    } else {
                        n = one_path(&tp);
                    }
                    anchor = Some(i);
                },
            }
            let dbl = match self.last_click_ms {
                Some(lt) => self.last_click_index == Some(i) && (if now >= lt { now - lt } else { 0 }) < 500,
                None => false,
            };
            let nav = dbl && self.entries[i].is_dir;
            self.anchor_index = anchor;
            self.last_click_ms = Some(now);
            self.last_click_index = Some(i);
            if nav {
                self.selected = Vec::new();
                self.current_path = tp.clone();
                events.push(FileListEvent::Navigate(tp));
                assert(strings_view(self.selected@) =~= Seq::<Seq<char>>::empty());
                assert(file_events_view(events@) =~= file_events_view(old(events)@) + entry_press(m, i, b, rv, ctrl, now).1);
                UPDATE_DRAW | UPDATE_LAYOUT
            } else {
                self.selected = n;
                assert(file_events_view(events@) =~= file_events_view(old(events)@) + Seq::<FileListEventView>::empty());
                UPDATE_DRAW
            }
        } else {
            assert(file_events_view(events@) =~= file_events_view(old(events)@) + Seq::<FileListEventView>::empty());
            0
        }
    }

    /// The clicks of one frame with the cursor over the list: `index` is the
    /// entry under the cursor, if any, `buttons` the frame's button events.
    /// A Shift-click reads the entries from the anchor on, so the anchor must
    /// name an entry then.
    pub fn handle_clicks(
        &mut self,
        index: Option<usize>,
        buttons: &Vec<ButtonEvent>,
        shift: bool,
        ctrl: bool,
        now: u64,
    ) -> (r: (Update, Vec<FileListEvent>))
        requires
            shift ==> match index {
                Some(i) => i < old(self).entries@.len() ==> range_readable(old(self)@, i),
                None => true,
            },
        ensures
            final(self)@ == click_frame(old(self)@, index, buttons@, shift, ctrl, now).0,
            file_events_view(r.1@) == click_frame(old(self)@, index, buttons@, shift, ctrl, now).1,
            r.0.bits == click_frame(old(self)@, index, buttons@, shift, ctrl, now).2,
    {
        let ghost m = self@;
        let mut events: Vec<FileListEvent> = Vec::new();
        let mut bits: u32 = 0;
        assert(file_events_view(events@) =~= Seq::<FileListEventView>::empty());
        let target = match index {
            Some(i) => if i < self.entries.len() { Some(i) } else { None },
            None => None,
        };
        match target {
            Some(i) => {
                let range: Option<Vec<String>> = if shift { Some(self.range_paths(i)) } else { None };
                let ghost rv = opt_paths(range);
                assert(rv == (if shift { Some(range_of(m, i)) } else { None }));
                let mut k: usize = 0;
                while k < buttons.len()
                    invariant
                        k <= buttons@.len(),
                        i < self.entries@.len(),
                        self.entries@ == old(self).entries@,
                        rv == opt_paths(range),
                        self@ == entry_presses(m, i, buttons@.take(k as int), rv, ctrl, now).0,
                        file_events_view(events@) == entry_presses(m, i, buttons@.take(k as int), rv, ctrl, now).1,
                        bits == entry_presses(m, i, buttons@.take(k as int), rv, ctrl, now).2,
                    decreases buttons@.len() - k,
                {
                    proof {
                        assert(buttons@.take(k + 1).drop_last() =~= buttons@.take(k as int));
                    }
                    let b = self.press_entry(i, buttons[k], &range, ctrl, now, &mut events);
                    bits = bits | b;
                    k = k + 1;
                }
                assert(buttons@.take(buttons@.len() as int) =~= buttons@);
            },
            None => {
                let mut k: usize = 0;
                while k < buttons.len()
                    invariant
                        k <= buttons@.len(),
                        self@ == empty_presses(m, buttons@.take(k as int), ctrl).0,
                        file_events_view(events@) == empty_presses(m, buttons@.take(k as int), ctrl).1,
                        bits == empty_presses(m, buttons@.take(k as int), ctrl).2,
                    decreases buttons@.len() - k,
                {
                    proof {
                        assert(buttons@.take(k + 1).drop_last() =~= buttons@.take(k as int));
                    }
                    let b = buttons[k];
                    if b.state == ElementState::Pressed && b.button == MouseButton::Left {
                        events.push(FileListEvent::BeginDrag);
                        if !ctrl {
                            self.selected = Vec::new();
                            assert(strings_view(self.selected@) =~= Seq::<Seq<char>>::empty());
                            bits = bits | UPDATE_DRAW;
                        }
                        assert(file_events_view(events@) =~= empty_presses(m, buttons@.take(k + 1), ctrl).1);
                    }
                    k = k + 1;
                }
                assert(buttons@.take(buttons@.len() as int) =~= buttons@);
            },
        }
        (Update { bits }, events)
    }

    /// A rubber band over the entries with paths `hits` (in entry order):
    /// they join the selection, which is kept with Ctrl and cleared without.
    pub fn drag_selection(&mut self, hits: &Vec<String>, ctrl: bool)
        ensures
            final(self)@ == (FileListModel {
                selected: add_new(if ctrl { old(self)@.selected } else { Seq::empty() }, strings_view(hits@)),
                ..old(self)@
            }),
    {
        if !ctrl {
            self.selected = Vec::new();
            assert(strings_view(self.selected@) =~= Seq::<Seq<char>>::empty());
        }
        let mut sel = clone_strings(&self.selected);
        add_new_paths(&mut sel, hits);
        self.selected = sel;
    }

    /// Carries out an action picked from the context menu; `is_dir` says of
    /// each of its paths whether it is a directory. An application chosen
    /// opens every path; Properties shows them; otherwise a single directory
    /// is entered (clearing the selection) and files are opened, directories
    /// among several paths being skipped.
    pub fn apply_pending(&mut self, action: PendingAction, is_dir: &Vec<bool>) -> (r: (Update, PendingPlan))
        requires
            is_dir@.len() == action.paths@.len(),
        ensures
            match action.app_id {
                Some(id) => final(self)@ == old(self)@ && r.0.bits == 0
                    && r.1@ == PendingPlanView::LaunchWith(id@, strings_view(action.paths@)),
                None => if action.properties {
                    final(self)@ == old(self)@ && r.0.bits == 0
                        && r.1@ == PendingPlanView::ShowProperties(strings_view(action.paths@))
                } else if action.paths@.len() == 1 && is_dir@[0] {
                    final(self)@ == (FileListModel { current_path: action.paths@[0]@, selected: Seq::empty(), ..old(self)@ })
                        && r.0.bits == UPDATE_LAYOUT | UPDATE_DRAW
                        && r.1@ == PendingPlanView::Navigate(action.paths@[0]@)
                } else {
                    final(self)@ == old(self)@ && r.0.bits == 0
                        && r.1@ == PendingPlanView::Launch(files_only(strings_view(action.paths@), is_dir@))
                },
            },
    {
        let ghost m = self@;
        match action.app_id {
            Some(id) => (Update { bits: 0 }, PendingPlan::LaunchWith(id, action.paths)),
            None => {
                if action.properties {
                    (Update { bits: 0 }, PendingPlan::ShowProperties(action.paths))
                } else if action.paths.len() == 1 && is_dir[0] {
                    let p = action.paths[0].clone();
                    self.current_path = p.clone();
                    self.selected = Vec::new();
                    assert(strings_view(self.selected@) =~= Seq::<Seq<char>>::empty());
                    (Update { bits: UPDATE_LAYOUT | UPDATE_DRAW }, PendingPlan::Navigate(p))
                } else {
                    let mut files: Vec<String> = Vec::new();
                    let mut i: usize = 0;
                    while i < action.paths.len()
                        invariant
                            i <= action.paths@.len() == is_dir@.len(),
                            strings_view(files@) == files_only(strings_view(action.paths@).take(i as int), is_dir@.take(i as int)),
                        decreases action.paths@.len() - i,
                    {
                        proof {
                            let t = strings_view(action.paths@).take(i + 1);
                            assert(t.drop_last() =~= strings_view(action.paths@).take(i as int));
                            assert(is_dir@.take(i + 1).subrange(0, i as int) =~= is_dir@.take(i as int));
                            assert(t.last() == action.paths@[i as int]@);
                        }
                        if !is_dir[i] {
                            files.push(action.paths[i].clone());
                            assert(strings_view(files@) =~= files_only(strings_view(action.paths@).take(i + 1), is_dir@.take(i + 1)));
                        }
                        i = i + 1;
                    }
                    assert(strings_view(action.paths@).take(action.paths@.len() as int) =~= strings_view(action.paths@));
                    assert(is_dir@.take(is_dir@.len() as int) =~= is_dir@);
                    (Update { bits: 0 }, PendingPlan::Launch(files))
                }
            },
        }
    }
}


proof fn lemma_push_set(s: Seq<Seq<char>>, x: Seq<char>)
    ensures
        s.push(x).to_set() == s.to_set().insert(x),
{
    let t = s.push(x);
    assert forall|e: Seq<char>| #[trigger] t.to_set().contains(e) == s.to_set().insert(x).contains(e) by {
        if t.contains(e) {
            let k = choose|k: int| 0 <= k < t.len() && t[k] == e;
            if k < s.len() {
                assert(s[k] == e);
            }
        }
        if s.contains(e) {
            let k = choose|k: int| 0 <= k < s.len() && s[k] == e;
            assert(t[k] == e);
        }
        if e == x {
            assert(t[s.len() as int] == e);
        }
    }
    assert(t.to_set() =~= s.to_set().insert(x));
}

/// Adding paths keeps every path once: the result holds the paths of both
/// lists, and no duplicates when `acc` had none.
pub proof fn lemma_add_new(acc: Seq<Seq<char>>, b: Seq<Seq<char>>)
    ensures
        add_new(acc, b).to_set() == acc.to_set().union(b.to_set()),
        acc.no_duplicates() ==> add_new(acc, b).no_duplicates(),
    decreases b.len(),
{
    if b.len() == 0 {
        assert(b.to_set() =~= Set::<Seq<char>>::empty());
        assert(acc.to_set().union(b.to_set()) =~= acc.to_set());
    } else {
        let d = b.drop_last();
        lemma_add_new(acc, d);
        let p = add_new(acc, d);
        lemma_push_set(d, b.last());
        assert(d.push(b.last()) =~= b);
        lemma_push_set(p, b.last());
        if p.contains(b.last()) {
            assert(p.to_set().contains(b.last()));
            assert(p.to_set() =~= p.to_set().insert(b.last()));
        }
        assert(add_new(acc, b).to_set() =~= acc.to_set().union(b.to_set()));
        if acc.no_duplicates() && !p.contains(b.last()) {
            let t = p.push(b.last());
            assert forall|i: int, j: int| 0 <= i < t.len() && 0 <= j < t.len() && i != j implies t[i] != t[j] by {
                if i < p.len() && j < p.len() {
                    assert(t[i] == p[i] && t[j] == p[j]);
                } else if i < p.len() {
                    assert(t[i] == p[i]);
                } else {
                    assert(t[j] == p[j]);
                }
            }
        }
    }
}

/// A Ctrl+Shift-click adds the range to the selection: the result holds the
/// paths selected before and those of the range, each once.
pub proof fn law_ctrl_shift_click_adds_range(m: FileListModel, i: usize, r: Seq<Seq<char>>, now: u64)
    requires
        i < m.entries.len(),
        !(m.last_click_index == Some(i) && m.entries[i as int].1),
    ensures
        ({
            let s = entry_press(m, i, ButtonEvent { button: MouseButton::Left, state: ElementState::Pressed }, Some(r), true, now);
            &&& s.0.selected.to_set() == m.selected.to_set().union(r.to_set())
            &&& s.0.selected.no_duplicates()
            &&& s.0.anchor_index == m.anchor_index
        }),
{
    lemma_add_new(Seq::empty(), m.selected);
    assert(Seq::<Seq<char>>::empty().to_set() =~= Set::empty());
    assert(Set::<Seq<char>>::empty().union(m.selected.to_set()) =~= m.selected.to_set());
    lemma_add_new(add_new(Seq::empty(), m.selected), r);
}

/// A plain left click on an entry selects that entry alone and makes it the
/// anchor, unless it is a second click on a directory.
pub proof fn law_plain_click_selects_entry(m: FileListModel, i: usize, now: u64)
    requires
        i < m.entries.len(),
    ensures
        ({
            let s = entry_press(m, i, ButtonEvent { button: MouseButton::Left, state: ElementState::Pressed }, None, false, now);
            let dbl = match m.last_click_ms {
                Some(lt) => m.last_click_index == Some(i) && elapsed_ms(now, lt) < 500,
                None => false,
            };
            &&& !(dbl && m.entries[i as int].1) ==> s.0.selected == seq![m.entries[i as int].0]
            &&& s.0.anchor_index == Some(i)
            &&& s.0.last_click_index == Some(i)
        }),
{
}

/// A second click on a directory within half a second enters it: the list
/// shows it, nothing is selected, and the host is asked to load it.
pub proof fn law_double_click_enters_directory(m: FileListModel, i: usize, b: ButtonEvent, range: Option<Seq<Seq<char>>>, ctrl: bool, t: u64, now: u64)
    requires
        i < m.entries.len(),
        m.entries[i as int].1,
        m.last_click_index == Some(i),
        m.last_click_ms == Some(t),
        t <= now < t + 500,
        b.button == MouseButton::Left,
        b.state == ElementState::Pressed,
    ensures
        ({
            let s = entry_press(m, i, b, range, ctrl, now);
            &&& s.0.current_path == m.entries[i as int].0
            &&& s.0.selected.len() == 0
            &&& s.1 == seq![FileListEventView::Navigate(m.entries[i as int].0)]
        }),
{
}

/// A right press on an entry asks for its context menu over the selection
/// that the press leaves, and that selection holds the entry. On an entry
/// that is already selected the selection stays as it was, so the menu acts
/// on every selected path; on another entry the selection becomes that entry
/// alone, or, with Ctrl, gains it.
pub proof fn law_right_press_keeps_selection_for_context_menu(
    m: FileListModel,
    i: usize,
    range: Option<Seq<Seq<char>>>,
    ctrl: bool,
    now: u64,
)
    requires
        i < m.entries.len(),
    ensures
        ({
            let tp = m.entries[i as int].0;
            let r = entry_press(m, i, ButtonEvent { button: MouseButton::Right, state: ElementState::Pressed }, range, ctrl, now);
            &&& r.1 == seq![FileListEventView::ContextMenu(tp, r.0.selected)]
            &&& r.0.selected.contains(tp)
            &&& r.0.current_path == m.current_path
            &&& m.selected.contains(tp) ==> r.0 == m
            &&& !m.selected.contains(tp) && !ctrl ==> r.0.selected == seq![tp]
            &&& !m.selected.contains(tp) && ctrl ==> r.0.selected.to_set() == m.selected.to_set().insert(tp)
        }),
{
    let tp = m.entries[i as int].0;
    let cur = m.selected;
    if !cur.contains(tp) {
        if ctrl {
            let n = cur.push(tp);
            assert(n[cur.len() as int] == tp);
            assert(n.to_set() =~= cur.to_set().insert(tp)) by {
                assert forall|e: Seq<char>| #[trigger] n.to_set().contains(e) == cur.to_set().insert(tp).contains(e) by {
                    if n.contains(e) {
                        let k = choose|k: int| 0 <= k < n.len() && n[k] == e;
                        if k < cur.len() {
                            assert(cur[k] == e);
                        }
                    }
                    if cur.contains(e) {
                        let k = choose|k: int| 0 <= k < cur.len() && cur[k] == e;
                        assert(n[k] == e);
                    }
                }
            }
        } else {
            assert(seq![tp][0] == tp);
        }
    }
}

/// A frame whose only button event is a right press over an entry that is
/// already selected leaves the selection unchanged and asks for the context
/// menu of that entry over the whole selection.
pub proof fn law_right_press_on_selected_entry(
    m: FileListModel,
    i: usize,
    shift: bool,
    ctrl: bool,
    now: u64,
)
    requires
        i < m.entries.len(),
        m.selected.contains(m.entries[i as int].0),
    ensures
        ({
            let r = click_frame(m, Some(i), seq![ButtonEvent { button: MouseButton::Right, state: ElementState::Pressed }], shift, ctrl, now);
            &&& r.0 == m
            &&& r.1 == seq![FileListEventView::ContextMenu(m.entries[i as int].0, m.selected)]
        }),
{
    let b = ButtonEvent { button: MouseButton::Right, state: ElementState::Pressed };
    let range = if shift { Some(range_of(m, i)) } else { None };
    reveal_with_fuel(entry_presses, 2);
    assert(seq![b].drop_last() =~= Seq::<ButtonEvent>::empty());
    law_right_press_keeps_selection_for_context_menu(m, i, range, ctrl, now);
    assert(Seq::<FileListEventView>::empty() + seq![FileListEventView::ContextMenu(m.entries[i as int].0, m.selected)]
        =~= seq![FileListEventView::ContextMenu(m.entries[i as int].0, m.selected)]);
}

} // verus!
