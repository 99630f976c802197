//! Mirroring the menus that other applications export through the system
//! tray: converting their menu items, formatting shortcuts, and deciding
//! which application's menu is shown as items appear and disappear.

use vstd::prelude::*;
use crate::textutil::{push_str, str_eq, to_owned_string, strings_view, join};
use crate::menu_items::opt_text_view;

verus! {

/// A menu item as the tray service describes it.
pub struct TrayMenuItem {
    pub id: i32,
    pub is_separator: bool,
    pub label: Option<String>,
    pub enabled: bool,
    pub visible: bool,
    /// Key combinations, each a list of modifier names followed by the key.
    pub shortcut: Option<Vec<Vec<String>>>,
    pub submenu: Vec<TrayMenuItem>,
}

/// A converted menu entry of another application.
pub struct RemoteMenuEntry {
    pub id: i32,
    pub label: String,
    pub enabled: bool,
    pub shortcut: Option<String>,
    pub submenu: Vec<RemoteMenuEntry>,
    pub is_separator: bool,
}

/// How a key name is shown: `Control` as `Ctrl`, `Super` as `Cmd`.
pub open spec fn spec_format_key(key: Seq<char>) -> Seq<char> {
    if key == "Control"@ {
        "Ctrl"@
    } else if key == "Super"@ {
        "Cmd"@
    } else {
        key
    }
}

/// Shows a key name.
pub fn format_key(key: &str) -> (r: &str)
    ensures
        r@ == spec_format_key(key@),
{
    if str_eq(key, "Control") {
        "Ctrl"
    } else if str_eq(key, "Super") {
        "Cmd"
    } else {
        key
    }
}

/// The text of one key combination: its keys shown and joined by `+`.
pub open spec fn combo_text(combo: Seq<Seq<char>>) -> Seq<char> {
    join(combo.map_values(|k: Seq<char>| spec_format_key(k)), "+"@)
}

/// The text of a shortcut: its combinations joined by `, `; none when the
/// item has no shortcut or an empty one.
pub open spec fn spec_format_shortcut(shortcut: Option<Vec<Vec<String>>>) -> Option<Seq<char>> {
    match shortcut {
        Some(v) => if v@.len() == 0 {
            None
        } else {
            Some(join(v@.map_values(|c: Vec<String>| combo_text(strings_view(c@))), ", "@))
        },
        None => None,
    }
}

fn join_keys(combo: &Vec<String>) -> (r: String)
    ensures
        r@ == combo_text(strings_view(combo@)),
{
    let mut out = String::new();
    let mut i: usize = 0;
    let ghost shown = strings_view(combo@).map_values(|k: Seq<char>| spec_format_key(k));
    while i < combo.len()
        invariant
            i <= combo@.len(),
            shown == strings_view(combo@).map_values(|k: Seq<char>| spec_format_key(k)),
            out@ == join(shown.take(i as int), "+"@),
        decreases combo@.len() - i,
    {
        let k = format_key(combo[i].as_str());
        proof {
            assert(shown.take(i + 1).drop_last() =~= shown.take(i as int));
            assert(shown.take(i + 1).last() == k@);
        }
        if i > 0 {
            push_str(&mut out, "+");
        } else {
            assert(shown.take(1) =~= seq![k@]);
        }
        push_str(&mut out, k);
        i = i + 1;
    }
    assert(shown.take(combo@.len() as int) =~= shown);
    out
}

/// Formats an item's shortcut.
pub fn format_shortcut(shortcut: &Option<Vec<Vec<String>>>) -> (r: Option<String>)
    ensures
        opt_text_view(r) == spec_format_shortcut(*shortcut),
{
    match shortcut {
        None => None,
        Some(combos) => {
            if combos.len() == 0 {
                return None;
            }
            let ghost texts = combos@.map_values(|c: Vec<String>| combo_text(strings_view(c@)));
            let mut out = String::new();
            let mut i: usize = 0;
            while i < combos.len()
                invariant
                    i <= combos@.len(),
                    texts == combos@.map_values(|c: Vec<String>| combo_text(strings_view(c@))),
                    out@ == join(texts.take(i as int), ", "@),
                decreases combos@.len() - i,
            {
                let t = join_keys(&combos[i]);
                proof {
                    assert(texts.take(i + 1).drop_last() =~= texts.take(i as int));
                    assert(texts.take(i + 1).last() == t@);
                }
                if i > 0 {
                    push_str(&mut out, ", ");
                } else {
                    assert(texts.take(1) =~= seq![t@]);
                }
                push_str(&mut out, t.as_str());
                i = i + 1;
            }
            assert(texts.take(combos@.len() as int) =~= texts);
            Some(out)
        },
    }
}

/// The label an entry shows: the item's own, else `---` for a separator and
/// nothing for other items.
pub open spec fn entry_label(t: TrayMenuItem) -> Seq<char> {
    match t.label {
        Some(l) => l@,
        None => if t.is_separator { "---"@ } else { ""@ },
    }
}

/// `e` is the conversion of the (visible) item `t`.
pub open spec fn entry_converted(e: RemoteMenuEntry, t: TrayMenuItem) -> bool
    decreases t,
{
    &&& e.id == t.id
    &&& e.label@ == entry_label(t)
    &&& e.enabled == t.enabled
    &&& opt_text_view(e.shortcut) == spec_format_shortcut(t.shortcut)
    &&& e.is_separator == t.is_separator
    &&& list_converted(e.submenu@, t.submenu@)
}

/// `es` are the conversions of the visible items of `ts`, in order.
pub open spec fn list_converted(es: Seq<RemoteMenuEntry>, ts: Seq<TrayMenuItem>) -> bool
    decreases ts,
{
    if ts.len() == 0 {
        es.len() == 0
    } else {
        let last = ts[ts.len() - 1];
        if last.visible {
            &&& es.len() > 0
            &&& entry_converted(es[es.len() - 1], last)
            &&& list_converted(es.subrange(0, es.len() - 1), ts.subrange(0, ts.len() - 1))
        } else {
            list_converted(es, ts.subrange(0, ts.len() - 1))
        }
    }
}

/// Converts the visible items of a tray menu.
pub fn convert_entries(items: &[TrayMenuItem]) -> (r: Vec<RemoteMenuEntry>)
    ensures
        list_converted(r@, items@),
    decreases items@,
{
    let mut out: Vec<RemoteMenuEntry> = Vec::new();
    let mut i: usize = 0;
    assert(items@.take(0) =~= Seq::<TrayMenuItem>::empty());
    while i < items.len()
        invariant
            i <= items@.len(),
            list_converted(out@, items@.take(i as int)),
        decreases items@.len() - i,
    {
        let t = &items[i];
        let ghost cur = items@.take(i + 1);
        proof {
            assert(cur.subrange(0, cur.len() - 1) =~= items@.take(i as int));
            assert(cur[cur.len() - 1] == *t);
        }
        if t.visible {
            let label = match &t.label {
                Some(l) => l.clone(),
                None => if t.is_separator { to_owned_string("---") } else { to_owned_string("") },
            };
            proof {
                assert(decreases_to!(items@ => items@[i as int]));
                assert(decreases_to!(items@[i as int] => items@[i as int].submenu));
                assert(decreases_to!(items@[i as int].submenu => items@[i as int].submenu@));
            }
            let submenu = convert_entries(t.submenu.as_slice());
            let e = RemoteMenuEntry {
                id: t.id,
                label,
                enabled: t.enabled,
                shortcut: format_shortcut(&t.shortcut),
                submenu,
                is_separator: t.is_separator,
            };
            let ghost before = out@;
            out.push(e);
            proof {
                assert(entry_converted(e, *t));
                assert(out@.subrange(0, out@.len() - 1) =~= before);
                assert(out@[out@.len() - 1] == e);
                assert(list_converted(out@, cur));
            }
        } else {
            assert(list_converted(out@, cur));
        }
        i = i + 1;
    }
    assert(items@.take(items@.len() as int) =~= items@);
    out
}

/// `a` and `b` hold the same entries.
pub open spec fn same_entry(a: RemoteMenuEntry, b: RemoteMenuEntry) -> bool
    decreases a,
{
    &&& a.id == b.id
    &&& a.label@ == b.label@
    &&& a.enabled == b.enabled
    &&& opt_text_view(a.shortcut) == opt_text_view(b.shortcut)
    &&& a.is_separator == b.is_separator
    &&& a.submenu@.len() == b.submenu@.len()
    &&& forall|k: int| 0 <= k < a.submenu@.len() ==> same_entry(#[trigger] a.submenu@[k], b.submenu@[k])
}

/// `a` and `b` hold the same entries, one for one.
pub open spec fn same_entries(a: Seq<RemoteMenuEntry>, b: Seq<RemoteMenuEntry>) -> bool {
    &&& a.len() == b.len()
    &&& forall|k: int| 0 <= k < a.len() ==> same_entry(#[trigger] a[k], b[k])
}

/// A copy of a list of entries.
pub fn clone_entries(es: &[RemoteMenuEntry]) -> (r: Vec<RemoteMenuEntry>)
    ensures
        same_entries(r@, es@),
    decreases es@,
{
    let mut out: Vec<RemoteMenuEntry> = Vec::new();
    let mut i: usize = 0;
    while i < es.len()
        invariant
            i <= es@.len(),
            out@.len() == i,
            forall|k: int| 0 <= k < i ==> same_entry(#[trigger] out@[k], es@[k]),
        decreases es@.len() - i,
    {
        let e = &es[i];
        proof {
            assert(decreases_to!(es@ => es@[i as int]));
            assert(decreases_to!(es@[i as int] => es@[i as int].submenu));
            assert(decreases_to!(es@[i as int].submenu => es@[i as int].submenu@));
        }
        let submenu = clone_entries(e.submenu.as_slice());
        let shortcut = match &e.shortcut {
            Some(s) => Some(s.clone()),
            None => None,
        };
        out.push(RemoteMenuEntry {
            id: e.id,
            label: e.label.clone(),
            enabled: e.enabled,
            shortcut,
            submenu,
            is_separator: e.is_separator,
        });
        i = i + 1;
    }
    out
}


/// What the bridge knows of one application's exported menu.
pub struct RemoteAppState {
    pub menu_path: Option<String>,
    pub last_entries: Option<Vec<RemoteMenuEntry>>,
}

impl RemoteAppState {
    /// Nothing known yet.
    pub fn new() -> (r: Self)
        ensures
            r.menu_path is None,
            r.last_entries is None,
    {
        RemoteAppState { menu_path: None, last_entries: None }
    }
}

/// A menu to show: whose it is, where it lives and its entries.
pub struct GlobalMenuSnapshot {
    pub address: String,
    pub menu_path: String,
    pub entries: Vec<RemoteMenuEntry>,
}

/// What the bridge tells the menu bar.
pub enum GlobalMenuEvent {
    /// Show this menu.
    Snapshot(GlobalMenuSnapshot),
    /// Show no foreign menu.
    Clear,
}

/// An item activation to forward to the application that owns the menu.
pub struct GlobalMenuAction {
    pub address: String,
    pub menu_path: String,
    pub item_id: i32,
}

/// The snapshot taken when an application sends its menu: none until its menu path is known; otherwise the
/// converted items, which are also kept as its last entries.
pub fn build_snapshot(address: &str, entry: &mut RemoteAppState, items: &[TrayMenuItem]) -> (r: Option<GlobalMenuSnapshot>)
    ensures
        old(entry).menu_path is None ==> r is None && *final(entry) == *old(entry),
        old(entry).menu_path matches Some(p) ==> {
            &&& r matches Some(s) && s.address@ == address@ && s.menu_path@ == p@ && list_converted(s.entries@, items@)
            &&& final(entry).menu_path == old(entry).menu_path
            &&& final(entry).last_entries matches Some(le) && list_converted(le@, items@)
        },
{
    let menu_path = match &entry.menu_path {
        Some(p) => p.clone(),
        None => return None,
    };
    entry.last_entries = Some(convert_entries(items));
    let entries = convert_entries(items);
    Some(GlobalMenuSnapshot { address: to_owned_string(address), menu_path, entries })
}

/// Whether an application's menu can be shown again without asking it:
/// its path and last entries are both known.
pub open spec fn can_promote(s: RemoteAppState) -> bool {
    s.menu_path is Some && s.last_entries is Some
}

/// `next` and `ev` are what showing the first promotable application gives:
/// its address and a snapshot of its known menu, or nothing and a clearing.
pub open spec fn promotion(apps: Seq<(String, RemoteAppState)>, next: Option<String>, ev: GlobalMenuEvent) -> bool {
    match next {
        Some(a) => exists|i: int| {
            &&& 0 <= i < apps.len()
            &&& can_promote(#[trigger] apps[i].1)
            &&& forall|j: int| 0 <= j < i ==> !can_promote(#[trigger] apps[j].1)
            &&& a@ == apps[i].0@
            &&& ev matches GlobalMenuEvent::Snapshot(s) && s.address@ == a@
                && s.menu_path@ == apps[i].1.menu_path->0@
                && same_entries(s.entries@, apps[i].1.last_entries->0@)
        },
        None => (forall|i: int| 0 <= i < apps.len() ==> !can_promote(#[trigger] apps[i].1)) && ev is Clear,
    }
}

/// After the shown application went away: the first other
/// application whose menu is known is shown instead, or none is.
pub fn promote_next(apps: &Vec<(String, RemoteAppState)>) -> (r: (Option<String>, GlobalMenuEvent))
    ensures
        promotion(apps@, r.0, r.1),
{
    let mut i: usize = 0;
    while i < apps.len()
        invariant
            i <= apps@.len(),
            forall|j: int| 0 <= j < i ==> !can_promote(#[trigger] apps@[j].1),
        decreases apps@.len() - i,
    {
        let (address, state) = (&apps[i].0, &apps[i].1);
        match (&state.menu_path, &state.last_entries) {
            (Some(path), Some(entries)) => {
                let snapshot = GlobalMenuSnapshot {
                    address: address.clone(),
                    menu_path: path.clone(),
                    entries: clone_entries(entries.as_slice()),
                };
                let a = address.clone();
                assert(can_promote(apps@[i as int].1));
                return (Some(a), GlobalMenuEvent::Snapshot(snapshot));
            },
            _ => {},
        }
        i = i + 1;
    }
    (None, GlobalMenuEvent::Clear)
}

/// No two applications share an address.
pub open spec fn addresses_unique(apps: Seq<(String, RemoteAppState)>) -> bool {
    forall|i: int, j: int| 0 <= i < j < apps.len() ==> #[trigger] apps[i].0@ != #[trigger] apps[j].0@
}

/// The applications known to the bridge, by address, and the one whose menu
/// is shown.
pub struct TrayBridge {
    pub apps: Vec<(String, RemoteAppState)>,
    pub active: Option<String>,
}

fn find_app(apps: &Vec<(String, RemoteAppState)>, address: &str) -> (r: Option<usize>)
    ensures
        match r {
            Some(i) => i < apps@.len() && apps@[i as int].0@ == address@,
            None => forall|i: int| 0 <= i < apps@.len() ==> #[trigger] apps@[i].0@ != address@,
        },
{
    let mut i: usize = 0;
    while i < apps.len()
        invariant
            i <= apps@.len(),
            forall|k: int| 0 <= k < i ==> #[trigger] apps@[k].0@ != address@,
        decreases apps@.len() - i,
    {
        if str_eq(apps[i].0.as_str(), address) {
            return Some(i);
        }
        i = i + 1;
    }
    None
}

impl TrayBridge {
    /// No application known.
    pub fn new() -> (r: Self)
        ensures
            r.apps@.len() == 0,
            r.active is None,
    {
        TrayBridge { apps: Vec::new(), active: None }
    }

    /// The entry of `address`, created when missing.
    fn entry_index(&mut self, address: &str) -> (r: usize)
        requires
            addresses_unique(old(self).apps@),
        ensures
            r < final(self).apps@.len(),
            final(self).apps@[r as int].0@ == address@,
            addresses_unique(final(self).apps@),
            final(self).active == old(self).active,
            match find_index(old(self).apps@, address@) {
                Some(i) => final(self).apps@ == old(self).apps@ && r == i,
                None => final(self).apps@.len() == old(self).apps@.len() + 1
                    && r == old(self).apps@.len()
                    && final(self).apps@.take(old(self).apps@.len() as int) == old(self).apps@
                    && final(self).apps@.last().1.menu_path is None
                    && final(self).apps@.last().1.last_entries is None,
            },
    {
        match find_app(&self.apps, address) {
            Some(i) => {
                proof { lemma_find_index(self.apps@, address@, i as int); }
                i
            },
            None => {
                proof { lemma_find_index_none(self.apps@, address@); }
                let ghost before = self.apps@;
                self.apps.push((to_owned_string(address), RemoteAppState::new()));
                assert(self.apps@.take(before.len() as int) =~= before);
                self.apps.len() - 1
            },
        }
    }

    /// A new application announced itself.
    pub fn add(&mut self, address: &str)
        requires
            addresses_unique(old(self).apps@),
        ensures
            addresses_unique(final(self).apps@),
            final(self).active == old(self).active,
            match find_index(old(self).apps@, address@) {
                Some(i) => final(self).apps@ == old(self).apps@,
                None => final(self).apps@.len() == old(self).apps@.len() + 1
                    && final(self).apps@.take(old(self).apps@.len() as int) == old(self).apps@
                    && final(self).apps@.last().0@ == address@
                    && final(self).apps@.last().1.menu_path is None
                    && final(self).apps@.last().1.last_entries is None,
            },
    {
        let _ = self.entry_index(address);
    }

    /// An application told where its menu lives.
    pub fn menu_connect(&mut self, address: &str, path: String)
        requires
            addresses_unique(old(self).apps@),
        ensures
            addresses_unique(final(self).apps@),
            final(self).active == old(self).active,
            exists|i: int| 0 <= i < final(self).apps@.len() && #[trigger] final(self).apps@[i].0@ == address@
                && final(self).apps@[i].1.menu_path == Some(path)
                && final(self).apps@[i].1.last_entries == match find_index(old(self).apps@, address@) {
                    Some(k) => old(self).apps@[k].1.last_entries,
                    None => None,
                }
                && forall|k: int| #![auto] 0 <= k < final(self).apps@.len() && k != i ==> final(self).apps@[k] == old(self).apps@[k],
            final(self).apps@.len() == old(self).apps@.len() + (if find_index(old(self).apps@, address@) is Some { 0int } else { 1int }),
    {
        let ghost before = self.apps@;
        let i = self.entry_index(address);
        let ghost mid = self.apps@;
        set_menu_path_at(&mut self.apps, i, path);
        assert(self.apps@[i as int].0@ == address@);
        proof {
            match find_index(before, address@) {
                Some(k) => {
                    assert(mid == before);
                },
                None => {
                    assert(mid.last() == mid[i as int]);
                    assert forall|k: int| 0 <= k < self.apps@.len() && k != i implies #[trigger] self.apps@[k] == before[k] by {
                        assert(mid.take(before.len() as int)[k] == mid[k]);
                    }
                },
            }
        }
    }

    /// An application sent its menu: once its path is known, its menu
    /// becomes the one shown.
    pub fn menu_received(&mut self, address: &str, items: &[TrayMenuItem]) -> (r: Option<GlobalMenuEvent>)
        requires
            addresses_unique(old(self).apps@),
        ensures
            addresses_unique(final(self).apps@),
            final(self).apps@.len() == old(self).apps@.len() + (if find_index(old(self).apps@, address@) is Some { 0int } else { 1int }),
            exists|i: int| 0 <= i < final(self).apps@.len() && #[trigger] final(self).apps@[i].0@ == address@
                && final(self).apps@[i].1.menu_path == known_path(old(self).apps@, address@)
                && (known_path(old(self).apps@, address@) is None ==>
                    final(self).apps@[i].1.last_entries == known_entries(old(self).apps@, address@))
                && (known_path(old(self).apps@, address@) is Some ==>
                    (final(self).apps@[i].1.last_entries matches Some(le) && list_converted(le@, items@)))
                && forall|k: int| #![auto] 0 <= k < final(self).apps@.len() && k != i ==> final(self).apps@[k] == old(self).apps@[k],
            r is Some <==> known_path(old(self).apps@, address@) is Some,
            match r {
                Some(ev) => {
                    &&& ev matches GlobalMenuEvent::Snapshot(s) && s.address@ == address@
                        && s.menu_path@ == known_path(old(self).apps@, address@)->0@
                        && list_converted(s.entries@, items@)
                    &&& final(self).active matches Some(a) && a@ == address@
                },
                None => final(self).active == old(self).active,
            },
    {
        let ghost before = self.apps@;
        let i = self.entry_index(address);
        let ghost mid = self.apps@;
        let snap = build_snapshot_at(&mut self.apps, i, address, items);
        assert(self.apps@[i as int].0@ == address@);
        proof {
            match find_index(before, address@) {
                Some(k) => {
                    assert(mid == before);
                },
                None => {
                    assert(mid.last() == mid[i as int]);
                    assert forall|k: int| 0 <= k < self.apps@.len() && k != i implies #[trigger] self.apps@[k] == before[k] by {
                        assert(mid.take(before.len() as int)[k] == mid[k]);
                    }
                },
            }
        }
        match snap {
            Some(s) => {
                self.active = Some(to_owned_string(address));
                Some(GlobalMenuEvent::Snapshot(s))
            },
            None => None,
        }
    }

    /// An application went away; when its menu was shown, the next known
    /// menu is shown instead, or none.
    pub fn remove(&mut self, address: &str) -> (r: Option<GlobalMenuEvent>)
        requires
            addresses_unique(old(self).apps@),
        ensures
            addresses_unique(final(self).apps@),
            forall|i: int| 0 <= i < final(self).apps@.len() ==> #[trigger] final(self).apps@[i].0@ != address@,
            forall|i: int| 0 <= i < old(self).apps@.len() && old(self).apps@[i].0@ != address@ ==>
                final(self).apps@.contains(#[trigger] old(self).apps@[i]),
            final(self).apps@.len() <= old(self).apps@.len(),
            match find_index(old(self).apps@, address@) {
                Some(i) => final(self).apps@ == old(self).apps@.remove(i),
                None => final(self).apps@ == old(self).apps@,
            },
            (old(self).active matches Some(a) && a@ == address@) ==> (r matches Some(ev) && promotion(final(self).apps@, final(self).active, ev)),
            !(old(self).active matches Some(a) && a@ == address@) ==> r is None && final(self).active == old(self).active,
    {
        let removed_active = match &self.active {
            Some(a) => str_eq(a.as_str(), address),
            None => false,
        };
        match find_app(&self.apps, address) {
            Some(i) => {
                proof { lemma_find_index(self.apps@, address@, i as int); }
                let ghost before = self.apps@;
                self.apps.remove(i);
                proof {
                    assert forall|k: int| 0 <= k < self.apps@.len() implies #[trigger] self.apps@[k].0@ != address@ by {
                        if k < i {
                            assert(self.apps@[k] == before[k]);
                        } else {
                            assert(self.apps@[k] == before[k + 1]);
                        }
                    }
                    assert forall|k: int| 0 <= k < before.len() && before[k].0@ != address@ implies
                        self.apps@.contains(#[trigger] before[k]) by {
                        if k < i {
                            assert(self.apps@[k] == before[k]);
                        } else {
                            assert(k != i);
                            assert(self.apps@[k - 1] == before[k]);
                        }
                    }
                    assert forall|x: int, y: int| 0 <= x < y < self.apps@.len() implies
                        #[trigger] self.apps@[x].0@ != #[trigger] self.apps@[y].0@ by {
                        let xx = if x < i { x } else { x + 1 };
                        let yy = if y < i { y } else { y + 1 };
                        assert(self.apps@[x] == before[xx]);
                        assert(self.apps@[y] == before[yy]);
                    }
                }
            },
            None => {
                proof {
                    lemma_find_index_none(self.apps@, address@);
                    assert forall|k: int| 0 <= k < self.apps@.len() && self.apps@[k].0@ != address@ implies
                        self.apps@.contains(#[trigger] self.apps@[k]) by {
                        assert(self.apps@[k] == self.apps@[k]);
                    }
                }
            },
        }
        if removed_active {
            let (next, ev) = promote_next(&self.apps);
            self.active = next;
            Some(ev)
        } else {
            None
        }
    }
}

fn set_menu_path_at(apps: &mut Vec<(String, RemoteAppState)>, i: usize, path: String)
    requires
        i < old(apps)@.len(),
    ensures
        final(apps)@.len() == old(apps)@.len(),
        final(apps)@[i as int].0 == old(apps)@[i as int].0,
        final(apps)@[i as int].1.menu_path == Some(path),
        final(apps)@[i as int].1.last_entries == old(apps)@[i as int].1.last_entries,
        forall|k: int| 0 <= k < old(apps)@.len() && k != i ==> final(apps)@[k] == old(apps)@[k],
{
    let (addr, st) = apps.remove(i);
    let st2 = RemoteAppState { menu_path: Some(path), last_entries: st.last_entries };
    apps.insert(i, (addr, st2));
}

fn build_snapshot_at(
    apps: &mut Vec<(String, RemoteAppState)>,
    i: usize,
    address: &str,
    items: &[TrayMenuItem],
) -> (r: Option<GlobalMenuSnapshot>)
    requires
        i < old(apps)@.len(),
    ensures
        final(apps)@.len() == old(apps)@.len(),
        final(apps)@[i as int].0 == old(apps)@[i as int].0,
        forall|k: int| 0 <= k < old(apps)@.len() && k != i ==> final(apps)@[k] == old(apps)@[k],
        final(apps)@[i as int].1.menu_path == old(apps)@[i as int].1.menu_path,
        old(apps)@[i as int].1.menu_path is None ==> r is None && final(apps)@[i as int].1 == old(apps)@[i as int].1,
        old(apps)@[i as int].1.menu_path matches Some(p) ==> (r matches Some(s) && s.address@ == address@
            && s.menu_path@ == p@ && list_converted(s.entries@, items@)
            && (final(apps)@[i as int].1.last_entries matches Some(le) && list_converted(le@, items@))),
{
    let (addr, mut st) = apps.remove(i);
    let r = build_snapshot(address, &mut st, items);
    apps.insert(i, (addr, st));
    r
}

/// The menu path known for the application with this address, if any.
pub open spec fn known_path(apps: Seq<(String, RemoteAppState)>, address: Seq<char>) -> Option<String> {
    match find_index(apps, address) {
        Some(k) => apps[k].1.menu_path,
        None => None,
    }
}

/// The last entries known for the application with this address, if any.
pub open spec fn known_entries(apps: Seq<(String, RemoteAppState)>, address: Seq<char>) -> Option<Vec<RemoteMenuEntry>> {
    match find_index(apps, address) {
        Some(k) => apps[k].1.last_entries,
        None => None,
    }
}

/// The index of the first application with this address.
pub open spec fn find_index(apps: Seq<(String, RemoteAppState)>, address: Seq<char>) -> Option<int> {
    if exists|i: int| 0 <= i < apps.len() && #[trigger] apps[i].0@ == address {
        Some(choose|i: int| 0 <= i < apps.len() && #[trigger] apps[i].0@ == address)
    } else {
        None
    }
}

proof fn lemma_find_index(apps: Seq<(String, RemoteAppState)>, address: Seq<char>, i: int)
    requires
        addresses_unique(apps),
        0 <= i < apps.len(),
        apps[i].0@ == address,
    ensures
        find_index(apps, address) == Some(i),
{
    let j = choose|j: int| 0 <= j < apps.len() && #[trigger] apps[j].0@ == address;
    if j != i {
        if j < i {
            assert(apps[j].0@ != apps[i].0@);
        } else {
            assert(apps[i].0@ != apps[j].0@);
        }
    }
}

proof fn lemma_find_index_none(apps: Seq<(String, RemoteAppState)>, address: Seq<char>)
    requires
        forall|i: int| 0 <= i < apps.len() ==> #[trigger] apps[i].0@ != address,
    ensures
        find_index(apps, address) is None,
{
}

} // verus!
