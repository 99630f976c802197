//! The global menu bridge: the commands its service loop handles, the
//! signals it emits for them, the window registration with the AppMenu
//! registrar, and the events it reports back to the menu bar.

use vstd::prelude::*;
use crate::dbus_menu::{
    MenuState, MenuSnapshot, PropValue, properties_index, properties_updates, registration_updates,
    request_layout_updates, updates_view, index_view, index_of, flatten, props_changed, next_revision,
    listed_props, layout_nodes, root_props, PropView, RemoteMenuNode,
};

verus! {

/// What the global menu service reports to the application.
#[derive(PartialEq, Eq, Structural, Clone, Copy)]
pub enum BridgeEvent {
    /// The menu item with this id was activated from the global menu.
    Activated(i32),
    /// An external menu importer is reading the menu.
    ImporterDetected,
}

/// What the application asks of the service loop.
pub enum Command {
    /// Publish this menu.
    UpdateMenu(MenuSnapshot),
    /// Register (or, with `None`, unregister) the window.
    SetWindow(Option<u64>),
    /// Announce the layout under this id again.
    RequestLayout(i32),
    /// Stop the service.
    Shutdown,
}

/// A DBusMenu signal the service emits.
pub enum MenuSignal {
    /// `LayoutUpdated(revision, parent)`.
    LayoutUpdated(u32, i32),
    /// `ItemsPropertiesUpdated(updated, [])`.
    ItemsPropertiesUpdated(Vec<(i32, Vec<(String, PropValue)>)>),
}

/// What the service loop does next.
pub enum LoopStep {
    /// Emit these signals and wait for the next command.
    Emit(Vec<MenuSignal>),
    /// Register the window with the registrar, then call `after_registration`.
    Register(Option<u64>),
    /// Leave the loop.
    Stop,
}

/// The signals announcing a menu change from `prev` to `next` at
/// `revision`: the root's layout, then the properties of every node that is
/// new or changed, each once, in any order.
pub open spec fn update_signals(prev_entries: Seq<RemoteMenuNode>, next_entries: Seq<RemoteMenuNode>, revision: u32, r: Seq<MenuSignal>) -> bool {
    &&& r.len() == 2
    &&& r[0] == MenuSignal::LayoutUpdated(revision, 0)
    &&& r[1] matches MenuSignal::ItemsPropertiesUpdated(u) && {
        let prev = index_of(flatten(prev_entries));
        let next = index_of(flatten(next_entries));
        &&& forall|i: int| 0 <= i < u@.len() ==> {
            let id = #[trigger] u@[i].0;
            next.contains_key(id) && crate::dbus_menu::props_view(u@[i].1@) == next[id]
                && props_changed(prev, next, id)
        }
        &&& forall|id: i32| #[trigger] props_changed(prev, next, id) ==> exists|i: int| 0 <= i < u@.len() && u@[i].0 == id
        &&& forall|i: int, j: int| 0 <= i < j < u@.len() ==> u@[i].0 != u@[j].0
    }
}

/// The signals announcing the layout under `parent` again: that layout,
/// then the properties of the nodes it lists.
pub open spec fn layout_signals(entries: Seq<RemoteMenuNode>, revision: u32, parent: i32, r: Seq<MenuSignal>) -> bool {
    &&& r.len() == 2
    &&& r[0] == MenuSignal::LayoutUpdated(revision, parent)
    &&& r[1] matches MenuSignal::ItemsPropertiesUpdated(u) && updates_view(u@) == listed_props(layout_nodes(entries, parent))
}

/// `UpdateMenu`: the menu state takes the snapshot; the service announces
/// the root's layout at the new revision and the properties of the nodes
/// that are new or changed.
#[verifier::spinoff_prover]
pub fn update_menu(state: &mut MenuState, snapshot: MenuSnapshot) -> (r: Vec<MenuSignal>)
    ensures
        final(state).entries == snapshot.entries,
        final(state).revision == next_revision(old(state).revision),
        update_signals(old(state).entries@, final(state).entries@, final(state).revision, r@),
{
    let prev_index = properties_index(state.entries.as_slice());
    state.replace(snapshot);
    let next_index = properties_index(state.entries.as_slice());
    let updates = properties_updates(&prev_index, &next_index);
    let ghost u = updates@;
    let mut out: Vec<MenuSignal> = Vec::new();
    out.push(MenuSignal::LayoutUpdated(state.revision, 0));
    out.push(MenuSignal::ItemsPropertiesUpdated(updates));
    proof {
        let prev = index_of(flatten(old(state).entries@));
        let next = index_of(flatten(state.entries@));
        assert(index_view(prev_index@) == prev);
        assert(index_view(next_index@) == next);
        assert forall|id: i32| #[trigger] props_changed(prev, next, id) implies exists|i: int| 0 <= i < u.len() && u[i].0 == id by {
            assert(props_changed(index_view(prev_index@), index_view(next_index@), id));
        }
        assert(out@[1] == MenuSignal::ItemsPropertiesUpdated(updates));
        assert(out@.len() == 2);
        assert(out@[0] == MenuSignal::LayoutUpdated(state.revision, 0));
        assert(forall|i: int| 0 <= i < u.len() ==> {
            let id = #[trigger] u[i].0;
            next.contains_key(id) && crate::dbus_menu::props_view(u[i].1@) == next[id]
                && props_changed(prev, next, id)
        });
        assert(forall|i: int, j: int| 0 <= i < j < u.len() ==> u[i].0 != u[j].0);
        assert((out@[1]->ItemsPropertiesUpdated_0)@ == u);
    }
    out
}

/// `RequestLayout(parent)`: the layout under `parent` is announced again,
/// with the properties of the nodes it lists.
pub fn request_layout(state: &MenuState, parent: i32) -> (r: Vec<MenuSignal>)
    ensures
        layout_signals(state.entries@, state.revision, parent, r@),
{
    let mut out: Vec<MenuSignal> = Vec::new();
    out.push(MenuSignal::LayoutUpdated(state.revision, parent));
    out.push(MenuSignal::ItemsPropertiesUpdated(request_layout_updates(state, parent)));
    out
}

/// One command of the service loop.
pub fn handle_command(state: &mut MenuState, cmd: Command) -> (r: LoopStep)
    ensures
        match cmd {
            Command::UpdateMenu(s) => final(state).entries == s.entries
                && final(state).revision == next_revision(old(state).revision)
                && (r matches LoopStep::Emit(v) && update_signals(old(state).entries@, s.entries@, final(state).revision, v@)),
            Command::SetWindow(w) => *final(state) == *old(state) && r == LoopStep::Register(w),
            Command::RequestLayout(p) => *final(state) == *old(state)
                && (r matches LoopStep::Emit(v) && layout_signals(old(state).entries@, old(state).revision, p, v@)),
            Command::Shutdown => *final(state) == *old(state) && r is Stop,
        },
{
    match cmd {
        Command::UpdateMenu(s) => LoopStep::Emit(update_menu(state, s)),
        Command::SetWindow(w) => LoopStep::Register(w),
        Command::RequestLayout(p) => LoopStep::Emit(request_layout(state, p)),
        Command::Shutdown => LoopStep::Stop,
    }
}

/// After a successful registration of `window`: the X11 window that gets
/// the appmenu hints (the id cut to 32 bits), and the signals that let
/// importers read the menu, the root's layout and every node's properties
/// followed by the root's.
pub fn after_registration(state: &MenuState, window: Option<u64>) -> (r: (Option<u32>, Vec<MenuSignal>))
    ensures
        r.0 == (match window {
            Some(w) => Some(w as u32),
            None => None,
        }),
        r.1@.len() == 2,
        r.1@[0] == MenuSignal::LayoutUpdated(state.revision, 0),
        r.1@[1] matches MenuSignal::ItemsPropertiesUpdated(u) && updates_view(u@) == flatten(state.entries@).push((0i32, root_props())),
{
    let hint = match window {
        Some(w) => Some(w as u32),
        None => None,
    };
    let mut out: Vec<MenuSignal> = Vec::new();
    out.push(MenuSignal::LayoutUpdated(state.revision, 0));
    out.push(MenuSignal::ItemsPropertiesUpdated(registration_updates(state)));
    (hint, out)
}

/// The call to make on the registrar for a window change.
#[derive(PartialEq, Eq, Structural, Clone, Copy)]
pub enum RegistrarCall {
    /// Nothing to do.
    Nothing,
    /// `RegisterWindow(window, ...)`.
    Register(u32),
    /// `UnregisterWindow(window)`.
    Unregister(u32),
}

/// The window registration with the AppMenu registrar.
pub struct AppMenuRegistrar {
    pub current: Option<u64>,
    pub service: String,
}

impl AppMenuRegistrar {
    /// Nothing registered yet.
    pub fn new(service: String) -> (r: Self)
        ensures
            r.current is None,
            r.service == service,
    {
        AppMenuRegistrar { current: None, service }
    }

    /// The call that moves the registration to `window_id`: none when it is
    /// already there, a registration for a window, an unregistration of the
    /// current window for `None`.
    pub fn plan(&self, window_id: Option<u64>) -> (r: RegistrarCall)
        ensures
            r == (if self.current == window_id {
                RegistrarCall::Nothing
            } else {
                match window_id {
                    Some(w) => RegistrarCall::Register(w as u32),
                    None => match self.current {
                        Some(c) => RegistrarCall::Unregister(c as u32),
                        None => RegistrarCall::Nothing,
                    },
                }
            }),
    {
        if self.current == window_id {
            return RegistrarCall::Nothing;
        }
        match window_id {
            Some(w) => RegistrarCall::Register(w as u32),
            None => match self.current {
                Some(c) => RegistrarCall::Unregister(c as u32),
                None => RegistrarCall::Nothing,
            },
        }
    }

    /// Records the outcome of the planned call: a failed
    /// registration keeps the old window and reports the failure; a failed
    /// unregistration still forgets the old window.
    pub fn finish(&mut self, window_id: Option<u64>, call_succeeded: bool) -> (ok: bool)
        ensures
            old(self).current == window_id ==> ok && final(self).current == old(self).current,
            old(self).current != window_id ==> match window_id {
                Some(_) => ok == call_succeeded
                    && final(self).current == (if call_succeeded { window_id } else { old(self).current }),
                None => final(self).current is None && ok == (old(self).current is None || call_succeeded),
            },
            final(self).service == old(self).service,
    {
        if self.current == window_id {
            return true;
        }
        match window_id {
            Some(_) => {
                if !call_succeeded {
                    return false;
                }
                self.current = window_id;
                true
            },
            None => {
                let had = self.current.is_some();
                self.current = None;
                !had || call_succeeded
            },
        }
    }
}

} // verus!
