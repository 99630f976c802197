//! Decisions of the composite widgets: which layout node each child of a
//! container gets, when a cached subtree must be drawn again, and when an
//! async fetcher rebuilds its widget.

use vstd::prelude::*;
use crate::update::{Update, UPDATE_DRAW, UPDATE_LAYOUT};

verus! {

/// The layout node a container hands a child in `update`.
#[derive(Clone, Copy, PartialEq, Eq, Structural, Debug)]
pub enum ChildSlot {
    /// A hidden child gets an empty layout.
    Hidden,
    /// A shown child gets this child of the container's layout.
    Layout(usize),
}

/// The slots of the children in order: a hidden child takes no layout entry,
/// a shown one takes the next; the walk stops at the first shown child left
/// without an entry.
pub open spec fn update_slots(hidden: Seq<bool>, layout_len: usize, next: usize) -> Seq<ChildSlot>
    decreases hidden.len(),
{
    if hidden.len() == 0 {
        Seq::empty()
    } else if hidden[0] {
        seq![ChildSlot::Hidden] + update_slots(hidden.drop_first(), layout_len, next)
    } else if next < layout_len {
        seq![ChildSlot::Layout(next)] + update_slots(hidden.drop_first(), layout_len, (next + 1) as usize)
    } else {
        Seq::empty()
    }
}

/// `Container::update`: the slot of each child updated, `hidden` saying of
/// each child whether its style hides it.
pub fn container_update_slots(hidden: &Vec<bool>, layout_len: usize) -> (r: Vec<ChildSlot>)
    ensures
        r@ == update_slots(hidden@, layout_len, 0),
{
    let mut out: Vec<ChildSlot> = Vec::new();
    let mut next: usize = 0;
    let mut i: usize = 0;
    assert(hidden@.skip(0) =~= hidden@);
    while i < hidden.len()
        invariant
            i <= hidden@.len(),
            next <= layout_len,
            update_slots(hidden@, layout_len, 0) == out@ + update_slots(hidden@.skip(i as int), layout_len, next),
        decreases hidden@.len() - i,
    {
        let ghost rest = hidden@.skip(i as int);
        assert(rest.drop_first() =~= hidden@.skip(i + 1));
        assert(rest[0] == hidden@[i as int]);
        if hidden[i] {
            out.push(ChildSlot::Hidden);
            assert(update_slots(hidden@, layout_len, 0) == out@ + update_slots(hidden@.skip(i + 1), layout_len, next));
        } else if next < layout_len {
            out.push(ChildSlot::Layout(next));
            assert(update_slots(hidden@, layout_len, 0) == out@ + update_slots(hidden@.skip(i + 1), layout_len, (next + 1) as usize));
            next = next + 1;
        } else {
            assert(out@ + Seq::<ChildSlot>::empty() =~= out@);
            return out;
        }
        i = i + 1;
    }
    assert(hidden@.skip(i as int) =~= Seq::<bool>::empty());
    assert(out@ + Seq::<ChildSlot>::empty() =~= out@);
    out
}

/// The pairs (child, layout entry) a container renders: the shown children
/// in order, each with the next entry, stopping when the entries run out.
pub open spec fn render_pairs(hidden: Seq<bool>, layout_len: usize, child: usize, next: usize) -> Seq<(usize, usize)>
    decreases hidden.len(),
{
    if hidden.len() == 0 {
        Seq::empty()
    } else if hidden[0] {
        render_pairs(hidden.drop_first(), layout_len, (child + 1) as usize, next)
    } else if next < layout_len {
        seq![(child, next)] + render_pairs(hidden.drop_first(), layout_len, (child + 1) as usize, (next + 1) as usize)
    } else {
        Seq::empty()
    }
}

/// `Container::for_each_visible_child`: which child is drawn with which
/// entry of the layout.
pub fn visible_children(hidden: &Vec<bool>, layout_len: usize) -> (r: Vec<(usize, usize)>)
    ensures
        r@ == render_pairs(hidden@, layout_len, 0, 0),
{
    let mut out: Vec<(usize, usize)> = Vec::new();
    let mut next: usize = 0;
    let mut i: usize = 0;
    assert(hidden@.skip(0) =~= hidden@);
    while i < hidden.len()
        invariant
            i <= hidden@.len(),
            next <= layout_len,
            render_pairs(hidden@, layout_len, 0, 0) == out@ + render_pairs(hidden@.skip(i as int), layout_len, i, next),
        decreases hidden@.len() - i,
    {
        let ghost rest = hidden@.skip(i as int);
        assert(rest.drop_first() =~= hidden@.skip(i + 1));
        assert(rest[0] == hidden@[i as int]);
        if hidden[i] {
            assert(render_pairs(hidden@, layout_len, 0, 0) == out@ + render_pairs(hidden@.skip(i + 1), layout_len, (i + 1) as usize, next));
        } else if next < layout_len {
            out.push((i, next));
            assert(render_pairs(hidden@, layout_len, 0, 0) == out@ + render_pairs(hidden@.skip(i + 1), layout_len, (i + 1) as usize, (next + 1) as usize));
            next = next + 1;
        } else {
            assert(out@ + Seq::<(usize, usize)>::empty() =~= out@);
            return out;
        }
        i = i + 1;
    }
    assert(hidden@.skip(i as int) =~= Seq::<bool>::empty());
    assert(out@ + Seq::<(usize, usize)>::empty() =~= out@);
    out
}

/// The cache of a cached subtree: whether its scene must be drawn again.
#[derive(Clone, Copy, PartialEq, Eq, Structural, Debug)]
pub struct CacheState {
    pub is_dirty: bool,
    pub has_size: bool,
}

impl CacheState {
    /// A cache that has not been drawn yet.
    pub fn new() -> (r: Self)
        ensures
            r.is_dirty && !r.has_size,
    {
        CacheState { is_dirty: true, has_size: false }
    }

    /// After the child's update: a redraw or layout request, or a new size
    /// given by the parent (`size_changed`, meaningful once a size was
    /// seen), makes the cache dirty. Returns whether the cached style and
    /// measure are to be dropped (on a layout request).
    pub fn after_child_update(&mut self, child: Update, size_changed: bool) -> (drop_measure: bool)
        ensures
            final(self).is_dirty == (old(self).is_dirty
                || child.bits & UPDATE_DRAW == UPDATE_DRAW
                || child.bits & UPDATE_LAYOUT == UPDATE_LAYOUT
                || (old(self).has_size && size_changed)),
            final(self).has_size,
            drop_measure == (child.bits & UPDATE_LAYOUT == UPDATE_LAYOUT),
    {
        if child.contains(Update::draw()) || child.contains(Update::layout()) {
            self.is_dirty = true;
        }
        let drop_measure = child.contains(Update::layout());
        if self.has_size && size_changed {
            self.is_dirty = true;
        }
        self.has_size = true;
        drop_measure
    }

    /// Before drawing: whether the scene is drawn again (dirty, or nothing
    /// cached); afterwards the cache is clean.
    pub fn before_render(&mut self, has_scene: bool) -> (redraw: bool)
        ensures
            redraw == (old(self).is_dirty || !has_scene),
            final(self).is_dirty == (old(self).is_dirty && !redraw),
            final(self).has_size == old(self).has_size,
    {
        let redraw = self.is_dirty || !has_scene;
        if redraw {
            self.is_dirty = false;
        }
        redraw
    }
}

/// What a fetcher does with its widget in a frame.
#[derive(Clone, Copy, PartialEq, Eq, Structural, Debug)]
pub enum FetchBuild {
    /// Keep the current widget.
    Keep,
    /// Build the widget for the placeholder (no result yet).
    Placeholder,
    /// Build the widget from the result.
    FromResult,
}

/// The state of an async fetcher.
#[derive(Clone, Copy, PartialEq, Eq, Structural, Debug)]
pub struct FetchState {
    pub has_widget: bool,
    pub has_rendered_result: bool,
    pub update: Update,
}

impl FetchState {
    /// A fetcher that hands back `update` when its widget changes.
    pub fn new(update: Update) -> (r: Self)
        ensures
            !r.has_widget && !r.has_rendered_result && r.update == update,
    {
        FetchState { has_widget: false, has_rendered_result: false, update }
    }

    /// One frame: once the result is ready it is built into the widget once;
    /// before, a placeholder is built when there is no widget. Each build
    /// hands back the fetcher's update.
    pub fn step(&mut self, ready: bool) -> (r: (FetchBuild, Update))
        ensures
            ready && !old(self).has_rendered_result ==> r.0 == FetchBuild::FromResult && r.1 == old(self).update
                && *final(self) == (FetchState { has_widget: true, has_rendered_result: true, ..*old(self) }),
            ready && old(self).has_rendered_result ==> r.0 == FetchBuild::Keep && r.1.bits == 0 && *final(self) == *old(self),
            !ready && !old(self).has_widget ==> r.0 == FetchBuild::Placeholder && r.1 == old(self).update
                && *final(self) == (FetchState { has_widget: true, ..*old(self) }),
            !ready && old(self).has_widget ==> r.0 == FetchBuild::Keep && r.1.bits == 0 && *final(self) == *old(self),
    {
        if ready {
            if !self.has_rendered_result {
                self.has_widget = true;
                self.has_rendered_result = true;
                (FetchBuild::FromResult, self.update)
            } else {
                (FetchBuild::Keep, Update::empty())
            }
        } else if !self.has_widget {
            self.has_widget = true;
            (FetchBuild::Placeholder, self.update)
        } else {
            (FetchBuild::Keep, Update::empty())
        }
    }
}

} // verus!
