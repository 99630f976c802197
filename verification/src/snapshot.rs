//! Turning the menu bar's item tree into the DBusMenu snapshot the global menu
//! service publishes: ids in pre-order, separators recognised by label,
//! the callbacks of leaves collected by id, and a signature of the content.

use vstd::prelude::*;
use std::collections::hash_map::DefaultHasher;
use std::hash::Hasher;
use vstd::std_specs::hash::DefaultHasherAdditionalSpecFns;
use vstd::string::StringSliceAdditionalSpecFns;
use vstd::utf8::encode_utf8;
use crate::dbus_menu::{RemoteMenuNode, MenuSnapshot, flatten};
use crate::menu_items::{MenuBarItem, opt_text_view};
use crate::textutil::{trim, trimmed_string, str_eq};

verus! {

/// How many entries a list of items holds, submenus included.
pub open spec fn forest_size(items: Seq<MenuBarItem>) -> nat
    decreases items,
{
    if items.len() == 0 {
        0
    } else {
        proof {
            assert(decreases_to!(items => items[items.len() - 1]));
            assert(decreases_to!(items[items.len() - 1] => items[items.len() - 1].submenu));
            assert(decreases_to!(items[items.len() - 1].submenu => items[items.len() - 1].submenu@));
        }
        forest_size(items.subrange(0, items.len() - 1)) + 1 + forest_size(items[items.len() - 1].submenu@)
    }
}

/// An item is a separator when its trimmed label is `---`.
pub open spec fn is_separator_item(item: MenuBarItem) -> bool {
    trim(item.label@) == "---"@
}

/// `node` is the snapshot of `item`, numbered `id`, its children numbered
/// from `id + 1` in pre-order.
pub open spec fn node_converted(node: RemoteMenuNode, item: MenuBarItem, id: int) -> bool
    decreases item,
{
    &&& node.id == id
    &&& node.label@ == item.label@
    &&& node.is_separator == is_separator_item(item)
    &&& node.enabled == (item.enabled && !is_separator_item(item))
    &&& opt_text_view(node.shortcut) == opt_text_view(item.shortcut)
    &&& node.children@.len() == item.submenu@.len()
    &&& forall|k: int|
        0 <= k < item.submenu@.len() ==> node_converted(
            #[trigger] node.children@[k],
            item.submenu@[k],
            id + 1 + forest_size(item.submenu@.take(k)),
        )
}

/// `nodes` are the snapshots of `items`, numbered in pre-order from `start`.
pub open spec fn forest_converted(nodes: Seq<RemoteMenuNode>, items: Seq<MenuBarItem>, start: int) -> bool {
    &&& nodes.len() == items.len()
    &&& forall|k: int| 0 <= k < items.len() ==> node_converted(#[trigger] nodes[k], items[k], start + forest_size(items.take(k)))
}

/// The callbacks of the snapshot of `items` numbered from `start`: each
/// leaf that is not a separator and has a callback, by id; a node's
/// children are listed before the node itself.
pub open spec fn action_list(items: Seq<MenuBarItem>, start: int) -> Seq<(i32, u64)>
    decreases items,
{
    if items.len() == 0 {
        Seq::empty()
    } else {
        proof {
            assert(decreases_to!(items => items[items.len() - 1]));
            assert(decreases_to!(items[items.len() - 1] => items[items.len() - 1].submenu));
            assert(decreases_to!(items[items.len() - 1].submenu => items[items.len() - 1].submenu@));
        }
        let pre = items.subrange(0, items.len() - 1);
        let last = items[items.len() - 1];
        let id = start + forest_size(pre);
        let own = if last.submenu@.len() == 0 && !is_separator_item(last) && last.on_activate is Some {
            seq![(id as i32, last.on_activate->0)]
        } else {
            Seq::empty()
        };
        action_list(pre, start) + action_list(last.submenu@, id + 1) + own
    }
}

/// The writes that hashing a text makes: its UTF-8 bytes, then the byte
/// `0xff`, which no UTF-8 text holds, so that the writes are prefix-free.
pub open spec fn text_chunks(s: Seq<char>) -> Seq<Seq<u8>> {
    seq![encode_utf8(s), seq![0xffu8]]
}

/// The write that hashing a flag makes: one byte, 1 or 0.
pub open spec fn flag_chunk(b: bool) -> Seq<u8> {
    if b { seq![1u8] } else { seq![0u8] }
}

/// Eight little-endian bytes of a count.
pub open spec fn u64_bytes(n: u64) -> Seq<u8> {
    seq![
        (n % 256) as u8,
        ((n / 256) % 256) as u8,
        ((n / 65536) % 256) as u8,
        ((n / 16777216) % 256) as u8,
        ((n / 4294967296) % 256) as u8,
        ((n / 1099511627776) % 256) as u8,
        ((n / 281474976710656) % 256) as u8,
        (n / 72057594037927936) as u8,
    ]
}

/// The hashed writes for one item: its label as a text, whether it is
/// enabled, whether it is a separator, its optional shortcut (the variant's
/// number as eight bytes, then the text when there is one) and its number of
/// children as eight bytes; integers are written little-endian, as on the
/// 64-bit little-endian targets the crate is built for.
pub open spec fn item_chunks(item: MenuBarItem) -> Seq<Seq<u8>> {
    let shortcut = match item.shortcut {
        Some(s) => seq![u64_bytes(1)] + text_chunks(s@),
        None => seq![u64_bytes(0)],
    };
    text_chunks(item.label@) + seq![flag_chunk(item.enabled), flag_chunk(is_separator_item(item))] + shortcut
        + seq![u64_bytes(item.submenu@.len() as u64)]
}

/// The hashed writes for a list of items, in pre-order.
pub open spec fn signature_chunks(items: Seq<MenuBarItem>) -> Seq<Seq<u8>>
    decreases items,
{
    if items.len() == 0 {
        Seq::empty()
    } else {
        proof {
            assert(decreases_to!(items => items[items.len() - 1]));
            assert(decreases_to!(items[items.len() - 1] => items[items.len() - 1].submenu));
            assert(decreases_to!(items[items.len() - 1].submenu => items[items.len() - 1].submenu@));
        }
        let last = items[items.len() - 1];
        signature_chunks(items.subrange(0, items.len() - 1)) + item_chunks(last) + signature_chunks(last.submenu@)
    }
}

/// The signature of a menu: the default hasher's result over its chunks.
pub open spec fn menu_signature(items: Seq<MenuBarItem>) -> u64 {
    DefaultHasher::spec_finish(signature_chunks(items))
}

proof fn lemma_forest_size_prefix(s: Seq<MenuBarItem>, j: int)
    requires
        0 <= j <= s.len(),
    ensures
        forest_size(s.take(j)) <= forest_size(s),
    decreases s.len(),
{
    if j < s.len() {
        let p = s.subrange(0, s.len() - 1);
        assert(p.take(j) =~= s.take(j));
        lemma_forest_size_prefix(p, j);
    } else {
        assert(s.take(j) =~= s);
    }
}

fn write_text(h: &mut DefaultHasher, s: &str)
    ensures
        final(h)@ == old(h)@ + text_chunks(s@),
{
    h.write(s.as_bytes());
    let mut end: Vec<u8> = Vec::new();
    end.push(0xffu8);
    h.write(end.as_slice());
    assert(final(h)@ =~= old(h)@ + text_chunks(s@));
}

fn u64_bytes_of(n: u64) -> (r: Vec<u8>)
    ensures
        r@ == u64_bytes(n),
{
    let mut out: Vec<u8> = Vec::new();
    out.push((n % 256) as u8);
    out.push(((n / 256) % 256) as u8);
    out.push(((n / 65536) % 256) as u8);
    out.push(((n / 16777216) % 256) as u8);
    out.push(((n / 4294967296) % 256) as u8);
    out.push(((n / 1099511627776) % 256) as u8);
    out.push(((n / 281474976710656) % 256) as u8);
    out.push((n / 72057594037927936) as u8);
    assert(out@ =~= u64_bytes(n));
    out
}

fn flag_byte(h: &mut DefaultHasher, b: bool)
    ensures
        final(h)@ == old(h)@.push(flag_chunk(b)),
{
    let mut v: Vec<u8> = Vec::new();
    v.push(if b { 1u8 } else { 0u8 });
    assert(v@ =~= flag_chunk(b));
    h.write(v.as_slice());
}

fn label_is_separator(label: &String) -> (r: bool)
    ensures
        r == (trim(label@) == "---"@),
{
    let mut chars: Vec<char> = Vec::new();
    for c in it: label.as_str().chars()
        invariant
            it.seq() == label@,
            chars@ == it.seq().take(it.index() as int),
    {
        chars.push(c);
        assert(chars@ =~= it.seq().take(it.index() + 1));
    }
    assert(label@.take(label@.len() as int) =~= label@);
    let t = trimmed_string(&chars);
    str_eq(t.as_str(), "---")
}

fn write_item(h: &mut DefaultHasher, item: &MenuBarItem, is_sep: bool)
    requires
        is_sep == is_separator_item(*item),
    ensures
        final(h)@ == old(h)@ + item_chunks(*item),
{
    write_text(h, item.label.as_str());
    flag_byte(h, item.enabled);
    flag_byte(h, is_sep);
    match &item.shortcut {
        Some(s) => {
            let tag = u64_bytes_of(1);
            h.write(tag.as_slice());
            write_text(h, s.as_str());
        },
        None => {
            let tag = u64_bytes_of(0);
            h.write(tag.as_slice());
        },
    }
    let n = item.submenu.len() as u64;
    let nb = u64_bytes_of(n);
    h.write(nb.as_slice());
    assert(final(h)@ =~= old(h)@ + item_chunks(*item));
}

fn convert_items(
    items: &[MenuBarItem],
    next_id: &mut i32,
    actions: &mut Vec<(i32, u64)>,
    hasher: &mut DefaultHasher,
) -> (r: Vec<RemoteMenuNode>)
    requires
        *old(next_id) + forest_size(items@) <= i32::MAX,
    ensures
        *final(next_id) == *old(next_id) + forest_size(items@),
        forest_converted(r@, items@, *old(next_id) as int),
        final(actions)@ == old(actions)@ + action_list(items@, *old(next_id) as int),
        final(hasher)@ == old(hasher)@ + signature_chunks(items@),
    decreases items@,
{
    let ghost start = *next_id as int;
    let ghost acts0 = actions@;
    let ghost h0 = hasher@;
    let mut nodes: Vec<RemoteMenuNode> = Vec::new();
    let mut i: usize = 0;
    assert(items@.take(0) =~= Seq::<MenuBarItem>::empty());
    while i < items.len()
        invariant
            i <= items@.len(),
            start + forest_size(items@) <= i32::MAX,
            *next_id == start + forest_size(items@.take(i as int)),
            forest_converted(nodes@, items@.take(i as int), start),
            actions@ == acts0 + action_list(items@.take(i as int), start),
            hasher@ == h0 + signature_chunks(items@.take(i as int)),
        decreases items@.len() - i,
    {
        let item = &items[i];
        let ghost pre = items@.take(i as int);
        let ghost cur = items@.take(i + 1);
        proof {
            assert(cur.subrange(0, cur.len() - 1) =~= pre);
            assert(cur[cur.len() - 1] == *item);
            lemma_forest_size_prefix(items@, i + 1);
            assert(forest_size(cur) == forest_size(pre) + 1 + forest_size(item.submenu@));
        }
        let is_sep = label_is_separator(&item.label);
        write_item(hasher, item, is_sep);
        let id = *next_id;
        *next_id = *next_id + 1;
        proof {
            assert(decreases_to!(items@ => items@[i as int]));
            assert(decreases_to!(items@[i as int] => items@[i as int].submenu));
            assert(decreases_to!(items@[i as int].submenu => items@[i as int].submenu@));
        }
        let children = convert_items(item.submenu.as_slice(), next_id, actions, hasher);
        if item.submenu.len() == 0 && !is_sep {
            match item.on_activate {
                Some(h) => {
                    actions.push((id, h));
                },
                None => {},
            }
        }
        let shortcut = match &item.shortcut {
            Some(s) => Some(s.clone()),
            None => None,
        };
        let node = RemoteMenuNode {
            id,
            label: item.label.clone(),
            enabled: item.enabled && !is_sep,
            is_separator: is_sep,
            shortcut,
            children,
        };
        let ghost old_nodes = nodes@;
        nodes.push(node);
        proof {
            assert(node_converted(node, *item, id as int));
            assert forall|k: int| 0 <= k < cur.len() implies node_converted(#[trigger] nodes@[k], cur[k], start + forest_size(cur.take(k))) by {
                if k < i {
                    assert(cur.take(k) =~= pre.take(k));
                    assert(cur[k] == pre[k]);
                } else {
                    assert(cur.take(k) =~= pre);
                }
            }
            assert(actions@ =~= acts0 + action_list(cur, start));
            assert(hasher@ =~= h0 + signature_chunks(cur));
        }
        i = i + 1;
    }
    assert(items@.take(items@.len() as int) =~= items@);
    nodes
}

/// The snapshot of the menu bar's items, the callbacks of its leaves by id,
/// and its signature. Ids count from 1 in pre-order.
pub fn build_menu_snapshot(items: &Vec<MenuBarItem>) -> (r: (MenuSnapshot, Vec<(i32, u64)>, u64))
    requires
        1 + forest_size(items@) <= i32::MAX,
    ensures
        forest_converted(r.0.entries@, items@, 1),
        r.1@ == action_list(items@, 1),
        r.2 == menu_signature(items@),
{
    let mut hasher = DefaultHasher::new();
    let mut next_id: i32 = 1;
    let mut actions: Vec<(i32, u64)> = Vec::new();
    let nodes = convert_items(items.as_slice(), &mut next_id, &mut actions, &mut hasher);
    assert(actions@ =~= action_list(items@, 1));
    assert(hasher@ =~= signature_chunks(items@));
    let signature = hasher.finish();
    (MenuSnapshot { entries: nodes }, actions, signature)
}


/// The items of a list in pre-order: each item, then its submenu's items.
pub open spec fn preorder(items: Seq<MenuBarItem>) -> Seq<MenuBarItem>
    decreases items,
{
    if items.len() == 0 {
        Seq::empty()
    } else {
        proof {
            assert(decreases_to!(items => items[items.len() - 1]));
            assert(decreases_to!(items[items.len() - 1] => items[items.len() - 1].submenu));
            assert(decreases_to!(items[items.len() - 1].submenu => items[items.len() - 1].submenu@));
        }
        let last = items[items.len() - 1];
        preorder(items.subrange(0, items.len() - 1)) + seq![last] + preorder(last.submenu@)
    }
}

/// An item whose activation runs a callback: a leaf, no separator, with a
/// callback.
pub open spec fn is_action_leaf(item: MenuBarItem) -> bool {
    item.submenu@.len() == 0 && !is_separator_item(item) && item.on_activate is Some
}

/// The callbacks of the action leaves among `items`, the item at position
/// `k` numbered `start + k`, in order.
pub open spec fn leaf_actions(items: Seq<MenuBarItem>, start: int) -> Seq<(i32, u64)>
    decreases items.len(),
{
    if items.len() == 0 {
        Seq::empty()
    } else {
        let rest = leaf_actions(items.drop_last(), start);
        if is_action_leaf(items.last()) {
            rest.push(((start + items.len() - 1) as i32, items.last().on_activate->0))
        } else {
            rest
        }
    }
}

proof fn lemma_preorder_len(items: Seq<MenuBarItem>)
    ensures
        preorder(items).len() == forest_size(items),
    decreases items,
{
    if items.len() > 0 {
        let n = items.len();
        assert(decreases_to!(items => items[n - 1]));
        assert(decreases_to!(items[n - 1] => items[n - 1].submenu));
        assert(decreases_to!(items[n - 1].submenu => items[n - 1].submenu@));
        lemma_preorder_len(items.subrange(0, n - 1));
        lemma_preorder_len(items[n - 1].submenu@);
    }
}

proof fn lemma_leaf_actions_concat(a: Seq<MenuBarItem>, b: Seq<MenuBarItem>, start: int)
    ensures
        leaf_actions(a + b, start) == leaf_actions(a, start) + leaf_actions(b, start + a.len()),
    decreases b.len(),
{
    if b.len() == 0 {
        assert(a + b =~= a);
        assert(leaf_actions(a, start) + Seq::<(i32, u64)>::empty() =~= leaf_actions(a, start));
    } else {
        assert((a + b).drop_last() =~= a + b.drop_last());
        assert((a + b).last() == b.last());
        lemma_leaf_actions_concat(a, b.drop_last(), start);
        let x = leaf_actions(a, start);
        let y = leaf_actions(b.drop_last(), start + a.len());
        if is_action_leaf(b.last()) {
            assert((x + y).push(((start + (a + b).len() - 1) as i32, b.last().on_activate->0))
                =~= x + y.push(((start + a.len() + b.len() - 1) as i32, b.last().on_activate->0)));
        }
    }
}

/// The callback table lists the action leaves of the menu in pre-order,
/// each by its id (its pre-order position counted from `start`) with its
/// callback. As long as the ids fit in an `i32`: every entry is the id of
/// an item that is a leaf, no separator and has a callback, paired with that
/// callback; every such item has its entry; and the ids increase, so none
/// appears twice.
pub proof fn law_callbacks_are_action_leaves(items: Seq<MenuBarItem>, start: int)
    ensures
        action_list(items, start) == leaf_actions(preorder(items), start),
        start >= 0 && start + forest_size(items) <= i32::MAX ==> forall|i: int| 0 <= i < action_list(items, start).len() ==> {
            let k = (#[trigger] action_list(items, start)[i]).0 - start;
            &&& 0 <= k < preorder(items).len()
            &&& is_action_leaf(preorder(items)[k])
            &&& action_list(items, start)[i].1 == preorder(items)[k].on_activate->0
        },
        start >= 0 && start + forest_size(items) <= i32::MAX ==> forall|k: int|
            0 <= k < preorder(items).len() && is_action_leaf(#[trigger] preorder(items)[k]) ==>
            action_list(items, start).contains(((start + k) as i32, preorder(items)[k].on_activate->0)),
        start >= 0 && start + forest_size(items) <= i32::MAX ==> forall|i: int, j: int|
            0 <= i < j < action_list(items, start).len() ==>
            (#[trigger] action_list(items, start)[i]).0 < (#[trigger] action_list(items, start)[j]).0,
    decreases items,
{
    lemma_actions_preorder(items, start);
    lemma_preorder_len(items);
    if start >= 0 && start + forest_size(items) <= i32::MAX {
        lemma_leaf_actions_ids(preorder(items), start);
    }
}

proof fn lemma_actions_preorder(items: Seq<MenuBarItem>, start: int)
    ensures
        action_list(items, start) == leaf_actions(preorder(items), start),
    decreases items,
{
    if items.len() > 0 {
        let n = items.len();
        let pre = items.subrange(0, n - 1);
        let last = items[n - 1];
        assert(decreases_to!(items => items[n - 1]));
        assert(decreases_to!(items[n - 1] => items[n - 1].submenu));
        assert(decreases_to!(items[n - 1].submenu => items[n - 1].submenu@));
        lemma_actions_preorder(pre, start);
        lemma_preorder_len(pre);
        let id = start + forest_size(pre);
        lemma_actions_preorder(last.submenu@, id + 1);
        let pp = preorder(pre);
        let ps = preorder(last.submenu@);
        lemma_leaf_actions_concat(pp + seq![last], ps, start);
        lemma_leaf_actions_concat(pp, seq![last], start);
        assert(seq![last].drop_last() =~= Seq::<MenuBarItem>::empty());
        assert(seq![last].last() == last);
        let own = if is_action_leaf(last) { seq![(id as i32, last.on_activate->0)] } else { Seq::<(i32, u64)>::empty() };
        reveal_with_fuel(leaf_actions, 2);
        assert(leaf_actions(seq![last].drop_last(), id) =~= Seq::<(i32, u64)>::empty());
        assert(leaf_actions(seq![last], id) =~= own);
        if is_action_leaf(last) {
            assert(last.submenu@.len() == 0);
            assert(ps =~= Seq::<MenuBarItem>::empty());
            assert(action_list(last.submenu@, id + 1) =~= Seq::<(i32, u64)>::empty());
            assert(leaf_actions(ps, id + 1) =~= Seq::<(i32, u64)>::empty());
            assert(action_list(items, start) =~= leaf_actions(pp, start) + own);
            assert(leaf_actions(preorder(items), start) =~= leaf_actions(pp, start) + own + Seq::<(i32, u64)>::empty());
        } else {
            assert(action_list(items, start) =~= leaf_actions(pp, start) + leaf_actions(ps, id + 1));
            assert(leaf_actions(preorder(items), start) =~= leaf_actions(pp, start) + own + leaf_actions(ps, id + 1));
        }
    }
}

proof fn lemma_leaf_actions_ids(items: Seq<MenuBarItem>, start: int)
    requires
        start >= 0,
        start + items.len() <= i32::MAX,
    ensures
        forall|i: int| 0 <= i < leaf_actions(items, start).len() ==> {
            let k = (#[trigger] leaf_actions(items, start)[i]).0 - start;
            &&& 0 <= k < items.len()
            &&& is_action_leaf(items[k])
            &&& leaf_actions(items, start)[i].1 == items[k].on_activate->0
        },
        forall|k: int| 0 <= k < items.len() && is_action_leaf(#[trigger] items[k]) ==>
            leaf_actions(items, start).contains(((start + k) as i32, items[k].on_activate->0)),
        forall|i: int, j: int| 0 <= i < j < leaf_actions(items, start).len() ==>
            (#[trigger] leaf_actions(items, start)[i]).0 < (#[trigger] leaf_actions(items, start)[j]).0,
    decreases items.len(),
{
    if items.len() > 0 {
        let d = items.drop_last();
        lemma_leaf_actions_ids(d, start);
        let r = leaf_actions(d, start);
        let n = items.len();
        assert forall|k: int| 0 <= k < d.len() implies d[k] == items[k] by {}
        if is_action_leaf(items.last()) {
            let l = r.push(((start + n - 1) as i32, items.last().on_activate->0));
            assert forall|i: int| 0 <= i < l.len() implies {
                let k = (#[trigger] l[i]).0 - start;
                &&& 0 <= k < items.len()
                &&& is_action_leaf(items[k])
                &&& l[i].1 == items[k].on_activate->0
            } by {
                if i < r.len() {
                    assert(l[i] == r[i]);
                }
            }
            assert forall|k: int| 0 <= k < items.len() && is_action_leaf(#[trigger] items[k]) implies
                l.contains(((start + k) as i32, items[k].on_activate->0)) by {
                if k < n - 1 {
                    assert(d[k] == items[k]);
                    let i = choose|i: int| 0 <= i < r.len() && r[i] == ((start + k) as i32, d[k].on_activate->0);
                    assert(l[i] == r[i]);
                } else {
                    assert(l[l.len() - 1] == ((start + k) as i32, items[k].on_activate->0));
                }
            }
            assert forall|i: int, j: int| 0 <= i < j < l.len() implies (#[trigger] l[i]).0 < (#[trigger] l[j]).0 by {
                assert(l[i] == r[i] || i == r.len());
                if j < r.len() {
                    assert(l[i] == r[i] && l[j] == r[j]);
                } else {
                    assert(l[i] == r[i]);
                    assert(r[i].0 - start < d.len());
                }
            }
        } else {
            assert forall|k: int| 0 <= k < items.len() && is_action_leaf(#[trigger] items[k]) implies
                r.contains(((start + k) as i32, items[k].on_activate->0)) by {
                assert(k < n - 1);
                assert(d[k] == items[k]);
            }
        }
    }
}

/// Two items look alike: the same label, enabled flag and shortcut, and
/// submenus that look alike entry by entry; ids and callbacks may differ.
pub open spec fn same_item_shape(x: MenuBarItem, y: MenuBarItem) -> bool
    decreases x,
{
    &&& x.label@ == y.label@
    &&& x.enabled == y.enabled
    &&& opt_text_view(x.shortcut) == opt_text_view(y.shortcut)
    &&& x.submenu@.len() == y.submenu@.len()
    &&& forall|k: int| 0 <= k < x.submenu@.len() ==> same_item_shape(#[trigger] x.submenu@[k], y.submenu@[k])
}

/// Two lists of items look alike entry by entry.
pub open spec fn same_shape(a: Seq<MenuBarItem>, b: Seq<MenuBarItem>) -> bool {
    &&& a.len() == b.len()
    &&& forall|k: int| 0 <= k < a.len() ==> same_item_shape(#[trigger] a[k], b[k])
}

/// The signature depends only on what the menu shows: labels, enabled
/// flags, shortcuts and the shape of the submenus. Menus that differ only in
/// their items' ids or callbacks have the same signature.
pub proof fn law_signature_ignores_ids_and_callbacks(a: Seq<MenuBarItem>, b: Seq<MenuBarItem>)
    requires
        same_shape(a, b),
    ensures
        signature_chunks(a) == signature_chunks(b),
        menu_signature(a) == menu_signature(b),
    decreases a,
{
    if a.len() > 0 {
        let n = a.len();
        let pa = a.subrange(0, n - 1);
        let pb = b.subrange(0, n - 1);
        assert(same_shape(pa, pb)) by {
            assert forall|k: int| 0 <= k < pa.len() implies same_item_shape(#[trigger] pa[k], pb[k]) by {
                assert(pa[k] == a[k] && pb[k] == b[k]);
            }
        }
        law_signature_ignores_ids_and_callbacks(pa, pb);
        let x = a[n - 1];
        let y = b[n - 1];
        assert(same_item_shape(x, y));
        assert(decreases_to!(a => a[n - 1]));
        assert(decreases_to!(a[n - 1] => a[n - 1].submenu));
        assert(decreases_to!(a[n - 1].submenu => a[n - 1].submenu@));
        law_signature_ignores_ids_and_callbacks(x.submenu@, y.submenu@);
        assert(is_separator_item(x) == is_separator_item(y));
        assert(item_chunks(x) == item_chunks(y)) by {
            match x.shortcut {
                Some(s) => {
                    assert(y.shortcut->0@ == s@);
                },
                None => {},
            }
        }
    }
}


/// The snapshot numbers its entries consecutively in pre-order: listing its
/// nodes depth-first gives one node per entry, with ids `start`,
/// `start + 1`, ... in that order, so no two nodes share an id.
pub proof fn law_snapshot_ids_are_preorder_positions(nodes: Seq<RemoteMenuNode>, items: Seq<MenuBarItem>, start: int)
    requires
        forest_converted(nodes, items, start),
    ensures
        flatten(nodes).len() == forest_size(items),
        forall|k: int| 0 <= k < flatten(nodes).len() ==> #[trigger] flatten(nodes)[k].0 == start + k,
    decreases items,
{
    if items.len() > 0 {
        let n = items.len();
        let pre_items = items.subrange(0, n - 1);
        let pre_nodes = nodes.subrange(0, n - 1);
        assert forall|k: int| 0 <= k < pre_items.len() implies node_converted(#[trigger] pre_nodes[k], pre_items[k], start + forest_size(pre_items.take(k))) by {
            assert(pre_items.take(k) =~= items.take(k));
            assert(node_converted(nodes[k], items[k], start + forest_size(items.take(k))));
        }
        assert(decreases_to!(items => items[n - 1]));
        assert(decreases_to!(items[n - 1] => items[n - 1].submenu));
        assert(decreases_to!(items[n - 1].submenu => items[n - 1].submenu@));
        law_snapshot_ids_are_preorder_positions(pre_nodes, pre_items, start);
        let last = nodes[n - 1];
        let item = items[n - 1];
        assert(items.take(n - 1) =~= pre_items);
        let id = start + forest_size(pre_items);
        assert(node_converted(last, item, id));
        assert(forest_converted(last.children@, item.submenu@, id + 1));
        law_snapshot_ids_are_preorder_positions(last.children@, item.submenu@, id + 1);
        assert(nodes.subrange(0, nodes.len() - 1) =~= pre_nodes);
        let a = flatten(pre_nodes);
        let b = flatten(last.children@);
        assert(flatten(nodes) == a + seq![(last.id, crate::dbus_menu::node_props(last))] + b);
        assert forall|k: int| 0 <= k < flatten(nodes).len() implies #[trigger] flatten(nodes)[k].0 == start + k by {
            if k < a.len() {
            } else if k == a.len() {
            } else {
                assert(flatten(nodes)[k] == b[k - a.len() - 1]);
            }
        }
    } else {
        assert(nodes.len() == 0);
    }
}

} // verus!
