use vstd::prelude::*;
use vstd::std_specs::hash::spec_hash_map_iter;
use vstd::std_specs::iter::IteratorSpec;
use crate::textutil::{push_char, str_eq, to_owned_string, strings_view, is_white_space, trim, trimmed_string, names_contain, clone_strings};

verus! {

/// A node in the remote menu tree.
pub struct RemoteMenuNode {
    pub id: i32,
    pub label: String,
    pub enabled: bool,
    pub is_separator: bool,
    pub shortcut: Option<String>,
    pub children: Vec<RemoteMenuNode>,
}

/// The first node, in depth-first pre-order, whose id is `id`.
pub open spec fn spec_find(roots: Seq<RemoteMenuNode>, id: i32) -> Option<RemoteMenuNode>
    decreases roots,
{
    if roots.len() == 0 {
        None
    } else {
        let n = roots[0];
        if n.id == id {
            Some(n)
        } else {
            proof {
                assert(decreases_to!(roots => roots[0]));
                assert(decreases_to!(roots[0] => roots[0].children));
                assert(decreases_to!(roots[0].children => roots[0].children@));
            }
            match spec_find(n.children@, id) {
                Some(x) => Some(x),
                None => spec_find(roots.subrange(1, roots.len() as int), id),
            }
        }
    }
}

pub fn find_node_by_id<'a>(roots: &'a [RemoteMenuNode], id: i32) -> (r: Option<&'a RemoteMenuNode>)
    ensures
        match r {
            Some(n) => spec_find(roots@, id) == Some(*n),
            None => spec_find(roots@, id) is None,
        },
    decreases roots@,
{
    let mut i: usize = 0;
    assert(roots@.subrange(0, roots@.len() as int) =~= roots@);
    while i < roots.len()
        invariant
            i <= roots@.len(),
            spec_find(roots@, id) == spec_find(roots@.subrange(i as int, roots@.len() as int), id),
        decreases roots@.len() - i,
    {
        let n = &roots[i];
        let ghost rest = roots@.subrange(i as int, roots@.len() as int);
        assert(rest[0] == *n);
        if n.id == id {
            return Some(n);
        }
        proof {
            assert(decreases_to!(roots@ => roots@[i as int]));
            assert(decreases_to!(roots@[i as int] => roots@[i as int].children));
            assert(decreases_to!(roots@[i as int].children => roots@[i as int].children@));
        }
        let found = find_node_by_id(n.children.as_slice(), id);
        if found.is_some() {
            return found;
        }
        assert(rest.subrange(1, rest.len() as int) =~= roots@.subrange(i + 1, roots@.len() as int));
        i = i + 1;
    }
    None
}


/// The pieces of `s` between `'+'` separators, as `str::split('+')` yields
/// them: one more piece than there are separators.
pub open spec fn split_plus(s: Seq<char>) -> Seq<Seq<char>>
    decreases s.len(),
{
    if s.len() == 0 {
        seq![Seq::<char>::empty()]
    } else {
        let p = split_plus(s.drop_last());
        if s.last() == '+' {
            p.push(Seq::<char>::empty())
        } else if p.len() == 0 {
            p
        } else {
            p.update(p.len() - 1, p.last().push(s.last()))
        }
    }
}

pub proof fn lemma_split_nonempty(s: Seq<char>)
    ensures
        split_plus(s).len() >= 1,
    decreases s.len(),
{
    if s.len() > 0 {
        lemma_split_nonempty(s.drop_last());
    }
}

/// The trimmed pieces of `parts` that are not empty, in order.
pub open spec fn nonempty_trimmed(parts: Seq<Seq<char>>) -> Seq<Seq<char>>
    decreases parts.len(),
{
    if parts.len() == 0 {
        Seq::empty()
    } else {
        let acc = nonempty_trimmed(parts.drop_last());
        let t = trim(parts.last());
        if t.len() > 0 {
            acc.push(t)
        } else {
            acc
        }
    }
}

/// The keys of a shortcut text such as `"Ctrl+Shift+N"`: its `'+'`-separated
/// pieces, trimmed, without the empty ones.
pub open spec fn shortcut_keys(s: Seq<char>) -> Seq<Seq<char>> {
    nonempty_trimmed(split_plus(s))
}

/// The DBusMenu encoding of a shortcut text: one key combination holding
/// its keys, or nothing when it has no key.
pub open spec fn spec_encode_shortcut(s: Seq<char>) -> Option<Seq<Seq<Seq<char>>>> {
    let keys = shortcut_keys(s);
    if keys.len() == 0 {
        None
    } else {
        Some(seq![keys])
    }
}

/// The view of an encoded shortcut.
pub open spec fn shortcut_view(v: Vec<Vec<String>>) -> Seq<Seq<Seq<char>>> {
    v@.map_values(|combo: Vec<String>| strings_view(combo@))
}

/// Encodes `"Ctrl+Shift+N"` as `[["Ctrl", "Shift", "N"]]`, the DBusMenu
/// shortcut form; `None` when the text holds no key.
pub fn encode_shortcut(s: &str) -> (r: Option<Vec<Vec<String>>>)
    ensures
        match r {
            Some(v) => spec_encode_shortcut(s@) == Some(shortcut_view(v)),
            None => spec_encode_shortcut(s@) is None,
        },
{
    let mut parts: Vec<String> = Vec::new();
    let mut cur: Vec<char> = Vec::new();
    for c in it: s.chars()
        invariant
            it.seq() == s@,
            split_plus(it.seq().take(it.index() as int)).len() >= 1,
            cur@ == split_plus(it.seq().take(it.index() as int)).last(),
            strings_view(parts@) == nonempty_trimmed(split_plus(it.seq().take(it.index() as int)).drop_last()),
    {
        let ghost pre = it.seq().take(it.index() as int);
        let ghost next = it.seq().take(it.index() + 1);
        proof {
            assert(next.drop_last() =~= pre);
            assert(next.last() == c);
        }
        if c == '+' {
            let t = trimmed_string(&cur);
            if !t.as_str().is_empty() {
                proof {
                    assert(t@.len() > 0);
                }
                parts.push(t);
            } else {
                proof {
                    assert(t@.len() == 0);
                }
            }
            cur = Vec::new();
            proof {
                let p = split_plus(pre);
                assert(split_plus(next) == p.push(Seq::<char>::empty()));
                assert(split_plus(next).drop_last() =~= p);
                assert(p =~= p.drop_last().push(p.last()));
                assert(strings_view(parts@) =~= nonempty_trimmed(p));
                assert(cur@ =~= Seq::<char>::empty());
            }
        } else {
            cur.push(c);
            proof {
                let p = split_plus(pre);
                let q = p.update(p.len() - 1, p.last().push(c));
                assert(split_plus(next) == q);
                assert(q.drop_last() =~= p.drop_last());
            }
        }
    }
    proof {
        assert(s@.take(s@.len() as int) =~= s@);
        let p = split_plus(s@);
        assert(p =~= p.drop_last().push(p.last()));
    }
    let t = trimmed_string(&cur);
    if !t.as_str().is_empty() {
        parts.push(t);
    }
    proof {
        assert(strings_view(parts@) =~= shortcut_keys(s@));
    }
    if parts.len() == 0 {
        None
    } else {
        let mut combos: Vec<Vec<String>> = Vec::new();
        combos.push(parts);
        proof {
            assert(shortcut_view(combos) =~= seq![shortcut_keys(s@)]);
        }
        Some(combos)
    }
}


/// `s` with every underscore doubled, as DBusMenu labels escape them.
pub open spec fn escape_underscores(s: Seq<char>) -> Seq<char>
    decreases s.len(),
{
    if s.len() == 0 {
        Seq::empty()
    } else {
        escape_underscores(s.drop_last()) + (if s.last() == '_' { seq!['_', '_'] } else { seq![s.last()] })
    }
}

/// Doubles every underscore of `label` (`label.replace('_', "__")`).
pub fn escape_label(label: &str) -> (r: String)
    ensures
        r@ == escape_underscores(label@),
{
    let mut out = String::new();
    for c in it: label.chars()
        invariant
            it.seq() == label@,
            out@ == escape_underscores(it.seq().take(it.index() as int)),
    {
        proof {
            let next = it.seq().take(it.index() + 1);
            assert(next.drop_last() =~= it.seq().take(it.index() as int));
        }
        if c == '_' {
            push_char(&mut out, '_');
            push_char(&mut out, '_');
            proof {
                assert(out@ =~= escape_underscores(it.seq().take(it.index() as int)) + seq!['_', '_']);
            }
        } else {
            push_char(&mut out, c);
            proof {
                assert(out@ =~= escape_underscores(it.seq().take(it.index() as int)) + seq![c]);
            }
        }
    }
    assert(label@.take(label@.len() as int) =~= label@);
    out
}

/// A DBusMenu property value.
pub enum PropValue {
    Text(String),
    Flag(bool),
    Shortcut(Vec<Vec<String>>),
}

/// What a property value holds.
pub enum PropView {
    Text(Seq<char>),
    Flag(bool),
    Shortcut(Seq<Seq<Seq<char>>>),
}

impl View for PropValue {
    type V = PropView;

    open spec fn view(&self) -> PropView {
        match self {
            PropValue::Text(s) => PropView::Text(s@),
            PropValue::Flag(b) => PropView::Flag(*b),
            PropValue::Shortcut(v) => PropView::Shortcut(shortcut_view(*v)),
        }
    }
}

/// The view of a property list: each name with its value.
pub open spec fn props_view(v: Seq<(String, PropValue)>) -> Seq<(Seq<char>, PropView)> {
    v.map_values(|p: (String, PropValue)| (p.0@, p.1@))
}

/// The properties a menu node announces, in the order they are built:
/// its escaped label (not for a separator), `enabled`, `visible`, `type`
/// (separators only), `children-display` (nodes with children only) and its
/// encoded shortcut (when its shortcut text holds a key).
pub open spec fn node_props(n: RemoteMenuNode) -> Seq<(Seq<char>, PropView)> {
    let a = if !n.is_separator {
        seq![("label"@, PropView::Text(escape_underscores(n.label@)))]
    } else {
        Seq::empty()
    };
    let b = a + seq![("enabled"@, PropView::Flag(n.enabled)), ("visible"@, PropView::Flag(true))];
    let c = if n.is_separator { b.push(("type"@, PropView::Text("separator"@))) } else { b };
    let d = if n.children.len() > 0 { c.push(("children-display"@, PropView::Text("submenu"@))) } else { c };
    match n.shortcut {
        Some(s) => match spec_encode_shortcut(s@) {
            Some(e) => d.push(("shortcut"@, PropView::Shortcut(e))),
            None => d,
        },
        None => d,
    }
}

/// The value of the property `name` of a node, looked up on its own.
pub open spec fn node_prop(n: RemoteMenuNode, name: Seq<char>) -> Option<PropView> {
    if name == "label"@ && !n.is_separator {
        Some(PropView::Text(escape_underscores(n.label@)))
    } else if name == "enabled"@ {
        Some(PropView::Flag(n.enabled))
    } else if name == "visible"@ {
        Some(PropView::Flag(true))
    } else if name == "type"@ && n.is_separator {
        Some(PropView::Text("separator"@))
    } else if name == "children-display"@ && n.children.len() > 0 {
        Some(PropView::Text("submenu"@))
    } else if name == "shortcut"@ {
        match n.shortcut {
            Some(s) => match spec_encode_shortcut(s@) {
                Some(e) => Some(PropView::Shortcut(e)),
                None => None,
            },
            None => None,
        }
    } else {
        None
    }
}

/// The value of the first entry named `name` in a property list.
pub open spec fn lookup_prop(props: Seq<(Seq<char>, PropView)>, name: Seq<char>) -> Option<PropView>
    decreases props.len(),
{
    if props.len() == 0 {
        None
    } else if props[0].0 == name {
        Some(props[0].1)
    } else {
        lookup_prop(props.drop_first(), name)
    }
}

fn text_value(s: &str) -> (r: PropValue)
    ensures
        r@ == PropView::Text(s@),
{
    PropValue::Text(to_owned_string(s))
}

fn named(name: &str, v: PropValue) -> (r: (String, PropValue))
    ensures
        r.0@ == name@,
        r.1 == v,
{
    (to_owned_string(name), v)
}

/// The property list of a node.
pub fn node_properties_map(node: &RemoteMenuNode) -> (r: Vec<(String, PropValue)>)
    ensures
        props_view(r@) == node_props(*node),
{
    let mut props: Vec<(String, PropValue)> = Vec::new();
    if !node.is_separator {
        let label = escape_label(node.label.as_str());
        props.push(named("label", PropValue::Text(label)));
    }
    props.push(named("enabled", PropValue::Flag(node.enabled)));
    props.push(named("visible", PropValue::Flag(true)));
    if node.is_separator {
        props.push(named("type", text_value("separator")));
    }
    if node.children.len() > 0 {
        props.push(named("children-display", text_value("submenu")));
    }
    match &node.shortcut {
        Some(s) => {
            match encode_shortcut(s.as_str()) {
                Some(seq) => {
                    props.push(named("shortcut", PropValue::Shortcut(seq)));
                },
                None => {},
            }
        },
        None => {},
    }
    proof {
        assert(props_view(props@) =~= node_props(*node));
    }
    props
}

/// The value of one property of a node: `None` for a
/// name the node does not announce.
pub fn node_property_value(node: &RemoteMenuNode, name: &str) -> (r: Option<PropValue>)
    ensures
        match r {
            Some(v) => node_prop(*node, name@) == Some(v@),
            None => node_prop(*node, name@) is None,
        },
{
    if str_eq(name, "label") && !node.is_separator {
        Some(PropValue::Text(escape_label(node.label.as_str())))
    } else if str_eq(name, "enabled") {
        Some(PropValue::Flag(node.enabled))
    } else if str_eq(name, "visible") {
        Some(PropValue::Flag(true))
    } else if str_eq(name, "type") && node.is_separator {
        Some(text_value("separator"))
    } else if str_eq(name, "children-display") && node.children.len() > 0 {
        Some(text_value("submenu"))
    } else if str_eq(name, "shortcut") {
        match &node.shortcut {
            Some(s) => match encode_shortcut(s.as_str()) {
                Some(e) => Some(PropValue::Shortcut(e)),
                None => None,
            },
            None => None,
        }
    } else {
        None
    }
}

/// A node with children announces that it opens a submenu
/// (`children-display` is `submenu`), both in its property list and when
/// asked for that property alone; a node without children announces no
/// `children-display` at all.
pub proof fn law_children_display_marks_submenus(n: RemoteMenuNode)
    ensures
        n.children.len() > 0 ==> node_props(n).contains(("children-display"@, PropView::Text("submenu"@))),
        n.children.len() > 0 ==> node_prop(n, "children-display"@) == Some(PropView::Text("submenu"@)),
        n.children.len() == 0 ==> node_prop(n, "children-display"@) is None,
        n.children.len() == 0 ==> forall|i: int| 0 <= i < node_props(n).len() ==>
            (#[trigger] node_props(n)[i]).0 != "children-display"@,
{
    reveal_strlit("label");
    reveal_strlit("enabled");
    reveal_strlit("visible");
    reveal_strlit("type");
    reveal_strlit("children-display");
    reveal_strlit("shortcut");
    assert("children-display"@.len() == 16);
    assert("label"@.len() == 5 && "enabled"@.len() == 7 && "visible"@.len() == 7);
    assert("type"@.len() == 4 && "shortcut"@.len() == 8);
    assert("children-display"@ != "label"@ && "children-display"@ != "enabled"@);
    assert("children-display"@ != "visible"@ && "children-display"@ != "type"@);
    let p = node_props(n);
    let a = if !n.is_separator {
        seq![("label"@, PropView::Text(escape_underscores(n.label@)))]
    } else {
        Seq::empty()
    };
    let b = a + seq![("enabled"@, PropView::Flag(n.enabled)), ("visible"@, PropView::Flag(true))];
    let c = if n.is_separator { b.push(("type"@, PropView::Text("separator"@))) } else { b };
    let d = if n.children.len() > 0 { c.push(("children-display"@, PropView::Text("submenu"@))) } else { c };
    assert forall|i: int| 0 <= i < c.len() implies (#[trigger] c[i]).0.len() != 16 by {
        if i < a.len() {
            assert(c[i] == a[i]);
        } else if i < b.len() {
            assert(c[i] == b[i]);
        }
    }
    if n.children.len() > 0 {
        let k = c.len() as int;
        assert(d[k] == ("children-display"@, PropView::Text("submenu"@)));
        match n.shortcut {
            Some(s) => match spec_encode_shortcut(s@) {
                Some(e) => assert(p[k] == d[k]),
                None => {},
            },
            None => {},
        }
        assert(p[k] == ("children-display"@, PropView::Text("submenu"@)));
    } else {
        assert forall|i: int| 0 <= i < p.len() implies (#[trigger] p[i]).0 != "children-display"@ by {
            if i < c.len() {
                assert(p[i] == c[i]);
            } else {
                assert(p[i].0 == "shortcut"@);
            }
        }
    }
}

/// A separator announces `type` = `separator` and no label; any other node
/// announces its label, with underscores doubled, and no `type`.
pub proof fn law_separators_are_typed(n: RemoteMenuNode)
    ensures
        n.is_separator ==> node_prop(n, "type"@) == Some(PropView::Text("separator"@)),
        n.is_separator ==> node_prop(n, "label"@) is None,
        !n.is_separator ==> node_prop(n, "type"@) is None,
        !n.is_separator ==> node_prop(n, "label"@) == Some(PropView::Text(escape_underscores(n.label@))),
{
    reveal_strlit("label");
    reveal_strlit("enabled");
    reveal_strlit("visible");
    reveal_strlit("type");
    reveal_strlit("children-display");
    reveal_strlit("shortcut");
    assert("type"@.len() == 4 && "label"@.len() == 5 && "enabled"@.len() == 7 && "visible"@.len() == 7);
    assert("children-display"@.len() == 16 && "shortcut"@.len() == 8);
    assert("type"@ != "label"@ && "type"@ != "enabled"@ && "type"@ != "visible"@);
    assert("label"@ != "enabled"@ && "label"@ != "visible"@ && "label"@ != "type"@);
    assert("label"@ != "children-display"@ && "label"@ != "shortcut"@);
    assert("type"@ != "children-display"@ && "type"@ != "shortcut"@);
}

/// Asking a node for one property gives what its full property list holds
/// under that name.
pub proof fn law_property_value_matches_map(n: RemoteMenuNode, name: Seq<char>)
    ensures
        node_prop(n, name) == lookup_prop(node_props(n), name),
{
    reveal_strlit("label");
    reveal_strlit("enabled");
    reveal_strlit("visible");
    reveal_strlit("type");
    reveal_strlit("children-display");
    reveal_strlit("shortcut");
    reveal_with_fuel(lookup_prop, 7);
    let p = node_props(n);
    let a = if !n.is_separator {
        seq![("label"@, PropView::Text(escape_underscores(n.label@)))]
    } else {
        Seq::empty()
    };
    let b = a + seq![("enabled"@, PropView::Flag(n.enabled)), ("visible"@, PropView::Flag(true))];
    if !n.is_separator {
        assert(b =~= seq![("label"@, PropView::Text(escape_underscores(n.label@))), ("enabled"@, PropView::Flag(n.enabled)), ("visible"@, PropView::Flag(true))]);
    } else {
        assert(b =~= seq![("enabled"@, PropView::Flag(n.enabled)), ("visible"@, PropView::Flag(true))]);
    }
}


/// A snapshot of the menu structure handed to the DBus service.
pub struct MenuSnapshot {
    pub entries: Vec<RemoteMenuNode>,
}

/// One entry of a DBusMenu layout: a node's id, its properties and, as deep
/// as asked, the layouts of its children.
pub struct LayoutItem {
    pub id: i32,
    pub properties: Vec<(String, PropValue)>,
    pub children: Vec<LayoutItem>,
}

/// Whether a layout request of depth `depth` descends into children:
/// `-1` (any negative) recurses fully, `0` stops, `n >= 1` goes `n` levels.
pub open spec fn depth_recurses(depth: int) -> bool {
    depth < 0 || depth >= 1
}

/// The depth handed to the children of a node laid out at `depth`.
pub open spec fn next_depth(depth: int) -> int {
    if depth < 0 { -1 } else { depth - 1 }
}

/// `item` is the layout of `node` requested with `depth`.
pub open spec fn layout_matches(item: LayoutItem, node: RemoteMenuNode, depth: int) -> bool
    decreases node,
{
    &&& item.id == node.id
    &&& props_view(item.properties@) == node_props(node)
    &&& if depth_recurses(depth) {
        &&& item.children@.len() == node.children@.len()
        &&& forall|i: int|
            0 <= i < node.children@.len() ==> layout_matches(
                #[trigger] item.children@[i],
                node.children@[i],
                next_depth(depth),
            )
    } else {
        item.children@.len() == 0
    }
}

/// `items` are the layouts of `nodes`, one for one, at `depth`.
pub open spec fn layouts_match(items: Seq<LayoutItem>, nodes: Seq<RemoteMenuNode>, depth: int) -> bool {
    &&& items.len() == nodes.len()
    &&& forall|i: int| 0 <= i < nodes.len() ==> layout_matches(#[trigger] items[i], nodes[i], depth)
}

/// Builds the layout of a node.
pub fn build_layout_item(node: &RemoteMenuNode, depth: i32) -> (r: LayoutItem)
    ensures
        layout_matches(r, *node, depth as int),
    decreases *node,
{
    let properties = node_properties_map(node);
    let mut children: Vec<LayoutItem> = Vec::new();
    if depth < 0 || depth >= 1 {
        let next: i32 = if depth < 0 { -1 } else { depth - 1 };
        let mut i: usize = 0;
        while i < node.children.len()
            invariant
                i <= node.children@.len(),
                next as int == next_depth(depth as int),
                children@.len() == i,
                forall|k: int| 0 <= k < i ==> layout_matches(#[trigger] children@[k], node.children@[k], next as int),
            decreases node.children@.len() - i,
        {
            proof {
                assert(decreases_to!(*node => node.children));
                assert(decreases_to!(node.children => node.children@));
                assert(decreases_to!(node.children@ => node.children@[i as int]));
            }
            let c = build_layout_item(&node.children[i], next);
            children.push(c);
            i = i + 1;
        }
    }
    LayoutItem { id: node.id, properties, children }
}

/// Builds the layouts of a list of nodes.
pub fn build_layout_items(nodes: &[RemoteMenuNode], depth: i32) -> (r: Vec<LayoutItem>)
    ensures
        layouts_match(r@, nodes@, depth as int),
{
    let mut out: Vec<LayoutItem> = Vec::new();
    let mut i: usize = 0;
    while i < nodes.len()
        invariant
            i <= nodes@.len(),
            out@.len() == i,
            forall|k: int| 0 <= k < i ==> layout_matches(#[trigger] out@[k], nodes@[k], depth as int),
        decreases nodes@.len() - i,
    {
        out.push(build_layout_item(&nodes[i], depth));
        i = i + 1;
    }
    out
}

/// The layout answered for a `GetLayout` request.
pub struct SubMenuLayout {
    pub id: i32,
    pub fields: Vec<(String, PropValue)>,
    pub submenus: Vec<LayoutItem>,
}

/// The DBusMenu state: a revision number and the current menu entries.
pub struct MenuState {
    pub revision: u32,
    pub entries: Vec<RemoteMenuNode>,
}

/// The revision that follows `r`: one more, wrapping past the largest value
/// to 1, never 0.
pub open spec fn next_revision(r: u32) -> u32 {
    if r == u32::MAX { 1 } else { (r + 1) as u32 }
}

/// The root's only property, `children-display = "menubar"`.
pub open spec fn root_props() -> Seq<(Seq<char>, PropView)> {
    seq![("children-display"@, PropView::Text("menubar"@))]
}

/// The nodes a layout request for `parent_id` lists: the top-level entries
/// for the root (id 0), the children of the first node with that id, or none.
pub open spec fn layout_nodes(entries: Seq<RemoteMenuNode>, parent_id: i32) -> Seq<RemoteMenuNode> {
    if parent_id == 0 {
        entries
    } else {
        match spec_find(entries, parent_id) {
            Some(n) => n.children@,
            None => Seq::empty(),
        }
    }
}

fn root_fields() -> (r: Vec<(String, PropValue)>)
    ensures
        props_view(r@) == root_props(),
{
    let mut v: Vec<(String, PropValue)> = Vec::new();
    v.push(named("children-display", text_value("menubar")));
    assert(props_view(v@) =~= root_props());
    v
}

impl MenuState {
    /// An empty state at revision 0.
    pub fn new() -> (r: Self)
        ensures
            r.revision == 0,
            r.entries@.len() == 0,
    {
        MenuState { revision: 0, entries: Vec::new() }
    }

    /// Takes the entries of `snapshot` and moves to the next revision.
    pub fn replace(&mut self, snapshot: MenuSnapshot)
        ensures
            final(self).entries == snapshot.entries,
            final(self).revision == next_revision(old(self).revision),
    {
        self.entries = snapshot.entries;
        let bumped = self.revision.wrapping_add(1);
        self.revision = if bumped > 1 { bumped } else { 1 };
    }

    /// The layout of the subtree under `parent_id`, `depth` levels deep.
    pub fn layout_with(&self, parent_id: i32, depth: i32, _properties: &Vec<String>) -> (r: SubMenuLayout)
        ensures
            r.id == parent_id,
            props_view(r.fields@) == (if parent_id == 0 { root_props() } else { Seq::empty() }),
            layouts_match(r.submenus@, layout_nodes(self.entries@, parent_id), depth as int),
    {
        let submenus = if parent_id == 0 {
            build_layout_items(self.entries.as_slice(), depth)
        } else {
            match find_node_by_id(self.entries.as_slice(), parent_id) {
                Some(node) => build_layout_items(node.children.as_slice(), depth),
                None => Vec::new(),
            }
        };
        let fields = if parent_id == 0 {
            root_fields()
        } else {
            let v: Vec<(String, PropValue)> = Vec::new();
            assert(props_view(v@) =~= Seq::empty());
            v
        };
        SubMenuLayout { id: parent_id, fields, submenus }
    }
}


/// Whether a property list names `name`.
pub open spec fn has_prop_name(props: Seq<(Seq<char>, PropView)>, name: Seq<char>) -> bool {
    exists|i: int| 0 <= i < props.len() && #[trigger] props[i].0 == name
}

/// The properties of `n` among `names`, in the order first asked for, each
/// once, leaving out names the node does not announce.
pub open spec fn requested_props(n: RemoteMenuNode, names: Seq<Seq<char>>) -> Seq<(Seq<char>, PropView)>
    decreases names.len(),
{
    if names.len() == 0 {
        Seq::empty()
    } else {
        let acc = requested_props(n, names.drop_last());
        let name = names.last();
        match node_prop(n, name) {
            Some(v) => if has_prop_name(acc, name) { acc } else { acc.push((name, v)) },
            None => acc,
        }
    }
}

/// The properties of the root asked for by `names`: `children-display` when
/// all are asked for or that one is named, nothing else.
pub open spec fn root_requested_props(names: Seq<Seq<char>>) -> Seq<(Seq<char>, PropView)> {
    if names.len() == 0 || names.contains("children-display"@) {
        root_props()
    } else {
        Seq::empty()
    }
}

/// The answer to `GetGroupProperties(ids, names)`: for each id in order, the
/// root's properties (id 0) or those of the first node with that id; ids
/// that name no node are left out.
pub open spec fn group_properties(
    entries: Seq<RemoteMenuNode>,
    ids: Seq<i32>,
    names: Seq<Seq<char>>,
) -> Seq<(i32, Seq<(Seq<char>, PropView)>)>
    decreases ids.len(),
{
    if ids.len() == 0 {
        Seq::empty()
    } else {
        let acc = group_properties(entries, ids.drop_last(), names);
        let id = ids.last();
        if id == 0 {
            acc.push((0i32, root_requested_props(names)))
        } else {
            match spec_find(entries, id) {
                Some(n) => acc.push((id, if names.len() == 0 { node_props(n) } else { requested_props(n, names) })),
                None => acc,
            }
        }
    }
}

/// The view of a list of per-node property updates.
pub open spec fn updates_view(v: Seq<(i32, Vec<(String, PropValue)>)>) -> Seq<(i32, Seq<(Seq<char>, PropView)>)> {
    v.map_values(|p: (i32, Vec<(String, PropValue)>)| (p.0, props_view(p.1@)))
}

fn contains_name(props: &Vec<(String, PropValue)>, name: &String) -> (r: bool)
    ensures
        r == has_prop_name(props_view(props@), name@),
{
    let mut i: usize = 0;
    while i < props.len()
        invariant
            i <= props@.len(),
            forall|k: int| 0 <= k < i ==> props_view(props@)[k].0 != name@,
        decreases props@.len() - i,
    {
        if props[i].0 == *name {
            assert(props_view(props@)[i as int].0 == name@);
            return true;
        }
        i = i + 1;
    }
    false
}

fn requested_node_props(node: &RemoteMenuNode, names: &Vec<String>) -> (r: Vec<(String, PropValue)>)
    ensures
        props_view(r@) == requested_props(*node, strings_view(names@)),
{
    let mut out: Vec<(String, PropValue)> = Vec::new();
    let mut i: usize = 0;
    while i < names.len()
        invariant
            i <= names@.len(),
            props_view(out@) == requested_props(*node, strings_view(names@).take(i as int)),
        decreases names@.len() - i,
    {
        proof {
            assert(strings_view(names@).take(i + 1).drop_last() =~= strings_view(names@).take(i as int));
        }
        match node_property_value(node, names[i].as_str()) {
            Some(v) => {
                if !contains_name(&out, &names[i]) {
                    out.push((names[i].clone(), v));
                    assert(props_view(out@) =~= requested_props(*node, strings_view(names@).take(i as int)).push((names@[i as int]@, v@)));
                }
            },
            None => {},
        }
        i = i + 1;
    }
    assert(strings_view(names@).take(names@.len() as int) =~= strings_view(names@));
    out
}

/// Whether any top-level entry has id `id` and children.
pub open spec fn top_level_has_children(entries: Seq<RemoteMenuNode>, id: i32) -> bool {
    exists|i: int| 0 <= i < entries.len() && #[trigger] entries[i].id == id && entries[i].children@.len() > 0
}

/// What an event sent to the menu object asks the bridge to do.
pub enum MenuEventAction {
    /// Report the activation of an item to the application.
    Activate(i32),
    /// Announce the layout under this id again.
    RequestLayout(i32),
}

/// The status the menu object reports.
pub fn menu_status() -> (r: &'static str)
    ensures
        r@ == "normal"@,
{
    "normal"
}

/// The DBusMenu protocol version the menu object implements.
pub fn menu_version() -> (r: u32)
    ensures
        r == 4,
{
    4
}

/// The object served at the menu path: it answers the DBusMenu calls from
/// the menu state it holds.
pub struct MenuObject {
    pub state: MenuState,
}

impl MenuObject {
    /// A menu object over `state`.
    pub fn new(state: MenuState) -> (r: Self)
        ensures
            r.state == state,
    {
        MenuObject { state }
    }

    /// `GetLayout(parent_id, depth, names)`: the revision and the layout under
    /// `parent_id`.
    pub fn get_layout(&self, parent_id: i32, depth: i32, names: &Vec<String>) -> (r: (u32, SubMenuLayout))
        ensures
            r.0 == self.state.revision,
            r.1.id == parent_id,
            props_view(r.1.fields@) == (if parent_id == 0 { root_props() } else { Seq::empty() }),
            layouts_match(r.1.submenus@, layout_nodes(self.state.entries@, parent_id), depth as int),
    {
        (self.state.revision, self.state.layout_with(parent_id, depth, names))
    }

    /// `AboutToShow(id)`: whether the node has (or may have) children; for the
    /// root, whether there is any entry, else whether a top-level entry with
    /// that id has children. When true, the bridge announces that layout again.
    pub fn about_to_show(&self, id: i32) -> (r: bool)
        ensures
            r == (if id == 0 { self.state.entries@.len() > 0 } else { top_level_has_children(self.state.entries@, id) }),
    {
        if id == 0 {
            self.state.entries.len() > 0
        } else {
            let mut i: usize = 0;
            while i < self.state.entries.len()
                invariant
                    i <= self.state.entries@.len(),
                    forall|k: int| 0 <= k < i ==> !(#[trigger] self.state.entries@[k].id == id && self.state.entries@[k].children@.len() > 0),
                decreases self.state.entries@.len() - i,
            {
                if self.state.entries[i].id == id && self.state.entries[i].children.len() > 0 {
                    return true;
                }
                i = i + 1;
            }
            false
        }
    }

    /// `GetGroupProperties(ids, names)`: the revision and, for each id in
    /// turn, the requested properties of the root or of the node; ids that
    /// name no node are left out.
    pub fn group_properties(&self, ids: &Vec<i32>, names: &Vec<String>) -> (r: (u32, Vec<(i32, Vec<(String, PropValue)>)>))
        ensures
            r.0 == self.state.revision,
            updates_view(r.1@) == group_properties(self.state.entries@, ids@, strings_view(names@)),
    {
        let mut out: Vec<(i32, Vec<(String, PropValue)>)> = Vec::new();
        let mut i: usize = 0;
        while i < ids.len()
            invariant
                i <= ids@.len(),
                updates_view(out@) == group_properties(self.state.entries@, ids@.take(i as int), strings_view(names@)),
            decreases ids@.len() - i,
        {
            proof {
                assert(ids@.take(i + 1).drop_last() =~= ids@.take(i as int));
            }
            let id = ids[i];
            if id == 0 {
                let props = if names.len() == 0 || names_contain(names, "children-display") {
                    root_fields()
                } else {
                    let v: Vec<(String, PropValue)> = Vec::new();
                    assert(props_view(v@) =~= Seq::empty());
                    v
                };
                out.push((0, props));
                assert(updates_view(out@) =~= group_properties(self.state.entries@, ids@.take(i as int), strings_view(names@)).push((0i32, root_requested_props(strings_view(names@)))));
            } else {
                match find_node_by_id(self.state.entries.as_slice(), id) {
                    Some(node) => {
                        let props = if names.len() == 0 {
                            node_properties_map(node)
                        } else {
                            requested_node_props(node, names)
                        };
                        out.push((id, props));
                        assert(updates_view(out@) =~= group_properties(self.state.entries@, ids@.take(i as int), strings_view(names@)).push((id, props_view(props@))));
                    },
                    None => {},
                }
            }
            i = i + 1;
        }
        assert(ids@.take(ids@.len() as int) =~= ids@);
        (self.state.revision, out)
    }

    /// `GetProperty(id, name)`: the root answers `children-display` with
    /// `"menubar"`; a node answers its own value; anything else is answered
    /// with an empty text.
    pub fn get_property(&self, id: i32, name: &str) -> (r: PropValue)
        ensures
            r@ == (if id == 0 {
                if name@ == "children-display"@ { PropView::Text("menubar"@) } else { PropView::Text(Seq::empty()) }
            } else {
                match spec_find(self.state.entries@, id) {
                    Some(n) => match node_prop(n, name@) {
                        Some(v) => v,
                        None => PropView::Text(Seq::empty()),
                    },
                    None => PropView::Text(Seq::empty()),
                }
            }),
    {
        if id == 0 {
            if str_eq(name, "children-display") {
                return text_value("menubar");
            }
            return PropValue::Text(String::new());
        }
        match find_node_by_id(self.state.entries.as_slice(), id) {
            Some(node) => match node_property_value(node, name) {
                Some(v) => v,
                None => PropValue::Text(String::new()),
            },
            None => PropValue::Text(String::new()),
        }
    }

    /// `Event(id, event_id)`: what the bridge is asked to do.
    pub fn event(&self, id: i32, event_id: &str) -> (r: Option<MenuEventAction>)
        ensures
            r == (if event_id@ == "clicked"@ {
                Some(MenuEventAction::Activate(id))
            } else if event_id@ == "opened"@ || event_id@ == "about-to-show"@ {
                Some(MenuEventAction::RequestLayout(id))
            } else {
                None
            }),
    {
        menu_event(id, event_id)
    }
}

/// `Event(id, event_id)`: a click activates the item; `opened` and
/// `about-to-show` ask for the layout under it again; other events do nothing.
pub fn menu_event(id: i32, event_id: &str) -> (r: Option<MenuEventAction>)
    ensures
        r == (if event_id@ == "clicked"@ {
            Some(MenuEventAction::Activate(id))
        } else if event_id@ == "opened"@ || event_id@ == "about-to-show"@ {
            Some(MenuEventAction::RequestLayout(id))
        } else {
            None
        }),
{
    if str_eq(event_id, "clicked") {
        Some(MenuEventAction::Activate(id))
    } else if str_eq(event_id, "opened") {
        Some(MenuEventAction::RequestLayout(id))
    } else if str_eq(event_id, "about-to-show") {
        Some(MenuEventAction::RequestLayout(id))
    } else {
        None
    }
}


/// Every node of the forest in depth-first pre-order, each with its properties.
pub open spec fn flatten(roots: Seq<RemoteMenuNode>) -> Seq<(i32, Seq<(Seq<char>, PropView)>)>
    decreases roots,
{
    if roots.len() == 0 {
        Seq::empty()
    } else {
        let last = roots[roots.len() - 1];
        proof {
            assert(decreases_to!(roots => roots[roots.len() - 1]));
            assert(decreases_to!(roots[roots.len() - 1] => roots[roots.len() - 1].children));
            assert(decreases_to!(roots[roots.len() - 1].children => roots[roots.len() - 1].children@));
        }
        flatten(roots.subrange(0, roots.len() - 1)) + seq![(last.id, node_props(last))] + flatten(last.children@)
    }
}

fn flatten_into(nodes: &[RemoteMenuNode], acc: &mut Vec<(i32, Vec<(String, PropValue)>)>)
    ensures
        updates_view(final(acc)@) == updates_view(old(acc)@) + flatten(nodes@),
    decreases nodes@,
{
    let ghost start = updates_view(acc@);
    let mut i: usize = 0;
    assert(nodes@.subrange(0, 0) =~= Seq::<RemoteMenuNode>::empty());
    assert(start + flatten(nodes@.subrange(0, 0)) =~= start);
    while i < nodes.len()
        invariant
            i <= nodes@.len(),
            updates_view(acc@) == start + flatten(nodes@.subrange(0, i as int)),
        decreases nodes@.len() - i,
    {
        let n = &nodes[i];
        acc.push((n.id, node_properties_map(n)));
        let ghost mid = updates_view(acc@);
        proof {
            assert(updates_view(acc@) =~= start + flatten(nodes@.subrange(0, i as int)) + seq![(n.id, node_props(*n))]);
            assert(decreases_to!(nodes@ => nodes@[i as int]));
            assert(decreases_to!(nodes@[i as int] => nodes@[i as int].children));
            assert(decreases_to!(nodes@[i as int].children => nodes@[i as int].children@));
        }
        flatten_into(n.children.as_slice(), acc);
        proof {
            let s = nodes@.subrange(0, i + 1);
            assert(s.subrange(0, s.len() - 1) =~= nodes@.subrange(0, i as int));
            assert(s[s.len() - 1] == *n);
            assert(updates_view(acc@) =~= start + flatten(s));
        }
        i = i + 1;
    }
    assert(nodes@.subrange(0, nodes@.len() as int) =~= nodes@);
}

/// The properties of every node in pre-order.
pub fn flatten_properties_updates(roots: &[RemoteMenuNode]) -> (r: Vec<(i32, Vec<(String, PropValue)>)>)
    ensures
        updates_view(r@) == flatten(roots@),
{
    let mut out: Vec<(i32, Vec<(String, PropValue)>)> = Vec::new();
    flatten_into(roots, &mut out);
    assert(updates_view(out@) =~= flatten(roots@));
    out
}

/// The properties announced after a window is registered: every node's, then
/// the root's.
pub fn registration_updates(state: &MenuState) -> (r: Vec<(i32, Vec<(String, PropValue)>)>)
    ensures
        updates_view(r@) == flatten(state.entries@).push((0i32, root_props())),
{
    let mut out = flatten_properties_updates(state.entries.as_slice());
    out.push((0, root_fields()));
    assert(updates_view(out@) =~= flatten(state.entries@).push((0i32, root_props())));
    out
}

/// The properties of each node listed under `parent`, in order.
pub open spec fn listed_props(nodes: Seq<RemoteMenuNode>) -> Seq<(i32, Seq<(Seq<char>, PropView)>)> {
    nodes.map_values(|n: RemoteMenuNode| (n.id, node_props(n)))
}

/// The properties announced when the layout under `parent` is asked for
/// again: those of the nodes that layout lists.
pub fn request_layout_updates(state: &MenuState, parent: i32) -> (r: Vec<(i32, Vec<(String, PropValue)>)>)
    ensures
        updates_view(r@) == listed_props(layout_nodes(state.entries@, parent)),
{
    let nodes: &[RemoteMenuNode] = if parent == 0 {
        state.entries.as_slice()
    } else {
        match find_node_by_id(state.entries.as_slice(), parent) {
            Some(p) => p.children.as_slice(),
            None => &[],
        }
    };
    let mut out: Vec<(i32, Vec<(String, PropValue)>)> = Vec::new();
    let mut i: usize = 0;
    while i < nodes.len()
        invariant
            i <= nodes@.len(),
            nodes@ == layout_nodes(state.entries@, parent),
            out@.len() == i,
            updates_view(out@) == listed_props(nodes@.take(i as int)),
        decreases nodes@.len() - i,
    {
        let ghost before = out@;
        out.push((nodes[i].id, node_properties_map(&nodes[i])));
        proof {
            assert(out@ =~= before.push(out@[i as int]));
            assert(nodes@.take(i + 1) =~= nodes@.take(i as int).push(nodes@[i as int]));
            assert(listed_props(nodes@.take(i + 1)) =~= listed_props(nodes@.take(i as int)).push((nodes@[i as int].id, node_props(nodes@[i as int]))));
            assert(updates_view(out@) =~= updates_view(before).push((out@[i as int].0, props_view(out@[i as int].1@))));
        }
        i = i + 1;
    }
    assert(nodes@.take(nodes@.len() as int) =~= nodes@);
    out
}


fn strings_equal(a: &Vec<String>, b: &Vec<String>) -> (r: bool)
    ensures
        r == (strings_view(a@) == strings_view(b@)),
{
    if a.len() != b.len() {
        assert(strings_view(a@).len() != strings_view(b@).len());
        return false;
    }
    let mut i: usize = 0;
    while i < a.len()
        invariant
            i <= a@.len() == b@.len(),
            forall|k: int| 0 <= k < i ==> a@[k]@ == b@[k]@,
        decreases a@.len() - i,
    {
        if a[i] != b[i] {
            assert(strings_view(a@)[i as int] != strings_view(b@)[i as int]);
            return false;
        }
        i = i + 1;
    }
    assert(strings_view(a@) =~= strings_view(b@));
    true
}

fn shortcuts_equal(a: &Vec<Vec<String>>, b: &Vec<Vec<String>>) -> (r: bool)
    ensures
        r == (shortcut_view(*a) == shortcut_view(*b)),
{
    if a.len() != b.len() {
        assert(shortcut_view(*a).len() != shortcut_view(*b).len());
        return false;
    }
    let mut i: usize = 0;
    while i < a.len()
        invariant
            i <= a@.len() == b@.len(),
            forall|k: int| 0 <= k < i ==> strings_view(a@[k]@) == strings_view(b@[k]@),
        decreases a@.len() - i,
    {
        if !strings_equal(&a[i], &b[i]) {
            assert(shortcut_view(*a)[i as int] != shortcut_view(*b)[i as int]);
            return false;
        }
        i = i + 1;
    }
    assert(shortcut_view(*a) =~= shortcut_view(*b));
    true
}

fn prop_value_equal(a: &PropValue, b: &PropValue) -> (r: bool)
    ensures
        r == (a@ == b@),
{
    match (a, b) {
        (PropValue::Text(x), PropValue::Text(y)) => *x == *y,
        (PropValue::Flag(x), PropValue::Flag(y)) => *x == *y,
        (PropValue::Shortcut(x), PropValue::Shortcut(y)) => shortcuts_equal(x, y),
        _ => false,
    }
}

fn props_equal(a: &Vec<(String, PropValue)>, b: &Vec<(String, PropValue)>) -> (r: bool)
    ensures
        r == (props_view(a@) == props_view(b@)),
{
    if a.len() != b.len() {
        assert(props_view(a@).len() != props_view(b@).len());
        return false;
    }
    let mut i: usize = 0;
    while i < a.len()
        invariant
            i <= a@.len() == b@.len(),
            forall|k: int| 0 <= k < i ==> props_view(a@)[k] == props_view(b@)[k],
        decreases a@.len() - i,
    {
        if a[i].0 != b[i].0 || !prop_value_equal(&a[i].1, &b[i].1) {
            assert(props_view(a@)[i as int] != props_view(b@)[i as int]);
            return false;
        }
        i = i + 1;
    }
    assert(props_view(a@) =~= props_view(b@));
    true
}

fn clone_prop_value(p: &PropValue) -> (r: PropValue)
    ensures
        r@ == p@,
{
    match p {
        PropValue::Text(s) => PropValue::Text(s.clone()),
        PropValue::Flag(b) => PropValue::Flag(*b),
        PropValue::Shortcut(v) => {
            let mut out: Vec<Vec<String>> = Vec::new();
            let mut i: usize = 0;
            while i < v.len()
                invariant
                    i <= v@.len(),
                    out@.len() == i,
                    forall|k: int| 0 <= k < i ==> strings_view(out@[k]@) == strings_view(v@[k]@),
                decreases v@.len() - i,
            {
                out.push(clone_strings(&v[i]));
                i = i + 1;
            }
            assert(shortcut_view(out) =~= shortcut_view(*v));
            PropValue::Shortcut(out)
        },
    }
}

/// A copy of a property list.
pub fn clone_props(v: &Vec<(String, PropValue)>) -> (r: Vec<(String, PropValue)>)
    ensures
        props_view(r@) == props_view(v@),
{
    let mut out: Vec<(String, PropValue)> = Vec::new();
    let mut i: usize = 0;
    while i < v.len()
        invariant
            i <= v@.len(),
            out@.len() == i,
            forall|k: int| 0 <= k < i ==> props_view(out@)[k] == props_view(v@)[k],
        decreases v@.len() - i,
    {
        out.push((v[i].0.clone(), clone_prop_value(&v[i].1)));
        i = i + 1;
    }
    assert(props_view(out@) =~= props_view(v@));
    out
}

/// Each id of a pre-order listing mapped to the properties of its last
/// occurrence (later entries overwrite earlier ones).
pub open spec fn index_of(f: Seq<(i32, Seq<(Seq<char>, PropView)>)>) -> Map<i32, Seq<(Seq<char>, PropView)>>
    decreases f.len(),
{
    if f.len() == 0 {
        Map::empty()
    } else {
        index_of(f.drop_last()).insert(f.last().0, f.last().1)
    }
}

/// The view of a property index.
pub open spec fn index_view(m: Map<i32, Vec<(String, PropValue)>>) -> Map<i32, Seq<(Seq<char>, PropView)>> {
    m.map_values(|v: Vec<(String, PropValue)>| props_view(v@))
}

/// Every node's properties keyed by id.
pub fn properties_index(roots: &[RemoteMenuNode]) -> (r: std::collections::HashMap<i32, Vec<(String, PropValue)>>)
    ensures
        index_view(r@) == index_of(flatten(roots@)),
{
    broadcast use vstd::std_specs::hash::group_hash_axioms;
    let flat = flatten_properties_updates(roots);
    let mut index: std::collections::HashMap<i32, Vec<(String, PropValue)>> = std::collections::HashMap::new();
    let mut i: usize = 0;
    assert(index_view(index@) =~= index_of(updates_view(flat@).take(0)));
    while i < flat.len()
        invariant
            i <= flat@.len(),
            index_view(index@) == index_of(updates_view(flat@).take(i as int)),
        decreases flat@.len() - i,
    {
        let props = clone_props(&flat[i].1);
        index.insert(flat[i].0, props);
        proof {
            let f = updates_view(flat@).take(i + 1);
            assert(f.drop_last() =~= updates_view(flat@).take(i as int));
            assert(index_view(index@) =~= index_of(f));
        }
        i = i + 1;
    }
    assert(updates_view(flat@).take(flat@.len() as int) =~= updates_view(flat@));
    index
}

/// Whether the entry of `k` in `next` is new or differs from `prev`.
pub open spec fn props_changed(
    prev: Map<i32, Seq<(Seq<char>, PropView)>>,
    next: Map<i32, Seq<(Seq<char>, PropView)>>,
    k: i32,
) -> bool {
    next.contains_key(k) && !(prev.contains_key(k) && prev[k] == next[k])
}

/// The entries of `next` to announce after a menu change: those whose id is
/// new or whose properties differ from `prev`, each once, in any order.
pub fn properties_updates(
    prev: &std::collections::HashMap<i32, Vec<(String, PropValue)>>,
    next: &std::collections::HashMap<i32, Vec<(String, PropValue)>>,
) -> (r: Vec<(i32, Vec<(String, PropValue)>)>)
    ensures
        forall|i: int| 0 <= i < r@.len() ==> {
            let id = #[trigger] r@[i].0;
            &&& index_view(next@).contains_key(id)
            &&& props_view(r@[i].1@) == index_view(next@)[id]
            &&& props_changed(index_view(prev@), index_view(next@), id)
        },
        forall|id: i32| #[trigger] props_changed(index_view(prev@), index_view(next@), id)
            ==> exists|i: int| 0 <= i < r@.len() && r@[i].0 == id,
        forall|i: int, j: int| 0 <= i < j < r@.len() ==> r@[i].0 != r@[j].0,
{
    broadcast use vstd::std_specs::hash::group_hash_axioms;
    let mut out: Vec<(i32, Vec<(String, PropValue)>)> = Vec::new();
    let ghost nv = index_view(next@);
    let ghost pv = index_view(prev@);
    let ghost mut pos: Seq<int> = Seq::empty();
    for (id, props) in it: next.iter()
        invariant
            it.seq() == spec_hash_map_iter(next).remaining(),
            it.seq().no_duplicates(),
            nv == index_view(next@),
            pv == index_view(prev@),
            pos.len() == out@.len(),
            forall|i: int| 0 <= i < pos.len() ==> 0 <= #[trigger] pos[i] < it.index(),
            forall|i: int, j: int| 0 <= i < j < pos.len() ==> pos[i] < pos[j],
            forall|i: int| 0 <= i < pos.len() ==> {
                &&& #[trigger] out@[i].0 == *it.seq()[pos[i]].0
                &&& props_view(out@[i].1@) == nv[out@[i].0]
                &&& props_changed(pv, nv, out@[i].0)
            },
            forall|j: int| 0 <= j < it.index() && props_changed(pv, nv, *it.seq()[j].0)
                ==> exists|i: int| 0 <= i < pos.len() && pos[i] == j,
    {
        let ghost j = it.index();
        proof {
            assert(*id == *it.seq()[j].0 && *props == *it.seq()[j].1);
            assert(next@.contains_key(*id) && next@[*id] == *props);
            assert(nv[*id] == props_view(props@));
        }
        let differs = match prev.get(id) {
            Some(p) => {
                assert(pv.contains_key(*id) && pv[*id] == props_view(p@));
                !props_equal(p, props)
            },
            None => true,
        };
        assert(!prev@.contains_key(*id) ==> !pv.contains_key(*id));
        assert(differs == props_changed(pv, nv, *id));
        if differs {
            out.push((*id, clone_props(props)));
            proof {
                let ghost old_pos = pos;
                pos = pos.push(j);
                assert forall|jj: int| 0 <= jj < j + 1 && props_changed(pv, nv, *it.seq()[jj].0)
                    implies exists|i: int| 0 <= i < pos.len() && pos[i] == jj by {
                    if jj == j {
                        assert(pos[pos.len() - 1] == j);
                    } else {
                        let i = choose|i: int| 0 <= i < old_pos.len() && old_pos[i] == jj;
                        assert(pos[i] == jj);
                    }
                }
            }
        }
    }
    proof {
        let sq = spec_hash_map_iter(next).remaining();
        assert forall|i: int, k: int| 0 <= i < k < out@.len() implies out@[i].0 != out@[k].0 by {
            let a = pos[i];
            let b = pos[k];
            if out@[i].0 == out@[k].0 {
                assert(next@[*sq[a].0] == *sq[a].1);
                assert(next@[*sq[b].0] == *sq[b].1);
                assert(sq[a] == sq[b]);
            }
        }
        assert forall|k: i32| #[trigger] props_changed(pv, nv, k)
            implies exists|i: int| 0 <= i < out@.len() && out@[i].0 == k by {
            assert(next@.contains_key(k));
            assert(sq.contains((&k, &next@[k])));
            let j = choose|j: int| 0 <= j < sq.len() && sq[j] == (&k, &next@[k]);
            assert(props_changed(pv, nv, *sq[j].0));
            let i = choose|i: int| 0 <= i < pos.len() && pos[i] == j;
            assert(out@[i].0 == k);
        }
    }
    out
}

/// Publishing a menu changes the revision, never to 0, and the root's layout
/// then lists exactly the published entries: what importers read back is
/// what was written.
pub proof fn law_replace_publishes(st: MenuState, snapshot: MenuSnapshot)
    ensures
        next_revision(st.revision) != 0,
        next_revision(st.revision) != st.revision,
        layout_nodes(snapshot.entries@, 0) == snapshot.entries@,
{
}

} // verus!
