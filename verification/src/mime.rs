//! MIME-type helpers of the file list: the related types tried when looking
//! for a handler or a description, the reading of descriptions out of
//! shared-mime-info XML, and the list of applications offered under
//! "Open With".

use vstd::prelude::*;
use crate::textutil::{
    str_eq, to_owned_string, push_str, chars_of, string_from_range, trimmed_string, trim,
    occurs_at, find_from, contains_text, starts_with, find_text, has_text, has_prefix, concat,
    strings_view, lemma_find_from_found,
};
use crate::file_list::add_new;

verus! {

/// The types tried for a MIME type when looking for a handler: the type
/// itself, then plain text for the text-like ones.
pub open spec fn mime_variants(m: Seq<char>) -> Seq<Seq<char>> {
    seq![m] + (if m == "text/x-toml"@ {
        seq!["application/toml"@, "text/plain"@]
    } else if m == "application/toml"@ {
        seq!["text/plain"@]
    } else if m == "text/x-rust"@ {
        seq!["text/plain"@]
    } else if starts_with(m, "text/"@) {
        if m != "text/plain"@ { seq!["text/plain"@] } else { Seq::empty() }
    } else if starts_with(m, "application/"@) && (contains_text(m, "json"@) || contains_text(m, "xml"@)
        || contains_text(m, "yaml"@) || contains_text(m, "toml"@) || contains_text(m, "markdown"@)) {
        seq!["text/plain"@]
    } else {
        Seq::empty()
    })
}

fn has_str(s: &Vec<char>, p: &str) -> (r: bool)
    ensures
        r == contains_text(s@, p@),
{
    let pc = chars_of(p);
    has_text(s, &pc)
}

fn has_str_prefix(s: &Vec<char>, p: &str) -> (r: bool)
    ensures
        r == starts_with(s@, p@),
{
    let pc = chars_of(p);
    has_prefix(s, &pc)
}

/// `get_mime_variants`: the type, then its fallbacks.
pub fn get_mime_variants(mime: &str) -> (r: Vec<String>)
    ensures
        strings_view(r@) == mime_variants(mime@),
{
    let mut v: Vec<String> = Vec::new();
    v.push(to_owned_string(mime));
    let mc = chars_of(mime);
    if str_eq(mime, "text/x-toml") {
        v.push(to_owned_string("application/toml"));
        v.push(to_owned_string("text/plain"));
    } else if str_eq(mime, "application/toml") {
        v.push(to_owned_string("text/plain"));
    } else if str_eq(mime, "text/x-rust") {
        v.push(to_owned_string("text/plain"));
    } else if has_str_prefix(&mc, "text/") {
        if !str_eq(mime, "text/plain") {
            v.push(to_owned_string("text/plain"));
        }
    } else if has_str_prefix(&mc, "application/") && (has_str(&mc, "json") || has_str(&mc, "xml")
        || has_str(&mc, "yaml") || has_str(&mc, "toml") || has_str(&mc, "markdown")) {
        v.push(to_owned_string("text/plain"));
    }
    assert(strings_view(v@) =~= mime_variants(mime@));
    v
}

/// The type with an `x-` after its slash removed (`text/x-log` gives
/// `text/log`), when it has one.
pub open spec fn unprefixed(m: Seq<char>) -> Option<Seq<char>> {
    match find_from(m, seq!['/'], 0) {
        Some(p) => {
            let rest = m.skip(p + 1);
            if starts_with(rest, seq!['x', '-']) { Some(m.take(p + 1) + rest.skip(2)) } else { None }
        },
        None => None,
    }
}

/// The types tried for a MIME type when looking for its description: the
/// type, the type without `x-`, then known aliases.
pub open spec fn description_variants(m: Seq<char>) -> Seq<Seq<char>> {
    seq![m] + (match unprefixed(m) {
        Some(u) => seq![u],
        None => Seq::empty(),
    }) + (if m == "application/toml"@ {
        seq!["text/x-toml"@]
    } else if m == "text/x-rust"@ {
        seq!["text/rust"@]
    } else if m == "application/x-shellscript"@ {
        seq!["text/x-shellscript"@, "text/x-sh"@]
    } else if m == "application/zstd"@ {
        seq!["application/x-zstd"@]
    } else if m == "application/x-rar"@ {
        seq!["application/vnd.rar"@]
    } else if m == "application/x-iso9660-image"@ {
        seq!["application/x-iso9660-image"@]
    } else if m == "text/x-log"@ {
        seq!["text/plain"@]
    } else {
        Seq::empty()
    })
}

/// `mime_description_variants`.
pub fn mime_description_variants(mime: &str) -> (r: Vec<String>)
    ensures
        strings_view(r@) == description_variants(mime@),
{
    let mut v: Vec<String> = Vec::new();
    v.push(to_owned_string(mime));
    let mc = chars_of(mime);
    let mut slash: Vec<char> = Vec::new();
    slash.push('/');
    assert(slash@ =~= seq!['/']);
    let mut xdash: Vec<char> = Vec::new();
    xdash.push('x');
    xdash.push('-');
    assert(xdash@ =~= seq!['x', '-']);
    match find_text(&mc, &slash, 0) {
        Some(p) => {
            proof {
                lemma_find_from_found(mc@, seq!['/'], 0, p as int);
            }
            let n = mc.len();
            assert(p < n);
            let rest = string_from_range(&mc, p + 1, n);
            let rc = chars_of(rest.as_str());
            assert(rc@ =~= mc@.skip(p + 1));
            if has_prefix(&rc, &xdash) {
                let mut u = string_from_range(&mc, 0, p + 1);
                let tail = string_from_range(&rc, 2, rc.len());
                push_str(&mut u, tail.as_str());
                assert(u@ =~= mc@.take(p + 1) + mc@.skip(p + 1).skip(2));
                v.push(u);
            }
        },
        None => {},
    }
    let ghost mid = strings_view(v@);
    assert(mid =~= seq![mime@] + (match unprefixed(mime@) { Some(u) => seq![u], None => Seq::empty() }));
    if str_eq(mime, "application/toml") {
        v.push(to_owned_string("text/x-toml"));
    } else if str_eq(mime, "text/x-rust") {
        v.push(to_owned_string("text/rust"));
    } else if str_eq(mime, "application/x-shellscript") {
        v.push(to_owned_string("text/x-shellscript"));
        v.push(to_owned_string("text/x-sh"));
    } else if str_eq(mime, "application/zstd") {
        v.push(to_owned_string("application/x-zstd"));
    } else if str_eq(mime, "application/x-rar") {
        v.push(to_owned_string("application/vnd.rar"));
    } else if str_eq(mime, "application/x-iso9660-image") {
        v.push(to_owned_string("application/x-iso9660-image"));
    } else if str_eq(mime, "text/x-log") {
        v.push(to_owned_string("text/plain"));
    }
    assert(strings_view(v@) =~= description_variants(mime@));
    v
}

/// Reading `<comment>` elements from `from` on: the first non-empty one
/// marked `xml:lang="en"` wins; else the first non-empty one seen.
pub open spec fn comment_scan(s: Seq<char>, from: int, fallback: Option<Seq<char>>) -> Option<Seq<char>>
    decreases s.len() + 1 - from,
{
    if from < 0 || from > s.len() {
        fallback
    } else {
        match find_from(s, "<comment"@, from) {
            None => fallback,
            Some(cs) => match find_from(s, seq!['>'], cs) {
                None => fallback,
                Some(gt) => match find_from(s, "</comment>"@, gt + 1) {
                    None => fallback,
                    Some(et) => {
                        let body = trim(s.subrange(gt + 1, et));
                        let next = et + "</comment>"@.len();
                        if next <= from || next > s.len() + 1 {
                            fallback
                        } else if body.len() == 0 {
                            comment_scan(s, next, fallback)
                        } else if contains_text(s.subrange(cs, gt + 1), "xml:lang=\"en\""@) {
                            Some(body)
                        } else {
                            comment_scan(s, next, if fallback is None { Some(body) } else { fallback })
                        }
                    },
                },
            },
        }
    }
}

/// The characters of an optional string.
pub open spec fn opt_text(o: Option<String>) -> Option<Seq<char>> {
    match o {
        Some(s) => Some(s@),
        None => None,
    }
}

/// `extract_comment`: the description in a `<mime-type>` block.
pub fn extract_comment(block: &str) -> (r: Option<String>)
    ensures
        match r {
            Some(c) => comment_scan(block@, 0, None) == Some(c@),
            None => comment_scan(block@, 0, None) is None,
        },
{
    let s = chars_of(block);
    let open = chars_of("<comment");
    let close = chars_of("</comment>");
    let lang = chars_of("xml:lang=\"en\"");
    let mut gt: Vec<char> = Vec::new();
    gt.push('>');
    assert(gt@ =~= seq!['>']);
    let mut fallback: Option<String> = None;
    let mut from: usize = 0;
    while from <= s.len()
        invariant
            from <= s@.len() + 1,
            s@ == block@,
            open@ == "<comment"@,
            close@ == "</comment>"@,
            lang@ == "xml:lang=\"en\""@,
            gt@ == seq!['>'],
            comment_scan(s@, 0, None) == comment_scan(s@, from as int, opt_text(fallback)),
        decreases s@.len() + 1 - from,
    {
        let cs = match find_text(&s, &open, from) {
            Some(k) => k,
            None => {
                return fallback;
            },
        };
        proof { lemma_find_from_found(s@, open@, from as int, cs as int); }
        let g = match find_text(&s, &gt, cs) {
            Some(k) => k,
            None => { return fallback; },
        };
        proof { lemma_find_from_found(s@, gt@, cs as int, g as int); }
        let te = g + 1;
        let et = match find_text(&s, &close, te) {
            Some(k) => k,
            None => { return fallback; },
        };
        proof { lemma_find_from_found(s@, close@, te as int, et as int); }
        let seg = string_from_range(&s, te, et);
        let segc = chars_of(seg.as_str());
        let body = trimmed_string(&segc);
        let next = et + close.len();
        if body.as_str().is_empty() {
            assert(body@.len() == 0);
            from = next;
            continue;
        }
        assert(body@.len() > 0);
        let tag = string_from_range(&s, cs, te);
        let tagc = chars_of(tag.as_str());
        if has_text(&tagc, &lang) {
            return Some(body);
        }
        if fallback.is_none() {
            fallback = Some(body);
        }
        from = next;
    }
    fallback
}

/// Searching a shared-mime-info package from `from` on for the
/// `<mime-type type="...">` block of `mime` and reading its description; a
/// block without a description lets the search go on after it.
pub open spec fn package_scan(s: Seq<char>, mime: Seq<char>, from: int) -> Option<Seq<char>>
    decreases s.len() + 1 - from,
{
    if from < 0 || from > s.len() {
        None
    } else {
        match find_from(s, "<mime-type"@, from) {
            None => None,
            Some(ms) => match find_from(s, seq!['>'], ms) {
                None => None,
                Some(g) => {
                    let te = g + 1;
                    if te <= from || te > s.len() + 1 {
                        None
                    } else {
                        let tag = s.subrange(ms, te);
                        match find_from(tag, "type=\""@, 0) {
                            None => package_scan(s, mime, te),
                            Some(ti) => {
                                let rest = tag.skip(ti + "type=\""@.len());
                                match find_from(rest, seq!['"'], 0) {
                                    None => package_scan(s, mime, te),
                                    Some(q) => if rest.take(q) != mime {
                                        package_scan(s, mime, te)
                                    } else {
                                        match find_from(s, "</mime-type>"@, te) {
                                            None => package_scan(s, mime, te),
                                            Some(b) => {
                                                let be = b + "</mime-type>"@.len();
                                                if be <= from || be > s.len() + 1 {
                                                    None
                                                } else {
                                                    match comment_scan(s.subrange(ms, be), 0, None) {
                                                        Some(c) => Some(c),
                                                        None => package_scan(s, mime, be),
                                                    }
                                                }
                                            },
                                        }
                                    },
                                }
                            },
                        }
                    }
                },
            },
        }
    }
}

/// The description of `mime` in a shared-mime-info package file's text.
pub fn package_comment(content: &str, mime: &str) -> (r: Option<String>)
    ensures
        opt_text(r) == package_scan(content@, mime@, 0),
{
    let s = chars_of(content);
    let open = chars_of("<mime-type");
    let close = chars_of("</mime-type>");
    let attr = chars_of("type=\"");
    let mut gt: Vec<char> = Vec::new();
    gt.push('>');
    assert(gt@ =~= seq!['>']);
    let mut quote: Vec<char> = Vec::new();
    quote.push('"');
    assert(quote@ =~= seq!['"']);
    let mut from: usize = 0;
    while from <= s.len()
        invariant
            from <= s@.len() + 1,
            s@ == content@,
            open@ == "<mime-type"@,
            close@ == "</mime-type>"@,
            attr@ == "type=\""@,
            gt@ == seq!['>'],
            quote@ == seq!['"'],
            package_scan(s@, mime@, 0) == package_scan(s@, mime@, from as int),
        decreases s@.len() + 1 - from,
    {
        let ms = match find_text(&s, &open, from) {
            Some(k) => k,
            None => { return None; },
        };
        proof { lemma_find_from_found(s@, open@, from as int, ms as int); }
        let g = match find_text(&s, &gt, ms) {
            Some(k) => k,
            None => { return None; },
        };
        proof { lemma_find_from_found(s@, gt@, ms as int, g as int); }
        let te = g + 1;
        let tag = string_from_range(&s, ms, te);
        let tagc = chars_of(tag.as_str());
        let ti = match find_text(&tagc, &attr, 0) {
            Some(k) => k,
            None => {
                from = te;
                continue;
            },
        };
        proof { lemma_find_from_found(tagc@, attr@, 0, ti as int); }
        let rest = string_from_range(&tagc, ti + attr.len(), tagc.len());
        let restc = chars_of(rest.as_str());
        assert(restc@ =~= tagc@.skip(ti + attr@.len()));
        let q = match find_text(&restc, &quote, 0) {
            Some(k) => k,
            None => {
                from = te;
                continue;
            },
        };
        proof { lemma_find_from_found(restc@, quote@, 0, q as int); }
        let ty = string_from_range(&restc, 0, q);
        assert(ty@ =~= restc@.take(q as int));
        if !str_eq(ty.as_str(), mime) {
            from = te;
            continue;
        }
        let b = match find_text(&s, &close, te) {
            Some(k) => k,
            None => {
                from = te;
                continue;
            },
        };
        proof { lemma_find_from_found(s@, close@, te as int, b as int); }
        let be = b + close.len();
        let block = string_from_range(&s, ms, be);
        match extract_comment(block.as_str()) {
            Some(c) => { return Some(c); },
            None => {},
        }
        from = be;
    }
    None
}

/// `get_mime_description_single` on the type's own definition file: its
/// description when the file declares `type="mime"`.
pub fn declared_comment(content: &str, mime: &str) -> (r: Option<String>)
    ensures
        opt_text(r) == (if contains_text(content@, "type=\""@ + mime@ + seq!['"']) { comment_scan(content@, 0, None) } else { None }),
{
    let mut pat = to_owned_string("type=\"");
    push_str(&mut pat, mime);
    let mut q = String::new();
    crate::textutil::push_char(&mut q, '"');
    push_str(&mut pat, q.as_str());
    assert(q@ =~= seq!['"']);
    let s = chars_of(content);
    let pc = chars_of(pat.as_str());
    if has_text(&s, &pc) {
        extract_comment(content)
    } else {
        None
    }
}

/// The applications found for one MIME variant: the registry's default, the
/// registry's handlers, and the desktop's default.
pub struct VariantHandlers {
    pub default_app: Option<String>,
    pub listed: Vec<String>,
    pub desktop_default: Option<String>,
}

pub open spec fn opt_seq(o: Option<String>) -> Seq<Seq<char>> {
    match o {
        Some(s) => seq![s@],
        None => Seq::empty(),
    }
}

/// Every application found, variant after variant, in the order looked up.
pub open spec fn handler_candidates(v: Seq<VariantHandlers>) -> Seq<Seq<char>>
    decreases v.len(),
{
    if v.len() == 0 {
        Seq::empty()
    } else {
        let h = v.last();
        handler_candidates(v.drop_last()) + opt_seq(h.default_app) + strings_view(h.listed@) + opt_seq(h.desktop_default)
    }
}

fn push_new_app(out: &mut Vec<String>, a: &String)
    ensures
        strings_view(final(out)@) == add_new(strings_view(old(out)@), seq![a@]),
{
    let ghost o = strings_view(out@);
    assert(seq![a@].drop_last() =~= Seq::<Seq<char>>::empty());
    proof {
        reveal_with_fuel(add_new, 2);
    }
    if !crate::textutil::names_contain(out, a.as_str()) {
        out.push(a.clone());
        assert(strings_view(out@) =~= o.push(a@));
    }
}

proof fn lemma_add_new_concat(acc: Seq<Seq<char>>, a: Seq<Seq<char>>, b: Seq<Seq<char>>)
    ensures
        add_new(acc, a + b) == add_new(add_new(acc, a), b),
    decreases b.len(),
{
    if b.len() == 0 {
        assert(a + b =~= a);
    } else {
        lemma_add_new_concat(acc, a, b.drop_last());
        assert((a + b).drop_last() =~= a + b.drop_last());
        assert((a + b).last() == b.last());
    }
}

/// The applications of one variant, in the order looked up.
pub open spec fn variant_apps(h: VariantHandlers) -> Seq<Seq<char>> {
    opt_seq(h.default_app) + strings_view(h.listed@) + opt_seq(h.desktop_default)
}

proof fn lemma_candidates_step(v: Seq<VariantHandlers>, i: int)
    requires
        0 <= i < v.len(),
    ensures
        handler_candidates(v.take(i + 1)) == handler_candidates(v.take(i)) + variant_apps(v[i]),
{
    assert(v.take(i + 1).drop_last() =~= v.take(i));
    assert(v.take(i + 1).last() == v[i]);
    let c = handler_candidates(v.take(i));
    let h = v[i];
    assert(c + opt_seq(h.default_app) + strings_view(h.listed@) + opt_seq(h.desktop_default)
        =~= c + variant_apps(h));
}

fn add_variant(out: &mut Vec<String>, h: &VariantHandlers)
    ensures
        strings_view(final(out)@) == add_new(strings_view(old(out)@), variant_apps(*h)),
{
    let ghost o = strings_view(out@);
    match &h.default_app {
        Some(a) => {
            push_new_app(out, a);
        },
        None => {
            assert(add_new(o, Seq::<Seq<char>>::empty()) == o);
        },
    }
    let ghost d = opt_seq(h.default_app);
    assert(strings_view(out@) == add_new(o, d));
    let mut k: usize = 0;
    while k < h.listed.len()
        invariant
            k <= h.listed@.len(),
            strings_view(out@) == add_new(o, d + strings_view(h.listed@).take(k as int)),
        decreases h.listed@.len() - k,
    {
        let ghost pre = d + strings_view(h.listed@).take(k as int);
        push_new_app(out, &h.listed[k]);
        proof {
            lemma_add_new_concat(o, pre, seq![h.listed@[k as int]@]);
            assert(pre + seq![h.listed@[k as int]@] =~= d + strings_view(h.listed@).take(k + 1));
        }
        k = k + 1;
    }
    assert(strings_view(h.listed@).take(h.listed@.len() as int) =~= strings_view(h.listed@));
    let ghost b2 = d + strings_view(h.listed@);
    match &h.desktop_default {
        Some(a) => {
            push_new_app(out, a);
            proof { lemma_add_new_concat(o, b2, seq![a@]); }
        },
        None => {},
    }
    assert(b2 + opt_seq(h.desktop_default) =~= variant_apps(*h));
    proof {
        if h.desktop_default is None {
            assert(b2 + opt_seq(h.desktop_default) =~= b2);
        } else {
            assert(opt_seq(h.desktop_default) =~= seq![h.desktop_default->0@]);
        }
    }
}

/// The applications offered under "Open With": everything found, each once,
/// in the order found.
pub fn collect_handlers(found: &Vec<VariantHandlers>) -> (r: Vec<String>)
    ensures
        strings_view(r@) == add_new(Seq::empty(), handler_candidates(found@)),
{
    let mut out: Vec<String> = Vec::new();
    assert(strings_view(out@) =~= Seq::<Seq<char>>::empty());
    let mut i: usize = 0;
    while i < found.len()
        invariant
            i <= found@.len(),
            strings_view(out@) == add_new(Seq::empty(), handler_candidates(found@.take(i as int))),
        decreases found@.len() - i,
    {
        let ghost before = handler_candidates(found@.take(i as int));
        add_variant(&mut out, &found[i]);
        proof {
            lemma_candidates_step(found@, i as int);
            lemma_add_new_concat(Seq::empty(), before, variant_apps(found@[i as int]));
        }
        i = i + 1;
    }
    assert(found@.take(found@.len() as int) =~= found@);
    out
}

/// The first name found, if any.
pub open spec fn first_found(v: Seq<Option<String>>) -> Option<Seq<char>>
    decreases v.len(),
{
    if v.len() == 0 {
        None
    } else {
        match v[0] {
            Some(n) => Some(n@),
            None => first_found(v.drop_first()),
        }
    }
}

/// The label of the context menu's open item: "Open" for a directory or
/// when no application was found, else "Open with" and the name of the
/// application found for the first MIME variant that has one (`names` holds
/// that name, or none, for each variant in order).
pub fn open_label(is_dir: bool, names: &Vec<Option<String>>) -> (r: String)
    ensures
        r@ == (if is_dir { "Open"@ } else {
            match first_found(names@) {
                Some(n) => "Open with "@ + n,
                None => "Open"@,
            }
        }),
{
    if is_dir {
        return to_owned_string("Open");
    }
    let mut i: usize = 0;
    assert(names@.skip(0) =~= names@);
    while i < names.len()
        invariant
            i <= names@.len(),
            !is_dir,
            first_found(names@) == first_found(names@.skip(i as int)),
        decreases names@.len() - i,
    {
        proof {
            assert(names@.skip(i as int).drop_first() =~= names@.skip(i + 1));
        }
        assert(names@.skip(i as int)[0] == names@[i as int]);
        match &names[i] {
            Some(n) => {
                return concat("Open with ", n.as_str());
            },
            None => {},
        }
        i = i + 1;
    }
    assert(names@.skip(i as int) =~= Seq::<Option<String>>::empty());
    to_owned_string("Open")
}

/// A structured-text application type (an `application/` type whose name
/// mentions json, xml, yaml, toml or markdown) is tried as itself and then
/// as plain text, so that text editors are offered for it.
pub proof fn law_structured_text_falls_back_to_plain_text(m: Seq<char>)
    requires
        starts_with(m, "application/"@),
        contains_text(m, "json"@) || contains_text(m, "xml"@) || contains_text(m, "yaml"@)
            || contains_text(m, "toml"@) || contains_text(m, "markdown"@),
    ensures
        mime_variants(m) == seq![m, "text/plain"@],
        mime_variants(m).last() == "text/plain"@,
{
    reveal_strlit("application/");
    reveal_strlit("text/");
    reveal_strlit("text/x-toml");
    reveal_strlit("text/x-rust");
    reveal_strlit("text/plain");
    assert(m.take(12)[0] == m[0]);
    assert("application/"@[0] == 'a');
    assert(m[0] == 'a');
    assert(m != "text/x-toml"@) by { assert("text/x-toml"@[0] == 't'); }
    assert(m != "text/x-rust"@) by { assert("text/x-rust"@[0] == 't'); }
    assert(!starts_with(m, "text/"@)) by {
        if starts_with(m, "text/"@) {
            assert(m.take(5)[0] == m[0]);
        }
    }
    assert(mime_variants(m) =~= seq![m, "text/plain"@]);
}

/// Every other text type is tried as itself and then as plain text; plain
/// text itself has no fallback.
pub proof fn law_text_types_fall_back_to_plain_text(m: Seq<char>)
    requires
        starts_with(m, "text/"@),
        m != "text/x-toml"@,
    ensures
        m != "text/plain"@ ==> mime_variants(m) == seq![m, "text/plain"@],
        m == "text/plain"@ ==> mime_variants(m) == seq![m],
{
    reveal_strlit("application/toml");
    reveal_strlit("text/");
    reveal_strlit("text/plain");
    reveal_strlit("text/x-rust");
    assert("text/plain"@ != "text/x-rust"@) by {
        assert("text/plain"@[5] == 'p' && "text/x-rust"@[5] == 'x');
    }
    assert(m != "application/toml"@) by {
        assert(m.take(5)[0] == 't');
        assert("application/toml"@[0] == 'a');
    }
    assert(seq![m] + seq!["text/plain"@] =~= seq![m, "text/plain"@]);
    assert(seq![m] + Seq::<Seq<char>>::empty() =~= seq![m]);
}

} // verus!
