//! The rows of the file list's Properties popup: kind, name, size, dates and
//! location of one entry, or the count and total size of several. The host
//! reads the file system and hands the facts in.

use vstd::prelude::*;
use crate::textutil::{push_char, push_str, to_owned_string, strings_view};

verus! {

/// What `humansize::format_size(size, BINARY)` writes for `size` bytes.
pub uninterp spec fn binary_size_text(size: u64) -> Seq<char>;

/// `humansize::format_size` with binary units (KiB, MiB, ...): a function
/// of the size alone; what it writes is not spelled out here.
#[verifier::external_body]
fn format_binary_size(size: u64) -> (r: String)
    ensures
        r@ == binary_size_text(size),
{
    humansize::format_size(size, humansize::BINARY)
}

/// What `str::to_uppercase` gives for `s`.
pub uninterp spec fn upper_text(s: Seq<char>) -> Seq<char>;

/// `str::to_uppercase`: the Unicode upper case of a string, a function of
/// the string alone; the case mapping is not spelled out here.
#[verifier::external_body]
fn to_upper(s: &str) -> (r: String)
    ensures
        r@ == upper_text(s@),
{
    s.to_uppercase()
}

/// The decimal digit for `d` (0 to 9).
pub open spec fn digit_char(d: int) -> char {
    if d == 0 { '0' } else if d == 1 { '1' } else if d == 2 { '2' } else if d == 3 { '3' }
    else if d == 4 { '4' } else if d == 5 { '5' } else if d == 6 { '6' } else if d == 7 { '7' }
    else if d == 8 { '8' } else { '9' }
}

/// `n` written in decimal, without leading zeros.
pub open spec fn decimal(n: nat) -> Seq<char>
    decreases n,
{
    if n < 10 { seq![digit_char(n as int)] } else { decimal(n / 10).push(digit_char((n % 10) as int)) }
}

fn digit(d: u64) -> (r: char)
    requires
        d < 10,
    ensures
        r == digit_char(d as int),
{
    if d == 0 { '0' } else if d == 1 { '1' } else if d == 2 { '2' } else if d == 3 { '3' }
    else if d == 4 { '4' } else if d == 5 { '5' } else if d == 6 { '6' } else if d == 7 { '7' }
    else if d == 8 { '8' } else { '9' }
}

/// `n.to_string()`.
pub fn decimal_text(n: u64) -> (r: String)
    ensures
        r@ == decimal(n as nat),
    decreases n,
{
    if n < 10 {
        let mut s = String::new();
        push_char(&mut s, digit(n));
        assert(s@ =~= seq![digit_char(n as int)]);
        s
    } else {
        let mut s = decimal_text(n / 10);
        push_char(&mut s, digit(n % 10));
        s
    }
}

/// One row of the popup: a caption and a value.
pub open spec fn rows_view(v: Seq<(String, String)>) -> Seq<(Seq<char>, Seq<char>)> {
    v.map_values(|r: (String, String)| (r.0@, r.1@))
}

/// What the popup shows.
pub struct PropertiesData {
    pub title: String,
    pub icon_label: String,
    pub rows: Vec<(String, String)>,
    pub paths: Vec<String>,
}

/// The facts read from an entry's metadata: its size (for a directory, the
/// size of what it holds) and, where known, its dates already formatted.
pub struct FileFacts {
    pub size: u64,
    pub modified: Option<String>,
    pub created: Option<String>,
}

/// The size row's value: the size in binary units, then in bytes.
pub open spec fn size_value(human: Seq<char>, size: u64) -> Seq<char> {
    human + " ("@ + decimal(size as nat) + " bytes)"@
}

/// The size row's value from the text `human` gave for the size.
pub fn size_with_bytes(human: &str, size: u64) -> (r: String)
    ensures
        r@ == size_value(human@, size),
{
    let mut s = to_owned_string(human);
    push_str(&mut s, " (");
    let d = decimal_text(size);
    push_str(&mut s, d.as_str());
    push_str(&mut s, " bytes)");
    s
}

/// The kind: the type's description with the type in brackets, or the type.
pub fn kind_display(description: Option<String>, mime: &str) -> (r: String)
    ensures
        r@ == match description {
            Some(d) => d@ + " ("@ + mime@ + ")"@,
            None => mime@,
        },
{
    match description {
        Some(d) => {
            let mut s = d;
            push_str(&mut s, " (");
            push_str(&mut s, mime);
            push_str(&mut s, ")");
            s
        },
        None => to_owned_string(mime),
    }
}

/// The big label of the popup for one entry: its extension in upper case,
/// or `FILE`.
pub fn icon_label(extension: Option<&str>) -> (r: String)
    ensures
        r@ == match extension {
            Some(e) => upper_text(e@),
            None => "FILE"@,
        },
{
    match extension {
        Some(e) => to_upper(e),
        None => to_owned_string("FILE"),
    }
}

fn row(caption: &str, value: String) -> (r: (String, String))
    ensures
        r.0@ == caption@,
        r.1@ == value@,
{
    (to_owned_string(caption), value)
}

pub open spec fn opt_row(caption: Seq<char>, v: Option<String>) -> Seq<(Seq<char>, Seq<char>)> {
    match v {
        Some(s) => seq![(caption, s@)],
        None => Seq::empty(),
    }
}

/// The rows for one entry: kind and name; then, when the metadata could be
/// read, its size and whichever dates are known; then location and path.
pub open spec fn single_rows(kind: Seq<char>, name: Seq<char>, facts: Option<FileFacts>, location: Seq<char>, path: Seq<char>) -> Seq<(Seq<char>, Seq<char>)> {
    seq![("Kind"@, kind), ("Name"@, name)]
        + (match facts {
            Some(f) => seq![("Size"@, size_value(binary_size_text(f.size), f.size))]
                + opt_row("Modified"@, f.modified) + opt_row("Created"@, f.created),
            None => Seq::empty(),
        })
        + seq![("Location"@, location), ("Path"@, path)]
}

/// The popup for one entry at `path`, named `name`, with the kind text,
/// extension, metadata and parent directory the host found.
pub fn single_properties(
    path: String,
    name: String,
    extension: Option<&str>,
    kind: String,
    facts: Option<FileFacts>,
    location: String,
) -> (r: PropertiesData)
    ensures
        r.title@ == name@,
        r.icon_label@ == match extension {
            Some(e) => upper_text(e@),
            None => "FILE"@,
        },
        rows_view(r.rows@) == single_rows(kind@, name@, facts, location@, path@),
        strings_view(r.paths@) == seq![path@],
{
    let ghost g_facts = facts;
    let mut rows: Vec<(String, String)> = Vec::new();
    rows.push(row("Kind", kind));
    rows.push(row("Name", name.clone()));
    let ghost head = rows_view(rows@);
    match facts {
        Some(f) => {
            let human = format_binary_size(f.size);
            rows.push(row("Size", size_with_bytes(human.as_str(), f.size)));
            match f.modified {
                Some(m) => { rows.push(row("Modified", m)); },
                None => {},
            }
            match f.created {
                Some(c) => { rows.push(row("Created", c)); },
                None => {},
            }
        },
        None => {},
    }
    rows.push(row("Location", location));
    rows.push(row("Path", path.clone()));
    assert(rows_view(rows@) =~= single_rows(kind@, name@, g_facts, location@, path@));
    let mut paths: Vec<String> = Vec::new();
    paths.push(path);
    assert(strings_view(paths@) =~= seq![path@]);
    PropertiesData { title: name, icon_label: icon_label(extension), rows, paths }
}

/// The sum of the known sizes, stopping at the largest value.
pub open spec fn total_size(sizes: Seq<Option<u64>>) -> u64
    decreases sizes.len(),
{
    if sizes.len() == 0 {
        0
    } else {
        let t = total_size(sizes.drop_last());
        match sizes.last() {
            Some(s) => if t + s > u64::MAX { u64::MAX } else { (t + s) as u64 },
            None => t,
        }
    }
}

/// The popup for several paths: their count and total size (`sizes` holds
/// each path's size, or none where the metadata could not be read).
pub fn multi_properties(paths: Vec<String>, sizes: &Vec<Option<u64>>) -> (r: PropertiesData)
    ensures
        r.title@ == decimal(paths@.len()) + " items"@,
        r.icon_label@ == "MULTI"@,
        rows_view(r.rows@) == seq![
            ("Items"@, decimal(paths@.len())),
            ("Total size"@, binary_size_text(total_size(sizes@))),
        ],
        strings_view(r.paths@) == strings_view(paths@),
{
    let mut total: u64 = 0;
    let mut i: usize = 0;
    while i < sizes.len()
        invariant
            i <= sizes@.len(),
            total == total_size(sizes@.take(i as int)),
        decreases sizes@.len() - i,
    {
        proof {
            assert(sizes@.take(i + 1).drop_last() =~= sizes@.take(i as int));
        }
        match sizes[i] {
            Some(s) => { total = total.saturating_add(s); },
            None => {},
        }
        i = i + 1;
    }
    assert(sizes@.take(sizes@.len() as int) =~= sizes@);
    let count = paths.len() as u64;
    let mut rows: Vec<(String, String)> = Vec::new();
    rows.push(row("Items", decimal_text(count)));
    rows.push(row("Total size", format_binary_size(total)));
    assert(rows_view(rows@) =~= seq![
        ("Items"@, decimal(paths@.len())),
        ("Total size"@, binary_size_text(total_size(sizes@))),
    ]);
    let mut title = decimal_text(count);
    push_str(&mut title, " items");
    PropertiesData { title, icon_label: to_owned_string("MULTI"), rows, paths }
}

} // verus!
