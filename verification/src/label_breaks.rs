//! Break opportunities in a file name shown under its icon: a zero-width
//! space after each punctuation mark, and, in a name made of letters and
//! digits alone, after every ten characters.

use vstd::prelude::*;
use crate::textutil::{is_white_space, white_space, chars_of, push_char};

verus! {

/// Whether a character is alphabetic or numeric in Unicode's sense.
pub uninterp spec fn alphanumeric(c: char) -> bool;

/// `char::is_alphanumeric`: whether `c` has Unicode's Alphabetic or Numeric
/// property. The contract ties the result to the name `alphanumeric` of
/// the character; the Unicode tables behind it are not written out.
#[verifier::external_body]
fn is_alphanumeric(c: char) -> (r: bool)
    ensures
        r == alphanumeric(c),
{
    c.is_alphanumeric()
}

/// The zero-width space, a line-break opportunity that shows nothing.
pub open spec fn zero_width_space() -> char {
    '\u{200B}'
}

/// Whether every character of `s` is a letter or a digit.
pub open spec fn all_alphanumeric(s: Seq<char>) -> bool {
    forall|i: int| 0 <= i < s.len() ==> alphanumeric(#[trigger] s[i])
}

/// `s` with its break opportunities, and how many letters and digits
/// follow the last break. A character that is neither a letter, a digit
/// nor white space gets a break after it; white space starts a new run;
/// a letter or digit extends the run, and when `continuous` a run of ten
/// gets a break after it.
pub open spec fn with_breaks(s: Seq<char>, continuous: bool) -> (Seq<char>, nat)
    decreases s.len(),
{
    if s.len() == 0 {
        (Seq::empty(), 0)
    } else {
        let r = with_breaks(s.drop_last(), continuous);
        let c = s.last();
        if !alphanumeric(c) && !is_white_space(c) {
            (r.0.push(c).push(zero_width_space()), 0)
        } else if is_white_space(c) {
            (r.0.push(c), 0)
        } else if continuous && r.1 + 1 >= 10 {
            (r.0.push(c).push(zero_width_space()), 0)
        } else {
            (r.0.push(c), r.1 + 1)
        }
    }
}

/// The label of a file name with its break opportunities, and whether the
/// name has natural breaks (a character that is not a letter or a digit).
pub fn label_with_breaks(name: &str) -> (r: (String, bool))
    ensures
        r.0@ == with_breaks(name@, all_alphanumeric(name@)).0,
        r.1 == !all_alphanumeric(name@),
{
    let chars = chars_of(name);
    let mut continuous = true;
    let mut i: usize = 0;
    while i < chars.len()
        invariant
            i <= chars@.len(),
            chars@ == name@,
            continuous == all_alphanumeric(chars@.take(i as int)),
        decreases chars@.len() - i,
    {
        let a = is_alphanumeric(chars[i]);
        proof {
            let t = chars@.take(i + 1);
            if !a {
                assert(t[i as int] == chars@[i as int]);
            }
            if continuous && a {
                assert forall|k: int| 0 <= k < t.len() implies alphanumeric(#[trigger] t[k]) by {
                    if k < i {
                        assert(chars@.take(i as int)[k] == t[k]);
                    }
                }
            }
            if !continuous {
                let k = choose|k: int| 0 <= k < i && !alphanumeric(#[trigger] chars@.take(i as int)[k]);
                assert(t[k] == chars@.take(i as int)[k]);
            }
        }
        continuous = continuous && a;
        i = i + 1;
    }
    assert(chars@.take(chars@.len() as int) =~= chars@);
    let mut out = String::new();
    let mut run: usize = 0;
    let mut j: usize = 0;
    while j < chars.len()
        invariant
            j <= chars@.len(),
            chars@ == name@,
            continuous == all_alphanumeric(name@),
            (out@, run as nat) == with_breaks(chars@.take(j as int), continuous),
            continuous ==> run < 10,
            run <= j,
        decreases chars@.len() - j,
    {
        let c = chars[j];
        proof {
            let t = chars@.take(j + 1);
            assert(t.drop_last() =~= chars@.take(j as int));
            assert(t.last() == c);
        }
        let a = is_alphanumeric(c);
        let w = white_space(c);
        push_char(&mut out, c);
        if !a && !w {
            push_char(&mut out, '\u{200B}');
            run = 0;
        } else if w {
            run = 0;
        } else {
            run = run + 1;
            if continuous && run >= 10 {
                push_char(&mut out, '\u{200B}');
                run = 0;
            }
        }
        j = j + 1;
    }
    assert(chars@.take(chars@.len() as int) =~= chars@);
    (out, !continuous)
}

} // verus!
