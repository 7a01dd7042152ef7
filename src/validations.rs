//! Checks on the answers typed at the interactive prompts.
use vstd::prelude::*;
use vstd::string::*;
use crate::rpc::{action_named, lower_of, parse_action};
use crate::text::{str_eq, trim, trimmed, views};

verus! {

/// A yes-or-no answer.
pub struct MyBool(pub bool);

/// The words read as yes.
pub open spec fn yes_words() -> Seq<Seq<char>> {
    seq!["Yes"@, "yes"@, "Y"@, "y"@, "true"@, "True"@]
}

/// The words read as no; an empty answer is one of them.
pub open spec fn no_words() -> Seq<Seq<char>> {
    seq!["No"@, "no"@, "N"@, "n"@, "false"@, "False"@, ""@]
}

/// The answer a word gives, if it gives one.
pub open spec fn answer_of(s: Seq<char>) -> Option<bool> {
    if yes_words().contains(s) {
        Some(true)
    } else if no_words().contains(s) {
        Some(false)
    } else {
        None
    }
}

fn in_words(s: &str, words: &[&str]) -> (r: bool)
    ensures
        r == words@.map_values(|w: &str| w@).contains(s@),
{
    let ghost ws = words@.map_values(|w: &str| w@);
    let mut i: usize = 0;
    while i < words.len()
        invariant
            ws == words@.map_values(|w: &str| w@),
            0 <= i <= words@.len(),
            forall|j: int| 0 <= j < i ==> ws[j] != s@,
        decreases words@.len() - i,
    {
        if str_eq(words[i], s) {
            assert(ws[i as int] == s@);
            return true;
        }
        i = i + 1;
    }
    false
}

/// Reads a yes-or-no answer.
pub fn parse_my_bool(s: &str) -> (r: Result<MyBool, String>)
    ensures
        match answer_of(s@) {
            Some(b) => r is Ok && r->Ok_0.0 == b,
            None => r is Err && r->Err_0@ == s@ + " Not recognized"@,
        },
{
    let yes: [&str; 6] = ["Yes", "yes", "Y", "y", "true", "True"];
    let no: [&str; 7] = ["No", "no", "N", "n", "false", "False", ""];
    assert(yes@.map_values(|w: &str| w@) =~= yes_words());
    assert(no@.map_values(|w: &str| w@) =~= no_words());
    if in_words(s, yes.as_slice()) {
        Ok(MyBool(true))
    } else if in_words(s, no.as_slice()) {
        Ok(MyBool(false))
    } else {
        let mut m = s.to_owned();
        m.append(" Not recognized");
        Err(m)
    }
}

impl std::str::FromStr for MyBool {
    type Err = String;

    fn from_str(s: &str) -> Result<Self, Self::Err> {
        parse_my_bool(s)
    }
}

/// Accepts a non-empty answer, or one that reads as yes or no once white
/// space is trimmed.
pub fn accept(s: &str) -> (r: bool)
    ensures
        r == (s@.len() > 0 || answer_of(trimmed(s@)) is Some),
{
    !s.is_empty() || parse_my_bool(trim(s)).is_ok()
}

/// Accepts a non-empty answer, or the name of an installed widget.
pub fn is_widget(s: &str, widgets: &Vec<String>) -> (r: bool)
    ensures
        r == (s@.len() > 0 || views(widgets@).contains(trimmed(s@))),
{
    if !s.is_empty() {
        return true;
    }
    let t = trim(s);
    let mut i: usize = 0;
    while i < widgets.len()
        invariant
            t@ == trimmed(s@),
            0 <= i <= widgets@.len(),
            forall|j: int| 0 <= j < i ==> #[trigger] widgets@[j]@ != t@,
        decreases widgets@.len() - i,
    {
        if str_eq(widgets[i].as_str(), t) {
            assert(views(widgets@)[i as int] == t@);
            return true;
        }
        i = i + 1;
    }
    assert(!views(widgets@).contains(t@)) by {
        if views(widgets@).contains(t@) {
            let j = choose|j: int| 0 <= j < views(widgets@).len() && views(widgets@)[j] == t@;
            assert(widgets@[j]@ == t@);
        }
    }
    false
}

/// Accepts a non-empty answer, or a word that names a lifecycle action.
pub fn is_rpc_action(s: &str) -> (r: bool)
    ensures
        r == (s@.len() > 0 || action_named(lower_of(s@)) is Some),
{
    !s.is_empty() || parse_action(s).is_ok()
}

/// An ASCII decimal digit.
pub open spec fn is_digit(c: char) -> bool {
    '0' <= c <= '9'
}

/// The value of a string of decimal digits.
pub open spec fn digits_value(s: Seq<char>) -> nat
    decreases s.len(),
{
    if s.len() == 0 {
        0
    } else {
        digits_value(s.drop_last()) * 10 + (s.last() as nat - '0' as nat) as nat
    }
}

/// The digits of a number's text: what follows its sign, if it has one.
pub open spec fn digits_part(t: Seq<char>) -> Seq<char> {
    if t.len() > 0 && (t[0] == '-' || t[0] == '+') {
        t.drop_first()
    } else {
        t
    }
}

/// Every character is a decimal digit.
pub open spec fn all_digits(d: Seq<char>) -> bool {
    forall|i: int| 0 <= i < d.len() ==> is_digit(#[trigger] d[i])
}

/// The text of an `i32` as `str::parse` reads it: an optional sign, then one
/// or more decimal digits whose value fits the type.
pub open spec fn is_i32_text(t: Seq<char>) -> bool {
    let d = digits_part(t);
    d.len() > 0 && all_digits(d) && if t.len() > 0 && t[0] == '-' {
        digits_value(d) <= 0x8000_0000
    } else {
        digits_value(d) <= 0x7fff_ffff
    }
}

/// Accepts a whole number that fits an `i32`, white space around it aside.
pub fn is_number(s: &str) -> (r: bool)
    ensures
        r == is_i32_text(trimmed(s@)),
{
    let t = trim(s);
    let n = t.unicode_len();
    if n == 0 {
        return false;
    }
    let c0 = t.get_char(0);
    let neg = c0 == '-';
    let start: usize = if c0 == '-' || c0 == '+' { 1 } else { 0 };
    let ghost d = t@.subrange(start as int, n as int);
    assert(d =~= if start == 1 { t@.drop_first() } else { t@ });
    if start == n {
        return false;
    }
    let limit: u64 = if neg { 0x8000_0000 } else { 0x7fff_ffff };
    let mut value: u64 = 0;
    let mut big = false;
    let mut i: usize = start;
    assert(d.subrange(0, 0) =~= Seq::<char>::empty());
    while i < n
        invariant
            n == t@.len(),
            start <= i <= n,
            d == t@.subrange(start as int, n as int),
            n > 0,
            neg == (t@[0] == '-'),
            (start == 1) == (t@[0] == '-' || t@[0] == '+'),
            start <= 1,
            d == (if start == 1 { t@.drop_first() } else { t@ }),
            limit == (if neg { 0x8000_0000u64 } else { 0x7fff_ffffu64 }),
            t@ == trimmed(s@),
            forall|j: int| start <= j < i ==> is_digit(t@[j]),
            big ==> digits_value(d.subrange(0, i - start)) > limit,
            !big ==> value == digits_value(d.subrange(0, i - start)) && value <= limit,
            limit <= 0x8000_0000,
        decreases n - i,
    {
        let c = t.get_char(i);
        if !('0' <= c && c <= '9') {
            assert(!is_digit(d[i - start]));
            assert(digits_part(t@) == d);
            assert(!all_digits(d));
            return false;
        }
        let ghost p = d.subrange(0, i - start);
        let ghost q = d.subrange(0, i + 1 - start);
        assert(q.drop_last() =~= p);
        assert(q.last() == c);
        let dv = (c as u64) - ('0' as u64);
        if !big {
            let next = value * 10 + dv;
            if next > limit {
                big = true;
            } else {
                value = next;
            }
        } else {
            assert(digits_value(q) >= digits_value(p)) by (nonlinear_arith)
                requires
                    digits_value(q) == digits_value(p) * 10 + (c as nat - '0' as nat) as nat,
            ;
        }
        i = i + 1;
    }
    assert(d.subrange(0, n - start) =~= d);
    !big
}

} // verus!
