//! The few things that the unpacker does with names.

use vstd::prelude::*;
use vstd::string::{StrSliceExecFns, StringExecFns};

verus! {

/// `name` without `suffix` at its end, or nothing where `name` does not end
/// in `suffix`.
pub open spec fn without_suffix(name: Seq<char>, suffix: Seq<char>) -> Seq<char> {
    if ends_with(name, suffix) {
        name.subrange(0, name.len() - suffix.len())
    } else {
        Seq::empty()
    }
}

/// `name` ends in `suffix`.
pub open spec fn ends_with(name: Seq<char>, suffix: Seq<char>) -> bool {
    suffix.len() <= name.len() && name.subrange(name.len() - suffix.len(), name.len() as int)
        == suffix
}

/// The character of a decimal digit.
pub open spec fn digit_char(d: int) -> char {
    if d == 0 {
        '0'
    } else if d == 1 {
        '1'
    } else if d == 2 {
        '2'
    } else if d == 3 {
        '3'
    } else if d == 4 {
        '4'
    } else if d == 5 {
        '5'
    } else if d == 6 {
        '6'
    } else if d == 7 {
        '7'
    } else if d == 8 {
        '8'
    } else {
        '9'
    }
}

/// A number in decimal digits, without leading zeros.
pub open spec fn decimal(n: nat) -> Seq<char>
    decreases n,
{
    if n < 10 {
        seq![digit_char(n as int)]
    } else {
        decimal(n / 10).push(digit_char((n % 10) as int))
    }
}

/// The name of the partition with the number `id`: the letter `p` and the
/// number in decimal.
pub open spec fn partition_label(id: nat) -> Seq<char> {
    seq!['p'] + decimal(id)
}

/// Whether `name` ends in `suffix`.
pub fn has_suffix(name: &str, suffix: &str) -> (yes: bool)
    ensures
        yes == ends_with(name@, suffix@),
{
    let n = name.unicode_len();
    let m = suffix.unicode_len();
    if m > n {
        return false;
    }
    let mut i: usize = 0;
    while i < m
        invariant
            i <= m <= n,
            n == name@.len(),
            m == suffix@.len(),
            forall|j: int| 0 <= j < i ==> name@[n - m + j] == suffix@[j],
        decreases m - i,
    {
        if name.get_char(n - m + i) != suffix.get_char(i) {
            assert(name@.subrange(n - m, n as int)[i as int] != suffix@[i as int]);
            return false;
        }
        i = i + 1;
    }
    assert(name@.subrange(n - m, n as int) =~= suffix@);
    true
}

/// `name` without `suffix` at its end, or the empty string where `name`
/// does not end in `suffix`.
pub fn strip_suffix<'a>(name: &'a str, suffix: &str) -> (stem: &'a str)
    ensures
        stem@ == without_suffix(name@, suffix@),
{
    if has_suffix(name, suffix) {
        let n = name.unicode_len();
        let m = suffix.unicode_len();
        name.substring_char(0, n - m)
    } else {
        let stem = name.substring_char(0, 0);
        assert(stem@ =~= Seq::empty());
        stem
    }
}

fn digit_text(d: usize) -> (text: &'static str)
    requires
        d < 10,
    ensures
        text@ == seq![digit_char(d as int)],
{
    proof {
        reveal_strlit("0");
        reveal_strlit("1");
        reveal_strlit("2");
        reveal_strlit("3");
        reveal_strlit("4");
        reveal_strlit("5");
        reveal_strlit("6");
        reveal_strlit("7");
        reveal_strlit("8");
        reveal_strlit("9");
    }
    let text = if d == 0 {
        "0"
    } else if d == 1 {
        "1"
    } else if d == 2 {
        "2"
    } else if d == 3 {
        "3"
    } else if d == 4 {
        "4"
    } else if d == 5 {
        "5"
    } else if d == 6 {
        "6"
    } else if d == 7 {
        "7"
    } else if d == 8 {
        "8"
    } else {
        "9"
    };
    assert(text@ =~= seq![digit_char(d as int)]);
    text
}

/// Puts the decimal digits of `n` at the end of `text`.
fn push_decimal(text: &mut String, n: usize)
    ensures
        final(text)@ == old(text)@ + decimal(n as nat),
    decreases n,
{
    if n >= 10 {
        push_decimal(text, n / 10);
    }
    let ghost before = text@;
    text.append(digit_text(n % 10));
    proof {
        if n >= 10 {
            assert(text@ =~= old(text)@ + decimal(n as nat));
        } else {
            assert(text@ =~= old(text)@ + decimal(n as nat));
        }
    }
}

/// The name under which the partition with the number `id` is listed.
pub fn partition_name(id: usize) -> (name: String)
    ensures
        name@ == partition_label(id as nat),
{
    proof {
        reveal_strlit("p");
    }
    let mut name = "p".to_owned();
    assert(name@ =~= seq!['p']);
    push_decimal(&mut name, id);
    name
}

/// Whether two strings hold the same text.
pub fn same_text(a: &str, b: &str) -> (yes: bool)
    ensures
        yes == (a@ == b@),
{
    let n = a.unicode_len();
    if n != b.unicode_len() {
        return false;
    }
    let mut i: usize = 0;
    while i < n
        invariant
            i <= n,
            n == a@.len(),
            n == b@.len(),
            forall|j: int| 0 <= j < i ==> a@[j] == b@[j],
        decreases n - i,
    {
        if a.get_char(i) != b.get_char(i) {
            return false;
        }
        i = i + 1;
    }
    assert(a@ =~= b@);
    true
}

} // verus!
