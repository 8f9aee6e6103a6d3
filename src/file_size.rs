//! Human-readable byte counts with 1024-based units.
use vstd::prelude::*;

use crate::text::{decimal, digit_char, int_text, push_decimal, push_int, push_str, string_of};

verus! {

/// `1024` to the power `i`.
pub open spec fn pow1024(i: nat) -> int
    decreases i,
{
    if i == 0 {
        1
    } else {
        1024 * pow1024((i - 1) as nat)
    }
}

/// The unit suffixes, smallest first.
pub open spec fn size_suffix(i: int) -> Seq<char> {
    if i == 0 {
        "B"@
    } else if i == 1 {
        "KiB"@
    } else if i == 2 {
        "MiB"@
    } else if i == 3 {
        "GiB"@
    } else if i == 4 {
        "TiB"@
    } else {
        "PiB"@
    }
}

/// The number of units in the suffix table.
pub const SUFFIX_COUNT: usize = 6;

/// The first unit at or after `i` whose range `[1024^i, 1024^(i+1))` holds `n`.
pub open spec fn unit_from(n: int, i: nat) -> Option<nat>
    decreases 6 - i,
{
    if i >= 6 {
        None
    } else if pow1024(i) <= n && n < pow1024(i + 1) {
        Some(i)
    } else {
        unit_from(n, i + 1)
    }
}

/// `a / b` rounded to the nearest integer, ties to the even one.
pub open spec fn div_round_half_even(a: nat, b: nat) -> nat
    recommends
        b > 0,
{
    let q = a / b;
    let r = a % b;
    if 2 * r > b || (2 * r == b && q % 2 == 1) {
        q + 1
    } else {
        q
    }
}

/// A count of hundredths written with two decimals, as in `12.34`.
pub open spec fn hundredths_text(h: nat) -> Seq<char> {
    decimal(h / 100) + seq!['.', digit_char(((h / 10) % 10) as int), digit_char((h % 10) as int)]
}

/// The text of a byte count: in the unit whose range holds it, with two decimals; a count
/// that no unit holds (below one byte, or from 1024 PiB on) is written whole, in bytes.
pub open spec fn file_size_text(n: int) -> Seq<char> {
    match unit_from(n, 0) {
        Some(i) => hundredths_text(div_round_half_even((n * 100) as nat, pow1024(i) as nat))
            + seq![' '] + size_suffix(i as int),
        None => int_text(n) + seq![' '] + size_suffix(0),
    }
}

/// `s` ends with `t`.
pub open spec fn ends_with(s: Seq<char>, t: Seq<char>) -> bool {
    t.len() <= s.len() && s.subrange(s.len() - t.len(), s.len() as int) == t
}

/// `s` ends with one of the unit suffixes.
pub open spec fn ends_with_size_suffix(s: Seq<char>) -> bool {
    exists|i: int| 0 <= i < 6 && ends_with(s, #[trigger] size_suffix(i))
}

/// The suffix of unit `i`.
pub fn file_size_suffix(i: usize) -> (r: &'static str)
    requires
        i < SUFFIX_COUNT,
    ensures
        r@ == size_suffix(i as int),
{
    if i == 0 {
        "B"
    } else if i == 1 {
        "KiB"
    } else if i == 2 {
        "MiB"
    } else if i == 3 {
        "GiB"
    } else if i == 4 {
        "TiB"
    } else {
        "PiB"
    }
}

proof fn lemma_concat_ends_with(a: Seq<char>, b: Seq<char>)
    ensures
        ends_with(a + b, b),
{
    assert((a + b).subrange(a.len() as int, (a + b).len() as int) =~= b);
}

/// Formats a byte count with a 1024-based unit and two decimals, as in `10.00 MiB`.
pub fn format_file_size(file_size_bytes: i64) -> (r: String)
    ensures
        r@ == file_size_text(file_size_bytes as int),
        ends_with_size_suffix(r@),
{
    let n = file_size_bytes;
    let mut out: Vec<char> = Vec::new();
    let mut i: usize = 0;
    let mut lower: i64 = 1;
    proof {
        reveal_with_fuel(pow1024, 7);
    }
    while i < SUFFIX_COUNT
        invariant
            i <= 6,
            n == file_size_bytes,
            lower == pow1024(i as nat),
            unit_from(n as int, 0) == unit_from(n as int, i as nat),
            out@.len() == 0,
            pow1024(1) == 1024,
            pow1024(2) == 1024 * 1024,
            pow1024(3) == 1024 * 1024 * 1024,
            pow1024(4) == 1024 * 1024 * 1024 * 1024,
            pow1024(5) == 1024 * 1024 * 1024 * 1024 * 1024,
            pow1024(6) == 1024 * 1024 * 1024 * 1024 * 1024 * 1024,
        decreases 6 - i,
    {
        assert(i == 0 || i == 1 || i == 2 || i == 3 || i == 4 || i == 5);
        let higher: i64 = lower * 1024;
        assert(higher == pow1024((i + 1) as nat));
        if n >= lower && n < higher {
            let a: u128 = (n as u128) * 100;
            let b: u128 = lower as u128;
            let q: u128 = a / b;
            let rem: u128 = a % b;
            let h: u128 = if 2 * rem > b || (2 * rem == b && q % 2 == 1) {
                q + 1
            } else {
                q
            };
            push_decimal(&mut out, h / 100);
            out.push('.');
            push_decimal(&mut out, (h / 10) % 10);
            push_decimal(&mut out, h % 10);
            out.push(' ');
            let ghost mid = out@;
            push_str(&mut out, file_size_suffix(i));
            proof {
                assert(out@ =~= hundredths_text(h as nat) + seq![' '] + size_suffix(i as int));
                lemma_concat_ends_with(mid, size_suffix(i as int));
            }
            return string_of(out.as_slice());
        }
        lower = higher;
        i += 1;
    }
    push_int(&mut out, n as i128);
    out.push(' ');
    let ghost mid = out@;
    push_str(&mut out, file_size_suffix(0));
    proof {
        assert(out@ =~= int_text(n as int) + seq![' '] + size_suffix(0));
        lemma_concat_ends_with(mid, size_suffix(0));
    }
    string_of(out.as_slice())
}

/// Every text that `format_file_size` gives ends with one of the unit suffixes `B`, `KiB`,
/// `MiB`, `GiB`, `TiB` or `PiB`.
pub proof fn lemma_file_size_ends_with_suffix(n: i64)
    ensures
        ends_with_size_suffix(file_size_text(n as int)),
{
    match unit_from(n as int, 0) {
        Some(i) => {
            let head = hundredths_text(div_round_half_even((n * 100) as nat, pow1024(i) as nat))
                + seq![' '];
            lemma_unit_from_bound(n as int, 0);
            lemma_concat_ends_with(head, size_suffix(i as int));
        },
        None => {
            lemma_concat_ends_with(int_text(n as int) + seq![' '], size_suffix(0));
        },
    }
}

proof fn lemma_unit_from_bound(n: int, i: nat)
    ensures
        unit_from(n, i) matches Some(u) ==> u < 6,
    decreases 6 - i,
{
    if i < 6 && !(pow1024(i) <= n && n < pow1024(i + 1)) {
        lemma_unit_from_bound(n, i + 1);
    }
}

} // verus!
