//! Byte counts in words.

use vstd::prelude::*;
use crate::decimal::{
    one_place, render_one_place, render_two_places, round_div, rounded, two_places,
};
use crate::text::{chars_of, string_of};

verus! {

/// The number of bytes in the unit `index`: 1024 to the power of `index`.
pub open spec fn unit_size(index: nat) -> nat {
    if index == 0 {
        1
    } else if index == 1 {
        1024
    } else if index == 2 {
        1048576
    } else if index == 3 {
        1073741824
    } else {
        1099511627776
    }
}

/// The largest unit that is not larger than `bytes`, from 0 (bytes) to 4
/// (terabytes).
pub open spec fn unit_index(bytes: u64) -> nat {
    if bytes < 1024 {
        0
    } else if bytes < 1048576 {
        1
    } else if bytes < 1073741824 {
        2
    } else if bytes < 1099511627776 {
        3
    } else {
        4
    }
}

/// The name of the unit `index`.
pub open spec fn unit_name(index: nat) -> Seq<char> {
    if index == 0 {
        "Bytes"@
    } else if index == 1 {
        "KB"@
    } else if index == 2 {
        "MB"@
    } else if index == 3 {
        "GB"@
    } else {
        "TB"@
    }
}

/// A byte count in words: the count in its largest fitting unit, a space and
/// the unit's name. A count under ten units has two places after the point,
/// in whatever unit; every other count has one, and so has zero. The last
/// place is rounded to the nearest, a tie to the even digit.
pub open spec fn formatted_bytes(bytes: u64) -> Seq<char> {
    let index = unit_index(bytes);
    let unit = unit_size(index);
    if 0 < bytes && bytes < 10 * unit {
        two_places(rounded(bytes as nat * 100, unit)) + seq![' '] + unit_name(index)
    } else {
        one_place(rounded(bytes as nat * 10, unit)) + seq![' '] + unit_name(index)
    }
}

/// Appends a space and `unit` to `number`.
pub(crate) fn with_unit(number: Vec<char>, unit: &str) -> (text: String)
    ensures
        text@ == number@ + seq![' '] + unit@,
{
    let mut all = number;
    let ghost digits = all@;
    all.push(' ');
    let name = chars_of(unit);
    let mut i: usize = 0;
    while i < name.len()
        invariant
            i <= name.len(),
            all@ == digits + seq![' '] + name@.take(i as int),
        decreases name.len() - i,
    {
        all.push(name[i]);
        assert(all@ =~= digits + seq![' '] + name@.take(i + 1));
        i += 1;
    }
    assert(name@.take(name.len() as int) =~= name@);
    string_of(&all)
}

/// Renders a byte count in words.
pub fn format_bytes(bytes: u64) -> (text: String)
    ensures
        text@ == formatted_bytes(bytes),
{
    let (unit, name): (u64, &str) = if bytes < 1024 {
        (1, "Bytes")
    } else if bytes < 1048576 {
        (1024, "KB")
    } else if bytes < 1073741824 {
        (1048576, "MB")
    } else if bytes < 1099511627776 {
        (1073741824, "GB")
    } else {
        (1099511627776, "TB")
    };
    if 0 < bytes && bytes < 10 * unit {
        let hundredths = round_div(bytes as u128 * 100, unit);
        assert(hundredths <= 1000) by (nonlinear_arith)
            requires
                hundredths == rounded(bytes as nat * 100, unit as nat),
                bytes < 10 * unit,
                unit > 0,
        ;
        with_unit(render_two_places(hundredths as u64), name)
    } else {
        let tenths = round_div(bytes as u128 * 10, unit);
        assert(tenths <= bytes as nat * 10) by (nonlinear_arith)
            requires
                tenths == rounded(bytes as nat * 10, unit as nat),
                unit >= 1,
        ;
        with_unit(render_one_place(tenths as u64), name)
    }
}

} // verus!
