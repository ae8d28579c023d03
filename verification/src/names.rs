//! Names derived from the paths of the icon tree: module names, icon names
//! and feature paths.

use crate::constants::OPTIMIZED_PATH;
use crate::text::{append_chars, copy_range, find_last, has_prefix, last_index_of, to_chars};
use vstd::prelude::*;

verus! {

/// Whether `c` is one of the decimal digits `0` to `9`.
pub open spec fn is_digit(c: char) -> bool {
    '0' <= c && c <= '9'
}

/// The number that the digit `c` stands for.
pub open spec fn digit_value(c: char) -> nat {
    (c as u32 - '0' as u32) as nat
}

/// Whether every character of `s` is a decimal digit.
pub open spec fn all_digits(s: Seq<char>) -> bool {
    forall|i: int| 0 <= i < s.len() ==> is_digit(#[trigger] s[i])
}

/// The number that the digits `s` write in base ten.
pub open spec fn decimal_value(s: Seq<char>) -> nat
    decreases s.len(),
{
    if s.len() == 0 {
        0
    } else {
        decimal_value(s.drop_last()) * 10 + digit_value(s.last())
    }
}

/// Whether `s` has a leading sign, `+` or `-`.
pub open spec fn has_sign(s: Seq<char>) -> bool {
    s.len() > 0 && (s[0] == '-' || s[0] == '+')
}

/// Whether `s` writes a 32-bit signed integer: an optional sign, then one or
/// more decimal digits whose value is in range.
pub open spec fn parses_as_i32(s: Seq<char>) -> bool {
    let digits = if has_sign(s) {
        s.drop_first()
    } else {
        s
    };
    let limit: nat = if s.len() > 0 && s[0] == '-' {
        2147483648
    } else {
        2147483647
    };
    digits.len() > 0 && all_digits(digits) && decimal_value(digits) <= limit
}

/// A number never gets smaller when digits are written behind it.
pub proof fn lemma_decimal_value_grows(s: Seq<char>, k: int)
    requires
        0 <= k <= s.len(),
    ensures
        decimal_value(s.take(k)) <= decimal_value(s),
    decreases s.len() - k,
{
    if k == s.len() {
        assert(s.take(k) =~= s);
    } else {
        lemma_decimal_value_grows(s, k + 1);
        assert(s.take(k + 1).drop_last() =~= s.take(k));
    }
}

/// Whether `v` writes a 32-bit signed integer.
pub fn is_i32(v: &Vec<char>) -> (r: bool)
    ensures
        r == parses_as_i32(v@),
{
    let n = v.len();
    let signed = n > 0 && (v[0] == '-' || v[0] == '+');
    let start: usize = if signed {
        1
    } else {
        0
    };
    let limit: u64 = if n > 0 && v[0] == '-' {
        2147483648
    } else {
        2147483647
    };
    let ghost digits = if has_sign(v@) {
        v@.drop_first()
    } else {
        v@
    };
    assert(digits =~= v@.skip(start as int));
    if start == n {
        return false;
    }
    let mut acc: u64 = 0;
    let mut i: usize = start;
    assert(digits.take(0) =~= Seq::<char>::empty());
    while i < n
        invariant
            start <= i <= n == v.len(),
            digits == v@.skip(start as int),
            digits == if has_sign(v@) {
                v@.drop_first()
            } else {
                v@
            },
            limit == if v@.len() > 0 && v@[0] == '-' {
                2147483648u64
            } else {
                2147483647u64
            },
            all_digits(digits.take(i - start)),
            acc == decimal_value(digits.take(i - start)),
            acc <= limit <= 2147483648,
        decreases n - i,
    {
        let c = v[i];
        assert(digits[i - start] == c);
        if !(c >= '0' && c <= '9') {
            return false;
        }
        let d: u64 = (c as u32 - '0' as u32) as u64;
        assert(digits.take(i - start + 1).drop_last() =~= digits.take(i - start));
        assert(digits.take(i - start + 1).last() == c);
        let next: u64 = acc * 10 + d;
        if next > limit {
            proof {
                lemma_decimal_value_grows(digits, i - start + 1);
            }
            return false;
        }
        acc = next;
        i = i + 1;
    }
    assert(digits.take(n - start) =~= digits);
    true
}

/// The module that stands for the directory `dir_name`: a name that writes
/// an integer is no identifier, so it gets the prefix `size_`.
pub open spec fn module_name_of(dir_name: Seq<char>) -> Seq<char> {
    if parses_as_i32(dir_name) {
        "size_"@ + dir_name
    } else {
        dir_name
    }
}

/// The name of the module for the directory `dir_name`.
pub fn module_name(dir_name: &Vec<char>) -> (out: Vec<char>)
    ensures
        out@ == module_name_of(dir_name@),
{
    if is_i32(dir_name) {
        let mut out = to_chars("size_");
        append_chars(&mut out, dir_name);
        out
    } else {
        dir_name.clone()
    }
}

/// A file name without its extension: what stands before the last `.`, or
/// the whole name where it has no `.` but at its start.
pub open spec fn file_stem_of(name: Seq<char>) -> Seq<char> {
    if last_index_of(name, '.') <= 0 {
        name
    } else {
        name.take(last_index_of(name, '.'))
    }
}

/// The file name `name` without its extension.
pub fn file_stem(name: &Vec<char>) -> (out: Vec<char>)
    ensures
        out@ == file_stem_of(name@),
{
    match find_last(name, '.') {
        Some(k) => if k > 0 {
            copy_range(name, 0, k)
        } else {
            name.clone()
        },
        None => name.clone(),
    }
}

/// The path of the entry `name` of the directory `dir`.
pub open spec fn child_path_of(dir: Seq<char>, name: Seq<char>) -> Seq<char> {
    dir.push('/') + name
}

/// `s` with every `/` turned into `-`.
pub open spec fn hyphenated(s: Seq<char>) -> Seq<char> {
    s.map_values(
        |c: char|
            if c == '/' {
                '-'
            } else {
                c
            },
    )
}

/// What every directory of an icon family starts with: the directory of the
/// optimized icons and a `/`.
pub open spec fn family_prefix() -> Seq<char> {
    OPTIMIZED_PATH@.push('/')
}

/// The feature path of the icons in the directory `dir`: the part of `dir`
/// below the directory of the optimized icons, its levels joined by `-`.
/// A directory that is not below it has none.
pub open spec fn feature_path_of(dir: Seq<char>) -> Option<Seq<char>> {
    if family_prefix().is_prefix_of(dir) {
        Some(hyphenated(dir.skip(family_prefix().len() as int)))
    } else {
        None
    }
}

/// The feature path of the icons in the directory `dir`.
pub fn feature_path(dir: &Vec<char>) -> (out: Option<Vec<char>>)
    ensures
        match out {
            Some(p) => feature_path_of(dir@) == Some(p@),
            None => feature_path_of(dir@) is None,
        },
{
    let mut prefix = to_chars(OPTIMIZED_PATH);
    prefix.push('/');
    assert(prefix@ =~= family_prefix());
    if !has_prefix(dir, &prefix) {
        return None;
    }
    let m = prefix.len();
    let mut out: Vec<char> = Vec::new();
    let mut j: usize = m;
    while j < dir.len()
        invariant
            m <= j <= dir.len(),
            out@ == hyphenated(dir@.subrange(m as int, j as int)),
        decreases dir.len() - j,
    {
        let c = dir[j];
        out.push(if c == '/' {
            '-'
        } else {
            c
        });
        j = j + 1;
        assert(out@ =~= hyphenated(dir@.subrange(m as int, j as int)));
    }
    assert(dir@.subrange(m as int, dir.len() as int) =~= dir@.skip(m as int));
    Some(out)
}

} // verus!
