//! Reading the data model's numeric and enumerated fields from text.
//!
//! Malformed input is never fatal: every parser returns a default value
//! together with a warning flag instead of failing.  A price is a
//! non-negative decimal with at most two fraction digits and is returned in
//! hundredths of the currency unit; keywords are matched without regard to
//! ASCII case.

use vstd::prelude::*;
use vstd::string::StrSliceExecFns;

verus! {

/// `c` is an ASCII decimal digit.
pub open spec fn is_digit_char(c: char) -> bool {
    48 <= c as u32 && c as u32 <= 57
}

pub open spec fn all_digits(s: Seq<char>) -> bool {
    forall|i: int| 0 <= i < s.len() ==> is_digit_char(#[trigger] s[i])
}

/// The number written by a sequence of decimal digits, most significant
/// digit first.
pub open spec fn digits_val(s: Seq<char>) -> int
    decreases s.len(),
{
    if s.len() == 0 {
        0
    } else {
        digits_val(s.drop_last()) * 10 + (s.last() as u32 - 48)
    }
}

proof fn lemma_digits_val_nonneg(s: Seq<char>)
    requires
        all_digits(s),
    ensures
        digits_val(s) >= 0,
    decreases s.len(),
{
    if s.len() > 0 {
        assert(all_digits(s.drop_last()));
        lemma_digits_val_nonneg(s.drop_last());
    }
}

/// Appending digits never decreases the value they write.
proof fn lemma_digits_val_take_le(s: Seq<char>, k: int)
    requires
        all_digits(s),
        0 <= k <= s.len(),
    ensures
        digits_val(s.take(k)) <= digits_val(s),
    decreases s.len() - k,
{
    if k == s.len() {
        assert(s.take(k) =~= s);
    } else {
        assert(all_digits(s.take(k)));
        lemma_digits_val_nonneg(s.take(k));
        assert(s.take(k + 1).drop_last() =~= s.take(k));
        assert(digits_val(s.take(k + 1)) == digits_val(s.take(k)) * 10 + (s[k] as u32 - 48));
        lemma_digits_val_take_le(s, k + 1);
    }
}

/// Reads the digits of `s` between `from` and `to` as a number, refusing a
/// non-digit character or a value above `cap`.
fn scan_digits(s: &str, from: usize, to: usize, cap: u64) -> (r: Option<u64>)
    requires
        from <= to <= s@.len(),
        10 * cap + 9 <= u64::MAX,
    ensures
        match r {
            Some(v) => all_digits(s@.subrange(from as int, to as int)) && v == digits_val(
                s@.subrange(from as int, to as int),
            ) && v <= cap,
            None => !all_digits(s@.subrange(from as int, to as int)) || digits_val(
                s@.subrange(from as int, to as int),
            ) > cap,
        },
{
    let ghost sub = s@.subrange(from as int, to as int);
    let mut i: usize = from;
    let mut val: u64 = 0;
    while i < to
        invariant
            from <= i <= to <= s@.len(),
            10 * cap + 9 <= u64::MAX,
            sub == s@.subrange(from as int, to as int),
            all_digits(sub.take(i - from)),
            val == digits_val(sub.take(i - from)),
            val <= cap,
        decreases to - i,
    {
        let c = s.get_char(i);
        let u = c as u32;
        proof {
            assert(sub[i - from] == s@[i as int]);
        }
        if u < 48 || u > 57 {
            return None;
        }
        let d = (u - 48) as u64;
        let nv = val * 10 + d;
        proof {
            assert(sub.take(i + 1 - from).drop_last() =~= sub.take(i - from));
            assert(digits_val(sub.take(i + 1 - from)) == digits_val(sub.take(i - from)) * 10 + d);
        }
        if nv > cap {
            proof {
                assert(all_digits(sub.take(i + 1 - from)));
                if all_digits(sub) {
                    lemma_digits_val_take_le(sub, i + 1 - from);
                }
            }
            return None;
        }
        val = nv;
        i = i + 1;
    }
    proof {
        assert(sub.take(to - from) =~= sub);
    }
    Some(val)
}

/// An age: one or more digits writing a value that fits in a `u8`.
pub open spec fn spec_parse_age(s: Seq<char>) -> Option<u8> {
    if s.len() > 0 && all_digits(s) && digits_val(s) <= 255 {
        Some(digits_val(s) as u8)
    } else {
        None
    }
}

/// Parses a customer age; malformed input yields 0 and a raised warning
/// flag.
pub fn parse_age(s: &str) -> (r: (u8, bool))
    ensures
        match spec_parse_age(s@) {
            Some(v) => r == (v, false),
            None => r == (0u8, true),
        },
{
    let n = s.unicode_len();
    if n == 0 {
        return (0, true);
    }
    proof {
        assert(s@.subrange(0, n as int) =~= s@);
    }
    match scan_digits(s, 0, n, 255) {
        Some(v) => (v as u8, false),
        None => (0, true),
    }
}

/// The hundredths written by one or two fraction digits.
pub open spec fn frac_val(f: Seq<char>) -> int {
    if f.len() == 1 {
        (f[0] as u32 - 48) * 10
    } else {
        (f[0] as u32 - 48) * 10 + (f[1] as u32 - 48)
    }
}

/// `s` splits at `i` into an integer part, a point, and one or two
/// fraction digits.
pub open spec fn price_split_at(s: Seq<char>, i: int) -> bool {
    &&& 1 <= i < s.len()
    &&& s[i] == '.'
    &&& all_digits(s.take(i))
    &&& all_digits(s.skip(i + 1))
    &&& 1 <= s.len() - i - 1 <= 2
}

/// The value of a price in hundredths: either a plain run of digits, or a
/// run of digits with a point and at most two fraction digits.
pub open spec fn price_cents(s: Seq<char>) -> Option<int> {
    if s.len() > 0 && all_digits(s) {
        Some(digits_val(s) * 100)
    } else if exists|i: int| price_split_at(s, i) {
        let i = choose|i: int| price_split_at(s, i);
        Some(digits_val(s.take(i)) * 100 + frac_val(s.skip(i + 1)))
    } else {
        None
    }
}

/// A price that is well formed and fits in a `u64` count of hundredths.
pub open spec fn spec_parse_price(s: Seq<char>) -> Option<u64> {
    match price_cents(s) {
        Some(v) => if v <= u64::MAX {
            Some(v as u64)
        } else {
            None
        },
        None => None,
    }
}

/// Parses a price into hundredths of the currency unit; malformed input
/// yields 0 and a raised warning flag.
pub fn parse_price(s: &str) -> (r: (u64, bool))
    ensures
        match spec_parse_price(s@) {
            Some(v) => r == (v, false),
            None => r == (0u64, true),
        },
{
    let n = s.unicode_len();
    // The largest count of hundredths whose hundredfold still fits in a u64.
    let cap: u64 = 184467440737095516;

    // Find the first decimal point.
    let mut dot: Option<usize> = None;
    let mut j: usize = 0;
    while j < n
        invariant
            0 <= j <= n == s@.len(),
            match dot {
                Some(p) => p < j && s@[p as int] == '.' && forall|k: int|
                    0 <= k < p ==> s@[k] != '.',
                None => forall|k: int| 0 <= k < j ==> s@[k] != '.',
            },
        decreases n - j,
    {
        if dot.is_none() && s.get_char(j) == '.' {
            dot = Some(j);
        }
        j = j + 1;
    }

    match dot {
        None => {
            // No point: the whole string must be digits.
            proof {
                assert(forall|i: int| !price_split_at(s@, i));
                assert(s@.subrange(0, n as int) =~= s@);
            }
            if n == 0 {
                return (0, true);
            }
            match scan_digits(s, 0, n, cap) {
                Some(v) => {
                    let cents = v * 100;
                    (cents, false)
                },
                None => {
                    proof {
                        if all_digits(s@) {
                            assert(digits_val(s@) > cap);
                            assert(digits_val(s@) * 100 > u64::MAX);
                        }
                    }
                    (0, true)
                },
            }
        },
        Some(p) => {
            proof {
                // The only candidate split is the first point.
                assert(forall|i: int| price_split_at(s@, i) ==> i == p) by {
                    assert forall|i: int| price_split_at(s@, i) implies i == p by {
                        if i < p {
                            assert(s@[i] == '.');
                        } else if i > p {
                            assert(s@.take(i)[p as int] == '.');
                            assert(!is_digit_char('.'));
                        }
                    }
                }
                assert(!all_digits(s@)) by {
                    assert(!is_digit_char(s@[p as int]));
                }
            }
            let frac_len = n - p - 1;
            if p == 0 || frac_len == 0 || frac_len > 2 {
                proof {
                    assert(forall|i: int| !price_split_at(s@, i));
                }
                return (0, true);
            }
            let int_part = match scan_digits(s, 0, p, cap) {
                Some(v) => v,
                None => {
                    proof {
                        assert(s@.subrange(0, p as int) == s@.take(p as int));
                        if all_digits(s@.take(p as int)) {
                            assert(digits_val(s@.take(p as int)) > cap);
                            if exists|i: int| price_split_at(s@, i) {
                                let i = choose|i: int| price_split_at(s@, i);
                                assert(i == p);
                                lemma_digits_val_nonneg(s@.skip(p + 1));
                                assert(frac_val(s@.skip(p + 1)) >= 0) by {
                                    assert(is_digit_char(s@.skip(p + 1)[0]));
                                    if s@.skip(p + 1).len() == 2 {
                                        assert(is_digit_char(s@.skip(p + 1)[1]));
                                    }
                                }
                                assert(digits_val(s@.take(p as int)) * 100 > u64::MAX);
                            }
                        } else {
                            assert(forall|i: int| !price_split_at(s@, i));
                        }
                    }
                    return (0, true);
                },
            };
            proof {
                assert(s@.subrange(0, p as int) == s@.take(p as int));
            }
            let c1 = s.get_char(p + 1);
            let u1 = c1 as u32;
            proof {
                assert(s@.skip(p + 1)[0] == s@[p + 1]);
            }
            if u1 < 48 || u1 > 57 {
                proof {
                    assert(!all_digits(s@.skip(p + 1)));
                    assert(forall|i: int| !price_split_at(s@, i));
                }
                return (0, true);
            }
            let mut frac: u64 = ((u1 - 48) * 10) as u64;
            if frac_len == 2 {
                let c2 = s.get_char(p + 2);
                let u2 = c2 as u32;
                proof {
                    assert(s@.skip(p + 1)[1] == s@[p + 2]);
                }
                if u2 < 48 || u2 > 57 {
                    proof {
                        assert(!all_digits(s@.skip(p + 1)));
                        assert(forall|i: int| !price_split_at(s@, i));
                    }
                    return (0, true);
                }
                frac = frac + (u2 - 48) as u64;
            }
            proof {
                assert(all_digits(s@.skip(p + 1)));
                assert(price_split_at(s@, p as int));
                assert(frac == frac_val(s@.skip(p + 1)));
            }
            let cents_base = int_part * 100;
            if frac > u64::MAX - cents_base {
                return (0, true);
            }
            (cents_base + frac, false)
        },
    }
}

/// `c` matches `l`, where `l` may also be matched by its ASCII upper-case
/// form.
pub open spec fn char_eq_ci(c: char, l: char) -> bool {
    c == l || c as u32 + 32 == l as u32
}

/// `s` spells `kw` without regard to ASCII case, where `kw` is written in
/// lower case.
pub open spec fn str_eq_ci(s: Seq<char>, kw: Seq<char>) -> bool {
    s.len() == kw.len() && forall|i: int| 0 <= i < s.len() ==> char_eq_ci(s[i], kw[i])
}

/// Compares `s` against a lower-case keyword, ignoring ASCII case.
pub fn eq_ignore_ascii_case(s: &str, kw: &str) -> (r: bool)
    ensures
        r == str_eq_ci(s@, kw@),
{
    let n = s.unicode_len();
    let m = kw.unicode_len();
    if n != m {
        return false;
    }
    let mut i: usize = 0;
    while i < n
        invariant
            0 <= i <= n,
            n == s@.len() == kw@.len(),
            forall|k: int| 0 <= k < i ==> char_eq_ci(s@[k], kw@[k]),
        decreases n - i,
    {
        let cu = s.get_char(i) as u32;
        let ku = kw.get_char(i) as u32;
        if !(cu == ku || cu + 32 == ku) {
            return false;
        }
        i = i + 1;
    }
    true
}

/// Parses a food type keyword; anything other than `veg` or `nonveg`
/// yields the `Veg` default and a raised warning flag.
pub fn parse_food_type(s: &str) -> (r: (crate::model::FoodType, bool))
    ensures
        str_eq_ci(s@, "veg"@) ==> r == (crate::model::FoodType::Veg, false),
        str_eq_ci(s@, "nonveg"@) ==> r == (crate::model::FoodType::NonVeg, false),
        !str_eq_ci(s@, "veg"@) && !str_eq_ci(s@, "nonveg"@) ==> r == (
            crate::model::FoodType::Veg,
            true,
        ),
{
    proof {
        reveal_strlit("veg");
        reveal_strlit("nonveg");
    }
    if eq_ignore_ascii_case(s, "veg") {
        (crate::model::FoodType::Veg, false)
    } else if eq_ignore_ascii_case(s, "nonveg") {
        (crate::model::FoodType::NonVeg, false)
    } else {
        (crate::model::FoodType::Veg, true)
    }
}

/// Parses a food category keyword; anything other than `appetizer`,
/// `maincourse` or `dessert` yields the `Appetizer` default and a raised
/// warning flag.
pub fn parse_food_category(s: &str) -> (r: (crate::model::FoodCategory, bool))
    ensures
        str_eq_ci(s@, "appetizer"@) ==> r == (crate::model::FoodCategory::Appetizer, false),
        str_eq_ci(s@, "maincourse"@) ==> r == (crate::model::FoodCategory::MainCourse, false),
        str_eq_ci(s@, "dessert"@) ==> r == (crate::model::FoodCategory::Dessert, false),
        !str_eq_ci(s@, "appetizer"@) && !str_eq_ci(s@, "maincourse"@) && !str_eq_ci(
            s@,
            "dessert"@,
        ) ==> r == (crate::model::FoodCategory::Appetizer, true),
{
    proof {
        reveal_strlit("appetizer");
        reveal_strlit("maincourse");
        reveal_strlit("dessert");
    }
    if eq_ignore_ascii_case(s, "appetizer") {
        (crate::model::FoodCategory::Appetizer, false)
    } else if eq_ignore_ascii_case(s, "maincourse") {
        (crate::model::FoodCategory::MainCourse, false)
    } else if eq_ignore_ascii_case(s, "dessert") {
        (crate::model::FoodCategory::Dessert, false)
    } else {
        (crate::model::FoodCategory::Appetizer, true)
    }
}

/// Parses the menu's veg flag; anything other than `y` or `n` yields the
/// veg default and a raised warning flag.
pub fn parse_veg_flag(s: &str) -> (r: (bool, bool))
    ensures
        str_eq_ci(s@, "y"@) ==> r == (true, false),
        str_eq_ci(s@, "n"@) ==> r == (false, false),
        !str_eq_ci(s@, "y"@) && !str_eq_ci(s@, "n"@) ==> r == (true, true),
{
    proof {
        reveal_strlit("y");
        reveal_strlit("n");
        // The two keywords are the same length, so point at the character
        // that tells them apart.
        if str_eq_ci(s@, "y"@) && str_eq_ci(s@, "n"@) {
            assert(char_eq_ci(s@[0], "y"@[0]));
            assert(char_eq_ci(s@[0], "n"@[0]));
            assert(false);
        }
    }
    if eq_ignore_ascii_case(s, "y") {
        (true, false)
    } else if eq_ignore_ascii_case(s, "n") {
        (false, false)
    } else {
        (true, true)
    }
}

/// Recognises the sentinel that ends a list of entries.
pub fn is_done(s: &str) -> (r: bool)
    ensures
        r == str_eq_ci(s@, "done"@),
{
    eq_ignore_ascii_case(s, "done")
}

} // verus!
