//! Numeric field handling: a size field holds a decimal numeral such as
//! `100.00`; its whole-gibibyte part is extracted by truncation, and any
//! malformed field degrades to the zero sentinel rather than an error.
//! Rendering turns a count back into decimal text, with zero rendered as
//! the empty text (zero stands for "unknown").

use vstd::prelude::*;

verus! {

/// A decimal digit character.
pub open spec fn is_digit(c: char) -> bool {
    0x30 <= c as u32 && c as u32 <= 0x39
}

/// The numeric value of one decimal digit character.
pub open spec fn digit_val(c: char) -> nat {
    (c as u32 - 0x30) as nat
}

/// The value of a sequence of decimal digit characters, most significant
/// first.
pub open spec fn digits_value(s: Seq<char>) -> nat
    decreases s.len(),
{
    if s.len() == 0 {
        0
    } else {
        digits_value(s.drop_last()) * 10 + digit_val(s.last())
    }
}

/// Every character of the text is a decimal digit.
pub open spec fn all_digits(s: Seq<char>) -> bool {
    forall|i: int| 0 <= i < s.len() ==> is_digit(#[trigger] s[i])
}

/// The position of the first `.` in the text, or its length if none occurs.
pub open spec fn dot_pos(s: Seq<char>) -> int
    decreases s.len(),
{
    if s.len() == 0 {
        0
    } else if s[0] == '.' {
        0
    } else {
        1 + dot_pos(s.drop_first())
    }
}

/// The whole-gibibyte part of a size field: for a numeral of the form
/// `digits` or `digits.digits` (fraction possibly empty), the value of the
/// digits before the dot; for anything else, the zero sentinel.
pub open spec fn whole_gib(s: Seq<char>) -> nat {
    let d = dot_pos(s);
    let frac = if d < s.len() {
        s.subrange(d + 1, s.len() as int)
    } else {
        Seq::<char>::empty()
    };
    if 0 < d && all_digits(s.subrange(0, d)) && all_digits(frac) {
        digits_value(s.subrange(0, d))
    } else {
        0
    }
}

/// The whole-gibibyte part, clamped to the largest representable count.
pub open spec fn gib_u32(s: Seq<char>) -> u32 {
    if whole_gib(s) > u32::MAX {
        u32::MAX
    } else {
        whole_gib(s) as u32
    }
}

/// The first `.` stands at the first position where a `.` occurs.
proof fn lemma_dot_pos_at(s: Seq<char>, k: int)
    requires
        0 <= k <= s.len(),
        forall|j: int| 0 <= j < k ==> s[j] != '.',
        k == s.len() || s[k] == '.',
    ensures
        dot_pos(s) == k,
    decreases k,
{
    if k == 0 {
    } else {
        lemma_dot_pos_at(s.drop_first(), k - 1);
    }
}

/// Decides whether one character is a decimal digit.
pub fn is_digit_char(c: char) -> (r: bool)
    ensures
        r == is_digit(c),
{
    let n = c as u32;
    0x30 <= n && n <= 0x39
}

/// Extracts the whole-gibibyte part of a size field, truncating any
/// fraction and clamping to the largest representable count; a field that
/// is not a plain decimal numeral yields the zero sentinel.
pub fn parse_gib(s: &str) -> (r: u32)
    ensures
        r == gib_u32(s@),
{
    let n = s.unicode_len();
    let mut d: usize = 0;
    while d < n && s.get_char(d) != '.'
        invariant
            0 <= d <= n,
            n == s@.len(),
            forall|j: int| 0 <= j < d ==> s@[j] != '.',
        decreases n - d,
    {
        d = d + 1;
    }
    proof {
        lemma_dot_pos_at(s@, d as int);
    }
    if d == 0 {
        return 0;
    }
    let mut acc: u64 = 0;
    let mut over: bool = false;
    let mut i: usize = 0;
    proof {
        assert(s@.subrange(0, 0) =~= Seq::<char>::empty());
    }
    while i < d
        invariant
            0 <= i <= d <= n,
            n == s@.len(),
            dot_pos(s@) == d,
            forall|j: int| 0 <= j < i ==> is_digit(#[trigger] s@[j]),
            !over ==> acc == digits_value(s@.subrange(0, i as int)) && acc <= u32::MAX,
            over ==> digits_value(s@.subrange(0, i as int)) > u32::MAX,
        decreases d - i,
    {
        let c = s.get_char(i);
        if !is_digit_char(c) {
            assert(s@.subrange(0, d as int)[i as int] == s@[i as int]);
            assert(!all_digits(s@.subrange(0, d as int)));
            return 0;
        }
        let dv = (c as u32) - 0x30;
        let ghost p = s@.subrange(0, i as int);
        proof {
            assert(s@.subrange(0, i + 1) =~= p.push(c));
            assert(p.push(c).drop_last() =~= p);
            assert(digits_value(p.push(c)) == digits_value(p) * 10 + digit_val(c));
            if over {
                assert(digits_value(p) * 10 >= digits_value(p)) by (nonlinear_arith);
            }
        }
        if !over {
            let next: u64 = acc * 10 + (dv as u64);
            if next > 0xFFFF_FFFF {
                over = true;
            } else {
                acc = next;
            }
        }
        i = i + 1;
    }
    let mut k: usize = d;
    while k < n
        invariant
            d <= k <= n,
            n == s@.len(),
            dot_pos(s@) == d,
            0 < d,
            forall|j: int| 0 <= j < d ==> is_digit(#[trigger] s@[j]),
            !over ==> acc == digits_value(s@.subrange(0, d as int)) && acc <= u32::MAX,
            over ==> digits_value(s@.subrange(0, d as int)) > u32::MAX,
            forall|j: int| d < j < k ==> is_digit(#[trigger] s@[j]),
        decreases n - k,
    {
        if k > d && !is_digit_char(s.get_char(k)) {
            assert(s@.subrange(d + 1, n as int)[k - d - 1] == s@[k as int]);
            assert(!all_digits(s@.subrange(d + 1, n as int)));
            return 0;
        }
        k = k + 1;
    }
    proof {
        if d < n {
            assert(forall|j: int|
                0 <= j < s@.subrange(d + 1, n as int).len() ==> is_digit(
                    #[trigger] s@.subrange(d + 1, n as int)[j],
                ));
        }
        assert(forall|j: int|
            0 <= j < s@.subrange(0, d as int).len() ==> is_digit(
                #[trigger] s@.subrange(0, d as int)[j],
            ));
        assert(whole_gib(s@) == digits_value(s@.subrange(0, d as int)));
    }
    if over {
        0xFFFF_FFFF
    } else {
        acc as u32
    }
}

/// The character for one decimal digit.
pub open spec fn dec_digit(n: nat) -> char {
    if n == 0 {
        '0'
    } else if n == 1 {
        '1'
    } else if n == 2 {
        '2'
    } else if n == 3 {
        '3'
    } else if n == 4 {
        '4'
    } else if n == 5 {
        '5'
    } else if n == 6 {
        '6'
    } else if n == 7 {
        '7'
    } else if n == 8 {
        '8'
    } else {
        '9'
    }
}

/// The decimal numeral of a count, most significant digit first, with no
/// leading zeros except for the numeral of zero itself.
pub open spec fn dec_str(n: nat) -> Seq<char>
    decreases n,
{
    if n < 10 {
        seq![dec_digit(n)]
    } else {
        dec_str(n / 10).push(dec_digit(n % 10))
    }
}

/// The displayed size text: zero means "unknown" and is rendered as the
/// empty text; any other count is rendered as its decimal numeral.
pub open spec fn size_text(n: u32) -> Seq<char> {
    if n == 0 {
        Seq::<char>::empty()
    } else {
        dec_str(n as nat)
    }
}

fn dec_digit_str(n: u32) -> (r: &'static str)
    requires
        n < 10,
    ensures
        r@ == seq![dec_digit(n as nat)],
{
    let r: &'static str = if n == 0 {
        "0"
    } else if n == 1 {
        "1"
    } else if n == 2 {
        "2"
    } else if n == 3 {
        "3"
    } else if n == 4 {
        "4"
    } else if n == 5 {
        "5"
    } else if n == 6 {
        "6"
    } else if n == 7 {
        "7"
    } else if n == 8 {
        "8"
    } else {
        "9"
    };
    proof {
        reveal_strlit("0");
        reveal_strlit("1");
        reveal_strlit("2");
        reveal_strlit("3");
        reveal_strlit("4");
        reveal_strlit("5");
        reveal_strlit("6");
        reveal_strlit("7");
        reveal_strlit("8");
        reveal_strlit("9");
        assert(r@ =~= seq![dec_digit(n as nat)]);
    }
    r
}

/// Renders a count as its decimal numeral.
pub fn u32_dec(n: u32) -> (s: String)
    ensures
        s@ == dec_str(n as nat),
    decreases n,
{
    if n < 10 {
        String::from_str(dec_digit_str(n))
    } else {
        let mut s = u32_dec(n / 10);
        let last = dec_digit_str(n % 10);
        s.append(last);
        proof {
            assert(dec_str((n / 10) as nat) + seq![dec_digit((n % 10) as nat)] =~= dec_str(
                (n / 10) as nat,
            ).push(dec_digit((n % 10) as nat)));
        }
        s
    }
}

/// Renders a size count as display text: empty for the zero sentinel, the
/// decimal numeral otherwise.
pub fn size_text_str(n: u32) -> (s: String)
    ensures
        s@ == size_text(n),
{
    if n == 0 {
        String::new()
    } else {
        u32_dec(n)
    }
}

} // verus!
