//! Character-level text utilities: Unicode whitespace trimming, decimal
//! parsing of `u16` values and decimal rendering.

use vstd::prelude::*;

verus! {

/// The Unicode `White_Space` property, which `char::is_whitespace` and
/// `str::trim` use.
pub open spec fn is_white_space(c: char) -> bool {
    ||| ('\u{9}' <= c && c <= '\u{D}')
    ||| c == ' '
    ||| c == '\u{85}'
    ||| c == '\u{A0}'
    ||| c == '\u{1680}'
    ||| ('\u{2000}' <= c && c <= '\u{200A}')
    ||| c == '\u{2028}'
    ||| c == '\u{2029}'
    ||| c == '\u{202F}'
    ||| c == '\u{205F}'
    ||| c == '\u{3000}'
}

/// `s` without its leading whitespace.
pub open spec fn trim_start(s: Seq<char>) -> Seq<char>
    decreases s.len(),
{
    if s.len() > 0 && is_white_space(s[0]) {
        trim_start(s.drop_first())
    } else {
        s
    }
}

/// `s` without its trailing whitespace.
pub open spec fn trim_end(s: Seq<char>) -> Seq<char>
    decreases s.len(),
{
    if s.len() > 0 && is_white_space(s.last()) {
        trim_end(s.drop_last())
    } else {
        s
    }
}

/// `s` without leading and trailing whitespace, as `str::trim` gives it.
pub open spec fn trim(s: Seq<char>) -> Seq<char> {
    trim_end(trim_start(s))
}

/// Whether `c` is an ASCII decimal digit.
pub open spec fn is_digit(c: char) -> bool {
    '0' <= c && c <= '9'
}

/// Whether every character of `s` is an ASCII decimal digit.
pub open spec fn all_digits(s: Seq<char>) -> bool {
    forall|i: int| 0 <= i < s.len() ==> #[trigger] is_digit(s[i])
}

/// The value of a decimal digit character.
pub open spec fn digit_value(c: char) -> nat {
    (c as int - '0' as int) as nat
}

/// The value of a sequence of decimal digits, most significant first.
pub open spec fn digits_value(s: Seq<char>) -> nat
    decreases s.len(),
{
    if s.len() == 0 {
        0
    } else {
        digits_value(s.drop_last()) * 10 + digit_value(s.last())
    }
}

/// `s` without one leading `+` sign, if it has one.
pub open spec fn unsigned_digits(s: Seq<char>) -> Seq<char> {
    if s.len() > 0 && s[0] == '+' {
        s.drop_first()
    } else {
        s
    }
}

/// What `str::parse::<u16>` gives for `s`: an optional `+` sign followed by
/// at least one ASCII digit, whose value fits in a `u16`.
pub open spec fn spec_parse_u16(s: Seq<char>) -> Option<u16> {
    let d = unsigned_digits(s);
    if d.len() > 0 && all_digits(d) && digits_value(d) <= u16::MAX {
        Some(digits_value(d) as u16)
    } else {
        None
    }
}

/// The decimal digit character for `d < 10`.
pub open spec fn digit_char(d: nat) -> char {
    (d + '0' as int) as char
}

/// The decimal representation of `n`, without leading zeros.
pub open spec fn decimal(n: nat) -> Seq<char>
    decreases n,
{
    if n < 10 {
        seq![digit_char(n)]
    } else {
        decimal(n / 10).push(digit_char(n % 10))
    }
}

/// Whether `c` has the Unicode `White_Space` property.
pub fn is_white_space_char(c: char) -> (r: bool)
    ensures
        r == is_white_space(c),
{
    ('\u{9}' <= c && c <= '\u{D}') || c == ' ' || c == '\u{85}' || c == '\u{A0}' || c
        == '\u{1680}' || ('\u{2000}' <= c && c <= '\u{200A}') || c == '\u{2028}' || c
        == '\u{2029}' || c == '\u{202F}' || c == '\u{205F}' || c == '\u{3000}'
}

/// The characters of `s`, in order.
pub fn chars_of(s: &str) -> (cs: Vec<char>)
    ensures
        cs@ == s@,
{
    let n = s.unicode_len();
    let mut cs: Vec<char> = Vec::new();
    for i in 0..n
        invariant
            n == s@.len(),
            cs@ == s@.take(i as int),
    {
        cs.push(s.get_char(i));
        assert(cs@ =~= s@.take(i + 1));
    }
    assert(cs@ =~= s@);
    cs
}


/// The bounds, inside `lo..hi`, of `cs[lo..hi]` with leading and trailing
/// whitespace removed.
pub fn trim_bounds(cs: &Vec<char>, lo: usize, hi: usize) -> (r: (usize, usize))
    requires
        lo <= hi <= cs@.len(),
    ensures
        lo <= r.0 <= r.1 <= hi,
        cs@.subrange(r.0 as int, r.1 as int) == trim(cs@.subrange(lo as int, hi as int)),
{
    let mut a = lo;
    while a < hi && is_white_space_char(cs[a])
        invariant
            lo <= a <= hi <= cs@.len(),
            trim_start(cs@.subrange(lo as int, hi as int)) == trim_start(
                cs@.subrange(a as int, hi as int),
            ),
        decreases hi - a,
    {
        assert(cs@.subrange(a as int, hi as int).drop_first() =~= cs@.subrange(
            a + 1,
            hi as int,
        ));
        a = a + 1;
    }
    assert(trim_start(cs@.subrange(a as int, hi as int)) == cs@.subrange(a as int, hi as int));
    let mut b = hi;
    while b > a && is_white_space_char(cs[b - 1])
        invariant
            lo <= a <= b <= hi <= cs@.len(),
            trim(cs@.subrange(lo as int, hi as int)) == trim_end(
                cs@.subrange(a as int, b as int),
            ),
        decreases b - a,
    {
        assert(cs@.subrange(a as int, b as int).drop_last() =~= cs@.subrange(
            a as int,
            b - 1,
        ));
        b = b - 1;
    }
    assert(trim_end(cs@.subrange(a as int, b as int)) == cs@.subrange(a as int, b as int));
    (a, b)
}

/// A prefix of a digit sequence never has a larger value than the whole.
pub proof fn lemma_digits_value_prefix(s: Seq<char>, k: int)
    requires
        0 <= k <= s.len(),
    ensures
        digits_value(s.take(k)) <= digits_value(s),
    decreases s.len(),
{
    if k < s.len() {
        assert(s.drop_last().take(k) =~= s.take(k));
        lemma_digits_value_prefix(s.drop_last(), k);
    } else {
        assert(s.take(k) =~= s);
    }
}

/// Parses `cs[lo..hi]` as `str::parse::<u16>` does.
pub fn parse_u16_in(cs: &Vec<char>, lo: usize, hi: usize) -> (r: Option<u16>)
    requires
        lo <= hi <= cs@.len(),
    ensures
        r == spec_parse_u16(cs@.subrange(lo as int, hi as int)),
{
    let ghost s = cs@.subrange(lo as int, hi as int);
    let start = if lo < hi && cs[lo] == '+' {
        lo + 1
    } else {
        lo
    };
    let ghost d = cs@.subrange(start as int, hi as int);
    assert(d =~= unsigned_digits(s));
    if start == hi {
        return None;
    }
    let mut i = start;
    while i < hi
        invariant
            start <= i <= hi <= cs@.len(),
            d == cs@.subrange(start as int, hi as int),
            d == unsigned_digits(s),
            s == cs@.subrange(lo as int, hi as int),
            forall|j: int| start <= j < i ==> is_digit(#[trigger] cs@[j]),
        decreases hi - i,
    {
        if !('0' <= cs[i] && cs[i] <= '9') {
            assert(!is_digit(d[i - start]));
            return None;
        }
        i = i + 1;
    }
    assert(all_digits(d)) by {
        assert forall|j: int| 0 <= j < d.len() implies #[trigger] is_digit(d[j]) by {
            assert(d[j] == cs@[start + j]);
        }
    }
    let mut v: u32 = 0;
    let mut i = start;
    while i < hi
        invariant
            start <= i <= hi <= cs@.len(),
            d == cs@.subrange(start as int, hi as int),
            d == unsigned_digits(s),
            s == cs@.subrange(lo as int, hi as int),
            all_digits(d),
            v == digits_value(d.take(i - start)),
            v <= u16::MAX,
        decreases hi - i,
    {
        let ghost k = i - start;
        assert(d.take(k + 1).drop_last() =~= d.take(k));
        assert(d.take(k + 1).last() == cs@[i as int]);
        assert(is_digit(d[k]));
        let digit = (cs[i] as u32) - ('0' as u32);
        let next = v * 10 + digit;
        if next > 65535 {
            proof {
                lemma_digits_value_prefix(d, k + 1);
            }
            return None;
        }
        v = next;
        i = i + 1;
    }
    assert(d.take(d.len() as int) =~= d);
    Some(v as u16)
}


/// The one-character string of the decimal digit `d`.
fn digit_str(d: u16) -> (r: &'static str)
    requires
        d < 10,
    ensures
        r@ == seq![digit_char(d as nat)],
{
    match d {
        0 => {
            proof {
                reveal_strlit("0");
            }
            "0"
        },
        1 => {
            proof {
                reveal_strlit("1");
            }
            "1"
        },
        2 => {
            proof {
                reveal_strlit("2");
            }
            "2"
        },
        3 => {
            proof {
                reveal_strlit("3");
            }
            "3"
        },
        4 => {
            proof {
                reveal_strlit("4");
            }
            "4"
        },
        5 => {
            proof {
                reveal_strlit("5");
            }
            "5"
        },
        6 => {
            proof {
                reveal_strlit("6");
            }
            "6"
        },
        7 => {
            proof {
                reveal_strlit("7");
            }
            "7"
        },
        8 => {
            proof {
                reveal_strlit("8");
            }
            "8"
        },
        _ => {
            proof {
                reveal_strlit("9");
            }
            "9"
        },
    }
}

/// The decimal representation of `n`, as `n.to_string()` renders it.
pub fn decimal_string(n: u16) -> (r: String)
    ensures
        r@ == decimal(n as nat),
    decreases n,
{
    if n < 10 {
        String::from_str(digit_str(n))
    } else {
        let mut r = decimal_string(n / 10);
        r.append(digit_str(n % 10));
        r
    }
}


/// Whether every character of `s` is whitespace.
pub open spec fn all_white_space(s: Seq<char>) -> bool {
    forall|i: int| 0 <= i < s.len() ==> #[trigger] is_white_space(s[i])
}

/// Leading whitespace is dropped by `trim_start`.
proof fn lemma_trim_start_prefix(w: Seq<char>, s: Seq<char>)
    requires
        all_white_space(w),
    ensures
        trim_start(w + s) == trim_start(s),
    decreases w.len(),
{
    if w.len() > 0 {
        assert((w + s).drop_first() =~= w.drop_first() + s);
        assert(is_white_space(w[0]));
        assert((w + s)[0] == w[0]);
        lemma_trim_start_prefix(w.drop_first(), s);
    } else {
        assert(w + s =~= s);
    }
}

/// Trailing whitespace is dropped by `trim_end`.
proof fn lemma_trim_end_suffix(s: Seq<char>, w: Seq<char>)
    requires
        all_white_space(w),
    ensures
        trim_end(s + w) == trim_end(s),
    decreases w.len(),
{
    if w.len() > 0 {
        assert((s + w).drop_last() =~= s + w.drop_last());
        assert(is_white_space(w.last()));
        assert((s + w).last() == w.last());
        lemma_trim_end_suffix(s, w.drop_last());
    } else {
        assert(s + w =~= s);
    }
}

/// Trimming the start of `s + w` for whitespace `w`.
proof fn lemma_trim_start_suffix(s: Seq<char>, w: Seq<char>)
    requires
        all_white_space(w),
    ensures
        trim_start(s + w) == if trim_start(s).len() > 0 {
            trim_start(s) + w
        } else {
            Seq::<char>::empty()
        },
    decreases s.len(),
{
    if s.len() == 0 {
        assert(s + w =~= w);
        assert(w =~= w + Seq::<char>::empty());
        lemma_trim_start_prefix(w, Seq::<char>::empty());
    } else if is_white_space(s[0]) {
        assert((s + w).drop_first() =~= s.drop_first() + w);
        assert((s + w)[0] == s[0]);
        lemma_trim_start_suffix(s.drop_first(), w);
    } else {
        assert((s + w)[0] == s[0]);
    }
}

/// Whitespace around `s` does not change `trim(s)`.
pub proof fn lemma_trim_surrounded(w1: Seq<char>, s: Seq<char>, w2: Seq<char>)
    requires
        all_white_space(w1),
        all_white_space(w2),
    ensures
        trim(w1 + s + w2) == trim(s),
{
    assert(w1 + s + w2 =~= w1 + (s + w2));
    lemma_trim_start_prefix(w1, s + w2);
    lemma_trim_start_suffix(s, w2);
    if trim_start(s).len() > 0 {
        lemma_trim_end_suffix(trim_start(s), w2);
    }
}

/// The decimal representation of `n` is a non-empty run of digits whose value
/// is `n`.
pub proof fn lemma_decimal(n: nat)
    ensures
        decimal(n).len() > 0,
        all_digits(decimal(n)),
        digits_value(decimal(n)) == n,
    decreases n,
{
    if n < 10 {
        let d = decimal(n);
        assert(d.drop_last() =~= Seq::<char>::empty());
        assert(digits_value(d.drop_last()) == 0);
        assert(d.last() == digit_char(n));
        assert(digit_value(digit_char(n)) == n);
    } else {
        lemma_decimal(n / 10);
        let d = decimal(n);
        assert(d.drop_last() =~= decimal(n / 10));
        assert(d.last() == digit_char(n % 10));
        assert(digit_value(digit_char(n % 10)) == n % 10);
        assert(digits_value(d) == digits_value(decimal(n / 10)) * 10 + digit_value(d.last()));
        assert(n == (n / 10) * 10 + n % 10) by (nonlinear_arith);
        assert forall|i: int| 0 <= i < d.len() implies #[trigger] is_digit(d[i]) by {
            if i < d.len() - 1 {
                assert(d[i] == decimal(n / 10)[i]);
            }
        }
    }
}

/// A run of digits is its own trim, and parses to its value where that fits.
pub proof fn lemma_digits_parse(s: Seq<char>)
    requires
        s.len() > 0,
        all_digits(s),
    ensures
        trim(s) == s,
        spec_parse_u16(s) == if digits_value(s) <= u16::MAX {
            Some(digits_value(s) as u16)
        } else {
            None
        },
{
    assert(is_digit(s[0]));
    assert(is_digit(s.last()));
    assert(trim_start(s) == s);
}

/// `decimal(p)` parses back to `p`.
pub proof fn lemma_decimal_parse(p: u16)
    ensures
        spec_parse_u16(decimal(p as nat)) == Some(p),
        trim(decimal(p as nat)) == decimal(p as nat),
{
    lemma_decimal(p as nat);
    lemma_digits_parse(decimal(p as nat));
}

} // verus!
