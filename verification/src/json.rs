//! The JSON fragments the persisted manifest is built from.
//!
//! The manifest file holds strings, 64-bit integers and arrays of
//! strings in a fixed object layout.  This module gives each fragment
//! kind a writer and a scanner, and proves that scanning what the
//! writer wrote yields the original value: the persisted file is the
//! contract between the build phase and the serving phase, so nothing
//! may be lost between the two.
//!
//! Strings are written between double quotes with `"` and `\` escaped
//! by a backslash and every other character kept as it is.

use vstd::prelude::*;
use crate::render::spec_digit;
use crate::render::spec_digits;
use crate::render::u64_to_string;

verus! {

// ---------------------------------------------------------------
// strings
// ---------------------------------------------------------------

/// The escaped form of one character.
pub open spec fn spec_esc_char(c: char) -> Seq<char> {
    if c == '"' || c == '\\' {
        seq!['\\', c]
    } else {
        seq![c]
    }
}

/// The escaped form of a string.
pub open spec fn spec_esc(s: Seq<char>) -> Seq<char>
    decreases s.len(),
{
    if s.len() == 0 {
        Seq::empty()
    } else {
        spec_esc_char(s[0]) + spec_esc(s.skip(1))
    }
}

/// The quoted, escaped form of a string.
pub open spec fn spec_quote(s: Seq<char>) -> Seq<char> {
    seq!['"'] + spec_esc(s) + seq!['"']
}

/// Writes the quoted, escaped form of `x`.
pub fn quote_str(x: &str) -> (r: String)
    ensures
        r@ == spec_quote(x@),
{
    let n = x.unicode_len();
    let mut out = "\"".to_owned();
    let mut i: usize = 0;
    proof {
        reveal_strlit("\"");
        assert(x@.skip(0) =~= x@);
    }
    while i < n
        invariant
            n == x@.len(),
            0 <= i <= n,
            out@ == seq!['"'] + spec_esc(x@.subrange(0, i as int)),
        decreases n - i,
    {
        let ghost pre = out@;
        let c = x.get_char(i);
        if c == '"' {
            out.append("\\\"");
            proof {
                reveal_strlit("\\\"");
            }
        } else if c == '\\' {
            out.append("\\\\");
            proof {
                reveal_strlit("\\\\");
            }
        } else {
            out.append(x.substring_char(i, i + 1));
        }
        proof {
            assert(out@ =~= pre + spec_esc_char(x@[i as int]));
            lemma_esc_snoc(x@.subrange(0, i + 1));
            assert(x@.subrange(0, i + 1).drop_last() =~= x@.subrange(0, i as int));
            assert(out@ =~= seq!['"'] + spec_esc(x@.subrange(0, i + 1)));
        }
        i += 1;
    }
    out.append("\"");
    proof {
        assert(x@.subrange(0, n as int) =~= x@);
        assert(out@ =~= spec_quote(x@));
    }
    out
}

/// Escaping distributes over splitting the last character off.
pub proof fn lemma_esc_snoc(s: Seq<char>)
    requires
        s.len() > 0,
    ensures
        spec_esc(s) == spec_esc(s.drop_last()) + spec_esc_char(s.last()),
    decreases s.len(),
{
    if s.len() == 1 {
        assert(s.drop_last() =~= Seq::<char>::empty());
        assert(s.skip(1) =~= Seq::<char>::empty());
        assert(spec_esc(s) =~= spec_esc_char(s[0]));
        assert(spec_esc(s.drop_last()) + spec_esc_char(s.last()) =~= spec_esc_char(s[0]));
    } else {
        lemma_esc_snoc(s.skip(1));
        assert(s.skip(1).drop_last() =~= s.drop_last().skip(1));
        assert(s.skip(1).last() == s.last());
        assert(s.drop_last()[0] == s[0]);
        assert(spec_esc(s.drop_last()) == spec_esc_char(s[0]) + spec_esc(s.drop_last().skip(1)));
        assert(spec_esc(s) =~= spec_esc(s.drop_last()) + spec_esc_char(s.last()));
    }
}

/// Scans a string body after its opening quote: characters up to the
/// next unescaped closing quote, unescaping as it goes.
pub open spec fn spec_scan_str_body(s: Seq<char>, i: int) -> Option<(Seq<char>, int)>
    decreases s.len() - i,
{
    if i < 0 || i >= s.len() {
        Option::None
    } else if s[i] == '"' {
        Option::Some((Seq::empty(), i + 1))
    } else if s[i] == '\\' {
        if i + 1 < s.len() && (s[i + 1] == '"' || s[i + 1] == '\\') {
            match spec_scan_str_body(s, i + 2) {
                Option::Some((v, j)) => Option::Some((seq![s[i + 1]] + v, j)),
                Option::None => Option::None,
            }
        } else {
            Option::None
        }
    } else {
        match spec_scan_str_body(s, i + 1) {
            Option::Some((v, j)) => Option::Some((seq![s[i]] + v, j)),
            Option::None => Option::None,
        }
    }
}

/// Scans a quoted string at `i`.
pub open spec fn spec_scan_string(s: Seq<char>, i: int) -> Option<(Seq<char>, int)> {
    if 0 <= i < s.len() && s[i] == '"' {
        spec_scan_str_body(s, i + 1)
    } else {
        Option::None
    }
}

/// A successful body scan lands strictly past where it started.
pub proof fn lemma_scan_str_body_advances(s: Seq<char>, i: int)
    ensures
        spec_scan_str_body(s, i) matches Some((v, j)) ==> i < j <= s.len(),
    decreases s.len() - i,
{
    if 0 <= i < s.len() {
        if s[i] == '\\' {
            if i + 1 < s.len() && (s[i + 1] == '"' || s[i + 1] == '\\') {
                lemma_scan_str_body_advances(s, i + 2);
            }
        } else if s[i] != '"' {
            lemma_scan_str_body_advances(s, i + 1);
        }
    }
}

/// Scans the body of a quoted string, mirroring
/// [`spec_scan_str_body`].
pub fn scan_str_body(s: &str, i: usize) -> (r: Option<(String, usize)>)
    requires
        i <= s@.len(),
    ensures
        match r {
            Option::Some((v, j)) => spec_scan_str_body(s@, i as int) == Some((v@, j as int)) && j
                <= s@.len(),
            Option::None => spec_scan_str_body(s@, i as int) is None,
        },
    decreases s@.len() - i,
{
    let n = s.unicode_len();
    if i >= n {
        return None;
    }
    let c = s.get_char(i);
    if c == '"' {
        let empty = String::new();
        proof {
            assert(empty@ =~= Seq::<char>::empty());
        }
        Some((empty, i + 1))
    } else if c == '\\' {
        if i + 1 < n {
            let c2 = s.get_char(i + 1);
            if c2 == '"' || c2 == '\\' {
                match scan_str_body(s, i + 2) {
                    Some((v, j)) => {
                        let piece = s.substring_char(i + 1, i + 2).to_owned().concat(v.as_str());
                        proof {
                            assert(piece@ =~= seq![s@[i + 1]] + v@);
                        }
                        Some((piece, j))
                    },
                    None => None,
                }
            } else {
                None
            }
        } else {
            None
        }
    } else {
        match scan_str_body(s, i + 1) {
            Some((v, j)) => {
                let piece = s.substring_char(i, i + 1).to_owned().concat(v.as_str());
                proof {
                    assert(piece@ =~= seq![s@[i as int]] + v@);
                }
                Some((piece, j))
            },
            None => None,
        }
    }
}

/// Scans a quoted string, mirroring [`spec_scan_string`].
pub fn scan_string(s: &str, i: usize) -> (r: Option<(String, usize)>)
    ensures
        match r {
            Option::Some((v, j)) => spec_scan_string(s@, i as int) == Some((v@, j as int)) && j
                <= s@.len(),
            Option::None => spec_scan_string(s@, i as int) is None,
        },
{
    let n = s.unicode_len();
    if i < n && s.get_char(i) == '"' {
        scan_str_body(s, i + 1)
    } else {
        None
    }
}

/// Scanning a written string from its own start yields the string
/// back and stops right after it, whatever follows.
pub proof fn lemma_scan_quote(s: Seq<char>, i: int, x: Seq<char>)
    requires
        0 <= i,
        i + spec_quote(x).len() <= s.len(),
        s.subrange(i, i + spec_quote(x).len() as int) == spec_quote(x),
    ensures
        spec_scan_string(s, i) == Some((x, i + spec_quote(x).len() as int)),
{
    let q = spec_quote(x);
    let e = spec_esc(x);
    assert(q.len() == e.len() + 2);
    assert(s.subrange(i, i + q.len() as int)[0] == s[i]);
    assert(q[0] == '"');
    assert(s[i] == '"');
    assert forall|k: int| 0 <= k < e.len() implies s[i + 1 + k] == e[k] by {
        assert(s.subrange(i, i + q.len() as int)[1 + k] == s[i + 1 + k]);
        assert(q[1 + k] == e[k]);
    }
    assert(s.subrange(i + 1, i + 1 + e.len() as int) =~= e);
    assert(s[i + 1 + e.len() as int] == '"') by {
        assert(s.subrange(i, i + q.len() as int)[q.len() - 1] == s[i + q.len() - 1]);
        assert(q[q.len() - 1] == '"');
    }
    lemma_scan_quote_body(s, i + 1, x);
}

/// Body form of [`lemma_scan_quote`]: after the opening quote.
pub proof fn lemma_scan_quote_body(s: Seq<char>, i: int, x: Seq<char>)
    requires
        0 <= i,
        i + spec_esc(x).len() + 1 <= s.len(),
        s.subrange(i, i + spec_esc(x).len() as int) == spec_esc(x),
        s[i + spec_esc(x).len() as int] == '"',
    ensures
        spec_scan_str_body(s, i) == Some((x, i + spec_esc(x).len() as int + 1)),
    decreases x.len(),
{
    if x.len() == 0 {
        assert(spec_esc(x).len() == 0);
    } else {
        let c = x[0];
        let rest = x.skip(1);
        let e = spec_esc(x);
        let er = spec_esc(rest);
        assert(e == spec_esc_char(c) + er);
        if c == '"' || c == '\\' {
            assert(e.len() == 2 + er.len());
            assert(s.subrange(i, i + e.len() as int)[0] == s[i]);
            assert(e[0] == '\\');
            assert(s.subrange(i, i + e.len() as int)[1] == s[i + 1]);
            assert(e[1] == c);
            assert forall|k: int| 0 <= k < er.len() implies s[i + 2 + k] == er[k] by {
                assert(s.subrange(i, i + e.len() as int)[2 + k] == s[i + 2 + k]);
                assert(e[2 + k] == er[k]);
            }
            assert(s.subrange(i + 2, i + 2 + er.len() as int) =~= er);
            assert(s[i + 2 + er.len() as int] == '"');
            lemma_scan_quote_body(s, i + 2, rest);
            assert(seq![s[i + 1]] + rest =~= x);
        } else {
            assert(e.len() == 1 + er.len());
            assert(s.subrange(i, i + e.len() as int)[0] == s[i]);
            assert(e[0] == c);
            assert(c != '"' && c != '\\');
            assert forall|k: int| 0 <= k < er.len() implies s[i + 1 + k] == er[k] by {
                assert(s.subrange(i, i + e.len() as int)[1 + k] == s[i + 1 + k]);
                assert(e[1 + k] == er[k]);
            }
            assert(s.subrange(i + 1, i + 1 + er.len() as int) =~= er);
            assert(s[i + 1 + er.len() as int] == '"');
            lemma_scan_quote_body(s, i + 1, rest);
            assert(seq![s[i]] + rest =~= x);
        }
    }
}

// ---------------------------------------------------------------
// integers
// ---------------------------------------------------------------

/// The numeric value of a digit character, `-1` for any other.
pub open spec fn spec_digit_val(c: char) -> int {
    if c == '0' {
        0
    } else if c == '1' {
        1
    } else if c == '2' {
        2
    } else if c == '3' {
        3
    } else if c == '4' {
        4
    } else if c == '5' {
        5
    } else if c == '6' {
        6
    } else if c == '7' {
        7
    } else if c == '8' {
        8
    } else if c == '9' {
        9
    } else {
        -1
    }
}

/// Where the run of digit characters starting at `i` ends.
pub open spec fn spec_digit_run_end(s: Seq<char>, i: int) -> int
    decreases s.len() - i,
{
    if i < 0 || i >= s.len() || spec_digit_val(s[i]) < 0 {
        i
    } else {
        spec_digit_run_end(s, i + 1)
    }
}

/// The value of a digit sequence, most significant first.
pub open spec fn spec_digits_val(d: Seq<char>) -> int
    decreases d.len(),
{
    if d.len() == 0 {
        0
    } else {
        spec_digits_val(d.drop_last()) * 10 + spec_digit_val(d.last())
    }
}

/// Scans an unsigned decimal number at `i`: the digit run and its
/// value.
pub open spec fn spec_scan_uint(s: Seq<char>, i: int) -> Option<(int, int)> {
    let j = spec_digit_run_end(s, i);
    if j == i {
        Option::None
    } else {
        Option::Some((spec_digits_val(s.subrange(i, j)), j))
    }
}

/// Scans a decimal number with an optional leading minus sign.
pub open spec fn spec_scan_int(s: Seq<char>, i: int) -> Option<(int, int)> {
    if 0 <= i < s.len() && s[i] == '-' {
        match spec_scan_uint(s, i + 1) {
            Option::Some((v, j)) => Option::Some((-v, j)),
            Option::None => Option::None,
        }
    } else {
        spec_scan_uint(s, i)
    }
}

/// The written form of a 64-bit integer.
pub open spec fn spec_int_text(v: int) -> Seq<char> {
    if v < 0 {
        seq!['-'] + spec_digits(-v)
    } else {
        spec_digits(v)
    }
}

/// Writes the decimal text of `v`.
pub fn int_to_string(v: i64) -> (r: String)
    ensures
        r@ == spec_int_text(v as int),
{
    if v >= 0 {
        u64_to_string(v as u64)
    } else {
        let mag: u64 = if v == i64::MIN {
            9223372036854775808u64
        } else {
            (-v) as u64
        };
        let digits = u64_to_string(mag);
        let r = "-".to_owned().concat(digits.as_str());
        proof {
            reveal_strlit("-");
            assert(r@ =~= seq!['-'] + spec_digits(-(v as int)));
        }
        r
    }
}

/// The digit run of a value's digits is the whole digit text.
pub proof fn lemma_digits_are_digits(n: int)
    ensures
        forall|k: int|
            0 <= k < spec_digits(n).len() ==> spec_digit_val(#[trigger] spec_digits(n)[k]) >= 0,
    decreases n,
{
    if n >= 10 {
        lemma_digits_are_digits(n / 10);
        assert(forall|k: int|
            0 <= k < spec_digits(n / 10).len() ==> spec_digits(n)[k] == spec_digits(
                n / 10,
            )[k] && spec_digit_val(#[trigger] spec_digits(n)[k]) >= 0);
        assert(spec_digit_val(spec_digits(n)[spec_digits(n).len() - 1]) >= 0);
    }
}

/// A run of digits bounded by a non-digit (or the end) ends exactly
/// at the bound.
pub proof fn lemma_run_end_of_digits(s: Seq<char>, i: int, j: int)
    requires
        0 <= i <= j <= s.len(),
        forall|k: int| i <= k < j ==> spec_digit_val(#[trigger] s[k]) >= 0,
        j == s.len() || spec_digit_val(s[j]) < 0,
    ensures
        spec_digit_run_end(s, i) == j,
    decreases j - i,
{
    if i < j {
        lemma_run_end_of_digits(s, i + 1, j);
    }
}

/// The value of a number's digit text is the number.
pub proof fn lemma_digits_val_of_digits(n: int)
    requires
        n >= 0,
    ensures
        spec_digits_val(spec_digits(n)) == n,
    decreases n,
{
    if n < 10 {
        let dd = spec_digits(n);
        assert(dd.len() == 1);
        assert(dd.drop_last() =~= Seq::<char>::empty());
        assert(spec_digits_val(Seq::<char>::empty()) == 0);
        assert(spec_digits_val(dd.drop_last()) == 0);
        assert(spec_digits_val(dd) == spec_digits_val(dd.drop_last()) * 10 + spec_digit_val(
            dd.last(),
        ));
        assert(dd.last() == (if n == 0 { '0' } else { spec_digit(n) }));
        assert(spec_digit_val(dd.last()) == n);
    } else {
        lemma_digits_val_of_digits(n / 10);
        assert(spec_digits(n) == spec_digits(n / 10).push(spec_digit(n % 10)));
        assert(spec_digits(n).drop_last() =~= spec_digits(n / 10));
        assert(spec_digits(n).last() == spec_digit(n % 10));
        assert(spec_digit_val(spec_digit(n % 10)) == n % 10);
    }
}

/// Scanning a written integer from its own start yields the value
/// back and stops right after it, provided no digit follows it.
pub proof fn lemma_scan_int_text(s: Seq<char>, i: int, v: int)
    requires
        0 <= i,
        i + spec_int_text(v).len() <= s.len(),
        s.subrange(i, i + spec_int_text(v).len() as int) == spec_int_text(v),
        i + spec_int_text(v).len() == s.len() || spec_digit_val(
            s[i + spec_int_text(v).len() as int],
        ) < 0,
    ensures
        spec_scan_int(s, i) == Some((v, i + spec_int_text(v).len() as int)),
{
    if v < 0 {
        let t = spec_int_text(v);
        let d = spec_digits(-v);
        assert(t.len() == 1 + d.len());
        assert(s.subrange(i, i + t.len() as int)[0] == s[i]);
        assert(t[0] == '-');
        assert(s[i] == '-');
        assert forall|k: int| 0 <= k < d.len() implies s[i + 1 + k] == d[k] by {
            assert(s.subrange(i, i + t.len() as int)[1 + k] == s[i + 1 + k]);
            assert(t[1 + k] == d[k]);
        }
        assert(s.subrange(i + 1, i + 1 + d.len() as int) =~= d);
        lemma_scan_digits_at(s, i + 1, -v);
    } else {
        let d = spec_digits(v);
        assert(spec_int_text(v) == d);
        assert(s.subrange(i, i + d.len() as int) =~= d);
        if 0 <= i < s.len() && s[i] == '-' {
            lemma_digits_are_digits(v);
            assert(spec_digit_val(d[0]) >= 0);
            assert(s.subrange(i, i + d.len() as int)[0] == s[i]);
            assert(s[i] == d[0]);
            assert(false);
        }
        lemma_scan_digits_at(s, i, v);
    }
}

/// Scanning the digit text of `n` placed at `i` yields `n`.
proof fn lemma_scan_digits_at(s: Seq<char>, i: int, n: int)
    requires
        n >= 0,
        0 <= i,
        i + spec_digits(n).len() <= s.len(),
        s.subrange(i, i + spec_digits(n).len() as int) == spec_digits(n),
        i + spec_digits(n).len() == s.len() || spec_digit_val(
            s[i + spec_digits(n).len() as int],
        ) < 0,
    ensures
        spec_scan_uint(s, i) == Some((n, i + spec_digits(n).len() as int)),
{
    let d = spec_digits(n);
    let j = i + d.len() as int;
    lemma_digits_are_digits(n);
    assert(forall|k: int| i <= k < j ==> s[k] == d[k - i] && spec_digit_val(#[trigger] s[k]) >= 0);
    lemma_run_end_of_digits(s, i, j);
    assert(d.len() > 0);
    assert(j > i);
    assert(s.subrange(i, j) == d);
    lemma_digits_val_of_digits(n);
}

/// Scans an unsigned decimal number, mirroring [`spec_scan_uint`];
/// fails also when the value does not fit the word.
pub fn scan_uint(s: &str, i: usize) -> (r: Option<(u64, usize)>)
    ensures
        match r {
            Option::Some((v, j)) => spec_scan_uint(s@, i as int) == Some((v as int, j as int))
                && j <= s@.len(),
            Option::None => (match spec_scan_uint(s@, i as int) {
                Option::Some((v, _)) => v > u64::MAX,
                Option::None => true,
            }),
        },
{
    let n = s.unicode_len();
    if i >= n {
        return None;
    }
    let mut j = i;
    while j < n && digit_of(s.get_char(j)) >= 0
        invariant
            n == s@.len(),
            i <= j <= n,
            forall|k: int| i <= k < j ==> spec_digit_val(#[trigger] s@[k]) >= 0,
            spec_digit_run_end(s@, i as int) == spec_digit_run_end(s@, j as int),
        decreases n - j,
    {
        j += 1;
    }
    proof {
        assert(spec_digit_run_end(s@, j as int) == j as int);
    }
    if j == i {
        return None;
    }
    let mut acc: u64 = 0;
    let mut k = i;
    proof {
        assert(s@.subrange(i as int, i as int) =~= Seq::<char>::empty());
    }
    while k < j
        invariant
            n == s@.len(),
            i <= k <= j <= n,
            i < j,
            spec_digit_run_end(s@, i as int) == j as int,
            forall|k2: int| i <= k2 < j ==> spec_digit_val(#[trigger] s@[k2]) >= 0,
            acc as int == spec_digits_val(s@.subrange(i as int, k as int)),
        decreases j - k,
    {
        let d = digit_of(s.get_char(k));
        proof {
            assert(spec_digit_val(s@[k as int]) >= 0);
        }
        if acc > (u64::MAX - (d as u64)) / 10 {
            proof {
                lemma_digits_val_grows(s@, i as int, k as int + 1, j as int);
                assert(spec_digits_val(s@.subrange(i as int, k + 1)) == acc as int * 10
                    + spec_digit_val(s@[k as int])) by {
                    assert(s@.subrange(i as int, k + 1).drop_last() =~= s@.subrange(
                        i as int,
                        k as int,
                    ));
                    assert(s@.subrange(i as int, k + 1).last() == s@[k as int]);
                }
                assert(acc as int * 10 + (d as int) > u64::MAX);
            }
            return None;
        }
        let ghost preacc = acc;
        acc = acc * 10 + (d as u64);
        proof {
            assert(s@.subrange(i as int, k + 1).drop_last() =~= s@.subrange(i as int, k as int));
            assert(s@.subrange(i as int, k + 1).last() == s@[k as int]);
            assert(acc as int == spec_digits_val(s@.subrange(i as int, k + 1)));
        }
        k += 1;
    }
    Some((acc, j))
}

/// The numeric value of a digit character, `-1` for any other.
pub fn digit_of(c: char) -> (r: i8)
    ensures
        r as int == spec_digit_val(c),
{
    match c {
        '0' => 0,
        '1' => 1,
        '2' => 2,
        '3' => 3,
        '4' => 4,
        '5' => 5,
        '6' => 6,
        '7' => 7,
        '8' => 8,
        '9' => 9,
        _ => -1,
    }
}

/// The value of a digit sequence is non-negative.
proof fn lemma_digits_val_nonneg(s: Seq<char>, i: int, j: int)
    requires
        0 <= i <= j <= s.len(),
        forall|k: int| i <= k < j ==> spec_digit_val(#[trigger] s[k]) >= 0,
    ensures
        spec_digits_val(s.subrange(i, j)) >= 0,
    decreases j - i,
{
    if i < j {
        assert(s.subrange(i, j).drop_last() =~= s.subrange(i, j - 1));
        assert(s.subrange(i, j).last() == s[j - 1]);
        lemma_digits_val_nonneg(s, i, j - 1);
    }
}

/// More digits never shrink the value.
proof fn lemma_digits_val_grows(s: Seq<char>, i: int, m: int, j: int)
    requires
        0 <= i <= m <= j <= s.len(),
        forall|k: int| i <= k < j ==> spec_digit_val(#[trigger] s[k]) >= 0,
    ensures
        spec_digits_val(s.subrange(i, j)) >= spec_digits_val(s.subrange(i, m)),
    decreases j - m,
{
    if m < j {
        lemma_digits_val_grows(s, i, m + 1, j);
        assert(s.subrange(i, m + 1).drop_last() =~= s.subrange(i, m));
        assert(s.subrange(i, m + 1).last() == s[m]);
        lemma_digits_val_nonneg(s, i, m);
        assert(spec_digits_val(s.subrange(i, m + 1)) >= spec_digits_val(s.subrange(i, m)));
    }
}

/// Scans a signed decimal number, mirroring [`spec_scan_int`]; fails
/// also when the value does not fit a signed 64-bit word.
pub fn scan_i64(s: &str, i: usize) -> (r: Option<(i64, usize)>)
    ensures
        match r {
            Option::Some((v, j)) => spec_scan_int(s@, i as int) == Some((v as int, j as int)) && j
                <= s@.len(),
            Option::None => (match spec_scan_int(s@, i as int) {
                Option::Some((v, _)) => v > i64::MAX || v < i64::MIN,
                Option::None => true,
            }),
        },
{
    let n = s.unicode_len();
    if i < n && s.get_char(i) == '-' {
        match scan_uint(s, i + 1) {
            Some((mag, j)) => {
                if mag <= 9223372036854775807u64 {
                    Some(((-(mag as i64)), j))
                } else if mag == 9223372036854775808u64 {
                    Some((i64::MIN, j))
                } else {
                    None
                }
            },
            None => None,
        }
    } else {
        match scan_uint(s, i) {
            Some((v, j)) => {
                if v <= 9223372036854775807u64 {
                    Some((v as i64, j))
                } else {
                    None
                }
            },
            None => None,
        }
    }
}

// ---------------------------------------------------------------
// literals
// ---------------------------------------------------------------

/// `lit` stands in `s` at position `i`.
pub open spec fn spec_lit_at(s: Seq<char>, i: int, lit: Seq<char>) -> bool {
    0 <= i && i + lit.len() <= s.len() && s.subrange(i, i + lit.len() as int) == lit
}

/// Matches the exact text `lit` at `i`.
pub fn scan_lit(s: &str, i: usize, lit: &str) -> (r: Option<usize>)
    ensures
        match r {
            Option::Some(j) => spec_lit_at(s@, i as int, lit@) && j as int == i + lit@.len(),
            Option::None => !spec_lit_at(s@, i as int, lit@),
        },
{
    let n = s.unicode_len();
    let m = lit.unicode_len();
    if m > n || i > n - m {
        return None;
    }
    let mut k: usize = 0;
    while k < m
        invariant
            n == s@.len(),
            m == lit@.len(),
            i + m <= n,
            0 <= k <= m,
            forall|k2: int| 0 <= k2 < k ==> s@[i + k2] == lit@[k2],
        decreases m - k,
    {
        if s.get_char(i + k) != lit.get_char(k) {
            proof {
                assert(s@.subrange(i as int, i as int + m as int)[k as int] != lit@[k as int]);
            }
            return None;
        }
        k += 1;
    }
    proof {
        assert(s@.subrange(i as int, i as int + m as int) =~= lit@);
    }
    Some(i + m)
}

// ---------------------------------------------------------------
// arrays of strings
// ---------------------------------------------------------------

/// The comma-joined quoted items of an array body.
pub open spec fn spec_strarr_items(v: Seq<Seq<char>>) -> Seq<char>
    decreases v.len(),
{
    if v.len() == 0 {
        Seq::empty()
    } else if v.len() == 1 {
        spec_quote(v[0])
    } else {
        spec_quote(v[0]) + ", "@ + spec_strarr_items(v.skip(1))
    }
}

/// The written form of an array of strings.
pub open spec fn spec_strarr(v: Seq<Seq<char>>) -> Seq<char> {
    seq!['['] + spec_strarr_items(v) + seq![']']
}

/// Joining distributes over splitting the last item off.
pub proof fn lemma_strarr_items_snoc(v: Seq<Seq<char>>, x: Seq<char>)
    ensures
        spec_strarr_items(v.push(x)) == if v.len() == 0 {
            spec_quote(x)
        } else {
            spec_strarr_items(v) + ", "@ + spec_quote(x)
        },
    decreases v.len(),
{
    let w = v.push(x);
    if v.len() == 0 {
        assert(w.len() == 1);
        assert(w[0] == x);
    } else {
        assert(w[0] == v[0]);
        assert(w.skip(1) =~= v.skip(1).push(x));
        lemma_strarr_items_snoc(v.skip(1), x);
        if v.len() == 1 {
            assert(v.skip(1).len() == 0);
            assert(spec_strarr_items(w) =~= spec_quote(v[0]) + ", "@ + spec_quote(x));
            assert(spec_strarr_items(v) == spec_quote(v[0]));
        } else {
            assert(spec_strarr_items(w) == spec_quote(w[0]) + ", "@ + spec_strarr_items(
                w.skip(1),
            ));
            assert(spec_strarr_items(v) == spec_quote(v[0]) + ", "@ + spec_strarr_items(
                v.skip(1),
            ));
            assert(spec_strarr_items(w) =~= spec_strarr_items(v) + ", "@ + spec_quote(x));
        }
    }
}

/// The views of a string list.
pub open spec fn spec_views_of(v: Seq<String>) -> Seq<Seq<char>> {
    Seq::new(v.len(), |i: int| v[i]@)
}

/// Writes an array of strings.
pub fn write_strarr(v: &Vec<String>) -> (r: String)
    ensures
        r@ == spec_strarr(spec_views_of(v@)),
{
    let n = v.len();
    let mut out = "[".to_owned();
    let mut i: usize = 0;
    proof {
        reveal_strlit("[");
        assert(spec_views_of(v@).subrange(0, 0) =~= Seq::<Seq<char>>::empty());
        assert(out@ =~= seq!['['] + spec_strarr_items(spec_views_of(v@).subrange(0, 0)));
    }
    while i < n
        invariant
            n == v@.len(),
            0 <= i <= n,
            out@ == seq!['['] + spec_strarr_items(spec_views_of(v@).subrange(0, i as int)),
        decreases n - i,
    {
        let ghost pre = out@;
        if i > 0 {
            out.append(", ");
        }
        let q = quote_str(v[i].as_str());
        out.append(q.as_str());
        proof {
            reveal_strlit(", ");
            let vv = spec_views_of(v@);
            assert(vv.subrange(0, i + 1) =~= vv.subrange(0, i as int).push(vv[i as int]));
            lemma_strarr_items_snoc(vv.subrange(0, i as int), vv[i as int]);
            assert(vv[i as int] == v@[i as int]@);
            assert(out@ =~= seq!['['] + spec_strarr_items(vv.subrange(0, i + 1)));
        }
        i += 1;
    }
    out.append("]");
    proof {
        reveal_strlit("]");
        assert(spec_views_of(v@).subrange(0, n as int) =~= spec_views_of(v@));
        assert(out@ =~= spec_strarr(spec_views_of(v@)));
    }
    out
}

/// A successful string scan consumes at least the two quotes.
pub proof fn lemma_scan_string_advances(s: Seq<char>, i: int)
    ensures
        spec_scan_string(s, i) matches Some((x, j)) ==> i + 2 <= j <= s.len(),
{
    if 0 <= i < s.len() && s[i] == '"' {
        lemma_scan_str_body_advances(s, i + 1);
    }
}

/// Scans the non-empty item list of an array, up to and including the
/// closing bracket.
pub open spec fn spec_scan_arr_items(s: Seq<char>, i: int) -> Option<(Seq<Seq<char>>, int)>
    decreases s.len() - i,
    via spec_scan_arr_items_dec
{
    match spec_scan_string(s, i) {
        Option::None => Option::None,
        Option::Some((x, j)) => if j < s.len() && s[j] == ']' {
            Option::Some((seq![x], j + 1))
        } else if j + 1 < s.len() && s[j] == ',' && s[j + 1] == ' ' {
            match spec_scan_arr_items(s, j + 2) {
                Option::Some((xs, k)) => Option::Some((seq![x] + xs, k)),
                Option::None => Option::None,
            }
        } else {
            Option::None
        },
    }
}

#[via_fn]
proof fn spec_scan_arr_items_dec(s: Seq<char>, i: int) {
    lemma_scan_string_advances(s, i);
}

/// Scans an array of strings.
pub open spec fn spec_scan_strarr(s: Seq<char>, i: int) -> Option<(Seq<Seq<char>>, int)> {
    if 0 <= i < s.len() && s[i] == '[' {
        if i + 1 < s.len() && s[i + 1] == ']' {
            Option::Some((Seq::empty(), i + 2))
        } else {
            spec_scan_arr_items(s, i + 1)
        }
    } else {
        Option::None
    }
}

/// Scans the item list of an array, mirroring
/// [`spec_scan_arr_items`].
pub fn scan_arr_items(s: &str, i: usize) -> (r: Option<(Vec<String>, usize)>)
    ensures
        match r {
            Option::Some((v, j)) => spec_scan_arr_items(s@, i as int) == Some(
                (spec_views_of(v@), j as int),
            ) && j <= s@.len(),
            Option::None => spec_scan_arr_items(s@, i as int) is None,
        },
    decreases s@.len() - i,
{
    let n = s.unicode_len();
    match scan_string(s, i) {
        Some((x, j)) => {
            if j < n && s.get_char(j) == ']' {
                let mut v: Vec<String> = Vec::new();
                v.push(x);
                proof {
                    assert(spec_views_of(v@) =~= seq![spec_scan_string(
                        s@,
                        i as int,
                    ).unwrap().0]);
                }
                Some((v, j + 1))
            } else if n > 0 && j < n - 1 && s.get_char(j) == ',' && s.get_char(j + 1) == ' ' {
                proof {
                    lemma_scan_string_advances(s@, i as int);
                }
                match scan_arr_items(s, j + 2) {
                    Some((rest, k)) => {
                        let mut v = rest;
                        v.insert(0, x);
                        proof {
                            assert(spec_views_of(v@) =~= seq![spec_scan_string(
                                s@,
                                i as int,
                            ).unwrap().0] + spec_scan_arr_items(s@, j as int + 2).unwrap().0);
                        }
                        Some((v, k))
                    },
                    None => None,
                }
            } else {
                None
            }
        },
        None => None,
    }
}

/// Scans an array of strings, mirroring [`spec_scan_strarr`].
pub fn scan_strarr(s: &str, i: usize) -> (r: Option<(Vec<String>, usize)>)
    ensures
        match r {
            Option::Some((v, j)) => spec_scan_strarr(s@, i as int) == Some(
                (spec_views_of(v@), j as int),
            ) && j <= s@.len(),
            Option::None => spec_scan_strarr(s@, i as int) is None,
        },
{
    let n = s.unicode_len();
    if i < n && s.get_char(i) == '[' {
        if i + 1 < n && s.get_char(i + 1) == ']' {
            let v: Vec<String> = Vec::new();
            proof {
                assert(spec_views_of(v@) =~= Seq::<Seq<char>>::empty());
            }
            Some((v, i + 2))
        } else {
            scan_arr_items(s, i + 1)
        }
    } else {
        None
    }
}

/// Scanning a written array from its own start yields the items back
/// and stops right after the closing bracket.
pub proof fn lemma_scan_strarr_text(s: Seq<char>, i: int, v: Seq<Seq<char>>)
    requires
        0 <= i,
        i + spec_strarr(v).len() <= s.len(),
        s.subrange(i, i + spec_strarr(v).len() as int) == spec_strarr(v),
    ensures
        spec_scan_strarr(s, i) == Some((v, i + spec_strarr(v).len() as int)),
{
    let t = spec_strarr(v);
    let items = spec_strarr_items(v);
    assert(t.len() == items.len() + 2);
    assert(s.subrange(i, i + t.len() as int)[0] == s[i]);
    assert(t[0] == '[');
    assert(s[i] == '[');
    assert(s.subrange(i, i + t.len() as int)[t.len() - 1] == s[i + t.len() - 1]);
    assert(t[t.len() - 1] == ']');
    if v.len() == 0 {
        assert(items.len() == 0);
        assert(s[i + 1] == ']');
    } else {
        assert(s.subrange(i, i + t.len() as int)[1] == s[i + 1]);
        assert(t[1] == items[0]);
        assert(items[0] == spec_quote(v[0])[0]);
        assert(spec_quote(v[0])[0] == '"');
        assert(s[i + 1] == '"');
        assert(s[i + 1] != ']');
        assert forall|k: int| 0 <= k < items.len() implies s[i + 1 + k] == items[k] by {
            assert(s.subrange(i, i + t.len() as int)[1 + k] == s[i + 1 + k]);
            assert(t[1 + k] == items[k]);
        }
        assert(s[i + 1 + items.len() as int] == ']');
        lemma_scan_arr_items_text(s, i + 1, v);
    }
}

/// Item-list form of [`lemma_scan_strarr_text`]: the joined items
/// stand at `i` with the closing bracket right after them.
pub proof fn lemma_scan_arr_items_text(s: Seq<char>, i: int, v: Seq<Seq<char>>)
    requires
        v.len() > 0,
        0 <= i,
        i + spec_strarr_items(v).len() + 1 <= s.len(),
        forall|k: int|
            0 <= k < spec_strarr_items(v).len() ==> s[i + k] == spec_strarr_items(v)[k],
        s[i + spec_strarr_items(v).len() as int] == ']',
    ensures
        spec_scan_arr_items(s, i) == Some((v, i + spec_strarr_items(v).len() as int + 1)),
    decreases v.len(),
{
    let items = spec_strarr_items(v);
    let q = spec_quote(v[0]);
    if v.len() == 1 {
        assert(items == q);
        assert forall|k: int| 0 <= k < q.len() implies s.subrange(i, i + q.len() as int)[k]
            == q[k] by {
            assert(s[i + k] == items[k]);
        }
        assert(s.subrange(i, i + q.len() as int) =~= q);
        lemma_scan_quote(s, i, v[0]);
        assert(s[i + q.len() as int] == ']');
        assert(seq![v[0]] =~= v);
    } else {
        let rest = v.skip(1);
        let ri = spec_strarr_items(rest);
        assert(items == q + ", "@ + ri);
        assert(items.len() == q.len() + 2 + ri.len()) by {
            reveal_strlit(", ");
        }
        assert forall|k: int| 0 <= k < q.len() implies s.subrange(i, i + q.len() as int)[k]
            == q[k] by {
            assert(s[i + k] == items[k]);
            assert(items[k] == q[k]);
        }
        assert(s.subrange(i, i + q.len() as int) =~= q);
        lemma_scan_quote(s, i, v[0]);
        let j = i + q.len() as int;
        assert(s[j] == ',') by {
            reveal_strlit(", ");
            assert(items[q.len() as int] == ',');
        }
        assert(s[j + 1] == ' ') by {
            reveal_strlit(", ");
            assert(items[q.len() as int + 1] == ' ');
        }
        assert(s[j] != ']');
        assert forall|k: int| 0 <= k < ri.len() implies s[j + 2 + k] == ri[k] by {
            assert(s[i + (q.len() + 2 + k)] == items[q.len() + 2 + k]);
            assert(items[q.len() + 2 + k] == ri[k]);
        }
        assert(s[j + 2 + ri.len() as int] == ']');
        lemma_scan_arr_items_text(s, j + 2, rest);
        assert(seq![v[0]] + rest =~= v);
    }
}

} // verus!
