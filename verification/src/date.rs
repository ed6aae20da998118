//! Turning the schedule's timestamps (`2019-02-15T00:00:00.000Z`) into dates
//! that read well (`February 15th, 2019`).
use vstd::prelude::*;

use crate::text::{chars_of, str_eq};

verus! {

/// `s` with its first `n` occurrences of `from` replaced by `to`
/// (`str::replacen` with one-character patterns).
pub open spec fn replace_first(s: Seq<char>, from: char, to: char, n: nat) -> Seq<char>
    decreases s.len(),
{
    if s.len() == 0 {
        s
    } else if n > 0 && s[0] == from {
        seq![to] + replace_first(s.drop_first(), from, to, (n - 1) as nat)
    } else {
        seq![s[0]] + replace_first(s.drop_first(), from, to, n)
    }
}

/// The first index at or after `i` that holds `c`, or `s.len()` when there is none.
pub open spec fn find_from(s: Seq<char>, c: char, i: int) -> int
    decreases s.len() - i,
{
    if i >= s.len() {
        s.len() as int
    } else if s[i] == c {
        i
    } else {
        find_from(s, c, i + 1)
    }
}

pub proof fn lemma_find_from(s: Seq<char>, c: char, i: int)
    requires
        0 <= i,
    ensures
        i <= find_from(s, c, i) || (i > s.len() && find_from(s, c, i) == s.len()),
        find_from(s, c, i) <= s.len(),
        find_from(s, c, i) < s.len() ==> s[find_from(s, c, i)] == c,
        forall|k: int| i <= k < find_from(s, c, i) ==> s[k] != c,
    decreases s.len() - i,
{
    if i < s.len() && s[i] != c {
        lemma_find_from(s, c, i + 1);
    }
}

/// The pieces of `s[i..]` between occurrences of `c` (`str::split` with a
/// one-character pattern).
pub open spec fn split_from(s: Seq<char>, c: char, i: int) -> Seq<Seq<char>>
    decreases s.len() - i,
    when 0 <= i <= s.len()
{
    let j = find_from(s, c, i);
    proof {
        lemma_find_from(s, c, i);
    }
    if j >= s.len() {
        seq![s.subrange(i, s.len() as int)]
    } else {
        seq![s.subrange(i, j)] + split_from(s, c, j + 1)
    }
}

/// The pieces of `s` between occurrences of `c`.
pub open spec fn split(s: Seq<char>, c: char) -> Seq<Seq<char>> {
    split_from(s, c, 0)
}

/// The pieces that a timestamp falls into once its first three `-` and its
/// first `T` have become spaces: year, month, day, and what follows.
pub open spec fn date_parts(date: Seq<char>) -> Seq<Seq<char>> {
    split(replace_first(replace_first(date, '-', ' ', 3), 'T', ' ', 1), ' ')
}

/// The name of a month given by its two-digit number.
pub open spec fn month_name(m: Seq<char>) -> Seq<char> {
    if m == "01"@ {
        "January"@
    } else if m == "02"@ {
        "February"@
    } else if m == "03"@ {
        "March"@
    } else if m == "04"@ {
        "April"@
    } else if m == "05"@ {
        "May"@
    } else if m == "06"@ {
        "June"@
    } else if m == "07"@ {
        "July"@
    } else if m == "08"@ {
        "August"@
    } else if m == "09"@ {
        "September"@
    } else if m == "10"@ {
        "October"@
    } else if m == "11"@ {
        "November"@
    } else if m == "12"@ {
        "December"@
    } else {
        "Unknown month Error"@
    }
}

/// A day of the month as an ordinal: `01` to `09` by the table, without
/// their leading zero; anything else with `th` after it.
pub open spec fn day_ordinal(d: Seq<char>) -> Seq<char> {
    if d == "01"@ {
        "1st"@
    } else if d == "02"@ {
        "2nd"@
    } else if d == "03"@ {
        "3rd"@
    } else if d == "04"@ {
        "4th"@
    } else if d == "05"@ {
        "5th"@
    } else if d == "06"@ {
        "6th"@
    } else if d == "07"@ {
        "7th"@
    } else if d == "08"@ {
        "8th"@
    } else if d == "09"@ {
        "9th"@
    } else {
        d + "th"@
    }
}

/// Whether `format_date` can read a timestamp: it needs a year, a month and a day.
pub open spec fn date_readable(date: Seq<char>) -> bool {
    date_parts(date).len() >= 3
}

/// The readable form of a timestamp: `month day, year`.
pub open spec fn readable_date(date: Seq<char>) -> Seq<char> {
    let p = date_parts(date);
    month_name(p[1]) + " "@ + day_ordinal(p[2]) + ", "@ + p[0]
}

/// The name of a month from its two-digit number, or `Unknown month Error`.
pub fn get_month(month: String) -> (r: String)
    ensures
        r@ == month_name(month@),
{
    let m = month.as_str();
    let name = if str_eq(m, "01") {
        "January"
    } else if str_eq(m, "02") {
        "February"
    } else if str_eq(m, "03") {
        "March"
    } else if str_eq(m, "04") {
        "April"
    } else if str_eq(m, "05") {
        "May"
    } else if str_eq(m, "06") {
        "June"
    } else if str_eq(m, "07") {
        "July"
    } else if str_eq(m, "08") {
        "August"
    } else if str_eq(m, "09") {
        "September"
    } else if str_eq(m, "10") {
        "October"
    } else if str_eq(m, "11") {
        "November"
    } else if str_eq(m, "12") {
        "December"
    } else {
        "Unknown month Error"
    };
    String::from_str(name)
}

/// A day of the month as an ordinal (`01` gives `1st`, `09` gives `9th`,
/// `30` gives `30th`).
pub fn format_day(day: String) -> (r: String)
    ensures
        r@ == day_ordinal(day@),
{
    let d = day.as_str();
    if str_eq(d, "01") {
        String::from_str("1st")
    } else if str_eq(d, "02") {
        String::from_str("2nd")
    } else if str_eq(d, "03") {
        String::from_str("3rd")
    } else if str_eq(d, "04") {
        String::from_str("4th")
    } else if str_eq(d, "05") {
        String::from_str("5th")
    } else if str_eq(d, "06") {
        String::from_str("6th")
    } else if str_eq(d, "07") {
        String::from_str("7th")
    } else if str_eq(d, "08") {
        String::from_str("8th")
    } else if str_eq(d, "09") {
        String::from_str("9th")
    } else {
        day.concat("th")
    }
}

/// `s` with its first `n` occurrences of `from` replaced by `to`.
fn replace_first_chars(s: &Vec<char>, from: char, to: char, n: usize) -> (r: Vec<char>)
    ensures
        r@ == replace_first(s@, from, to, n as nat),
{
    let mut out: Vec<char> = Vec::new();
    let mut left: usize = n;
    let mut i: usize = 0;
    assert(s@.skip(0) =~= s@);
    while i < s.len()
        invariant
            0 <= i <= s.len(),
            left <= n,
            out@ + replace_first(s@.skip(i as int), from, to, left as nat) == replace_first(
                s@,
                from,
                to,
                n as nat,
            ),
        decreases s.len() - i,
    {
        let ghost rest = s@.skip(i as int);
        assert(rest[0] == s@[i as int]);
        assert(rest.drop_first() =~= s@.skip(i + 1));
        if left > 0 && s[i] == from {
            out.push(to);
            left = left - 1;
        } else {
            out.push(s[i]);
        }
        i = i + 1;
    }
    assert(s@.skip(i as int) =~= Seq::<char>::empty());
    assert(out@ + Seq::<char>::empty() =~= out@);
    out
}

/// Replacement only ever writes `to`, and keeps the length.
pub proof fn lemma_replace_first_keeps(s: Seq<char>, from: char, to: char, n: nat)
    ensures
        replace_first(s, from, to, n).len() == s.len(),
        forall|j: int|
            0 <= j < s.len() ==> #[trigger] replace_first(s, from, to, n)[j] == s[j]
                || replace_first(s, from, to, n)[j] == to,
    decreases s.len(),
{
    if s.len() > 0 {
        let m: nat = if n > 0 && s[0] == from {
            (n - 1) as nat
        } else {
            n
        };
        lemma_replace_first_keeps(s.drop_first(), from, to, m);
        let r = replace_first(s, from, to, n);
        let t = replace_first(s.drop_first(), from, to, m);
        assert forall|j: int| 0 <= j < s.len() implies #[trigger] r[j] == s[j] || r[j] == to by {
            if j > 0 {
                assert(r[j] == t[j - 1]);
                assert(s.drop_first()[j - 1] == s[j]);
            }
        }
    }
}

/// The index of the first `c` at or after `i` in `v`, or `v.len()`.
fn find_char(v: &Vec<char>, c: char, i: usize) -> (r: usize)
    ensures
        r == find_from(v@, c, i as int),
{
    let mut k: usize = i;
    if k > v.len() {
        return v.len();
    }
    while k < v.len()
        invariant
            i <= k <= v.len(),
            find_from(v@, c, i as int) == find_from(v@, c, k as int),
        decreases v.len() - k,
    {
        if v[k] == c {
            return k;
        }
        k = k + 1;
    }
    k
}

/// The first three pieces of a split, found by the first separators.
proof fn lemma_split_three(s: Seq<char>, c: char)
    ensures
        ({
            let p1 = find_from(s, c, 0);
            let p2 = find_from(s, c, p1 + 1);
            let p3 = find_from(s, c, p2 + 1);
            &&& split(s, c).len() >= 3 <==> (p1 < s.len() && p2 < s.len())
            &&& (p1 < s.len() && p2 < s.len()) ==> {
                &&& split(s, c)[0] == s.subrange(0, p1)
                &&& split(s, c)[1] == s.subrange(p1 + 1, p2)
                &&& split(s, c)[2] == s.subrange(p2 + 1, p3)
                &&& p1 < p2 < p3 <= s.len()
            }
        }),
{
    let p1 = find_from(s, c, 0);
    lemma_find_from(s, c, 0);
    if p1 < s.len() {
        let p2 = find_from(s, c, p1 + 1);
        lemma_find_from(s, c, p1 + 1);
        if p2 < s.len() {
            let p3 = find_from(s, c, p2 + 1);
            lemma_find_from(s, c, p2 + 1);
            let rest = split_from(s, c, p2 + 1);
            assert(rest.len() >= 1);
            assert(rest[0] == s.subrange(p2 + 1, p3));
            let b = split_from(s, c, p1 + 1);
            assert(b == seq![s.subrange(p1 + 1, p2)] + rest);
            let a = split_from(s, c, 0);
            assert(a == seq![s.subrange(0, p1)] + b);
        } else {
            assert(split_from(s, c, p1 + 1).len() == 1);
        }
    } else {
        assert(split(s, c).len() == 1);
    }
}

/// Whether `format_date` can read `date`, that is, whether it has a year,
/// a month and a day.
pub fn date_is_readable(date: &str) -> (r: bool)
    ensures
        r == date_readable(date@),
{
    let s = chars_of(date);
    let t1 = replace_first_chars(&s, '-', ' ', 3);
    let t = replace_first_chars(&t1, 'T', ' ', 1);
    proof {
        lemma_split_three(t@, ' ');
    }
    let p1 = find_char(&t, ' ', 0);
    if p1 >= t.len() {
        return false;
    }
    let p2 = find_char(&t, ' ', p1 + 1);
    p2 < t.len()
}

/// The piece `t[a..b]` holds no space, so it is the same in `s`, of which
/// `t` is `s` with some characters turned into spaces.
proof fn lemma_piece_unchanged(s: Seq<char>, t: Seq<char>, a: int, b: int)
    requires
        s.len() == t.len(),
        0 <= a <= b <= t.len(),
        forall|j: int| 0 <= j < s.len() ==> t[j] == s[j] || t[j] == ' ',
        forall|k: int| a <= k < b ==> t[k] != ' ',
    ensures
        s.subrange(a, b) == t.subrange(a, b),
{
    assert forall|k: int| 0 <= k < b - a implies s.subrange(a, b)[k] == t.subrange(a, b)[k] by {
        assert(t[a + k] != ' ');
    }
    assert(s.subrange(a, b) =~= t.subrange(a, b));
}

/// Turns a timestamp such as `2019-02-15T00:00:00.000Z` into `February 15th, 2019`.
pub fn format_date(date: String) -> (r: String)
    requires
        date_readable(date@),
    ensures
        r@ == readable_date(date@),
{
    let d = date.as_str();
    let s = chars_of(d);
    let t1 = replace_first_chars(&s, '-', ' ', 3);
    let t = replace_first_chars(&t1, 'T', ' ', 1);
    assert(t@ == replace_first(replace_first(date@, '-', ' ', 3), 'T', ' ', 1));
    assert(split(t@, ' ').len() >= 3);
    proof {
        lemma_split_three(t@, ' ');
        lemma_replace_first_keeps(s@, '-', ' ', 3);
        lemma_replace_first_keeps(t1@, 'T', ' ', 1);
        assert forall|j: int| 0 <= j < s@.len() implies t@[j] == s@[j] || t@[j] == ' ' by {
            assert(t@[j] == t1@[j] || t@[j] == ' ');
            assert(t1@[j] == s@[j] || t1@[j] == ' ');
        }
    }
    let p1 = find_char(&t, ' ', 0);
    assert(p1 < t.len());
    let p2 = find_char(&t, ' ', p1 + 1);
    assert(p1 < t.len() && p2 < t.len());
    let p3 = find_char(&t, ' ', p2 + 1);
    proof {
        lemma_find_from(t@, ' ', 0);
        lemma_find_from(t@, ' ', p1 + 1);
        lemma_find_from(t@, ' ', p2 + 1);
        lemma_piece_unchanged(s@, t@, 0, p1 as int);
        lemma_piece_unchanged(s@, t@, p1 + 1, p2 as int);
        lemma_piece_unchanged(s@, t@, p2 + 1, p3 as int);
    }
    let year = d.substring_char(0, p1);
    let month = get_month(String::from_str(d.substring_char(p1 + 1, p2)));
    let day = format_day(String::from_str(d.substring_char(p2 + 1, p3)));
    let mut r = month;
    r.append(" ");
    r.append(day.as_str());
    r.append(", ");
    r.append(year);
    r
}


/// `c` does not occur in `s`.
pub open spec fn lacks(s: Seq<char>, c: char) -> bool {
    forall|k: int| 0 <= k < s.len() ==> #[trigger] s[k] != c
}

proof fn lemma_find_none(s: Seq<char>, c: char, i: int)
    requires
        0 <= i <= s.len(),
        forall|k: int| i <= k < s.len() ==> s[k] != c,
    ensures
        find_from(s, c, i) == s.len(),
    decreases s.len() - i,
{
    if i < s.len() {
        lemma_find_none(s, c, i + 1);
    }
}

proof fn lemma_find_in_prefix(a: Seq<char>, b: Seq<char>, c: char, i: int)
    requires
        0 <= i <= a.len(),
    ensures
        find_from(a + seq![c] + b, c, i) == (if find_from(a, c, i) < a.len() {
            find_from(a, c, i)
        } else {
            a.len() as int
        }),
    decreases a.len() - i,
{
    let s = a + seq![c] + b;
    if i < a.len() {
        assert(s[i] == a[i]);
        if a[i] != c {
            lemma_find_in_prefix(a, b, c, i + 1);
        }
    } else {
        assert(s[i] == c);
    }
}

proof fn lemma_split_from_append(a: Seq<char>, b: Seq<char>, c: char, i: int)
    requires
        0 <= i <= a.len(),
        lacks(b, c),
    ensures
        split_from(a + seq![c] + b, c, i) == split_from(a, c, i).push(b),
    decreases a.len() - i,
{
    let s = a + seq![c] + b;
    let j = find_from(a, c, i);
    lemma_find_from(a, c, i);
    lemma_find_in_prefix(a, b, c, i);
    if j < a.len() {
        lemma_split_from_append(a, b, c, j + 1);
        assert(s.subrange(i, j) =~= a.subrange(i, j));
        assert(seq![a.subrange(i, j)] + split_from(a, c, j + 1).push(b) =~= (seq![a.subrange(i, j)]
            + split_from(a, c, j + 1)).push(b));
    } else {
        lemma_find_none(s, c, a.len() as int + 1);
        assert(s.subrange(i, a.len() as int) =~= a.subrange(i, a.len() as int));
        assert(s.subrange(a.len() as int + 1, s.len() as int) =~= b);
        assert(split_from(s, c, a.len() as int + 1) == seq![b]);
    }
}

/// Splitting `a`, a separator and a piece without separators gives the
/// pieces of `a` and then that piece.
pub proof fn lemma_split_append(a: Seq<char>, b: Seq<char>, c: char)
    requires
        lacks(b, c),
    ensures
        split(a + seq![c] + b, c) == split(a, c).push(b),
{
    lemma_split_from_append(a, b, c, 0);
}

/// A text without separators is one piece.
pub proof fn lemma_split_single(a: Seq<char>, c: char)
    requires
        lacks(a, c),
    ensures
        split(a, c) == seq![a],
{
    lemma_find_none(a, c, 0);
    assert(a.subrange(0, a.len() as int) =~= a);
}

/// The month numbers `01` to `12`, in order.
pub open spec fn month_numbers() -> Seq<Seq<char>> {
    seq!["01"@, "02"@, "03"@, "04"@, "05"@, "06"@, "07"@, "08"@, "09"@, "10"@, "11"@, "12"@]
}

/// The months' names, January to December.
pub open spec fn month_names() -> Seq<Seq<char>> {
    seq!["January"@, "February"@, "March"@, "April"@, "May"@, "June"@, "July"@, "August"@, "September"@, "October"@, "November"@, "December"@]
}

/// Each month number `01` to `12` has its own name, January to December in
/// order; any other text is `Unknown month Error`.
pub proof fn law_month_names(m: Seq<char>)
    ensures
        forall|k: int|
            0 <= k < 12 ==> month_name(#[trigger] month_numbers()[k]) == month_names()[k],
        (forall|k: int| 0 <= k < 12 ==> m != #[trigger] month_numbers()[k]) ==> month_name(m)
            == "Unknown month Error"@,
{
    reveal_strlit("01");
    reveal_strlit("02");
    reveal_strlit("03");
    reveal_strlit("04");
    reveal_strlit("05");
    reveal_strlit("06");
    reveal_strlit("07");
    reveal_strlit("08");
    reveal_strlit("09");
    reveal_strlit("10");
    reveal_strlit("11");
    reveal_strlit("12");
    reveal_strlit("January");
    reveal_strlit("February");
    reveal_strlit("March");
    reveal_strlit("April");
    reveal_strlit("May");
    reveal_strlit("June");
    reveal_strlit("July");
    reveal_strlit("August");
    reveal_strlit("September");
    reveal_strlit("October");
    reveal_strlit("November");
    reveal_strlit("December");
    let numbers = month_numbers();
    let names = month_names();
    assert forall|k: int| 0 <= k < 12 implies month_name(#[trigger] numbers[k]) == names[k] by {
        if k == 0 {
            assert(numbers[k] == "01"@);
            assert(names[k] == "January"@);
        } else if k == 1 {
            assert(numbers[k] == "02"@);
            assert(names[k] == "February"@);
            assert("02"@ != "01"@) by {
                assert("02"@[1] != "01"@[1] || "02"@[0] != "01"@[0]);
            }
        } else if k == 2 {
            assert(numbers[k] == "03"@);
            assert(names[k] == "March"@);
            assert("03"@ != "01"@) by {
                assert("03"@[1] != "01"@[1] || "03"@[0] != "01"@[0]);
            }
            assert("03"@ != "02"@) by {
                assert("03"@[1] != "02"@[1] || "03"@[0] != "02"@[0]);
            }
        } else if k == 3 {
            assert(numbers[k] == "04"@);
            assert(names[k] == "April"@);
            assert("04"@ != "01"@) by {
                assert("04"@[1] != "01"@[1] || "04"@[0] != "01"@[0]);
            }
            assert("04"@ != "02"@) by {
                assert("04"@[1] != "02"@[1] || "04"@[0] != "02"@[0]);
            }
            assert("04"@ != "03"@) by {
                assert("04"@[1] != "03"@[1] || "04"@[0] != "03"@[0]);
            }
        } else if k == 4 {
            assert(numbers[k] == "05"@);
            assert(names[k] == "May"@);
            assert("05"@ != "01"@) by {
                assert("05"@[1] != "01"@[1] || "05"@[0] != "01"@[0]);
            }
            assert("05"@ != "02"@) by {
                assert("05"@[1] != "02"@[1] || "05"@[0] != "02"@[0]);
            }
            assert("05"@ != "03"@) by {
                assert("05"@[1] != "03"@[1] || "05"@[0] != "03"@[0]);
            }
            assert("05"@ != "04"@) by {
                assert("05"@[1] != "04"@[1] || "05"@[0] != "04"@[0]);
            }
        } else if k == 5 {
            assert(numbers[k] == "06"@);
            assert(names[k] == "June"@);
            assert("06"@ != "01"@) by {
                assert("06"@[1] != "01"@[1] || "06"@[0] != "01"@[0]);
            }
            assert("06"@ != "02"@) by {
                assert("06"@[1] != "02"@[1] || "06"@[0] != "02"@[0]);
            }
            assert("06"@ != "03"@) by {
                assert("06"@[1] != "03"@[1] || "06"@[0] != "03"@[0]);
            }
            assert("06"@ != "04"@) by {
                assert("06"@[1] != "04"@[1] || "06"@[0] != "04"@[0]);
            }
            assert("06"@ != "05"@) by {
                assert("06"@[1] != "05"@[1] || "06"@[0] != "05"@[0]);
            }
        } else if k == 6 {
            assert(numbers[k] == "07"@);
            assert(names[k] == "July"@);
            assert("07"@ != "01"@) by {
                assert("07"@[1] != "01"@[1] || "07"@[0] != "01"@[0]);
            }
            assert("07"@ != "02"@) by {
                assert("07"@[1] != "02"@[1] || "07"@[0] != "02"@[0]);
            }
            assert("07"@ != "03"@) by {
                assert("07"@[1] != "03"@[1] || "07"@[0] != "03"@[0]);
            }
            assert("07"@ != "04"@) by {
                assert("07"@[1] != "04"@[1] || "07"@[0] != "04"@[0]);
            }
            assert("07"@ != "05"@) by {
                assert("07"@[1] != "05"@[1] || "07"@[0] != "05"@[0]);
            }
            assert("07"@ != "06"@) by {
                assert("07"@[1] != "06"@[1] || "07"@[0] != "06"@[0]);
            }
        } else if k == 7 {
            assert(numbers[k] == "08"@);
            assert(names[k] == "August"@);
            assert("08"@ != "01"@) by {
                assert("08"@[1] != "01"@[1] || "08"@[0] != "01"@[0]);
            }
            assert("08"@ != "02"@) by {
                assert("08"@[1] != "02"@[1] || "08"@[0] != "02"@[0]);
            }
            assert("08"@ != "03"@) by {
                assert("08"@[1] != "03"@[1] || "08"@[0] != "03"@[0]);
            }
            assert("08"@ != "04"@) by {
                assert("08"@[1] != "04"@[1] || "08"@[0] != "04"@[0]);
            }
            assert("08"@ != "05"@) by {
                assert("08"@[1] != "05"@[1] || "08"@[0] != "05"@[0]);
            }
            assert("08"@ != "06"@) by {
                assert("08"@[1] != "06"@[1] || "08"@[0] != "06"@[0]);
            }
            assert("08"@ != "07"@) by {
                assert("08"@[1] != "07"@[1] || "08"@[0] != "07"@[0]);
            }
        } else if k == 8 {
            assert(numbers[k] == "09"@);
            assert(names[k] == "September"@);
            assert("09"@ != "01"@) by {
                assert("09"@[1] != "01"@[1] || "09"@[0] != "01"@[0]);
            }
            assert("09"@ != "02"@) by {
                assert("09"@[1] != "02"@[1] || "09"@[0] != "02"@[0]);
            }
            assert("09"@ != "03"@) by {
                assert("09"@[1] != "03"@[1] || "09"@[0] != "03"@[0]);
            }
            assert("09"@ != "04"@) by {
                assert("09"@[1] != "04"@[1] || "09"@[0] != "04"@[0]);
            }
            assert("09"@ != "05"@) by {
                assert("09"@[1] != "05"@[1] || "09"@[0] != "05"@[0]);
            }
            assert("09"@ != "06"@) by {
                assert("09"@[1] != "06"@[1] || "09"@[0] != "06"@[0]);
            }
            assert("09"@ != "07"@) by {
                assert("09"@[1] != "07"@[1] || "09"@[0] != "07"@[0]);
            }
            assert("09"@ != "08"@) by {
                assert("09"@[1] != "08"@[1] || "09"@[0] != "08"@[0]);
            }
        } else if k == 9 {
            assert(numbers[k] == "10"@);
            assert(names[k] == "October"@);
            assert("10"@ != "01"@) by {
                assert("10"@[1] != "01"@[1] || "10"@[0] != "01"@[0]);
            }
            assert("10"@ != "02"@) by {
                assert("10"@[1] != "02"@[1] || "10"@[0] != "02"@[0]);
            }
            assert("10"@ != "03"@) by {
                assert("10"@[1] != "03"@[1] || "10"@[0] != "03"@[0]);
            }
            assert("10"@ != "04"@) by {
                assert("10"@[1] != "04"@[1] || "10"@[0] != "04"@[0]);
            }
            assert("10"@ != "05"@) by {
                assert("10"@[1] != "05"@[1] || "10"@[0] != "05"@[0]);
            }
            assert("10"@ != "06"@) by {
                assert("10"@[1] != "06"@[1] || "10"@[0] != "06"@[0]);
            }
            assert("10"@ != "07"@) by {
                assert("10"@[1] != "07"@[1] || "10"@[0] != "07"@[0]);
            }
            assert("10"@ != "08"@) by {
                assert("10"@[1] != "08"@[1] || "10"@[0] != "08"@[0]);
            }
            assert("10"@ != "09"@) by {
                assert("10"@[1] != "09"@[1] || "10"@[0] != "09"@[0]);
            }
        } else if k == 10 {
            assert(numbers[k] == "11"@);
            assert(names[k] == "November"@);
            assert("11"@ != "01"@) by {
                assert("11"@[1] != "01"@[1] || "11"@[0] != "01"@[0]);
            }
            assert("11"@ != "02"@) by {
                assert("11"@[1] != "02"@[1] || "11"@[0] != "02"@[0]);
            }
            assert("11"@ != "03"@) by {
                assert("11"@[1] != "03"@[1] || "11"@[0] != "03"@[0]);
            }
            assert("11"@ != "04"@) by {
                assert("11"@[1] != "04"@[1] || "11"@[0] != "04"@[0]);
            }
            assert("11"@ != "05"@) by {
                assert("11"@[1] != "05"@[1] || "11"@[0] != "05"@[0]);
            }
            assert("11"@ != "06"@) by {
                assert("11"@[1] != "06"@[1] || "11"@[0] != "06"@[0]);
            }
            assert("11"@ != "07"@) by {
                assert("11"@[1] != "07"@[1] || "11"@[0] != "07"@[0]);
            }
            assert("11"@ != "08"@) by {
                assert("11"@[1] != "08"@[1] || "11"@[0] != "08"@[0]);
            }
            assert("11"@ != "09"@) by {
                assert("11"@[1] != "09"@[1] || "11"@[0] != "09"@[0]);
            }
            assert("11"@ != "10"@) by {
                assert("11"@[1] != "10"@[1] || "11"@[0] != "10"@[0]);
            }
        } else {
            assert(numbers[k] == "12"@);
            assert(names[k] == "December"@);
            assert("12"@ != "01"@) by {
                assert("12"@[1] != "01"@[1] || "12"@[0] != "01"@[0]);
            }
            assert("12"@ != "02"@) by {
                assert("12"@[1] != "02"@[1] || "12"@[0] != "02"@[0]);
            }
            assert("12"@ != "03"@) by {
                assert("12"@[1] != "03"@[1] || "12"@[0] != "03"@[0]);
            }
            assert("12"@ != "04"@) by {
                assert("12"@[1] != "04"@[1] || "12"@[0] != "04"@[0]);
            }
            assert("12"@ != "05"@) by {
                assert("12"@[1] != "05"@[1] || "12"@[0] != "05"@[0]);
            }
            assert("12"@ != "06"@) by {
                assert("12"@[1] != "06"@[1] || "12"@[0] != "06"@[0]);
            }
            assert("12"@ != "07"@) by {
                assert("12"@[1] != "07"@[1] || "12"@[0] != "07"@[0]);
            }
            assert("12"@ != "08"@) by {
                assert("12"@[1] != "08"@[1] || "12"@[0] != "08"@[0]);
            }
            assert("12"@ != "09"@) by {
                assert("12"@[1] != "09"@[1] || "12"@[0] != "09"@[0]);
            }
            assert("12"@ != "10"@) by {
                assert("12"@[1] != "10"@[1] || "12"@[0] != "10"@[0]);
            }
            assert("12"@ != "11"@) by {
                assert("12"@[1] != "11"@[1] || "12"@[0] != "11"@[0]);
            }
        }
    }
    if forall|k: int| 0 <= k < 12 ==> m != #[trigger] numbers[k] {
        assert(m != numbers[0]);
        assert(m != numbers[1]);
        assert(m != numbers[2]);
        assert(m != numbers[3]);
        assert(m != numbers[4]);
        assert(m != numbers[5]);
        assert(m != numbers[6]);
        assert(m != numbers[7]);
        assert(m != numbers[8]);
        assert(m != numbers[9]);
        assert(m != numbers[10]);
        assert(m != numbers[11]);
    }
}

/// Whether `d` is a day written with a leading zero: `01` to `09`.
pub open spec fn zero_padded_day(d: Seq<char>) -> bool {
    &&& d.len() == 2
    &&& d[0] == '0'
    &&& (d[1] == '1' || d[1] == '2' || d[1] == '3' || d[1] == '4' || d[1] == '5' || d[1] == '6'
        || d[1] == '7' || d[1] == '8' || d[1] == '9')
}

/// A day `01` to `09` reads as its digit without the zero and with its
/// English suffix (`1st`, `2nd`, `3rd`, `4th` ... `9th`); every other day
/// text, `10` to `31` among them, reads as itself followed by `th`.
pub proof fn law_day_ordinals(d: Seq<char>)
    ensures
        zero_padded_day(d) ==> day_ordinal(d) == seq![d[1]] + (if d[1] == '1' {
            "st"@
        } else if d[1] == '2' {
            "nd"@
        } else if d[1] == '3' {
            "rd"@
        } else {
            "th"@
        }),
        !zero_padded_day(d) ==> day_ordinal(d) == d + "th"@,
{
    reveal_strlit("01");
    reveal_strlit("02");
    reveal_strlit("03");
    reveal_strlit("04");
    reveal_strlit("05");
    reveal_strlit("06");
    reveal_strlit("07");
    reveal_strlit("08");
    reveal_strlit("09");
    reveal_strlit("1st");
    reveal_strlit("2nd");
    reveal_strlit("3rd");
    reveal_strlit("4th");
    reveal_strlit("5th");
    reveal_strlit("6th");
    reveal_strlit("7th");
    reveal_strlit("8th");
    reveal_strlit("9th");
    reveal_strlit("st");
    reveal_strlit("nd");
    reveal_strlit("rd");
    reveal_strlit("th");
    if zero_padded_day(d) {
        let c = d[1];
        if c == '1' {
            assert(d =~= "01"@);
            assert("1st"@ =~= seq![c] + "st"@);
        } else if c == '2' {
            assert(d =~= "02"@);
            assert("2nd"@ =~= seq![c] + "nd"@);
        } else if c == '3' {
            assert(d =~= "03"@);
            assert("3rd"@ =~= seq![c] + "rd"@);
        } else if c == '4' {
            assert(d =~= "04"@);
            assert("4th"@ =~= seq![c] + "th"@);
        } else if c == '5' {
            assert(d =~= "05"@);
            assert("5th"@ =~= seq![c] + "th"@);
        } else if c == '6' {
            assert(d =~= "06"@);
            assert("6th"@ =~= seq![c] + "th"@);
        } else if c == '7' {
            assert(d =~= "07"@);
            assert("7th"@ =~= seq![c] + "th"@);
        } else if c == '8' {
            assert(d =~= "08"@);
            assert("8th"@ =~= seq![c] + "th"@);
        } else {
            assert(c == '9');
            assert(d =~= "09"@);
            assert("9th"@ =~= seq![c] + "th"@);
        }
    } else {
        assert(d != "01"@);
        assert(d != "02"@);
        assert(d != "03"@);
        assert(d != "04"@);
        assert(d != "05"@);
        assert(d != "06"@);
        assert(d != "07"@);
        assert(d != "08"@);
        assert(d != "09"@);
    }
}

/// Whether `s` holds none of the characters that separate a timestamp's parts.
pub open spec fn plain_part(s: Seq<char>) -> bool {
    forall|i: int| 0 <= i < s.len() ==> #[trigger] s[i] != '-' && s[i] != 'T' && s[i] != ' '
}

proof fn lemma_replace_none(s: Seq<char>, from: char, to: char)
    ensures
        replace_first(s, from, to, 0) == s,
    decreases s.len(),
{
    if s.len() > 0 {
        lemma_replace_none(s.drop_first(), from, to);
        assert(seq![s[0]] + s.drop_first() =~= s);
    }
}

proof fn lemma_replace_skips(a: Seq<char>, b: Seq<char>, from: char, to: char, n: nat)
    requires
        forall|i: int| 0 <= i < a.len() ==> #[trigger] a[i] != from,
    ensures
        replace_first(a + b, from, to, n) == a + replace_first(b, from, to, n),
    decreases a.len(),
{
    if a.len() > 0 {
        assert((a + b).drop_first() =~= a.drop_first() + b);
        lemma_replace_skips(a.drop_first(), b, from, to, n);
        assert(seq![a[0]] + (a.drop_first() + replace_first(b, from, to, n)) =~= a + replace_first(
            b,
            from,
            to,
            n,
        ));
    } else {
        assert(a + b =~= b);
        assert(a + replace_first(b, from, to, n) =~= replace_first(b, from, to, n));
    }
}

proof fn lemma_replace_hit(b: Seq<char>, from: char, to: char, n: nat)
    requires
        n > 0,
    ensures
        replace_first(seq![from] + b, from, to, n) == seq![to] + replace_first(b, from, to, (n - 1) as nat),
{
    assert((seq![from] + b).drop_first() =~= b);
}

proof fn lemma_find_skips(s: Seq<char>, c: char, i: int, j: int)
    requires
        0 <= i <= j < s.len(),
        s[j] == c,
        forall|k: int| i <= k < j ==> s[k] != c,
    ensures
        find_from(s, c, i) == j,
    decreases j - i,
{
    if i < j {
        lemma_find_skips(s, c, i + 1, j);
    }
}

/// A timestamp `year-month-dayTrest`, whose year, month and day hold no
/// separator, reads as its month's name, its day as an ordinal, and its year,
/// whatever follows the `T`.
pub proof fn law_format_date_reads_timestamps(
    year: Seq<char>,
    month: Seq<char>,
    day: Seq<char>,
    rest: Seq<char>,
)
    requires
        plain_part(year),
        plain_part(month),
        plain_part(day),
    ensures
        ({
            let date = year + seq!['-'] + month + seq!['-'] + day + seq!['T'] + rest;
            &&& date_readable(date)
            &&& readable_date(date) == month_name(month) + " "@ + day_ordinal(day) + ", "@ + year
        }),
{
    let date = year + seq!['-'] + month + seq!['-'] + day + seq!['T'] + rest;
    let dashes = replace_first(rest, '-', ' ', 1);
    // the three dashes: two in the date, the third (if any) in what follows
    let a = seq!['-'] + month + seq!['-'] + day + seq!['T'] + rest;
    let b = month + seq!['-'] + day + seq!['T'] + rest;
    let c = seq!['-'] + day + seq!['T'] + rest;
    let d = day + seq!['T'] + rest;
    assert(date =~= year + a);
    assert(a =~= seq!['-'] + b);
    assert(b =~= month + c);
    assert(c =~= seq!['-'] + d);
    assert(d =~= (day + seq!['T']) + rest);
    lemma_replace_skips(year, a, '-', ' ', 3);
    lemma_replace_hit(b, '-', ' ', 3);
    lemma_replace_skips(month, c, '-', ' ', 2);
    lemma_replace_hit(d, '-', ' ', 2);
    lemma_replace_skips(day + seq!['T'], rest, '-', ' ', 1);
    assert(replace_first(d, '-', ' ', 1) == (day + seq!['T']) + dashes);
    assert(replace_first(c, '-', ' ', 2) == seq![' '] + ((day + seq!['T']) + dashes));
    assert(replace_first(b, '-', ' ', 2) == month + (seq![' '] + ((day + seq!['T']) + dashes)));
    assert(replace_first(a, '-', ' ', 3) == seq![' '] + (month + (seq![' '] + ((day + seq!['T'])
        + dashes))));
    let t1 = year + seq![' '] + month + seq![' '] + day + seq!['T'] + dashes;
    assert(replace_first(date, '-', ' ', 3) == year + (seq![' '] + (month + (seq![' '] + ((day
        + seq!['T']) + dashes)))));
    assert(replace_first(date, '-', ' ', 3) =~= t1);
    // the first `T`
    let lead = year + seq![' '] + month + seq![' '] + day;
    lemma_replace_skips(lead, seq!['T'] + dashes, 'T', ' ', 1);
    assert(t1 =~= lead + (seq!['T'] + dashes));
    lemma_replace_hit(dashes, 'T', ' ', 1);
    lemma_replace_none(dashes, 'T', ' ');
    let t = lead + seq![' '] + dashes;
    assert(replace_first(t1, 'T', ' ', 1) =~= t);
    // the pieces
    let p1 = year.len() as int;
    let p2 = p1 + 1 + month.len();
    let p3 = p2 + 1 + day.len();
    assert(t[p1] == ' ');
    assert(t[p2] == ' ');
    assert(t[p3] == ' ');
    assert forall|k: int| 0 <= k < p1 implies t[k] != ' ' by {
        assert(t[k] == year[k]);
    }
    assert forall|k: int| p1 + 1 <= k < p2 implies t[k] != ' ' by {
        assert(t[k] == month[k - p1 - 1]);
    }
    assert forall|k: int| p2 + 1 <= k < p3 implies t[k] != ' ' by {
        assert(t[k] == day[k - p2 - 1]);
    }
    lemma_find_skips(t, ' ', 0, p1);
    lemma_find_skips(t, ' ', p1 + 1, p2);
    lemma_find_skips(t, ' ', p2 + 1, p3);
    lemma_split_three(t, ' ');
    assert(t.subrange(0, p1) =~= year);
    assert(t.subrange(p1 + 1, p2) =~= month);
    assert(t.subrange(p2 + 1, p3) =~= day);
}

} // verus!
