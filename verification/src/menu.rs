//! Reading the user's menu choice and deciding what the menu does with it.
use vstd::prelude::*;

use crate::text::{chars_of, decimal, digit_char};

verus! {

/// The choice that stands for a line that holds no number.
pub const NO_CHOICE: u32 = 1000000000;

/// Unicode white space (`char::is_whitespace`).
pub open spec fn is_white_space(c: char) -> bool {
    let u = c as u32;
    ||| 0x9 <= u <= 0xD
    ||| u == 0x20
    ||| u == 0x85
    ||| u == 0xA0
    ||| u == 0x1680
    ||| 0x2000 <= u <= 0x200A
    ||| u == 0x2028
    ||| u == 0x2029
    ||| u == 0x202F
    ||| u == 0x205F
    ||| u == 0x3000
}

/// The index of the first character at or after `i` that is not white space.
pub open spec fn trim_start_from(s: Seq<char>, i: int) -> int
    decreases s.len() - i,
{
    if i >= s.len() {
        s.len() as int
    } else if is_white_space(s[i]) {
        trim_start_from(s, i + 1)
    } else {
        i
    }
}

/// One past the index of the last character before `j` that is not white space.
pub open spec fn trim_end_from(s: Seq<char>, j: int) -> int
    decreases j,
{
    if j <= 0 {
        0
    } else if is_white_space(s[j - 1]) {
        trim_end_from(s, j - 1)
    } else {
        j
    }
}

/// `s` without its leading and trailing white space (`str::trim`).
pub open spec fn trimmed(s: Seq<char>) -> Seq<char> {
    let a = trim_start_from(s, 0);
    let b = trim_end_from(s, s.len() as int);
    if a < b {
        s.subrange(a, b)
    } else {
        Seq::empty()
    }
}

/// Whether `c` is an ASCII decimal digit.
pub open spec fn is_digit(c: char) -> bool {
    48 <= (c as u32) <= 57
}

/// The value of a digit character.
pub open spec fn digit_value(c: char) -> int {
    (c as u32) - 48
}

/// The value of a string of decimal digits.
pub open spec fn digits_value(d: Seq<char>) -> int
    decreases d.len(),
{
    if d.len() == 0 {
        0
    } else {
        digits_value(d.drop_last()) * 10 + digit_value(d.last())
    }
}

/// What follows an optional leading `+`.
pub open spec fn unsigned_digits(s: Seq<char>) -> Seq<char> {
    if s.len() > 0 && s[0] == '+' {
        s.drop_first()
    } else {
        s
    }
}

/// `str::parse::<u32>`: an optional `+`, then one or more decimal digits
/// whose value fits in a `u32`.
pub open spec fn parse_u32(s: Seq<char>) -> Option<u32> {
    let d = unsigned_digits(s);
    if d.len() > 0 && (forall|i: int| 0 <= i < d.len() ==> is_digit(#[trigger] d[i]))
        && digits_value(d) <= u32::MAX {
        Some(digits_value(d) as u32)
    } else {
        None
    }
}

/// The number on an input line, or `NO_CHOICE` when the trimmed line is
/// not a number.
pub open spec fn choice_of(line: Seq<char>) -> u32 {
    match parse_u32(trimmed(line)) {
        Some(n) => n,
        None => NO_CHOICE,
    }
}

proof fn lemma_digits_nonneg(d: Seq<char>)
    requires
        forall|i: int| 0 <= i < d.len() ==> is_digit(#[trigger] d[i]),
    ensures
        digits_value(d) >= 0,
    decreases d.len(),
{
    if d.len() > 0 {
        lemma_digits_nonneg(d.drop_last());
    }
}

proof fn lemma_digits_prefix(d: Seq<char>, k: int)
    requires
        0 <= k <= d.len(),
        forall|i: int| 0 <= i < d.len() ==> is_digit(#[trigger] d[i]),
    ensures
        digits_value(d.take(k)) <= digits_value(d),
    decreases d.len() - k,
{
    if k < d.len() {
        lemma_digits_prefix(d, k + 1);
        assert(d.take(k + 1).drop_last() =~= d.take(k));
        lemma_digits_nonneg(d.take(k));
    } else {
        assert(d.take(k) =~= d);
    }
}

/// The number on a line the user typed, or `NO_CHOICE` when it holds none.
pub fn menu_choice(input_text: &str) -> (r: u32)
    ensures
        r == choice_of(input_text@),
{
    let s = chars_of(input_text);
    let n = s.len();
    let mut a: usize = 0;
    while a < n && is_white_space_char(s[a])
        invariant
            0 <= a <= n,
            n == s@.len(),
            trim_start_from(s@, 0) == trim_start_from(s@, a as int),
        decreases n - a,
    {
        a = a + 1;
    }
    let mut b: usize = n;
    while b > 0 && is_white_space_char(s[b - 1])
        invariant
            0 <= b <= n,
            n == s@.len(),
            trim_end_from(s@, n as int) == trim_end_from(s@, b as int),
        decreases b,
    {
        b = b - 1;
    }
    let ghost t = trimmed(s@);
    if a >= b {
        assert(t =~= Seq::<char>::empty());
        return NO_CHOICE;
    }
    assert(t =~= s@.subrange(a as int, b as int));
    let mut start = a;
    if s[a] == '+' {
        start = a + 1;
    }
    let ghost d = s@.subrange(start as int, b as int);
    assert(d =~= unsigned_digits(t));
    if start >= b {
        return NO_CHOICE;
    }
    let mut k: usize = start;
    let mut acc: u64 = 0;
    while k < b
        invariant
            start <= k <= b,
            b <= n,
            n == s@.len(),
            d == s@.subrange(start as int, b as int),
            d == unsigned_digits(trimmed(input_text@)),
            s@ == input_text@,
            forall|i: int| 0 <= i < k - start ==> is_digit(#[trigger] d[i]),
            acc == digits_value(d.take(k - start)),
            acc <= u32::MAX,
        decreases b - k,
    {
        let c = s[k];
        let code: u32 = c as u32;
        if code < 48 || code > 57 {
            assert(!is_digit(d[k - start]));
            return NO_CHOICE;
        }
        let next: u64 = acc * 10 + (code - 48) as u64;
        assert(d.take(k - start + 1).drop_last() =~= d.take(k - start));
        assert(d.take(k - start + 1).last() == d[k - start]);
        assert(next == digits_value(d.take(k - start + 1)));
        if next > 4294967295 {
            proof {
                if forall|i: int| 0 <= i < d.len() ==> is_digit(#[trigger] d[i]) {
                    lemma_digits_prefix(d, k - start + 1);
                }
            }
            return NO_CHOICE;
        }
        acc = next;
        k = k + 1;
    }
    assert(d.take(d.len() as int) =~= d);
    acc as u32
}

/// `char::is_whitespace`.
fn is_white_space_char(c: char) -> (r: bool)
    ensures
        r == is_white_space(c),
{
    let u: u32 = c as u32;
    (0x9 <= u && u <= 0xD) || u == 0x20 || u == 0x85 || u == 0xA0 || u == 0x1680 || (0x2000 <= u
        && u <= 0x200A) || u == 0x2028 || u == 0x2029 || u == 0x202F || u == 0x205F || u == 0x3000
}

proof fn lemma_decimal_digits(n: nat)
    ensures
        decimal(n).len() > 0,
        forall|i: int| 0 <= i < decimal(n).len() ==> is_digit(#[trigger] decimal(n)[i]),
        digits_value(decimal(n)) == n,
    decreases n,
{
    lemma_digit_char((n % 10) as int);
    if n >= 10 {
        lemma_decimal_digits(n / 10);
        let d = decimal(n);
        assert(d == decimal(n / 10).push(digit_char((n % 10) as int)));
        assert(d.drop_last() =~= decimal(n / 10));
        assert(d.last() == digit_char((n % 10) as int));
        assert(digits_value(d) == digits_value(decimal(n / 10)) * 10 + digit_value(d.last()));
        assert(digits_value(d) == (n / 10) * 10 + n % 10);
        assert(n == (n / 10) * 10 + n % 10);
    } else {
        let d = decimal(n);
        assert(d == seq![digit_char(n as int)]);
        assert(d.drop_last() =~= Seq::<char>::empty());
        assert(d.last() == digit_char(n as int));
        assert(digits_value(d) == digits_value(d.drop_last()) * 10 + digit_value(d.last()));
        assert(digits_value(Seq::<char>::empty()) == 0);
    }
}

proof fn lemma_digit_char(k: int)
    requires
        0 <= k < 10,
    ensures
        is_digit(digit_char(k)),
        digit_value(digit_char(k)) == k,
{
}

/// Reading back the decimal numeral of a number gives the number: a choice
/// typed as the digits of a `u32` is read as that `u32`, and white space
/// around it changes nothing.
pub proof fn law_menu_choice_reads_numerals(n: u32, before: Seq<char>, after: Seq<char>)
    requires
        forall|i: int| 0 <= i < before.len() ==> is_white_space(#[trigger] before[i]),
        forall|i: int| 0 <= i < after.len() ==> is_white_space(#[trigger] after[i]),
    ensures
        choice_of(before + decimal(n as nat) + after) == n,
{
    let d = decimal(n as nat);
    lemma_decimal_digits(n as nat);
    let s = before + d + after;
    assert forall|i: int| 0 <= i < d.len() implies !is_white_space(#[trigger] d[i]) by {
        assert(is_digit(d[i]));
    }
    lemma_trim_start_skips(s, before.len() as int, 0);
    lemma_trim_end_skips(s, (before.len() + d.len()) as int, s.len() as int);
    assert(s[before.len() as int] == d[0]);
    assert(s[before.len() + d.len() - 1] == d[d.len() - 1]);
    assert(trimmed(s) =~= d);
    assert(d[0] != '+') by {
        assert(is_digit(d[0]));
    }
    assert(unsigned_digits(d) == d);
}

proof fn lemma_trim_start_skips(s: Seq<char>, a: int, i: int)
    requires
        0 <= i <= a < s.len(),
        forall|k: int| i <= k < a ==> is_white_space(#[trigger] s[k]),
        !is_white_space(s[a]),
    ensures
        trim_start_from(s, i) == a,
    decreases a - i,
{
    if i < a {
        lemma_trim_start_skips(s, a, i + 1);
    }
}

proof fn lemma_trim_end_skips(s: Seq<char>, b: int, j: int)
    requires
        0 < b <= j <= s.len(),
        forall|k: int| b <= k < j ==> is_white_space(#[trigger] s[k]),
        !is_white_space(s[b - 1]),
    ensures
        trim_end_from(s, j) == b,
    decreases j - b,
{
    if j > b {
        lemma_trim_end_skips(s, b, j - 1);
    }
}

proof fn lemma_trim_start_from(s: Seq<char>, i: int)
    requires
        0 <= i <= s.len(),
    ensures
        i <= trim_start_from(s, i) <= s.len(),
        forall|k: int| i <= k < trim_start_from(s, i) ==> is_white_space(#[trigger] s[k]),
    decreases s.len() - i,
{
    if i < s.len() && is_white_space(s[i]) {
        lemma_trim_start_from(s, i + 1);
    }
}

proof fn lemma_trim_end_from(s: Seq<char>, j: int)
    requires
        0 <= j <= s.len(),
    ensures
        0 <= trim_end_from(s, j) <= j,
        forall|k: int| trim_end_from(s, j) <= k < j ==> is_white_space(#[trigger] s[k]),
    decreases j,
{
    if j > 0 && is_white_space(s[j - 1]) {
        lemma_trim_end_from(s, j - 1);
    }
}

/// A line that holds anything but white space, decimal digits and `+` is
/// no choice: letters, signs other than `+`, or punctuation are never read
/// as a number.
pub proof fn law_menu_choice_needs_digits(line: Seq<char>, k: int)
    requires
        0 <= k < line.len(),
        !is_white_space(line[k]),
        !is_digit(line[k]),
        line[k] != '+',
    ensures
        choice_of(line) == NO_CHOICE,
{
    let a = trim_start_from(line, 0);
    let b = trim_end_from(line, line.len() as int);
    lemma_trim_start_from(line, 0);
    lemma_trim_end_from(line, line.len() as int);
    if a < b {
        let t = line.subrange(a, b);
        assert(a <= k < b);
        let d = unsigned_digits(t);
        if t.len() > 0 && t[0] == '+' {
            assert(k > a);
            assert(d[k - a - 1] == line[k]);
        } else {
            assert(d[k - a] == line[k]);
        }
    }
}

/// What the main menu does next.
#[derive(Debug, PartialEq, Eq, Structural)]
pub enum MenuAction {
    /// The line held no number: ask again.
    AskAgain,
    /// Show the next match on the schedule.
    NextMatch,
    /// Ask for a team and show its record.
    TeamInfo,
    /// Show the league's rankings.
    Rankings,
    /// Close the tracker.
    Quit,
    /// A number that is on no menu entry.
    Invalid,
}

/// The menu's answer to a choice.
pub open spec fn spec_menu_action(choice: u32) -> MenuAction {
    if choice == NO_CHOICE {
        MenuAction::AskAgain
    } else if choice == 1 {
        MenuAction::NextMatch
    } else if choice == 2 {
        MenuAction::TeamInfo
    } else if choice == 3 {
        MenuAction::Rankings
    } else if choice == 4 {
        MenuAction::Quit
    } else {
        MenuAction::Invalid
    }
}

/// What the main menu does with a choice.
pub fn menu_action(choice: u32) -> (a: MenuAction)
    ensures
        a == spec_menu_action(choice),
{
    if choice == NO_CHOICE {
        MenuAction::AskAgain
    } else if choice == 1 {
        MenuAction::NextMatch
    } else if choice == 2 {
        MenuAction::TeamInfo
    } else if choice == 3 {
        MenuAction::Rankings
    } else if choice == 4 {
        MenuAction::Quit
    } else {
        MenuAction::Invalid
    }
}

/// The menu's entries: 1 shows the next match, 2 a team's record, 3 the
/// rankings, 4 closes the tracker; a line without a number asks again, and
/// every other number is an invalid selection.
pub proof fn law_menu_entries(choice: u32)
    ensures
        choice == 1 ==> spec_menu_action(choice) == MenuAction::NextMatch,
        choice == 2 ==> spec_menu_action(choice) == MenuAction::TeamInfo,
        choice == 3 ==> spec_menu_action(choice) == MenuAction::Rankings,
        choice == 4 ==> spec_menu_action(choice) == MenuAction::Quit,
        choice == 1000000000 ==> spec_menu_action(choice) == MenuAction::AskAgain,
        !(1 <= choice <= 4 || choice == 1000000000) ==> spec_menu_action(choice)
            == MenuAction::Invalid,
{
}

} // verus!
