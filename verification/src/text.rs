//! Text helpers: the characters of a string, unsigned decimal numbers, the
//! parts of a file name and the lines of a text.

use vstd::prelude::*;

verus! {

/// The characters of `text`, in order.
pub fn chars_of(text: &str) -> (chars: Vec<char>)
    ensures
        chars@ == text@,
{
    let mut chars: Vec<char> = Vec::new();
    for c in it: text.chars()
        invariant
            it.seq() == text@,
            chars@ == text@.take(it.index() as int),
    {
        chars.push(c);
        assert(chars@ =~= text@.take(it.index() + 1));
    }
    assert(chars@ =~= text@);
    chars
}

/// Whether `c` is one of the ten decimal digits.
pub open spec fn is_digit(c: char) -> bool {
    '0' <= c && c <= '9'
}

/// Whether every character of `digits` is a decimal digit.
pub open spec fn all_digits(digits: Seq<char>) -> bool {
    forall|i: int| 0 <= i < digits.len() ==> is_digit(#[trigger] digits[i])
}

/// The number that the decimal digit `c` stands for.
pub open spec fn digit_of(c: char) -> nat {
    (c as int - '0' as int) as nat
}

/// The decimal digit that stands for `d`, which is below ten.
pub open spec fn digit_char(d: nat) -> char {
    if d == 0 {
        '0'
    } else if d == 1 {
        '1'
    } else if d == 2 {
        '2'
    } else if d == 3 {
        '3'
    } else if d == 4 {
        '4'
    } else if d == 5 {
        '5'
    } else if d == 6 {
        '6'
    } else if d == 7 {
        '7'
    } else if d == 8 {
        '8'
    } else {
        '9'
    }
}

/// The number that a run of decimal digits stands for; the empty run stands for zero.
pub open spec fn digits_value(digits: Seq<char>) -> nat
    decreases digits.len(),
{
    if digits.len() == 0 {
        0
    } else {
        digits_value(digits.drop_last()) * 10 + digit_of(digits.last())
    }
}

/// The number that `text` stands for: one or more decimal digits, which a
/// single `+` may precede. Nothing else stands for a number.
pub open spec fn unsigned_value(text: Seq<char>) -> Option<nat> {
    let digits = if text.len() > 0 && text[0] == '+' {
        text.skip(1)
    } else {
        text
    };
    if digits.len() > 0 && all_digits(digits) {
        Some(digits_value(digits))
    } else {
        None
    }
}

/// The 64-bit number that `text` stands for, if it stands for one that fits.
pub open spec fn u64_of_text(text: Seq<char>) -> Option<u64> {
    match unsigned_value(text) {
        Some(n) => if n <= u64::MAX {
            Some(n as u64)
        } else {
            None
        },
        None => None,
    }
}

/// The decimal digits of `n`, without leading zeros.
pub open spec fn decimal_text(n: nat) -> Seq<char>
    decreases n,
{
    if n < 10 {
        seq![digit_char(n)]
    } else {
        decimal_text(n / 10).push(digit_char(n % 10))
    }
}

/// A run of digits stands for at least as much as each of its beginnings.
pub proof fn lemma_digits_value_grows(digits: Seq<char>, k: int)
    requires
        0 <= k <= digits.len(),
    ensures
        digits_value(digits.take(k)) <= digits_value(digits),
    decreases digits.len(),
{
    if k == digits.len() {
        assert(digits.take(k) =~= digits);
    } else {
        lemma_digits_value_grows(digits.drop_last(), k);
        assert(digits.drop_last().take(k) =~= digits.take(k));
    }
}

/// The decimal digits of a number stand for that number.
pub proof fn lemma_decimal_text_value(n: nat)
    ensures
        decimal_text(n).len() > 0,
        all_digits(decimal_text(n)),
        digits_value(decimal_text(n)) == n,
        unsigned_value(decimal_text(n)) == Some(n),
    decreases n,
{
    if n < 10 {
        let text = decimal_text(n);
        assert(text.drop_last() =~= Seq::<char>::empty());
        assert(digits_value(text.drop_last()) == 0);
        assert(text.last() == digit_char(n));
    } else {
        lemma_decimal_text_value(n / 10);
        let text = decimal_text(n);
        assert(text.drop_last() =~= decimal_text(n / 10));
        assert(text.last() == digit_char(n % 10));
        assert(text[0] == decimal_text(n / 10)[0]);
    }
    assert(decimal_text(n)[0] != '+');
}

/// Reads an unsigned decimal number as `str::parse::<u64>` does: digits
/// only, a single leading `+` allowed, and no number that does not fit.
pub fn parse_u64(text: &str) -> (number: Option<u64>)
    ensures
        number == u64_of_text(text@),
{
    let chars = chars_of(text);
    let start: usize = if chars.len() > 0 && chars[0] == '+' {
        1
    } else {
        0
    };
    if start >= chars.len() {
        return None;
    }
    let ghost digits = chars@.skip(start as int);
    assert(chars@.skip(0) =~= chars@);
    let mut value: u64 = 0;
    let mut i: usize = start;
    assert(digits.take(0) =~= Seq::<char>::empty());
    while i < chars.len()
        invariant
            start <= i <= chars.len(),
            start < chars.len(),
            chars@ == text@,
            start == (if text@.len() > 0 && text@[0] == '+' {
                1int
            } else {
                0int
            }),
            digits == chars@.skip(start as int),
            digits =~= (if text@.len() > 0 && text@[0] == '+' {
                text@.skip(1)
            } else {
                text@
            }),
            all_digits(digits.take(i - start)),
            value == digits_value(digits.take(i - start)),
        decreases chars.len() - i,
    {
        let c = chars[i];
        assert(digits[i - start] == c);
        if !(c >= '0' && c <= '9') {
            assert(!is_digit(digits[i - start]));
            return None;
        }
        let d: u64 = (c as u32 - '0' as u32) as u64;
        let ghost next = digits.take(i - start + 1);
        assert(next.drop_last() =~= digits.take(i - start));
        assert(next.last() == c);
        assert(digits_value(next) == value * 10 + d);
        if value > (u64::MAX - d) / 10 {
            proof {
                lemma_digits_value_grows(digits, i - start + 1);
            }
            return None;
        }
        value = value * 10 + d;
        i = i + 1;
    }
    assert(digits.take(i - start) =~= digits);
    Some(value)
}

/// The text of the decimal digit that stands for `d`.
fn digit_text(d: u64) -> (text: &'static str)
    requires
        d < 10,
    ensures
        text@ == seq![digit_char(d as nat)],
{
    proof {
        reveal_strlit("0");
        reveal_strlit("1");
        reveal_strlit("2");
        reveal_strlit("3");
        reveal_strlit("4");
        reveal_strlit("5");
        reveal_strlit("6");
        reveal_strlit("7");
        reveal_strlit("8");
        reveal_strlit("9");
    }
    let text = if d == 0 {
        "0"
    } else if d == 1 {
        "1"
    } else if d == 2 {
        "2"
    } else if d == 3 {
        "3"
    } else if d == 4 {
        "4"
    } else if d == 5 {
        "5"
    } else if d == 6 {
        "6"
    } else if d == 7 {
        "7"
    } else if d == 8 {
        "8"
    } else {
        "9"
    };
    assert(text@ =~= seq![digit_char(d as nat)]);
    text
}

/// Writes `n` in decimal digits, as `u64::to_string` does.
pub fn decimal(n: u64) -> (text: String)
    ensures
        text@ == decimal_text(n as nat),
    decreases n,
{
    if n < 10 {
        digit_text(n).to_owned()
    } else {
        let mut text = decimal(n / 10);
        text.append(digit_text(n % 10));
        assert(text@ =~= decimal_text(n as nat));
        text
    }
}

/// The place of the last `.` in `name`, or -1 if it holds none.
pub open spec fn last_dot(name: Seq<char>) -> int
    decreases name.len(),
{
    if name.len() == 0 {
        -1
    } else if name.last() == '.' {
        name.len() - 1
    } else {
        last_dot(name.drop_last())
    }
}

/// Whether the file name `name` has an extension: it holds a `.` that is not
/// its first character, and it is not the name `..`.
pub open spec fn has_extension(name: Seq<char>) -> bool {
    last_dot(name) > 0 && name != seq!['.', '.']
}

/// The file name `name` without its extension.
pub open spec fn stem_of(name: Seq<char>) -> Seq<char> {
    if has_extension(name) {
        name.take(last_dot(name))
    } else {
        name
    }
}

/// The extension of the file name `name`: what follows its last `.`.
pub open spec fn extension_of(name: Seq<char>) -> Option<Seq<char>> {
    if has_extension(name) {
        Some(name.skip(last_dot(name) + 1))
    } else {
        None
    }
}

/// Where the last `.` of `chars` is, if it holds one.
fn find_last_dot(chars: &Vec<char>) -> (place: Option<usize>)
    ensures
        match place {
            Some(i) => i == last_dot(chars@),
            None => last_dot(chars@) == -1,
        },
        last_dot(chars@) < chars.len(),
{
    let mut i: usize = chars.len();
    assert(chars@.take(i as int) =~= chars@);
    while i > 0
        invariant
            i <= chars.len(),
            last_dot(chars@) == last_dot(chars@.take(i as int)),
        decreases i,
    {
        assert(chars@.take(i as int).last() == chars@[i - 1]);
        assert(chars@.take(i as int).drop_last() =~= chars@.take(i - 1));
        if chars[i - 1] == '.' {
            return Some(i - 1);
        }
        i = i - 1;
    }
    None
}

/// Whether `chars` is the name `..`.
fn is_dot_dot(chars: &Vec<char>) -> (yes: bool)
    ensures
        yes == (chars@ == seq!['.', '.']),
{
    let yes = chars.len() == 2 && chars[0] == '.' && chars[1] == '.';
    if yes {
        assert(chars@ =~= seq!['.', '.']);
    } else if chars.len() == 2 {
        assert(seq!['.', '.'][0] == '.' && seq!['.', '.'][1] == '.');
    } else {
        assert(seq!['.', '.'].len() == 2);
    }
    yes
}

/// The file name `name` without its extension, as `Path::file_stem` gives it
/// for a path of that one name.
pub fn file_stem(name: &str) -> (stem: String)
    ensures
        stem@ == stem_of(name@),
{
    let chars = chars_of(name);
    match find_last_dot(&chars) {
        Some(i) => {
            if i > 0 && !is_dot_dot(&chars) {
                name.substring_char(0, i).to_owned()
            } else {
                name.to_owned()
            }
        },
        None => name.to_owned(),
    }
}

/// The extension of the file name `name`, as `Path::extension` gives it for a
/// path of that one name.
pub fn extension(name: &str) -> (ext: Option<String>)
    ensures
        match ext {
            Some(e) => extension_of(name@) == Some(e@),
            None => extension_of(name@) is None,
        },
{
    let chars = chars_of(name);
    match find_last_dot(&chars) {
        Some(i) => {
            if i > 0 && !is_dot_dot(&chars) {
                Some(name.substring_char(i + 1, chars.len()).to_owned())
            } else {
                None
            }
        },
        None => None,
    }
}

/// The place of the first line feed in `text`, or its length if it holds none.
pub open spec fn line_break(text: Seq<char>) -> int
    decreases text.len(),
{
    if text.len() == 0 || text[0] == '\n' {
        0
    } else {
        1 + line_break(text.skip(1))
    }
}

/// The first line of `text` as `str::lines` gives it: what stands before the
/// first line feed, less a carriage return just before that line feed. A
/// text without a line feed is its own first line.
pub open spec fn first_line(text: Seq<char>) -> Seq<char> {
    let end = line_break(text);
    if 0 < end < text.len() && text[end - 1] == '\r' {
        text.take(end - 1)
    } else {
        text.take(end)
    }
}

/// What follows the first line feed of `text`; nothing if it holds none.
pub open spec fn after_first_line(text: Seq<char>) -> Seq<char> {
    let end = line_break(text);
    if end < text.len() {
        text.skip(end + 1)
    } else {
        Seq::empty()
    }
}

/// The second line of `text`, empty if it has none.
pub open spec fn second_line(text: Seq<char>) -> Seq<char> {
    first_line(after_first_line(text))
}

/// Where the line that starts at `from` ends: the place of the next line
/// feed, or the end of the text.
fn find_line_break(chars: &Vec<char>, from: usize) -> (end: usize)
    requires
        from <= chars.len(),
    ensures
        from <= end <= chars.len(),
        end - from == line_break(chars@.skip(from as int)),
{
    let mut i: usize = from;
    while i < chars.len() && chars[i] != '\n'
        invariant
            from <= i <= chars.len(),
            line_break(chars@.skip(from as int)) == (i - from) + line_break(chars@.skip(i as int)),
        decreases chars.len() - i,
    {
        assert(chars@.skip(i as int)[0] == chars@[i as int]);
        assert(chars@.skip(i as int).skip(1) =~= chars@.skip(i + 1));
        i = i + 1;
    }
    if i < chars.len() {
        assert(chars@.skip(i as int)[0] == chars@[i as int]);
    }
    i
}

/// The first and the second line of `text`, each empty where the text has
/// no such line.
pub fn first_two_lines(text: &str) -> (lines: (String, String))
    ensures
        lines.0@ == first_line(text@),
        lines.1@ == second_line(text@),
{
    let chars = chars_of(text);
    let len = chars.len();
    assert(chars@.skip(0) =~= text@);
    let end = find_line_break(&chars, 0);
    let stop: usize = if 0 < end && end < len && chars[end - 1] == '\r' {
        end - 1
    } else {
        end
    };
    let first = text.substring_char(0, stop).to_owned();
    assert(text@.subrange(0, stop as int) =~= text@.take(stop as int));
    if end >= len {
        let second = String::new();
        assert(first_line(Seq::<char>::empty()) =~= Seq::<char>::empty());
        return (first, second);
    }
    let start: usize = end + 1;
    let ghost rest = text@.skip(start as int);
    let end2 = find_line_break(&chars, start);
    let stop2: usize = if start < end2 && end2 < len && chars[end2 - 1] == '\r' {
        end2 - 1
    } else {
        end2
    };
    let second = text.substring_char(start, stop2).to_owned();
    assert(text@.subrange(start as int, stop2 as int) =~= rest.take(stop2 - start));
    if start < end2 && end2 < len {
        assert(rest[end2 - start - 1] == chars@[end2 - 1]);
    }
    (first, second)
}

} // verus!
