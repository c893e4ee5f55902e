//! Text helpers: decimal numbers as text and back, substring search, joining.
use vstd::prelude::*;
use vstd::string::*;

verus! {

/// `std::string::String::push` appends the given character to the end of the string.
pub assume_specification[ String::push ](s: &mut String, c: char)
    ensures
        final(s)@ == old(s)@.push(c),
;

/// What `str::to_uppercase` makes of a text, by the Unicode case tables.
pub uninterp spec fn uppercase_of(text: Seq<char>) -> Seq<char>;

/// `str::to_uppercase`. Its result is a function of the text alone, here called
/// [`uppercase_of`]; nothing more is said of it.
#[verifier::external_body]
pub(crate) fn to_uppercase(text: &str) -> (upper: String)
    ensures
        upper@ == uppercase_of(text@),
{
    text.to_uppercase()
}

/// The character of a decimal digit.
pub open spec fn digit_char(digit: int) -> char {
    (digit + 48) as char
}

/// Whether `c` is one of `0` to `9`.
pub open spec fn is_digit(c: char) -> bool {
    '0' <= c && c <= '9'
}

/// The decimal digits of `n`, most significant first, without leading zeros.
pub open spec fn digits(n: nat) -> Seq<char>
    decreases n,
{
    if n < 10 {
        seq![digit_char(n as int)]
    } else {
        digits(n / 10).push(digit_char((n % 10) as int))
    }
}

/// The number that a run of decimal digits denotes.
pub open spec fn digits_value(s: Seq<char>) -> nat
    decreases s.len(),
{
    if s.len() == 0 {
        0
    } else {
        (digits_value(s.drop_last()) * 10 + (s.last() as int - 48)) as nat
    }
}

pub open spec fn all_digits(s: Seq<char>) -> bool {
    forall|i: int| 0 <= i < s.len() ==> is_digit(#[trigger] s[i])
}

/// A text without its leading plus sign, if it has one.
pub open spec fn without_plus(s: Seq<char>) -> Seq<char> {
    if s.len() > 0 && s[0] == '+' {
        s.skip(1)
    } else {
        s
    }
}

/// The unsigned number that a text denotes: an optional plus sign and at least one digit,
/// nothing else, of a value that 64 bits hold.
pub open spec fn unsigned_value(s: Seq<char>) -> Option<u64> {
    let body = without_plus(s);
    if body.len() > 0 && all_digits(body) && digits_value(body) <= u64::MAX {
        Some(digits_value(body) as u64)
    } else {
        None
    }
}

/// Whether `needle` occurs in `s`.
pub open spec fn contains_text(s: Seq<char>, needle: Seq<char>) -> bool {
    exists|i: int| #[trigger] occurs_at(s, needle, i)
}

/// Whether `needle` stands in `s` at position `i`.
pub open spec fn occurs_at(s: Seq<char>, needle: Seq<char>, i: int) -> bool {
    0 <= i && i + needle.len() <= s.len() && s.subrange(i, i + needle.len()) == needle
}

/// The position of the last `c` in `s`, or -1.
pub open spec fn last_position(s: Seq<char>, c: char) -> int
    decreases s.len(),
{
    if s.len() == 0 {
        -1
    } else if s.last() == c {
        s.len() - 1
    } else {
        last_position(s.drop_last(), c)
    }
}

/// The characters of a text.
pub fn characters(text: &str) -> (chars: Vec<char>)
    ensures
        chars@ == text@,
{
    let mut chars: Vec<char> = Vec::new();
    for c in it: text.chars()
        invariant
            it.seq() == text@,
            chars@ == text@.take(it.index() as int),
    {
        chars.push(c);
    }
    chars
}

/// Appends the decimal digits of `n`.
pub fn append_number(out: &mut String, n: u64)
    ensures
        final(out)@ == old(out)@ + digits(n as nat),
    decreases n,
{
    if n >= 10 {
        append_number(out, n / 10);
    }
    let digit: u8 = (n % 10) as u8;
    out.push((48 + digit) as char);
}

/// The decimal digits of `n`.
pub fn number_text(n: u64) -> (text: String)
    ensures
        text@ == digits(n as nat),
{
    let mut text = String::new();
    append_number(&mut text, n);
    text
}

/// A run of digits denotes at least what its beginning denotes.
proof fn lemma_digits_value_grows(s: Seq<char>, n: int)
    requires
        all_digits(s),
        0 <= n <= s.len(),
    ensures
        digits_value(s.take(n)) <= digits_value(s),
    decreases s.len(),
{
    if n == s.len() {
        assert(s.take(n) == s);
    } else {
        assert(s.drop_last().take(n) == s.take(n));
        assert(is_digit(s[s.len() - 1]));
        lemma_digits_value_grows(s.drop_last(), n);
    }
}

/// The unsigned number that `chars` denotes from position `start` on.
pub fn parse_unsigned(chars: &Vec<char>, start: usize) -> (number: Option<u64>)
    requires
        start <= chars.len(),
    ensures
        number == unsigned_value(chars@.skip(start as int)),
{
    let ghost tail = chars@.skip(start as int);
    let first: usize = if start < chars.len() && chars[start] == '+' {
        start + 1
    } else {
        start
    };
    let ghost body = without_plus(tail);
    assert(body =~= chars@.skip(first as int));
    if first == chars.len() {
        return None;
    }
    let mut value: u64 = 0;
    let mut i: usize = first;
    while i < chars.len()
        invariant
            first <= i <= chars.len(),
            tail == chars@.skip(start as int),
            body == chars@.skip(first as int),
            body == without_plus(tail),
            value == digits_value(body.take(i - first)),
            all_digits(body.take(i - first)),
        decreases chars.len() - i,
    {
        let c = chars[i];
        assert(body[i - first] == c);
        if !('0' <= c && c <= '9') {
            assert(!is_digit(body[i - first]));
            return None;
        }
        let digit: u64 = c as u64 - 48;
        let ghost seen = body.take(i + 1 - first);
        assert(seen.drop_last() == body.take(i - first));
        assert(seen.last() == c);
        assert(digits_value(seen) == value * 10 + digit);
        assert(all_digits(seen)) by {
            assert forall|j: int| 0 <= j < seen.len() implies is_digit(#[trigger] seen[j]) by {
                if j < i - first {
                    assert(body.take(i - first)[j] == seen[j]);
                }
            }
        }
        if value > (u64::MAX - digit) / 10 {
            proof {
                if all_digits(body) {
                    lemma_digits_value_grows(body, i + 1 - first);
                }
            }
            return None;
        }
        value = value * 10 + digit;
        i += 1;
    }
    assert(body.take(i - first) == body);
    Some(value)
}

/// Whether `needle` stands in `chars` at position `at`.
fn matches_at(chars: &Vec<char>, needle: &Vec<char>, at: usize) -> (found: bool)
    requires
        at + needle.len() <= chars.len(),
    ensures
        found == occurs_at(chars@, needle@, at as int),
{
    let mut i: usize = 0;
    while i < needle.len()
        invariant
            0 <= i <= needle.len(),
            at + needle.len() <= chars.len(),
            forall|j: int| 0 <= j < i ==> chars@[at + j] == #[trigger] needle@[j],
        decreases needle.len() - i,
    {
        if chars[at + i] != needle[i] {
            assert(chars@.subrange(at as int, at + needle.len())[i as int] != needle@[i as int]);
            return false;
        }
        i += 1;
    }
    assert(chars@.subrange(at as int, at + needle.len()) =~= needle@);
    true
}

/// Whether `needle` occurs in `text`.
pub fn contains(text: &str, needle: &str) -> (found: bool)
    ensures
        found == contains_text(text@, needle@),
{
    let chars = characters(text);
    let sought = characters(needle);
    if sought.len() > chars.len() {
        return false;
    }
    let last: usize = chars.len() - sought.len();
    let mut i: usize = 0;
    while i <= last
        invariant
            last + sought.len() == chars.len(),
            i <= last + 1,
            chars@ == text@,
            sought@ == needle@,
            forall|j: int| 0 <= j < i ==> !occurs_at(text@, needle@, j),
        decreases last + 1 - i,
    {
        if matches_at(&chars, &sought, i) {
            return true;
        }
        if i == last {
            assert forall|j: int| !occurs_at(text@, needle@, j) by {}
            return false;
        }
        i += 1;
    }
    false
}

/// Whether two texts are the same.
pub fn same_text(a: &str, b: &str) -> (same: bool)
    ensures
        same == (a@ == b@),
{
    let left = characters(a);
    let right = characters(b);
    if left.len() != right.len() {
        return false;
    }
    let same = matches_at(&left, &right, 0);
    assert(left@.subrange(0, right.len() as int) =~= left@);
    same
}

/// Two texts, one after the other.
pub fn joined(a: &str, b: &str) -> (text: String)
    ensures
        text@ == a@ + b@,
{
    let mut text = String::from_str(a);
    text.append(b);
    text
}

/// The position of the last `c` in `chars`, if there is one.
pub fn find_last(chars: &Vec<char>, c: char) -> (position: Option<usize>)
    ensures
        match position {
            Some(i) => i == last_position(chars@, c),
            None => last_position(chars@, c) == -1,
        },
{
    let mut end: usize = chars.len();
    assert(chars@.take(end as int) == chars@);
    while end > 0
        invariant
            end <= chars.len(),
            last_position(chars@, c) == last_position(chars@.take(end as int), c),
        decreases end,
    {
        assert(chars@.take(end as int).last() == chars@[end - 1]);
        assert(chars@.take(end as int).drop_last() == chars@.take(end - 1));
        if chars[end - 1] == c {
            return Some(end - 1);
        }
        end -= 1;
    }
    None
}

/// What the last position of a character means: it stands there and nowhere after.
pub proof fn last_position_is_last(s: Seq<char>, c: char)
    ensures
        -1 <= last_position(s, c) < s.len(),
        last_position(s, c) >= 0 ==> s[last_position(s, c)] == c,
        forall|i: int| last_position(s, c) < i < s.len() ==> s[i] != c,
    decreases s.len(),
{
    if s.len() > 0 && s.last() != c {
        last_position_is_last(s.drop_last(), c);
        assert forall|i: int| last_position(s, c) < i < s.len() implies s[i] != c by {
            if i < s.len() - 1 {
                assert(s.drop_last()[i] == s[i]);
            }
        }
    }
}

/// Writing a number and reading it back gives the number.
pub proof fn digits_round_trip(n: nat)
    ensures
        digits(n).len() > 0,
        all_digits(digits(n)),
        digits_value(digits(n)) == n,
    decreases n,
{
    reveal_with_fuel(digits_value, 2);
    if n < 10 {
        assert(digits(n).drop_last() =~= Seq::empty());
        assert(digits(n).last() == digit_char(n as int));
    } else {
        let front = digits(n / 10);
        digits_round_trip(n / 10);
        assert(digits(n).drop_last() =~= front);
        assert(digits(n).last() == digit_char((n % 10) as int));
        assert forall|i: int| 0 <= i < digits(n).len() implies is_digit(#[trigger] digits(n)[i]) by {
            if i < front.len() {
                assert(front[i] == digits(n)[i]);
            }
        }
    }
}

/// The text of a 64-bit number reads back as that number.
pub proof fn number_text_round_trip(n: u64)
    ensures
        unsigned_value(digits(n as nat)) == Some(n),
{
    digits_round_trip(n as nat);
    assert(is_digit(digits(n as nat)[0]));
}

/// A text is contained in another exactly where the other can be split around it.
pub proof fn contained_text_splits(before: Seq<char>, needle: Seq<char>, after: Seq<char>, s: Seq<char>)
    ensures
        contains_text(before + needle + after, needle),
        contains_text(s, needle) ==> exists|a: Seq<char>, b: Seq<char>|
            s == #[trigger] (a + needle + b),
{
    let whole = before + needle + after;
    let at = before.len() as int;
    assert(whole.subrange(at, at + needle.len()) =~= needle);
    assert(occurs_at(whole, needle, at));
    if contains_text(s, needle) {
        let i = choose|i: int| #[trigger] occurs_at(s, needle, i);
        let a = s.take(i);
        let b = s.skip(i + needle.len());
        assert(s =~= a + s.subrange(i, i + needle.len()) + b);
        assert(s == a + needle + b);
    }
}

} // verus!
