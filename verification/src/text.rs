//! Text as sequences of characters: prefixes and suffixes, the dictionary
//! order, decimal numerals and hexadecimal digits.

use vstd::prelude::*;
use vstd::string::*;
use vstd::utf8::is_scalar;

verus! {

/// `char::from_u32` of the standard library: the character with the given
/// code point, where the code point is a Unicode scalar value, and `None`
/// where it is not. Taken from the documentation of the function, not proved.
pub assume_specification[ char::from_u32 ](i: u32) -> (c: Option<char>)
    ensures
        c == if is_scalar(i) {
            Some(i as char)
        } else {
            None
        },
;

/// The characters of `text`, in order.
pub fn chars_of(text: &str) -> (chars: Vec<char>)
    ensures
        chars@ == text@,
{
    let mut chars: Vec<char> = Vec::new();
    for c in it: text.chars()
        invariant
            chars@ == it.seq().take(it.index()),
            it.seq() == text@,
    {
        chars.push(c);
    }
    chars
}

/// The texts held by `strings`, each as its sequence of characters.
pub open spec fn texts(strings: Seq<String>) -> Seq<Seq<char>> {
    strings.map_values(|s: String| s@)
}

/// A copy of `strings`, text by text.
pub fn clone_texts(strings: &Vec<String>) -> (copy: Vec<String>)
    ensures
        texts(copy@) == texts(strings@),
{
    let mut copy: Vec<String> = Vec::new();
    let mut i: usize = 0;
    while i < strings.len()
        invariant
            i <= strings@.len(),
            copy@.len() == i,
            texts(copy@) == texts(strings@).take(i as int),
        decreases strings@.len() - i,
    {
        let ghost before = texts(copy@);
        let text = strings[i].clone();
        assert(text@ == texts(strings@)[i as int]);
        copy.push(text);
        assert forall|j: int| 0 <= j < i + 1 implies texts(copy@)[j] == texts(strings@)[j] by {
            if j < i {
                assert(texts(copy@)[j] == before[j]);
            }
        }
        assert(texts(copy@) =~= texts(strings@).take(i + 1));
        i += 1;
    }
    assert(texts(strings@).take(i as int) =~= texts(strings@));
    copy
}

/// Whether one of `strings` holds the characters of `text`.
pub fn contains_text(strings: &Vec<String>, text: &String) -> (found: bool)
    ensures
        found == texts(strings@).contains(text@),
{
    let mut i: usize = 0;
    while i < strings.len()
        invariant
            i <= strings@.len(),
            forall|j: int| 0 <= j < i ==> texts(strings@)[j] != text@,
        decreases strings@.len() - i,
    {
        if strings[i] == *text {
            assert(texts(strings@)[i as int] == text@);
            return true;
        }
        i += 1;
    }
    false
}

/// Whether the characters of `part` stand in `whole` from position `at` on.
pub open spec fn occurs_at(part: Seq<char>, whole: Seq<char>, at: int) -> bool {
    &&& 0 <= at
    &&& at + part.len() <= whole.len()
    &&& forall|i: int| 0 <= i < part.len() ==> part[i] == whole[at + i]
}

/// Whether `part` stands in `whole` from position `at` on.
fn slice_occurs_at(part: &[char], whole: &[char], at: usize) -> (found: bool)
    requires
        at + part@.len() <= whole@.len(),
    ensures
        found == occurs_at(part@, whole@, at as int),
{
    let length: usize = part.len();
    let limit: usize = whole.len();
    let mut i: usize = 0;
    while i < length
        invariant
            i <= length == part@.len(),
            at + length <= limit == whole@.len(),
            forall|j: int| 0 <= j < i ==> part@[j] == whole@[at + j],
        decreases length - i,
    {
        if part[i] != whole[at + i] {
            return false;
        }
        i += 1;
    }
    true
}

/// Whether `text` begins with `prefix`. Every text begins with the empty one.
pub fn starts_with(text: &str, prefix: &str) -> (found: bool)
    ensures
        found == prefix@.is_prefix_of(text@),
{
    let whole = chars_of(text);
    let part = chars_of(prefix);
    if part.len() > whole.len() {
        return false;
    }
    slice_occurs_at(part.as_slice(), whole.as_slice(), 0)
}

/// Whether `text` ends with `suffix`. Every text ends with the empty one.
pub fn ends_with(text: &str, suffix: &str) -> (found: bool)
    ensures
        found == suffix@.is_suffix_of(text@),
{
    let whole = chars_of(text);
    let part = chars_of(suffix);
    if part.len() > whole.len() {
        return false;
    }
    slice_occurs_at(part.as_slice(), whole.as_slice(), whole.len() - part.len())
}

/// How one text stands to another in the dictionary order.
#[derive(Clone, Copy, Debug, PartialEq, Eq, Structural)]
pub enum TextOrder {
    /// The first text comes before the second.
    Before,
    /// The two texts hold the same characters.
    Same,
    /// The first text comes after the second.
    After,
}

/// Whether `a` and `b` hold the same characters before position `k`, where
/// `a` then ends or holds the smaller character.
pub open spec fn less_at(a: Seq<char>, b: Seq<char>, k: int) -> bool {
    &&& 0 <= k <= a.len()
    &&& k < b.len()
    &&& forall|i: int| 0 <= i < k ==> a[i] == b[i]
    &&& (k == a.len() || a[k] < b[k])
}

/// The dictionary order on texts, characters ordered by their code points:
/// `a` comes before `b` when `a` is a proper prefix of `b`, or holds the
/// smaller character where the two first differ.
pub open spec fn lex_less(a: Seq<char>, b: Seq<char>) -> bool {
    exists|k: int| less_at(a, b, k)
}

/// No text comes before itself, and of two texts at most one comes before the
/// other.
pub proof fn lemma_lex_asymmetric(a: Seq<char>, b: Seq<char>)
    ensures
        !(lex_less(a, b) && lex_less(b, a)),
        a == b ==> !lex_less(a, b),
{
    if lex_less(a, b) && lex_less(b, a) {
        let k = choose|k: int| less_at(a, b, k);
        let m = choose|m: int| less_at(b, a, m);
        if k < m {
            assert(b[k] == a[k]);
        } else if m < k {
            assert(a[m] == b[m]);
        }
    }
    if a == b && lex_less(a, b) {
        let k = choose|k: int| less_at(a, b, k);
    }
}

/// The dictionary order is transitive.
pub proof fn lemma_lex_transitive(a: Seq<char>, b: Seq<char>, c: Seq<char>)
    requires
        lex_less(a, b),
        lex_less(b, c),
    ensures
        lex_less(a, c),
{
    let k = choose|k: int| less_at(a, b, k);
    let m = choose|m: int| less_at(b, c, m);
    let n = if k <= m { k } else { m };
    assert forall|i: int| 0 <= i < n implies a[i] == c[i] by {
        assert(a[i] == b[i]);
        assert(b[i] == c[i]);
    }
    if k < m {
        assert(b[k] == c[k]);
    } else if m < k {
        assert(a[m] == b[m]);
    }
    assert(less_at(a, c, n));
}

/// Of two different texts one comes before the other.
pub proof fn lemma_lex_total(a: Seq<char>, b: Seq<char>)
    ensures
        a == b || lex_less(a, b) || lex_less(b, a),
{
    if exists|k: int| 0 <= k < a.len() && k < b.len() && a[k] != b[k] {
        let k = first_difference(a, b, 0);
        if a[k] < b[k] {
            assert(less_at(a, b, k));
        } else {
            assert(less_at(b, a, k));
        }
    } else if a.len() < b.len() {
        assert(less_at(a, b, a.len() as int));
    } else if b.len() < a.len() {
        assert(less_at(b, a, b.len() as int));
    } else {
        assert(a =~= b);
    }
}

/// The first position from `from` on where `a` and `b` differ.
proof fn first_difference(a: Seq<char>, b: Seq<char>, from: int) -> (k: int)
    requires
        0 <= from,
        forall|i: int| 0 <= i < from && i < a.len() && i < b.len() ==> a[i] == b[i],
        exists|i: int| 0 <= i < a.len() && i < b.len() && a[i] != b[i],
    ensures
        0 <= k < a.len(),
        k < b.len(),
        a[k] != b[k],
        forall|i: int| 0 <= i < k ==> a[i] == b[i],
    decreases a.len() - from,
{
    let witness = choose|i: int| 0 <= i < a.len() && i < b.len() && a[i] != b[i];
    assert(from <= witness);
    if a[from] != b[from] {
        from
    } else {
        first_difference(a, b, from + 1)
    }
}

/// Where `a` stands to `b` in the dictionary order.
pub fn compare(a: &str, b: &str) -> (order: TextOrder)
    ensures
        order == TextOrder::Before <==> lex_less(a@, b@),
        order == TextOrder::Same <==> a@ == b@,
        order == TextOrder::After <==> lex_less(b@, a@),
{
    let left = chars_of(a);
    let right = chars_of(b);
    proof {
        lemma_lex_asymmetric(a@, b@);
        lemma_lex_asymmetric(b@, a@);
    }
    let mut i: usize = 0;
    while i < left.len() && i < right.len()
        invariant
            i <= left@.len(),
            i <= right@.len(),
            left@ == a@,
            right@ == b@,
            !(lex_less(a@, b@) && lex_less(b@, a@)),
            a@ == b@ ==> !lex_less(a@, b@) && !lex_less(b@, a@),
            forall|j: int| 0 <= j < i ==> left@[j] == right@[j],
        decreases left@.len() - i,
    {
        if left[i] < right[i] {
            assert(less_at(left@, right@, i as int));
            return TextOrder::Before;
        }
        if left[i] > right[i] {
            assert(less_at(right@, left@, i as int));
            return TextOrder::After;
        }
        i += 1;
    }
    if left.len() < right.len() {
        assert(less_at(left@, right@, i as int));
        TextOrder::Before
    } else if left.len() > right.len() {
        assert(less_at(right@, left@, i as int));
        TextOrder::After
    } else {
        assert(left@ =~= right@);
        TextOrder::Same
    }
}

/// Whether `c` is one of the ten decimal digits.
pub open spec fn is_decimal_digit(c: char) -> bool {
    '0' <= c <= '9'
}

/// The number that the decimal digit `c` stands for; 0 for another character.
pub open spec fn digit_value(c: char) -> nat {
    if is_decimal_digit(c) {
        (c as u32 - '0' as u32) as nat
    } else {
        0
    }
}

/// The number written by `digits` in base ten, the most significant first.
pub open spec fn decimal_value(digits: Seq<char>) -> nat
    decreases digits.len(),
{
    if digits.len() == 0 {
        0
    } else {
        10 * decimal_value(digits.drop_last()) + digit_value(digits.last())
    }
}

/// Whether `digits` is a decimal numeral: one digit or more, and digits only.
pub open spec fn is_numeral(digits: Seq<char>) -> bool {
    &&& digits.len() > 0
    &&& forall|i: int| 0 <= i < digits.len() ==> is_decimal_digit(#[trigger] digits[i])
}

/// `text` without a plus sign at its front.
pub open spec fn without_plus(text: Seq<char>) -> Seq<char> {
    if text.len() > 0 && text[0] == '+' {
        text.drop_first()
    } else {
        text
    }
}

/// The number that `text` denotes as an unsigned 32-bit integer: a decimal
/// numeral, with or without a plus sign before it, whose value fits. Leading
/// zeros are allowed; spaces, a minus sign and an empty numeral are not.
pub open spec fn parsed_u32(text: Seq<char>) -> Option<u32> {
    let digits = without_plus(text);
    if is_numeral(digits) && decimal_value(digits) <= u32::MAX {
        Some(decimal_value(digits) as u32)
    } else {
        None
    }
}

/// A numeral is worth at least as much as any of its beginnings.
proof fn lemma_decimal_value_grows(digits: Seq<char>, k: int)
    requires
        0 <= k <= digits.len(),
    ensures
        decimal_value(digits.take(k)) <= decimal_value(digits),
    decreases digits.len(),
{
    if k == digits.len() {
        assert(digits.take(k) =~= digits);
    } else {
        lemma_decimal_value_grows(digits.drop_last(), k);
        assert(digits.drop_last().take(k) =~= digits.take(k));
    }
}

/// Reads `text` as an unsigned 32-bit integer in base ten.
pub fn parse_u32(text: &str) -> (value: Option<u32>)
    ensures
        value == parsed_u32(text@),
{
    let chars = chars_of(text);
    let count: usize = chars.len();
    let first: usize = if count > 0 && chars[0] == '+' {
        1
    } else {
        0
    };
    let ghost digits = without_plus(text@);
    assert(digits =~= chars@.subrange(first as int, count as int));
    if first == count {
        return None;
    }
    let mut total: u64 = 0;
    let mut i: usize = first;
    while i < count
        invariant
            first <= i <= count == chars@.len(),
            first < count,
            digits == without_plus(text@),
            digits == chars@.subrange(first as int, count as int),
            forall|j: int| 0 <= j < i - first ==> is_decimal_digit(#[trigger] digits[j]),
            total == decimal_value(digits.take(i - first)),
            total <= u32::MAX,
        decreases count - i,
    {
        let c: char = chars[i];
        assert(c == digits[i - first]);
        if c < '0' || c > '9' {
            return None;
        }
        let digit: u64 = (c as u32 - '0' as u32) as u64;
        assert(digits.take(i + 1 - first).drop_last() =~= digits.take(i - first));
        total = total * 10 + digit;
        if total > u32::MAX as u64 {
            proof {
                lemma_decimal_value_grows(digits, i + 1 - first);
            }
            return None;
        }
        i += 1;
    }
    assert(digits.take(count - first) =~= digits);
    Some(total as u32)
}

/// 16 to the power of `exponent`.
pub open spec fn pow16(exponent: nat) -> nat
    decreases exponent,
{
    if exponent == 0 {
        1
    } else {
        16 * pow16((exponent - 1) as nat)
    }
}

/// The lowercase hexadecimal digit for `value`, which is below 16.
pub open spec fn hex_digit(value: nat) -> char {
    if value < 10 {
        ('0' as u32 + value) as char
    } else {
        ('a' as u32 + value - 10) as char
    }
}

/// `value` in lowercase hexadecimal with exactly `width` digits, the most
/// significant first: zeros in front where the value is short, and the lowest
/// `width` digits where it is long.
pub open spec fn hex_digits(value: nat, width: nat) -> Seq<char> {
    Seq::new(width, |i: int| hex_digit((value / pow16((width - 1 - i) as nat)) % 16))
}

/// The powers of 16 that fit in 32 bits.
fn power_of_16(exponent: usize) -> (power: u32)
    requires
        exponent < 8,
    ensures
        power == pow16(exponent as nat),
        power >= 1,
{
    proof {
        reveal_with_fuel(pow16, 9);
    }
    if exponent == 0 {
        0x1
    } else if exponent == 1 {
        0x10
    } else if exponent == 2 {
        0x100
    } else if exponent == 3 {
        0x1000
    } else if exponent == 4 {
        0x1_0000
    } else if exponent == 5 {
        0x10_0000
    } else if exponent == 6 {
        0x100_0000
    } else {
        0x1000_0000
    }
}

/// From the eighth power on, a power of 16 is above every 32-bit number.
proof fn lemma_pow16_large(exponent: nat)
    requires
        exponent >= 8,
    ensures
        pow16(exponent) > u32::MAX,
    decreases exponent,
{
    if exponent == 8 {
        reveal_with_fuel(pow16, 9);
    } else {
        lemma_pow16_large((exponent - 1) as nat);
    }
}

/// The text of one lowercase hexadecimal digit.
fn hex_digit_text(value: u32) -> (text: &'static str)
    requires
        value < 16,
    ensures
        text@ == seq![hex_digit(value as nat)],
{
    proof {
        reveal_strlit("0");
        reveal_strlit("1");
        reveal_strlit("2");
        reveal_strlit("3");
        reveal_strlit("4");
        reveal_strlit("5");
        reveal_strlit("6");
        reveal_strlit("7");
        reveal_strlit("8");
        reveal_strlit("9");
        reveal_strlit("a");
        reveal_strlit("b");
        reveal_strlit("c");
        reveal_strlit("d");
        reveal_strlit("e");
        reveal_strlit("f");
    }
    let text = if value == 0 {
        "0"
    } else if value == 1 {
        "1"
    } else if value == 2 {
        "2"
    } else if value == 3 {
        "3"
    } else if value == 4 {
        "4"
    } else if value == 5 {
        "5"
    } else if value == 6 {
        "6"
    } else if value == 7 {
        "7"
    } else if value == 8 {
        "8"
    } else if value == 9 {
        "9"
    } else if value == 10 {
        "a"
    } else if value == 11 {
        "b"
    } else if value == 12 {
        "c"
    } else if value == 13 {
        "d"
    } else if value == 14 {
        "e"
    } else {
        "f"
    };
    assert(text@ =~= seq![hex_digit(value as nat)]);
    text
}

/// Writes `value` in lowercase hexadecimal with exactly `width` digits.
pub fn hex_text(value: u32, width: usize) -> (text: String)
    ensures
        text@ == hex_digits(value as nat, width as nat),
{
    let mut text = String::new();
    let mut i: usize = 0;
    while i < width
        invariant
            i <= width,
            text@ == hex_digits(value as nat, width as nat).take(i as int),
        decreases width - i,
    {
        let exponent: usize = width - 1 - i;
        let digit: u32 = if exponent < 8 {
            (value / power_of_16(exponent)) % 16
        } else {
            proof {
                lemma_pow16_large(exponent as nat);
                assert(value as nat / pow16(exponent as nat) == 0) by (nonlinear_arith)
                    requires
                        value < pow16(exponent as nat),
                ;
            }
            0
        };
        text.append(hex_digit_text(digit));
        i += 1;
    }
    text
}

/// The decimal digit for `value`, which is below 10.
pub open spec fn decimal_digit(value: nat) -> char {
    ('0' as u32 + value) as char
}

/// `value` in base ten, the most significant digit first, without zeros in
/// front; one zero for 0.
pub open spec fn decimal_digits(value: nat) -> Seq<char>
    decreases value,
{
    if value < 10 {
        seq![decimal_digit(value)]
    } else {
        decimal_digits(value / 10).push(decimal_digit(value % 10))
    }
}

/// The text of one decimal digit.
fn decimal_digit_text(value: u32) -> (text: &'static str)
    requires
        value < 10,
    ensures
        text@ == seq![decimal_digit(value as nat)],
{
    let text = hex_digit_text(value);
    assert(hex_digit(value as nat) == decimal_digit(value as nat));
    text
}

/// Writes `value` in base ten.
pub fn decimal_text(value: u32) -> (text: String)
    ensures
        text@ == decimal_digits(value as nat),
{
    let mut low_first: Vec<u32> = Vec::new();
    let mut rest: u32 = value;
    let ghost mut written: Seq<char> = Seq::empty();
    while rest >= 10
        invariant
            decimal_digits(value as nat) == decimal_digits(rest as nat) + written,
            written.len() == low_first@.len(),
            forall|i: int|
                0 <= i < written.len() ==> low_first@[written.len() - 1 - i] < 10 && written[i]
                    == decimal_digit(#[trigger] low_first@[written.len() - 1 - i] as nat),
        decreases rest,
    {
        let digit: u32 = rest % 10;
        proof {
            let longer = seq![decimal_digit(digit as nat)] + written;
            assert(decimal_digits(rest as nat) + written =~= decimal_digits((rest / 10) as nat)
                + longer);
            assert forall|i: int| 0 <= i < longer.len() implies low_first@.push(digit)[longer.len()
                - 1 - i] < 10 && longer[i] == decimal_digit(
                #[trigger] low_first@.push(digit)[longer.len() - 1 - i] as nat,
            ) by {
                if i > 0 {
                    assert(written[i - 1] == decimal_digit(
                        low_first@[written.len() - 1 - (i - 1)] as nat,
                    ));
                }
            }
            written = longer;
        }
        low_first.push(digit);
        rest = rest / 10;
    }
    let mut text = String::new();
    text.append(decimal_digit_text(rest));
    let mut left: usize = low_first.len();
    while left > 0
        invariant
            left <= low_first@.len(),
            written.len() == low_first@.len(),
            forall|i: int|
                0 <= i < written.len() ==> low_first@[written.len() - 1 - i] < 10 && written[i]
                    == decimal_digit(#[trigger] low_first@[written.len() - 1 - i] as nat),
            text@ == decimal_digits(rest as nat) + written.take(written.len() - left),
        decreases left,
    {
        left -= 1;
        let ghost at = written.len() - 1 - left;
        assert(low_first@[written.len() - 1 - at] == low_first@[left as int]);
        text.append(decimal_digit_text(low_first[left]));
        assert(written.take(at + 1) =~= written.take(at).push(written[at]));
    }
    assert(written.take(written.len() as int) =~= written);
    text
}

/// Appending a character to a numeral multiplies its value by ten and adds
/// the character's digit.
proof fn lemma_decimal_value_push(digits: Seq<char>, c: char)
    ensures
        decimal_value(digits.push(c)) == 10 * decimal_value(digits) + digit_value(c),
{
    assert(digits.push(c).drop_last() =~= digits);
}

/// The decimal text of a number is a numeral without a sign, and its value is
/// the number.
pub proof fn lemma_decimal_digits_value(value: nat)
    ensures
        is_numeral(decimal_digits(value)),
        decimal_digits(value)[0] != '+',
        decimal_value(decimal_digits(value)) == value,
    decreases value,
{
    if value < 10 {
        lemma_decimal_value_push(Seq::empty(), decimal_digit(value));
        assert(Seq::<char>::empty().push(decimal_digit(value)) =~= decimal_digits(value));
    } else {
        lemma_decimal_digits_value(value / 10);
        lemma_decimal_value_push(decimal_digits(value / 10), decimal_digit(value % 10));
    }
}

/// A number that fits in 32 bits is read back from its decimal text.
pub proof fn lemma_parse_decimal_text(value: u32)
    ensures
        parsed_u32(decimal_digits(value as nat)) == Some(value),
{
    lemma_decimal_digits_value(value as nat);
}

/// The capital of a small letter of the English alphabet; any other character
/// as it is.
pub open spec fn ascii_upper(c: char) -> char {
    if 'a' <= c <= 'z' {
        (c as u32 - 32) as char
    } else {
        c
    }
}

/// `text` with its first character made a capital.
pub open spec fn capitalized(text: Seq<char>) -> Seq<char> {
    if text.len() == 0 {
        text
    } else {
        seq![ascii_upper(text[0])] + text.drop_first()
    }
}

/// The text of the capital of a small letter.
fn capital_text(letter: char) -> (text: &'static str)
    requires
        'a' <= letter <= 'z',
    ensures
        text@ == seq![ascii_upper(letter)],
{
    proof {
        reveal_strlit("A");
        reveal_strlit("B");
        reveal_strlit("C");
        reveal_strlit("D");
        reveal_strlit("E");
        reveal_strlit("F");
        reveal_strlit("G");
        reveal_strlit("H");
        reveal_strlit("I");
        reveal_strlit("J");
        reveal_strlit("K");
        reveal_strlit("L");
        reveal_strlit("M");
        reveal_strlit("N");
        reveal_strlit("O");
        reveal_strlit("P");
        reveal_strlit("Q");
        reveal_strlit("R");
        reveal_strlit("S");
        reveal_strlit("T");
        reveal_strlit("U");
        reveal_strlit("V");
        reveal_strlit("W");
        reveal_strlit("X");
        reveal_strlit("Y");
        reveal_strlit("Z");
    }
    let text = if letter == 'a' {
        "A"
    } else if letter == 'b' {
        "B"
    } else if letter == 'c' {
        "C"
    } else if letter == 'd' {
        "D"
    } else if letter == 'e' {
        "E"
    } else if letter == 'f' {
        "F"
    } else if letter == 'g' {
        "G"
    } else if letter == 'h' {
        "H"
    } else if letter == 'i' {
        "I"
    } else if letter == 'j' {
        "J"
    } else if letter == 'k' {
        "K"
    } else if letter == 'l' {
        "L"
    } else if letter == 'm' {
        "M"
    } else if letter == 'n' {
        "N"
    } else if letter == 'o' {
        "O"
    } else if letter == 'p' {
        "P"
    } else if letter == 'q' {
        "Q"
    } else if letter == 'r' {
        "R"
    } else if letter == 's' {
        "S"
    } else if letter == 't' {
        "T"
    } else if letter == 'u' {
        "U"
    } else if letter == 'v' {
        "V"
    } else if letter == 'w' {
        "W"
    } else if letter == 'x' {
        "X"
    } else if letter == 'y' {
        "Y"
    } else {
        "Z"
    };
    assert(text@ =~= seq![ascii_upper(letter)]);
    text
}

/// `text` with its first character made a capital, where that is a small
/// letter of the English alphabet; `text` as it is otherwise.
pub fn capitalized_string(text: &str) -> (result: String)
    ensures
        result@ == capitalized(text@),
{
    let chars = chars_of(text);
    if chars.len() == 0 {
        return String::new();
    }
    let first: char = chars[0];
    if first >= 'a' && first <= 'z' {
        let mut result = capital_text(first).to_owned();
        result.append(text.substring_char(1, chars.len()));
        assert(text@.subrange(1, text@.len() as int) =~= text@.drop_first());
        result
    } else {
        assert(capitalized(text@) =~= text@);
        text.to_owned()
    }
}

} // verus!
