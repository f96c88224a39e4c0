//! Text work that the rules of the pipeline are stated in: comparing, trimming, and
//! writing numbers out.
use vstd::prelude::*;
use vstd::string::*;

verus! {

/// The characters of `text`, in order.
pub fn chars_of(text: &str) -> (chars: Vec<char>)
    ensures
        chars@ == text@,
{
    let mut chars: Vec<char> = Vec::new();
    for c in iter: text.chars()
        invariant
            iter.seq() == text@,
            chars@ == text@.take(iter.index()),
    {
        proof {
            assert(text@.take(iter.index() + 1) =~= text@.take(iter.index()).push(c));
        }
        chars.push(c);
    }
    proof {
        assert(text@.take(text@.len() as int) =~= text@);
    }
    chars
}

/// Whether two texts are the same.
pub fn same(a: &str, b: &str) -> (equal: bool)
    ensures
        equal == (a@ == b@),
{
    let left: Vec<char> = chars_of(a);
    let right: Vec<char> = chars_of(b);
    if left.len() != right.len() {
        return false;
    }
    let mut i: usize = 0;
    while i < left.len()
        invariant
            i <= left.len(),
            left.len() == right.len(),
            left@ == a@,
            right@ == b@,
            forall|j: int| 0 <= j < i ==> left@[j] == right@[j],
        decreases left.len() - i,
    {
        if left[i] != right[i] {
            return false;
        }
        i += 1;
    }
    proof {
        assert(left@ =~= right@);
    }
    true
}

/// A character with ASCII capitals brought down to their small letters, as a code point.
pub open spec fn folded(c: char) -> u32 {
    if 'A' <= c <= 'Z' {
        (c as u32 + 32) as u32
    } else {
        c as u32
    }
}

/// Whether two texts are the same but for the case of ASCII letters.
pub open spec fn caseless_equal(a: Seq<char>, b: Seq<char>) -> bool {
    &&& a.len() == b.len()
    &&& forall|i: int| 0 <= i < a.len() ==> folded(#[trigger] a[i]) == folded(b[i])
}

/// [`folded`] of one character.
fn fold(c: char) -> (code: u32)
    ensures
        code == folded(c),
{
    let code: u32 = c as u32;
    if 65 <= code && code <= 90 {
        code + 32
    } else {
        code
    }
}

/// Whether two texts are the same but for the case of ASCII letters.
pub fn same_caseless(a: &str, b: &str) -> (equal: bool)
    ensures
        equal == caseless_equal(a@, b@),
{
    let left: Vec<char> = chars_of(a);
    let right: Vec<char> = chars_of(b);
    if left.len() != right.len() {
        return false;
    }
    let mut i: usize = 0;
    while i < left.len()
        invariant
            i <= left.len(),
            left.len() == right.len(),
            left@ == a@,
            right@ == b@,
            forall|j: int| 0 <= j < i ==> folded(#[trigger] a@[j]) == folded(b@[j]),
        decreases left.len() - i,
    {
        if fold(left[i]) != fold(right[i]) {
            proof {
                assert(folded(a@[i as int]) != folded(b@[i as int]));
            }
            return false;
        }
        i += 1;
    }
    true
}

/// Whether a character is white space, by Unicode's `White_Space` property.
pub open spec fn is_space(c: char) -> bool {
    let code = c as u32;
    ||| 0x9 <= code <= 0xd
    ||| code == 0x20
    ||| code == 0x85
    ||| code == 0xa0
    ||| code == 0x1680
    ||| 0x2000 <= code <= 0x200a
    ||| code == 0x2028
    ||| code == 0x2029
    ||| code == 0x202f
    ||| code == 0x205f
    ||| code == 0x3000
}

/// [`is_space`] of one character.
pub(crate) fn space(c: char) -> (yes: bool)
    ensures
        yes == is_space(c),
{
    let code: u32 = c as u32;
    (0x9 <= code && code <= 0xd) || code == 0x20 || code == 0x85 || code == 0xa0 || code == 0x1680
        || (0x2000 <= code && code <= 0x200a) || code == 0x2028 || code == 0x2029 || code == 0x202f
        || code == 0x205f || code == 0x3000
}

/// Whether a text is nothing but white space.
pub open spec fn is_blank(text: Seq<char>) -> bool {
    forall|i: int| 0 <= i < text.len() ==> is_space(#[trigger] text[i])
}

/// Whether `inner` is `text` without the white space at either end.
pub open spec fn is_trimmed(inner: Seq<char>, text: Seq<char>) -> bool {
    exists|from: int, to: int|
        #![trigger text.subrange(from, to)]
        {
            &&& 0 <= from <= to <= text.len()
            &&& inner == text.subrange(from, to)
            &&& is_blank(text.take(from))
            &&& is_blank(text.skip(to))
            &&& inner.len() > 0 ==> !is_space(inner[0]) && !is_space(inner.last())
        }
}

/// Whether a text is nothing but white space.
pub fn blank(text: &str) -> (yes: bool)
    ensures
        yes == is_blank(text@),
{
    let chars: Vec<char> = chars_of(text);
    let mut i: usize = 0;
    while i < chars.len()
        invariant
            i <= chars.len(),
            chars@ == text@,
            forall|j: int| 0 <= j < i ==> is_space(#[trigger] text@[j]),
        decreases chars.len() - i,
    {
        if !space(chars[i]) {
            proof {
                assert(!is_space(text@[i as int]));
            }
            return false;
        }
        i += 1;
    }
    true
}

/// A text without the white space at either end.
pub fn trim(text: &str) -> (inner: String)
    ensures
        is_trimmed(inner@, text@),
{
    let chars: Vec<char> = chars_of(text);
    let mut from: usize = 0;
    while from < chars.len() && space(chars[from])
        invariant
            from <= chars.len(),
            chars@ == text@,
            forall|j: int| 0 <= j < from ==> is_space(#[trigger] text@[j]),
        decreases chars.len() - from,
    {
        from += 1;
    }
    let mut to: usize = chars.len();
    while to > from && space(chars[to - 1])
        invariant
            from <= to <= chars.len(),
            chars@ == text@,
            forall|j: int| to <= j < text@.len() ==> is_space(#[trigger] text@[j]),
        decreases to,
    {
        to -= 1;
    }
    let inner: String = String::from_str(text.substring_char(from, to));
    proof {
        let f = from as int;
        let t = to as int;
        assert(inner@ == text@.subrange(f, t));
        assert forall|j: int| 0 <= j < text@.take(f).len() implies is_space(
            #[trigger] text@.take(f)[j],
        ) by {
            assert(is_space(text@[j]));
        }
        assert forall|j: int| 0 <= j < text@.skip(t).len() implies is_space(
            #[trigger] text@.skip(t)[j],
        ) by {
            assert(is_space(text@[j + t]));
        }
        if inner@.len() > 0 {
            assert(inner@[0] == text@[f]);
            assert(inner@.last() == text@[t - 1]);
        }
    }
    inner
}

/// Whether `text` begins with `head`.
pub open spec fn begins(text: Seq<char>, head: Seq<char>) -> bool {
    head.len() <= text.len() && text.take(head.len() as int) == head
}

/// Whether `text` ends with `tail`.
pub open spec fn ends(text: Seq<char>, tail: Seq<char>) -> bool {
    tail.len() <= text.len() && text.skip(text.len() - tail.len()) == tail
}

/// The character for one decimal digit.
pub open spec fn digit(d: nat) -> char {
    (48 + d) as char
}

/// A number written out in decimal.
pub open spec fn decimal_text(n: nat) -> Seq<char>
    decreases n,
{
    if n < 10 {
        seq![digit(n)]
    } else {
        decimal_text(n / 10).push(digit(n % 10))
    }
}

/// One decimal digit as text.
fn digit_text(d: u64) -> (text: &'static str)
    requires
        d < 10,
    ensures
        text@ == seq![digit(d as nat)],
{
    proof {
        reveal_strlit("0");
        reveal_strlit("1");
        reveal_strlit("2");
        reveal_strlit("3");
        reveal_strlit("4");
        reveal_strlit("5");
        reveal_strlit("6");
        reveal_strlit("7");
        reveal_strlit("8");
        reveal_strlit("9");
    }
    if d == 0 {
        "0"
    } else if d == 1 {
        "1"
    } else if d == 2 {
        "2"
    } else if d == 3 {
        "3"
    } else if d == 4 {
        "4"
    } else if d == 5 {
        "5"
    } else if d == 6 {
        "6"
    } else if d == 7 {
        "7"
    } else if d == 8 {
        "8"
    } else {
        "9"
    }
}

/// `n` written out in decimal.
pub fn decimal(n: u64) -> (text: String)
    ensures
        text@ == decimal_text(n as nat),
    decreases n,
{
    if n < 10 {
        String::from_str(digit_text(n))
    } else {
        let mut text: String = decimal(n / 10);
        text.append(digit_text(n % 10));
        proof {
            assert(text@ =~= decimal_text((n / 10) as nat).push(digit((n % 10) as nat)));
        }
        text
    }
}

/// A number written out in decimal, with a minus sign where it is below zero.
pub open spec fn signed_text(n: int) -> Seq<char> {
    if n < 0 {
        "-"@ + decimal_text((-n) as nat)
    } else {
        decimal_text(n as nat)
    }
}

/// `n` written out in decimal, with a minus sign where it is below zero.
pub fn signed(n: i64) -> (text: String)
    ensures
        text@ == signed_text(n as int),
{
    if n >= 0 {
        decimal(n as u64)
    } else {
        let above: i64 = n + 1;
        let size: u64 = (0 - above) as u64 + 1;
        let mut text: String = String::from_str("-");
        text.append(decimal(size).as_str());
        text
    }
}

/// The character for one hexadecimal digit, in small letters.
pub open spec fn hex_digit(d: nat) -> char {
    if d < 10 {
        (48 + d) as char
    } else {
        (87 + d) as char
    }
}

/// The last `places` hexadecimal digits of a number, with leading zeros.
pub open spec fn hex_text(n: nat, places: nat) -> Seq<char>
    decreases places,
{
    if places == 0 {
        Seq::empty()
    } else {
        hex_text(n / 16, (places - 1) as nat).push(hex_digit(n % 16))
    }
}

/// One hexadecimal digit as text.
fn hex_digit_text(d: u32) -> (text: &'static str)
    requires
        d < 16,
    ensures
        text@ == seq![hex_digit(d as nat)],
{
    proof {
        reveal_strlit("a");
        reveal_strlit("b");
        reveal_strlit("c");
        reveal_strlit("d");
        reveal_strlit("e");
        reveal_strlit("f");
    }
    if d < 10 {
        digit_text(d as u64)
    } else if d == 10 {
        "a"
    } else if d == 11 {
        "b"
    } else if d == 12 {
        "c"
    } else if d == 13 {
        "d"
    } else if d == 14 {
        "e"
    } else {
        "f"
    }
}

/// The last `places` hexadecimal digits of `n`, in small letters and with leading zeros.
pub fn hex(n: u32, places: u32) -> (text: String)
    ensures
        text@ == hex_text(n as nat, places as nat),
    decreases places,
{
    if places == 0 {
        String::new()
    } else {
        let mut text: String = hex(n / 16, places - 1);
        text.append(hex_digit_text(n % 16));
        proof {
            assert(text@ =~= hex_text((n / 16) as nat, (places - 1) as nat).push(
                hex_digit((n % 16) as nat),
            ));
        }
        text
    }
}

/// Two texts one after the other.
pub fn joined(a: &str, b: &str) -> (text: String)
    ensures
        text@ == a@ + b@,
{
    let mut text: String = String::from_str(a);
    text.append(b);
    text
}

/// The number that decimal digits stand for.
pub open spec fn read_decimal(text: Seq<char>) -> nat
    decreases text.len(),
{
    if text.len() == 0 {
        0
    } else {
        (read_decimal(text.drop_last()) * 10 + (text.last() as int - '0' as int)) as nat
    }
}

/// **A number reads back.** Its decimal digits stand for it, there is at least one of them, each
/// is a digit, and none is a leading zero but zero's own.
pub proof fn a_number_reads_back(n: nat)
    ensures
        read_decimal(decimal_text(n)) == n,
        decimal_text(n).len() > 0,
        forall|i: int|
            0 <= i < decimal_text(n).len() ==> '0' <= #[trigger] decimal_text(n)[i] <= '9',
        n > 0 ==> decimal_text(n)[0] != '0',
    decreases n,
{
    if n < 10 {
        assert(decimal_text(n).drop_last() =~= Seq::empty());
        assert(decimal_text(n).last() as int == 48 + n);
        assert(read_decimal(decimal_text(n).drop_last()) == 0);
    } else {
        let head = decimal_text(n / 10);
        a_number_reads_back(n / 10);
        assert(decimal_text(n).drop_last() =~= head);
        assert(decimal_text(n).last() as int == 48 + n % 10);
        assert(decimal_text(n)[0] == head[0]);
        assert forall|i: int| 0 <= i < decimal_text(n).len() implies '0' <= #[trigger] decimal_text(
            n,
        )[i] <= '9' by {
            if i < head.len() {
                assert(decimal_text(n)[i] == head[i]);
            }
        }
    }
}

/// **A sign is written only below zero.** What follows it is the number's size, and a number
/// that is not below zero is its digits alone.
pub proof fn a_sign_is_written_only_below_zero(n: int)
    ensures
        n >= 0 ==> read_decimal(signed_text(n)) == n,
        n < 0 ==> signed_text(n)[0] == '-' && read_decimal(signed_text(n).drop_first()) == -n,
        signed_text(n)[0] == '-' <==> n < 0,
{
    reveal_strlit("-");
    if n < 0 {
        a_number_reads_back((-n) as nat);
        assert(signed_text(n).drop_first() =~= decimal_text((-n) as nat));
    } else {
        a_number_reads_back(n as nat);
    }
}

/// The number that hexadecimal digits stand for.
pub open spec fn read_hex(text: Seq<char>) -> nat
    decreases text.len(),
{
    if text.len() == 0 {
        0
    } else {
        let last = text.last() as int;
        (read_hex(text.drop_last()) * 16 + if last <= '9' as int {
            last - '0' as int
        } else {
            last - 'a' as int + 10
        }) as nat
    }
}

/// Sixteen to a power.
pub open spec fn sixteens(power: nat) -> nat
    decreases power,
{
    if power == 0 {
        1
    } else {
        16 * sixteens((power - 1) as nat)
    }
}

/// **Hexadecimal digits read back.** There are as many as were asked for, and where they are
/// enough for the number they stand for it.
pub proof fn hexadecimal_digits_read_back(n: nat, places: nat)
    ensures
        hex_text(n, places).len() == places,
        n < sixteens(places) ==> read_hex(hex_text(n, places)) == n,
    decreases places,
{
    if places > 0 {
        let head = hex_text(n / 16, (places - 1) as nat);
        hexadecimal_digits_read_back(n / 16, (places - 1) as nat);
        assert(hex_text(n, places).drop_last() =~= head);
        let d = n % 16;
        assert(hex_text(n, places).last() == hex_digit(d));
        if d < 10 {
            assert(hex_digit(d) as int == 48 + d);
        } else {
            assert(hex_digit(d) as int == 87 + d);
        }
    }
}

/// **There is one way to trim a text.** What is left has no white space at either end, and
/// nothing else is left.
pub proof fn there_is_one_way_to_trim(a: Seq<char>, b: Seq<char>, text: Seq<char>)
    requires
        is_trimmed(a, text),
        is_trimmed(b, text),
    ensures
        a == b,
        a.len() == 0 <==> is_blank(text),
{
    let (f, t) = choose|from: int, to: int|
        #![trigger text.subrange(from, to)]
        {
            &&& 0 <= from <= to <= text.len()
            &&& a == text.subrange(from, to)
            &&& is_blank(text.take(from))
            &&& is_blank(text.skip(to))
            &&& a.len() > 0 ==> !is_space(a[0]) && !is_space(a.last())
        };
    let (g, u) = choose|from: int, to: int|
        #![trigger text.subrange(from, to)]
        {
            &&& 0 <= from <= to <= text.len()
            &&& b == text.subrange(from, to)
            &&& is_blank(text.take(from))
            &&& is_blank(text.skip(to))
            &&& b.len() > 0 ==> !is_space(b[0]) && !is_space(b.last())
        };
    assert forall|i: int| 0 <= i < f || t <= i < text.len() implies is_space(#[trigger] text[i]) by {
        if i < f {
            assert(is_space(text.take(f)[i]));
        } else {
            assert(is_space(text.skip(t)[i - t]));
        }
    }
    assert forall|i: int| 0 <= i < g || u <= i < text.len() implies is_space(#[trigger] text[i]) by {
        if i < g {
            assert(is_space(text.take(g)[i]));
        } else {
            assert(is_space(text.skip(u)[i - u]));
        }
    }
    if a.len() > 0 {
        assert(a[0] == text[f] && a.last() == text[t - 1]);
    }
    if b.len() > 0 {
        assert(b[0] == text[g] && b.last() == text[u - 1]);
    }
    if a.len() > 0 && b.len() > 0 {
        assert(f == g && t == u);
    } else {
        assert(a =~= b);
    }
    if a.len() == 0 {
        assert(is_blank(text));
    }
}

/// **Case is all that is overlooked.** Two characters are taken for each other only where they
/// are the same, or the capital and the small of one ASCII letter; and texts compared so fall
/// into kinds.
pub proof fn case_is_all_that_is_overlooked(
    x: char,
    y: char,
    a: Seq<char>,
    b: Seq<char>,
    c: Seq<char>,
)
    ensures
        folded(x) == folded(y) <==> x == y || ('A' <= x <= 'Z' && y as int == x as int + 32) || (
        'A' <= y <= 'Z' && x as int == y as int + 32),
        caseless_equal(a, a),
        caseless_equal(a, b) ==> caseless_equal(b, a),
        caseless_equal(a, b) && caseless_equal(b, c) ==> caseless_equal(a, c),
{
    if caseless_equal(a, b) {
        assert forall|i: int| 0 <= i < b.len() implies folded(#[trigger] b[i]) == folded(a[i]) by {
            assert(folded(a[i]) == folded(b[i]));
        }
        if caseless_equal(b, c) {
            assert forall|i: int| 0 <= i < a.len() implies folded(#[trigger] a[i]) == folded(
                c[i],
            ) by {
                assert(folded(b[i]) == folded(c[i]));
            }
        }
    }
}

/// **A text begins and ends with what it was put together from.**
pub proof fn a_text_begins_and_ends_with_its_parts(a: Seq<char>, b: Seq<char>)
    ensures
        begins(a + b, a),
        ends(a + b, b),
        is_blank(a + b) <==> is_blank(a) && is_blank(b),
{
    let text = a + b;
    assert(text.take(a.len() as int) =~= a);
    assert(text.skip(a.len() as int) =~= b);
    if is_blank(text) {
        assert forall|i: int| 0 <= i < a.len() implies is_space(#[trigger] a[i]) by {
            assert(is_space(text[i]));
        }
        assert forall|i: int| 0 <= i < b.len() implies is_space(#[trigger] b[i]) by {
            assert(is_space(text[a.len() + i]));
        }
    }
}

/// **A beginning is character for character, and so is an end.** Nothing begins or ends with
/// what is longer than it.
pub proof fn a_beginning_is_character_for_character(text: Seq<char>, part: Seq<char>, i: int)
    requires
        0 <= i < part.len(),
    ensures
        begins(text, part) ==> part.len() <= text.len() && text[i] == part[i],
        ends(text, part) ==> part.len() <= text.len() && text[text.len() - part.len() + i]
            == part[i],
        part.len() > text.len() ==> !begins(text, part) && !ends(text, part),
{
    if begins(text, part) {
        assert(text.take(part.len() as int)[i] == text[i]);
    }
    if ends(text, part) {
        assert(text.skip(text.len() - part.len())[i] == text[text.len() - part.len() + i]);
    }
}

/// **White space is what separates words.** Of the first hundred and twenty-eight characters it
/// is the blank and the five that move the place of writing, and no visible one.
pub proof fn white_space_separates_words(c: char)
    requires
        (c as u32) < 128,
    ensures
        is_space(c) <==> c == ' ' || c == '\t' || c == '\n' || c == '\r' || c as u32 == 11 || c
            as u32 == 12,
{
}

} // verus!
