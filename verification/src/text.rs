//! Numbers, columns and lists as text, and the order of texts.

use vstd::prelude::*;
use vstd::string::*;

verus! {

/// The digit for a value below sixteen.
pub open spec fn digit(d: int) -> char {
    "0123456789abcdef"@[d]
}

/// A number in decimal, without leading zeros.
pub open spec fn decimal(n: nat) -> Seq<char>
    decreases n,
{
    if n < 10 {
        seq![digit(n as int)]
    } else {
        decimal(n / 10).push(digit((n % 10) as int))
    }
}

/// A number in hexadecimal with small letters, without leading zeros.
pub open spec fn hexadecimal(n: nat) -> Seq<char>
    decreases n,
{
    if n < 16 {
        seq![digit(n as int)]
    } else {
        hexadecimal(n / 16).push(digit((n % 16) as int))
    }
}

/// `width - len` times the same character, and nothing if `len` is not below `width`.
pub open spec fn filler(c: char, width: nat, len: nat) -> Seq<char> {
    Seq::new(
        if len < width {
            (width - len) as nat
        } else {
            0
        },
        |i: int| c,
    )
}

/// A text filled up with spaces on the right to a width in characters.
pub open spec fn padded(text: Seq<char>, width: nat) -> Seq<char> {
    text + filler(' ', width, text.len())
}

/// A number in hexadecimal, filled up with zeros on the left to eight digits.
pub open spec fn hexadecimal_eight(n: nat) -> Seq<char> {
    filler('0', 8, hexadecimal(n).len()) + hexadecimal(n)
}

/// A truth value in words.
pub open spec fn bool_text(b: bool) -> Seq<char> {
    if b {
        "true"@
    } else {
        "false"@
    }
}

/// The texts one after the other, with a separator between any two.
pub open spec fn joined(texts: Seq<Seq<char>>, separator: Seq<char>) -> Seq<char>
    decreases texts.len(),
{
    if texts.len() == 0 {
        seq![]
    } else if texts.len() == 1 {
        texts[0]
    } else {
        joined(texts.drop_last(), separator) + separator + texts.last()
    }
}

/// Whether `a` and `b` agree before position `k`, and there `a` ends or has the smaller character.
pub open spec fn parts_below(a: Seq<char>, b: Seq<char>, k: int) -> bool {
    &&& 0 <= k <= a.len()
    &&& k < b.len()
    &&& forall|i: int| 0 <= i < k ==> a[i] == b[i]
    &&& k == a.len() || (a[k] as u32) < (b[k] as u32)
}

/// Whether `a` comes before `b` in the lexicographic order by code point.
pub open spec fn text_below(a: Seq<char>, b: Seq<char>) -> bool {
    exists|k: int| parts_below(a, b, k)
}

/// No text comes before itself.
pub proof fn text_below_irreflexive(a: Seq<char>)
    ensures
        !text_below(a, a),
{
}

/// Of two different texts one comes before the other.
pub proof fn text_below_total(a: Seq<char>, b: Seq<char>)
    ensures
        a == b || text_below(a, b) || text_below(b, a),
{
    let k = common_prefix(a, b);
    if k < a.len() && k < b.len() {
        vstd::utf8::char_u32_cast(a[k], a[k] as u32);
        vstd::utf8::char_u32_cast(b[k], b[k] as u32);
        assert(parts_below(a, b, k) || parts_below(b, a, k));
    } else if a.len() < b.len() {
        assert(parts_below(a, b, k));
    } else if b.len() < a.len() {
        assert(parts_below(b, a, k));
    } else {
        assert(a =~= b);
    }
}

/// The order of texts is transitive.
pub proof fn text_below_transitive(a: Seq<char>, b: Seq<char>, c: Seq<char>)
    requires
        text_below(a, b),
        text_below(b, c),
    ensures
        text_below(a, c),
{
    let j = choose|k: int| parts_below(a, b, k);
    let k = choose|k: int| parts_below(b, c, k);
    if j <= k {
        assert(parts_below(a, c, j));
    } else {
        assert(parts_below(a, c, k));
    }
}

/// How far two texts agree.
proof fn common_prefix(a: Seq<char>, b: Seq<char>) -> (k: int)
    ensures
        0 <= k <= a.len(),
        k <= b.len(),
        forall|i: int| 0 <= i < k ==> a[i] == b[i],
        k < a.len() && k < b.len() ==> a[k] != b[k],
    decreases a.len(),
{
    if a.len() == 0 || b.len() == 0 {
        0
    } else if a[0] != b[0] {
        0
    } else {
        let k = common_prefix(a.drop_first(), b.drop_first());
        assert forall|i: int| 0 <= i < k + 1 implies a[i] == b[i] by {
            if i > 0 {
                assert(a.drop_first()[i - 1] == b.drop_first()[i - 1]);
            }
        }
        if k + 1 < a.len() && k + 1 < b.len() {
            assert(a.drop_first()[k] != b.drop_first()[k]);
        }
        k + 1
    }
}

/// Different digits have different characters.
proof fn lemma_digit_injective(a: int, b: int)
    requires
        0 <= a < 16,
        0 <= b < 16,
        digit(a) == digit(b),
    ensures
        a == b,
{
    reveal_strlit("0123456789abcdef");
}

/// Different numbers are written differently in decimal.
pub proof fn decimal_injective(m: nat, n: nat)
    requires
        decimal(m) == decimal(n),
    ensures
        m == n,
    decreases m,
{
    lemma_decimal_len(m);
    lemma_decimal_len(n);
    assert(decimal(m).last() == decimal(n).last());
    lemma_digit_injective((m % 10) as int, (n % 10) as int);
    if m >= 10 && n >= 10 {
        assert(decimal(m / 10) =~= decimal(m).drop_last());
        assert(decimal(n / 10) =~= decimal(n).drop_last());
        decimal_injective(m / 10, n / 10);
    }
}

/// A number below ten has one digit and any other number more.
proof fn lemma_decimal_len(n: nat)
    ensures
        decimal(n).len() >= 1,
        decimal(n).len() == 1 <==> n < 10,
        decimal(n).last() == digit((n % 10) as int),
    decreases n,
{
    if n >= 10 {
        lemma_decimal_len(n / 10);
    }
}

/// Different numbers are written differently in hexadecimal.
pub proof fn hexadecimal_injective(m: nat, n: nat)
    requires
        hexadecimal(m) == hexadecimal(n),
    ensures
        m == n,
    decreases m,
{
    lemma_hexadecimal_len(m);
    lemma_hexadecimal_len(n);
    assert(hexadecimal(m).last() == hexadecimal(n).last());
    lemma_digit_injective((m % 16) as int, (n % 16) as int);
    if m >= 16 && n >= 16 {
        assert(hexadecimal(m / 16) =~= hexadecimal(m).drop_last());
        assert(hexadecimal(n / 16) =~= hexadecimal(n).drop_last());
        hexadecimal_injective(m / 16, n / 16);
    }
}

/// A number below sixteen has one digit and any other number more.
proof fn lemma_hexadecimal_len(n: nat)
    ensures
        hexadecimal(n).len() >= 1,
        hexadecimal(n).len() == 1 <==> n < 16,
        hexadecimal(n).last() == digit((n % 16) as int),
    decreases n,
{
    if n >= 16 {
        lemma_hexadecimal_len(n / 16);
    }
}

/// A text of one digit.
fn digit_text(d: u64) -> (text: &'static str)
    requires
        d < 16,
    ensures
        text@ == seq![digit(d as int)],
{
    proof {
        reveal_strlit("0123456789abcdef");
        reveal_strlit("0");
        reveal_strlit("1");
        reveal_strlit("2");
        reveal_strlit("3");
        reveal_strlit("4");
        reveal_strlit("5");
        reveal_strlit("6");
        reveal_strlit("7");
        reveal_strlit("8");
        reveal_strlit("9");
        reveal_strlit("a");
        reveal_strlit("b");
        reveal_strlit("c");
        reveal_strlit("d");
        reveal_strlit("e");
        reveal_strlit("f");
    }
    match d {
        0 => "0",
        1 => "1",
        2 => "2",
        3 => "3",
        4 => "4",
        5 => "5",
        6 => "6",
        7 => "7",
        8 => "8",
        9 => "9",
        10 => "a",
        11 => "b",
        12 => "c",
        13 => "d",
        14 => "e",
        _ => "f",
    }
}

/// The number in decimal.
pub fn decimal_text(n: u64) -> (text: String)
    ensures
        text@ == decimal(n as nat),
    decreases n,
{
    if n < 10 {
        digit_text(n).to_owned()
    } else {
        let mut text: String = decimal_text(n / 10);
        text.append(digit_text(n % 10));
        text
    }
}

/// The number in hexadecimal.
fn hexadecimal_text(n: u64) -> (text: String)
    ensures
        text@ == hexadecimal(n as nat),
    decreases n,
{
    if n < 16 {
        digit_text(n).to_owned()
    } else {
        let mut text: String = hexadecimal_text(n / 16);
        text.append(digit_text(n % 16));
        text
    }
}

/// The number in hexadecimal with at least eight digits.
pub fn hexadecimal_eight_text(n: u64) -> (text: String)
    ensures
        text@ == hexadecimal_eight(n as nat),
{
    let digits: String = hexadecimal_text(n);
    let len: usize = digits.as_str().unicode_len();
    let mut text: String = String::new();
    let mut i: usize = len;
    proof {
        reveal_strlit("0");
    }
    while i < 8
        invariant
            len <= i,
            i <= 8 || i == len,
            text@ =~= Seq::new((i - len) as nat, |j: int| '0'),
            "0"@ == seq!['0'],
        decreases 8 - i,
    {
        text.append("0");
        i = i + 1;
    }
    text.append(digits.as_str());
    text
}

/// The text, filled up with spaces on the right to the width.
pub fn pad(text: String, width: usize) -> (column: String)
    ensures
        column@ == padded(text@, width as nat),
{
    let len: usize = text.as_str().unicode_len();
    let mut column: String = text;
    let mut i: usize = len;
    proof {
        reveal_strlit(" ");
    }
    while i < width
        invariant
            len == text@.len(),
            len <= i,
            i <= width || i == len,
            column@ =~= text@ + Seq::new((i - len) as nat, |j: int| ' '),
            " "@ == seq![' '],
        decreases width - i,
    {
        column.append(" ");
        i = i + 1;
    }
    column
}

/// `true` or `false`.
pub fn bool_word(b: bool) -> (text: &'static str)
    ensures
        text@ == bool_text(b),
{
    if b {
        "true"
    } else {
        "false"
    }
}

/// The characters of a text.
fn characters(text: &str) -> (list: Vec<char>)
    ensures
        list@ == text@,
{
    let mut list: Vec<char> = Vec::new();
    let len: usize = text.unicode_len();
    for i in 0..len
        invariant
            len == text@.len(),
            list@ == text@.take(i as int),
    {
        list.push(text.get_char(i));
        assert(text@.take(i + 1) == text@.take(i as int).push(text@[i as int]));
    }
    assert(text@.take(len as int) == text@);
    list
}

/// Whether `a` comes before `b`.
pub fn is_below(a: &str, b: &str) -> (below: bool)
    ensures
        below == text_below(a@, b@),
{
    let a: Vec<char> = characters(a);
    let b: Vec<char> = characters(b);
    let mut k: usize = 0;
    while k < a.len() && k < b.len() && a[k] == b[k]
        invariant
            k <= a.len(),
            k <= b.len(),
            forall|i: int| 0 <= i < k ==> a@[i] == b@[i],
        decreases a.len() - k,
    {
        k = k + 1;
    }
    let below: bool = k < b.len() && (k == a.len() || (a[k] as u32) < (b[k] as u32));
    proof {
        if k < a.len() && k < b.len() {
            vstd::utf8::char_u32_cast(a@[k as int], a@[k as int] as u32);
            vstd::utf8::char_u32_cast(b@[k as int], b@[k as int] as u32);
        }
        if below {
            assert(parts_below(a@, b@, k as int));
        } else {
            assert forall|j: int| !parts_below(a@, b@, j) by {
                if parts_below(a@, b@, j) && j > k {
                    assert(a@[k as int] == b@[k as int]);
                }
            }
        }
    }
    below
}

} // verus!
