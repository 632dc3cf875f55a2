//! Text building blocks: decimal rendering, joins and comparison.

use vstd::prelude::*;

verus! {

/// The character of one decimal digit.
pub open spec fn digit_char(d: nat) -> char {
    if d == 0 {
        '0'
    } else if d == 1 {
        '1'
    } else if d == 2 {
        '2'
    } else if d == 3 {
        '3'
    } else if d == 4 {
        '4'
    } else if d == 5 {
        '5'
    } else if d == 6 {
        '6'
    } else if d == 7 {
        '7'
    } else if d == 8 {
        '8'
    } else {
        '9'
    }
}

/// The decimal digits of `n`, most significant first, without leading zeros.
pub open spec fn decimal_text(n: nat) -> Seq<char>
    decreases n,
{
    if n < 10 {
        seq![digit_char(n)]
    } else {
        decimal_text(n / 10).push(digit_char(n % 10))
    }
}

/// The decimal rendering of a signed number: a minus sign, then the digits of its magnitude.
pub open spec fn signed_decimal_text(n: int) -> Seq<char> {
    if n < 0 {
        seq!['-'] + decimal_text((-n) as nat)
    } else {
        decimal_text(n as nat)
    }
}

fn digit_str(d: u64) -> (s: &'static str)
    requires
        d < 10,
    ensures
        s@ == seq![digit_char(d as nat)],
{
    proof {
        reveal_strlit("0");
        reveal_strlit("1");
        reveal_strlit("2");
        reveal_strlit("3");
        reveal_strlit("4");
        reveal_strlit("5");
        reveal_strlit("6");
        reveal_strlit("7");
        reveal_strlit("8");
        reveal_strlit("9");
    }
    let s = if d == 0 {
        "0"
    } else if d == 1 {
        "1"
    } else if d == 2 {
        "2"
    } else if d == 3 {
        "3"
    } else if d == 4 {
        "4"
    } else if d == 5 {
        "5"
    } else if d == 6 {
        "6"
    } else if d == 7 {
        "7"
    } else if d == 8 {
        "8"
    } else {
        "9"
    };
    assert(s@ =~= seq![digit_char(d as nat)]);
    s
}

/// Renders an unsigned number in decimal.
pub fn render_unsigned(n: u64) -> (s: String)
    ensures
        s@ == decimal_text(n as nat),
    decreases n,
{
    if n < 10 {
        String::from_str(digit_str(n))
    } else {
        let mut s = render_unsigned(n / 10);
        s.append(digit_str(n % 10));
        assert(s@ =~= decimal_text(n as nat));
        s
    }
}

/// Renders a signed number in decimal.
pub fn render_signed(n: i64) -> (s: String)
    ensures
        s@ == signed_decimal_text(n as int),
{
    if n < 0 {
        let magnitude: u64 = if n == i64::MIN {
            9223372036854775808u64
        } else {
            (-n) as u64
        };
        let mut s = String::from_str("-");
        let digits = render_unsigned(magnitude);
        s.append(digits.as_str());
        proof {
            reveal_strlit("-");
            assert("-"@ =~= seq!['-']);
        }
        s
    } else {
        render_unsigned(n as u64)
    }
}

/// The first `n` of `parts`, separated by a comma and a space.
pub open spec fn joined_text(parts: Seq<Seq<char>>, n: nat) -> Seq<char>
    decreases n,
{
    if n == 0 || n > parts.len() {
        Seq::empty()
    } else if n == 1 {
        parts[0]
    } else {
        joined_text(parts, (n - 1) as nat) + ", "@ + parts[n - 1]
    }
}

/// Texts that agree after the same beginning are equal.
pub proof fn lemma_same_beginning(head: Seq<char>, a: Seq<char>, b: Seq<char>)
    requires
        head + a == head + b,
    ensures
        a == b,
{
    assert((head + a).len() == head.len() + a.len());
    assert((head + b).len() == head.len() + b.len());
    assert(a.len() == b.len());
    assert forall|i: int| 0 <= i < a.len() implies a[i] == b[i] by {
        assert((head + a)[head.len() + i] == a[i]);
        assert((head + b)[head.len() + i] == b[i]);
    }
    assert(a =~= b);
}

/// Texts that agree before the same end are equal.
pub proof fn lemma_same_end(a: Seq<char>, b: Seq<char>, tail: Seq<char>)
    requires
        a + tail == b + tail,
    ensures
        a == b,
{
    assert((a + tail).len() == a.len() + tail.len());
    assert((b + tail).len() == b.len() + tail.len());
    assert(a.len() == b.len());
    assert forall|i: int| 0 <= i < a.len() implies a[i] == b[i] by {
        assert((a + tail)[i] == a[i]);
        assert((b + tail)[i] == b[i]);
    }
    assert(a =~= b);
}

/// Two texts of one length that are equal when followed by something are equal, and so is
/// what follows them.
pub proof fn lemma_same_length_split(a: Seq<char>, x: Seq<char>, b: Seq<char>, y: Seq<char>)
    requires
        a + x == b + y,
        a.len() == b.len(),
    ensures
        a == b,
        x == y,
{
    assert forall|i: int| 0 <= i < a.len() implies a[i] == b[i] by {
        assert((a + x)[i] == a[i]);
        assert((b + y)[i] == b[i]);
    }
    assert(a =~= b);
    lemma_same_beginning(a, x, y);
}

/// A number that tells where it ends: its decimal text and a colon.
pub open spec fn counted(n: nat) -> Seq<char> {
    decimal_text(n) + ":"@
}

/// A truth value that tells where it ends: `1:` for true and `0:` for false.
pub open spec fn flagged(b: bool) -> Seq<char> {
    counted(if b {
        1
    } else {
        0
    })
}

/// A text with its length before it: the number of its characters, counted, and the text.
/// Where one tagged text ends is told by its length, whatever the text holds.
pub open spec fn tagged(text: Seq<char>) -> Seq<char> {
    counted(text.len()) + text
}

/// Whether a character is a decimal digit.
pub open spec fn is_digit(c: char) -> bool {
    c == '0' || c == '1' || c == '2' || c == '3' || c == '4' || c == '5' || c == '6' || c == '7'
        || c == '8' || c == '9'
}

/// A decimal text is one digit or more, nothing but digits, and more than one digit from ten
/// on.
pub proof fn lemma_decimal_text_is_digits(n: nat)
    ensures
        decimal_text(n).len() >= 1,
        n >= 10 ==> decimal_text(n).len() >= 2,
        forall|i: int| 0 <= i < decimal_text(n).len() ==> is_digit(#[trigger] decimal_text(n)[i]),
    decreases n,
{
    if n >= 10 {
        lemma_decimal_text_is_digits(n / 10);
    }
}

/// Different numbers have different decimal texts.
pub proof fn lemma_decimal_text_is_injective(n: nat, m: nat)
    requires
        decimal_text(n) == decimal_text(m),
    ensures
        n == m,
    decreases n,
{
    lemma_decimal_text_is_digits(n);
    lemma_decimal_text_is_digits(m);
    if n < 10 && m < 10 {
        assert(decimal_text(n)[0] == digit_char(n));
        assert(decimal_text(m)[0] == digit_char(m));
    } else if n >= 10 && m >= 10 {
        let a = decimal_text(n / 10);
        let b = decimal_text(m / 10);
        assert(a.push(digit_char(n % 10)).drop_last() =~= a);
        assert(b.push(digit_char(m % 10)).drop_last() =~= b);
        assert(a.push(digit_char(n % 10)).last() == digit_char(n % 10));
        assert(b.push(digit_char(m % 10)).last() == digit_char(m % 10));
        lemma_decimal_text_is_injective(n / 10, m / 10);
    } else {
        assert(decimal_text(n).len() != decimal_text(m).len());
    }
}

/// Where a counted number ends is told by its colon: two counted numbers, each followed by
/// something, are equal as a whole only if the numbers are equal and what follows them is.
pub proof fn lemma_counted(n: nat, x: Seq<char>, m: nat, y: Seq<char>)
    requires
        counted(n) + x == counted(m) + y,
    ensures
        n == m,
        x == y,
{
    reveal_strlit(":");
    let colon = ":"@;
    assert(colon.len() == 1 && colon[0] == ':');
    let dn = decimal_text(n);
    let dm = decimal_text(m);
    lemma_decimal_text_is_digits(n);
    lemma_decimal_text_is_digits(m);
    let left = counted(n) + x;
    let right = counted(m) + y;
    assert(left =~= dn + (colon + x));
    assert(right =~= dm + (colon + y));
    if dn.len() < dm.len() {
        assert(left[dn.len() as int] == ':');
        assert(right[dn.len() as int] == dm[dn.len() as int]);
        assert(is_digit(dm[dn.len() as int]));
    }
    if dm.len() < dn.len() {
        assert(right[dm.len() as int] == ':');
        assert(left[dm.len() as int] == dn[dm.len() as int]);
        assert(is_digit(dn[dm.len() as int]));
    }
    lemma_same_length_split(dn, colon + x, dm, colon + y);
    lemma_decimal_text_is_injective(n, m);
    lemma_same_beginning(colon, x, y);
}

/// Where a flag ends is told by its colon.
pub proof fn lemma_flagged(b: bool, x: Seq<char>, c: bool, y: Seq<char>)
    requires
        flagged(b) + x == flagged(c) + y,
    ensures
        b == c,
        x == y,
{
    lemma_counted(if b { 1 } else { 0 }, x, if c { 1 } else { 0 }, y);
}

/// Where a tagged text ends is told by its length: two tagged texts, each followed by
/// something, are equal as a whole only if the texts are equal and what follows them is.
pub proof fn lemma_tagged(a: Seq<char>, x: Seq<char>, b: Seq<char>, y: Seq<char>)
    requires
        tagged(a) + x == tagged(b) + y,
    ensures
        a == b,
        x == y,
{
    assert(tagged(a) + x =~= counted(a.len()) + (a + x));
    assert(tagged(b) + y =~= counted(b.len()) + (b + y));
    lemma_counted(a.len(), a + x, b.len(), b + y);
    lemma_same_length_split(a, x, b, y);
}

/// A number with a colon after it.
pub fn count(n: usize) -> (s: String)
    ensures
        s@ == counted(n as nat),
{
    let mut out = render_unsigned(n as u64);
    out.append(":");
    out
}

/// `1:` for true and `0:` for false.
pub fn flag(b: bool) -> (s: String)
    ensures
        s@ == flagged(b),
{
    if b {
        count(1)
    } else {
        count(0)
    }
}

/// A text with its length before it.
pub fn tag(text: &str) -> (s: String)
    ensures
        s@ == tagged(text@),
{
    let mut out = count(text.unicode_len());
    out.append(text);
    out
}

/// Copies a list of names.
pub fn clone_names(names: &Vec<String>) -> (copy: Vec<String>)
    ensures
        copy@ == names@,
{
    let mut copy: Vec<String> = Vec::new();
    let mut i: usize = 0;
    while i < names.len()
        invariant
            i <= names.len(),
            copy@ == names@.take(i as int),
        decreases names.len() - i,
    {
        copy.push(names[i].clone());
        assert(copy@ =~= names@.take(i as int + 1));
        i += 1;
    }
    assert(copy@ =~= names@);
    copy
}

/// Whether two texts hold the same characters.
pub fn same_text(a: &str, b: &str) -> (r: bool)
    ensures
        r == (a@ == b@),
{
    let x = String::from_str(a);
    let y = String::from_str(b);
    x == y
}

} // verus!
