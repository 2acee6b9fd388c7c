//! Text helpers shared by the tray modules.

use vstd::prelude::*;

verus! {

/// Anything a caller may hand over where an owned text is stored.
pub trait IntoText: Sized {
    /// The characters of the text.
    spec fn text(&self) -> Seq<char>;

    /// The text as an owned `String`.
    fn into_text(self) -> (s: String)
        ensures
            s@ == self.text(),
    ;
}

impl IntoText for &str {
    open spec fn text(&self) -> Seq<char> {
        (*self)@
    }

    fn into_text(self) -> (s: String) {
        self.to_owned()
    }
}

impl IntoText for String {
    open spec fn text(&self) -> Seq<char> {
        self@
    }

    fn into_text(self) -> (s: String) {
        self
    }
}

impl IntoText for &String {
    open spec fn text(&self) -> Seq<char> {
        (*self)@
    }

    fn into_text(self) -> (s: String) {
        self.clone()
    }
}

/// The characters of an optional text.
pub open spec fn opt_text(s: Option<String>) -> Option<Seq<char>> {
    match s {
        Some(s) => Some(s@),
        None => None,
    }
}

/// The lower case of an ASCII letter; every other character is itself.
pub open spec fn ascii_lower(c: char) -> char {
    if 'A' <= c && c <= 'Z' {
        ((c as u32) + 32) as char
    } else {
        c
    }
}

/// `s` with every ASCII letter in lower case.
pub open spec fn ascii_lowered(s: Seq<char>) -> Seq<char> {
    s.map_values(|c: char| ascii_lower(c))
}

/// Whether `needle` stands somewhere in `s`.
pub open spec fn occurs_in(needle: Seq<char>, s: Seq<char>) -> bool {
    exists|i: int|
        0 <= i <= s.len() - needle.len() && #[trigger] s.subrange(i, i + needle.len()) == needle
}

/// The decimal digits of `n`, most significant first, without leading zeros.
pub open spec fn decimal(n: nat) -> Seq<char>
    decreases n,
{
    if n < 10 {
        seq![digit(n)]
    } else {
        decimal(n / 10).push(digit(n % 10))
    }
}

/// The digit for a number below ten.
pub open spec fn digit(n: nat) -> char {
    ((48 + n) as u32) as char
}

/// The characters of `s`.
pub(crate) fn chars_of(s: &str) -> (v: Vec<char>)
    ensures
        v@ == s@,
{
    let mut v: Vec<char> = Vec::new();
    for c in it: s.chars()
        invariant
            v@ == it.seq().take(it.index()),
            it.seq() == s@,
    {
        v.push(c);
        assert(it.seq().take(it.index() + 1) =~= it.seq().take(it.index()).push(c));
    }
    assert(v@ =~= s@);
    v
}

/// The lower case of an ASCII letter; every other character is itself.
pub(crate) fn lower_char(c: char) -> (r: char)
    ensures
        r == ascii_lower(c),
{
    if 'A' <= c && c <= 'Z' {
        (c as u8 + 32) as char
    } else {
        c
    }
}

/// The characters of `s` with every ASCII letter in lower case.
pub(crate) fn lowered_chars(s: &str) -> (v: Vec<char>)
    ensures
        v@ == ascii_lowered(s@),
{
    let chars = chars_of(s);
    let mut v: Vec<char> = Vec::new();
    for i in 0..chars.len()
        invariant
            chars@ == s@,
            v@ == ascii_lowered(s@.take(i as int)),
    {
        v.push(lower_char(chars[i]));
        assert(ascii_lowered(s@.take(i + 1)) =~= ascii_lowered(s@.take(i as int)).push(
            ascii_lower(s@[i as int]),
        ));
    }
    assert(s@.take(chars.len() as int) =~= s@);
    v
}

/// Whether the two texts hold the same characters.
pub(crate) fn same_text(a: &str, b: &str) -> (r: bool)
    ensures
        r == (a@ == b@),
{
    a.to_owned() == b.to_owned()
}

/// Whether `chars` are the characters of `s`.
pub(crate) fn chars_are(chars: &Vec<char>, s: &str) -> (r: bool)
    ensures
        r == (chars@ == s@),
{
    let other = chars_of(s);
    if chars.len() != other.len() {
        return false;
    }
    for i in 0..chars.len()
        invariant
            other@ == s@,
            chars@.len() == other@.len(),
            chars@.take(i as int) == other@.take(i as int),
    {
        if chars[i] != other[i] {
            return false;
        }
        assert(chars@.take(i + 1) =~= chars@.take(i as int).push(chars@[i as int]));
        assert(other@.take(i + 1) =~= other@.take(i as int).push(other@[i as int]));
    }
    assert(chars@.take(chars.len() as int) =~= chars@);
    assert(other@.take(chars.len() as int) =~= other@);
    true
}

/// Whether `needle` stands in `chars` at position `at`.
fn stands_at(chars: &Vec<char>, needle: &Vec<char>, at: usize) -> (r: bool)
    requires
        at + needle@.len() <= chars@.len(),
    ensures
        r == (chars@.subrange(at as int, at + needle@.len()) == needle@),
{
    for j in 0..needle.len()
        invariant
            at + needle.len() <= chars.len(),
            forall|k: int| 0 <= k < j ==> chars@[at + k] == needle@[k],
    {
        if chars[at + j] != needle[j] {
            assert(chars@.subrange(at as int, at + needle@.len())[j as int] != needle@[j as int]);
            return false;
        }
    }
    assert(chars@.subrange(at as int, at + needle@.len()) =~= needle@);
    true
}

/// Whether the characters of `needle` stand somewhere in `chars`.
pub(crate) fn contains_text(chars: &Vec<char>, needle: &str) -> (r: bool)
    ensures
        r == occurs_in(needle@, chars@),
{
    let needle_chars = chars_of(needle);
    if needle_chars.len() > chars.len() {
        return false;
    }
    let last: usize = chars.len() - needle_chars.len();
    let mut i: usize = 0;
    while i <= last
        invariant
            needle_chars@ == needle@,
            last == chars@.len() - needle@.len(),
            i <= last + 1,
            forall|k: int|
                0 <= k < i ==> #[trigger] chars@.subrange(k, k + needle@.len()) != needle@,
        decreases last + 1 - i,
    {
        if stands_at(chars, &needle_chars, i) {
            return true;
        }
        if i == last {
            return false;
        }
        i = i + 1;
    }
    false
}

/// Appends the decimal digits of `n` to `out`.
pub(crate) fn push_decimal(out: &mut String, n: u128)
    ensures
        final(out)@ == old(out)@ + decimal(n as nat),
    decreases n,
{
    if n >= 10 {
        push_decimal(out, n / 10);
    }
    let ghost before = out@;
    let d = digit_text(n % 10);
    out.append(d);
    proof {
        if n >= 10 {
            assert(old(out)@ + decimal((n / 10) as nat) + seq![digit((n % 10) as nat)] =~= old(out)@
                + decimal(n as nat));
        }
        assert(out@ == before + d@);
    }
}

/// The text of one digit.
fn digit_text(n: u128) -> (s: &'static str)
    requires
        n < 10,
    ensures
        s@ == seq![digit(n as nat)],
{
    proof {
        reveal_strlit("0");
        reveal_strlit("1");
        reveal_strlit("2");
        reveal_strlit("3");
        reveal_strlit("4");
        reveal_strlit("5");
        reveal_strlit("6");
        reveal_strlit("7");
        reveal_strlit("8");
        reveal_strlit("9");
    }
    if n == 0 {
        "0"
    } else if n == 1 {
        "1"
    } else if n == 2 {
        "2"
    } else if n == 3 {
        "3"
    } else if n == 4 {
        "4"
    } else if n == 5 {
        "5"
    } else if n == 6 {
        "6"
    } else if n == 7 {
        "7"
    } else if n == 8 {
        "8"
    } else {
        "9"
    }
}

/// The lower case of an ASCII letter is the letter 32 places on; every other character, and so
/// every lower-case letter, stays.
pub proof fn law_ascii_lower(c: char)
    ensures
        65 <= c as u32 <= 90 ==> ascii_lower(c) as u32 == c as u32 + 32,
        (c as u32) < 65 || 90 < c as u32 ==> ascii_lower(c) == c,
        ascii_lower(ascii_lower(c)) == ascii_lower(c),
{
}

/// Whether the texts are the same but for the case of ASCII letters, where `lower` has none in
/// upper case.
pub open spec fn is_lower_case_of(lower: Seq<char>, s: Seq<char>) -> bool {
    &&& lower.len() == s.len()
    &&& forall|i: int|
        0 <= i < s.len() ==> (#[trigger] lower[i] == s[i] && !('A' <= s[i] <= 'Z')) || ('A' <= s[i]
            <= 'Z' && lower[i] as int == s[i] as int + 32)
}

/// Lowering a text changes the case of its ASCII letters, and nothing else.
pub proof fn law_ascii_lowered(lower: Seq<char>, s: Seq<char>)
    ensures
        ascii_lowered(s) == lower <==> is_lower_case_of(lower, s),
{
    if is_lower_case_of(lower, s) {
        assert forall|i: int| 0 <= i < s.len() implies ascii_lowered(s)[i] == lower[i] by {
            let c = lower[i];
            assert(ascii_lower(s[i]) as int == c as int);
        }
        assert(ascii_lowered(s) =~= lower);
    }
    if ascii_lowered(s) == lower {
        assert forall|i: int| 0 <= i < s.len() implies (#[trigger] lower[i] == s[i] && !('A' <= s[i]
            <= 'Z')) || ('A' <= s[i] <= 'Z' && lower[i] as int == s[i] as int + 32) by {
            assert(lower[i] == ascii_lower(s[i]));
        }
    }
}

/// A text stands somewhere in another one exactly where the other one is the text with something
/// before it and something after it, be that nothing.
pub proof fn law_occurs_in(needle: Seq<char>, s: Seq<char>)
    ensures
        occurs_in(needle, s) <==> exists|a: Seq<char>, b: Seq<char>|
            s == #[trigger] (a + needle + b),
{
    if occurs_in(needle, s) {
        let i = choose|i: int|
            0 <= i <= s.len() - needle.len() && #[trigger] s.subrange(i, i + needle.len())
                == needle;
        let a = s.take(i);
        let b = s.skip(i + needle.len());
        assert(s =~= a + s.subrange(i, i + needle.len()) + b);
        assert(s == a + needle + b);
    }
    if exists|a: Seq<char>, b: Seq<char>| s == #[trigger] (a + needle + b) {
        let (a, b) = choose|a: Seq<char>, b: Seq<char>| s == #[trigger] (a + needle + b);
        let i: int = a.len() as int;
        assert(s.subrange(i, i + needle.len()) =~= needle);
        assert(occurs_in(needle, s));
    }
}

/// The number that digits stand for.
pub open spec fn number_of(digits: Seq<char>) -> int
    decreases digits.len(),
{
    if digits.len() == 0 {
        0
    } else {
        number_of(digits.drop_last()) * 10 + (digits.last() as int - '0' as int)
    }
}

/// The decimal digits of a number are digits, stand for that number, and do not begin with a
/// zero unless the number is zero.
pub proof fn law_decimal(n: nat)
    ensures
        number_of(decimal(n)) == n,
        decimal(n).len() > 0,
        forall|i: int| 0 <= i < decimal(n).len() ==> '0' <= #[trigger] decimal(n)[i] <= '9',
        decimal(n)[0] == '0' <==> n == 0,
        n == 0 ==> decimal(n).len() == 1,
    decreases n,
{
    reveal_with_fuel(number_of, 2);
    if n < 10 {
        assert(decimal(n).drop_last() =~= Seq::empty());
        assert(digit(n) as u32 == 48 + n);
    } else {
        law_decimal(n / 10);
        assert(decimal(n).drop_last() =~= decimal(n / 10));
        assert(digit(n % 10) as u32 == 48 + n % 10);
    }
}

} // verus!
