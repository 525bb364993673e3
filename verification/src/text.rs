//! Character-level text helpers shared by the other modules: searching,
//! comparing, trimming and decimal formatting, each stated over `Seq<char>`.

use vstd::prelude::*;

verus! {

/// `needle` occurs in `hay` starting at position `i`.
pub open spec fn occurs_at(hay: Seq<char>, needle: Seq<char>, i: int) -> bool {
    &&& 0 <= i
    &&& i + needle.len() <= hay.len()
    &&& hay.subrange(i, i + needle.len()) == needle
}

/// What `str::contains` with a string pattern decides: `needle` occurs somewhere in `hay`
/// (the empty needle occurs everywhere).
pub open spec fn seq_contains(hay: Seq<char>, needle: Seq<char>) -> bool {
    exists|i: int| occurs_at(hay, needle, i)
}

/// The characters of a string slice, in order.
pub fn chars_of(s: &str) -> (v: Vec<char>)
    ensures
        v@ == s@,
{
    let n = s.unicode_len();
    let mut v: Vec<char> = Vec::new();
    let mut i: usize = 0;
    while i < n
        invariant
            n == s@.len(),
            i <= n,
            v@ == s@.subrange(0, i as int),
        decreases n - i,
    {
        let c = s.get_char(i);
        v.push(c);
        i = i + 1;
        assert(v@ =~= s@.subrange(0, i as int));
    }
    assert(v@ =~= s@);
    v
}

/// Whether the two character sequences are equal.
pub fn chars_equal(a: &Vec<char>, b: &Vec<char>) -> (r: bool)
    ensures
        r == (a@ == b@),
{
    if a.len() != b.len() {
        return false;
    }
    let mut i: usize = 0;
    while i < a.len()
        invariant
            a.len() == b.len(),
            i <= a.len(),
            forall|k: int| 0 <= k < i ==> a@[k] == b@[k],
        decreases a.len() - i,
    {
        if a[i] != b[i] {
            return false;
        }
        i = i + 1;
    }
    assert(a@ =~= b@);
    true
}

/// Whether two string slices hold the same characters.
pub fn str_equal(a: &str, b: &str) -> (r: bool)
    ensures
        r == (a@ == b@),
{
    let av = chars_of(a);
    let bv = chars_of(b);
    chars_equal(&av, &bv)
}

/// Whether `needle` occurs in `hay` at position `i`.
fn matches_at(hay: &Vec<char>, needle: &Vec<char>, i: usize) -> (r: bool)
    requires
        i + needle.len() <= hay.len(),
    ensures
        r == occurs_at(hay@, needle@, i as int),
{
    let mut k: usize = 0;
    while k < needle.len()
        invariant
            i + needle.len() <= hay.len(),
            k <= needle.len(),
            forall|j: int| 0 <= j < k ==> hay@[i + j] == needle@[j],
        decreases needle.len() - k,
    {
        if hay[i + k] != needle[k] {
            assert(hay@.subrange(i as int, i + needle.len())[k as int] != needle@[k as int]);
            return false;
        }
        k = k + 1;
    }
    assert(hay@.subrange(i as int, i + needle.len()) =~= needle@);
    true
}

/// Substring search on character sequences, as `str::contains` does it.
pub fn chars_contain(hay: &Vec<char>, needle: &Vec<char>) -> (r: bool)
    ensures
        r == seq_contains(hay@, needle@),
{
    if needle.len() > hay.len() {
        assert forall|i: int| !occurs_at(hay@, needle@, i) by {}
        return false;
    }
    let last = hay.len() - needle.len();
    let mut i: usize = 0;
    loop
        invariant
            last == hay.len() - needle.len(),
            needle.len() <= hay.len(),
            i <= last,
            forall|j: int| 0 <= j < i ==> !occurs_at(hay@, needle@, j),
        decreases last - i,
    {
        if matches_at(hay, needle, i) {
            return true;
        }
        if i == last {
            assert forall|j: int| !occurs_at(hay@, needle@, j) by {
                if 0 <= j < i {
                }
            }
            return false;
        }
        i = i + 1;
    }
}

/// Whether the string slice `needle` occurs in the string slice `hay`.
pub fn str_contains(hay: &str, needle: &str) -> (r: bool)
    ensures
        r == seq_contains(hay@, needle@),
{
    let h = chars_of(hay);
    let n = chars_of(needle);
    chars_contain(&h, &n)
}


/// The characters for which `char::is_whitespace` holds: Unicode's White_Space property.
pub open spec fn is_white_space(c: char) -> bool {
    let v = c as u32;
    ||| (0x9 <= v && v <= 0xd)
    ||| v == 0x20
    ||| v == 0x85
    ||| v == 0xa0
    ||| v == 0x1680
    ||| (0x2000 <= v && v <= 0x200a)
    ||| v == 0x2028
    ||| v == 0x2029
    ||| v == 0x202f
    ||| v == 0x205f
    ||| v == 0x3000
}

/// Which characters a trim removes from both ends.
#[derive(Clone, Copy, PartialEq, Eq, Debug)]
pub enum TrimSet {
    /// White space, as `str::trim` removes it.
    Whitespace,
    /// The double quote, as `str::trim_matches('"')` removes it.
    DoubleQuote,
}

/// Whether `c` belongs to the set that a trim removes.
pub open spec fn in_trim_set(set: TrimSet, c: char) -> bool {
    match set {
        TrimSet::Whitespace => is_white_space(c),
        TrimSet::DoubleQuote => c == '"',
    }
}

/// `s` without its leading characters from `set`.
pub open spec fn strip_front(s: Seq<char>, set: TrimSet) -> Seq<char>
    decreases s.len(),
{
    if s.len() > 0 && in_trim_set(set, s[0]) {
        strip_front(s.drop_first(), set)
    } else {
        s
    }
}

/// `s` without its trailing characters from `set`.
pub open spec fn strip_back(s: Seq<char>, set: TrimSet) -> Seq<char>
    decreases s.len(),
{
    if s.len() > 0 && in_trim_set(set, s.last()) {
        strip_back(s.drop_last(), set)
    } else {
        s
    }
}

/// `s` without its leading and trailing characters from `set`.
pub open spec fn spec_trim(s: Seq<char>, set: TrimSet) -> Seq<char> {
    strip_back(strip_front(s, set), set)
}

fn is_white_space_char(c: char) -> (r: bool)
    ensures
        r == is_white_space(c),
{
    let v = c as u32;
    (0x9 <= v && v <= 0xd) || v == 0x20 || v == 0x85 || v == 0xa0 || v == 0x1680 || (0x2000 <= v
        && v <= 0x200a) || v == 0x2028 || v == 0x2029 || v == 0x202f || v == 0x205f || v == 0x3000
}

fn in_set(set: TrimSet, c: char) -> (r: bool)
    ensures
        r == in_trim_set(set, c),
{
    match set {
        TrimSet::Whitespace => is_white_space_char(c),
        TrimSet::DoubleQuote => c == '"',
    }
}

/// `s` with the characters of `set` removed from both ends.
pub fn trim_set(s: &str, set: TrimSet) -> (r: String)
    ensures
        r@ == spec_trim(s@, set),
{
    let v = chars_of(s);
    let n = v.len();
    let mut i: usize = 0;
    assert(s@.subrange(0, n as int) =~= s@);
    while i < n && in_set(set, v[i])
        invariant
            v@ == s@,
            n == s@.len(),
            i <= n,
            strip_front(s@, set) == strip_front(s@.subrange(i as int, n as int), set),
        decreases n - i,
    {
        assert(s@.subrange(i as int, n as int).drop_first() =~= s@.subrange(i + 1, n as int));
        i = i + 1;
    }
    assert(strip_front(s@, set) == s@.subrange(i as int, n as int));
    let mut j: usize = n;
    while j > i && in_set(set, v[j - 1])
        invariant
            v@ == s@,
            n == s@.len(),
            i <= j <= n,
            strip_back(s@.subrange(i as int, n as int), set) == strip_back(
                s@.subrange(i as int, j as int),
                set,
            ),
        decreases j,
    {
        assert(s@.subrange(i as int, j as int).drop_last() =~= s@.subrange(i as int, j - 1));
        j = j - 1;
    }
    assert(strip_back(s@.subrange(i as int, j as int), set) == s@.subrange(i as int, j as int));
    String::from_str(s.substring_char(i, j))
}

/// `str::trim`: `s` without leading and trailing white space.
pub fn trim(s: &str) -> (r: String)
    ensures
        r@ == spec_trim(s@, TrimSet::Whitespace),
{
    trim_set(s, TrimSet::Whitespace)
}

/// `str::trim_matches('"')`: `s` without leading and trailing double quotes.
pub fn trim_double_quotes(s: &str) -> (r: String)
    ensures
        r@ == spec_trim(s@, TrimSet::DoubleQuote),
{
    trim_set(s, TrimSet::DoubleQuote)
}

/// The concatenation of two strings.
pub fn concat_str(a: &str, b: &str) -> (r: String)
    ensures
        r@ == a@ + b@,
{
    let mut s = String::from_str(a);
    s.append(b);
    s
}

/// The ten decimal digits in order.
pub open spec fn digit_chars() -> Seq<char> {
    seq!['0', '1', '2', '3', '4', '5', '6', '7', '8', '9']
}

/// The character of the decimal digit `d`.
pub open spec fn digit_char(d: nat) -> char {
    digit_chars()[d as int]
}

/// The decimal representation of `n`, as `Display` writes an unsigned integer:
/// no sign, no leading zeros, and "0" for zero.
pub open spec fn spec_decimal(n: nat) -> Seq<char>
    decreases n,
{
    if n < 10 {
        seq![digit_char(n)]
    } else {
        spec_decimal(n / 10).push(digit_char(n % 10))
    }
}

/// The value of a digit character (meaningful on '0'..='9').
pub open spec fn digit_value(c: char) -> nat {
    ((c as u32) - ('0' as u32)) as nat
}

/// The number that a string of decimal digits denotes.
pub open spec fn decimal_value(s: Seq<char>) -> nat
    decreases s.len(),
{
    if s.len() == 0 {
        0
    } else {
        decimal_value(s.drop_last()) * 10 + digit_value(s.last())
    }
}

/// The digit `d` as a one-character string.
fn digit_string(d: usize) -> (r: String)
    requires
        d < 10,
    ensures
        r@ == seq![digit_char(d as nat)],
{
    let digits = "0123456789";
    proof {
        reveal_strlit("0123456789");
    }
    assert(digits@ =~= digit_chars());
    let r = String::from_str(digits.substring_char(d, d + 1));
    assert(r@ =~= seq![digit_char(d as nat)]);
    r
}

/// `n` written in decimal, as `format!("{}", n)` writes it.
pub fn decimal_string(n: usize) -> (r: String)
    ensures
        r@ == spec_decimal(n as nat),
    decreases n,
{
    if n < 10 {
        digit_string(n)
    } else {
        let mut s = decimal_string(n / 10);
        let d = digit_string(n % 10);
        s.append(d.as_str());
        s
    }
}

proof fn lemma_digit_value(d: nat)
    requires
        d < 10,
    ensures
        digit_value(digit_char(d)) == d,
{
    let ds = digit_chars();
    if d == 0 {
        assert(ds[0] == '0');
    } else if d == 1 {
        assert(ds[1] == '1');
    } else if d == 2 {
        assert(ds[2] == '2');
    } else if d == 3 {
        assert(ds[3] == '3');
    } else if d == 4 {
        assert(ds[4] == '4');
    } else if d == 5 {
        assert(ds[5] == '5');
    } else if d == 6 {
        assert(ds[6] == '6');
    } else if d == 7 {
        assert(ds[7] == '7');
    } else if d == 8 {
        assert(ds[8] == '8');
    } else {
        assert(ds[9] == '9');
    }
}

/// Reading back a decimal representation gives the number that was written.
pub proof fn lemma_decimal_roundtrip(n: nat)
    ensures
        decimal_value(spec_decimal(n)) == n,
        spec_decimal(n).len() >= 1,
        forall|i: int| 0 <= i < spec_decimal(n).len() ==> digit_chars().contains(#[trigger] spec_decimal(n)[i]),
    decreases n,
{
    let ds = digit_chars();
    if n < 10 {
        lemma_digit_value(n);
        assert(spec_decimal(n).drop_last() =~= Seq::<char>::empty());
        assert(decimal_value(Seq::<char>::empty()) == 0);
        assert(decimal_value(spec_decimal(n)) == digit_value(digit_char(n)));
        assert(ds.contains(ds[n as int]));
    } else {
        lemma_decimal_roundtrip(n / 10);
        let s = spec_decimal(n);
        assert(s.drop_last() =~= spec_decimal(n / 10));
        assert(ds.contains(ds[(n % 10) as int]));
        lemma_digit_value(n % 10);
        assert(s.last() == digit_char(n % 10));
        assert(decimal_value(s) == decimal_value(spec_decimal(n / 10)) * 10 + digit_value(
            digit_char(n % 10),
        ));
        assert((n / 10) * 10 + n % 10 == n) by (nonlinear_arith);
    }
}

/// Distinct numbers have distinct decimal representations.
pub proof fn lemma_decimal_injective(a: nat, b: nat)
    requires
        spec_decimal(a) == spec_decimal(b),
    ensures
        a == b,
{
    lemma_decimal_roundtrip(a);
    lemma_decimal_roundtrip(b);
}

/// Every character is ASCII.
pub open spec fn is_ascii_text(s: Seq<char>) -> bool {
    forall|i: int| 0 <= i < s.len() ==> (#[trigger] s[i] as u32) < 128
}

/// The ASCII lower-case of a character: 'A'..='Z' become 'a'..='z', others stay.
pub open spec fn ascii_lower(c: char) -> char {
    if 65 <= (c as u32) && (c as u32) <= 90 {
        ((c as u32) + 32) as char
    } else {
        c
    }
}

/// The ASCII upper-case of a character: 'a'..='z' become 'A'..='Z', others stay.
pub open spec fn ascii_upper(c: char) -> char {
    if 97 <= (c as u32) && (c as u32) <= 122 {
        ((c as u32) - 32) as char
    } else {
        c
    }
}

/// The name of what `str::to_lowercase` returns for a string.
pub uninterp spec fn spec_to_lowercase(s: Seq<char>) -> Seq<char>;

/// The name of what `str::to_uppercase` returns for a string.
pub uninterp spec fn spec_to_uppercase(s: Seq<char>) -> Seq<char>;

/// Calls `str::to_lowercase` (std's Unicode lower-case mapping). Its contract claims that the
/// result is a function of the input's characters, named `spec_to_lowercase`, and, as the
/// Unicode mapping does on ASCII, that an ASCII string has its letters A-Z mapped to a-z.
#[verifier::external_body]
pub(crate) fn to_lowercase(s: &str) -> (r: String)
    ensures
        r@ == spec_to_lowercase(s@),
        is_ascii_text(s@) ==> r@ == s@.map_values(|c: char| ascii_lower(c)),
{
    s.to_lowercase()
}

/// Calls `str::to_uppercase` (std's Unicode upper-case mapping). Its contract claims that the
/// result is a function of the input's characters, named `spec_to_uppercase`, and, as the
/// Unicode mapping does on ASCII, that an ASCII string has its letters a-z mapped to A-Z.
#[verifier::external_body]
pub(crate) fn to_uppercase(s: &str) -> (r: String)
    ensures
        r@ == spec_to_uppercase(s@),
        is_ascii_text(s@) ==> r@ == s@.map_values(|c: char| ascii_upper(c)),
{
    s.to_uppercase()
}

} // verus!
