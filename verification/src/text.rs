//! Character-level string helpers: the building blocks for the library's
//! formatting and matching, stated over `Seq<char>` views.
use vstd::prelude::*;
use vstd::string::*;

verus! {

/// The characters of a string slice, in order.
pub fn chars_of(s: &str) -> (v: Vec<char>)
    ensures
        v@ == s@,
{
    let mut v: Vec<char> = Vec::new();
    for c in it: s.chars()
        invariant
            v@ == it.seq().take(it.index() as int),
            it.seq() == s@,
    {
        v.push(c);
    }
    v
}

/// Appends one character to a string (`String::push`).
#[verifier::external_body]
pub(crate) fn push_char(s: &mut String, c: char)
    ensures
        final(s)@ == old(s)@.push(c),
{
    s.push(c);
}

/// Appends a string slice to a string.
pub fn push_str(s: &mut String, t: &str)
    ensures
        final(s)@ == old(s)@ + t@,
{
    s.append(t);
}

/// An owned copy of a string slice.
pub fn to_owned_string(t: &str) -> (r: String)
    ensures
        r@ == t@,
{
    t.to_owned()
}

/// A string holding exactly the given characters.
pub fn string_from_chars(v: &Vec<char>) -> (r: String)
    ensures
        r@ == v@,
{
    let mut r = String::new();
    let mut i: usize = 0;
    while i < v.len()
        invariant
            i <= v.len(),
            r@ == v@.take(i as int),
        decreases v.len() - i,
    {
        push_char(&mut r, v[i]);
        i = i + 1;
        assert(r@ =~= v@.take(i as int));
    }
    assert(v@.take(v.len() as int) =~= v@);
    r
}

/// `p` occurs in `s` starting at position `i`.
pub open spec fn occurs_at(s: Seq<char>, p: Seq<char>, i: int) -> bool {
    0 <= i && i + p.len() <= s.len() && s.subrange(i, i + p.len()) == p
}

/// `p` occurs somewhere in `s` (the empty pattern occurs everywhere).
pub open spec fn seq_contains(s: Seq<char>, p: Seq<char>) -> bool {
    exists|i: int| occurs_at(s, p, i)
}

/// `s` begins with `p`.
pub open spec fn seq_starts_with(s: Seq<char>, p: Seq<char>) -> bool {
    p.len() <= s.len() && s.subrange(0, p.len() as int) == p
}

/// The first position at which `p` occurs in `s`, if any.
pub open spec fn first_occurrence(s: Seq<char>, p: Seq<char>) -> Option<int> {
    if seq_contains(s, p) {
        Some(choose|i: int| occurs_at(s, p, i) && forall|j: int| 0 <= j < i ==> !occurs_at(s, p, j))
    } else {
        None
    }
}

/// Some occurrence of `p` at or before `n` has no occurrence before it.
proof fn lemma_first_occurrence_from(s: Seq<char>, p: Seq<char>, n: int)
    requires
        occurs_at(s, p, n),
    ensures
        exists|i: int| occurs_at(s, p, i) && forall|j: int| 0 <= j < i ==> !occurs_at(s, p, j),
    decreases n,
{
    if exists|j: int| 0 <= j < n && occurs_at(s, p, j) {
        let j = choose|j: int| 0 <= j < n && occurs_at(s, p, j);
        lemma_first_occurrence_from(s, p, j);
    } else {
        assert(occurs_at(s, p, n) && forall|j: int| 0 <= j < n ==> !occurs_at(s, p, j));
    }
}

/// When `p` occurs in `s`, its first occurrence is an occurrence with none
/// before it.
pub proof fn lemma_first_occurrence(s: Seq<char>, p: Seq<char>)
    ensures
        seq_contains(s, p) ==> first_occurrence(s, p) is Some && occurs_at(s, p, first_occurrence(s, p)->0)
            && forall|j: int| 0 <= j < first_occurrence(s, p)->0 ==> !occurs_at(s, p, j),
{
    if seq_contains(s, p) {
        let n = choose|n: int| occurs_at(s, p, n);
        lemma_first_occurrence_from(s, p, n);
    }
}

/// `r` is a contiguous part of `s`.
pub open spec fn is_part(r: Seq<char>, s: Seq<char>) -> bool {
    exists|a: int, b: int| 0 <= a <= b <= s.len() && r == s.subrange(a, b)
}

/// No character of `s` is `c`.
pub open spec fn lacks(s: Seq<char>, c: char) -> bool {
    forall|i: int| 0 <= i < s.len() ==> s[i] != c
}

/// A part of a part of `t` is a part of `t`.
pub proof fn lemma_part_of_part(r: Seq<char>, s: Seq<char>, t: Seq<char>)
    requires
        is_part(r, s),
        is_part(s, t),
    ensures
        is_part(r, t),
{
    let (a, b) = choose|a: int, b: int| 0 <= a <= b <= s.len() && r == s.subrange(a, b);
    let (c, d) = choose|c: int, d: int| 0 <= c <= d <= t.len() && s == t.subrange(c, d);
    assert(r =~= t.subrange(c + a, c + b));
}

/// A part of a text without `c` has no `c`.
pub proof fn lemma_part_lacks(r: Seq<char>, s: Seq<char>, c: char)
    requires
        is_part(r, s),
        lacks(s, c),
    ensures
        lacks(r, c),
{
    let (a, b) = choose|a: int, b: int| 0 <= a <= b <= s.len() && r == s.subrange(a, b);
    assert forall|i: int| 0 <= i < r.len() implies r[i] != c by {
        assert(r[i] == s[a + i]);
    }
}

/// A prefix of a text is a part of it.
pub proof fn lemma_prefix_is_part(s: Seq<char>, n: int)
    requires
        0 <= n <= s.len(),
    ensures
        is_part(s.subrange(0, n), s),
{
    assert(s.subrange(0, n) == s.subrange(0, n));
}

/// A trimmed text begins and ends with characters that are not
/// whitespace, so trimming it again changes nothing.
pub proof fn lemma_trim_trimmed(s: Seq<char>)
    ensures
        trim_spec(s).len() > 0 ==> !unicode_whitespace(trim_spec(s)[0]) && !unicode_whitespace(
            trim_spec(s).last(),
        ),
        trim_spec(trim_spec(s)) == trim_spec(s),
{
    lemma_leading_ws(s);
    lemma_trailing_ws(s);
    let t = trim_spec(s);
    let a = leading_ws(s);
    if a < s.len() {
        let e = s.len() - trailing_ws(s);
        if e <= a {
            assert(unicode_whitespace(s[a as int]));
        }
        assert(t[0] == s[a as int]);
        assert(t.last() == s[e - 1]);
        assert(leading_ws(t) == 0);
        assert(trailing_ws(t) == 0);
        assert(trim_spec(t) =~= t);
    } else {
        assert(t.len() == 0);
        assert(trim_spec(t) =~= t);
    }
}

/// Trimming keeps a contiguous part of the text.
pub proof fn lemma_trim_is_part(s: Seq<char>)
    ensures
        is_part(trim_spec(s), s),
{
    lemma_leading_ws(s);
    lemma_trailing_ws(s);
    let a = leading_ws(s);
    if a == s.len() {
        assert(trim_spec(s) =~= s.subrange(0, 0));
    } else {
        let e = s.len() - trailing_ws(s);
        if e <= a {
            assert(unicode_whitespace(s[a as int]));
        }
        assert(trim_spec(s) == s.subrange(a as int, e));
    }
}

/// Whether `p` occurs in `s` at position `i`.
pub fn matches_at(s: &Vec<char>, p: &Vec<char>, i: usize) -> (b: bool)
    ensures
        b == occurs_at(s@, p@, i as int),
{
    if i > s.len() || p.len() > s.len() - i {
        return false;
    }
    let mut k: usize = 0;
    while k < p.len()
        invariant
            i + p.len() <= s.len(),
            k <= p.len(),
            forall|j: int| 0 <= j < k ==> s@[i + j] == p@[j],
        decreases p.len() - k,
    {
        if s[i + k] != p[k] {
            assert(s@.subrange(i as int, i + p.len())[k as int] != p@[k as int]);
            return false;
        }
        k = k + 1;
    }
    assert(s@.subrange(i as int, i + p.len()) =~= p@);
    true
}

/// The first position at which `p` occurs in `s`.
pub fn find_first(s: &Vec<char>, p: &Vec<char>) -> (r: Option<usize>)
    ensures
        match r {
            Some(i) => occurs_at(s@, p@, i as int) && forall|j: int|
                0 <= j < i ==> !occurs_at(s@, p@, j),
            None => !seq_contains(s@, p@),
        },
        r is Some <==> seq_contains(s@, p@),
        r matches Some(i) ==> first_occurrence(s@, p@) == Some(i as int),
{
    if p.len() > s.len() {
        assert(!seq_contains(s@, p@));
        return None;
    }
    let limit = s.len() - p.len();
    let mut i: usize = 0;
    loop
        invariant
            p.len() <= s.len(),
            limit == s.len() - p.len(),
            i <= limit,
            forall|j: int| 0 <= j < i ==> !occurs_at(s@, p@, j),
        decreases limit - i,
    {
        if matches_at(s, p, i) {
            proof {
                let f = choose|k: int| occurs_at(s@, p@, k) && forall|j: int| 0 <= j < k ==> !occurs_at(s@, p@, j);
                assert(occurs_at(s@, p@, f) && forall|j: int| 0 <= j < f ==> !occurs_at(s@, p@, j));
                if f < i {
                    assert(!occurs_at(s@, p@, f));
                } else if f > i {
                    assert(!occurs_at(s@, p@, i as int));
                }
            }
            return Some(i);
        }
        if i == limit {
            assert forall|j: int| !occurs_at(s@, p@, j) by {
                if 0 <= j <= i {
                }
            }
            return None;
        }
        i = i + 1;
    }
}

/// Whether `needle` occurs in `hay`.
pub fn str_contains(hay: &str, needle: &str) -> (b: bool)
    ensures
        b == seq_contains(hay@, needle@),
{
    let h = chars_of(hay);
    let n = chars_of(needle);
    find_first(&h, &n).is_some()
}

/// Whether `s` begins with `p`.
pub fn starts_with_chars(s: &Vec<char>, p: &Vec<char>) -> (b: bool)
    ensures
        b == seq_starts_with(s@, p@),
{
    let b = matches_at(s, p, 0);
    proof {
        if b {
            assert(occurs_at(s@, p@, 0));
        }
    }
    b
}

/// Whether `s` begins with `p`.
pub fn str_starts_with(s: &str, p: &str) -> (b: bool)
    ensures
        b == seq_starts_with(s@, p@),
{
    let sv = chars_of(s);
    let pv = chars_of(p);
    starts_with_chars(&sv, &pv)
}

/// Whether two character sequences are equal.
pub fn chars_eq(a: &Vec<char>, b: &Vec<char>) -> (r: bool)
    ensures
        r == (a@ == b@),
{
    if a.len() != b.len() {
        return false;
    }
    let r = matches_at(a, b, 0);
    proof {
        if r {
            assert(a@.subrange(0, b@.len() as int) =~= a@);
        } else {
            assert(a@.subrange(0, b@.len() as int) =~= a@);
        }
    }
    r
}

/// Whether two string slices are equal.
pub fn str_eq(a: &str, b: &str) -> (r: bool)
    ensures
        r == (a@ == b@),
{
    let av = chars_of(a);
    let bv = chars_of(b);
    chars_eq(&av, &bv)
}

/// The decimal digit character for `d < 10`.
pub open spec fn digit_char(d: nat) -> char {
    ((48 + d) as u32) as char
}

/// The decimal representation of a natural number, without leading zeros.
pub open spec fn nat_decimal(n: nat) -> Seq<char>
    decreases n,
{
    if n < 10 {
        seq![digit_char(n)]
    } else {
        nat_decimal(n / 10).push(digit_char(n % 10))
    }
}

/// The decimal representation of an integer, as `{}` prints it.
pub open spec fn int_decimal(i: int) -> Seq<char> {
    if i < 0 {
        seq!['-'] + nat_decimal((-i) as nat)
    } else {
        nat_decimal(i as nat)
    }
}

/// `digits` padded on the left with zeros to at least `width` characters.
pub open spec fn zero_pad(digits: Seq<char>, width: nat) -> Seq<char> {
    if digits.len() >= width {
        digits
    } else {
        Seq::new((width - digits.len()) as nat, |i: int| '0') + digits
    }
}

/// An integer printed as `{:0w$}` prints it: the sign counts towards the
/// width, and the zeros go between the sign and the digits.
pub open spec fn int_zero_padded(i: int, width: nat) -> Seq<char> {
    if i < 0 {
        seq!['-'] + zero_pad(nat_decimal((-i) as nat), if width > 0 { (width - 1) as nat } else { 0 })
    } else {
        zero_pad(nat_decimal(i as nat), width)
    }
}

proof fn lemma_nat_decimal_nonempty(n: nat)
    ensures
        nat_decimal(n).len() >= 1,
    decreases n,
{
    if n >= 10 {
        lemma_nat_decimal_nonempty(n / 10);
    }
}

/// The decimal text of a number is one or more ASCII digits, no colon
/// among them, and reads back as the number.
pub proof fn lemma_nat_decimal_reads_back(n: nat)
    ensures
        nat_decimal(n).len() >= 1,
        all_digits(nat_decimal(n)),
        digits_value(nat_decimal(n)) == n,
    decreases n,
{
    if n >= 10 {
        lemma_nat_decimal_reads_back(n / 10);
        let p = nat_decimal(n / 10);
        let d = p.push(digit_char(n % 10));
        assert(d.drop_last() =~= p);
        assert(digit_char(n % 10) as int == 48 + n % 10);
        assert(nat_decimal(n) == d);
        assert(d.last() == digit_char(n % 10));
        assert(digits_value(d) == digits_value(p) * 10 + (d.last() as int - 48));
        assert((n / 10) * 10 + n % 10 == n);
        assert forall|i: int| 0 <= i < d.len() implies '0' <= #[trigger] d[i] <= '9' by {
            if i < p.len() {
                assert(d[i] == p[i]);
            }
        }
    } else {
        let d = seq![digit_char(n)];
        assert(digit_char(n) as int == 48 + n);
        assert(nat_decimal(n) == d);
        assert(d.drop_last() =~= Seq::<char>::empty());
        assert(digits_value(Seq::<char>::empty()) == 0);
        assert(digits_value(d) == digits_value(d.drop_last()) * 10 + (d.last() as int - 48));
    }
}

/// Appends the decimal digits of `n`.
pub fn push_nat_decimal(s: &mut String, n: u64)
    ensures
        final(s)@ == old(s)@ + nat_decimal(n as nat),
    decreases n,
{
    if n >= 10 {
        push_nat_decimal(s, n / 10);
    }
    let d: u8 = (n % 10) as u8;
    let c: char = (48u8 + d) as char;
    assert(c == digit_char((n % 10) as nat));
    push_char(s, c);
    assert(final(s)@ =~= old(s)@ + nat_decimal(n as nat));
}

/// Appends `count` zero characters.
pub fn push_zeros(s: &mut String, count: usize)
    ensures
        final(s)@ == old(s)@ + Seq::new(count as nat, |i: int| '0'),
{
    let mut k: usize = 0;
    while k < count
        invariant
            k <= count,
            s@ == old(s)@ + Seq::new(k as nat, |i: int| '0'),
        decreases count - k,
    {
        push_char(s, '0');
        k = k + 1;
        assert(s@ =~= old(s)@ + Seq::new(k as nat, |i: int| '0'));
    }
}

/// Appends `n` zero-padded to at least `width` digits.
pub fn push_nat_padded(s: &mut String, n: u64, width: usize)
    ensures
        final(s)@ == old(s)@ + zero_pad(nat_decimal(n as nat), width as nat),
{
    let mut d = String::new();
    push_nat_decimal(&mut d, n);
    assert(d@ =~= nat_decimal(n as nat));
    let len = d.as_str().unicode_len();
    if len < width {
        push_zeros(s, width - len);
    }
    push_str(s, d.as_str());
    assert(final(s)@ =~= old(s)@ + zero_pad(nat_decimal(n as nat), width as nat));
}

/// The magnitude of an `i64`, as a `u64`.
pub fn magnitude(i: i64) -> (r: u64)
    ensures
        r as int == if i < 0 { -i } else { i as int },
{
    if i >= 0 {
        i as u64
    } else if i == i64::MIN {
        9223372036854775808u64
    } else {
        (-i) as u64
    }
}

/// Appends the decimal representation of `i` (`{}`).
pub fn push_int_decimal(s: &mut String, i: i64)
    ensures
        final(s)@ == old(s)@ + int_decimal(i as int),
{
    if i < 0 {
        push_char(s, '-');
    }
    push_nat_decimal(s, magnitude(i));
    assert(final(s)@ =~= old(s)@ + int_decimal(i as int));
}

/// Appends `i` zero-padded to `width` characters (`{:0width$}`).
pub fn push_int_zero_padded(s: &mut String, i: i64, width: usize)
    ensures
        final(s)@ == old(s)@ + int_zero_padded(i as int, width as nat),
{
    if i < 0 {
        push_char(s, '-');
        push_nat_padded(s, magnitude(i), if width > 0 { width - 1 } else { 0 });
    } else {
        push_nat_padded(s, magnitude(i), width);
    }
    assert(final(s)@ =~= old(s)@ + int_zero_padded(i as int, width as nat));
}

/// The lowercase hexadecimal digit for `d < 16`.
pub open spec fn hex_char(d: nat) -> char {
    if d < 10 {
        digit_char(d)
    } else {
        ((97 + d - 10) as u32) as char
    }
}

/// The last `width` hexadecimal digits of `n`, most significant first.
pub open spec fn hex_fixed(n: nat, width: nat) -> Seq<char>
    decreases width,
{
    if width == 0 {
        seq![]
    } else {
        hex_fixed(n / 16, (width - 1) as nat).push(hex_char(n % 16))
    }
}

/// Appends the last `width` hexadecimal digits of `n`.
pub fn push_hex_fixed(s: &mut String, n: u64, width: usize)
    ensures
        final(s)@ == old(s)@ + hex_fixed(n as nat, width as nat),
    decreases width,
{
    if width > 0 {
        push_hex_fixed(s, n / 16, width - 1);
        let d: u8 = (n % 16) as u8;
        let c: char = if d < 10 {
            (48u8 + d) as char
        } else {
            (87u8 + d) as char
        };
        assert(c == hex_char((n % 16) as nat));
        push_char(s, c);
    }
    assert(final(s)@ =~= old(s)@ + hex_fixed(n as nat, width as nat));
}

/// ASCII lowercase of one character: `A`..=`Z` become `a`..=`z`.
pub open spec fn ascii_lower(c: char) -> char {
    if 'A' <= c <= 'Z' {
        ((c as u32) + 32) as char
    } else {
        c
    }
}

/// ASCII lowercase of one character.
pub fn ascii_lower_char(c: char) -> (r: char)
    ensures
        r == ascii_lower(c),
{
    if 'A' <= c && c <= 'Z' {
        let u: u32 = c as u32;
        let r = ((u + 32) as u8) as char;
        assert(r == ascii_lower(c));
        r
    } else {
        c
    }
}

/// ASCII lowercase of a sequence of characters.
pub open spec fn ascii_lower_seq(s: Seq<char>) -> Seq<char> {
    s.map_values(|c: char| ascii_lower(c))
}

/// ASCII lowercase of a string slice (`str::to_ascii_lowercase`).
pub fn ascii_lowercase(s: &str) -> (r: Vec<char>)
    ensures
        r@ == ascii_lower_seq(s@),
{
    let v = chars_of(s);
    let mut r: Vec<char> = Vec::new();
    let mut i: usize = 0;
    while i < v.len()
        invariant
            i <= v.len(),
            v@ == s@,
            r@ == ascii_lower_seq(v@.take(i as int)),
        decreases v.len() - i,
    {
        let c = ascii_lower_char(v[i]);
        r.push(c);
        i = i + 1;
        assert(r@ =~= ascii_lower_seq(v@.take(i as int)));
    }
    assert(v@.take(v.len() as int) =~= v@);
    r
}

/// Whether every character of a text is ASCII.
pub open spec fn all_ascii(s: Seq<char>) -> bool {
    forall|i: int| 0 <= i < s.len() ==> (#[trigger] s[i] as u32) < 128
}

/// What `str::to_lowercase` gives for a text with a character outside
/// ASCII: the Unicode lowercase mapping of each character, joined, except
/// that a capital sigma ending a word becomes the final sigma `ς`.
pub uninterp spec fn std_lowercase(s: Seq<char>) -> Seq<char>;

/// The lowercase of a text as `str::to_lowercase` gives it: for an ASCII
/// text, each capital letter `A`–`Z` becomes `a`–`z` and nothing else
/// changes.
pub open spec fn unicode_lowercase(s: Seq<char>) -> Seq<char> {
    if all_ascii(s) {
        ascii_lower_seq(s)
    } else {
        std_lowercase(s)
    }
}

/// Unicode lowercase of a string slice (`str::to_lowercase`).
#[verifier::external_body]
pub(crate) fn to_lowercase(s: &str) -> (r: String)
    ensures
        r@ == (if all_ascii(s@) {
            ascii_lower_seq(s@)
        } else {
            std_lowercase(s@)
        }),
{
    s.to_lowercase()
}

/// An ASCII letter or digit.
pub open spec fn ascii_alphanumeric(c: char) -> bool {
    ||| 48 <= (c as u32) <= 57
    ||| 65 <= (c as u32) <= 90
    ||| 97 <= (c as u32) <= 122
}

/// What `char::is_alphanumeric` gives for a character outside ASCII:
/// whether it has the Unicode `Alphabetic` property or is numeric.
pub uninterp spec fn std_alphanumeric(c: char) -> bool;

/// Whether a character is alphanumeric as `char::is_alphanumeric` says:
/// for an ASCII character, whether it is a letter or a digit.
pub open spec fn unicode_alphanumeric(c: char) -> bool {
    if (c as u32) < 128 {
        ascii_alphanumeric(c)
    } else {
        std_alphanumeric(c)
    }
}

/// Whether a character is alphanumeric (`char::is_alphanumeric`).
#[verifier::external_body]
pub(crate) fn is_alphanumeric(c: char) -> (r: bool)
    ensures
        r == (if (c as u32) < 128 {
            ascii_alphanumeric(c)
        } else {
            std_alphanumeric(c)
        }),
{
    c.is_alphanumeric()
}

/// Whether a character has the Unicode `White_Space` property, as
/// `char::is_whitespace` says: tab to carriage return, space, next line,
/// no-break space, ogham space mark, the spaces U+2000 to U+200A, the line
/// and paragraph separators, the narrow no-break space, the medium
/// mathematical space and the ideographic space.
pub open spec fn unicode_whitespace(c: char) -> bool {
    let u = c as u32;
    ||| 0x09 <= u <= 0x0D
    ||| u == 0x20
    ||| u == 0x85
    ||| u == 0xA0
    ||| u == 0x1680
    ||| 0x2000 <= u <= 0x200A
    ||| u == 0x2028
    ||| u == 0x2029
    ||| u == 0x202F
    ||| u == 0x205F
    ||| u == 0x3000
}

/// Whether a character is whitespace (`char::is_whitespace`).
#[verifier::external_body]
pub(crate) fn is_whitespace(c: char) -> (r: bool)
    ensures
        r == unicode_whitespace(c),
{
    c.is_whitespace()
}

/// The number of whitespace characters `s` begins with.
pub open spec fn leading_ws(s: Seq<char>) -> nat
    decreases s.len(),
{
    if s.len() == 0 || !unicode_whitespace(s[0]) {
        0
    } else {
        1 + leading_ws(s.skip(1))
    }
}

/// The number of whitespace characters `s` ends with.
pub open spec fn trailing_ws(s: Seq<char>) -> nat
    decreases s.len(),
{
    if s.len() == 0 || !unicode_whitespace(s.last()) {
        0
    } else {
        1 + trailing_ws(s.drop_last())
    }
}

/// `s` without its leading and trailing whitespace (`str::trim`).
pub open spec fn trim_spec(s: Seq<char>) -> Seq<char> {
    let a = leading_ws(s);
    if a == s.len() {
        Seq::empty()
    } else {
        s.subrange(a as int, s.len() - trailing_ws(s))
    }
}

proof fn lemma_leading_ws(s: Seq<char>)
    ensures
        leading_ws(s) <= s.len(),
        forall|i: int| 0 <= i < leading_ws(s) ==> unicode_whitespace(#[trigger] s[i]),
        leading_ws(s) < s.len() ==> !unicode_whitespace(s[leading_ws(s) as int]),
    decreases s.len(),
{
    if s.len() > 0 && unicode_whitespace(s[0]) {
        lemma_leading_ws(s.skip(1));
        assert forall|i: int| 0 <= i < leading_ws(s) implies unicode_whitespace(#[trigger] s[i]) by {
            if i > 0 {
                assert(s[i] == s.skip(1)[i - 1]);
            }
        }
        if leading_ws(s) < s.len() {
            assert(s[leading_ws(s) as int] == s.skip(1)[leading_ws(s.skip(1)) as int]);
        }
    }
}

proof fn lemma_trailing_ws(s: Seq<char>)
    ensures
        trailing_ws(s) <= s.len(),
        forall|i: int| s.len() - trailing_ws(s) <= i < s.len() ==> unicode_whitespace(#[trigger] s[i]),
        trailing_ws(s) < s.len() ==> !unicode_whitespace(s[s.len() - trailing_ws(s) - 1]),
    decreases s.len(),
{
    if s.len() > 0 && unicode_whitespace(s.last()) {
        lemma_trailing_ws(s.drop_last());
        assert forall|i: int| s.len() - trailing_ws(s) <= i < s.len() implies unicode_whitespace(#[trigger] s[i]) by {
            if i < s.len() - 1 {
                assert(s[i] == s.drop_last()[i]);
            }
        }
        if trailing_ws(s) < s.len() {
            assert(s[s.len() - trailing_ws(s) - 1] == s.drop_last()[s.drop_last().len() - trailing_ws(s.drop_last()) - 1]);
        }
    }
}

/// The leading whitespace count, found by scanning.
fn count_leading_ws(v: &Vec<char>) -> (r: usize)
    ensures
        r == leading_ws(v@),
{
    proof {
        lemma_leading_ws(v@);
    }
    let mut i: usize = 0;
    while i < v.len() && is_whitespace(v[i])
        invariant
            i <= v@.len(),
            i <= leading_ws(v@),
            leading_ws(v@) <= v@.len(),
            forall|k: int| 0 <= k < leading_ws(v@) ==> unicode_whitespace(#[trigger] v@[k]),
            leading_ws(v@) < v@.len() ==> !unicode_whitespace(v@[leading_ws(v@) as int]),
        decreases v@.len() - i,
    {
        i = i + 1;
    }
    i
}

/// The trailing whitespace count, found by scanning.
fn count_trailing_ws(v: &Vec<char>) -> (r: usize)
    ensures
        r == trailing_ws(v@),
{
    proof {
        lemma_trailing_ws(v@);
    }
    let mut k: usize = 0;
    while k < v.len() && is_whitespace(v[v.len() - 1 - k])
        invariant
            k <= v@.len(),
            k <= trailing_ws(v@),
            trailing_ws(v@) <= v@.len(),
            forall|i: int| v@.len() - trailing_ws(v@) <= i < v@.len() ==> unicode_whitespace(#[trigger] v@[i]),
            trailing_ws(v@) < v@.len() ==> !unicode_whitespace(v@[v@.len() - trailing_ws(v@) - 1]),
        decreases v@.len() - k,
    {
        k = k + 1;
    }
    k
}

/// The characters from `a` to `b` of a character vector.
pub fn sub_chars(v: &Vec<char>, a: usize, b: usize) -> (r: Vec<char>)
    requires
        a <= b <= v@.len(),
    ensures
        r@ == v@.subrange(a as int, b as int),
{
    let mut r: Vec<char> = Vec::new();
    let mut i: usize = a;
    while i < b
        invariant
            a <= i <= b,
            b <= v@.len(),
            r@ == v@.subrange(a as int, i as int),
        decreases b - i,
    {
        r.push(v[i]);
        i = i + 1;
        assert(r@ =~= v@.subrange(a as int, i as int));
    }
    r
}

/// A string slice without its leading and trailing whitespace.
pub fn trim(s: &str) -> (r: String)
    ensures
        r@ == trim_spec(s@),
{
    let v = chars_of(s);
    let a = count_leading_ws(&v);
    if a == v.len() {
        return String::new();
    }
    let t = count_trailing_ws(&v);
    proof {
        lemma_leading_ws(v@);
        lemma_trailing_ws(v@);
        if a + t > v@.len() {
            let i = v@.len() - t;
            assert(0 <= a < v@.len());
            assert(v@.len() - t <= a);
            assert(unicode_whitespace(v@[a as int]));
        }
    }
    let sub = sub_chars(&v, a, v.len() - t);
    string_from_chars(&sub)
}

/// A line without the `\r` it may end with.
pub open spec fn strip_cr(line: Seq<char>) -> Seq<char> {
    if line.len() > 0 && line.last() == '\r' {
        line.drop_last()
    } else {
        line
    }
}

/// The lines a text has completed so far, and the line it is in.
pub open spec fn split_nl(s: Seq<char>) -> (Seq<Seq<char>>, Seq<char>)
    decreases s.len(),
{
    if s.len() == 0 {
        (Seq::empty(), Seq::empty())
    } else {
        let (done, cur) = split_nl(s.drop_last());
        if s.last() == '\n' {
            (done.push(strip_cr(cur)), Seq::empty())
        } else {
            (done, cur.push(s.last()))
        }
    }
}

/// The lines of a text, as `str::lines` splits it: at each `\n`, a `\r`
/// before it dropped with it, no empty line after a final `\n`.
pub open spec fn lines_spec(s: Seq<char>) -> Seq<Seq<char>> {
    let (done, cur) = split_nl(s);
    if cur.len() > 0 {
        done.push(cur)
    } else {
        done
    }
}

/// The lines of a text (`str::lines`).
pub fn lines(s: &str) -> (r: Vec<String>)
    ensures
        r@.map_values(|x: String| x@) == lines_spec(s@),
{
    let v = chars_of(s);
    let mut done: Vec<String> = Vec::new();
    let mut cur: Vec<char> = Vec::new();
    let mut i: usize = 0;
    while i < v.len()
        invariant
            i <= v@.len(),
            v@ == s@,
            (done@.map_values(|x: String| x@), cur@) == split_nl(v@.take(i as int)),
        decreases v@.len() - i,
    {
        let c = v[i];
        proof {
            assert(v@.take(i + 1).drop_last() =~= v@.take(i as int));
            assert(v@.take(i + 1).last() == c);
        }
        if c == '\n' {
            let mut e = cur.len();
            if e > 0 && cur[e - 1] == '\r' {
                e = e - 1;
            }
            let line = sub_chars(&cur, 0, e);
            assert(line@ =~= strip_cr(cur@));
            let ghost prev = done@;
            done.push(string_from_chars(&line));
            assert(done@.map_values(|x: String| x@) =~= prev.map_values(|x: String| x@).push(strip_cr(cur@)));
            cur = Vec::new();
            assert(cur@ =~= Seq::<char>::empty());
        } else {
            cur.push(c);
        }
        i = i + 1;
    }
    assert(v@.take(v@.len() as int) =~= v@);
    if cur.len() > 0 {
        let ghost prev = done@;
        done.push(string_from_chars(&cur));
        assert(done@.map_values(|x: String| x@) =~= prev.map_values(|x: String| x@).push(cur@));
    }
    done
}

/// `s` without the prefix `p`, when it begins with it (`str::strip_prefix`).
pub open spec fn strip_prefix_spec(s: Seq<char>, p: Seq<char>) -> Option<Seq<char>> {
    if seq_starts_with(s, p) {
        Some(s.subrange(p.len() as int, s.len() as int))
    } else {
        None
    }
}

/// A string slice without the prefix `p`, when it begins with it.
pub fn strip_prefix(s: &str, p: &str) -> (r: Option<String>)
    ensures
        match r {
            Some(t) => strip_prefix_spec(s@, p@) == Some(t@),
            None => strip_prefix_spec(s@, p@) is None,
        },
{
    let v = chars_of(s);
    let pv = chars_of(p);
    if starts_with_chars(&v, &pv) {
        let rest = sub_chars(&v, pv.len(), v.len());
        Some(string_from_chars(&rest))
    } else {
        None
    }
}

/// The value of a string of decimal digits.
pub open spec fn digits_value(d: Seq<char>) -> int
    decreases d.len(),
{
    if d.len() == 0 {
        0
    } else {
        digits_value(d.drop_last()) * 10 + (d.last() as int - 48)
    }
}

/// Every character is an ASCII digit.
pub open spec fn all_digits(d: Seq<char>) -> bool {
    forall|i: int| 0 <= i < d.len() ==> '0' <= #[trigger] d[i] <= '9'
}

/// What `str::parse::<i32>` reads: an optional `+` or `-`, then one or
/// more ASCII digits, whose value must fit in an `i32`.
pub open spec fn i32_of_text(s: Seq<char>) -> Option<i32> {
    let neg = s.len() > 0 && s[0] == '-';
    let signed = s.len() > 0 && (s[0] == '-' || s[0] == '+');
    let d = if signed {
        s.skip(1)
    } else {
        s
    };
    if d.len() == 0 || !all_digits(d) {
        None
    } else {
        let v = if neg {
            -digits_value(d)
        } else {
            digits_value(d)
        };
        if i32::MIN <= v <= i32::MAX {
            Some(v as i32)
        } else {
            None
        }
    }
}

proof fn lemma_digits_grow(d: Seq<char>, k: int)
    requires
        all_digits(d),
        0 <= k <= d.len(),
    ensures
        0 <= digits_value(d.take(k)) <= digits_value(d),
    decreases d.len() - k,
{
    if k < d.len() {
        lemma_digits_grow(d, k + 1);
        assert(d.take(k + 1).drop_last() =~= d.take(k));
        assert('0' <= d.take(k + 1).last() <= '9');
    } else {
        assert(d.take(k) =~= d);
    }
    lemma_digits_nonneg(d);
}

proof fn lemma_digits_nonneg(d: Seq<char>)
    requires
        all_digits(d),
    ensures
        digits_value(d) >= 0,
    decreases d.len(),
{
    if d.len() > 0 {
        lemma_digits_nonneg(d.drop_last());
        assert('0' <= d[d.len() - 1] <= '9');
    }
}

/// Reads a decimal `i32` as `str::parse::<i32>` does.
pub fn parse_i32(s: &str) -> (r: Option<i32>)
    ensures
        r == i32_of_text(s@),
{
    let v = chars_of(s);
    let neg = v.len() > 0 && v[0] == '-';
    let signed = v.len() > 0 && (v[0] == '-' || v[0] == '+');
    let start: usize = if signed {
        1
    } else {
        0
    };
    let ghost d = if signed {
        v@.skip(1)
    } else {
        v@
    };
    assert(d =~= v@.subrange(start as int, v@.len() as int));
    if start == v.len() {
        return None;
    }
    if !all_digits_exec(&v, start) {
        proof {
            let k = choose|k: int| start <= k < v@.len() && !('0' <= #[trigger] v@[k] <= '9');
            assert(d[k - start] == v@[k]);
        }
        return None;
    }
    assert(all_digits(d)) by {
        assert forall|k: int| 0 <= k < d.len() implies '0' <= #[trigger] d[k] <= '9' by {
            assert(d[k] == v@[start + k]);
        }
    }
    let mut acc: i64 = 0;
    let mut i: usize = start;
    while i < v.len()
        invariant
            start <= i <= v@.len(),
            v@ == s@,
            d == (if s@.len() > 0 && (s@[0] == '-' || s@[0] == '+') {
                s@.skip(1)
            } else {
                s@
            }),
            d == v@.subrange(start as int, v@.len() as int),
            all_digits(d),
            acc == digits_value(d.take(i - start)),
            0 <= acc <= 2147483648,
        decreases v@.len() - i,
    {
        let c = v[i];
        proof {
            assert(d[i - start] == c);
            assert(d.take(i - start + 1).drop_last() =~= d.take(i - start));
            assert(d.take(i - start + 1).last() == c);
        }
        let digit: i64 = (c as u32 - 48) as i64;
        let next = acc * 10 + digit;
        assert(digits_value(d.take(i - start + 1)) == next);
        if next > 2147483648 {
            proof {
                lemma_digits_grow(d, i - start + 1);
                assert(digits_value(d) >= next);
                assert(v@ == s@);
                let sd = if s@.len() > 0 && (s@[0] == '-' || s@[0] == '+') {
                    s@.skip(1)
                } else {
                    s@
                };
                assert(sd == d);
                let val = if s@.len() > 0 && s@[0] == '-' {
                    -digits_value(sd)
                } else {
                    digits_value(sd)
                };
                assert(!(i32::MIN <= val <= i32::MAX));
            }
            return None;
        }
        acc = next;
        i = i + 1;
    }
    assert(d.take(d.len() as int) =~= d);
    if neg {
        Some((-acc) as i32)
    } else {
        if acc <= 2147483647 {
            Some(acc as i32)
        } else {
            None
        }
    }
}

/// Whether every character from `from` on is an ASCII digit.
fn all_digits_exec(v: &Vec<char>, from: usize) -> (r: bool)
    requires
        from <= v@.len(),
    ensures
        r == forall|k: int| from <= k < v@.len() ==> '0' <= #[trigger] v@[k] <= '9',
{
    let mut i: usize = from;
    while i < v.len()
        invariant
            from <= i <= v@.len(),
            forall|k: int| from <= k < i ==> '0' <= #[trigger] v@[k] <= '9',
        decreases v@.len() - i,
    {
        if v[i] < '0' || v[i] > '9' {
            return false;
        }
        i = i + 1;
    }
    true
}

} // verus!
