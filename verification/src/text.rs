use vstd::prelude::*;

verus! {

/// Unicode `White_Space` property, as `char::is_whitespace` defines it.
pub open spec fn spec_is_whitespace(c: char) -> bool {
    let u = c as u32;
    ||| 0x09 <= u <= 0x0D
    ||| u == 0x20
    ||| u == 0x85
    ||| u == 0xA0
    ||| u == 0x1680
    ||| 0x2000 <= u <= 0x200A
    ||| u == 0x2028
    ||| u == 0x2029
    ||| u == 0x202F
    ||| u == 0x205F
    ||| u == 0x3000
}

/// A text is blank when every character is whitespace (so trimming leaves nothing).
pub open spec fn spec_is_blank(s: Seq<char>) -> bool {
    forall|i: int| 0 <= i < s.len() ==> #[trigger] spec_is_whitespace(s[i])
}

pub fn is_whitespace(c: char) -> (r: bool)
    ensures
        r == spec_is_whitespace(c),
{
    let u = c as u32;
    (0x09 <= u && u <= 0x0D) || u == 0x20 || u == 0x85 || u == 0xA0 || u == 0x1680 || (0x2000
        <= u && u <= 0x200A) || u == 0x2028 || u == 0x2029 || u == 0x202F || u == 0x205F || u
        == 0x3000
}

/// True when `s.trim()` would be empty.
pub fn is_blank(s: &str) -> (r: bool)
    ensures
        r == spec_is_blank(s@),
{
    let n = s.unicode_len();
    let mut i: usize = 0;
    while i < n
        invariant
            n == s@.len(),
            i <= n,
            forall|j: int| 0 <= j < i ==> #[trigger] spec_is_whitespace(s@[j]),
        decreases n - i,
    {
        let c = s.get_char(i);
        if !is_whitespace(c) {
            return false;
        }
        i = i + 1;
    }
    true
}


// ---------------------------------------------------------------------------
// Character sequences
// ---------------------------------------------------------------------------

pub open spec fn spec_starts_with(s: Seq<char>, p: Seq<char>) -> bool {
    p.len() <= s.len() && s.subrange(0, p.len() as int) == p
}

pub open spec fn spec_ends_with(s: Seq<char>, p: Seq<char>) -> bool {
    p.len() <= s.len() && s.subrange(s.len() - p.len(), s.len() as int) == p
}

/// `needle` occurs in `s` at position `i`.
pub open spec fn occurs_at(s: Seq<char>, needle: Seq<char>, i: int) -> bool {
    0 <= i && i + needle.len() <= s.len() && s.subrange(i, i + needle.len()) == needle
}

pub open spec fn spec_contains(s: Seq<char>, needle: Seq<char>) -> bool {
    exists|i: int| occurs_at(s, needle, i)
}

pub open spec fn spec_has_char(s: Seq<char>, c: char) -> bool {
    exists|i: int| 0 <= i < s.len() && s[i] == c
}

/// The characters of `s`.
pub fn chars_of(s: &str) -> (r: Vec<char>)
    ensures
        r@ == s@,
{
    let n = s.unicode_len();
    let mut out: Vec<char> = Vec::new();
    let mut i: usize = 0;
    while i < n
        invariant
            n == s@.len(),
            i <= n,
            out@ == s@.subrange(0, i as int),
        decreases n - i,
    {
        out.push(s.get_char(i));
        i = i + 1;
        assert(out@ =~= s@.subrange(0, i as int));
    }
    assert(out@ =~= s@);
    out
}

/// `needle` occurs in `s` at position `at`.
pub fn matches_at(s: &Vec<char>, needle: &Vec<char>, at: usize) -> (r: bool)
    ensures
        r == occurs_at(s@, needle@, at as int),
{
    if at > s.len() || needle.len() > s.len() - at {
        return false;
    }
    let mut k: usize = 0;
    while k < needle.len()
        invariant
            at + needle.len() <= s.len(),
            k <= needle.len(),
            forall|j: int| 0 <= j < k ==> s@[at + j] == needle@[j],
        decreases needle.len() - k,
    {
        if s[at + k] != needle[k] {
            assert(s@.subrange(at as int, at + needle.len())[k as int] != needle@[k as int]);
            return false;
        }
        k = k + 1;
    }
    assert(s@.subrange(at as int, at + needle.len()) =~= needle@);
    true
}

pub fn seq_starts_with(s: &Vec<char>, p: &Vec<char>) -> (r: bool)
    ensures
        r == spec_starts_with(s@, p@),
{
    matches_at(s, p, 0)
}

pub fn seq_ends_with(s: &Vec<char>, p: &Vec<char>) -> (r: bool)
    ensures
        r == spec_ends_with(s@, p@),
{
    if p.len() > s.len() {
        false
    } else {
        matches_at(s, p, s.len() - p.len())
    }
}

pub fn seq_contains(s: &Vec<char>, needle: &Vec<char>) -> (r: bool)
    ensures
        r == spec_contains(s@, needle@),
{
    if needle.len() > s.len() {
        proof {
            assert forall|i: int| !occurs_at(s@, needle@, i) by {}
        }
        return false;
    }
    let last = s.len() - needle.len();
    let mut i: usize = 0;
    while i < last
        invariant
            i <= last,
            last + needle.len() == s.len(),
            forall|j: int| 0 <= j < i ==> !occurs_at(s@, needle@, j),
        decreases last - i,
    {
        if matches_at(s, needle, i) {
            return true;
        }
        i = i + 1;
    }
    if matches_at(s, needle, last) {
        return true;
    }
    assert forall|j: int| !occurs_at(s@, needle@, j) by {
        if 0 <= j && j < last {
            assert(j < i);
        }
    }
    false
}

pub fn seq_has_char(s: &Vec<char>, c: char) -> (r: bool)
    ensures
        r == spec_has_char(s@, c),
{
    let mut i: usize = 0;
    while i < s.len()
        invariant
            i <= s.len(),
            forall|j: int| 0 <= j < i ==> s@[j] != c,
        decreases s.len() - i,
    {
        if s[i] == c {
            return true;
        }
        i = i + 1;
    }
    false
}

pub fn str_starts_with(s: &str, p: &str) -> (r: bool)
    ensures
        r == spec_starts_with(s@, p@),
{
    seq_starts_with(&chars_of(s), &chars_of(p))
}

pub fn str_ends_with(s: &str, p: &str) -> (r: bool)
    ensures
        r == spec_ends_with(s@, p@),
{
    seq_ends_with(&chars_of(s), &chars_of(p))
}

pub fn str_contains(s: &str, needle: &str) -> (r: bool)
    ensures
        r == spec_contains(s@, needle@),
{
    seq_contains(&chars_of(s), &chars_of(needle))
}

pub fn str_eq(a: &str, b: &str) -> (r: bool)
    ensures
        r == (a@ == b@),
{
    let x = chars_of(a);
    let y = chars_of(b);
    if x.len() != y.len() {
        return false;
    }
    let r = matches_at(&x, &y, 0);
    proof {
        assert(x@.subrange(0, y@.len() as int) =~= x@);
    }
    r
}

/// Appends one character.
#[verifier::external_body]
pub(crate) fn push_char(s: &mut String, c: char)
    ensures
        final(s)@ == old(s)@.push(c),
{
    s.push(c);
}

/// The string made of the characters `v[from..to]`.
pub fn string_of(v: &Vec<char>, from: usize, to: usize) -> (r: String)
    requires
        from <= to <= v.len(),
    ensures
        r@ == v@.subrange(from as int, to as int),
{
    let mut out = String::new();
    let mut i = from;
    while i < to
        invariant
            from <= i <= to <= v.len(),
            out@ == v@.subrange(from as int, i as int),
        decreases to - i,
    {
        push_char(&mut out, v[i]);
        i = i + 1;
        assert(out@ =~= v@.subrange(from as int, i as int));
    }
    out
}

// ---------------------------------------------------------------------------
// Trimming
// ---------------------------------------------------------------------------

/// Index of the first non-whitespace character (len when blank).
pub open spec fn trim_start_index(s: Seq<char>) -> int
    decreases s.len(),
{
    if s.len() == 0 {
        0
    } else if spec_is_whitespace(s[0]) {
        1 + trim_start_index(s.drop_first())
    } else {
        0
    }
}

/// Index one past the last non-whitespace character (0 when blank).
pub open spec fn trim_end_index(s: Seq<char>) -> int
    decreases s.len(),
{
    if s.len() == 0 {
        0
    } else if spec_is_whitespace(s.last()) {
        trim_end_index(s.drop_last())
    } else {
        s.len() as int
    }
}

/// `s` without leading and trailing whitespace, as `str::trim` gives it.
pub open spec fn spec_trim(s: Seq<char>) -> Seq<char> {
    if trim_start_index(s) >= trim_end_index(s) {
        Seq::empty()
    } else {
        s.subrange(trim_start_index(s), trim_end_index(s))
    }
}

proof fn lemma_trim_start(s: Seq<char>, i: int)
    requires
        0 <= i <= s.len(),
        forall|j: int| 0 <= j < i ==> #[trigger] spec_is_whitespace(s[j]),
        i == s.len() || !spec_is_whitespace(s[i]),
    ensures
        trim_start_index(s) == i,
    decreases i,
{
    if i > 0 {
        lemma_trim_start(s.drop_first(), i - 1);
    }
}

proof fn lemma_trim_end(s: Seq<char>, i: int)
    requires
        0 <= i <= s.len(),
        forall|j: int| i <= j < s.len() ==> #[trigger] spec_is_whitespace(s[j]),
        i == 0 || !spec_is_whitespace(s[i - 1]),
    ensures
        trim_end_index(s) == i,
    decreases s.len(),
{
    if i < s.len() {
        if i > 0 {
            assert(s.drop_last()[i - 1] == s[i - 1]);
        }
        assert forall|j: int| i <= j < s.drop_last().len() implies #[trigger] spec_is_whitespace(
            s.drop_last()[j],
        ) by {
            assert(s.drop_last()[j] == s[j]);
        }
        lemma_trim_end(s.drop_last(), i);
    }
}

/// Bounds of the trimmed part of `v`.
pub fn trim_bounds(v: &Vec<char>) -> (r: (usize, usize))
    ensures
        r.0 == trim_start_index(v@),
        r.1 == trim_end_index(v@),
        r.0 <= v.len(),
        r.1 <= v.len(),
{
    let mut a: usize = 0;
    while a < v.len() && is_whitespace(v[a])
        invariant
            a <= v.len(),
            forall|j: int| 0 <= j < a ==> #[trigger] spec_is_whitespace(v@[j]),
        decreases v.len() - a,
    {
        a = a + 1;
    }
    proof {
        lemma_trim_start(v@, a as int);
    }
    let mut b: usize = v.len();
    while b > 0 && is_whitespace(v[b - 1])
        invariant
            b <= v.len(),
            forall|j: int| b <= j < v.len() ==> #[trigger] spec_is_whitespace(v@[j]),
        decreases b,
    {
        b = b - 1;
    }
    proof {
        lemma_trim_end(v@, b as int);
    }
    (a, b)
}

pub fn trim_chars(v: &Vec<char>) -> (r: Vec<char>)
    ensures
        r@ == spec_trim(v@),
{
    let (a, b) = trim_bounds(v);
    let mut out: Vec<char> = Vec::new();
    if a < b {
        let mut i = a;
        while i < b
            invariant
                a <= i <= b <= v.len(),
                out@ == v@.subrange(a as int, i as int),
            decreases b - i,
        {
            out.push(v[i]);
            i = i + 1;
            assert(out@ =~= v@.subrange(a as int, i as int));
        }
    } else {
        assert(out@ =~= Seq::<char>::empty());
    }
    out
}

/// `s.trim()` as a new string.
pub fn trim(s: &str) -> (r: String)
    ensures
        r@ == spec_trim(s@),
{
    let v = chars_of(s);
    let (a, b) = trim_bounds(&v);
    if a < b {
        string_of(&v, a, b)
    } else {
        let e = String::new();
        assert(e@ =~= spec_trim(s@));
        e
    }
}


// ---------------------------------------------------------------------------
// Trimming repeated characters and suffixes
// ---------------------------------------------------------------------------

/// `s` without any trailing `c`, as `str::trim_end_matches(c)` gives it.
pub open spec fn trim_end_char(s: Seq<char>, c: char) -> Seq<char>
    decreases s.len(),
{
    if s.len() > 0 && s.last() == c {
        trim_end_char(s.drop_last(), c)
    } else {
        s
    }
}

/// `s` without any leading `c`, as `str::trim_start_matches(c)` gives it.
pub open spec fn trim_start_char(s: Seq<char>, c: char) -> Seq<char>
    decreases s.len(),
{
    if s.len() > 0 && s[0] == c {
        trim_start_char(s.drop_first(), c)
    } else {
        s
    }
}

/// `s` with `pat` removed from its end as often as it occurs there, as
/// `str::trim_end_matches(pat)` gives it for a non-empty `pat`.
pub open spec fn trim_end_pattern(s: Seq<char>, pat: Seq<char>) -> Seq<char>
    decreases s.len(),
{
    if pat.len() > 0 && spec_ends_with(s, pat) {
        trim_end_pattern(s.subrange(0, s.len() - pat.len()), pat)
    } else {
        s
    }
}

/// Index of the last `c` before position `i`, or -1.
pub open spec fn last_index_before(s: Seq<char>, c: char, i: int) -> int
    decreases i,
{
    if i <= 0 {
        -1
    } else if s[i - 1] == c {
        i - 1
    } else {
        last_index_before(s, c, i - 1)
    }
}

pub fn trim_end_chars(s: &str, c: char) -> (r: String)
    ensures
        r@ == trim_end_char(s@, c),
{
    let v = chars_of(s);
    let mut k = v.len();
    assert(v@.subrange(0, v@.len() as int) =~= v@);
    while k > 0 && v[k - 1] == c
        invariant
            k <= v.len(),
            trim_end_char(v@, c) == trim_end_char(v@.subrange(0, k as int), c),
        decreases k,
    {
        proof {
            assert(v@.subrange(0, k as int).drop_last() =~= v@.subrange(0, k - 1));
        }
        k = k - 1;
    }
    string_of(&v, 0, k)
}

pub fn trim_start_chars(s: &str, c: char) -> (r: String)
    ensures
        r@ == trim_start_char(s@, c),
{
    let v = chars_of(s);
    let mut k: usize = 0;
    assert(v@.subrange(0, v@.len() as int) =~= v@);
    while k < v.len() && v[k] == c
        invariant
            k <= v.len(),
            trim_start_char(v@, c) == trim_start_char(v@.subrange(k as int, v@.len() as int), c),
        decreases v.len() - k,
    {
        proof {
            assert(v@.subrange(k as int, v@.len() as int).drop_first() =~= v@.subrange(
                k + 1,
                v@.len() as int,
            ));
        }
        k = k + 1;
    }
    string_of(&v, k, v.len())
}

pub fn trim_end_pattern_str(s: &str, pat: &str) -> (r: String)
    ensures
        r@ == trim_end_pattern(s@, pat@),
{
    let v = chars_of(s);
    let p = chars_of(pat);
    let mut k = v.len();
    assert(v@.subrange(0, v@.len() as int) =~= v@);
    if p.len() == 0 {
        return string_of(&v, 0, k);
    }
    loop
        invariant
            k <= v.len(),
            p@ == pat@,
            p@.len() > 0,
            trim_end_pattern(v@, p@) == trim_end_pattern(v@.subrange(0, k as int), p@),
        ensures
            k <= v.len(),
            trim_end_pattern(v@, p@) == v@.subrange(0, k as int),
        decreases k,
    {
        let prefix = string_of(&v, 0, k);
        if !str_ends_with(prefix.as_str(), pat) {
            break;
        }
        proof {
            assert(v@.subrange(0, k as int).subrange(0, k - p@.len()) =~= v@.subrange(
                0,
                k - p@.len(),
            ));
        }
        k = k - p.len();
    }
    string_of(&v, 0, k)
}

// ---------------------------------------------------------------------------
// Case mapping
// ---------------------------------------------------------------------------

/// The full Unicode lower-case mapping of a text, as `str::to_lowercase` gives it.
pub uninterp spec fn spec_to_lowercase(s: Seq<char>) -> Seq<char>;

/// Lower case as `str::to_lowercase` gives it, spelled out for ASCII text.
pub open spec fn lowercase_text(s: Seq<char>) -> Seq<char> {
    if is_ascii_text(s) {
        spec_ascii_lowercase(s)
    } else {
        spec_to_lowercase(s)
    }
}

/// Whether every character of a text is ASCII.
pub open spec fn is_ascii_text(s: Seq<char>) -> bool {
    forall|i: int| 0 <= i < s.len() ==> s[i] <= '\u{7f}'
}

/// Unicode lower case, by `str::to_lowercase`. The std documentation maps
/// each character by `char::to_lowercase`, which for ASCII is
/// `to_ascii_lowercase`: on an ASCII text only `A`-`Z` change, to `a`-`z`,
/// and the length is kept.
#[verifier::external_body]
pub(crate) fn to_lowercase(s: &str) -> (r: String)
    ensures
        r@ == spec_to_lowercase(s@),
        is_ascii_text(s@) ==> r@ == spec_ascii_lowercase(s@),
{
    s.to_lowercase()
}

pub open spec fn ascii_lower(c: char) -> char {
    if 'A' <= c <= 'Z' {
        ((c as u32) + 32) as char
    } else {
        c
    }
}

pub open spec fn ascii_upper(c: char) -> char {
    if 'a' <= c <= 'z' {
        ((c as u32) - 32) as char
    } else {
        c
    }
}

pub open spec fn spec_ascii_lowercase(s: Seq<char>) -> Seq<char> {
    Seq::new(s.len(), |i: int| ascii_lower(s[i]))
}

pub open spec fn spec_ascii_uppercase(s: Seq<char>) -> Seq<char> {
    Seq::new(s.len(), |i: int| ascii_upper(s[i]))
}

pub fn ascii_lowercase(v: &Vec<char>) -> (r: Vec<char>)
    ensures
        r@ == spec_ascii_lowercase(v@),
{
    let mut out: Vec<char> = Vec::new();
    let mut i: usize = 0;
    while i < v.len()
        invariant
            i <= v.len(),
            out@.len() == i,
            forall|j: int| 0 <= j < i ==> out@[j] == ascii_lower(v@[j]),
        decreases v.len() - i,
    {
        let c = v[i];
        let l = if 'A' <= c && c <= 'Z' {
            char_add(c, 32)
        } else {
            c
        };
        out.push(l);
        i = i + 1;
    }
    assert(out@ =~= spec_ascii_lowercase(v@));
    out
}

pub fn ascii_uppercase(v: &Vec<char>) -> (r: Vec<char>)
    ensures
        r@ == spec_ascii_uppercase(v@),
{
    let mut out: Vec<char> = Vec::new();
    let mut i: usize = 0;
    while i < v.len()
        invariant
            i <= v.len(),
            out@.len() == i,
            forall|j: int| 0 <= j < i ==> out@[j] == ascii_upper(v@[j]),
        decreases v.len() - i,
    {
        let c = v[i];
        let u = if 'a' <= c && c <= 'z' {
            char_sub(c, 32)
        } else {
            c
        };
        out.push(u);
        i = i + 1;
    }
    assert(out@ =~= spec_ascii_uppercase(v@));
    out
}

/// Shifts an ASCII letter up by `k` code points (upper to lower case).
fn char_add(c: char, k: u32) -> (r: char)
    requires
        'A' <= c <= 'Z',
        k == 32,
    ensures
        r == ((c as u32) + 32) as char,
{
    let u = (c as u32) + k;
    let r = char_from_ascii(u);
    r
}

/// Shifts an ASCII letter down by `k` code points (lower to upper case).
fn char_sub(c: char, k: u32) -> (r: char)
    requires
        'a' <= c <= 'z',
        k == 32,
    ensures
        r == ((c as u32) - 32) as char,
{
    let u = (c as u32) - k;
    char_from_ascii(u)
}

/// The ASCII character with code `u`.
fn char_from_ascii(u: u32) -> (r: char)
    requires
        u < 128,
    ensures
        r == u as char,
{
    (u as u8) as char
}

// ---------------------------------------------------------------------------
// Decimal rendering and ordering
// ---------------------------------------------------------------------------

pub open spec fn digit_char(d: nat) -> char {
    ((48 + d) as u32) as char
}

/// Decimal digits of `n`, as `Display` writes an unsigned integer.
pub open spec fn spec_decimal(n: nat) -> Seq<char>
    decreases n,
{
    if n < 10 {
        seq![digit_char(n)]
    } else {
        spec_decimal(n / 10).push(digit_char(n % 10))
    }
}

pub fn push_decimal(s: &mut String, n: u64)
    ensures
        final(s)@ == old(s)@ + spec_decimal(n as nat),
    decreases n,
{
    if n >= 10 {
        push_decimal(s, n / 10);
    }
    let d = (n % 10) as u32;
    push_char(s, char_from_ascii(48 + d));
    proof {
        assert(old(s)@ + spec_decimal(n as nat) =~= old(s)@ + spec_decimal((n / 10) as nat) + seq![
            digit_char((n % 10) as nat),
        ] || n < 10);
    }
}

/// `n` in decimal.
pub fn decimal(n: u64) -> (r: String)
    ensures
        r@ == spec_decimal(n as nat),
{
    let mut s = String::new();
    push_decimal(&mut s, n);
    assert(s@ =~= spec_decimal(n as nat));
    s
}

/// A signed integer in decimal, with a leading `-` when it is negative.
pub open spec fn spec_signed_decimal(n: int) -> Seq<char> {
    if n < 0 {
        seq!['-'] + spec_decimal((-n) as nat)
    } else {
        spec_decimal(n as nat)
    }
}

/// `n` in decimal.
pub fn signed_decimal(n: i64) -> (r: String)
    ensures
        r@ == spec_signed_decimal(n as int),
{
    let mut s = String::new();
    if n < 0 {
        push_char(&mut s, '-');
        let magnitude: i128 = -(n as i128);
        push_decimal(&mut s, magnitude as u64);
        assert(s@ =~= seq!['-'] + spec_decimal((-n) as nat));
    } else {
        push_decimal(&mut s, n as u64);
        assert(s@ =~= spec_decimal(n as nat));
    }
    s
}

/// Lexicographic order of texts by code point (the order `str::cmp` gives,
/// since UTF-8 byte order agrees with code point order).
pub open spec fn seq_lt(a: Seq<char>, b: Seq<char>) -> bool
    decreases a.len(),
{
    if a.len() == 0 {
        b.len() > 0
    } else if b.len() == 0 {
        false
    } else if (a[0] as u32) < (b[0] as u32) {
        true
    } else if a[0] == b[0] {
        seq_lt(a.drop_first(), b.drop_first())
    } else {
        false
    }
}

proof fn lemma_seq_lt_skip(a: Seq<char>, b: Seq<char>, i: int)
    requires
        0 <= i <= a.len(),
        i <= b.len(),
        a.subrange(0, i) == b.subrange(0, i),
    ensures
        seq_lt(a, b) == seq_lt(a.skip(i), b.skip(i)),
    decreases i,
{
    if i > 0 {
        assert(a[0] == a.subrange(0, i)[0]);
        assert(b[0] == b.subrange(0, i)[0]);
        assert(a.drop_first().subrange(0, i - 1) =~= a.subrange(0, i).drop_first());
        assert(b.drop_first().subrange(0, i - 1) =~= b.subrange(0, i).drop_first());
        lemma_seq_lt_skip(a.drop_first(), b.drop_first(), i - 1);
        assert(a.drop_first().skip(i - 1) =~= a.skip(i));
        assert(b.drop_first().skip(i - 1) =~= b.skip(i));
    } else {
        assert(a.skip(0) =~= a);
        assert(b.skip(0) =~= b);
    }
}

/// The code-point order of texts is a strict total order.
pub proof fn lemma_seq_lt_irreflexive(a: Seq<char>)
    ensures
        !seq_lt(a, a),
    decreases a.len(),
{
    if a.len() > 0 {
        lemma_seq_lt_irreflexive(a.drop_first());
    }
}

pub proof fn lemma_seq_lt_asymmetric(a: Seq<char>, b: Seq<char>)
    ensures
        !(seq_lt(a, b) && seq_lt(b, a)),
    decreases a.len(),
{
    if a.len() > 0 && b.len() > 0 && a[0] == b[0] {
        lemma_seq_lt_asymmetric(a.drop_first(), b.drop_first());
    }
}

pub proof fn lemma_seq_lt_transitive(a: Seq<char>, b: Seq<char>, c: Seq<char>)
    requires
        seq_lt(a, b),
        seq_lt(b, c),
    ensures
        seq_lt(a, c),
    decreases a.len(),
{
    if a.len() > 0 && b.len() > 0 && c.len() > 0 && a[0] == b[0] && b[0] == c[0] {
        lemma_seq_lt_transitive(a.drop_first(), b.drop_first(), c.drop_first());
    }
}

pub proof fn lemma_seq_lt_total(a: Seq<char>, b: Seq<char>)
    requires
        a != b,
    ensures
        seq_lt(a, b) || seq_lt(b, a),
    decreases a.len(),
{
    if a.len() > 0 && b.len() > 0 {
        if a[0] == b[0] {
            if a.drop_first() == b.drop_first() {
                assert(a =~= seq![a[0]] + a.drop_first());
                assert(b =~= seq![b[0]] + b.drop_first());
            }
            lemma_seq_lt_total(a.drop_first(), b.drop_first());
        } else {
            let x = a[0];
            let y = b[0];
            vstd::utf8::char_u32_cast(x, x as u32);
            vstd::utf8::char_u32_cast(y, y as u32);
        }
    } else if a.len() == 0 && b.len() == 0 {
        assert(a =~= b);
    }
}

pub fn chars_lt(a: &Vec<char>, b: &Vec<char>) -> (r: bool)
    ensures
        r == seq_lt(a@, b@),
{
    let mut i: usize = 0;
    while i < a.len() && i < b.len() && a[i] == b[i]
        invariant
            i <= a.len(),
            i <= b.len(),
            a@.subrange(0, i as int) == b@.subrange(0, i as int),
        decreases a.len() - i,
    {
        proof {
            assert(a@.subrange(0, i + 1) =~= a@.subrange(0, i as int).push(a@[i as int]));
            assert(b@.subrange(0, i + 1) =~= b@.subrange(0, i as int).push(b@[i as int]));
        }
        i = i + 1;
    }
    proof {
        lemma_seq_lt_skip(a@, b@, i as int);
    }
    if i == a.len() {
        assert(a@.skip(i as int).len() == 0);
        i < b.len()
    } else if i == b.len() {
        false
    } else {
        assert(a@.skip(i as int)[0] == a@[i as int]);
        assert(b@.skip(i as int)[0] == b@[i as int]);
        (a[i] as u32) < (b[i] as u32)
    }
}

pub fn str_lt(a: &str, b: &str) -> (r: bool)
    ensures
        r == seq_lt(a@, b@),
{
    chars_lt(&chars_of(a), &chars_of(b))
}

/// The first line of a text, as `str::lines().next()` gives it (empty for an
/// empty text): everything before the first `\n`, without a trailing `\r`.
pub open spec fn spec_first_line(s: Seq<char>) -> Seq<char> {
    let k = if exists|i: int| 0 <= i < s.len() && s[i] == '\n' {
        choose|i: int| 0 <= i < s.len() && s[i] == '\n' && forall|j: int| 0 <= j < i ==> s[j] != '\n'
    } else {
        s.len() as int
    };
    let line = s.subrange(0, k);
    if line.len() > 0 && line.last() == '\r' {
        line.drop_last()
    } else {
        line
    }
}

pub fn first_line(s: &str) -> (r: String)
    ensures
        r@ == spec_first_line(s@),
{
    let v = chars_of(s);
    let mut k: usize = 0;
    while k < v.len() && v[k] != '\n'
        invariant
            k <= v.len(),
            forall|j: int| 0 <= j < k ==> v@[j] != '\n',
        decreases v.len() - k,
    {
        k = k + 1;
    }
    proof {
        if k < v.len() {
            let c = choose|i: int| 0 <= i < v@.len() && v@[i] == '\n' && forall|j: int| 0 <= j < i ==> v@[j] != '\n';
            if c < k {
                assert(v@[c] != '\n');
            }
            if k < c {
                assert(v@[k as int] != '\n');
            }
        } else {
            assert(!exists|i: int| 0 <= i < v@.len() && v@[i] == '\n');
        }
    }
    let end = if k > 0 && v[k - 1] == '\r' {
        k - 1
    } else {
        k
    };
    let r = string_of(&v, 0, end);
    assert(r@ =~= spec_first_line(s@));
    r
}

// ---------------------------------------------------------------------------
// Splitting
// ---------------------------------------------------------------------------

pub open spec fn string_views(v: Seq<String>) -> Seq<Seq<char>> {
    v.map_values(|x: String| x@)
}

pub open spec fn views(v: Seq<Vec<char>>) -> Seq<Seq<char>> {
    v.map_values(|w: Vec<char>| w@)
}

/// Index of the first `sep` at or after `from`, or the length when none.
pub open spec fn next_sep(s: Seq<char>, sep: char, from: int) -> int
    decreases s.len() - from,
{
    if from >= s.len() {
        s.len() as int
    } else if s[from] == sep {
        from
    } else {
        next_sep(s, sep, from + 1)
    }
}

/// The pieces of `s[from..]` between occurrences of `sep`, as `str::split` gives them.
pub open spec fn split_from(s: Seq<char>, sep: char, from: int) -> Seq<Seq<char>>
    decreases s.len() - from,
{
    let k = next_sep(s, sep, from);
    if from > s.len() || from < 0 {
        Seq::empty()
    } else if k >= s.len() {
        seq![s.subrange(from, s.len() as int)]
    } else {
        proof {
            lemma_next_sep_bounds(s, sep, from);
        }
        seq![s.subrange(from, k)] + split_from(s, sep, k + 1)
    }
}

pub open spec fn spec_split(s: Seq<char>, sep: char) -> Seq<Seq<char>> {
    split_from(s, sep, 0)
}

proof fn lemma_next_sep(s: Seq<char>, sep: char, from: int, k: int)
    requires
        0 <= from <= k <= s.len(),
        forall|j: int| from <= j < k ==> s[j] != sep,
        k == s.len() || s[k] == sep,
    ensures
        next_sep(s, sep, from) == k,
    decreases k - from,
{
    if from < k {
        lemma_next_sep(s, sep, from + 1, k);
    }
}

pub proof fn lemma_next_sep_bounds(s: Seq<char>, sep: char, from: int)
    requires
        0 <= from,
    ensures
        from <= s.len() ==> from <= next_sep(s, sep, from) <= s.len(),
    decreases s.len() - from,
{
    if from < s.len() && s[from] != sep {
        lemma_next_sep_bounds(s, sep, from + 1);
    }
}

/// Splits `v` at every `sep`, keeping empty pieces.
pub fn split_char(v: &Vec<char>, sep: char) -> (r: Vec<Vec<char>>)
    ensures
        views(r@) == spec_split(v@, sep),
{
    let mut out: Vec<Vec<char>> = Vec::new();
    let mut start: usize = 0;
    loop
        invariant
            start <= v.len(),
            views(out@) + split_from(v@, sep, start as int) == spec_split(v@, sep),
        decreases v.len() - start,
    {
        let mut k = start;
        let mut piece: Vec<char> = Vec::new();
        while k < v.len() && v[k] != sep
            invariant
                start <= k <= v.len(),
                piece@ == v@.subrange(start as int, k as int),
                forall|j: int| start <= j < k ==> v@[j] != sep,
            decreases v.len() - k,
        {
            piece.push(v[k]);
            k = k + 1;
            assert(piece@ =~= v@.subrange(start as int, k as int));
        }
        proof {
            lemma_next_sep(v@, sep, start as int, k as int);
        }
        let ghost before = out@;
        out.push(piece);
        proof {
            assert(views(out@) =~= views(before).push(v@.subrange(start as int, k as int)));
        }
        if k >= v.len() {
            assert(views(out@) =~= spec_split(v@, sep));
            return out;
        }
        proof {
            assert(views(out@) + split_from(v@, sep, k + 1) =~= views(before) + split_from(
                v@,
                sep,
                start as int,
            ));
        }
        start = k + 1;
    }
}

/// Index of the first occurrence of `pat` at or after `from`, or -1 when
/// there is none.
pub open spec fn next_occurrence(s: Seq<char>, pat: Seq<char>, from: int) -> int
    decreases s.len() - from,
{
    if from < 0 || from + pat.len() > s.len() {
        -1
    } else if occurs_at(s, pat, from) {
        from
    } else if from >= s.len() {
        -1
    } else {
        next_occurrence(s, pat, from + 1)
    }
}

pub proof fn lemma_next_occurrence_bounds(s: Seq<char>, pat: Seq<char>, from: int)
    ensures
        next_occurrence(s, pat, from) == -1 || (from <= next_occurrence(s, pat, from)
            && occurs_at(s, pat, next_occurrence(s, pat, from))),
    decreases s.len() - from,
{
    if !(from < 0 || from + pat.len() > s.len()) && !occurs_at(s, pat, from) && from < s.len() {
        lemma_next_occurrence_bounds(s, pat, from + 1);
    }
}

/// The pieces of `s[from..]` between non-overlapping occurrences of the
/// non-empty `pat`, found from the left, as `str::split` with a text pattern
/// gives them.
pub open spec fn split_text_from(s: Seq<char>, pat: Seq<char>, from: int) -> Seq<Seq<char>>
    decreases s.len() - from,
{
    let k = next_occurrence(s, pat, from);
    if from < 0 || from > s.len() {
        Seq::empty()
    } else if k < 0 || pat.len() == 0 {
        seq![s.subrange(from, s.len() as int)]
    } else {
        proof {
            lemma_next_occurrence_bounds(s, pat, from);
        }
        seq![s.subrange(from, k)] + split_text_from(s, pat, k + pat.len())
    }
}

pub open spec fn spec_split_text(s: Seq<char>, pat: Seq<char>) -> Seq<Seq<char>> {
    split_text_from(s, pat, 0)
}

proof fn lemma_next_occurrence_at(s: Seq<char>, pat: Seq<char>, from: int, k: int)
    requires
        0 <= from <= k,
        pat.len() > 0,
        forall|j: int| from <= j < k ==> !occurs_at(s, pat, j),
        k + pat.len() > s.len() || occurs_at(s, pat, k),
    ensures
        next_occurrence(s, pat, from) == (if k + pat.len() > s.len() {
            -1
        } else {
            k
        }),
    decreases k - from,
{
    if from < k {
        assert(!occurs_at(s, pat, from));
        if from + pat.len() <= s.len() {
            lemma_next_occurrence_at(s, pat, from + 1, k);
        } else {
            assert(k + pat.len() > s.len());
        }
    }
}

/// Splits `v` at every occurrence of the non-empty `pat`, keeping empty
/// pieces.
pub fn split_text(v: &Vec<char>, pat: &Vec<char>) -> (r: Vec<Vec<char>>)
    requires
        pat.len() > 0,
    ensures
        views(r@) == spec_split_text(v@, pat@),
{
    let mut out: Vec<Vec<char>> = Vec::new();
    let mut start: usize = 0;
    loop
        invariant
            start <= v.len(),
            pat.len() > 0,
            views(out@) + split_text_from(v@, pat@, start as int) == spec_split_text(v@, pat@),
        decreases v.len() - start,
    {
        let mut k = start;
        while k < v.len() && pat.len() <= v.len() - k && !matches_at(v, pat, k)
            invariant
                start <= k <= v.len(),
                forall|j: int| start <= j < k ==> !occurs_at(v@, pat@, j),
            decreases v.len() - k,
        {
            k = k + 1;
        }
        let found = k < v.len() && pat.len() <= v.len() - k;
        proof {
            if !found {
                assert forall|j: int| start <= j < v@.len() - pat@.len() + 1 implies !occurs_at(
                    v@,
                    pat@,
                    j,
                ) by {
                    if j >= k {
                        assert(j + pat@.len() > v@.len());
                    }
                }
                let last = if v@.len() + 1 >= pat@.len() {
                    v@.len() - pat@.len() + 1
                } else {
                    0
                };
                if last >= start {
                    lemma_next_occurrence_at(v@, pat@, start as int, last);
                } else {
                    assert(next_occurrence(v@, pat@, start as int) == -1);
                }
            } else {
                lemma_next_occurrence_at(v@, pat@, start as int, k as int);
            }
        }
        let ghost before = out@;
        if !found {
            out.push(slice_chars(v, start, v.len()));
            proof {
                assert(views(out@) =~= views(before).push(v@.subrange(start as int, v@.len() as int)));
            }
            return out;
        }
        out.push(slice_chars(v, start, k));
        proof {
            assert(views(out@) =~= views(before).push(v@.subrange(start as int, k as int)));
            assert(views(out@) + split_text_from(v@, pat@, k + pat@.len()) =~= views(before)
                + split_text_from(v@, pat@, start as int));
        }
        start = k + pat.len();
    }
}

/// The characters `v[from..to]`.
pub fn slice_chars(v: &Vec<char>, from: usize, to: usize) -> (r: Vec<char>)
    requires
        from <= to <= v.len(),
    ensures
        r@ == v@.subrange(from as int, to as int),
{
    let mut out: Vec<char> = Vec::new();
    let mut i = from;
    while i < to
        invariant
            from <= i <= to <= v.len(),
            out@ == v@.subrange(from as int, i as int),
        decreases to - i,
    {
        out.push(v[i]);
        i = i + 1;
        assert(out@ =~= v@.subrange(from as int, i as int));
    }
    out
}

/// The lines of `s`, as `str::lines` gives them: pieces between line feeds,
/// each without a trailing carriage return, and no final empty piece after
/// a closing line feed (so an empty text has no lines).
pub open spec fn spec_lines(s: Seq<char>) -> Seq<Seq<char>> {
    let pieces = spec_split(s, '\n');
    let kept = if pieces.len() > 0 && pieces.last().len() == 0 {
        pieces.drop_last()
    } else {
        pieces
    };
    kept.map_values(|l: Seq<char>| strip_cr(l))
}

pub open spec fn strip_cr(l: Seq<char>) -> Seq<char> {
    if l.len() > 0 && l.last() == '\r' {
        l.drop_last()
    } else {
        l
    }
}

pub fn lines_of(v: &Vec<char>) -> (r: Vec<Vec<char>>)
    ensures
        views(r@) == spec_lines(v@),
{
    let pieces = split_char(v, '\n');
    let n = pieces.len();
    let keep = if n > 0 && pieces[n - 1].len() == 0 {
        n - 1
    } else {
        n
    };
    let ghost kept = if views(pieces@).len() > 0 && views(pieces@).last().len() == 0 {
        views(pieces@).drop_last()
    } else {
        views(pieces@)
    };
    assert(kept.len() == keep);
    let mut out: Vec<Vec<char>> = Vec::new();
    let mut i: usize = 0;
    while i < keep
        invariant
            i <= keep <= n,
            n == pieces@.len(),
            kept.len() == keep,
            forall|j: int| 0 <= j < keep ==> kept[j] == pieces@[j]@,
            views(out@) == kept.take(i as int).map_values(|l: Seq<char>| strip_cr(l)),
        decreases keep - i,
    {
        let p = &pieces[i];
        let mut line: Vec<char> = Vec::new();
        let len = p.len();
        let end = if len > 0 && p[len - 1] == '\r' {
            len - 1
        } else {
            len
        };
        let mut k: usize = 0;
        while k < end
            invariant
                k <= end <= p@.len(),
                line@ == p@.subrange(0, k as int),
            decreases end - k,
        {
            line.push(p[k]);
            k = k + 1;
            assert(line@ =~= p@.subrange(0, k as int));
        }
        proof {
            assert(line@ =~= strip_cr(p@));
        }
        let ghost before = out@;
        out.push(line);
        proof {
            assert(kept[i as int] == p@);
            assert(kept.take(i + 1) =~= kept.take(i as int).push(kept[i as int]));
            assert(kept.take(i + 1).map_values(|l: Seq<char>| strip_cr(l)) =~= kept.take(
                i as int,
            ).map_values(|l: Seq<char>| strip_cr(l)).push(strip_cr(kept[i as int])));
            assert(views(out@) =~= views(before).push(line@));
        }
        i = i + 1;
    }
    assert(kept.take(keep as int) =~= kept);
    out
}

// ---------------------------------------------------------------------------
// Joining
// ---------------------------------------------------------------------------

/// The pieces joined with `sep` between them, as `[T]::join` gives it.
pub open spec fn spec_join(pieces: Seq<Seq<char>>, sep: Seq<char>) -> Seq<char>
    decreases pieces.len(),
{
    if pieces.len() == 0 {
        Seq::empty()
    } else if pieces.len() == 1 {
        pieces[0]
    } else {
        spec_join(pieces.drop_last(), sep) + sep + pieces.last()
    }
}

/// Joins `pieces[from..to]` with `sep`.
pub fn join_range(pieces: &Vec<Vec<char>>, from: usize, to: usize, sep: &str) -> (r: String)
    requires
        from <= to <= pieces@.len(),
    ensures
        r@ == spec_join(views(pieces@).subrange(from as int, to as int), sep@),
{
    let mut out = String::new();
    let mut i = from;
    let ghost all = views(pieces@);
    assert(all.subrange(from as int, from as int) =~= Seq::<Seq<char>>::empty());
    while i < to
        invariant
            from <= i <= to <= pieces@.len(),
            all == views(pieces@),
            out@ == spec_join(all.subrange(from as int, i as int), sep@),
        decreases to - i,
    {
        if i > from {
            out.append(sep);
        }
        let p = &pieces[i];
        out.append(string_of(p, 0, p.len()).as_str());
        proof {
            let next = all.subrange(from as int, i + 1);
            assert(next.drop_last() =~= all.subrange(from as int, i as int));
            assert(next.last() == p@);
            assert(p@.subrange(0, p@.len() as int) =~= p@);
            if i == from {
                assert(next.len() == 1);
                assert(out@ =~= spec_join(next, sep@));
            }
        }
        i = i + 1;
    }
    out
}

} // verus!
