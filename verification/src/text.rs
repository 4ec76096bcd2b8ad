//! Character-level text helpers shared by the library: decimal and
//! hexadecimal rendering of integers and string building.

use vstd::prelude::*;

verus! {

/// A copy of an optional string.
pub fn clone_opt(o: &Option<String>) -> (r: Option<String>)
    ensures
        r == *o,
        opt_view(r) == opt_view(*o),
{
    match o {
        Some(s) => Some(s.clone()),
        None => None,
    }
}

/// A copy of a list of strings.
pub fn clone_strings(v: &Vec<String>) -> (r: Vec<String>)
    ensures
        r@ == v@,
{
    let mut out: Vec<String> = Vec::new();
    let n = v.len();
    for i in 0..n
        invariant
            n == v.len(),
            out@ == v@.subrange(0, i as int),
    {
        out.push(v[i].clone());
        assert(out@ =~= v@.subrange(0, i + 1));
    }
    assert(out@ =~= v@);
    out
}

/// `a` followed by `b`.
pub fn cat(a: &str, b: &str) -> (r: String)
    ensures
        r@ == a@ + b@,
{
    let mut s = String::from_str(a);
    s.append(b);
    s
}

/// `a`, then `b`, then `c`.
pub fn cat3(a: &str, b: &str, c: &str) -> (r: String)
    ensures
        r@ == a@ + b@ + c@,
{
    let mut s = String::from_str(a);
    s.append(b);
    s.append(c);
    s
}

/// The characters of an optional string.
pub open spec fn opt_view(o: Option<String>) -> Option<Seq<char>> {
    match o {
        Some(s) => Some(s@),
        None => None,
    }
}


/// The ASCII digit character for a value below ten.
pub open spec fn digit_char(d: nat) -> char
    recommends
        d < 10,
{
    ((d + 48) as u8) as char
}

/// Decimal rendering of a natural number without leading zeros
/// (`"0"` for zero).
pub open spec fn decimal_seq(n: nat) -> Seq<char>
    decreases n,
{
    if n < 10 {
        seq![digit_char(n)]
    } else {
        decimal_seq(n / 10).push(digit_char(n % 10))
    }
}

/// Appends one character to a string.
#[verifier::external_body]
pub(crate) fn push_char(s: &mut String, c: char)
    ensures
        final(s)@ == old(s)@.push(c),
{
    s.push(c);
}

fn digit_to_char(d: u64) -> (c: char)
    requires
        d < 10,
    ensures
        c == digit_char(d as nat),
{
    let b: u8 = (d as u8) + 48;
    b as char
}

/// Renders an unsigned integer in decimal.
pub fn u64_to_decimal(n: u64) -> (s: String)
    ensures
        s@ == decimal_seq(n as nat),
    decreases n,
{
    if n < 10 {
        let mut s = String::new();
        push_char(&mut s, digit_to_char(n));
        s
    } else {
        let mut s = u64_to_decimal(n / 10);
        push_char(&mut s, digit_to_char(n % 10));
        s
    }
}


/// The Unicode `White_Space` property, the set of characters that
/// `char::is_whitespace` accepts.
pub open spec fn is_ws(c: char) -> bool {
    let u = c as u32;
    ||| 0x9 <= u <= 0xD
    ||| u == 0x20
    ||| u == 0x85
    ||| u == 0xA0
    ||| u == 0x1680
    ||| 0x2000 <= u <= 0x200A
    ||| u == 0x2028
    ||| u == 0x2029
    ||| u == 0x202F
    ||| u == 0x205F
    ||| u == 0x3000
}

/// Whether a character is Unicode white space.
pub fn is_whitespace(c: char) -> (r: bool)
    ensures
        r == is_ws(c),
{
    let u = c as u32;
    (0x9 <= u && u <= 0xD) || u == 0x20 || u == 0x85 || u == 0xA0 || u == 0x1680 || (0x2000 <= u
        && u <= 0x200A) || u == 0x2028 || u == 0x2029 || u == 0x202F || u == 0x205F || u == 0x3000
}

/// The characters of a string slice, in order.
pub fn chars_of(s: &str) -> (r: Vec<char>)
    ensures
        r@ == s@,
{
    let n = s.unicode_len();
    let mut out: Vec<char> = Vec::new();
    let mut i: usize = 0;
    while i < n
        invariant
            n == s@.len(),
            i <= n,
            out@ == s@.subrange(0, i as int),
        decreases n - i,
    {
        out.push(s.get_char(i));
        i = i + 1;
    }
    out
}

/// A string holding exactly the given characters.
pub fn string_of(v: &[char]) -> (r: String)
    ensures
        r@ == v@,
{
    let mut out = String::new();
    let mut i: usize = 0;
    while i < v.len()
        invariant
            i <= v@.len(),
            out@ == v@.subrange(0, i as int),
        decreases v@.len() - i,
    {
        push_char(&mut out, v[i]);
        i = i + 1;
    }
    out
}

/// `s` without its leading white space.
pub open spec fn trim_start(s: Seq<char>) -> Seq<char>
    decreases s.len(),
{
    if s.len() > 0 && is_ws(s[0]) {
        trim_start(s.drop_first())
    } else {
        s
    }
}

/// `s` without its trailing white space.
pub open spec fn trim_end(s: Seq<char>) -> Seq<char>
    decreases s.len(),
{
    if s.len() > 0 && is_ws(s.last()) {
        trim_end(s.drop_last())
    } else {
        s
    }
}

/// `s` without leading and trailing white space, as `str::trim` gives it.
pub open spec fn trim(s: Seq<char>) -> Seq<char> {
    trim_end(trim_start(s))
}

/// The number of white-space separated words in `s`, as
/// `str::split_whitespace().count()` gives it: the positions where a
/// non-white-space character starts a word.
pub open spec fn word_count(s: Seq<char>) -> nat
    decreases s.len(),
{
    if s.len() == 0 {
        0
    } else {
        let starts_word = !is_ws(s.last()) && (s.len() == 1 || is_ws(s[s.len() - 2]));
        word_count(s.drop_last()) + if starts_word { 1nat } else { 0nat }
    }
}

proof fn lemma_trim_start_step(s: Seq<char>, i: int)
    requires
        0 <= i < s.len(),
        is_ws(s[i]),
    ensures
        trim_start(s.subrange(i, s.len() as int)) == trim_start(s.subrange(i + 1, s.len() as int)),
{
    assert(s.subrange(i, s.len() as int).drop_first() =~= s.subrange(i + 1, s.len() as int));
}

proof fn lemma_trim_end_step(s: Seq<char>, j: int)
    requires
        0 < j <= s.len(),
        is_ws(s[j - 1]),
    ensures
        trim_end(s.subrange(0, j)) == trim_end(s.subrange(0, j - 1)),
{
    assert(s.subrange(0, j).drop_last() =~= s.subrange(0, j - 1));
}

/// The bounds `(a, b)` of the trimmed part of `v`: `trim(v) == v[a..b]`.
pub fn trim_bounds(v: &[char]) -> (r: (usize, usize))
    ensures
        r.0 <= r.1 <= v@.len(),
        v@.subrange(r.0 as int, r.1 as int) == trim(v@),
        trim_start(v@) == v@.subrange(r.0 as int, v@.len() as int),
{
    let n = v.len();
    let mut a: usize = 0;
    proof {
        assert(v@.subrange(0, n as int) =~= v@);
    }
    while a < n && is_whitespace(v[a])
        invariant
            n == v@.len(),
            a <= n,
            trim_start(v@) == trim_start(v@.subrange(a as int, n as int)),
        decreases n - a,
    {
        proof { lemma_trim_start_step(v@, a as int); }
        a = a + 1;
    }
    proof {
        let t = v@.subrange(a as int, n as int);
        if a < n {
            assert(t[0] == v@[a as int]);
        }
        assert(trim_start(t) == t);
    }
    let ghost ts = v@.subrange(a as int, n as int);
    let mut b: usize = n;
    while b > a && is_whitespace(v[b - 1])
        invariant
            n == v@.len(),
            a <= b <= n,
            ts == v@.subrange(a as int, n as int),
            trim_end(ts) == trim_end(v@.subrange(a as int, b as int)),
        decreases b - a,
    {
        proof {
            let u = v@.subrange(a as int, b as int);
            lemma_trim_end_step(u, (b - a) as int);
            assert(u.subrange(0, (b - a) as int) =~= u);
            assert(u.subrange(0, (b - a - 1) as int) =~= v@.subrange(a as int, (b - 1) as int));
        }
        b = b - 1;
    }
    proof {
        let u = v@.subrange(a as int, b as int);
        if b > a {
            assert(u.last() == v@[b - 1]);
        }
        assert(trim_end(u) == u);
    }
    (a, b)
}

/// `s.trim()`, as an owned string.
pub fn trim_str(s: &str) -> (r: String)
    ensures
        r@ == trim(s@),
{
    let v = chars_of(s);
    let (a, b) = trim_bounds(v.as_slice());
    let w = slice_range(v.as_slice(), a, b);
    string_of(w.as_slice())
}

/// The characters `v[a..b]`.
pub fn slice_range(v: &[char], a: usize, b: usize) -> (r: Vec<char>)
    requires
        a <= b <= v@.len(),
    ensures
        r@ == v@.subrange(a as int, b as int),
{
    let mut out: Vec<char> = Vec::new();
    let mut i = a;
    while i < b
        invariant
            a <= i <= b,
            b <= v@.len(),
            out@ == v@.subrange(a as int, i as int),
        decreases b - i,
    {
        out.push(v[i]);
        i = i + 1;
    }
    out
}

/// The number of white-space separated words in `v`.
pub fn count_words(v: &[char]) -> (r: usize)
    ensures
        r == word_count(v@),
{
    let mut count: usize = 0;
    let mut i: usize = 0;
    while i < v.len()
        invariant
            i <= v@.len(),
            count == word_count(v@.subrange(0, i as int)),
            count <= i,
        decreases v@.len() - i,
    {
        let starts = !is_whitespace(v[i]) && (i == 0 || is_whitespace(v[i - 1]));
        proof {
            let t = v@.subrange(0, i + 1);
            assert(t.drop_last() =~= v@.subrange(0, i as int));
            assert(t.last() == v@[i as int]);
            if i > 0 {
                assert(t[t.len() - 2] == v@[i - 1]);
            }
        }
        if starts {
            count = count + 1;
        }
        i = i + 1;
    }
    proof {
        assert(v@.subrange(0, v@.len() as int) =~= v@);
    }
    count
}

/// The lowercase hexadecimal digit for a value below sixteen.
pub open spec fn hex_digit(d: nat) -> char {
    if d < 10 {
        digit_char(d)
    } else {
        ((d - 10 + 97) as u8) as char
    }
}

/// The lowest `width` hexadecimal digits of `n`, most significant first,
/// zero-padded.
pub open spec fn hex_seq(n: nat, width: nat) -> Seq<char>
    decreases width,
{
    if width == 0 {
        Seq::empty()
    } else {
        hex_seq(n / 16, (width - 1) as nat).push(hex_digit(n % 16))
    }
}

fn hex_digit_char(d: u64) -> (c: char)
    requires
        d < 16,
    ensures
        c == hex_digit(d as nat),
{
    if d < 10 {
        digit_to_char(d)
    } else {
        let b: u8 = (d as u8) - 10 + 97;
        b as char
    }
}

/// The lowest `width` hexadecimal digits of `n`, zero-padded, as `{:0w$x}`
/// prints a value below `16^width`.
pub fn u64_to_hex(n: u64, width: u64) -> (s: String)
    ensures
        s@ == hex_seq(n as nat, width as nat),
    decreases width,
{
    if width == 0 {
        String::new()
    } else {
        let mut s = u64_to_hex(n / 16, width - 1);
        push_char(&mut s, hex_digit_char(n % 16));
        s
    }
}


/// The lowest `width` hexadecimal digits of a 128-bit value, zero-padded.
pub fn u128_to_hex(n: u128, width: u64) -> (s: String)
    ensures
        s@ == hex_seq(n as nat, width as nat),
    decreases width,
{
    if width == 0 {
        String::new()
    } else {
        let mut s = u128_to_hex(n / 16, width - 1);
        push_char(&mut s, hex_digit_char((n % 16) as u64));
        s
    }
}

/// The hyphenated lower-case form of a UUID's 128-bit value:
/// `xxxxxxxx-xxxx-xxxx-xxxx-xxxxxxxxxxxx`.
pub open spec fn uuid_text(v: u128) -> Seq<char> {
    let h = hex_seq(v as nat, 32);
    h.subrange(0, 8) + seq!['-'] + h.subrange(8, 12) + seq!['-'] + h.subrange(12, 16) + seq!['-']
        + h.subrange(16, 20) + seq!['-'] + h.subrange(20, 32)
}

proof fn lemma_hex_seq_len(n: nat, width: nat)
    ensures
        hex_seq(n, width).len() == width,
    decreases width,
{
    if width > 0 {
        lemma_hex_seq_len(n / 16, (width - 1) as nat);
    }
}

/// Renders a UUID value in its hyphenated lower-case form.
pub fn uuid_to_string(v: u128) -> (s: String)
    ensures
        s@ == uuid_text(v),
{
    let h = chars_of(u128_to_hex(v, 32).as_str());
    proof {
        lemma_hex_seq_len(v as nat, 32);
    }
    let mut out = string_of(slice_range(h.as_slice(), 0, 8).as_slice());
    out.append("-");
    out.append(string_of(slice_range(h.as_slice(), 8, 12).as_slice()).as_str());
    out.append("-");
    out.append(string_of(slice_range(h.as_slice(), 12, 16).as_slice()).as_str());
    out.append("-");
    out.append(string_of(slice_range(h.as_slice(), 16, 20).as_slice()).as_str());
    out.append("-");
    out.append(string_of(slice_range(h.as_slice(), 20, 32).as_slice()).as_str());
    proof {
        reveal_strlit("-");
        assert("-"@ =~= seq!['-']);
    }
    out
}

/// Whether two character slices are equal.
pub fn chars_eq(a: &[char], b: &[char]) -> (r: bool)
    ensures
        r == (a@ == b@),
{
    if a.len() != b.len() {
        return false;
    }
    let mut i: usize = 0;
    while i < a.len()
        invariant
            a@.len() == b@.len(),
            i <= a@.len(),
            forall|j: int| 0 <= j < i ==> a@[j] == b@[j],
        decreases a@.len() - i,
    {
        if a[i] != b[i] {
            return false;
        }
        i = i + 1;
    }
    assert(a@ =~= b@);
    true
}

/// Whether two string slices hold the same characters.
pub fn str_eq(a: &str, b: &str) -> (r: bool)
    ensures
        r == (a@ == b@),
{
    let x = chars_of(a);
    let y = chars_of(b);
    chars_eq(x.as_slice(), y.as_slice())
}

/// ASCII lower-casing of one character; other characters are unchanged.
pub open spec fn ascii_lower(c: char) -> char {
    if 65 <= (c as u32) <= 90 {
        (((c as u32) + 32) as u8) as char
    } else {
        c
    }
}

/// ASCII lower-casing of a character sequence.
pub open spec fn lower_seq(s: Seq<char>) -> Seq<char> {
    s.map_values(|c: char| ascii_lower(c))
}

/// ASCII lower-casing of one character.
pub fn to_ascii_lower(c: char) -> (r: char)
    ensures
        r == ascii_lower(c),
{
    let u = c as u32;
    if 65 <= u && u <= 90 {
        ((u + 32) as u8) as char
    } else {
        c
    }
}

/// ASCII lower-casing of a character slice.
pub fn lower_chars(v: &[char]) -> (r: Vec<char>)
    ensures
        r@ == lower_seq(v@),
{
    let mut out: Vec<char> = Vec::new();
    let mut i: usize = 0;
    while i < v.len()
        invariant
            i <= v@.len(),
            out@ == lower_seq(v@.subrange(0, i as int)),
        decreases v@.len() - i,
    {
        out.push(to_ascii_lower(v[i]));
        assert(lower_seq(v@.subrange(0, i + 1)) =~= lower_seq(v@.subrange(0, i as int)).push(ascii_lower(v@[i as int])));
        i = i + 1;
    }
    assert(v@.subrange(0, v@.len() as int) =~= v@);
    out
}

/// Whether `p` occurs in `h` starting at position `i`.
pub open spec fn occurs_at(h: Seq<char>, p: Seq<char>, i: int) -> bool {
    0 <= i && i + p.len() <= h.len() && h.subrange(i, i + p.len()) == p
}

/// Whether `p` occurs anywhere in `h`.
pub open spec fn contains_seq(h: Seq<char>, p: Seq<char>) -> bool {
    exists|i: int| occurs_at(h, p, i)
}

fn matches_at(h: &[char], p: &[char], i: usize) -> (r: bool)
    requires
        i + p@.len() <= h@.len(),
    ensures
        r == occurs_at(h@, p@, i as int),
{
    let mut k: usize = 0;
    while k < p.len()
        invariant
            i + p@.len() <= h@.len(),
            h@.len() == h.len(),
            k <= p@.len(),
            forall|m: int| 0 <= m < k ==> h@[i + m] == p@[m],
        decreases p@.len() - k,
    {
        if h[i + k] != p[k] {
            assert(h@.subrange(i as int, i + p@.len())[k as int] != p@[k as int]);
            return false;
        }
        k = k + 1;
    }
    assert(h@.subrange(i as int, i + p@.len()) =~= p@);
    true
}

/// Whether `p` occurs in `h` (the empty pattern occurs everywhere).
pub fn contains_chars(h: &[char], p: &[char]) -> (r: bool)
    ensures
        r == contains_seq(h@, p@),
{
    if p.len() > h.len() {
        return false;
    }
    if p.len() == 0 {
        assert(h@.subrange(0, 0) =~= p@);
        assert(occurs_at(h@, p@, 0));
        return true;
    }
    let last = h.len() - p.len();
    let mut i: usize = 0;
    while i <= last
        invariant
            last == h@.len() - p@.len(),
            p@.len() > 0,
            h@.len() == h.len(),
            i <= last + 1,
            forall|j: int| 0 <= j < i ==> !occurs_at(h@, p@, j),
        decreases last + 1 - i,
    {
        if matches_at(h, p, i) {
            return true;
        }
        i = i + 1;
    }
    false
}


/// Lexicographic order on character sequences by code point: the order of
/// `str` and `String` comparison.
pub open spec fn lex_lt(a: Seq<char>, b: Seq<char>) -> bool
    decreases a.len(),
{
    if a.len() == 0 {
        b.len() > 0
    } else if b.len() == 0 {
        false
    } else if (a[0] as u32) < (b[0] as u32) {
        true
    } else if a[0] == b[0] {
        lex_lt(a.drop_first(), b.drop_first())
    } else {
        false
    }
}

/// No sequence comes before itself.
pub proof fn lemma_lex_irreflexive(a: Seq<char>)
    ensures
        !lex_lt(a, a),
    decreases a.len(),
{
    if a.len() > 0 {
        lemma_lex_irreflexive(a.drop_first());
    }
}

/// The order is transitive.
pub proof fn lemma_lex_transitive(a: Seq<char>, b: Seq<char>, c: Seq<char>)
    requires
        lex_lt(a, b),
        lex_lt(b, c),
    ensures
        lex_lt(a, c),
    decreases a.len(),
{
    if a.len() > 0 && b.len() > 0 && c.len() > 0 && a[0] == b[0] && b[0] == c[0] {
        lemma_lex_transitive(a.drop_first(), b.drop_first(), c.drop_first());
    }
}

/// Of two different sequences, one comes before the other.
pub proof fn lemma_lex_total(a: Seq<char>, b: Seq<char>)
    ensures
        a == b || lex_lt(a, b) || lex_lt(b, a),
    decreases a.len(),
{
    if a.len() > 0 && b.len() > 0 && a[0] == b[0] {
        lemma_lex_total(a.drop_first(), b.drop_first());
        if a.drop_first() == b.drop_first() {
            assert(a =~= seq![a[0]] + a.drop_first());
            assert(b =~= seq![b[0]] + b.drop_first());
        }
    } else if a.len() == 0 && b.len() == 0 {
        assert(a =~= b);
    } else if a.len() > 0 && b.len() > 0 {
        vstd::utf8::char_u32_cast(a[0], a[0] as u32);
        vstd::utf8::char_u32_cast(b[0], b[0] as u32);
    }
}

/// The order is asymmetric.
pub proof fn lemma_lex_asymmetric(a: Seq<char>, b: Seq<char>)
    requires
        lex_lt(a, b),
    ensures
        !lex_lt(b, a),
    decreases a.len(),
{
    if a.len() > 0 && b.len() > 0 && a[0] == b[0] {
        lemma_lex_asymmetric(a.drop_first(), b.drop_first());
    }
}

/// A common prefix does not change the order.
pub proof fn lemma_lex_common_prefix(p: Seq<char>, x: Seq<char>, y: Seq<char>)
    ensures
        lex_lt(p + x, p + y) == lex_lt(x, y),
    decreases p.len(),
{
    if p.len() > 0 {
        assert((p + x).drop_first() =~= p.drop_first() + x);
        assert((p + y).drop_first() =~= p.drop_first() + y);
        lemma_lex_common_prefix(p.drop_first(), x, y);
    } else {
        assert(p + x =~= x);
        assert(p + y =~= y);
    }
}

/// Two sequences that agree before position `i` and differ there are
/// ordered by their characters at `i`.
pub proof fn lemma_lex_first_difference(a: Seq<char>, b: Seq<char>, i: int)
    requires
        0 <= i < a.len(),
        i < b.len(),
        a.take(i) == b.take(i),
        (a[i] as u32) < (b[i] as u32),
    ensures
        lex_lt(a, b),
    decreases i,
{
    if i > 0 {
        assert(a[0] == a.take(i)[0]);
        assert(b[0] == b.take(i)[0]);
        assert(a.drop_first().take(i - 1) =~= a.take(i).drop_first());
        assert(b.drop_first().take(i - 1) =~= b.take(i).drop_first());
        lemma_lex_first_difference(a.drop_first(), b.drop_first(), i - 1);
    }
}

/// The keys of `s` never decrease: no key comes before an earlier one.
pub open spec fn sorted_by_text<T>(s: Seq<(Vec<char>, T)>) -> bool {
    forall|a: int, b: int| 0 <= a < b < s.len() ==> !lex_lt((#[trigger] s[b]).0@, (#[trigger] s[a]).0@)
}

proof fn lemma_insert_multiset<A>(s: Seq<A>, q: int, x: A)
    requires
        0 <= q <= s.len(),
    ensures
        s.insert(q, x).to_multiset() =~= s.to_multiset().insert(x),
{
    let t = s.insert(q, x);
    assert(t =~= s.take(q) + (seq![x] + s.skip(q)));
    assert(s =~= s.take(q) + s.skip(q));
    vstd::seq_lib::lemma_multiset_commutative(s.take(q), seq![x] + s.skip(q));
    vstd::seq_lib::lemma_multiset_commutative(seq![x], s.skip(q));
    vstd::seq_lib::lemma_multiset_commutative(s.take(q), s.skip(q));
    assert(seq![x] =~= Seq::<A>::empty().push(x));
    Seq::<A>::empty().to_multiset_ensures();
}

/// Sorts pairs by their text keys, keeping pairs with equal keys in the
/// order insertion gives them: the result holds the same pairs, as many
/// times each, and its keys never decrease.
pub fn sort_by_text<T>(items: Vec<(Vec<char>, T)>) -> (r: Vec<(Vec<char>, T)>)
    ensures
        r@.to_multiset() == items@.to_multiset(),
        r@.len() == items@.len(),
        sorted_by_text(r@),
{
    let ghost all = items@;
    let mut rest = items;
    let mut out: Vec<(Vec<char>, T)> = Vec::new();
    proof {
        Seq::<(Vec<char>, T)>::empty().to_multiset_ensures();
        assert(out@ =~= Seq::<(Vec<char>, T)>::empty());
    }
    while rest.len() > 0
        invariant
            all.to_multiset() == out@.to_multiset().add(rest@.to_multiset()),
            sorted_by_text(out@),
        decreases rest.len(),
    {
        let ghost before_rest = rest@;
        let x = rest.pop().unwrap();
        proof {
            assert(before_rest =~= rest@.push(x));
            rest@.to_multiset_ensures();
        }
        let mut q: usize = 0;
        while q < out.len() && !lex_less(x.0.as_slice(), out[q].0.as_slice())
            invariant
                q <= out@.len(),
                forall|a: int| 0 <= a < q ==> !lex_lt(x.0@, (#[trigger] out@[a]).0@),
            decreases out.len() - q,
        {
            q = q + 1;
        }
        let ghost before_out = out@;
        proof {
            lemma_insert_multiset(before_out, q as int, x);
            before_out.insert_ensures(q as int, x);
            assert forall|a: int, b: int| 0 <= a < b < before_out.len() + 1 implies !lex_lt(
                (#[trigger] before_out.insert(q as int, x)[b]).0@,
                (#[trigger] before_out.insert(q as int, x)[a]).0@,
            ) by {
                let t = before_out.insert(q as int, x);
                if b < q {
                    assert(t[a] == before_out[a] && t[b] == before_out[b]);
                } else if b == q {
                    assert(t[a] == before_out[a]);
                } else if a < q {
                    assert(t[a] == before_out[a] && t[b] == before_out[b - 1]);
                } else if a == q {
                    assert(t[b] == before_out[b - 1]);
                    assert(lex_lt(x.0@, before_out[q as int].0@));
                    if b - 1 > q {
                        lemma_lex_total(before_out[q as int].0@, before_out[b - 1].0@);
                        if lex_lt(before_out[q as int].0@, before_out[b - 1].0@) {
                            lemma_lex_transitive(x.0@, before_out[q as int].0@, before_out[b - 1].0@);
                        }
                    }
                    lemma_lex_asymmetric(x.0@, t[b].0@);
                } else {
                    assert(t[a] == before_out[a - 1] && t[b] == before_out[b - 1]);
                }
            }
        }
        out.insert(q, x);
    }
    proof {
        rest@.to_multiset_ensures();
        assert(rest@ =~= Seq::<(Vec<char>, T)>::empty());
        Seq::<(Vec<char>, T)>::empty().to_multiset_ensures();
        assert(rest@.to_multiset() =~= vstd::multiset::Multiset::empty());
        assert(all.to_multiset() =~= out@.to_multiset());
        out@.to_multiset_ensures();
        all.to_multiset_ensures();
    }
    out
}

/// Whether `a` comes before `b` in code-point lexicographic order.
pub fn lex_less(a: &[char], b: &[char]) -> (r: bool)
    ensures
        r == lex_lt(a@, b@),
{
    let mut i: usize = 0;
    assert(a@.skip(0) =~= a@);
    assert(b@.skip(0) =~= b@);
    while i < a.len() && i < b.len()
        invariant
            i <= a@.len(),
            i <= b@.len(),
            lex_lt(a@, b@) == lex_lt(a@.skip(i as int), b@.skip(i as int)),
        decreases a@.len() - i,
    {
        if (a[i] as u32) < (b[i] as u32) {
            return true;
        }
        if a[i] != b[i] {
            return false;
        }
        assert(a@.skip(i as int).drop_first() =~= a@.skip(i + 1));
        assert(b@.skip(i as int).drop_first() =~= b@.skip(i + 1));
        i = i + 1;
    }
    b.len() > i
}


/// Whether `c` is an ASCII letter or digit.
pub open spec fn is_ascii_alnum(c: char) -> bool {
    let u = c as u32;
    (48 <= u <= 57) || (65 <= u <= 90) || (97 <= u <= 122)
}

/// The separators of a split: white space (`ws_mode`), or every character
/// that is not an ASCII letter or digit.
pub open spec fn is_sep(ws_mode: bool, c: char) -> bool {
    if ws_mode { is_ws(c) } else { !is_ascii_alnum(c) }
}

/// The length of the run of non-separators at the start of `s`.
pub open spec fn run_len(s: Seq<char>, ws_mode: bool) -> nat
    decreases s.len(),
{
    if s.len() == 0 || is_sep(ws_mode, s[0]) {
        0
    } else {
        1 + run_len(s.drop_first(), ws_mode)
    }
}

/// A run is never longer than the text, and is non-empty when the text
/// starts with a non-separator.
pub proof fn lemma_run_len_bound(s: Seq<char>, ws_mode: bool)
    ensures
        run_len(s, ws_mode) <= s.len(),
        s.len() > 0 && !is_sep(ws_mode, s[0]) ==> run_len(s, ws_mode) >= 1,
    decreases s.len(),
{
    if s.len() > 0 && !is_sep(ws_mode, s[0]) {
        lemma_run_len_bound(s.drop_first(), ws_mode);
    }
}

/// The maximal runs of non-separator characters of `s`, in order: what
/// `split_whitespace` gives (`ws_mode`), or the non-empty pieces of a split
/// at every non-alphanumeric character.
pub open spec fn pieces(s: Seq<char>, ws_mode: bool) -> Seq<Seq<char>>
    decreases s.len(),
{
    if s.len() == 0 {
        Seq::empty()
    } else if is_sep(ws_mode, s[0]) {
        pieces(s.drop_first(), ws_mode)
    } else {
        let w = run_len(s, ws_mode);
        proof {
            lemma_run_len_bound(s, ws_mode);
        }
        seq![s.subrange(0, w as int)] + pieces(s.skip(w as int), ws_mode)
    }
}

proof fn lemma_run_len_exact(s: Seq<char>, ws_mode: bool, j: int)
    requires
        0 <= j <= s.len(),
        forall|k: int| 0 <= k < j ==> !is_sep(ws_mode, #[trigger] s[k]),
        j == s.len() || is_sep(ws_mode, s[j]),
    ensures
        run_len(s, ws_mode) == j,
    decreases j,
{
    if j > 0 {
        assert forall|k: int| 0 <= k < j - 1 implies !is_sep(ws_mode, #[trigger] s.drop_first()[k]) by {
            assert(s.drop_first()[k] == s[k + 1]);
        }
        lemma_run_len_exact(s.drop_first(), ws_mode, j - 1);
    }
}

/// Splits `v` into its maximal runs of non-separator characters.
pub fn split_pieces(v: &[char], ws_mode: bool) -> (r: Vec<Vec<char>>)
    ensures
        r@.len() == pieces(v@, ws_mode).len(),
        forall|k: int| 0 <= k < r@.len() ==> (#[trigger] r@[k])@ == pieces(v@, ws_mode)[k],
{
    let n = v.len();
    let mut out: Vec<Vec<char>> = Vec::new();
    let ghost done: Seq<Seq<char>> = Seq::empty();
    let mut i: usize = 0;
    assert(v@.skip(0) =~= v@);
    while i < n
        invariant
            n == v@.len(),
            i <= n,
            out@.len() == done.len(),
            forall|k: int| 0 <= k < out@.len() ==> (#[trigger] out@[k])@ == done[k],
            done + pieces(v@.skip(i as int), ws_mode) == pieces(v@, ws_mode),
        decreases n - i,
    {
        let c = v[i];
        let sep = separator(ws_mode, c);
        assert(v@.skip(i as int)[0] == c);
        assert(v@.skip(i as int).drop_first() =~= v@.skip(i + 1));
        if sep {
            i = i + 1;
        } else {
            let mut j = i;
            while j < n && !separator(ws_mode, v[j])
                invariant
                    n == v@.len(),
                    i <= j <= n,
                    forall|k: int| i <= k < j ==> !is_sep(ws_mode, #[trigger] v@[k]),
                decreases n - j,
            {
                j = j + 1;
            }
            let piece = slice_range(v, i, j);
            proof {
                let t = v@.skip(i as int);
                assert forall|k: int| 0 <= k < j - i implies !is_sep(ws_mode, #[trigger] t[k]) by {
                    assert(t[k] == v@[i + k]);
                }
                if j < n {
                    assert(t[j - i] == v@[j as int]);
                }
                lemma_run_len_exact(t, ws_mode, j - i);
                assert(t.subrange(0, j - i) =~= v@.subrange(i as int, j as int));
                assert(t.skip(j - i) =~= v@.skip(j as int));
                assert(pieces(t, ws_mode) == seq![v@.subrange(i as int, j as int)] + pieces(v@.skip(j as int), ws_mode));
                assert(done.push(v@.subrange(i as int, j as int)) + pieces(v@.skip(j as int), ws_mode)
                    =~= done + pieces(t, ws_mode));
                done = done.push(v@.subrange(i as int, j as int));
            }
            out.push(piece);
            i = j;
        }
    }
    assert(v@.skip(n as int) =~= Seq::<char>::empty());
    assert(done =~= pieces(v@, ws_mode));
    out
}

/// Whether `c` separates pieces in the given mode.
pub fn separator(ws_mode: bool, c: char) -> (r: bool)
    ensures
        r == is_sep(ws_mode, c),
{
    if ws_mode {
        is_whitespace(c)
    } else {
        !is_ascii_alphanumeric(c)
    }
}

/// Whether a character is an ASCII letter or digit.
pub fn is_ascii_alphanumeric(c: char) -> (r: bool)
    ensures
        r == is_ascii_alnum(c),
{
    let u = c as u32;
    (48 <= u && u <= 57) || (65 <= u && u <= 90) || (97 <= u && u <= 122)
}


/// Decimal rendering of an integer, with a leading `-` when negative.
pub open spec fn int_decimal(i: int) -> Seq<char> {
    if i < 0 {
        seq!['-'] + decimal_seq((-i) as nat)
    } else {
        decimal_seq(i as nat)
    }
}

/// Renders a signed integer in decimal.
pub fn i64_to_decimal(x: i64) -> (r: String)
    ensures
        r@ == int_decimal(x as int),
{
    if x < 0 {
        let wide: i128 = x as i128;
        let mag: u64 = (0i128 - wide) as u64;
        let mut s = String::from_str("-");
        proof {
            reveal_strlit("-");
        }
        s.append(u64_to_decimal(mag).as_str());
        s
    } else {
        u64_to_decimal(x as u64)
    }
}

} // verus!
