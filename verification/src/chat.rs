//! Reading intents out of dashboard chat messages: the text after a
//! trigger phrase, the token after a keyword, project and agent names,
//! build goals and provider names.
//!
//! A message comes with its lower-cased form; phrases are searched in the
//! lower-cased form and the text is taken from the message at the same
//! byte offset, as long as that offset falls on a character boundary.

use vstd::prelude::*;
use vstd::utf8::{decode_utf8, encode_utf8, is_char_boundary};
use crate::api_error::ApiError;
use crate::lock_api::{to_lowercase, unicode_lowercase};
use crate::text::{
    cat3, chars_eq, chars_of, is_ws, lower_chars, lower_seq, pieces, slice_range, split_pieces, string_of, trim,
    trim_str,
};

verus! {

broadcast use vstd::utf8::encode_utf8_decode_utf8;

// ----- byte search -----

/// Whether `p` occurs in `h` at byte `i`.
pub open spec fn bytes_at(h: Seq<u8>, p: Seq<u8>, i: int) -> bool {
    0 <= i && i + p.len() <= h.len() && h.subrange(i, i + p.len()) == p
}

/// The first position at or after `i` where `p` occurs in `h`.
pub open spec fn first_bytes_from(h: Seq<u8>, p: Seq<u8>, i: int) -> Option<int>
    decreases h.len() + 1 - i,
{
    if i < 0 || i + p.len() > h.len() {
        None
    } else if bytes_at(h, p, i) {
        Some(i)
    } else {
        first_bytes_from(h, p, i + 1)
    }
}

fn bytes_match_at(h: &[u8], p: &[u8], i: usize) -> (r: bool)
    requires
        i + p@.len() <= h@.len(),
    ensures
        r == bytes_at(h@, p@, i as int),
{
    let mut k: usize = 0;
    while k < p.len()
        invariant
            i + p@.len() <= h@.len(),
            h@.len() == h.len(),
            k <= p@.len(),
            forall|m: int| 0 <= m < k ==> h@[i + m] == p@[m],
        decreases p@.len() - k,
    {
        if h[i + k] != p[k] {
            assert(h@.subrange(i as int, i + p@.len())[k as int] != p@[k as int]);
            return false;
        }
        k = k + 1;
    }
    assert(h@.subrange(i as int, i + p@.len()) =~= p@);
    true
}

/// The byte offset of the first occurrence of `p` in `h`.
pub fn find_bytes(h: &[u8], p: &[u8]) -> (r: Option<usize>)
    ensures
        match r {
            Some(i) => first_bytes_from(h@, p@, 0) == Some(i as int),
            None => first_bytes_from(h@, p@, 0) is None,
        },
{
    if p.len() > h.len() {
        return None;
    }
    let last = h.len() - p.len();
    let mut i: usize = 0;
    while i <= last
        invariant
            last == h@.len() - p@.len(),
            h@.len() == h.len(),
            i <= last + 1,
            first_bytes_from(h@, p@, 0) == first_bytes_from(h@, p@, i as int),
        decreases last + 1 - i,
    {
        if bytes_match_at(h, p, i) {
            return Some(i);
        }
        if i == last {
            return None;
        }
        i = i + 1;
    }
    None
}

/// A found occurrence lies within the text.
pub proof fn lemma_first_bytes_in_range(h: Seq<u8>, p: Seq<u8>, i: int)
    ensures
        first_bytes_from(h, p, i) matches Some(j) ==> i <= j && j + p.len() <= h.len() && bytes_at(h, p, j),
    decreases h.len() + 1 - i,
{
    if !(i < 0 || i + p.len() > h.len()) && !bytes_at(h, p, i) {
        lemma_first_bytes_in_range(h, p, i + 1);
    }
}

// ----- text after a phrase -----

/// The text of `message` after the first occurrence of `phrase` in
/// `lower`, trimmed; `None` when the phrase does not occur or its end is
/// no character boundary of the message.
pub open spec fn text_after_spec(message: Seq<char>, lower: Seq<char>, phrase: Seq<char>) -> Option<Seq<char>> {
    let mb = encode_utf8(message);
    match first_bytes_from(encode_utf8(lower), encode_utf8(phrase), 0) {
        None => None,
        Some(i) => {
            let start = i + encode_utf8(phrase).len();
            if is_char_boundary(mb, start) {
                Some(trim(decode_utf8(mb.subrange(start, mb.len() as int))))
            } else {
                None
            }
        },
    }
}

/// The trimmed text of `message` after the first occurrence of `phrase` in
/// its lower-cased form `lower`.
pub fn text_after(message: &str, lower: &str, phrase: &str) -> (r: Option<String>)
    ensures
        match r {
            Some(t) => text_after_spec(message@, lower@, phrase@) == Some(t@),
            None => text_after_spec(message@, lower@, phrase@) is None,
        },
{
    let lb = lower.as_bytes();
    let pb = phrase.as_bytes();
    let idx = match find_bytes(lb, pb) {
        Some(i) => i,
        None => return None,
    };
    proof {
        lemma_first_bytes_in_range(lb@, pb@, 0);
    }
    let plen = pb.len();
    let hlen = lb.len();
    assert(idx + plen <= hlen);
    let start = idx + plen;
    if !message.is_char_boundary(start) {
        return None;
    }
    let (_, rest) = message.split_at(start);
    proof {
        vstd::utf8::encode_utf8_decode_utf8(rest@);
    }
    Some(trim_str(rest))
}


/// The trimmed text after `first second` (the two words joined by one
/// space).
pub fn text_after_pair(message: &str, lower: &str, first: &str, second: &str) -> (r: Option<String>)
    ensures
        match r {
            Some(t) => text_after_spec(message@, lower@, first@ + " "@ + second@) == Some(t@),
            None => text_after_spec(message@, lower@, first@ + " "@ + second@) is None,
        },
{
    let phrase = cat3(first, " ", second);
    text_after(message, lower, phrase.as_str())
}

// ----- trimming characters -----

/// `s` without its leading copies of `c`.
pub open spec fn strip_start_char(s: Seq<char>, c: char) -> Seq<char>
    decreases s.len(),
{
    if s.len() > 0 && s[0] == c {
        strip_start_char(s.drop_first(), c)
    } else {
        s
    }
}

/// `s` without its trailing copies of `c`.
pub open spec fn strip_end_char(s: Seq<char>, c: char) -> Seq<char>
    decreases s.len(),
{
    if s.len() > 0 && s.last() == c {
        strip_end_char(s.drop_last(), c)
    } else {
        s
    }
}

/// `s` without its leading and trailing copies of `c`, as `trim_matches`
/// with a character.
pub open spec fn trim_char(s: Seq<char>, c: char) -> Seq<char> {
    strip_end_char(strip_start_char(s, c), c)
}

proof fn lemma_strip_start_at(s: Seq<char>, c: char, a: int)
    requires
        0 <= a <= s.len(),
        forall|k: int| 0 <= k < a ==> s[k] == c,
        a == s.len() || s[a] != c,
    ensures
        strip_start_char(s, c) == s.skip(a),
    decreases a,
{
    if a > 0 {
        assert(s.drop_first().skip(a - 1) =~= s.skip(a));
        lemma_strip_start_at(s.drop_first(), c, a - 1);
    } else {
        assert(s.skip(0) =~= s);
    }
}

proof fn lemma_strip_end_at(s: Seq<char>, c: char, b: int)
    requires
        0 <= b <= s.len(),
        forall|k: int| b <= k < s.len() ==> s[k] == c,
        b == 0 || s[b - 1] != c,
    ensures
        strip_end_char(s, c) == s.subrange(0, b),
    decreases s.len() - b,
{
    if b < s.len() {
        lemma_strip_end_at(s.drop_last(), c, b);
        assert(s.drop_last().subrange(0, b) =~= s.subrange(0, b));
    } else {
        assert(s.subrange(0, b) =~= s);
    }
}

/// `v` without its leading and trailing copies of `c`.
pub fn trim_char_chars(v: &[char], c: char) -> (r: Vec<char>)
    ensures
        r@ == trim_char(v@, c),
{
    let n = v.len();
    let mut a: usize = 0;
    while a < n && v[a] == c
        invariant
            n == v@.len(),
            a <= n,
            forall|k: int| 0 <= k < a ==> v@[k] == c,
        decreases n - a,
    {
        a = a + 1;
    }
    let mut b: usize = n;
    while b > a && v[b - 1] == c
        invariant
            n == v@.len(),
            a <= b <= n,
            forall|k: int| b <= k < n ==> v@[k] == c,
        decreases b,
    {
        b = b - 1;
    }
    proof {
        lemma_strip_start_at(v@, c, a as int);
        let t = v@.skip(a as int);
        assert forall|k: int| b - a <= k < t.len() implies t[k] == c by {
            assert(t[k] == v@[a + k]);
        }
        if b > a {
            assert(t[b - a - 1] == v@[b - 1]);
        }
        lemma_strip_end_at(t, c, b - a);
        assert(t.subrange(0, b - a) =~= v@.subrange(a as int, b as int));
    }
    slice_range(v, a, b)
}

/// A token with its surrounding double quotes, single quotes and commas
/// removed, in that order.
pub open spec fn unquoted(t: Seq<char>) -> Seq<char> {
    trim_char(trim_char(trim_char(t, '"'), '\''), ',')
}

fn unquote(t: &[char]) -> (r: String)
    ensures
        r@ == unquoted(t@),
{
    let a = trim_char_chars(t, '"');
    let b = trim_char_chars(a.as_slice(), '\'');
    let c = trim_char_chars(b.as_slice(), ',');
    string_of(c.as_slice())
}

// ----- tokens after keywords -----

/// The first position `i` at or after `from` where token `i` is `key`
/// (ignoring ASCII case) and a token follows it.
pub open spec fn key_index_from(toks: Seq<Seq<char>>, key: Seq<char>, from: int) -> Option<int>
    decreases toks.len() - from,
{
    if from < 0 || from + 1 >= toks.len() {
        None
    } else if lower_seq(toks[from]) == key {
        Some(from)
    } else {
        key_index_from(toks, key, from + 1)
    }
}

/// The unquoted token after the first `key` token of `message` (ignoring
/// ASCII case).
pub open spec fn token_after_spec(message: Seq<char>, key: Seq<char>) -> Option<Seq<char>> {
    let toks = pieces(message, true);
    match key_index_from(toks, lower_seq(key), 0) {
        Some(i) => Some(unquoted(toks[i + 1])),
        None => None,
    }
}

/// The unquoted token after the first `key` token (ignoring ASCII case).
pub fn token_after(message: &str, key: &str) -> (r: Option<String>)
    ensures
        match r {
            Some(t) => token_after_spec(message@, key@) == Some(t@),
            None => token_after_spec(message@, key@) is None,
        },
{
    let toks = split_pieces(chars_of(message).as_slice(), true);
    let key_l = lower_chars(chars_of(key).as_slice());
    let ghost ts = pieces(message@, true);
    let n = toks.len();
    let mut i: usize = 0;
    while i < n
        invariant
            n == toks@.len(),
            n == ts.len(),
            ts == pieces(message@, true),
            key_l@ == lower_seq(key@),
            forall|k: int| 0 <= k < n ==> (#[trigger] toks@[k])@ == ts[k],
            i <= n,
            key_index_from(ts, lower_seq(key@), 0) == key_index_from(ts, lower_seq(key@), i as int),
        decreases n - i,
    {
        let t = lower_chars(toks[i].as_slice());
        if chars_eq(t.as_slice(), key_l.as_slice()) && i + 1 < n {
            return Some(unquote(toks[i + 1].as_slice()));
        }
        i = i + 1;
    }
    None
}

/// The first position `i` at or after `from` where tokens `i` and `i + 1`
/// are `first` and `second` (ignoring ASCII case) and a token follows.
pub open spec fn pair_index_from(toks: Seq<Seq<char>>, first: Seq<char>, second: Seq<char>, from: int) -> Option<int>
    decreases toks.len() - from,
{
    if from < 0 || from + 2 >= toks.len() {
        None
    } else if lower_seq(toks[from]) == first && lower_seq(toks[from + 1]) == second {
        Some(from)
    } else {
        pair_index_from(toks, first, second, from + 1)
    }
}

/// The unquoted token after the first `first second` token pair.
pub open spec fn token_after_pair_spec(message: Seq<char>, first: Seq<char>, second: Seq<char>) -> Option<Seq<char>> {
    let toks = pieces(message, true);
    match pair_index_from(toks, lower_seq(first), lower_seq(second), 0) {
        Some(i) => Some(unquoted(toks[i + 2])),
        None => None,
    }
}

/// The unquoted token after the first `first second` token pair (ignoring
/// ASCII case).
pub fn token_after_pair(message: &str, first: &str, second: &str) -> (r: Option<String>)
    ensures
        match r {
            Some(t) => token_after_pair_spec(message@, first@, second@) == Some(t@),
            None => token_after_pair_spec(message@, first@, second@) is None,
        },
{
    let toks = split_pieces(chars_of(message).as_slice(), true);
    let first_l = lower_chars(chars_of(first).as_slice());
    let second_l = lower_chars(chars_of(second).as_slice());
    let ghost ts = pieces(message@, true);
    let n = toks.len();
    let mut i: usize = 0;
    while i < n
        invariant
            n == toks@.len(),
            n == ts.len(),
            ts == pieces(message@, true),
            first_l@ == lower_seq(first@),
            second_l@ == lower_seq(second@),
            forall|k: int| 0 <= k < n ==> (#[trigger] toks@[k])@ == ts[k],
            i <= n,
            pair_index_from(ts, lower_seq(first@), lower_seq(second@), 0) == pair_index_from(
                ts,
                lower_seq(first@),
                lower_seq(second@),
                i as int,
            ),
        decreases n - i,
    {
        if n - i > 2 {
            let a = lower_chars(toks[i].as_slice());
            let b = lower_chars(toks[i + 1].as_slice());
            if chars_eq(a.as_slice(), first_l.as_slice()) && chars_eq(b.as_slice(), second_l.as_slice()) {
                return Some(unquote(toks[i + 2].as_slice()));
            }
        }
        i = i + 1;
    }
    None
}

// ----- names and goals -----

/// The build goal of a `start build` message: the text after the phrase,
/// trimmed, without surrounding quotes, trimmed again; `None` when empty.
pub open spec fn start_goal_spec(message: Seq<char>, lower: Seq<char>) -> Option<Seq<char>> {
    match text_after_spec(message, lower, "start build"@) {
        None => None,
        Some(rest) => {
            let goal = trim(trim_char(trim_char(trim(rest), '"'), '\''));
            if goal.len() == 0 { None } else { Some(goal) }
        },
    }
}

/// The build goal of a `start build` message.
pub fn parse_start_goal(message: &str, lower: &str) -> (r: Option<String>)
    ensures
        match r {
            Some(g) => start_goal_spec(message@, lower@) == Some(g@),
            None => start_goal_spec(message@, lower@) is None,
        },
{
    let rest = match text_after(message, lower, "start build") {
        Some(r) => r,
        None => return None,
    };
    let t = trim_str(rest.as_str());
    let a = trim_char_chars(chars_of(t.as_str()).as_slice(), '"');
    let b = trim_char_chars(a.as_slice(), '\'');
    let goal = trim_str(string_of(b.as_slice()).as_str());
    if goal.as_str().is_empty() {
        None
    } else {
        Some(goal)
    }
}

/// `s` without the repeated prefix `p` (`p` not empty), as
/// `trim_start_matches` with a string.
pub open spec fn strip_prefix_all(s: Seq<char>, p: Seq<char>) -> Seq<char>
    decreases s.len(),
{
    if p.len() > 0 && s.len() >= p.len() && s.subrange(0, p.len() as int) == p {
        strip_prefix_all(s.skip(p.len() as int), p)
    } else {
        s
    }
}

fn has_prefix_at(v: &Vec<char>, i: usize, p: &Vec<char>) -> (r: bool)
    requires
        i <= v@.len(),
    ensures
        r == (v@.skip(i as int).len() >= p@.len() && v@.skip(i as int).subrange(0, p@.len() as int) == p@),
{
    if v.len() - i < p.len() {
        return false;
    }
    let mut k: usize = 0;
    while k < p.len()
        invariant
            i <= v@.len(),
            v@.len() == v.len(),
            v@.len() - i >= p@.len(),
            k <= p@.len(),
            forall|m: int| 0 <= m < k ==> v@[i + m] == p@[m],
        decreases p@.len() - k,
    {
        if v[i + k] != p[k] {
            assert(v@.skip(i as int).subrange(0, p@.len() as int)[k as int] != p@[k as int]);
            return false;
        }
        k = k + 1;
    }
    assert(v@.skip(i as int).subrange(0, p@.len() as int) =~= p@);
    true
}

fn strip_prefix_all_chars(v: &Vec<char>, prefix: &str) -> (r: Vec<char>)
    requires
        prefix@.len() > 0,
    ensures
        r@ == strip_prefix_all(v@, prefix@),
{
    let p = chars_of(prefix);
    let n = v.len();
    let mut i: usize = 0;
    assert(v@.skip(0) =~= v@);
    while has_prefix_at(v, i, &p)
        invariant
            n == v@.len(),
            p@ == prefix@,
            p@.len() > 0,
            i <= n,
            strip_prefix_all(v@, p@) == strip_prefix_all(v@.skip(i as int), p@),
        decreases n - i,
    {
        assert(v@.skip(i as int).skip(p@.len() as int) =~= v@.skip(i + p@.len()));
        i = i + p.len();
    }
    slice_range(v.as_slice(), i, n)
}

/// A project name from the text after a trigger phrase: the repeated
/// prefixes `named ` and `called ` removed, trimmed, and surrounding
/// quotes and dots removed.
pub open spec fn project_name_of(rest: Seq<char>) -> Seq<char> {
    trim_char(
        trim_char(trim_char(trim(strip_prefix_all(strip_prefix_all(rest, "named "@), "called "@)), '"'), '\''),
        '.',
    )
}

/// The project name of a `create project` or `new project` message: the
/// first of the two phrases whose text gives a non-empty name.
pub open spec fn project_name_spec(message: Seq<char>, lower: Seq<char>) -> Option<Seq<char>> {
    let first = match text_after_spec(message, lower, "create project"@) {
        Some(rest) => project_name_of(rest),
        None => Seq::empty(),
    };
    let second = match text_after_spec(message, lower, "new project"@) {
        Some(rest) => project_name_of(rest),
        None => Seq::empty(),
    };
    if first.len() > 0 {
        Some(first)
    } else if second.len() > 0 {
        Some(second)
    } else {
        None
    }
}

fn project_name_from(rest: &String) -> (r: Vec<char>)
    ensures
        r@ == project_name_of(rest@),
{
    proof {
        reveal_strlit("named ");
        reveal_strlit("called ");
    }
    let v = chars_of(rest.as_str());
    let a = strip_prefix_all_chars(&v, "named ");
    let b = strip_prefix_all_chars(&a, "called ");
    let t = chars_of(trim_str(string_of(b.as_slice()).as_str()).as_str());
    let c = trim_char_chars(t.as_slice(), '"');
    let d = trim_char_chars(c.as_slice(), '\'');
    trim_char_chars(d.as_slice(), '.')
}

/// The project name of a `create project` or `new project` message.
pub fn parse_project_name(message: &str, lower: &str) -> (r: Option<String>)
    ensures
        match r {
            Some(n) => project_name_spec(message@, lower@) == Some(n@),
            None => project_name_spec(message@, lower@) is None,
        },
{
    match text_after(message, lower, "create project") {
        Some(rest) => {
            let name = project_name_from(&rest);
            if name.len() > 0 {
                return Some(string_of(name.as_slice()));
            }
        },
        None => {},
    }
    match text_after(message, lower, "new project") {
        Some(rest) => {
            let name = project_name_from(&rest);
            if name.len() > 0 {
                return Some(string_of(name.as_slice()));
            }
        },
        None => {},
    }
    None
}

/// The words that end an agent name in a registration message.
pub open spec fn is_config_keyword(w: Seq<char>) -> bool {
    ||| w == "provider"@
    ||| w == "model"@
    ||| w == "api"@
    ||| w == "key"@
    ||| w == "base"@
    ||| w == "url"@
    ||| w == "system"@
    ||| w == "prompt"@
    ||| w == "openrouter"@
    ||| w == "openai_compatible"@
    ||| w == "openai-compatible"@
}

fn config_keyword(w: &Vec<char>) -> (r: bool)
    ensures
        r == is_config_keyword(w@),
{
    let s = string_of(w.as_slice());
    let s = s.as_str();
    crate::text::str_eq(s, "provider") || crate::text::str_eq(s, "model") || crate::text::str_eq(s, "api")
        || crate::text::str_eq(s, "key") || crate::text::str_eq(s, "base") || crate::text::str_eq(s, "url")
        || crate::text::str_eq(s, "system") || crate::text::str_eq(s, "prompt") || crate::text::str_eq(
        s,
        "openrouter",
    ) || crate::text::str_eq(s, "openai_compatible") || crate::text::str_eq(s, "openai-compatible")
}

/// The number of leading tokens before the first configuration keyword.
pub open spec fn name_token_count(toks: Seq<Seq<char>>, i: int) -> int
    decreases toks.len() - i,
{
    if i < 0 || i >= toks.len() || is_config_keyword(lower_seq(toks[i])) {
        i
    } else {
        name_token_count(toks, i + 1)
    }
}

/// The first `n` tokens joined by single spaces.
pub open spec fn joined_words(toks: Seq<Seq<char>>, n: nat) -> Seq<char>
    decreases n,
{
    if n == 0 {
        Seq::empty()
    } else if n == 1 {
        toks[0]
    } else {
        joined_words(toks, (n - 1) as nat) + " "@ + toks[n - 1]
    }
}

/// The agent name of a `register agent` or `add agent` message: the words
/// after the phrase up to the first configuration keyword, joined by
/// single spaces; `None` when there are none.
pub open spec fn agent_name_spec(message: Seq<char>, lower: Seq<char>) -> Option<Seq<char>> {
    let rest = match text_after_spec(message, lower, "register agent"@) {
        Some(r) => Some(r),
        None => text_after_spec(message, lower, "add agent"@),
    };
    match rest {
        None => None,
        Some(r) => {
            let toks = pieces(r, true);
            let n = name_token_count(toks, 0);
            if n == 0 { None } else { Some(joined_words(toks, n as nat)) }
        },
    }
}

/// The agent name of a `register agent` or `add agent` message.
pub fn parse_agent_name(message: &str, lower: &str) -> (r: Option<String>)
    ensures
        match r {
            Some(n) => agent_name_spec(message@, lower@) == Some(n@),
            None => agent_name_spec(message@, lower@) is None,
        },
{
    let rest = match text_after(message, lower, "register agent") {
        Some(r) => r,
        None => match text_after(message, lower, "add agent") {
            Some(r) => r,
            None => return None,
        },
    };
    let toks = split_pieces(chars_of(rest.as_str()).as_slice(), true);
    let ghost ts = pieces(rest@, true);
    let n = toks.len();
    let mut out = String::new();
    let mut i: usize = 0;
    proof {
        reveal_strlit(" ");
    }
    while i < n
        invariant
            n == toks@.len(),
            n == ts.len(),
            forall|k: int| 0 <= k < n ==> (#[trigger] toks@[k])@ == ts[k],
            i <= n,
            name_token_count(ts, 0) == name_token_count(ts, i as int),
            forall|k: int| 0 <= k < i ==> !is_config_keyword(lower_seq(#[trigger] ts[k])),
            out@ == joined_words(ts, i as nat),
        ensures
            i <= n,
            name_token_count(ts, 0) == name_token_count(ts, i as int),
            out@ == joined_words(ts, i as nat),
            i == n || is_config_keyword(lower_seq(ts[i as int])),
        decreases n - i,
    {
        let t = lower_chars(toks[i].as_slice());
        if config_keyword(&t) {
            break;
        }
        if i > 0 {
            out.append(" ");
        }
        out.append(string_of(toks[i].as_slice()).as_str());
        i = i + 1;
    }
    if i == 0 {
        None
    } else {
        Some(out)
    }
}

/// The provider names the server supports, after normalising: trimmed,
/// ASCII lower-cased, `-` replaced by `_`.
pub open spec fn normalized_provider(raw: Seq<char>) -> Seq<char> {
    lower_seq(trim(raw)).map_values(|c: char| if c == '-' { '_' } else { c })
}

/// Normalises a provider name: `None` for an absent or blank one, the
/// normalised name for `openrouter` or `openai_compatible`, a bad request
/// for anything else.
pub fn normalize_provider(raw: Option<&str>) -> (r: Result<Option<String>, ApiError>)
    ensures
        match raw {
            None => r matches Ok(None),
            Some(x) => {
                let n = normalized_provider(x@);
                if n.len() == 0 {
                    r matches Ok(None)
                } else if n == "openrouter"@ || n == "openai_compatible"@ {
                    r matches Ok(Some(s)) && s@ == n
                } else {
                    r matches Err(ApiError::BadRequest(m)) && m@ == "unsupported provider '"@ + x@
                        + "': use openrouter or openai_compatible"@
                }
            },
        },
{
    let raw = match raw {
        Some(x) => x,
        None => return Ok(None),
    };
    let lowered = lower_chars(chars_of(trim_str(raw).as_str()).as_slice());
    let mut replaced: Vec<char> = Vec::new();
    for i in 0..lowered.len()
        invariant
            replaced@ == lowered@.subrange(0, i as int).map_values(|c: char| if c == '-' { '_' } else { c }),
    {
        let c = lowered[i];
        replaced.push(if c == '-' { '_' } else { c });
        assert(lowered@.subrange(0, i + 1).map_values(|c: char| if c == '-' { '_' } else { c }) =~= replaced@);
    }
    assert(lowered@.subrange(0, lowered@.len() as int) =~= lowered@);
    let normalized = string_of(replaced.as_slice());
    if normalized.as_str().is_empty() {
        return Ok(None);
    }
    if crate::text::str_eq(normalized.as_str(), "openrouter") || crate::text::str_eq(
        normalized.as_str(),
        "openai_compatible",
    ) {
        Ok(Some(normalized))
    } else {
        Err(ApiError::BadRequest(cat3("unsupported provider '", raw, "': use openrouter or openai_compatible")))
    }
}

// ----- what a chat message asks for -----

/// What a dashboard chat message asks the orchestrator to do. The first
/// phrase found decides, in the order of the variants; a message that names
/// none of them is handed to the project's agent, after a run is started
/// when it speaks of building, compiling, running or executing.
#[derive(Debug, Clone, Copy, PartialEq, Eq)]
pub enum ChatIntent {
    CreateProject,
    RegisterAgent,
    ConfigureAgent,
    AssignAgent,
    StartBuild,
    StopBuild,
    Delegate { ensure_running: bool },
}

/// Whether `phrase` occurs in `lower`.
pub open spec fn mentions(lower: Seq<char>, phrase: Seq<char>) -> bool {
    first_bytes_from(encode_utf8(lower), encode_utf8(phrase), 0) is Some
}

/// The intent of a message whose lower-cased form is `lower`.
pub open spec fn intent_of(lower: Seq<char>) -> ChatIntent {
    if mentions(lower, "create project"@) || mentions(lower, "new project"@) {
        ChatIntent::CreateProject
    } else if mentions(lower, "register agent"@) || mentions(lower, "add agent"@) {
        ChatIntent::RegisterAgent
    } else if mentions(lower, "configure agent"@) || mentions(lower, "set provider"@) || mentions(lower, "set model"@)
        || mentions(lower, "set api key"@) || mentions(lower, "set base url"@) || mentions(lower, "set system prompt"@) {
        ChatIntent::ConfigureAgent
    } else if mentions(lower, "assign agent"@) {
        ChatIntent::AssignAgent
    } else if mentions(lower, "start build"@) {
        ChatIntent::StartBuild
    } else if mentions(lower, "stop build"@) {
        ChatIntent::StopBuild
    } else {
        ChatIntent::Delegate {
            ensure_running: mentions(lower, "create hello world"@) || mentions(lower, "compile"@) || mentions(lower, "run"@)
                || mentions(lower, "execute"@),
        }
    }
}

/// A message about creating a project creates one, whatever else it says.
pub proof fn lemma_chat_project_first(lower: Seq<char>, phrase: Seq<char>)
    requires
        phrase == "create project"@ || phrase == "new project"@,
        mentions(lower, phrase),
    ensures
        intent_of(lower) == ChatIntent::CreateProject,
{
}

/// A message that registers or adds an agent, and creates no project,
/// registers an agent.
pub proof fn lemma_chat_register_agent(lower: Seq<char>, phrase: Seq<char>)
    requires
        phrase == "register agent"@ || phrase == "add agent"@,
        mentions(lower, phrase),
        !mentions(lower, "create project"@),
        !mentions(lower, "new project"@),
    ensures
        intent_of(lower) == ChatIntent::RegisterAgent,
{
}

/// A message that configures an agent or sets its provider, model, API key,
/// base URL or system prompt, and neither creates a project nor registers
/// an agent, configures the agent.
pub proof fn lemma_chat_configure_agent(lower: Seq<char>, phrase: Seq<char>)
    requires
        phrase == "configure agent"@ || phrase == "set provider"@ || phrase == "set model"@ || phrase == "set api key"@
            || phrase == "set base url"@ || phrase == "set system prompt"@,
        mentions(lower, phrase),
        !mentions(lower, "create project"@),
        !mentions(lower, "new project"@),
        !mentions(lower, "register agent"@),
        !mentions(lower, "add agent"@),
    ensures
        intent_of(lower) == ChatIntent::ConfigureAgent,
{
}

/// Whether a message names one of the project or agent-management phrases.
pub open spec fn mentions_management(lower: Seq<char>) -> bool {
    mentions(lower, "create project"@) || mentions(lower, "new project"@) || mentions(lower, "register agent"@)
        || mentions(lower, "add agent"@) || mentions(lower, "configure agent"@) || mentions(lower, "set provider"@)
        || mentions(lower, "set model"@) || mentions(lower, "set api key"@) || mentions(lower, "set base url"@)
        || mentions(lower, "set system prompt"@)
}

/// Past the management phrases, assigning an agent comes before starting a
/// build, which comes before stopping one; any other message is delegated,
/// with a run ensured when it speaks of creating hello world, compiling,
/// running or executing.
pub proof fn lemma_chat_build_and_delegate(lower: Seq<char>, word: Seq<char>)
    requires
        !mentions_management(lower),
    ensures
        mentions(lower, "assign agent"@) ==> intent_of(lower) == ChatIntent::AssignAgent,
        !mentions(lower, "assign agent"@) && mentions(lower, "start build"@) ==> intent_of(lower)
            == ChatIntent::StartBuild,
        !mentions(lower, "assign agent"@) && !mentions(lower, "start build"@) && mentions(lower, "stop build"@)
            ==> intent_of(lower) == ChatIntent::StopBuild,
        !mentions(lower, "assign agent"@) && !mentions(lower, "start build"@) && !mentions(lower, "stop build"@) && (word
            == "create hello world"@ || word == "compile"@ || word == "run"@ || word == "execute"@) && mentions(lower, word)
            ==> intent_of(lower) == (ChatIntent::Delegate { ensure_running: true }),
        !mentions(lower, "assign agent"@) && !mentions(lower, "start build"@) && !mentions(lower, "stop build"@)
            && !mentions(lower, "create hello world"@) && !mentions(lower, "compile"@) && !mentions(lower, "run"@)
            && !mentions(lower, "execute"@) ==> intent_of(lower) == (ChatIntent::Delegate { ensure_running: false }),
{
}

/// Whether `phrase` occurs in `lower`.
pub fn contains_phrase(lower: &str, phrase: &str) -> (r: bool)
    ensures
        r == mentions(lower@, phrase@),
{
    find_bytes(lower.as_bytes(), phrase.as_bytes()).is_some()
}

/// The intent of a message whose lower-cased form is `lower`.
pub fn classify_chat(lower: &str) -> (r: ChatIntent)
    ensures
        r == intent_of(lower@),
{
    if contains_phrase(lower, "create project") || contains_phrase(lower, "new project") {
        ChatIntent::CreateProject
    } else if contains_phrase(lower, "register agent") || contains_phrase(lower, "add agent") {
        ChatIntent::RegisterAgent
    } else if contains_phrase(lower, "configure agent") || contains_phrase(lower, "set provider") || contains_phrase(
        lower,
        "set model",
    ) || contains_phrase(lower, "set api key") || contains_phrase(lower, "set base url") || contains_phrase(
        lower,
        "set system prompt",
    ) {
        ChatIntent::ConfigureAgent
    } else if contains_phrase(lower, "assign agent") {
        ChatIntent::AssignAgent
    } else if contains_phrase(lower, "start build") {
        ChatIntent::StartBuild
    } else if contains_phrase(lower, "stop build") {
        ChatIntent::StopBuild
    } else {
        let ensure_running = contains_phrase(lower, "create hello world") || contains_phrase(lower, "compile")
            || contains_phrase(lower, "run") || contains_phrase(lower, "execute");
        ChatIntent::Delegate { ensure_running }
    }
}

/// Reads a dashboard chat message: the message trimmed, its lower-cased
/// form and what it asks for. A message that is empty once trimmed is
/// refused with `BadRequest("message must not be empty")`.
pub fn read_chat_message(raw: &str) -> (r: Result<(String, String, ChatIntent), ApiError>)
    ensures
        r is Err <==> trim(raw@).len() == 0,
        r matches Err(e) ==> (e matches ApiError::BadRequest(m) && m@ == "message must not be empty"@),
        r matches Ok((message, lower, intent)) ==> {
            &&& message@ == trim(raw@)
            &&& lower@ == unicode_lowercase(trim(raw@))
            &&& intent == intent_of(lower@)
        },
{
    let message = trim_str(raw);
    if message.as_str().is_empty() {
        return Err(ApiError::BadRequest(String::from_str("message must not be empty")));
    }
    let lower = to_lowercase(message.as_str());
    let intent = classify_chat(lower.as_str());
    Ok((message, lower, intent))
}

} // verus!
