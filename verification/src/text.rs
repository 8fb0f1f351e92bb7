//! Whitespace handling, token extraction and plain string equality: the
//! argument-extraction rule every command shares is defined and proved here.

use vstd::prelude::*;

verus! {

/// A character with the Unicode `White_Space` property, the set that
/// whitespace splitting and trimming go by.
pub open spec fn is_space(c: char) -> bool {
    c == ' ' || c == '\t' || c == '\n' || c == '\u{0b}' || c == '\u{0c}' || c == '\r'
        || c == '\u{85}' || c == '\u{a0}' || c == '\u{1680}'
        || (0x2000 <= c as u32 && c as u32 <= 0x200a)
        || c == '\u{2028}' || c == '\u{2029}' || c == '\u{202f}' || c == '\u{205f}'
        || c == '\u{3000}'
}

/// Executable test for [`is_space`].
pub fn is_space_char(c: char) -> (r: bool)
    ensures
        r == is_space(c),
{
    c == ' ' || c == '\t' || c == '\n' || c == '\u{0b}' || c == '\u{0c}' || c == '\r'
        || c == '\u{85}' || c == '\u{a0}' || c == '\u{1680}'
        || (0x2000 <= c as u32 && c as u32 <= 0x200a)
        || c == '\u{2028}' || c == '\u{2029}' || c == '\u{202f}' || c == '\u{205f}'
        || c == '\u{3000}'
}

/// The text with its leading whitespace removed.
pub open spec fn trim_start_spec(s: Seq<char>) -> Seq<char>
    decreases s.len(),
{
    if s.len() > 0 && is_space(s[0]) {
        trim_start_spec(s.skip(1))
    } else {
        s
    }
}

/// The longest whitespace-free prefix of the text.
pub open spec fn take_until_space(s: Seq<char>) -> Seq<char>
    decreases s.len(),
{
    if s.len() > 0 && !is_space(s[0]) {
        seq![s[0]] + take_until_space(s.skip(1))
    } else {
        Seq::empty()
    }
}

/// The first whitespace-delimited token of the text (empty if the text is
/// empty or holds only whitespace).
pub open spec fn first_token(s: Seq<char>) -> Seq<char> {
    take_until_space(trim_start_spec(s))
}

proof fn lemma_trim_start_at(s: Seq<char>, i: int)
    requires
        0 <= i <= s.len(),
        forall|j: int| 0 <= j < i ==> is_space(s[j]),
        i == s.len() || !is_space(s[i]),
    ensures
        trim_start_spec(s) == s.skip(i),
    decreases i,
{
    if i == 0 {
        assert(s.skip(0) =~= s);
    } else {
        lemma_trim_start_at(s.skip(1), i - 1);
        assert(s.skip(1).skip(i - 1) =~= s.skip(i));
    }
}

proof fn lemma_take_until_space_at(s: Seq<char>, m: int)
    requires
        0 <= m <= s.len(),
        forall|j: int| 0 <= j < m ==> !is_space(s[j]),
        m == s.len() || is_space(s[m]),
    ensures
        take_until_space(s) == s.take(m),
    decreases m,
{
    if m == 0 {
        assert(s.take(0) =~= Seq::<char>::empty());
    } else {
        lemma_take_until_space_at(s.skip(1), m - 1);
        assert(seq![s[0]] + s.skip(1).take(m - 1) =~= s.take(m));
    }
}

/// A whitespace-only text (the empty text included) has no first token.
pub proof fn lemma_first_token_all_space(s: Seq<char>)
    requires
        forall|j: int| 0 <= j < s.len() ==> is_space(#[trigger] s[j]),
    ensures
        first_token(s).len() == 0,
{
    lemma_trim_start_at(s, s.len() as int);
    assert(s.skip(s.len() as int) =~= Seq::<char>::empty());
}

/// The bounds of the first token of `s`: every character before `start` is
/// whitespace, the characters of `start..end` form the token.
fn token_bounds(s: &str) -> (r: (usize, usize))
    ensures
        r.0 <= r.1 <= s@.len(),
        trim_start_spec(s@) == s@.skip(r.0 as int),
        first_token(s@) == s@.subrange(r.0 as int, r.1 as int),
        forall|j: int| 0 <= j < r.0 ==> is_space(s@[j]),
        forall|j: int| r.0 <= j < r.1 ==> !is_space(s@[j]),
        r.1 == s@.len() || is_space(s@[r.1 as int]),
{
    let n = s.unicode_len();
    let mut start: usize = 0;
    while start < n && is_space_char(s.get_char(start))
        invariant
            start <= n == s@.len(),
            forall|j: int| 0 <= j < start ==> is_space(s@[j]),
        decreases n - start,
    {
        start += 1;
    }
    let mut end: usize = start;
    while end < n && !is_space_char(s.get_char(end))
        invariant
            start <= end <= n == s@.len(),
            forall|j: int| start <= j < end ==> !is_space(s@[j]),
        decreases n - end,
    {
        end += 1;
    }
    proof {
        lemma_trim_start_at(s@, start as int);
        lemma_take_until_space_at(s@.skip(start as int), end - start);
        assert(s@.skip(start as int).take(end - start) =~= s@.subrange(
            start as int,
            end as int,
        ));
    }
    (start, end)
}

/// The first whitespace-delimited token of `s`, as a slice of `s`.
pub fn first_token_of<'a>(s: &'a str) -> (r: &'a str)
    ensures
        r@ == first_token(s@),
{
    let (start, end) = token_bounds(s);
    s.substring_char(start, end)
}

/// The argument-extraction rule every command shares: if the first
/// whitespace-delimited token of `raw` is one of the bindings, the remaining
/// arguments are everything after that token with leading whitespace trimmed
/// (empty if nothing follows); otherwise `raw` comes back unchanged.
pub open spec fn extract_args(bindings: Seq<Seq<char>>, raw: Seq<char>) -> Seq<char> {
    let t = first_token(raw);
    if bindings.contains(t) {
        trim_start_spec(trim_start_spec(raw).skip(t.len() as int))
    } else {
        raw
    }
}

/// Whether one of the strings equals `s`, stated over the views.
pub fn contains_string(v: &Vec<String>, s: &str) -> (r: bool)
    ensures
        r == v.deep_view().contains(s@),
{
    let mut i: usize = 0;
    while i < v.len()
        invariant
            i <= v.len(),
            v.deep_view().len() == v.len(),
            forall|j: int| 0 <= j < i ==> v.deep_view()[j] != s@,
        decreases v.len() - i,
    {
        if str_eq(v[i].as_str(), s) {
            assert(v.deep_view()[i as int] == s@);
            return true;
        }
        i += 1;
    }
    false
}

/// Executable form of [`extract_args`], returning a slice of `args`
/// (or the empty string where the rule yields nothing).
pub fn extract_command_args<'a>(bindings: &Vec<String>, args: &'a str) -> (r: &'a str)
    ensures
        r@ == extract_args(bindings.deep_view(), args@),
{
    let (start, end) = token_bounds(args);
    let token = args.substring_char(start, end);
    if !contains_string(bindings, token) {
        return args;
    }
    let n = args.unicode_len();
    let mut k = end;
    while k < n && is_space_char(args.get_char(k))
        invariant
            end <= k <= n == args@.len(),
            forall|j: int| end <= j < k ==> is_space(args@[j]),
        decreases n - k,
    {
        k += 1;
    }
    proof {
        let t = first_token(args@);
        assert(t.len() == end - start);
        assert(trim_start_spec(args@).skip(end - start) =~= args@.skip(end as int));
        let rest = args@.skip(end as int);
        lemma_trim_start_at(rest, k - end);
        assert(rest.skip(k - end) =~= args@.subrange(k as int, n as int));
    }
    args.substring_char(k, n)
}

/// Plain string equality, stated over the views.
pub fn str_eq(a: &str, b: &str) -> (r: bool)
    ensures
        r == (a@ == b@),
{
    let n = a.unicode_len();
    if n != b.unicode_len() {
        return false;
    }
    let mut i: usize = 0;
    while i < n
        invariant
            i <= n == a@.len(),
            b@.len() == n,
            forall|j: int| 0 <= j < i ==> a@[j] == b@[j],
        decreases n - i,
    {
        if a.get_char(i) != b.get_char(i) {
            return false;
        }
        i += 1;
    }
    proof {
        assert(a@ =~= b@);
    }
    true
}

} // verus!
