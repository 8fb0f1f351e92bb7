//! Shared URL-encoding utilities: percent-encoding of arbitrary text and the
//! two canonical URL shapes (search-style and path-style) built from it.

use vstd::prelude::*;
use vstd::string::StrSliceExecFns;
use vstd::string::StringExecFns;
use vstd::string::StringSliceAdditionalSpecFns;
use vstd::utf8::encode_utf8;

verus! {

/// A byte that must be percent-escaped: the ASCII controls and space
/// (at most 0x20), DEL and every non-ASCII byte (at least 0x7f), plus double
/// quote, `<`, `>` and backtick. Every other byte passes through.
pub open spec fn is_url_unsafe_byte(b: u8) -> bool {
    b <= 0x20 || b >= 0x7f || b == 0x22 || b == 0x3c || b == 0x3e || b == 0x60
}

/// A character that encoding leaves alone: printable ASCII outside the
/// unsafe set.
pub open spec fn is_url_safe_char(c: char) -> bool {
    0x20 < (c as u32) < 0x7f && c != '"' && c != '<' && c != '>' && c != '`'
}

/// The uppercase hexadecimal digit for a value below sixteen.
pub open spec fn hex_digit_char(v: u32) -> char {
    if v == 0 {
        '0'
    } else if v == 1 {
        '1'
    } else if v == 2 {
        '2'
    } else if v == 3 {
        '3'
    } else if v == 4 {
        '4'
    } else if v == 5 {
        '5'
    } else if v == 6 {
        '6'
    } else if v == 7 {
        '7'
    } else if v == 8 {
        '8'
    } else if v == 9 {
        '9'
    } else if v == 10 {
        'A'
    } else if v == 11 {
        'B'
    } else if v == 12 {
        'C'
    } else if v == 13 {
        'D'
    } else if v == 14 {
        'E'
    } else if v == 15 {
        'F'
    } else {
        '0'
    }
}

/// What one byte becomes under encoding: an uppercase `%XX` escape for an
/// unsafe byte, the byte's own (ASCII) character otherwise.
pub open spec fn encode_byte(b: u8) -> Seq<char> {
    if is_url_unsafe_byte(b) {
        seq!['%', hex_digit_char((b as u32) / 16), hex_digit_char((b as u32) % 16)]
    } else {
        seq![b as char]
    }
}

/// What a run of raw bytes becomes under encoding, byte by byte.
pub open spec fn encode_bytes(bs: Seq<u8>) -> Seq<char>
    decreases bs.len(),
{
    if bs.len() == 0 {
        Seq::empty()
    } else {
        encode_byte(bs[0]) + encode_bytes(bs.skip(1))
    }
}

/// What a whole text becomes under encoding: its UTF-8 bytes, byte by byte,
/// so every byte of a non-ASCII character is escaped.
pub open spec fn encode_text(s: Seq<char>) -> Seq<char> {
    encode_bytes(encode_utf8(s))
}

/// Relies on `percent_encoding::percent_encode_byte`: the uppercase `%XX`
/// percent-escape of the given byte.
#[verifier::external_body]
fn percent_escape_byte(b: u8) -> (r: &'static str)
    ensures
        r@ == seq!['%', hex_digit_char((b as u32) / 16), hex_digit_char((b as u32) % 16)],
{
    percent_encoding::percent_encode_byte(b)
}

/// Relies on `String::push`: appends the given character to the end of the
/// string.
pub assume_specification[ String::push ](s: &mut String, c: char)
    ensures
        final (s)@ == old(s)@.push(c),
;

proof fn lemma_encode_bytes_snoc(bs: Seq<u8>, b: u8)
    ensures
        encode_bytes(bs.push(b)) == encode_bytes(bs) + encode_byte(b),
    decreases bs.len(),
{
    let sb = bs.push(b);
    if bs.len() == 0 {
        assert(sb[0] == b);
        assert(sb.skip(1) =~= Seq::<u8>::empty());
        assert(encode_bytes(sb) == encode_byte(b) + encode_bytes(Seq::<u8>::empty()));
        assert(encode_byte(b) + Seq::<char>::empty() =~= Seq::<char>::empty() + encode_byte(b));
    } else {
        lemma_encode_bytes_snoc(bs.skip(1), b);
        assert(sb[0] == bs[0]);
        assert(sb.skip(1) =~= bs.skip(1).push(b));
        assert(encode_bytes(sb) == encode_byte(bs[0]) + (encode_bytes(bs.skip(1)) + encode_byte(
            b,
        )));
        assert(encode_byte(bs[0]) + (encode_bytes(bs.skip(1)) + encode_byte(b)) =~= (encode_byte(
            bs[0],
        ) + encode_bytes(bs.skip(1))) + encode_byte(b));
    }
}

/// Encode a string for safe use in URLs: every unsafe byte of its UTF-8 form
/// becomes an uppercase `%XX` escape and every safe byte passes through.
pub fn encode_url(input: &str) -> (r: String)
    ensures
        r@ == encode_text(input@),
{
    let bytes = input.as_bytes_vec();
    proof {
        assert(bytes@ == encode_utf8(input@));
        assert(bytes@.take(0) =~= Seq::<u8>::empty());
    }
    let mut r = String::new();
    let mut i: usize = 0;
    while i < bytes.len()
        invariant
            i <= bytes@.len(),
            bytes@ == encode_utf8(input@),
            r@ == encode_bytes(bytes@.take(i as int)),
        decreases bytes@.len() - i,
    {
        let ghost prev = r@;
        let b = bytes[i];
        if b <= 0x20 || b >= 0x7f || b == 0x22 || b == 0x3c || b == 0x3e || b == 0x60 {
            r.append(percent_escape_byte(b));
        } else {
            r.push(b as char);
            proof {
                assert(prev.push(b as char) =~= prev + seq![b as char]);
            }
        }
        proof {
            lemma_encode_bytes_snoc(bytes@.take(i as int), bytes@[i as int]);
            assert(bytes@.take(i as int).push(bytes@[i as int]) =~= bytes@.take(i + 1));
        }
        i += 1;
    }
    proof {
        assert(bytes@.take(bytes@.len() as int) =~= bytes@);
    }
    r
}

/// A safe character's one-byte UTF-8 encoding is itself safe and decodes
/// back to the character.
proof fn lemma_safe_char_byte(c: char)
    requires
        is_url_safe_char(c),
    ensures
        vstd::utf8::leading_byte_width_1(c as u32) as u32 == c as u32,
        !is_url_unsafe_byte(vstd::utf8::leading_byte_width_1(c as u32)),
        (vstd::utf8::leading_byte_width_1(c as u32) as char) == c,
{
    let v = c as u32;
    let b = vstd::utf8::leading_byte_width_1(v);
    assert(b == (v & 0x7f) as u8);
    assert(b as u32 == v) by (bit_vector)
        requires
            v < 0x7f,
            b == (v & 0x7f) as u8,
    ;
    assert(!is_url_unsafe_byte(b));
    assert((b as char) == c);
}

/// Identity of encoding on safe text: every character is printable ASCII
/// outside the unsafe set, so every UTF-8 byte passes through and the text
/// comes back unchanged.
pub proof fn lemma_encode_identity(s: Seq<char>)
    requires
        forall|i: int| 0 <= i < s.len() ==> is_url_safe_char(#[trigger] s[i]),
    ensures
        encode_text(s) == s,
    decreases s.len(),
{
    if s.len() == 0 {
        assert(encode_text(s) =~= s);
    } else {
        lemma_encode_identity(s.drop_first());
        let c = s[0];
        assert(is_url_safe_char(c));
        lemma_safe_char_byte(c);
        let b = vstd::utf8::leading_byte_width_1(c as u32);
        assert(vstd::utf8::encode_scalar(c as u32) =~= seq![b]);
        let bs = encode_utf8(s);
        assert(bs =~= seq![b] + encode_utf8(s.drop_first()));
        assert(bs[0] == b);
        assert(bs.skip(1) =~= encode_utf8(s.drop_first()));
        assert(encode_bytes(bs) == seq![c] + s.drop_first());
        assert(seq![c] + s.drop_first() =~= s);
    }
}

/// The encoded form of any run of bytes is pure ASCII.
pub proof fn lemma_encode_bytes_ascii(bs: Seq<u8>)
    ensures
        forall|i: int|
            0 <= i < encode_bytes(bs).len() ==> (#[trigger] encode_bytes(bs)[i] as u32) < 0x80,
    decreases bs.len(),
{
    if bs.len() > 0 {
        lemma_encode_bytes_ascii(bs.skip(1));
        assert forall|i: int| 0 <= i < encode_bytes(bs).len() implies (
        #[trigger] encode_bytes(bs)[i] as u32) < 0x80 by {
            let head = encode_byte(bs[0]);
            if i < head.len() {
                assert(encode_bytes(bs)[i] == head[i]);
            } else {
                assert(encode_bytes(bs)[i] == encode_bytes(bs.skip(1))[i - head.len()]);
            }
        }
    }
}

/// The encoded form of any text is pure ASCII.
pub proof fn lemma_encode_text_ascii(s: Seq<char>)
    ensures
        forall|i: int|
            0 <= i < encode_text(s).len() ==> (#[trigger] encode_text(s)[i] as u32) < 0x80,
{
    lemma_encode_bytes_ascii(encode_utf8(s));
}

/// The search-style URL shape: `base?param=encoded-value`.
pub open spec fn search_url_spec(base: Seq<char>, param: Seq<char>, value: Seq<char>) -> Seq<
    char,
> {
    base + "?"@ + param + "="@ + encode_text(value)
}

/// Build a search URL with the query value encoded.
///
/// `base_url` and `query_param` are taken as already URL-safe: handlers pass
/// literal constants for both.
pub fn build_search_url(base_url: &str, query_param: &str, query_value: &str) -> (r: String)
    ensures
        r@ == search_url_spec(base_url@, query_param@, query_value@),
{
    let encoded_query = encode_url(query_value);
    let mut r = base_url.to_owned();
    r.append("?");
    r.append(query_param);
    r.append("=");
    r.append(encoded_query.as_str());
    r
}

/// The base with its trailing `/` characters removed.
pub open spec fn strip_trailing_slashes(s: Seq<char>) -> Seq<char>
    decreases s.len(),
{
    if s.len() > 0 && s.last() == '/' {
        strip_trailing_slashes(s.drop_last())
    } else {
        s
    }
}

/// The path-style URL shape: the base stripped of trailing slashes, one `/`,
/// then the encoded path. Slashes inside `path` pass through unescaped, so a
/// multi-segment path such as `user/repo` keeps its shape.
pub open spec fn path_url_spec(base: Seq<char>, path: Seq<char>) -> Seq<char> {
    strip_trailing_slashes(base) + "/"@ + encode_text(path)
}

/// Build a path URL with the appended path encoded as one opaque fragment.
pub fn build_path_url(base_url: &str, path: &str) -> (r: String)
    ensures
        r@ == path_url_spec(base_url@, path@),
{
    let n = base_url.unicode_len();
    proof {
        assert(base_url@.take(n as int) =~= base_url@);
    }
    let mut end = n;
    while end > 0 && base_url.get_char(end - 1) == '/'
        invariant
            end <= n == base_url@.len(),
            strip_trailing_slashes(base_url@) == strip_trailing_slashes(
                base_url@.take(end as int),
            ),
        decreases end,
    {
        proof {
            let t = base_url@.take(end as int);
            assert(t.drop_last() =~= base_url@.take(end - 1));
        }
        end -= 1;
    }
    proof {
        assert(base_url@.take(n as int) =~= base_url@);
        let t = base_url@.take(end as int);
        assert(strip_trailing_slashes(t) == t);
    }
    let stripped = base_url.substring_char(0, end);
    proof {
        assert(base_url@.subrange(0, end as int) =~= base_url@.take(end as int));
    }
    let mut r = stripped.to_owned();
    r.append("/");
    let encoded_path = encode_url(path);
    r.append(encoded_path.as_str());
    r
}

/// Trailing-slash idempotence of the path-style shape: adding one more
/// trailing slash to the base changes nothing.
pub proof fn lemma_path_url_trailing_slash(base: Seq<char>, path: Seq<char>)
    ensures
        path_url_spec(base.push('/'), path) == path_url_spec(base, path),
{
    assert(base.push('/').drop_last() =~= base);
}

} // verus!
