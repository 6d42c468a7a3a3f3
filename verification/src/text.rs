//! Characters, lines and whitespace-separated tokens.

use vstd::prelude::*;
use vstd::string::StrSliceExecFns;
use vstd::string::StringExecFns;
use vstd::utf8::decode_utf8;
use vstd::utf8::valid_utf8;

verus! {

/// Whether `c` separates tokens: the code points that Unicode marks as
/// white space.
pub open spec fn is_space(c: char) -> bool {
    let u = c as u32;
    ||| 0x09 <= u <= 0x0D
    ||| u == 0x20
    ||| u == 0x85
    ||| u == 0xA0
    ||| u == 0x1680
    ||| 0x2000 <= u <= 0x200A
    ||| u == 0x2028
    ||| u == 0x2029
    ||| u == 0x202F
    ||| u == 0x205F
    ||| u == 0x3000
}

/// The end of the token that starts at `i`: the first position from `i` on
/// that holds white space, or the end of `s`.
pub open spec fn token_end(s: Seq<char>, i: int) -> int
    decreases s.len() - i,
{
    if 0 <= i < s.len() && !is_space(s[i]) {
        token_end(s, i + 1)
    } else {
        i
    }
}

/// The end of the line that starts at `i`: the position of the first line
/// feed from `i` on, or the end of `s`.
pub open spec fn line_end(s: Seq<char>, i: int) -> int
    decreases s.len() - i,
{
    if 0 <= i < s.len() && s[i] != '\n' {
        line_end(s, i + 1)
    } else {
        i
    }
}

/// The tokens of `s` that start at `i` or later, in order. A token is a
/// longest run of characters that are not white space.
pub open spec fn tokens_from(s: Seq<char>, i: int) -> Seq<Seq<char>>
    decreases s.len() - i,
    via tokens_from_decreases
{
    if 0 <= i < s.len() {
        if is_space(s[i]) {
            tokens_from(s, i + 1)
        } else {
            seq![s.subrange(i, token_end(s, i))] + tokens_from(s, token_end(s, i))
        }
    } else {
        Seq::empty()
    }
}

#[via_fn]
proof fn tokens_from_decreases(s: Seq<char>, i: int) {
    if 0 <= i < s.len() && !is_space(s[i]) {
        lemma_token_end_bounds(s, i + 1);
    }
}

/// The tokens of `s`, in order.
pub open spec fn tokens(s: Seq<char>) -> Seq<Seq<char>> {
    tokens_from(s, 0)
}

/// The text that `bytes` stand for: their decoding where they are UTF-8,
/// and the empty text where they are not.
pub open spec fn text_of(bytes: Seq<u8>) -> Seq<char> {
    if valid_utf8(bytes) {
        decode_utf8(bytes)
    } else {
        Seq::empty()
    }
}

/// A token's end lies between its start and the end of the text.
pub proof fn lemma_token_end_bounds(s: Seq<char>, i: int)
    requires
        0 <= i <= s.len(),
    ensures
        i <= token_end(s, i) <= s.len(),
    decreases s.len() - i,
{
    if i < s.len() && !is_space(s[i]) {
        lemma_token_end_bounds(s, i + 1);
    }
}

/// Whether `t` can be a token: it is not empty and holds no white space.
pub open spec fn is_word(t: Seq<char>) -> bool {
    t.len() > 0 && forall|j: int| 0 <= j < t.len() ==> !is_space(#[trigger] t[j])
}

/// No character of a token is white space.
pub proof fn lemma_token_holds_no_space(s: Seq<char>, i: int)
    requires
        0 <= i <= s.len(),
    ensures
        forall|j: int| i <= j < token_end(s, i) ==> !is_space(#[trigger] s[j]),
    decreases s.len() - i,
{
    if i < s.len() && !is_space(s[i]) {
        lemma_token_holds_no_space(s, i + 1);
    }
}

/// Every token is a word.
pub proof fn lemma_tokens_are_words(s: Seq<char>, i: int)
    requires
        0 <= i <= s.len(),
    ensures
        forall|k: int|
            0 <= k < tokens_from(s, i).len() ==> is_word(#[trigger] tokens_from(s, i)[k]),
    decreases s.len() - i,
{
    if i < s.len() {
        if is_space(s[i]) {
            lemma_tokens_are_words(s, i + 1);
            assert(tokens_from(s, i) == tokens_from(s, i + 1));
        } else {
            let e = token_end(s, i);
            lemma_token_end_bounds(s, i + 1);
            lemma_token_holds_no_space(s, i);
            lemma_tokens_are_words(s, e);
            assert(is_word(s.subrange(i, e)));
            assert forall|k: int| 0 <= k < tokens_from(s, i).len() implies is_word(
                #[trigger] tokens_from(s, i)[k],
            ) by {
                if k > 0 {
                    assert(tokens_from(s, i)[k] == tokens_from(s, e)[k - 1]);
                }
            }
        }
    }
}

/// A line's end lies between its start and the end of the text.
pub proof fn lemma_line_end_bounds(s: Seq<char>, i: int)
    requires
        0 <= i <= s.len(),
    ensures
        i <= line_end(s, i) <= s.len(),
    decreases s.len() - i,
{
    if i < s.len() && s[i] != '\n' {
        lemma_line_end_bounds(s, i + 1);
    }
}

/// Whether `c` is white space.
pub fn is_whitespace(c: char) -> (b: bool)
    ensures
        b == is_space(c),
{
    let u: u32 = c as u32;
    (0x09 <= u && u <= 0x0D) || u == 0x20 || u == 0x85 || u == 0xA0 || u == 0x1680 || (0x2000 <= u
        && u <= 0x200A) || u == 0x2028 || u == 0x2029 || u == 0x202F || u == 0x205F || u == 0x3000
}

/// The characters of `s`, in order.
pub fn chars_of(s: &str) -> (v: Vec<char>)
    ensures
        v@ == s@,
{
    broadcast use vstd::string::group_string_axioms;

    let mut v: Vec<char> = Vec::new();
    for c in it: s.chars()
        invariant
            it.seq() == s@,
            v@ == s@.take(it.index()),
    {
        v.push(c);
        assert(v@ =~= s@.take(it.index() + 1));
    }
    assert(v@ =~= s@);
    v
}

/// Where the token that starts at `i` ends.
pub fn scan_token(chars: &Vec<char>, i: usize) -> (e: usize)
    requires
        i <= chars.len(),
    ensures
        e == token_end(chars@, i as int),
        i <= e <= chars.len(),
{
    let mut e: usize = i;
    while e < chars.len() && !is_whitespace(chars[e])
        invariant
            i <= e <= chars.len(),
            token_end(chars@, i as int) == token_end(chars@, e as int),
        decreases chars.len() - e,
    {
        e += 1;
    }
    e
}

/// Where the line that starts at `i` ends.
pub fn scan_line(chars: &Vec<char>, i: usize) -> (e: usize)
    requires
        i <= chars.len(),
    ensures
        e == line_end(chars@, i as int),
        i <= e <= chars.len(),
{
    let mut e: usize = i;
    while e < chars.len() && chars[e] != '\n'
        invariant
            i <= e <= chars.len(),
            line_end(chars@, i as int) == line_end(chars@, e as int),
        decreases chars.len() - e,
    {
        e += 1;
    }
    e
}

/// The views of the strings in `v`, in order.
pub open spec fn views(v: Seq<String>) -> Seq<Seq<char>> {
    v.map_values(|t: String| t@)
}

/// Splits `line` at white space into its tokens.
pub fn split_tokens(line: &str) -> (out: Vec<String>)
    ensures
        views(out@) == tokens(line@),
{
    let chars = chars_of(line);
    let mut out: Vec<String> = Vec::new();
    let mut i: usize = 0;
    while i < chars.len()
        invariant
            chars@ == line@,
            i <= chars.len(),
            tokens(line@) == views(out@) + tokens_from(line@, i as int),
        decreases chars.len() - i,
    {
        if is_whitespace(chars[i]) {
            i += 1;
        } else {
            let e = scan_token(&chars, i);
            let token = String::from_str(line.substring_char(i, e));
            let ghost before = out@;
            out.push(token);
            proof {
                lemma_token_end_bounds(line@, i as int + 1);
                assert(views(out@) =~= views(before) + seq![line@.subrange(i as int, e as int)]);
            }
            i = e;
        }
    }
    assert(views(out@) =~= views(out@) + Seq::<Seq<char>>::empty());
    out
}

/// `String::from_utf8` of std: the string that `bytes` encode where they are
/// UTF-8, and nothing where they are not.
#[verifier::external_body]
fn decode(bytes: Vec<u8>) -> (r: Option<String>)
    ensures
        valid_utf8(bytes@) ==> r is Some && r->0@ == decode_utf8(bytes@),
        !valid_utf8(bytes@) ==> r is None,
{
    match String::from_utf8(bytes) {
        Ok(s) => Some(s),
        Err(_) => None,
    }
}

/// Reads `bytes` as text; bytes that are not UTF-8 give the empty text.
pub fn decode_text(bytes: Vec<u8>) -> (text: String)
    ensures
        text@ == text_of(bytes@),
{
    match decode(bytes) {
        Some(s) => s,
        None => String::new(),
    }
}

} // verus!
