//! A simple span tokenizer: one linear pass that turns maximal runs of
//! alphanumeric characters into word spans and every other non-whitespace
//! character into a one-character span. Spans are half-open byte offsets
//! into the text's UTF-8 encoding.

use vstd::prelude::*;
use vstd::utf8::{encode_scalar, encode_utf8};

verus! {

broadcast use vstd::std_specs::vec::group_vec_axioms, vstd::seq::group_seq_axioms;

/// Whether a character has the Unicode alphabetic property.
pub uninterp spec fn alphabetic(c: char) -> bool;

/// Whether a character has a Unicode numeric property.
pub uninterp spec fn numeric_char(c: char) -> bool;

/// Whether a character is Unicode whitespace.
pub uninterp spec fn whitespace(c: char) -> bool;

/// Relies on char::is_alphabetic: the Unicode alphabetic property of the
/// character alone.
#[verifier::external_body]
fn is_alphabetic_char(c: char) -> (r: bool)
    ensures
        r == alphabetic(c),
{
    c.is_alphabetic()
}

/// Relies on char::is_numeric: the Unicode numeric property of the character
/// alone.
#[verifier::external_body]
fn is_numeric_char(c: char) -> (r: bool)
    ensures
        r == numeric_char(c),
{
    c.is_numeric()
}

/// Relies on char::is_whitespace: the Unicode whitespace property of the
/// character alone.
#[verifier::external_body]
fn is_whitespace_char(c: char) -> (r: bool)
    ensures
        r == whitespace(c),
{
    c.is_whitespace()
}

/// Whether a character belongs to a word: alphabetic or numeric.
pub open spec fn word_char(c: char) -> bool {
    alphabetic(c) || numeric_char(c)
}

/// The UTF-8 length of the text's first `k` characters.
pub open spec fn bpos(s: Seq<char>, k: int) -> int {
    encode_utf8(s.take(k)).len() as int
}

/// The UTF-8 length of the whole text.
pub open spec fn bytes_len(s: Seq<char>) -> int {
    encode_utf8(s).len() as int
}

/// UTF-8 encodes a concatenation piecewise.
proof fn lemma_encode_concat(a: Seq<char>, b: Seq<char>)
    ensures
        encode_utf8(a + b) == encode_utf8(a) + encode_utf8(b),
    decreases a.len(),
{
    if a.len() == 0 {
        assert(a + b =~= b);
        assert(encode_utf8(a) + encode_utf8(b) =~= encode_utf8(b));
    } else {
        assert((a + b).drop_first() =~= a.drop_first() + b);
        lemma_encode_concat(a.drop_first(), b);
        assert(encode_utf8(a + b) =~= encode_utf8(a) + encode_utf8(b));
    }
}

/// One more character advances the byte position by that character's UTF-8
/// length.
proof fn lemma_bpos_step(s: Seq<char>, k: int)
    requires
        0 <= k < s.len(),
    ensures
        bpos(s, k + 1) == bpos(s, k) + encode_scalar(s[k] as u32).len(),
{
    assert(s.take(k + 1) =~= s.take(k) + seq![s[k]]);
    lemma_encode_concat(s.take(k), seq![s[k]]);
    assert(seq![s[k]].drop_first() =~= Seq::<char>::empty());
    assert(encode_utf8(Seq::<char>::empty()) =~= Seq::<u8>::empty());
    assert(encode_utf8(seq![s[k]]) =~= encode_scalar(s[k] as u32));
}

/// Byte positions never pass the text's total byte length.
proof fn lemma_bpos_bound(s: Seq<char>, k: int)
    requires
        0 <= k <= s.len(),
    ensures
        bpos(s, k) <= bytes_len(s),
        0 <= bpos(s, k),
{
    assert(s =~= s.take(k) + s.skip(k));
    lemma_encode_concat(s.take(k), s.skip(k));
}

/// The word and one-character spans over characters `i..`, in character
/// indices, given the start of a word still open at `i` (if one is).
pub open spec fn tok_spans(s: Seq<char>, i: int, start: Option<int>) -> Seq<(int, int)>
    decreases s.len() - i,
{
    if i < 0 || i >= s.len() {
        match start {
            Option::Some(st) => seq![(st, s.len() as int)],
            Option::None => Seq::empty(),
        }
    } else if word_char(s[i]) {
        tok_spans(
            s,
            i + 1,
            match start {
                Option::Some(st) => Option::Some(st),
                Option::None => Option::Some(i),
            },
        )
    } else {
        (match start {
            Option::Some(st) => seq![(st, i)],
            Option::None => Seq::empty(),
        }) + (if !whitespace(s[i]) {
            seq![(i, i + 1)]
        } else {
            Seq::empty()
        }) + tok_spans(s, i + 1, Option::None)
    }
}

/// The tokenizer's output: the spans of `tok_spans`, read off in UTF-8 byte
/// offsets.
pub open spec fn tokenize_spec(s: Seq<char>) -> Seq<(u32, u32)> {
    let spans = tok_spans(s, 0, Option::None);
    Seq::new(spans.len(), |i: int| (bpos(s, spans[i].0) as u32, bpos(s, spans[i].1) as u32))
}

/// The UTF-8 length of one character, from its scalar value.
fn char_len(c: char) -> (n: usize)
    ensures
        n == encode_scalar(c as u32).len(),
        1 <= n <= 4,
{
    let u = c as u32;
    if u <= 0x7F {
        1
    } else if u <= 0x7FF {
        2
    } else if u <= 0xFFFF {
        3
    } else {
        4
    }
}

/// Scans the text left to right and returns its spans, as `tokenize_spec`
/// describes: maximal alphanumeric runs become word spans, other
/// non-whitespace characters their own spans, and whitespace only closes a
/// run. Requires the text's byte length to fit the span offset type.
pub fn simple_tokenize(text: &str) -> (r: Vec<(u32, u32)>)
    requires
        bytes_len(text@) <= u32::MAX,
    ensures
        r@ == tokenize_spec(text@),
{
    let s = text;
    let n = s.unicode_len();
    let mut out: Vec<(u32, u32)> = Vec::new();
    let mut k: usize = 0;
    let mut byte_pos: usize = 0;
    let mut in_word: bool = false;
    let mut word_start: usize = 0;
    let ghost mut emitted: Seq<(int, int)> = Seq::empty();
    let ghost mut start_char: Option<int> = Option::None;
    while k < n
        invariant
            n == s@.len(),
            bytes_len(s@) <= u32::MAX,
            k <= n,
            byte_pos == bpos(s@, k as int),
            in_word <==> start_char is Some,
            in_word ==> {
                &&& 0 <= start_char->Some_0 <= k as int
                &&& word_start == bpos(s@, start_char->Some_0)
            },
            tok_spans(s@, 0, Option::None) == emitted + tok_spans(s@, k as int, start_char),
            out@.len() == emitted.len(),
            forall|j: int| #![trigger emitted[j]]
                0 <= j < emitted.len() ==> out@[j] == (
                    bpos(s@, emitted[j].0) as u32,
                    bpos(s@, emitted[j].1) as u32,
                ),
        decreases n - k,
    {
        let c = s.get_char(k);
        let clen = char_len(c);
        proof {
            lemma_bpos_step(s@, k as int);
            lemma_bpos_bound(s@, k as int + 1);
            lemma_bpos_bound(s@, k as int);
        }
        if is_alphabetic_char(c) || is_numeric_char(c) {
            if !in_word {
                word_start = byte_pos;
                in_word = true;
                proof {
                    start_char = Option::Some(k as int);
                }
            }
        } else {
            let ghost old_emitted = emitted;
            let ghost pre_start = start_char;
            if in_word {
                out.push((word_start as u32, byte_pos as u32));
                in_word = false;
                proof {
                    emitted = emitted + seq![(pre_start->Some_0, k as int)];
                    lemma_bpos_bound(s@, pre_start->Some_0);
                    start_char = Option::None;
                }
            }
            if !is_whitespace_char(c) {
                out.push((byte_pos as u32, (byte_pos + clen) as u32));
                proof {
                    emitted = emitted + seq![(k as int, k as int + 1)];
                }
            }
            proof {
                assert(!word_char(s@[k as int]));
                assert(tok_spans(s@, k as int, pre_start) == (match pre_start {
                    Option::Some(st) => seq![(st, k as int)],
                    Option::None => Seq::empty(),
                }) + (if !whitespace(s@[k as int]) {
                    seq![(k as int, k as int + 1)]
                } else {
                    Seq::empty()
                }) + tok_spans(s@, k as int + 1, Option::None));
                assert(emitted + tok_spans(s@, k as int + 1, Option::None) =~= old_emitted
                    + tok_spans(s@, k as int, pre_start));
            }
        }
        byte_pos = byte_pos + clen;
        k = k + 1;
    }
    if in_word {
        out.push((word_start as u32, byte_pos as u32));
        proof {
            assert(tok_spans(s@, n as int, start_char) == seq![(start_char->Some_0, n as int)]);
            emitted = emitted + seq![(start_char->Some_0, n as int)];
            lemma_bpos_bound(s@, start_char->Some_0);
            assert(tok_spans(s@, 0, Option::None) =~= emitted);
        }
    } else {
        proof {
            assert(tok_spans(s@, n as int, start_char) =~= Seq::<(int, int)>::empty());
            assert(tok_spans(s@, 0, Option::None) =~= emitted);
        }
    }
    proof {
        assert(out@ =~= tokenize_spec(s@));
    }
    out
}

} // verus!
