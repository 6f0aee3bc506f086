//! Compact structural rendering of untyped values, and the escaping rules
//! shared with the text serializer.
//!
//! Strings are double-quoted with `"`, `\`, newline, carriage return and tab
//! escaped; numbers are decimal; arrays and objects are bracketed with comma
//! separators and no spaces. A float renders as `null`: the text form defines
//! no float literal, and nothing in the codec produces one.

use vstd::prelude::*;

use crate::value::{Value, ValueV};

verus! {

broadcast use vstd::std_specs::vec::group_vec_axioms, vstd::seq::group_seq_axioms;

/// How one character is escaped inside a double-quoted string.
pub open spec fn esc_char(c: char) -> Seq<char> {
    if c == '"' {
        seq!['\\', '"']
    } else if c == '\\' {
        seq!['\\', '\\']
    } else if c == '\n' {
        seq!['\\', 'n']
    } else if c == '\r' {
        seq!['\\', 'r']
    } else if c == '\t' {
        seq!['\\', 't']
    } else {
        seq![c]
    }
}

/// The escaping of the first `k` characters of `s`.
pub open spec fn escape_prefix(s: Seq<char>, k: int) -> Seq<char>
    decreases k,
{
    if k <= 0 || k > s.len() {
        Seq::empty()
    } else {
        escape_prefix(s, k - 1) + esc_char(s[k - 1])
    }
}

/// The escaping of a whole string.
pub open spec fn escape_str(s: Seq<char>) -> Seq<char> {
    escape_prefix(s, s.len() as int)
}

/// The decimal digit character for `d`.
pub open spec fn digit_char(d: int) -> char {
    if d == 0 {
        '0'
    } else if d == 1 {
        '1'
    } else if d == 2 {
        '2'
    } else if d == 3 {
        '3'
    } else if d == 4 {
        '4'
    } else if d == 5 {
        '5'
    } else if d == 6 {
        '6'
    } else if d == 7 {
        '7'
    } else if d == 8 {
        '8'
    } else {
        '9'
    }
}

/// The decimal representation of a non-negative integer.
pub open spec fn dec_rep(n: int) -> Seq<char>
    decreases n,
{
    if n < 10 {
        seq![digit_char(n)]
    } else {
        dec_rep(n / 10).push(digit_char(n % 10))
    }
}

/// The decimal representation of a signed integer.
pub open spec fn int_rep(n: int) -> Seq<char> {
    if n >= 0 {
        dec_rep(n)
    } else {
        seq!['-'] + dec_rep(-n)
    }
}

/// The rendering of the first `k` elements of an array body, comma separated.
pub open spec fn render_items(vs: Seq<ValueV>, k: int) -> Seq<char>
    decreases vs, k, 1int,
{
    if k <= 0 || k > vs.len() {
        Seq::empty()
    } else if k == 1 {
        render_value(vs[0])
    } else {
        render_items(vs, k - 1) + seq![','] + render_value(vs[k - 1])
    }
}

/// The rendering of the first `k` members of an object body, comma separated,
/// each as a quoted escaped key, a colon and the member value.
pub open spec fn render_member(m: (Seq<char>, ValueV)) -> Seq<char>
    decreases m, 1int, 0int,
{
    seq!['"'] + escape_str(m.0) + seq!['"', ':'] + render_value(m.1)
}

/// The rendering of the first `k` members of an object body.
pub open spec fn render_members(ms: Seq<(Seq<char>, ValueV)>, k: int) -> Seq<char>
    decreases ms, k, 2int,
{
    if k <= 0 || k > ms.len() {
        Seq::empty()
    } else if k == 1 {
        render_member(ms[0])
    } else {
        render_members(ms, k - 1) + seq![','] + render_member(ms[k - 1])
    }
}

/// The compact rendering of an untyped value.
pub open spec fn render_value(v: ValueV) -> Seq<char>
    decreases v, 0int, 0int,
{
    match v {
        ValueV::Null => "null"@,
        ValueV::Bool(b) => if b {
            "true"@
        } else {
            "false"@
        },
        ValueV::Int(i) => int_rep(i as int),
        ValueV::Float(_) => "null"@,
        ValueV::Str(s) => seq!['"'] + escape_str(s) + seq!['"'],
        ValueV::Array(vs) => seq!['['] + render_items(vs, vs.len() as int) + seq![']'],
        ValueV::Object(ms) => seq!['{'] + render_members(ms, ms.len() as int) + seq!['}'],
    }
}

/// What one escape sequence's marker character denotes.
pub open spec fn unesc_char(c: char) -> char {
    if c == 'n' {
        '\n'
    } else if c == 'r' {
        '\r'
    } else if c == 't' {
        '\t'
    } else {
        c
    }
}

/// Reads an escaped string back: a backslash and its marker become one
/// character, any other character stands for itself.
pub open spec fn unescape(s: Seq<char>) -> Seq<char>
    decreases s.len(),
{
    if s.len() == 0 {
        Seq::empty()
    } else if s[0] == '\\' && s.len() >= 2 {
        seq![unesc_char(s[1])] + unescape(s.skip(2))
    } else {
        seq![s[0]] + unescape(s.skip(1))
    }
}

/// Escaping reads off one character at a time from the left.
proof fn lemma_escape_first(s: Seq<char>, k: int)
    requires
        1 <= k <= s.len(),
    ensures
        escape_prefix(s, k) == esc_char(s[0]) + escape_prefix(s.drop_first(), k - 1),
    decreases k,
{
    if k == 1 {
        assert(escape_prefix(s, 0) =~= Seq::<char>::empty());
        assert(escape_prefix(s.drop_first(), 0) =~= Seq::<char>::empty());
        assert(escape_prefix(s, 1) =~= esc_char(s[0]) + escape_prefix(s.drop_first(), 0));
    } else {
        lemma_escape_first(s, k - 1);
        assert(s.drop_first()[k - 2] == s[k - 1]);
        assert(escape_prefix(s, k) =~= esc_char(s[0]) + escape_prefix(s.drop_first(), k - 1));
    }
}

/// Escaping loses nothing: reading the escaped text back gives the exact
/// original, so a quoted rendering is recoverable without ambiguity.
pub proof fn lemma_escape_round_trip(s: Seq<char>)
    ensures
        unescape(escape_str(s)) == s,
    decreases s.len(),
{
    if s.len() == 0 {
        assert(unescape(escape_str(s)) =~= s);
    } else {
        let rest = s.drop_first();
        lemma_escape_first(s, s.len() as int);
        lemma_escape_round_trip(rest);
        let e = escape_str(s);
        assert(e == esc_char(s[0]) + escape_str(rest));
        if s[0] == '"' || s[0] == '\\' || s[0] == '\n' || s[0] == '\r' || s[0] == '\t' {
            assert(e[0] == '\\' && e.len() >= 2);
            assert(unesc_char(e[1]) == s[0]);
            assert(e.skip(2) =~= escape_str(rest));
            assert(unescape(e) =~= s);
        } else {
            assert(e[0] == s[0] && e[0] != '\\');
            assert(e.skip(1) =~= escape_str(rest));
            assert(unescape(e) =~= s);
        }
    }
}

/// Relies on String::push: appends one character to the string.
#[verifier::external_body]
pub fn push_char(out: &mut String, c: char)
    ensures
        final(out)@ == old(out)@.push(c),
{
    out.push(c);
}

/// Appends `str` content to `out`.
pub fn push_str(out: &mut String, s: &str)
    ensures
        final(out)@ == old(out)@ + s@,
{
    out.append(s);
}

/// Appends the decimal representation of `n`.
pub fn push_u64(out: &mut String, n: u64)
    ensures
        final(out)@ == old(out)@ + dec_rep(n as int),
    decreases n,
{
    if n >= 10 {
        push_u64(out, n / 10);
    }
    let d = n % 10;
    let c: char = if d == 0 {
        '0'
    } else if d == 1 {
        '1'
    } else if d == 2 {
        '2'
    } else if d == 3 {
        '3'
    } else if d == 4 {
        '4'
    } else if d == 5 {
        '5'
    } else if d == 6 {
        '6'
    } else if d == 7 {
        '7'
    } else if d == 8 {
        '8'
    } else {
        '9'
    };
    proof {
        assert(c == digit_char(n as int % 10));
        if n < 10 {
            assert(dec_rep(n as int) == seq![digit_char(n as int)]);
            assert(n as int % 10 == n as int);
        }
    }
    push_char(out, c);
    proof {
        assert(out@ =~= old(out)@ + dec_rep(n as int));
    }
}

/// Appends the decimal representation of a signed integer.
pub fn push_i64(out: &mut String, n: i64)
    ensures
        final(out)@ == old(out)@ + int_rep(n as int),
{
    if n >= 0 {
        push_u64(out, n as u64);
    } else {
        push_char(out, '-');
        let m: u64 = if n == i64::MIN {
            9223372036854775808u64
        } else {
            (-n) as u64
        };
        push_u64(out, m);
        proof {
            assert(out@ =~= old(out)@ + int_rep(n as int));
        }
    }
}

/// Appends the escaped form of `s`.
pub fn push_escaped(out: &mut String, s: &str)
    ensures
        final(out)@ == old(out)@ + escape_str(s@),
{
    let n = s.unicode_len();
    let mut k: usize = 0;
    while k < n
        invariant
            n == s@.len(),
            k <= n,
            out@ == old(out)@ + escape_prefix(s@, k as int),
        decreases n - k,
    {
        let c = s.get_char(k);
        if c == '"' {
            push_char(out, '\\');
            push_char(out, '"');
        } else if c == '\\' {
            push_char(out, '\\');
            push_char(out, '\\');
        } else if c == '\n' {
            push_char(out, '\\');
            push_char(out, 'n');
        } else if c == '\r' {
            push_char(out, '\\');
            push_char(out, 'r');
        } else if c == '\t' {
            push_char(out, '\\');
            push_char(out, 't');
        } else {
            push_char(out, c);
        }
        proof {
            assert(out@ =~= old(out)@ + escape_prefix(s@, k as int + 1));
        }
        k = k + 1;
    }
}

/// Appends the compact rendering of `v`, exactly as `render_value` describes.
pub fn render_into(out: &mut String, v: &Value)
    ensures
        final(out)@ == old(out)@ + render_value(v@),
    decreases v,
{
    match v {
        Value::Null => {
            push_str(out, "null");
        },
        Value::Bool(b) => {
            if *b {
                push_str(out, "true");
            } else {
                push_str(out, "false");
            }
        },
        Value::Int(i) => {
            push_i64(out, *i);
        },
        Value::Float(_) => {
            push_str(out, "null");
        },
        Value::Str(s) => {
            push_char(out, '"');
            push_escaped(out, s.as_str());
            push_char(out, '"');
            proof {
                assert(out@ =~= old(out)@ + render_value(v@));
            }
        },
        Value::Array(vs) => {
            let ghost sv = v@->Array_0;
            push_char(out, '[');
            let mut k: usize = 0;
            while k < vs.len()
                invariant
                    decreases_to!(*v => *vs),
                    v@ == ValueV::Array(sv),
                    sv.len() == vs@.len(),
                    forall|j: int| 0 <= j < vs@.len() ==> sv[j] == vs@[j]@,
                    k <= vs@.len(),
                    out@ == old(out)@ + seq!['['] + render_items(sv, k as int),
                decreases vs@.len() - k,
            {
                if k > 0 {
                    push_char(out, ',');
                }
                proof {
                    vstd::std_specs::vec::axiom_vec_index_decreases(*vs, k as int);
                }
                render_into(out, &vs[k]);
                proof {
                    assert(out@ =~= old(out)@ + seq!['['] + render_items(sv, k as int + 1));
                }
                k = k + 1;
            }
            push_char(out, ']');
            proof {
                assert(out@ =~= old(out)@ + render_value(v@));
            }
        },
        Value::Object(ps) => {
            let ghost ms = v@->Object_0;
            push_char(out, '{');
            let mut k: usize = 0;
            while k < ps.len()
                invariant
                    decreases_to!(*v => *ps),
                    v@ == ValueV::Object(ms),
                    ms.len() == ps@.len(),
                    forall|j: int|
                        0 <= j < ps@.len() ==> ms[j] == (ps@[j].0@, ps@[j].1@),
                    k <= ps@.len(),
                    out@ == old(out)@ + seq!['{'] + render_members(ms, k as int),
                decreases ps@.len() - k,
            {
                if k > 0 {
                    push_char(out, ',');
                }
                push_char(out, '"');
                push_escaped(out, ps[k].0.as_str());
                push_char(out, '"');
                push_char(out, ':');
                proof {
                    vstd::std_specs::vec::axiom_vec_index_decreases(*ps, k as int);
                    assert(decreases_to!(ps@[k as int] => ps@[k as int].1));
                }
                render_into(out, &ps[k].1);
                proof {
                    assert(render_member(ms[k as int]) == seq!['"'] + escape_str(ps@[k as int].0@)
                        + seq!['"', ':'] + render_value(ps@[k as int].1@));
                    assert(out@ =~= old(out)@ + seq!['{'] + render_members(ms, k as int + 1));
                }
                k = k + 1;
            }
            push_char(out, '}');
            proof {
                assert(out@ =~= old(out)@ + render_value(v@));
            }
        },
    }
}

/// The compact rendering of `v` as a fresh string.
pub fn render(v: &Value) -> (r: String)
    ensures
        r@ == render_value(v@),
{
    let mut out = String::new();
    render_into(&mut out, v);
    proof {
        assert(out@ =~= render_value(v@));
    }
    out
}

} // verus!
