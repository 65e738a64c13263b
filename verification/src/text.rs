//! Text building blocks for the statement format: decimal rendering of
//! identifiers and counters, and the escaping applied to embedded strings.

use vstd::prelude::*;
use vstd::string::StrSliceExecFns;
use vstd::string::StringExecFns;

verus! {

/// The decimal digit character for one digit value.
pub open spec fn digit_char(d: int) -> char
    recommends
        0 <= d < 10,
{
    if d == 0 {
        '0'
    } else if d == 1 {
        '1'
    } else if d == 2 {
        '2'
    } else if d == 3 {
        '3'
    } else if d == 4 {
        '4'
    } else if d == 5 {
        '5'
    } else if d == 6 {
        '6'
    } else if d == 7 {
        '7'
    } else if d == 8 {
        '8'
    } else {
        '9'
    }
}

/// The decimal rendering of a nonnegative integer, most significant digit
/// first, with no leading zeros (a lone zero renders as "0").
pub open spec fn dec_digits(n: int) -> Seq<char>
    recommends
        n >= 0,
    decreases n,
{
    if n < 10 {
        seq![digit_char(n)]
    } else {
        dec_digits(n / 10).push(digit_char(n % 10))
    }
}

/// The decimal rendering of a signed integer: a minus sign before the
/// digits of the magnitude when negative.
pub open spec fn dec_int(n: int) -> Seq<char> {
    if n >= 0 {
        dec_digits(n)
    } else {
        seq!['-'] + dec_digits(-n)
    }
}

/// Appends one character to a string.
///
/// Relies on `String::push` of std: it appends exactly the given character
/// to the end of the string.
#[verifier::external_body]
fn push_char(s: &mut String, c: char)
    ensures
        final(s)@ == old(s)@ + seq![c],
{
    s.push(c);
}

/// Appends the decimal rendering of `n` to `out`.
pub fn push_dec_u64(out: &mut String, n: u64)
    ensures
        final(out)@ == old(out)@ + dec_digits(n as int),
    decreases n,
{
    if n >= 10 {
        push_dec_u64(out, n / 10);
    }
    let d: u64 = n % 10;
    let c: char = match d {
        0 => '0',
        1 => '1',
        2 => '2',
        3 => '3',
        4 => '4',
        5 => '5',
        6 => '6',
        7 => '7',
        8 => '8',
        _ => '9',
    };
    assert(c == digit_char(d as int));
    push_char(out, c);
    proof {
        if n < 10 {
            assert(dec_digits(n as int) == seq![digit_char(n as int)]);
            assert(out@ =~= old(out)@ + dec_digits(n as int));
        } else {
            assert(dec_digits(n as int) == dec_digits(n as int / 10).push(
                digit_char(n as int % 10),
            ));
            assert(out@ =~= old(out)@ + dec_digits(n as int));
        }
    }
}

/// Appends the decimal rendering of a signed value, minus sign included.
pub fn push_dec_i64(out: &mut String, n: i64)
    ensures
        final(out)@ == old(out)@ + dec_int(n as int),
{
    if n >= 0 {
        push_dec_u64(out, n as u64);
    } else {
        push_char(out, '-');
        // The magnitude is computed without overflowing `i64` even for the
        // smallest value: negate `n + 1` (which fits) and add one back.
        let m: u64 = ((-(n + 1)) as u64) + 1;
        assert(m as int == -(n as int));
        push_dec_u64(out, m);
        assert(out@ =~= old(out)@ + dec_int(n as int));
    }
}

/// How one character is escaped before being embedded in a quoted string
/// value: backslash and double quote get a leading backslash, every other
/// character stands unchanged.
pub open spec fn escape_char(c: char) -> Seq<char> {
    if c == '\\' {
        seq!['\\', '\\']
    } else if c == '"' {
        seq!['\\', '"']
    } else {
        seq![c]
    }
}

/// The escaped form of a whole string value.
pub open spec fn escape_str(s: Seq<char>) -> Seq<char>
    decreases s.len(),
{
    if s.len() == 0 {
        Seq::empty()
    } else {
        escape_char(s[0]) + escape_str(s.drop_first())
    }
}

/// How a conformant reader of the statement format decodes an escaped
/// string value: a backslash takes the next character verbatim, everything
/// else stands for itself.
pub open spec fn unescape_str(s: Seq<char>) -> Seq<char>
    decreases s.len(),
{
    if s.len() == 0 {
        Seq::empty()
    } else if s[0] == '\\' && s.len() >= 2 {
        seq![s[1]] + unescape_str(s.skip(2))
    } else {
        seq![s[0]] + unescape_str(s.drop_first())
    }
}

/// Escaping distributes over concatenation.
pub proof fn lemma_escape_append(a: Seq<char>, b: Seq<char>)
    ensures
        escape_str(a + b) == escape_str(a) + escape_str(b),
    decreases a.len(),
{
    if a.len() == 0 {
        assert(a + b =~= b);
        assert(escape_str(a) + escape_str(b) =~= escape_str(b));
    } else {
        assert((a + b).drop_first() =~= a.drop_first() + b);
        lemma_escape_append(a.drop_first(), b);
        assert((a + b)[0] == a[0]);
        assert(escape_str(a + b) =~= escape_str(a) + escape_str(b));
    }
}

/// Law: escaping round-trips. A string value, once escaped for embedding,
/// decodes back to the original string exactly.
pub proof fn lemma_escape_round_trip(s: Seq<char>)
    ensures
        unescape_str(escape_str(s)) == s,
    decreases s.len(),
{
    if s.len() == 0 {
    } else {
        lemma_escape_round_trip(s.drop_first());
        let c = s[0];
        let rest = escape_str(s.drop_first());
        let e = escape_str(s);
        assert(e == escape_char(c) + rest);
        if c == '\\' || c == '"' {
            assert(e[0] == '\\' && e[1] == c && e.len() >= 2);
            assert(e.skip(2) =~= rest);
            assert(unescape_str(e) == seq![c] + unescape_str(rest));
        } else {
            assert(e[0] == c && c != '\\');
            assert(e.drop_first() =~= rest);
            assert(unescape_str(e) == seq![c] + unescape_str(rest));
        }
        assert(unescape_str(e) =~= s);
    }
}

/// Escapes a string value for embedding between double quotes in a
/// statement: backslash and double quote get a leading backslash.
pub fn escape_string(s: &str) -> (r: String)
    ensures
        r@ == escape_str(s@),
{
    let mut out = String::new();
    let n = s.unicode_len();
    assert(s@.take(0) =~= Seq::<char>::empty());
    for i in 0..n
        invariant
            n == s@.len(),
            out@ == escape_str(s@.take(i as int)),
    {
        let c = s.get_char(i);
        proof {
            assert(s@.take(i + 1) =~= s@.take(i as int) + seq![s@[i as int]]);
            lemma_escape_append(s@.take(i as int), seq![s@[i as int]]);
            assert(seq![s@[i as int]].drop_first() =~= Seq::<char>::empty());
            assert(escape_str(Seq::<char>::empty()) == Seq::<char>::empty());
            assert(escape_str(seq![s@[i as int]]) =~= escape_char(s@[i as int]) + escape_str(
                Seq::<char>::empty(),
            ));
            assert(escape_str(seq![s@[i as int]]) =~= escape_char(s@[i as int]));
        }
        if c == '\\' {
            proof {
                reveal_strlit("\\\\");
                assert("\\\\"@ =~= seq!['\\', '\\']);
            }
            out.append("\\\\");
        } else if c == '"' {
            proof {
                reveal_strlit("\\\"");
                assert("\\\""@ =~= seq!['\\', '"']);
            }
            out.append("\\\"");
        } else {
            push_char(&mut out, c);
        }
        proof {
            assert(out@ =~= escape_str(s@.take(i + 1)));
        }
    }
    proof {
        assert(s@.take(n as int) =~= s@);
    }
    out
}

/// Decodes an escaped string value, undoing what `escape_string` applied:
/// a backslash takes the following character verbatim.
pub fn unescape_string(s: &str) -> (r: String)
    ensures
        r@ == unescape_str(s@),
{
    let mut out = String::new();
    let n = s.unicode_len();
    let mut i: usize = 0;
    proof {
        assert(s@.skip(0) =~= s@);
        assert(Seq::<char>::empty() + unescape_str(s@) =~= unescape_str(s@));
    }
    while i < n
        invariant
            n == s@.len(),
            i <= n,
            unescape_str(s@) == out@ + unescape_str(s@.skip(i as int)),
        decreases n - i,
    {
        let c = s.get_char(i);
        proof {
            assert(s@.skip(i as int)[0] == s@[i as int]);
        }
        if c == '\\' && i + 1 < n {
            let d = s.get_char(i + 1);
            proof {
                assert(s@.skip(i as int)[1] == s@[i + 1]);
                assert(s@.skip(i as int).skip(2) =~= s@.skip(i + 2));
                assert(unescape_str(s@.skip(i as int)) == seq![s@[i + 1]] + unescape_str(
                    s@.skip(i + 2),
                ));
            }
            push_char(&mut out, d);
            i = i + 2;
        } else {
            proof {
                assert(s@.skip(i as int).drop_first() =~= s@.skip(i + 1));
                assert(unescape_str(s@.skip(i as int)) == seq![s@[i as int]] + unescape_str(
                    s@.skip(i + 1),
                ));
            }
            push_char(&mut out, c);
            i = i + 1;
        }
    }
    proof {
        assert(s@.skip(n as int) =~= Seq::<char>::empty());
        assert(out@ =~= unescape_str(s@));
    }
    out
}

} // verus!
