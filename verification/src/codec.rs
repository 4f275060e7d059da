//! Rendering of field values and timestamps.
//!
//! `escape_field` rewrites a SUMMARY or LOCATION value per the
//! iCalendar content-line rules: backslash, comma and semicolon get a
//! backslash prefix, an embedded newline becomes the two characters
//! `\` `n`. `unescape_field` parses such a value back.
//! `encode_timestamp` renders a point in time as the fixed-width token
//! `YYYYMMDDTHHMMSS` in local ("floating") time, every component
//! zero-padded.

use vstd::prelude::*;
use vstd::string::StrSliceExecFns;
use vstd::string::StringExecFns;

use crate::lines::no_newline;
use crate::shift::Timestamp;

verus! {

/// A character needing an escape inside a SUMMARY or LOCATION value.
pub open spec fn is_special(c: char) -> bool {
    c == '\\' || c == ',' || c == ';' || c == '\n'
}

/// How one character is rendered inside a field value.
pub open spec fn escape_char(c: char) -> Seq<char> {
    if c == '\n' {
        seq!['\\', 'n']
    } else if is_special(c) {
        seq!['\\', c]
    } else {
        seq![c]
    }
}

/// The escaped form of a whole field value.
pub open spec fn escape_spec(s: Seq<char>) -> Seq<char>
    decreases s.len(),
{
    if s.len() == 0 {
        Seq::empty()
    } else {
        escape_char(s[0]) + escape_spec(s.drop_first())
    }
}

/// What one escaped character stands for: `n` came from a newline,
/// every other character stands for itself.
pub open spec fn unescape_char(c: char) -> char {
    if c == 'n' {
        '\n'
    } else {
        c
    }
}

/// Parses an escaped field value: a backslash and the character after
/// it stand for one character; everything else, a trailing lone
/// backslash too, passes through unchanged.
pub open spec fn unescape_spec(s: Seq<char>) -> Seq<char>
    decreases s.len(),
{
    if s.len() == 0 {
        Seq::empty()
    } else if s[0] == '\\' && s.len() >= 2 {
        seq![unescape_char(s[1])] + unescape_spec(s.skip(2))
    } else {
        seq![s[0]] + unescape_spec(s.drop_first())
    }
}

/// Escaping one more character at the end appends that character's
/// escaped form.
pub proof fn lemma_escape_snoc(s: Seq<char>, c: char)
    ensures
        escape_spec(s.push(c)) == escape_spec(s) + escape_char(c),
    decreases s.len(),
{
    if s.len() == 0 {
        assert(s.push(c).drop_first() =~= Seq::<char>::empty());
        assert(s.push(c)[0] == c);
        assert(escape_spec(s.push(c)) == escape_char(c) + escape_spec(s.push(c).drop_first()));
        assert(escape_spec(Seq::<char>::empty()) == Seq::<char>::empty());
        assert(escape_spec(s.push(c)) =~= escape_spec(s) + escape_char(c));
    } else {
        assert(s.push(c).drop_first() =~= s.drop_first().push(c));
        lemma_escape_snoc(s.drop_first(), c);
        assert(s.push(c)[0] == s[0]);
        assert(escape_spec(s.push(c)) == escape_char(s[0]) + escape_spec(s.drop_first().push(c)));
        assert(escape_spec(s) == escape_char(s[0]) + escape_spec(s.drop_first()));
        assert(escape_spec(s.push(c)) =~= escape_spec(s) + escape_char(c));
    }
}

/// An escaped value contains no newline: each embedded newline has
/// been rewritten to the two characters `\` `n`.
pub proof fn lemma_escape_no_newline(s: Seq<char>)
    ensures
        forall|i: int| 0 <= i < escape_spec(s).len() ==> escape_spec(s)[i] != '\n',
    decreases s.len(),
{
    if s.len() > 0 {
        lemma_escape_no_newline(s.drop_first());
        let head = escape_char(s[0]);
        let rest = escape_spec(s.drop_first());
        assert(escape_spec(s) == head + rest);
        assert forall|i: int| 0 <= i < escape_spec(s).len() implies escape_spec(s)[i] != '\n' by {
            if i < head.len() {
                assert(escape_spec(s)[i] == head[i]);
            } else {
                assert(escape_spec(s)[i] == rest[i - head.len()]);
            }
        }
    }
}

/// Unescaping undoes escaping: parsing an escaped SUMMARY or LOCATION
/// value yields back the original text.
pub proof fn lemma_escape_round_trip(s: Seq<char>)
    ensures
        unescape_spec(escape_spec(s)) == s,
    decreases s.len(),
{
    if s.len() == 0 {
        assert(unescape_spec(escape_spec(s)) =~= s);
    } else {
        let c = s[0];
        let e = escape_spec(s);
        lemma_escape_round_trip(s.drop_first());
        if is_special(c) {
            assert(e[0] == '\\' && e.len() >= 2);
            assert(e.skip(2) =~= escape_spec(s.drop_first()));
            assert(unescape_char(e[1]) == c);
            assert(unescape_spec(e) =~= s);
        } else {
            assert(e[0] == c && c != '\\');
            assert(e.drop_first() =~= escape_spec(s.drop_first()));
            assert(unescape_spec(e) =~= s);
        }
    }
}

/// Renders a field value for a SUMMARY or LOCATION line. Values with
/// no backslash, comma, semicolon or newline pass through unchanged.
pub fn escape_field(s: &str) -> (r: String)
    ensures
        r@ == escape_spec(s@),
{
    let n = s.unicode_len();
    let mut out = String::new();
    let mut i: usize = 0;
    while i < n
        invariant
            n == s@.len(),
            i <= n,
            out@ == escape_spec(s@.take(i as int)),
        decreases n - i,
    {
        let c = s.get_char(i);
        if c == '\\' {
            out.append("\\\\");
            proof {
                reveal_strlit("\\\\");
            }
        } else if c == ',' {
            out.append("\\,");
            proof {
                reveal_strlit("\\,");
            }
        } else if c == ';' {
            out.append("\\;");
            proof {
                reveal_strlit("\\;");
            }
        } else if c == '\n' {
            out.append("\\n");
            proof {
                reveal_strlit("\\n");
            }
        } else {
            let piece = s.substring_char(i, i + 1);
            out.append(piece);
            proof {
                assert(piece@ =~= seq![c]);
            }
        }
        proof {
            lemma_escape_snoc(s@.take(i as int), s@[i as int]);
            assert(s@.take(i as int).push(s@[i as int]) =~= s@.take(i as int + 1));
            assert(out@ =~= escape_spec(s@.take(i as int + 1)));
        }
        i = i + 1;
    }
    proof {
        assert(s@.take(n as int) =~= s@);
    }
    out
}

/// Parses an escaped field value back to its original text.
pub fn unescape_field(s: &str) -> (r: String)
    ensures
        r@ == unescape_spec(s@),
{
    let n = s.unicode_len();
    let mut out = String::new();
    let mut i: usize = 0;
    proof {
        assert(s@.skip(0) =~= s@);
        assert(out@ + unescape_spec(s@) =~= unescape_spec(s@));
    }
    while i < n
        invariant
            n == s@.len(),
            i <= n,
            unescape_spec(s@) == out@ + unescape_spec(s@.skip(i as int)),
        decreases n - i,
    {
        let c = s.get_char(i);
        proof {
            assert(s@.skip(i as int)[0] == s@[i as int]);
        }
        if c == '\\' && i + 1 < n {
            let d = s.get_char(i + 1);
            if d == 'n' {
                out.append("\n");
                proof {
                    reveal_strlit("\n");
                }
            } else {
                let piece = s.substring_char(i + 1, i + 2);
                out.append(piece);
                proof {
                    assert(piece@ =~= seq![d]);
                }
            }
            proof {
                assert(s@.skip(i as int)[1] == s@[i as int + 1]);
                assert(s@.skip(i as int).skip(2) =~= s@.skip(i as int + 2));
                assert(unescape_spec(s@) =~= out@ + unescape_spec(s@.skip(i as int + 2)));
            }
            i = i + 2;
        } else {
            let piece = s.substring_char(i, i + 1);
            out.append(piece);
            proof {
                assert(piece@ =~= seq![c]);
                assert(s@.skip(i as int).drop_first() =~= s@.skip(i as int + 1));
                assert(unescape_spec(s@) =~= out@ + unescape_spec(s@.skip(i as int + 1)));
            }
            i = i + 1;
        }
    }
    proof {
        assert(s@.skip(n as int) =~= Seq::<char>::empty());
        assert(out@ + unescape_spec(s@.skip(n as int)) =~= out@);
    }
    out
}

/// The decimal digit character for `d`, `0` through `9`.
pub open spec fn digit_char(d: int) -> char {
    if d == 1 {
        '1'
    } else if d == 2 {
        '2'
    } else if d == 3 {
        '3'
    } else if d == 4 {
        '4'
    } else if d == 5 {
        '5'
    } else if d == 6 {
        '6'
    } else if d == 7 {
        '7'
    } else if d == 8 {
        '8'
    } else if d == 9 {
        '9'
    } else {
        '0'
    }
}

/// `n` zero-padded to two digits.
pub open spec fn two_digits(n: int) -> Seq<char> {
    seq![digit_char(n / 10), digit_char(n % 10)]
}

/// `n` zero-padded to four digits.
pub open spec fn four_digits(n: int) -> Seq<char> {
    seq![
        digit_char(n / 1000),
        digit_char((n / 100) % 10),
        digit_char((n / 10) % 10),
        digit_char(n % 10),
    ]
}

/// The fixed-width token `YYYYMMDDTHHMMSS` for a point in time, in
/// local ("floating") time: no zone suffix.
pub open spec fn encode_spec(t: Timestamp) -> Seq<char> {
    four_digits(t.year as int) + two_digits(t.month as int) + two_digits(t.day as int) + seq!['T']
        + two_digits(t.hour as int) + two_digits(t.minute as int) + two_digits(t.second as int)
}

/// An encoded timestamp is 15 characters, digit characters and one
/// `T`, so it contains no newline.
pub proof fn lemma_encode_shape(t: Timestamp)
    ensures
        encode_spec(t).len() == 15,
        no_newline(encode_spec(t)),
{
    let e = encode_spec(t);
    assert(forall|d: int| digit_char(d) != '\n');
    assert forall|i: int| 0 <= i < e.len() implies e[i] != '\n' by {
        assert(e[i] != '\n');
    }
}

/// Appends the digit character for `d`.
fn push_digit(out: &mut String, d: u8)
    requires
        d < 10,
    ensures
        final(out)@ == old(out)@ + seq![digit_char(d as int)],
{
    let digits = "0123456789";
    proof {
        reveal_strlit("0123456789");
    }
    let piece = digits.substring_char(d as usize, d as usize + 1);
    out.append(piece);
    proof {
        assert(piece@ =~= seq![digit_char(d as int)]);
    }
}

/// Appends `n` zero-padded to two digits.
fn push_two_digits(out: &mut String, n: u8)
    requires
        n < 100,
    ensures
        final(out)@ == old(out)@ + two_digits(n as int),
{
    push_digit(out, n / 10);
    push_digit(out, n % 10);
    proof {
        assert(out@ =~= old(out)@ + two_digits(n as int));
    }
}

/// Appends `n` zero-padded to four digits.
fn push_four_digits(out: &mut String, n: u16)
    requires
        n < 10000,
    ensures
        final(out)@ == old(out)@ + four_digits(n as int),
{
    push_digit(out, (n / 1000) as u8);
    push_digit(out, ((n / 100) % 10) as u8);
    push_digit(out, ((n / 10) % 10) as u8);
    push_digit(out, (n % 10) as u8);
    proof {
        assert(out@ =~= old(out)@ + four_digits(n as int));
    }
}

/// Encodes a point in time as the token `YYYYMMDDTHHMMSS`, every
/// component zero-padded to fixed width; local ("floating") time, so
/// no zone suffix is appended.
pub fn encode_timestamp(t: &Timestamp) -> (r: String)
    requires
        t.valid(),
    ensures
        r@ == encode_spec(*t),
{
    let mut out = String::new();
    push_four_digits(&mut out, t.year);
    push_two_digits(&mut out, t.month);
    push_two_digits(&mut out, t.day);
    out.append("T");
    proof {
        reveal_strlit("T");
    }
    push_two_digits(&mut out, t.hour);
    push_two_digits(&mut out, t.minute);
    push_two_digits(&mut out, t.second);
    proof {
        assert(out@ =~= encode_spec(*t));
    }
    out
}

} // verus!
