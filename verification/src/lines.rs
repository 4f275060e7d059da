//! Counting the lines of a text document.
//!
//! A document is read as newline-terminated lines; a final fragment
//! left unterminated counts as a line of its own, an empty one does
//! not. `count_line` says how many lines equal a given one, which is
//! how the calendar's shape (one `BEGIN:VEVENT` line per shift, and so
//! on) is stated.

use vstd::prelude::*;

verus! {

/// `s` contains no newline character.
pub open spec fn no_newline(s: Seq<char>) -> bool {
    forall|i: int| 0 <= i < s.len() ==> s[i] != '\n'
}

/// Lines equal to `t`, counted while scanning `s` with `cur` the part
/// of the current line already read.
pub open spec fn count_line_from(s: Seq<char>, t: Seq<char>, cur: Seq<char>) -> nat
    decreases s.len(),
{
    if s.len() == 0 {
        if cur.len() > 0 && cur == t {
            1nat
        } else {
            0nat
        }
    } else if s[0] == '\n' {
        (if cur == t {
            1nat
        } else {
            0nat
        }) + count_line_from(s.drop_first(), t, Seq::empty())
    } else {
        count_line_from(s.drop_first(), t, cur.push(s[0]))
    }
}

/// Number of lines of `s` equal to `t`.
pub open spec fn count_line(s: Seq<char>, t: Seq<char>) -> nat {
    count_line_from(s, t, Seq::empty())
}

/// Neither part holds a newline, so neither does their concatenation.
pub proof fn lemma_no_newline_concat(a: Seq<char>, b: Seq<char>)
    requires
        no_newline(a),
        no_newline(b),
    ensures
        no_newline(a + b),
{
    assert forall|i: int| 0 <= i < (a + b).len() implies (a + b)[i] != '\n' by {
        if i < a.len() {
            assert((a + b)[i] == a[i]);
        } else {
            assert((a + b)[i] == b[i - a.len()]);
        }
    }
}

/// Counting distributes over concatenation when the first part ends
/// with a newline, so no line straddles the seam.
pub proof fn lemma_count_split(a: Seq<char>, b: Seq<char>, t: Seq<char>, cur: Seq<char>)
    requires
        a.len() > 0,
        a.last() == '\n',
    ensures
        count_line_from(a + b, t, cur) == count_line_from(a, t, cur) + count_line(b, t),
    decreases a.len(),
{
    assert((a + b)[0] == a[0]);
    assert((a + b).drop_first() =~= a.drop_first() + b);
    if a.len() == 1 {
        assert(a[0] == '\n');
        assert(a.drop_first() =~= Seq::<char>::empty());
        assert(a.drop_first() + b =~= b);
    } else {
        assert(a.drop_first()[a.len() - 2] == a[a.len() - 1]);
        assert(a.drop_first().last() == '\n');
        if a[0] == '\n' {
            lemma_count_split(a.drop_first(), b, t, Seq::empty());
        } else {
            lemma_count_split(a.drop_first(), b, t, cur.push(a[0]));
        }
    }
}

/// One newline-terminated line counts once exactly when it equals the
/// target.
pub proof fn lemma_count_one_line(l: Seq<char>, t: Seq<char>, cur: Seq<char>)
    requires
        no_newline(l),
    ensures
        count_line_from(l + seq!['\n'], t, cur) == (if cur + l == t {
            1nat
        } else {
            0nat
        }),
    decreases l.len(),
{
    let s = l + seq!['\n'];
    if l.len() == 0 {
        assert(s =~= seq!['\n']);
        assert(s[0] == '\n');
        assert(s.drop_first() =~= Seq::<char>::empty());
        assert(count_line_from(s.drop_first(), t, Seq::empty()) == 0);
        assert(count_line_from(s, t, cur) == (if cur == t {
            1nat
        } else {
            0nat
        }));
        assert(cur + l =~= cur);
    } else {
        assert(s[0] == l[0]);
        assert(l[0] != '\n');
        assert(s.drop_first() =~= l.drop_first() + seq!['\n']);
        assert(count_line_from(s, t, cur) == count_line_from(
            l.drop_first() + seq!['\n'],
            t,
            cur.push(l[0]),
        ));
        assert(no_newline(l.drop_first())) by {
            assert forall|i: int| 0 <= i < l.drop_first().len() implies l.drop_first()[i] != '\n' by {
                assert(l.drop_first()[i] == l[i + 1]);
            }
        }
        lemma_count_one_line(l.drop_first(), t, cur.push(l[0]));
        assert(cur.push(l[0]) + l.drop_first() =~= cur + l);
    }
}

} // verus!
