//! Translation of simple glob patterns (`*`, `?`) into anchored regular
//! expressions.
//!
//! A glob is translated character by character: `*` becomes `.*`, `?` becomes
//! `.`, a literal `.` is escaped, and every other character passes through
//! unescaped (so regex metacharacters such as `+` or `(` inside a glob are
//! interpreted as regex syntax — a documented limitation). The result is
//! anchored with `^` and `$` so it matches complete names only.

use vstd::prelude::*;
use vstd::string::StrSliceExecFns;

verus! {

/// The regex fragment a single glob character translates to.
pub open spec fn glob_char_regex(c: char) -> Seq<char> {
    if c == '*' {
        seq!['.', '*']
    } else if c == '?' {
        seq!['.']
    } else if c == '.' {
        seq!['\\', '.']
    } else {
        seq![c]
    }
}

/// The unanchored regex body a whole glob translates to.
pub open spec fn glob_body_regex(p: Seq<char>) -> Seq<char>
    decreases p.len(),
{
    if p.len() == 0 {
        Seq::empty()
    } else {
        glob_body_regex(p.drop_last()) + glob_char_regex(p.last())
    }
}

/// The full anchored regex a glob translates to.
pub open spec fn glob_regex(p: Seq<char>) -> Seq<char> {
    seq!['^'] + glob_body_regex(p) + seq!['$']
}

/// Relies on `String::push`: appends the character to the end of the string.
#[verifier::external_body]
fn push_char(s: &mut String, c: char)
    ensures
        final(s)@ == old(s)@.push(c),
{
    s.push(c);
}

/// Translate a glob pattern into the source of an anchored regular
/// expression.
pub fn glob_to_regex(pattern: &str) -> (r: String)
    ensures
        r@ == glob_regex(pattern@),
{
    let n: usize = pattern.unicode_len();
    let mut regex = String::new();
    push_char(&mut regex, '^');
    let mut i: usize = 0;
    while i < n
        invariant
            n == pattern@.len(),
            0 <= i <= n,
            regex@ == seq!['^'] + glob_body_regex(pattern@.take(i as int)),
        decreases n - i,
    {
        let c = pattern.get_char(i);
        match c {
            '*' => {
                push_char(&mut regex, '.');
                push_char(&mut regex, '*');
            },
            '?' => {
                push_char(&mut regex, '.');
            },
            '.' => {
                push_char(&mut regex, '\\');
                push_char(&mut regex, '.');
            },
            _ => {
                push_char(&mut regex, c);
            },
        }
        proof {
            let p = pattern@;
            assert(p.take(i + 1).drop_last() =~= p.take(i as int));
            assert(p.take(i + 1).last() == p[i as int]);
            assert(regex@ =~= seq!['^'] + glob_body_regex(p.take(i + 1)));
        }
        i = i + 1;
    }
    push_char(&mut regex, '$');
    proof {
        assert(pattern@.take(pattern@.len() as int) =~= pattern@);
        assert(regex@ =~= glob_regex(pattern@));
    }
    regex
}

} // verus!
