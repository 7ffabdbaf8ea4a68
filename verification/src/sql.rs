//! Quoting values for ClickHouse string literals.

use vstd::prelude::*;
use vstd::string::*;

use crate::text::{chars_of, push_char};

verus! {

/// A text quoted for use inside a single-quoted ClickHouse string literal:
/// each backslash and each single quote gets a backslash before it.
pub open spec fn escaped(s: Seq<char>) -> Seq<char>
    decreases s.len(),
{
    if s.len() == 0 {
        Seq::empty()
    } else {
        let rest = escaped(s.drop_last());
        let c = s.last();
        if c == '\\' || c == '\'' {
            rest.push('\\').push(c)
        } else {
            rest.push(c)
        }
    }
}

/// Quote a value for a single-quoted ClickHouse string literal.
pub fn escape_clickhouse_string(s: &str) -> (r: String)
    ensures
        r@ == escaped(s@),
{
    let cs = chars_of(s);
    let mut out = String::new();
    let mut i: usize = 0;
    while i < cs.len()
        invariant
            i <= cs@.len(),
            cs@ == s@,
            out@ == escaped(s@.subrange(0, i as int)),
        decreases cs.len() - i,
    {
        proof {
            assert(s@.subrange(0, i as int + 1).drop_last() =~= s@.subrange(0, i as int));
        }
        let c = cs[i];
        if c == '\\' || c == '\'' {
            push_char(&mut out, '\\');
        }
        push_char(&mut out, c);
        i = i + 1;
    }
    proof {
        assert(s@.subrange(0, s@.len() as int) =~= s@);
    }
    out
}

/// An escaped text holds no unescaped single quote: every quote in it is
/// preceded by a backslash.
pub proof fn lemma_escaped_quotes(s: Seq<char>)
    ensures
        forall|i: int|
            0 <= i < escaped(s).len() && #[trigger] escaped(s)[i] == '\'' ==> i > 0 && escaped(s)[i - 1]
                == '\\',
    decreases s.len(),
{
    if s.len() > 0 {
        let rest = escaped(s.drop_last());
        lemma_escaped_quotes(s.drop_last());
        let c = s.last();
        let e = escaped(s);
        assert forall|i: int| 0 <= i < e.len() && #[trigger] e[i] == '\'' implies i > 0 && e[i - 1] == '\\' by {
            if i < rest.len() {
                assert(e[i] == rest[i]);
                assert(e[i - 1] == rest[i - 1]);
            } else if c == '\\' || c == '\'' {
                assert(e == rest.push('\\').push(c));
                if i == rest.len() {
                    assert(e[i] == '\\');
                } else {
                    assert(e[i - 1] == '\\');
                }
            } else {
                assert(e == rest.push(c));
                assert(e[i] == c);
            }
        }
    }
}

} // verus!
