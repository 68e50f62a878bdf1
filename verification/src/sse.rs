//! Event payloads without carriage returns.
use vstd::prelude::*;

use crate::text;

verus! {

/// `s` with every line ending written as a line feed.
pub open spec fn normalized(s: Seq<char>) -> Seq<char>
    decreases s.len(),
{
    if s.len() == 0 {
        s
    } else if s[0] == '\r' {
        if s.len() > 1 && s[1] == '\n' {
            seq!['\n'] + normalized(s.skip(2))
        } else {
            seq!['\n'] + normalized(s.skip(1))
        }
    } else {
        seq![s[0]] + normalized(s.skip(1))
    }
}

/// A payload for a server-sent event, where a carriage return would abort
/// the stream: every line ending becomes a line feed.
pub fn sse_text(text: &str) -> (r: String)
    ensures
        r@ == normalized(text@),
{
    let v = text::chars_of(text);
    let mut r = String::new();
    let mut i: usize = 0;
    assert(v@.skip(0) =~= v@);
    while i < v.len()
        invariant
            i <= v@.len(),
            v@ == text@,
            normalized(text@) == r@ + normalized(v@.skip(i as int)),
        decreases v@.len() - i,
    {
        let ghost rest = v@.skip(i as int);
        let ghost was = r@;
        if v[i] == '\r' {
            r.push('\n');
            if i + 1 < v.len() && v[i + 1] == '\n' {
                proof {
                    assert(rest[1] == '\n');
                    assert(rest.skip(2) =~= v@.skip(i + 2));
                    assert(was + (seq!['\n'] + normalized(v@.skip(i + 2))) =~= r@ + normalized(
                        v@.skip(i + 2),
                    ));
                }
                i += 2;
            } else {
                proof {
                    assert(rest.skip(1) =~= v@.skip(i + 1));
                    assert(rest.len() > 1 ==> rest[1] == v@[i + 1]);
                    assert(was + (seq!['\n'] + normalized(v@.skip(i + 1))) =~= r@ + normalized(
                        v@.skip(i + 1),
                    ));
                }
                i += 1;
            }
        } else {
            r.push(v[i]);
            proof {
                assert(rest.skip(1) =~= v@.skip(i + 1));
                assert(was + (seq![rest[0]] + normalized(v@.skip(i + 1))) =~= r@ + normalized(
                    v@.skip(i + 1),
                ));
            }
            i += 1;
        }
    }
    assert(r@ =~= normalized(text@));
    r
}

/// No payload holds a carriage return.
pub proof fn law_no_carriage_return(s: Seq<char>)
    ensures
        !normalized(s).contains('\r'),
    decreases s.len(),
{
    if s.len() > 0 {
        law_no_carriage_return(s.skip(1));
        if s.len() > 1 {
            law_no_carriage_return(s.skip(2));
        }
        assert forall|i: int| 0 <= i < normalized(s).len() implies #[trigger] normalized(s)[i]
            != '\r' by {
            if i > 0 {
                if s[0] == '\r' && s.len() > 1 && s[1] == '\n' {
                    assert(normalized(s)[i] == normalized(s.skip(2))[i - 1]);
                } else {
                    assert(normalized(s)[i] == normalized(s.skip(1))[i - 1]);
                }
            }
        }
    }
}

/// A text without a carriage return is sent as it is; so a payload
/// normalized once stays as it is.
pub proof fn law_other_text_is_untouched(s: Seq<char>)
    ensures
        !s.contains('\r') ==> normalized(s) == s,
        normalized(normalized(s)) == normalized(s),
    decreases s.len(),
{
    law_no_carriage_return(s);
    lemma_untouched(s);
    lemma_untouched(normalized(s));
}

proof fn lemma_untouched(s: Seq<char>)
    ensures
        !s.contains('\r') ==> normalized(s) == s,
    decreases s.len(),
{
    if s.len() > 0 && !s.contains('\r') {
        assert(s[0] != '\r');
        let t = s.skip(1);
        assert forall|i: int| 0 <= i < t.len() implies #[trigger] t[i] != '\r' by {
            assert(t[i] == s[i + 1]);
        }
        lemma_untouched(t);
        assert(seq![s[0]] + t =~= s);
    }
}

/// Every line ending becomes one line feed, whichever way it was written, and
/// what stands between line endings stays as it is.
pub proof fn law_each_line_ending_is_one_line_feed(a: Seq<char>, b: Seq<char>)
    requires
        !a.contains('\r'),
    ensures
        normalized(a + seq!['\r', '\n'] + b) == a + seq!['\n'] + normalized(b),
        b.len() == 0 || b[0] != '\n' ==> normalized(a + seq!['\r'] + b) == a + seq!['\n']
            + normalized(b),
        normalized(a + seq!['\n'] + b) == a + seq!['\n'] + normalized(b),
    decreases a.len(),
{
    let (crlf, cr, lf) = (
        a + seq!['\r', '\n'] + b,
        a + seq!['\r'] + b,
        a + seq!['\n'] + b,
    );
    if a.len() == 0 {
        assert(crlf.skip(2) =~= b);
        assert(cr.skip(1) =~= b);
        assert(lf.skip(1) =~= b);
        assert(a + seq!['\n'] + normalized(b) =~= seq!['\n'] + normalized(b));
        assert(crlf[0] == '\r' && crlf[1] == '\n');
        assert(cr[0] == '\r');
        assert(b.len() > 0 ==> cr[1] == b[0]);
        assert(lf[0] == '\n');
    } else {
        let rest = a.skip(1);
        assert(a.contains(a[0]));
        assert forall|i: int| 0 <= i < rest.len() implies rest[i] != '\r' by {
            assert(a.contains(a[i + 1]));
        }
        law_each_line_ending_is_one_line_feed(rest, b);
        assert(crlf.skip(1) =~= rest + seq!['\r', '\n'] + b);
        assert(cr.skip(1) =~= rest + seq!['\r'] + b);
        assert(lf.skip(1) =~= rest + seq!['\n'] + b);
        assert(crlf[0] == a[0] && cr[0] == a[0] && lf[0] == a[0]);
        assert(seq![a[0]] + (rest + seq!['\n'] + normalized(b)) =~= a + seq!['\n'] + normalized(b));
    }
}

} // verus!
