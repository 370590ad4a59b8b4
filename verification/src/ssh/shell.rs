//! Words for a POSIX shell.
use crate::text::chars_of;
use vstd::prelude::*;

verus! {

/// How one character is written inside single quotes: a single quote closes
/// them, stands in double quotes, and opens them again.
pub open spec fn quoted_char(c: char) -> Seq<char> {
    if c == '\'' {
        seq!['\'', '"', '\'', '"', '\'']
    } else {
        seq![c]
    }
}

/// How a text is written inside single quotes.
pub open spec fn quoted_body(s: Seq<char>) -> Seq<char>
    decreases s.len(),
{
    if s.len() == 0 {
        Seq::empty()
    } else {
        quoted_body(s.drop_last()) + quoted_char(s.last())
    }
}

/// A text as one word for a shell.
pub open spec fn shell_quoted(s: Seq<char>) -> Seq<char> {
    seq!['\''] + quoted_body(s) + seq!['\'']
}

/// Where a shell is while it reads a word.
pub enum Quoting {
    Outside,
    Single,
    Double,
}

/// What a word stands for to a shell, where it is made of quoted parts only and
/// holds nothing in double quotes that a shell would expand.
pub open spec fn shell_reads(s: Seq<char>, quoting: Quoting) -> Option<Seq<char>>
    decreases s.len(),
{
    if s.len() == 0 {
        match quoting {
            Quoting::Outside => Some(Seq::empty()),
            _ => None,
        }
    } else {
        let c = s[0];
        let rest = s.skip(1);
        match quoting {
            Quoting::Outside => if c == '\'' {
                shell_reads(rest, Quoting::Single)
            } else if c == '"' {
                shell_reads(rest, Quoting::Double)
            } else {
                None
            },
            Quoting::Single => if c == '\'' {
                shell_reads(rest, Quoting::Outside)
            } else {
                after(seq![c], shell_reads(rest, Quoting::Single))
            },
            Quoting::Double => if c == '"' {
                shell_reads(rest, Quoting::Outside)
            } else if c == '$' || c == '`' || c == '\\' || c == '!' {
                None
            } else {
                after(seq![c], shell_reads(rest, Quoting::Double))
            },
        }
    }
}

/// `first` before what is read next.
pub open spec fn after(first: Seq<char>, rest: Option<Seq<char>>) -> Option<Seq<char>> {
    match rest {
        Some(text) => Some(first + text),
        None => None,
    }
}

/// A text as one word for a shell.
pub fn shell_escape(value: &str) -> (r: String)
    ensures
        r@ == shell_quoted(value@),
{
    let v = chars_of(value);
    let mut r: String = String::new();
    r.push('\'');
    let mut i: usize = 0;
    assert(r@ =~= seq!['\''] + quoted_body(v@.take(0)));
    while i < v.len()
        invariant
            i <= v@.len(),
            r@ == seq!['\''] + quoted_body(v@.take(i as int)),
        decreases v@.len() - i,
    {
        let c: char = v[i];
        let ghost before = r@;
        if c == '\'' {
            r.push('\'');
            r.push('"');
            r.push('\'');
            r.push('"');
            r.push('\'');
        } else {
            r.push(c);
        }
        i = i + 1;
        proof {
            assert(v@.take(i as int).drop_last() =~= v@.take(i - 1));
            assert(r@ =~= before + quoted_char(c));
            assert(r@ =~= seq!['\''] + quoted_body(v@.take(i as int)));
        }
    }
    assert(v@.take(i as int) =~= v@);
    r.push('\'');
    assert(r@ =~= shell_quoted(v@));
    r
}

proof fn lemma_reads_body(s: Seq<char>, rest: Seq<char>)
    ensures
        shell_reads(quoted_body(s) + rest, Quoting::Single) == after(
            s,
            shell_reads(rest, Quoting::Single),
        ),
    decreases s.len(),
{
    if s.len() == 0 {
        assert(quoted_body(s) + rest =~= rest);
        match shell_reads(rest, Quoting::Single) {
            Some(t) => {
                assert(s + t =~= t);
            },
            None => {},
        }
    } else {
        let head = s.drop_last();
        let c = s.last();
        let tail = quoted_char(c) + rest;
        lemma_reads_body(head, tail);
        assert(quoted_body(s) + rest =~= quoted_body(head) + tail);
        if c == '\'' {
            let t1 = tail.skip(1);
            let t2 = t1.skip(1);
            let t3 = t2.skip(1);
            let t4 = t3.skip(1);
            let t5 = t4.skip(1);
            assert(t5 =~= rest);
            assert(tail[0] == '\'' && t1[0] == '"' && t2[0] == '\'' && t3[0] == '"' && t4[0]
                == '\'');
            assert(shell_reads(tail, Quoting::Single) == shell_reads(t1, Quoting::Outside));
            assert(shell_reads(t1, Quoting::Outside) == shell_reads(t2, Quoting::Double));
            assert(shell_reads(t2, Quoting::Double) == after(
                seq!['\''],
                shell_reads(t3, Quoting::Double),
            ));
            assert(shell_reads(t3, Quoting::Double) == shell_reads(t4, Quoting::Outside));
            assert(shell_reads(t4, Quoting::Outside) == shell_reads(t5, Quoting::Single));
        } else {
            assert(tail.skip(1) =~= rest);
            assert(tail[0] == c);
        }
        match shell_reads(rest, Quoting::Single) {
            Some(t) => {
                assert(head + (seq![c] + t) =~= s + t);
            },
            None => {},
        }
    }
}

/// A shell reads a quoted text as one word that stands for exactly that text.
pub proof fn law_shell_reads_back_quoted_text(s: Seq<char>)
    ensures
        shell_reads(shell_quoted(s), Quoting::Outside) == Some(s),
{
    let body = quoted_body(s) + seq!['\''];
    assert(shell_quoted(s).skip(1) =~= body);
    assert(shell_quoted(s)[0] == '\'');
    lemma_reads_body(s, seq!['\'']);
    assert(seq!['\''].skip(1) =~= Seq::<char>::empty());
    assert(shell_reads(seq!['\''], Quoting::Single) == shell_reads(
        Seq::<char>::empty(),
        Quoting::Outside,
    ));
    assert(s + Seq::<char>::empty() =~= s);
}

/// Different texts are different words.
pub proof fn law_quoting_is_injective(a: Seq<char>, b: Seq<char>)
    requires
        shell_quoted(a) == shell_quoted(b),
    ensures
        a == b,
{
    law_shell_reads_back_quoted_text(a);
    law_shell_reads_back_quoted_text(b);
}

} // verus!
