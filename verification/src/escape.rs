//! Escaping receipt text for inclusion inside a single-quoted shell argument,
//! together with a model of how a POSIX shell reads such an argument back.

use vstd::prelude::*;
use vstd::string::StrSliceExecFns;
use vstd::string::StringExecFns;

verus! {

/// How one character of the text appears inside a single-quoted shell
/// argument: a single quote closes the quote, inserts a backslash-escaped
/// quote, and reopens the quote; every other character stands as itself.
pub open spec fn escaped_char(c: char) -> Seq<char> {
    if c == '\'' {
        seq!['\'', '\\', '\'', '\'']
    } else {
        seq![c]
    }
}

/// The whole text, escaped for inclusion inside a single-quoted shell
/// argument.
pub open spec fn escaped(s: Seq<char>) -> Seq<char>
    decreases s.len(),
{
    if s.len() == 0 {
        Seq::empty()
    } else {
        escaped_char(s.first()) + escaped(s.drop_first())
    }
}

/// Escaping distributes over concatenation.
pub proof fn lemma_escaped_append(a: Seq<char>, b: Seq<char>)
    ensures
        escaped(a + b) == escaped(a) + escaped(b),
    decreases a.len(),
{
    if a.len() == 0 {
        assert(a + b =~= b);
        assert(escaped(a) + escaped(b) =~= escaped(b));
    } else {
        assert((a + b).drop_first() =~= a.drop_first() + b);
        assert((a + b).first() == a.first());
        lemma_escaped_append(a.drop_first(), b);
        assert(escaped(a + b) =~= escaped(a) + escaped(b));
    }
}

/// Escaping a one-character text escapes that character.
pub proof fn lemma_escaped_singleton(c: char)
    ensures
        escaped(seq![c]) == escaped_char(c),
{
    let s = seq![c];
    assert(s.drop_first() =~= Seq::<char>::empty());
    assert(escaped(Seq::<char>::empty()) == Seq::<char>::empty());
    assert(escaped(s) == escaped_char(c) + escaped(s.drop_first()));
    assert(escaped_char(c) + Seq::<char>::empty() =~= escaped_char(c));
}

/// Replaces every single quote in `s` with the sequence that closes the
/// quote, inserts an escaped quote, and reopens the quote.
pub fn escape_single_quotes(s: &str) -> (r: String)
    ensures
        r@ == escaped(s@),
{
    let n: usize = s.unicode_len();
    let mut out: String = String::new();
    let mut i: usize = 0;
    while i < n
        invariant
            n == s@.len(),
            i <= n,
            out@ == escaped(s@.take(i as int)),
        decreases n - i,
    {
        let c: char = s.get_char(i);
        if c == '\'' {
            out.append("'\\''");
            proof {
                reveal_strlit("'\\''");
                assert("'\\''"@ =~= escaped_char(c));
            }
        } else {
            let piece: &str = s.substring_char(i, i + 1);
            out.append(piece);
            proof {
                assert(piece@ =~= escaped_char(c));
            }
        }
        proof {
            assert(s@.take(i + 1 as int) =~= s@.take(i as int) + seq![s@[i as int]]);
            lemma_escaped_append(s@.take(i as int), seq![s@[i as int]]);
            lemma_escaped_singleton(s@[i as int]);
        }
        i = i + 1;
    }
    proof {
        assert(s@.take(n as int) =~= s@);
    }
    out
}

/// How a POSIX shell reads one word, restricted to the two constructs the
/// dispatcher relies on: outside single quotes a backslash makes the next
/// character literal and a single quote opens a quoted span; inside single
/// quotes every character but the closing quote is literal.  `None` means the
/// word is ill-formed (an unclosed quote or a trailing backslash).
pub open spec fn shell_read(s: Seq<char>, in_quote: bool) -> Option<Seq<char>>
    decreases s.len(),
{
    if s.len() == 0 {
        if in_quote {
            None
        } else {
            Some(Seq::empty())
        }
    } else if in_quote {
        if s.first() == '\'' {
            shell_read(s.drop_first(), false)
        } else {
            match shell_read(s.drop_first(), true) {
                Some(r) => Some(seq![s.first()] + r),
                None => None,
            }
        }
    } else if s.first() == '\'' {
        shell_read(s.drop_first(), true)
    } else if s.first() == '\\' {
        if s.len() == 1 {
            None
        } else {
            match shell_read(s.skip(2), false) {
                Some(r) => Some(seq![s[1]] + r),
                None => None,
            }
        }
    } else {
        match shell_read(s.drop_first(), false) {
            Some(r) => Some(seq![s.first()] + r),
            None => None,
        }
    }
}

/// Inside an open quoted span, the escaped text followed by the closing
/// quote reads back as the original text.
proof fn lemma_escaped_read_in_quote(s: Seq<char>)
    ensures
        shell_read(escaped(s) + seq!['\''], true) == Some(s),
    decreases s.len(),
{
    let w = escaped(s) + seq!['\''];
    if s.len() == 0 {
        assert(w =~= seq!['\'']);
        assert(w.first() == '\'');
        assert(w.drop_first() =~= Seq::<char>::empty());
        assert(shell_read(w.drop_first(), false) == Some(Seq::<char>::empty()));
        assert(shell_read(w, true) == Some(Seq::<char>::empty()));
        assert(s =~= Seq::<char>::empty());
    } else if s.first() != '\'' {
        assert(w.first() == s.first());
        assert(w.drop_first() =~= escaped(s.drop_first()) + seq!['\'']);
        lemma_escaped_read_in_quote(s.drop_first());
        assert(shell_read(w.drop_first(), true) == Some(s.drop_first()));
        assert(shell_read(w, true) == Some(seq![w.first()] + s.drop_first()));
        assert(seq![s.first()] + s.drop_first() =~= s);
    } else {
        let s2 = s.drop_first();
        assert(escaped(s) =~= seq!['\'', '\\', '\'', '\''] + escaped(s2));
        assert(w.first() == '\'');
        let w1 = w.drop_first();
        assert(w1 =~= seq!['\\', '\'', '\''] + escaped(s2) + seq!['\'']);
        assert(w1.first() == '\\');
        assert(w1.len() >= 3);
        assert(w1[1] == '\'');
        let w2 = w1.skip(2);
        assert(w2 =~= seq!['\''] + escaped(s2) + seq!['\'']);
        assert(w2.first() == '\'');
        assert(w2.drop_first() =~= escaped(s2) + seq!['\'']);
        lemma_escaped_read_in_quote(s2);
        assert(shell_read(w2, false) == Some(s2));
        assert(shell_read(w1, false) == Some(seq!['\''] + s2));
        assert(seq!['\''] + s2 =~= s);
        assert(shell_read(w, true) == Some(s));
    }
}

/// The round-trip law: for any text, wrapping its escaped form in single
/// quotes and reading the word back as the shell would yields the original
/// text exactly.
pub proof fn lemma_escape_round_trip(s: Seq<char>)
    ensures
        shell_read(seq!['\''] + escaped(s) + seq!['\''], false) == Some(s),
{
    let w = seq!['\''] + escaped(s) + seq!['\''];
    assert(w.first() == '\'');
    assert(w.drop_first() =~= escaped(s) + seq!['\'']);
    lemma_escaped_read_in_quote(s);
}

/// Reads one word as the modelled shell would: the literal text when the
/// word is well formed, `None` on an unclosed quote or trailing backslash.
pub fn shell_unquote(word: &str) -> (r: Option<String>)
    ensures
        match r {
            Some(t) => shell_read(word@, false) == Some(t@),
            None => shell_read(word@, false) is None,
        },
{
    let n: usize = word.unicode_len();
    let mut out: String = String::new();
    let mut i: usize = 0;
    let mut in_quote: bool = false;
    proof {
        assert(word@.skip(0) =~= word@);
        if shell_read(word@, false) is Some {
            let rest = shell_read(word@, false)->0;
            assert(Seq::<char>::empty() + rest =~= rest);
        }
    }
    while i < n
        invariant
            n == word@.len(),
            i <= n,
            match shell_read(word@.skip(i as int), in_quote) {
                Some(rest) => shell_read(word@, false) == Some(out@ + rest),
                None => shell_read(word@, false) is None,
            },
        decreases n - i,
    {
        let ghost w = word@.skip(i as int);
        proof {
            assert(w.first() == word@[i as int]);
            assert(w.drop_first() =~= word@.skip(i + 1 as int));
        }
        let c: char = word.get_char(i);
        if in_quote {
            if c == '\'' {
                in_quote = false;
            } else {
                let piece: &str = word.substring_char(i, i + 1);
                out.append(piece);
                proof {
                    assert(piece@ =~= seq![c]);
                }
            }
            i = i + 1;
        } else if c == '\'' {
            in_quote = true;
            i = i + 1;
        } else if c == '\\' {
            if i + 1 >= n {
                proof {
                    assert(w.len() == 1);
                }
                return None;
            }
            let piece: &str = word.substring_char(i + 1, i + 2);
            out.append(piece);
            proof {
                assert(w.skip(2) =~= word@.skip(i + 2 as int));
                assert(piece@ =~= seq![w[1]]);
            }
            i = i + 2;
        } else {
            let piece: &str = word.substring_char(i, i + 1);
            out.append(piece);
            proof {
                assert(piece@ =~= seq![c]);
            }
            i = i + 1;
        }
    }
    proof {
        assert(word@.skip(n as int) =~= Seq::<char>::empty());
    }
    if in_quote {
        None
    } else {
        proof {
            assert(out@ + Seq::<char>::empty() =~= out@);
        }
        Some(out)
    }
}

} // verus!
