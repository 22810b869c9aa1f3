//! The configuration document modeled as a sequence of lines: splitting
//! text at line endings (`\n`, or `\r\n` with the `\r` stripped), and
//! joining lines back with a `\n` terminator after each.

use vstd::prelude::*;

use crate::text::{first_occurrence, lemma_first_occurrence, find_char_from};

verus! {

/// The lines of `s`: split at `\n`, a `\r` immediately before a `\n`
/// stripped, and a final unterminated line kept.
pub open spec fn spec_lines(s: Seq<char>) -> Seq<Seq<char>>
    decreases s.len(),
{
    if s.len() == 0 {
        Seq::empty()
    } else {
        let n = first_occurrence(s, '\n');
        if 0 <= n < s.len() {
            let line = if n > 0 && s[n - 1] == '\r' {
                s.subrange(0, n - 1)
            } else {
                s.subrange(0, n)
            };
            seq![line] + spec_lines(s.subrange(n + 1, s.len() as int))
        } else {
            seq![s]
        }
    }
}

/// The text that a sequence of lines denotes: each line followed by `\n`.
pub open spec fn spec_join(lines: Seq<Seq<char>>) -> Seq<char>
    decreases lines.len(),
{
    if lines.len() == 0 {
        Seq::empty()
    } else {
        lines[0] + seq!['\n'] + spec_join(lines.subrange(1, lines.len() as int))
    }
}

/// The views of a vector of owned lines.
pub open spec fn views_of(lines: Seq<String>) -> Seq<Seq<char>> {
    lines.map_values(|l: String| l@)
}

/// Splits `s` into its lines.
pub fn split_lines(s: &str) -> (lines: Vec<String>)
    ensures
        views_of(lines@) == spec_lines(s@),
{
    let n = s.unicode_len();
    let mut lines: Vec<String> = Vec::new();
    let mut pos: usize = 0;
    proof {
        assert(views_of(lines@) =~= Seq::<Seq<char>>::empty());
        assert(s@.subrange(0, n as int) =~= s@);
        assert(views_of(lines@) + spec_lines(s@) =~= spec_lines(s@));
    }
    while pos < n
        invariant
            0 <= pos <= n,
            n == s@.len(),
            spec_lines(s@) == views_of(lines@) + spec_lines(s@.subrange(pos as int, n as int)),
        decreases n - pos,
    {
        let ghost rest = s@.subrange(pos as int, n as int);
        let k = find_char_from(s, pos, '\n');
        proof {
            lemma_first_occurrence(rest, '\n');
            assert(forall|j: int| 0 <= j < rest.len() ==> rest[j] == s@[pos + j]);
            assert(rest.len() > 0);
        }
        if k == n {
            // the final line has no terminator
            let ghost prev = lines@;
            let line = s.substring_char(pos, n).to_owned();
            lines.push(line);
            proof {
                assert(first_occurrence(rest, '\n') == rest.len());
                assert(spec_lines(rest) == seq![rest]);
                assert(line@ =~= rest);
                assert(views_of(lines@) =~= views_of(prev).push(line@));
                assert(views_of(lines@) + spec_lines(s@.subrange(n as int, n as int)) =~= views_of(
                    prev,
                ) + spec_lines(rest));
            }
            pos = n;
        } else {
            let ghost f = first_occurrence(rest, '\n');
            proof {
                assert(f == k - pos);
                assert(f < rest.len());
            }
            let end = if k > pos && s.get_char(k - 1) == '\r' {
                k - 1
            } else {
                k
            };
            let ghost prev = lines@;
            let line = s.substring_char(pos, end).to_owned();
            lines.push(line);
            proof {
                let tail = rest.subrange(f + 1, rest.len() as int);
                assert(tail =~= s@.subrange(k + 1, n as int));
                if f > 0 && rest[f - 1] == '\r' {
                    assert(end == k - 1);
                    assert(line@ =~= rest.subrange(0, f - 1));
                } else {
                    assert(end == k);
                    assert(line@ =~= rest.subrange(0, f));
                }
                assert(spec_lines(rest) == seq![line@] + spec_lines(tail));
                assert(views_of(lines@) =~= views_of(prev).push(line@));
                assert(views_of(lines@) + spec_lines(s@.subrange(k + 1, n as int)) =~= views_of(
                    prev,
                ) + spec_lines(rest));
            }
            pos = k + 1;
        }
    }
    proof {
        assert(spec_lines(s@.subrange(pos as int, n as int)) =~= Seq::<Seq<char>>::empty());
        assert(views_of(lines@) + spec_lines(s@.subrange(pos as int, n as int)) =~= views_of(
            lines@,
        ));
    }
    lines
}

/// Joins lines back into one text, a `\n` after each line.
pub fn join_lines(lines: &Vec<String>) -> (out: String)
    ensures
        out@ == spec_join(views_of(lines@)),
{
    let mut out = String::new();
    let mut i: usize = 0;
    proof {
        reveal_strlit("\n");
        assert("\n"@ =~= seq!['\n']);
        assert(views_of(lines@).subrange(0, lines@.len() as int) =~= views_of(lines@));
        assert(out@ + spec_join(views_of(lines@)) =~= spec_join(views_of(lines@)));
    }
    while i < lines.len()
        invariant
            0 <= i <= lines@.len(),
            "\n"@ == seq!['\n'],
            spec_join(views_of(lines@)) == out@ + spec_join(
                views_of(lines@).subrange(i as int, lines@.len() as int),
            ),
        decreases lines@.len() - i,
    {
        let ghost rest = views_of(lines@).subrange(i as int, lines@.len() as int);
        out.append(lines[i].as_str());
        out.append("\n");
        proof {
            assert(rest.len() > 0);
            assert(rest[0] == lines@[i as int]@);
            assert(rest.subrange(1, rest.len() as int) =~= views_of(lines@).subrange(
                i + 1,
                lines@.len() as int,
            ));
            assert(spec_join(rest) == rest[0] + seq!['\n'] + spec_join(
                rest.subrange(1, rest.len() as int),
            ));
        }
        i = i + 1;
    }
    proof {
        assert(views_of(lines@).subrange(i as int, lines@.len() as int) =~= Seq::<
            Seq<char>,
        >::empty());
        assert(out@ + spec_join(Seq::<Seq<char>>::empty()) =~= out@);
    }
    out
}

} // verus!
