//! The config patcher: rewrites configuration text so that it declares a
//! given theme, replacing an existing theme-property line or inserting a
//! new one before the first section header (or at the end), and leaving
//! every other line untouched.

use vstd::prelude::*;

use crate::lines::{join_lines, spec_join, spec_lines, split_lines, views_of};
use crate::text::{first_non_space, is_space, skip_spaces};

verus! {

/// The TOML string literal that the external serializer produces for the
/// character sequence `s`.
pub uninterp spec fn toml_quoted(s: Seq<char>) -> Seq<char>;

/// A character that TOML writes verbatim inside a double-quoted string:
/// not a quote, not a backslash, not a control character.
pub open spec fn plain_char(c: char) -> bool {
    c != '"' && c != '\\' && (c as u32) > 0x1F && (c as u32) != 0x7F
}

/// Relies on toml::Value::to_string (via toml_writer): the TOML string
/// literal for `name`, a function of its characters alone; a name of
/// plain characters is written verbatim between double quotes.
#[verifier::external_body]
fn quote_theme_name(name: &str) -> (r: String)
    ensures
        r@ == toml_quoted(name@),
        (forall|i: int| 0 <= i < name@.len() ==> plain_char(name@[i])) ==> r@ == seq!['"']
            + name@ + seq!['"'],
{
    toml::Value::String(name.to_string()).to_string()
}

/// Whether `line` is a theme-property assignment: ignoring surrounding
/// white space, it starts with the property name `theme`, compared
/// without regard to letter case, followed (after optional white space)
/// by `=`.
pub open spec fn is_theme_line(line: Seq<char>) -> bool {
    let a = first_non_space(line);
    &&& a + 5 <= line.len()
    &&& (line[a] == 't' || line[a] == 'T')
    &&& (line[a + 1] == 'h' || line[a + 1] == 'H')
    &&& (line[a + 2] == 'e' || line[a + 2] == 'E')
    &&& (line[a + 3] == 'm' || line[a + 3] == 'M')
    &&& (line[a + 4] == 'e' || line[a + 4] == 'E')
    &&& {
        let b = a + 5 + first_non_space(line.subrange(a + 5, line.len() as int));
        b < line.len() && line[b] == '='
    }
}

/// Whether `line` is a section header: ignoring leading white space, it
/// starts with `[`.
pub open spec fn is_section_line(line: Seq<char>) -> bool {
    let a = first_non_space(line);
    a < line.len() && line[a] == '['
}

/// Whether `line` is a theme-property assignment, computed.
pub fn is_theme_line_exec(line: &str) -> (r: bool)
    ensures
        r == is_theme_line(line@),
{
    let n = line.unicode_len();
    proof {
        assert(line@.subrange(0, n as int) =~= line@);
    }
    let a = skip_spaces(line, 0);
    if n - a < 5 {
        return false;
    }
    let c0 = line.get_char(a);
    let c1 = line.get_char(a + 1);
    let c2 = line.get_char(a + 2);
    let c3 = line.get_char(a + 3);
    let c4 = line.get_char(a + 4);
    if !((c0 == 't' || c0 == 'T') && (c1 == 'h' || c1 == 'H') && (c2 == 'e' || c2 == 'E') && (c3
        == 'm' || c3 == 'M') && (c4 == 'e' || c4 == 'E')) {
        return false;
    }
    let b = skip_spaces(line, a + 5);
    proof {
        assert(first_non_space(line@) == a);
        assert(b - (a + 5) == first_non_space(line@.subrange(a + 5, line@.len() as int)));
    }
    b < n && line.get_char(b) == '='
}

/// Whether `line` is a section header, computed.
pub fn is_section_line_exec(line: &str) -> (r: bool)
    ensures
        r == is_section_line(line@),
{
    let n = line.unicode_len();
    proof {
        assert(line@.subrange(0, n as int) =~= line@);
    }
    let a = skip_spaces(line, 0);
    proof {
        assert(first_non_space(line@) == a);
    }
    a < n && line.get_char(a) == '['
}

/// The theme-property line for a quoted theme name.
pub open spec fn spec_theme_line(quoted: Seq<char>) -> Seq<char> {
    "theme = "@ + quoted
}

/// The constructed theme-property line is itself classified as one, and
/// never as a section header; a blank line is neither.
pub proof fn lemma_theme_line_class(quoted: Seq<char>)
    ensures
        is_theme_line(spec_theme_line(quoted)),
        !is_section_line(spec_theme_line(quoted)),
        !is_theme_line(Seq::<char>::empty()),
        !is_section_line(Seq::<char>::empty()),
{
    reveal_strlit("theme = ");
    let tl = spec_theme_line(quoted);
    assert(tl[0] == 't' && tl[1] == 'h' && tl[2] == 'e' && tl[3] == 'm' && tl[4] == 'e' && tl[5]
        == ' ' && tl[6] == '=');
    assert(first_non_space(tl) == 0);
    let sub = tl.subrange(5, tl.len() as int);
    assert(sub[0] == ' ' && sub[1] == '=');
    let sub2 = sub.subrange(1, sub.len() as int);
    assert(sub2[0] == '=');
    assert(first_non_space(sub2) == 0);
    assert(first_non_space(sub) == 1);
    assert(tl[5 + first_non_space(sub)] == '=');
}

/// One left-to-right pass over the lines with a one-shot `added` flag:
/// the first theme-property line is replaced by the new line plus a
/// blank, the new line is put before the first section header otherwise,
/// and it is appended (plus a blank) when the pass never inserted it.
pub open spec fn patch_rec(lines: Seq<Seq<char>>, tl: Seq<char>, added: bool) -> Seq<Seq<char>>
    decreases lines.len(),
{
    if lines.len() == 0 {
        if added {
            Seq::empty()
        } else {
            seq![tl, Seq::<char>::empty()]
        }
    } else {
        let l = lines[0];
        let rest = lines.subrange(1, lines.len() as int);
        if !added && is_theme_line(l) {
            seq![tl, Seq::<char>::empty()] + patch_rec(rest, tl, true)
        } else if !added && is_section_line(l) {
            seq![tl, l] + patch_rec(rest, tl, true)
        } else {
            seq![l] + patch_rec(rest, tl, added)
        }
    }
}

/// The patched document, as lines.
pub open spec fn spec_patch(lines: Seq<Seq<char>>, tl: Seq<char>) -> Seq<Seq<char>> {
    patch_rec(lines, tl, false)
}

/// The patched document, as text: lines split, patched, and joined back
/// with a `\n` after each line.
pub open spec fn spec_change_theme(text: Seq<char>, quoted: Seq<char>) -> Seq<char> {
    spec_join(spec_patch(spec_lines(text), spec_theme_line(quoted)))
}

/// Applies the patching pass to a vector of lines.
pub fn patch_lines(lines: &Vec<String>, tl: &String) -> (out: Vec<String>)
    ensures
        views_of(out@) == spec_patch(views_of(lines@), tl@),
{
    let ghost all = views_of(lines@);
    let mut out: Vec<String> = Vec::new();
    let mut added = false;
    let mut i: usize = 0;
    proof {
        assert(views_of(out@) =~= Seq::<Seq<char>>::empty());
        assert(all.subrange(0, all.len() as int) =~= all);
        assert(views_of(out@) + patch_rec(all, tl@, false) =~= patch_rec(all, tl@, false));
    }
    while i < lines.len()
        invariant
            0 <= i <= lines@.len(),
            all == views_of(lines@),
            spec_patch(all, tl@) == views_of(out@) + patch_rec(
                all.subrange(i as int, all.len() as int),
                tl@,
                added,
            ),
        decreases lines@.len() - i,
    {
        let ghost rest = all.subrange(i as int, all.len() as int);
        let ghost prev = out@;
        let ghost prev_added = added;
        proof {
            assert(rest.len() > 0);
            assert(rest[0] == lines@[i as int]@);
            assert(rest.subrange(1, rest.len() as int) =~= all.subrange(
                i + 1,
                all.len() as int,
            ));
        }
        let line = &lines[i];
        if !added && is_theme_line_exec(line.as_str()) {
            out.push(tl.clone());
            out.push(String::new());
            added = true;
            proof {
                assert(patch_rec(rest, tl@, prev_added) == seq![tl@, Seq::<char>::empty()]
                    + patch_rec(rest.subrange(1, rest.len() as int), tl@, true));
                assert(views_of(out@) =~= views_of(prev) + seq![tl@, Seq::<char>::empty()]);
            }
        } else if !added && is_section_line_exec(line.as_str()) {
            out.push(tl.clone());
            out.push(line.clone());
            added = true;
            proof {
                assert(patch_rec(rest, tl@, prev_added) == seq![tl@, lines@[i as int]@]
                    + patch_rec(rest.subrange(1, rest.len() as int), tl@, true));
                assert(views_of(out@) =~= views_of(prev) + seq![tl@, lines@[i as int]@]);
            }
        } else {
            out.push(line.clone());
            proof {
                assert(patch_rec(rest, tl@, prev_added) == seq![lines@[i as int]@] + patch_rec(
                    rest.subrange(1, rest.len() as int),
                    tl@,
                    prev_added,
                ));
                assert(views_of(out@) =~= views_of(prev) + seq![lines@[i as int]@]);
            }
        }
        i = i + 1;
    }
    proof {
        assert(all.subrange(i as int, all.len() as int) =~= Seq::<Seq<char>>::empty());
    }
    if !added {
        let ghost prev = out@;
        out.push(tl.clone());
        out.push(String::new());
        proof {
            assert(patch_rec(Seq::<Seq<char>>::empty(), tl@, false) == seq![
                tl@,
                Seq::<char>::empty(),
            ]);
            assert(views_of(out@) =~= views_of(prev) + seq![tl@, Seq::<char>::empty()]);
        }
    } else {
        proof {
            assert(patch_rec(Seq::<Seq<char>>::empty(), tl@, true) =~= Seq::<Seq<char>>::empty());
            assert(views_of(out@) + Seq::<Seq<char>>::empty() =~= views_of(out@));
        }
    }
    out
}

/// Once the line is inserted, the rest of the pass copies its input
/// verbatim.
proof fn lemma_patch_added(lines: Seq<Seq<char>>, tl: Seq<char>)
    ensures
        patch_rec(lines, tl, true) == lines,
    decreases lines.len(),
{
    if lines.len() == 0 {
        assert(patch_rec(lines, tl, true) =~= lines);
    } else {
        let rest = lines.subrange(1, lines.len() as int);
        lemma_patch_added(rest, tl);
        assert(seq![lines[0]] + rest =~= lines);
    }
}

/// Replacing: when the first theme-property or section-header line of
/// the document is a theme-property line at index `i`, and no other
/// theme-property line exists, patching replaces exactly that line by
/// the new theme line plus a blank line, keeps every other line
/// verbatim in its order, and the result holds exactly one
/// theme-property line.
pub proof fn lemma_patch_replaces(lines: Seq<Seq<char>>, tl: Seq<char>, i: int)
    requires
        0 <= i < lines.len(),
        is_theme_line(lines[i]),
        forall|j: int| 0 <= j < i ==> !is_theme_line(lines[j]) && !is_section_line(lines[j]),
        forall|j: int| i < j < lines.len() ==> !is_theme_line(lines[j]),
        is_theme_line(tl),
    ensures
        spec_patch(lines, tl) == lines.subrange(0, i) + seq![tl, Seq::<char>::empty()]
            + lines.subrange(i + 1, lines.len() as int),
        forall|j: int|
            0 <= j < spec_patch(lines, tl).len() ==> (is_theme_line(
                #[trigger] spec_patch(lines, tl)[j],
            ) <==> j == i),
    decreases i,
{
    let rest = lines.subrange(1, lines.len() as int);
    if i == 0 {
        lemma_patch_added(rest, tl);
        assert(spec_patch(lines, tl) == seq![tl, Seq::<char>::empty()] + rest);
        assert(lines.subrange(0, 0) + seq![tl, Seq::<char>::empty()] + lines.subrange(
            1,
            lines.len() as int,
        ) =~= seq![tl, Seq::<char>::empty()] + rest);
    } else {
        assert(!is_theme_line(lines[0]) && !is_section_line(lines[0]));
        assert forall|j: int| 0 <= j < i - 1 implies !is_theme_line(rest[j]) && !is_section_line(
            rest[j],
        ) by {
            assert(rest[j] == lines[j + 1]);
        }
        assert(rest[i - 1] == lines[i]);
        assert forall|j: int| i - 1 < j < rest.len() implies !is_theme_line(rest[j]) by {
            assert(rest[j] == lines[j + 1]);
        }
        lemma_patch_replaces(rest, tl, i - 1);
        assert(spec_patch(lines, tl) == seq![lines[0]] + spec_patch(rest, tl));
        assert(rest.subrange(0, i - 1) =~= lines.subrange(1, i));
        assert(rest.subrange(i, rest.len() as int) =~= lines.subrange(i + 1, lines.len() as int));
        assert(seq![lines[0]] + (rest.subrange(0, i - 1) + seq![tl, Seq::<char>::empty()]
            + rest.subrange(i, rest.len() as int)) =~= lines.subrange(0, i) + seq![
            tl,
            Seq::<char>::empty(),
        ] + lines.subrange(i + 1, lines.len() as int));
    }
    let out = spec_patch(lines, tl);
    assert(first_non_space(Seq::<char>::empty()) == 0);
    assert(!is_theme_line(Seq::<char>::empty()));
    assert forall|j: int| 0 <= j < out.len() implies (is_theme_line(#[trigger] out[j]) <==> j
        == i) by {
        if j < i {
            assert(out[j] == lines[j]);
        } else if j == i {
            assert(out[j] == tl);
        } else if j == i + 1 {
            assert(out[j] == Seq::<char>::empty());
        } else {
            assert(out[j] == lines[j - 1]);
        }
    }
}

/// Inserting before the first section header: when no theme-property
/// line exists and `i` is the first section-header line, patching puts
/// the new theme line immediately before that header and keeps every
/// original line verbatim in its order; the result holds exactly one
/// theme-property line.
pub proof fn lemma_patch_inserts_before_section(lines: Seq<Seq<char>>, tl: Seq<char>, i: int)
    requires
        0 <= i < lines.len(),
        is_section_line(lines[i]),
        forall|j: int| 0 <= j < lines.len() ==> !is_theme_line(lines[j]),
        forall|j: int| 0 <= j < i ==> !is_section_line(lines[j]),
        is_theme_line(tl),
    ensures
        spec_patch(lines, tl) == lines.subrange(0, i) + seq![tl] + lines.subrange(
            i,
            lines.len() as int,
        ),
        spec_patch(lines, tl)[i] == tl,
        spec_patch(lines, tl)[i + 1] == lines[i],
        forall|j: int|
            0 <= j < spec_patch(lines, tl).len() ==> (is_theme_line(
                #[trigger] spec_patch(lines, tl)[j],
            ) <==> j == i),
    decreases i,
{
    let rest = lines.subrange(1, lines.len() as int);
    if i == 0 {
        lemma_patch_added(rest, tl);
        assert(spec_patch(lines, tl) == seq![tl, lines[0]] + rest);
        assert(lines.subrange(0, 0) + seq![tl] + lines.subrange(0, lines.len() as int) =~= seq![
            tl,
            lines[0],
        ] + rest);
    } else {
        assert(!is_theme_line(lines[0]) && !is_section_line(lines[0]));
        assert forall|j: int| 0 <= j < rest.len() implies !is_theme_line(rest[j]) by {
            assert(rest[j] == lines[j + 1]);
        }
        assert forall|j: int| 0 <= j < i - 1 implies !is_section_line(rest[j]) by {
            assert(rest[j] == lines[j + 1]);
        }
        assert(rest[i - 1] == lines[i]);
        lemma_patch_inserts_before_section(rest, tl, i - 1);
        assert(spec_patch(lines, tl) == seq![lines[0]] + spec_patch(rest, tl));
        assert(rest.subrange(0, i - 1) =~= lines.subrange(1, i));
        assert(rest.subrange(i - 1, rest.len() as int) =~= lines.subrange(i, lines.len() as int));
        assert(seq![lines[0]] + (rest.subrange(0, i - 1) + seq![tl] + rest.subrange(
            i - 1,
            rest.len() as int,
        )) =~= lines.subrange(0, i) + seq![tl] + lines.subrange(i, lines.len() as int));
    }
    let out = spec_patch(lines, tl);
    assert forall|j: int| 0 <= j < out.len() implies (is_theme_line(#[trigger] out[j]) <==> j
        == i) by {
        if j < i {
            assert(out[j] == lines[j]);
        } else if j == i {
            assert(out[j] == tl);
        } else {
            assert(out[j] == lines[j - 1]);
        }
    }
}

/// Appending at the end: when the document holds neither a
/// theme-property line nor a section header, patching appends the new
/// theme line plus a blank line after the unchanged document.
pub proof fn lemma_patch_appends(lines: Seq<Seq<char>>, tl: Seq<char>)
    requires
        forall|j: int|
            0 <= j < lines.len() ==> !is_theme_line(#[trigger] lines[j]) && !is_section_line(
                lines[j],
            ),
    ensures
        spec_patch(lines, tl) == lines + seq![tl, Seq::<char>::empty()],
    decreases lines.len(),
{
    if lines.len() == 0 {
        assert(spec_patch(lines, tl) =~= lines + seq![tl, Seq::<char>::empty()]);
    } else {
        let rest = lines.subrange(1, lines.len() as int);
        assert forall|j: int|
            0 <= j < rest.len() implies !is_theme_line(#[trigger] rest[j]) && !is_section_line(
            rest[j],
        ) by {
            assert(rest[j] == lines[j + 1]);
        }
        lemma_patch_appends(rest, tl);
        assert(spec_patch(lines, tl) == seq![lines[0]] + (rest + seq![tl, Seq::<char>::empty()]));
        assert(seq![lines[0]] + (rest + seq![tl, Seq::<char>::empty()]) =~= lines + seq![
            tl,
            Seq::<char>::empty(),
        ]);
    }
}

/// Whatever the document held, the patched document declares a theme:
/// some line of it is a theme-property line.
pub proof fn lemma_patch_declares_theme(lines: Seq<Seq<char>>, tl: Seq<char>)
    requires
        is_theme_line(tl),
    ensures
        exists|j: int|
            0 <= j < spec_patch(lines, tl).len() && is_theme_line(
                #[trigger] spec_patch(lines, tl)[j],
            ),
    decreases lines.len(),
{
    if lines.len() == 0 {
        assert(spec_patch(lines, tl)[0] == tl);
    } else {
        let l = lines[0];
        let rest = lines.subrange(1, lines.len() as int);
        if !is_theme_line(l) && !is_section_line(l) {
            lemma_patch_declares_theme(rest, tl);
            let j = choose|j: int|
                0 <= j < spec_patch(rest, tl).len() && is_theme_line(
                    #[trigger] spec_patch(rest, tl)[j],
                );
            assert(spec_patch(lines, tl)[j + 1] == spec_patch(rest, tl)[j]);
        } else {
            assert(spec_patch(lines, tl)[0] == tl);
        }
    }
}

/// The freshly constructed theme-property line for `name`.
fn theme_line_string(name: &str) -> (l: String)
    ensures
        l@ == spec_theme_line(toml_quoted(name@)),
{
    let mut l = "theme = ".to_owned();
    let quoted = quote_theme_name(name);
    l.append(quoted.as_str());
    l
}

/// Appends the theme-property line for `name`, with its line terminator,
/// to `buffer`.
pub fn add_theme_line(buffer: &mut String, name: &str)
    ensures
        final(buffer)@ == old(buffer)@ + spec_theme_line(toml_quoted(name@)) + seq!['\n'],
{
    let l = theme_line_string(name);
    buffer.append(l.as_str());
    buffer.append("\n");
    proof {
        reveal_strlit("\n");
        assert("\n"@ =~= seq!['\n']);
    }
}

/// Returns `content` rewritten to declare `theme_name`: the first
/// theme-property line is replaced (plus a trailing blank line), or the
/// new line is inserted before the first section header, or appended at
/// the end; every other line is kept verbatim, in order, each line ending
/// normalized to `\n`.
pub fn change_theme_in_config(theme_name: &str, content: String) -> (r: String)
    ensures
        r@ == spec_change_theme(content@, toml_quoted(theme_name@)),
{
    let tl = theme_line_string(theme_name);
    let lines = split_lines(content.as_str());
    let patched = patch_lines(&lines, &tl);
    join_lines(&patched)
}

} // verus!
