//! The catalog extractor: pulls the declared repository URL out of a
//! theme's metadata text, and builds a catalog from a listing of theme
//! directories, silently omitting every entry whose metadata is missing
//! or does not declare a repository.

use vstd::prelude::*;

use crate::catalog::{ThemeCatalog, ThemeEntry};
use crate::text::{
    find_char_from, find_substring, first_occurrence, first_substring, trim_str, trimmed,
};

verus! {

/// The repository URL declared in metadata text: from the first
/// occurrence of the token `repository`, take the text through the end
/// of that line; the part after the first `=` there, trimmed of
/// surrounding white space, is the URL. Nothing is declared when the
/// token, or the `=`, is absent.
pub open spec fn spec_extract(text: Seq<char>) -> Option<Seq<char>> {
    match first_substring(text, "repository"@) {
        None => None,
        Some(i) => {
            let eol = i + first_occurrence(text.subrange(i, text.len() as int), '\n');
            let seg = text.subrange(i, eol);
            let e = first_occurrence(seg, '=');
            if 0 <= e < seg.len() {
                Some(trimmed(seg.subrange(e + 1, seg.len() as int)))
            } else {
                None
            }
        },
    }
}

/// Extracts the declared repository URL from metadata text.
pub fn extract_repository_url(text: &str) -> (r: Option<String>)
    ensures
        match r {
            Some(u) => spec_extract(text@) == Some(u@),
            None => spec_extract(text@) is None,
        },
{
    let n = text.unicode_len();
    let start = match find_substring(text, "repository") {
        None => {
            return None;
        },
        Some(i) => i,
    };
    proof {
        crate::text::lemma_first_substring(text@, "repository"@);
        assert(crate::text::matches_at(text@, "repository"@, start as int));
    }
    let eol = find_char_from(text, start, '\n');
    let seg = text.substring_char(start, eol);
    proof {
        assert(seg@ =~= text@.subrange(start as int, eol as int));
        assert(seg@.subrange(0, seg@.len() as int) =~= seg@);
    }
    let e = find_char_from(seg, 0, '=');
    let m = seg.unicode_len();
    if e >= m {
        return None;
    }
    let after = seg.substring_char(e + 1, m);
    proof {
        assert(after@ =~= seg@.subrange(e + 1, seg@.len() as int));
    }
    let url = trim_str(after);
    proof {
        assert(url@ == trimmed(seg@.subrange(e + 1, seg@.len() as int)));
    }
    Some(url)
}

/// The view of one directory listing item: the directory name, and the
/// metadata text when it could be read.
pub open spec fn item_view(p: (String, Option<String>)) -> (Seq<char>, Option<Seq<char>>) {
    (
        p.0@,
        match p.1 {
            Option::None => Option::None,
            Option::Some(s) => Option::Some(s@),
        },
    )
}

/// The views of a directory listing.
pub open spec fn items_view(items: Seq<(String, Option<String>)>) -> Seq<
    (Seq<char>, Option<Seq<char>>),
> {
    items.map_values(|p: (String, Option<String>)| item_view(p))
}

/// The catalog contents that a directory listing yields: one
/// `(name, url)` pair per item whose metadata was readable and declares
/// a repository, in listing order; every other item is omitted.
pub open spec fn spec_build(items: Seq<(Seq<char>, Option<Seq<char>>)>) -> Seq<
    (Seq<char>, Seq<char>),
>
    decreases items.len(),
{
    if items.len() == 0 {
        Seq::empty()
    } else {
        let rest = spec_build(items.subrange(1, items.len() as int));
        match items[0].1 {
            None => rest,
            Some(t) => match spec_extract(t) {
                None => rest,
                Some(u) => seq![(items[0].0, u)] + rest,
            },
        }
    }
}

/// The `(name, url)` pairs a catalog holds, in order.
pub open spec fn catalog_view(c: ThemeCatalog) -> Seq<(Seq<char>, Seq<char>)> {
    c.entries@.map_values(|e: ThemeEntry| (e.name@, e.repository_url@))
}

/// Builds a catalog from a directory listing: each item is the directory
/// name with its metadata text, or nothing when the metadata could not
/// be read. A per-item failure omits that item and nothing else.
pub fn build_catalog(items: &Vec<(String, Option<String>)>) -> (c: ThemeCatalog)
    ensures
        catalog_view(c) == spec_build(items_view(items@)),
{
    let ghost all = items_view(items@);
    let mut c = ThemeCatalog::new();
    let mut i: usize = 0;
    proof {
        assert(catalog_view(c) =~= Seq::<(Seq<char>, Seq<char>)>::empty());
        assert(all.subrange(0, all.len() as int) =~= all);
    }
    while i < items.len()
        invariant
            0 <= i <= items@.len(),
            all == items_view(items@),
            spec_build(all) == catalog_view(c) + spec_build(
                all.subrange(i as int, all.len() as int),
            ),
        decreases items@.len() - i,
    {
        let ghost rest = all.subrange(i as int, all.len() as int);
        let ghost prev = c;
        proof {
            assert(rest.len() > 0);
            assert(rest[0] == item_view(items@[i as int]));
            assert(rest.subrange(1, rest.len() as int) =~= all.subrange(i + 1, all.len() as int));
        }
        match &items[i].1 {
            None => {
                proof {
                    assert(spec_build(rest) == spec_build(rest.subrange(1, rest.len() as int)));
                }
            },
            Some(text) => {
                match extract_repository_url(text.as_str()) {
                    None => {
                        proof {
                            assert(spec_build(rest) == spec_build(
                                rest.subrange(1, rest.len() as int),
                            ));
                        }
                    },
                    Some(url) => {
                        let ghost u = url@;
                        let name = items[i].0.clone();
                        c.add(ThemeEntry { name, repository_url: url });
                        proof {
                            assert(spec_build(rest) == seq![(items@[i as int].0@, u)] + spec_build(
                                rest.subrange(1, rest.len() as int),
                            ));
                            assert(catalog_view(c) =~= catalog_view(prev) + seq![
                                (items@[i as int].0@, u),
                            ]);
                        }
                    },
                }
            },
        }
        i = i + 1;
    }
    proof {
        assert(all.subrange(i as int, all.len() as int) =~= Seq::<
            (Seq<char>, Option<Seq<char>>),
        >::empty());
        assert(spec_build(Seq::<(Seq<char>, Option<Seq<char>>)>::empty()) =~= Seq::<
            (Seq<char>, Seq<char>),
        >::empty());
        assert(catalog_view(c) + Seq::<(Seq<char>, Seq<char>)>::empty() =~= catalog_view(c));
    }
    c
}

/// An item whose metadata is unreadable or declares no repository
/// changes nothing: the catalog built with it is the catalog built
/// without it, and every other item still contributes.
pub proof fn lemma_extractor_omission(
    before: Seq<(Seq<char>, Option<Seq<char>>)>,
    bad: (Seq<char>, Option<Seq<char>>),
    after: Seq<(Seq<char>, Option<Seq<char>>)>,
)
    requires
        bad.1 is None || spec_extract(bad.1->0) is None,
    ensures
        spec_build(before + seq![bad] + after) == spec_build(before + after),
    decreases before.len(),
{
    if before.len() == 0 {
        let w = before + seq![bad] + after;
        assert(w[0] == bad);
        assert(w.subrange(1, w.len() as int) =~= after);
        assert(spec_build(w) == spec_build(after));
        assert(before + after =~= after);
    } else {
        let w = before + seq![bad] + after;
        let v = before + after;
        let b2 = before.subrange(1, before.len() as int);
        assert(w[0] == before[0]);
        assert(v[0] == before[0]);
        assert(w.subrange(1, w.len() as int) =~= b2 + seq![bad] + after);
        assert(v.subrange(1, v.len() as int) =~= b2 + after);
        lemma_extractor_omission(b2, bad, after);
    }
}

} // verus!
