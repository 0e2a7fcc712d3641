//! Formatting of a single document line into styled fragments.
//!
//! A line that begins with one, two or three `*` characters is a heading: the
//! text after the marker becomes one bold fragment, and no inline scanning is
//! done. Any other line is scanned left to right for `_..._` (underline) and
//! `/.../` (italic) spans; the text between markers keeps its style, the text
//! around them stays plain. An opening marker with no matching close styles
//! the rest of the line — that fallback is this library's documented choice
//! for the ambiguous unmatched case.

use vstd::prelude::*;

use crate::text::{find_from, find_in, lemma_find_in_at, lemma_find_in_none, lemma_find_in_props,
    sub_chars};

verus! {

/// Style attached to one fragment of a rendered line.
#[derive(Clone, Copy, Debug, PartialEq, Eq, Structural)]
pub enum StyleKind {
    Plain,
    Bold,
    Underline,
    Italic,
}

/// One styled piece of a line: a run of text carrying a single style.
pub struct Fragment {
    pub text: Vec<char>,
    pub style: StyleKind,
}

impl View for Fragment {
    type V = (Seq<char>, StyleKind);

    open spec fn view(&self) -> (Seq<char>, StyleKind) {
        (self.text@, self.style)
    }
}

/// The two inline emphasis markers.
pub open spec fn marker_set() -> Set<char> {
    set!['_', '/']
}

/// The style an emphasis marker introduces.
pub open spec fn style_of_marker(c: char) -> StyleKind {
    if c == '_' {
        StyleKind::Underline
    } else {
        StyleKind::Italic
    }
}

/// `line` begins with at least `k` `*` characters.
pub open spec fn starts_with_stars(line: Seq<char>, k: int) -> bool {
    line.len() >= k && forall|j: int| 0 <= j < k ==> line[j] == '*'
}

/// Fragments of a non-heading line: repeatedly find the next emphasis marker,
/// emit the text before it as plain and the delimited span with its style;
/// an unmatched marker's span runs to the end of the line.
pub open spec fn inline_spec(s: Seq<char>) -> Seq<(Seq<char>, StyleKind)>
    decreases s.len(),
    via inline_spec_decreases
{
    match find_in(s, marker_set()) {
        None => seq![(s, StyleKind::Plain)],
        Some(i) => {
            let style = style_of_marker(s[i]);
            match find_in(s.skip(i + 1), set![s[i]]) {
                Some(j) => seq![
                    (s.take(i), StyleKind::Plain),
                    (s.subrange(i + 1, i + 1 + j), style),
                ] + inline_spec(s.skip(i + 2 + j)),
                None => seq![
                    (s.take(i), StyleKind::Plain),
                    (s.skip(i + 1), style),
                    (Seq::<char>::empty(), StyleKind::Plain),
                ],
            }
        },
    }
}

#[via_fn]
proof fn inline_spec_decreases(s: Seq<char>) {
    lemma_find_in_props(s, marker_set());
    match find_in(s, marker_set()) {
        None => {},
        Some(i) => {
            lemma_find_in_props(s.skip(i + 1), set![s[i]]);
        },
    }
}

/// What `format_line` produces: a heading collapses to one bold fragment
/// (three leading stars checked first, then two, then one); anything else
/// goes through the inline scan.
pub open spec fn format_line_spec(line: Seq<char>) -> Seq<(Seq<char>, StyleKind)> {
    if starts_with_stars(line, 3) {
        seq![(line.skip(3), StyleKind::Bold)]
    } else if starts_with_stars(line, 2) {
        seq![(line.skip(2), StyleKind::Bold)]
    } else if starts_with_stars(line, 1) {
        seq![(line.skip(1), StyleKind::Bold)]
    } else {
        inline_spec(line)
    }
}

/// The mathematical content of a fragment list: each fragment as its text and
/// style.
pub open spec fn frags_model(fs: Seq<Fragment>) -> Seq<(Seq<char>, StyleKind)> {
    fs.map_values(|f: Fragment| f@)
}

/// Heading detection takes precedence over inline emphasis: a line that
/// begins with `*` always collapses to a single bold fragment, whatever
/// emphasis markers it holds further on.
pub proof fn lemma_heading_precedence(line: Seq<char>)
    requires
        line.len() > 0,
        line[0] == '*',
    ensures
        format_line_spec(line).len() == 1,
        format_line_spec(line)[0].1 == StyleKind::Bold,
{
    assert(starts_with_stars(line, 1));
}

/// A lone unmatched emphasis marker styles the rest of the line, and the
/// output still covers the whole line: the fragments' text, in order, is the
/// line with just the marker character removed.
pub proof fn lemma_unmatched_marker(s: Seq<char>, i: int)
    requires
        0 <= i < s.len(),
        marker_set().contains(s[i]),
        forall|j: int| 0 <= j < i ==> !marker_set().contains(s[j]),
        forall|j: int| i < j < s.len() ==> s[j] != s[i],
    ensures
        inline_spec(s) == seq![
            (s.take(i), StyleKind::Plain),
            (s.skip(i + 1), style_of_marker(s[i])),
            (Seq::<char>::empty(), StyleKind::Plain),
        ],
        s.take(i) + s.skip(i + 1) == s.remove(i),
{
    lemma_find_in_at(s, marker_set(), i);
    assert forall|j: int| 0 <= j < s.skip(i + 1).len() implies !set![s[i]].contains(
        #[trigger] s.skip(i + 1)[j],
    ) by {
        assert(s.skip(i + 1)[j] == s[i + 1 + j]);
    }
    lemma_find_in_none(s.skip(i + 1), set![s[i]]);
    assert(s.take(i) + s.skip(i + 1) =~= s.remove(i));
}

/// `line` begins with at least `k` `*` characters, decided by scanning.
fn has_stars(line: &Vec<char>, k: usize) -> (r: bool)
    ensures
        r == starts_with_stars(line@, k as int),
{
    if line.len() < k {
        return false;
    }
    let mut j: usize = 0;
    while j < k
        invariant
            j <= k <= line@.len(),
            forall|t: int| 0 <= t < j ==> line@[t] == '*',
        decreases k - j,
    {
        if line[j] != '*' {
            return false;
        }
        j = j + 1;
    }
    true
}

/// Classify one line and emit its styled fragments.
pub fn format_line(line: &Vec<char>) -> (r: Vec<Fragment>)
    ensures
        frags_model(r@) == format_line_spec(line@),
{
    let n = line.len();
    if has_stars(line, 3) {
        let mut r: Vec<Fragment> = Vec::new();
        r.push(Fragment { text: sub_chars(line, 3, n), style: StyleKind::Bold });
        proof {
            assert(line@.subrange(3, n as int) =~= line@.skip(3));
            assert(frags_model(r@) =~= format_line_spec(line@));
        }
        return r;
    }
    if has_stars(line, 2) {
        let mut r: Vec<Fragment> = Vec::new();
        r.push(Fragment { text: sub_chars(line, 2, n), style: StyleKind::Bold });
        proof {
            assert(line@.subrange(2, n as int) =~= line@.skip(2));
            assert(frags_model(r@) =~= format_line_spec(line@));
        }
        return r;
    }
    if has_stars(line, 1) {
        let mut r: Vec<Fragment> = Vec::new();
        r.push(Fragment { text: sub_chars(line, 1, n), style: StyleKind::Bold });
        proof {
            assert(line@.subrange(1, n as int) =~= line@.skip(1));
            assert(frags_model(r@) =~= format_line_spec(line@));
        }
        return r;
    }
    let mut r: Vec<Fragment> = Vec::new();
    let mut pos: usize = 0;
    proof {
        assert(line@.skip(0) =~= line@);
        assert(frags_model(r@) + inline_spec(line@) =~= inline_spec(line@));
    }
    loop
        invariant_except_break
            frags_model(r@) + inline_spec(line@.skip(pos as int)) == inline_spec(line@),
        invariant
            pos <= n,
            n == line@.len(),
        ensures
            frags_model(r@) == inline_spec(line@),
        decreases n - pos,
    {
        let ghost prev = frags_model(r@);
        let ghost rest = line@.skip(pos as int);
        match find_from(line, pos, '_', '/') {
            None => {
                r.push(Fragment { text: sub_chars(line, pos, n), style: StyleKind::Plain });
                proof {
                    assert(set!['_', '/'] =~= marker_set());
                    assert(line@.subrange(pos as int, n as int) =~= rest);
                    assert(inline_spec(rest) =~= seq![(rest, StyleKind::Plain)]);
                    assert(frags_model(r@) =~= prev.push((rest, StyleKind::Plain)));
                    assert(frags_model(r@) =~= inline_spec(line@));
                }
                break ;
            },
            Some(i) => {
                let m = line[i];
                let style = if m == '_' {
                    StyleKind::Underline
                } else {
                    StyleKind::Italic
                };
                proof {
                    assert(set!['_', '/'] =~= marker_set());
                    assert(rest[i - pos] == line@[i as int]);
                    assert(style == style_of_marker(rest[i - pos]));
                }
                match find_from(line, i + 1, m, m) {
                    Some(j) => {
                        r.push(
                            Fragment { text: sub_chars(line, pos, i), style: StyleKind::Plain },
                        );
                        r.push(Fragment { text: sub_chars(line, i + 1, j), style });
                        proof {
                            assert(set![m, m] =~= set![m]);
                            assert(rest.skip(i - pos + 1) =~= line@.skip(i + 1));
                            assert(rest.take(i - pos) =~= line@.subrange(pos as int, i as int));
                            assert(rest.subrange(i - pos + 1, i - pos + 1 + (j - (i + 1)))
                                =~= line@.subrange(i + 1, j as int));
                            assert(rest.skip(i - pos + 2 + (j - (i + 1))) =~= line@.skip(j + 1));
                            assert(inline_spec(rest) == seq![
                                (rest.take(i - pos), StyleKind::Plain),
                                (rest.subrange(i - pos + 1, i - pos + 1 + (j - (i + 1))), style),
                            ] + inline_spec(rest.skip(i - pos + 2 + (j - (i + 1)))));
                            assert(frags_model(r@) =~= prev.push(
                                (line@.subrange(pos as int, i as int), StyleKind::Plain),
                            ).push((line@.subrange(i + 1, j as int), style)));
                            assert(frags_model(r@) + inline_spec(line@.skip(j + 1))
                                =~= inline_spec(line@));
                        }
                        pos = j + 1;
                    },
                    None => {
                        r.push(
                            Fragment { text: sub_chars(line, pos, i), style: StyleKind::Plain },
                        );
                        r.push(Fragment { text: sub_chars(line, i + 1, n), style });
                        r.push(Fragment { text: Vec::new(), style: StyleKind::Plain });
                        proof {
                            assert(set![m, m] =~= set![m]);
                            assert(rest.skip(i - pos + 1) =~= line@.skip(i + 1));
                            assert(rest.take(i - pos) =~= line@.subrange(pos as int, i as int));
                            assert(line@.subrange(i + 1, n as int) =~= line@.skip(i + 1));
                            assert(inline_spec(rest) == seq![
                                (rest.take(i - pos), StyleKind::Plain),
                                (rest.skip(i - pos + 1), style),
                                (Seq::<char>::empty(), StyleKind::Plain),
                            ]);
                            assert(frags_model(r@) =~= prev.push(
                                (line@.subrange(pos as int, i as int), StyleKind::Plain),
                            ).push((line@.skip(i + 1), style)).push(
                                (Seq::<char>::empty(), StyleKind::Plain),
                            ));
                            assert(frags_model(r@) =~= inline_spec(line@));
                        }
                        break ;
                    },
                }
            },
        }
    }
    r
}

} // verus!
