//! Splitting loaded file content into document lines.
//!
//! Lines are split at `\n`; a `\r` immediately before the `\n` belongs to the
//! line break and is dropped. A final unterminated line is kept, and content
//! that ends with a line break gains no empty last line.

use vstd::prelude::*;

use crate::text::{find_from, find_in, lemma_find_in_props, sub_chars};

verus! {

/// `t` without a trailing carriage return, if it has one.
pub open spec fn strip_cr(t: Seq<char>) -> Seq<char> {
    if t.len() > 0 && t[t.len() - 1] == '\r' {
        t.drop_last()
    } else {
        t
    }
}

/// The lines of `s`: the text before each `\n` (with a `\r` just before the
/// `\n` dropped), and the final unterminated segment if it is not empty.
pub open spec fn split_lines_spec(s: Seq<char>) -> Seq<Seq<char>>
    decreases s.len(),
    via split_lines_spec_decreases
{
    if s.len() == 0 {
        Seq::empty()
    } else {
        match find_in(s, set!['\n']) {
            None => seq![s],
            Some(i) => seq![strip_cr(s.take(i))] + split_lines_spec(s.skip(i + 1)),
        }
    }
}

#[via_fn]
proof fn split_lines_spec_decreases(s: Seq<char>) {
    lemma_find_in_props(s, set!['\n']);
}

/// The lines a document holds, as sequences of characters.
pub open spec fn doc_model(lines: Seq<Vec<char>>) -> Seq<Seq<char>> {
    lines.map_values(|l: Vec<char>| l@)
}

/// `t` without a trailing carriage return, if it has one.
fn strip_cr_exec(t: Vec<char>) -> (r: Vec<char>)
    ensures
        r@ == strip_cr(t@),
{
    let mut t = t;
    if t.len() > 0 && t[t.len() - 1] == '\r' {
        t.pop();
    }
    t
}

/// Split loaded content into document lines.
pub fn split_lines(content: &Vec<char>) -> (r: Vec<Vec<char>>)
    ensures
        doc_model(r@) == split_lines_spec(content@),
{
    let n = content.len();
    let mut r: Vec<Vec<char>> = Vec::new();
    let mut pos: usize = 0;
    proof {
        assert(content@.skip(0) =~= content@);
        assert(doc_model(r@) + split_lines_spec(content@) =~= split_lines_spec(content@));
    }
    while pos < n
        invariant
            pos <= n,
            n == content@.len(),
            doc_model(r@) + split_lines_spec(content@.skip(pos as int)) == split_lines_spec(
                content@,
            ),
        decreases n - pos,
    {
        let ghost prev = doc_model(r@);
        let ghost rest = content@.skip(pos as int);
        match find_from(content, pos, '\n', '\n') {
            None => {
                r.push(sub_chars(content, pos, n));
                proof {
                    assert(set!['\n', '\n'] =~= set!['\n']);
                    assert(content@.subrange(pos as int, n as int) =~= rest);
                    assert(split_lines_spec(rest) == seq![rest]);
                    assert(doc_model(r@) =~= prev.push(rest));
                    assert(doc_model(r@) =~= split_lines_spec(content@));
                }
                return r;
            },
            Some(i) => {
                let segment = sub_chars(content, pos, i);
                r.push(strip_cr_exec(segment));
                proof {
                    assert(set!['\n', '\n'] =~= set!['\n']);
                    assert(rest.take(i - pos) =~= content@.subrange(pos as int, i as int));
                    assert(rest.skip(i - pos + 1) =~= content@.skip(i + 1));
                    assert(split_lines_spec(rest) == seq![strip_cr(rest.take(i - pos))]
                        + split_lines_spec(rest.skip(i - pos + 1)));
                    assert(doc_model(r@) =~= prev.push(strip_cr(rest.take(i - pos))));
                    assert(doc_model(r@) + split_lines_spec(content@.skip(i + 1))
                        =~= split_lines_spec(content@));
                }
                pos = i + 1;
            },
        }
    }
    proof {
        assert(content@.skip(pos as int) =~= Seq::<char>::empty());
        assert(doc_model(r@) =~= split_lines_spec(content@));
    }
    r
}

} // verus!
