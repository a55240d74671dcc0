use vstd::prelude::*;
use vstd::string::*;

use crate::text::{owned, views};

verus! {

/// What `str::trim` makes of a string.
pub uninterp spec fn trim_of(s: Seq<char>) -> Seq<char>;

/// Relies on `str::trim`: the string without its leading and trailing
/// whitespace, which depends on the characters alone; nothing is left of an
/// empty string.
#[verifier::external_body]
fn trim(s: &str) -> (r: &str)
    ensures
        r@ == trim_of(s@),
        s@.len() == 0 ==> r@.len() == 0,
{
    s.trim()
}

/// The lines of a text: the pieces between newline characters, the last
/// one included even where it is empty.
pub open spec fn spec_lines(s: Seq<char>) -> Seq<Seq<char>>
    decreases s.len(),
{
    if s.len() == 0 {
        seq![seq![]]
    } else {
        let rest = spec_lines(s.drop_last());
        if s.last() == '\n' {
            rest.push(seq![])
        } else {
            rest.update(rest.len() - 1, rest.last().push(s.last()))
        }
    }
}

/// The requirement that a trimmed line gives: none for a blank line or a
/// comment.
pub open spec fn requirement_of(t: Seq<char>) -> Option<Seq<char>> {
    if t.len() == 0 || t[0] == '#' {
        None
    } else {
        Some(t)
    }
}

/// The requirements of a manifest's lines, in order.
pub open spec fn requirements(lines: Seq<Seq<char>>) -> Seq<Seq<char>>
    decreases lines.len(),
{
    if lines.len() == 0 {
        seq![]
    } else {
        let r = requirements(lines.drop_last());
        match requirement_of(trim_of(lines.last())) {
            Some(t) => r.push(t),
            None => r,
        }
    }
}

pub open spec fn spec_parse_requirements(text: Seq<char>) -> Seq<Seq<char>> {
    requirements(spec_lines(text))
}

/// Splits a text at its newline characters.
pub fn lines_of(text: &str) -> (r: Vec<String>)
    ensures
        views(r@) == spec_lines(text@),
{
    let n = text.unicode_len();
    let mut lines: Vec<String> = Vec::new();
    let mut start: usize = 0;
    assert(text@.subrange(0, 0) =~= Seq::<char>::empty());
    assert(views(lines@).push(text@.subrange(0, 0)) =~= seq![seq![]]);
    for i in 0..n
        invariant
            n == text@.len(),
            start <= i,
            spec_lines(text@.subrange(0, i as int)) == views(lines@).push(
                text@.subrange(start as int, i as int),
            ),
    {
        let ghost prev = views(lines@);
        let ghost pre = text@.subrange(0, i + 1);
        assert(pre.drop_last() =~= text@.subrange(0, i as int));
        assert(pre.last() == text@[i as int]);
        let c = text.get_char(i);
        if c == '\n' {
            let ghost s0 = start;
            let piece = owned(text.substring_char(start, i));
            lines.push(piece);
            start = i + 1;
            assert(views(lines@) =~= prev.push(text@.subrange(s0 as int, i as int)));
            assert(text@.subrange(start as int, i + 1) =~= Seq::<char>::empty());
            assert(spec_lines(pre) =~= views(lines@).push(text@.subrange(start as int, i + 1)));
        } else {
            assert(text@.subrange(start as int, i as int).push(c) =~= text@.subrange(
                start as int,
                i + 1,
            ));
            assert(spec_lines(pre) =~= prev.push(text@.subrange(start as int, i + 1)));
        }
    }
    let last = owned(text.substring_char(start, n));
    let ghost prev = views(lines@);
    lines.push(last);
    assert(text@.subrange(0, n as int) =~= text@);
    assert(views(lines@) =~= prev.push(text@.subrange(start as int, n as int)));
    lines
}

/// The requirement named by an already trimmed manifest line: `None` for a
/// blank line or a comment, else the line itself.
pub fn requirement_from_trimmed(t: &str) -> (r: Option<String>)
    ensures
        r matches Some(s) ==> requirement_of(t@) == Some(s@),
        r is None ==> requirement_of(t@) is None,
{
    if t.unicode_len() == 0 || t.get_char(0) == '#' {
        None
    } else {
        Some(owned(t))
    }
}

/// The requirement specifiers of a manifest text: each line trimmed, blank
/// lines and comment lines left out, the rest in file order.
pub fn parse_requirements(text: &str) -> (r: Vec<String>)
    ensures
        views(r@) == spec_parse_requirements(text@),
{
    let lines = lines_of(text);
    let mut names: Vec<String> = Vec::new();
    for i in 0..lines.len()
        invariant
            views(names@) == requirements(views(lines@).subrange(0, i as int)),
    {
        let ghost prev = views(names@);
        let ghost ls = views(lines@).subrange(0, i + 1);
        assert(ls.drop_last() =~= views(lines@).subrange(0, i as int));
        assert(ls.last() == lines@[i as int]@);
        let t = trim(lines[i].as_str());
        match requirement_from_trimmed(t) {
            Some(name) => {
                names.push(name);
                assert(views(names@) =~= prev.push(trim_of(lines@[i as int]@)));
            },
            None => {},
        }
    }
    assert(views(lines@).subrange(0, lines@.len() as int) =~= views(lines@));
    names
}

} // verus!
