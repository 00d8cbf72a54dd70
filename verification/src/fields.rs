//! Labelled sections of an issue body. A section starts at a line
//! `### <label>` and its value is the text up to the next `### ` line,
//! trimmed of surrounding whitespace.

use vstd::prelude::*;
use crate::text::{
    deep_of, eq_chars, is_trimmed_of, join_lines, spec_join, split_lines, spec_lines, trim_chars,
    chars_of,
};

verus! {

/// The four characters that introduce a section header line.
pub open spec fn header_marker() -> Seq<char> {
    seq!['#', '#', '#', ' ']
}

/// The header line for a label.
pub open spec fn header_of(label: Seq<char>) -> Seq<char> {
    header_marker() + label
}

/// Any section header line, whatever its label.
pub open spec fn is_any_header(line: Seq<char>) -> bool {
    line.len() >= 4 && line.subrange(0, 4) == header_marker()
}

/// Some line is the header of this label.
pub open spec fn has_field(lines: Seq<Seq<char>>, label: Seq<char>) -> bool {
    exists|i: int| 0 <= i < lines.len() && lines[i] == header_of(label)
}

/// Lines `i + 1` up to `j` form the section of the first header of `label`.
pub open spec fn field_section(lines: Seq<Seq<char>>, label: Seq<char>, i: int, j: int) -> bool {
    &&& 0 <= i < j <= lines.len()
    &&& lines[i] == header_of(label)
    &&& (forall|k: int| 0 <= k < i ==> lines[k] != header_of(label))
    &&& (forall|k: int| i < k < j ==> !is_any_header(lines[k]))
    &&& (j < lines.len() ==> is_any_header(lines[j]))
}

/// `v` is the value of the field `label`: the section lines joined with
/// newlines and trimmed. The conditions pin `v` to exactly one value.
pub open spec fn field_value_is(lines: Seq<Seq<char>>, label: Seq<char>, v: Seq<char>) -> bool {
    exists|i: int, j: int|
        field_section(lines, label, i, j) && is_trimmed_of(v, spec_join(lines.subrange(i + 1, j)))
}

/// An optional field value: the value when the field is present, nothing
/// when no line is its header.
pub open spec fn field_opt_is(
    lines: Seq<Seq<char>>,
    label: Seq<char>,
    ov: Option<Seq<char>>,
) -> bool {
    match ov {
        Some(v) => field_value_is(lines, label, v),
        None => !has_field(lines, label),
    }
}

/// Executable test for a section header line.
#[verifier::loop_isolation(false)]
pub fn is_header_line(line: &Vec<char>) -> (r: bool)
    ensures
        r == is_any_header(line@),
{
    if line.len() < 4 {
        return false;
    }
    let r = line[0] == '#' && line[1] == '#' && line[2] == '#' && line[3] == ' ';
    proof {
        if r {
            assert(line@.subrange(0, 4) =~= header_marker());
        } else {
            assert(line@.subrange(0, 4) != header_marker()) by {
                if line@.subrange(0, 4) == header_marker() {
                    assert(line@[0] == '#' && line@[1] == '#' && line@[2] == '#' && line@[3] == ' ')
                        by {
                        assert(line@.subrange(0, 4)[0] == '#');
                        assert(line@.subrange(0, 4)[1] == '#');
                        assert(line@.subrange(0, 4)[2] == '#');
                        assert(line@.subrange(0, 4)[3] == ' ');
                    }
                }
            }
        }
    }
    r
}

/// The header line text for a label.
#[verifier::loop_isolation(false)]
pub fn header_vec(label: &Vec<char>) -> (r: Vec<char>)
    ensures
        r@ == header_of(label@),
{
    let mut h: Vec<char> = Vec::new();
    h.push('#');
    h.push('#');
    h.push('#');
    h.push(' ');
    let mut i: usize = 0;
    while i < label.len()
        invariant
            0 <= i <= label.len(),
            h@ == header_marker() + label@.subrange(0, i as int),
        decreases label.len() - i,
    {
        h.push(label[i]);
        assert(h@ =~= header_marker() + label@.subrange(0, i + 1));
        i = i + 1;
    }
    proof {
        assert(h@ =~= header_marker() + label@);
    }
    h
}

/// Copy a character vector.
#[verifier::loop_isolation(false)]
pub fn copy_chars(src: &Vec<char>) -> (r: Vec<char>)
    ensures
        r@ == src@,
{
    let mut r: Vec<char> = Vec::new();
    let mut i: usize = 0;
    while i < src.len()
        invariant
            0 <= i <= src.len(),
            r@ == src@.subrange(0, i as int),
        decreases src.len() - i,
    {
        r.push(src[i]);
        assert(r@ =~= src@.subrange(0, i + 1));
        i = i + 1;
    }
    proof {
        assert(r@ =~= src@);
    }
    r
}

/// Look a field up by its label: the lines after its first header up to the
/// next header, joined and trimmed. `None` when no line is the header.
#[verifier::loop_isolation(false)]
pub fn field_value(lines: &Vec<Vec<char>>, label: &Vec<char>) -> (r: Option<Vec<char>>)
    ensures
        field_opt_is(deep_of(lines@), label@, match r {
            Some(v) => Some(v@),
            None => None,
        }),
{
    let hdr = header_vec(label);
    let n = lines.len();
    let mut i: usize = 0;
    let mut found = false;
    while i < n && !found
        invariant
            0 <= i <= n,
            n == lines@.len(),
            hdr@ == header_of(label@),
            found ==> i < n && deep_of(lines@)[i as int] == header_of(label@),
            forall|k: int| 0 <= k < i ==> deep_of(lines@)[k] != header_of(label@),
        decreases n - i + (if found { 0int } else { 1int }),
    {
        if eq_chars(&lines[i], &hdr) {
            found = true;
        } else {
            i = i + 1;
        }
    }
    if !found {
        proof {
            assert(!has_field(deep_of(lines@), label@));
        }
        return None;
    }
    let mut j: usize = i + 1;
    while j < n && !is_header_line(&lines[j])
        invariant
            i < j <= n,
            n == lines@.len(),
            forall|k: int| i < k < j ==> !is_any_header(deep_of(lines@)[k]),
        decreases n - j,
    {
        j = j + 1;
    }
    let mut section: Vec<Vec<char>> = Vec::new();
    let mut k: usize = i + 1;
    proof {
        assert(deep_of(section@) =~= deep_of(lines@).subrange(i + 1, i + 1));
    }
    while k < j
        invariant
            i + 1 <= k <= j <= n,
            n == lines@.len(),
            deep_of(section@) == deep_of(lines@).subrange(i + 1, k as int),
        decreases j - k,
    {
        let ghost pre = section@;
        let copied = copy_chars(&lines[k]);
        let ghost cv = copied@;
        section.push(copied);
        proof {
            crate::text::lemma_deep_of_push(pre, section@, cv);
            assert(deep_of(pre).push(cv) =~= deep_of(lines@).subrange(i + 1, k + 1));
        }
        k = k + 1;
    }
    let joined = join_lines(&section);
    let trimmed = trim_chars(&joined);
    proof {
        assert(field_section(deep_of(lines@), label@, i as int, j as int));
        assert(is_trimmed_of(trimmed@, spec_join(deep_of(lines@).subrange(i + 1, j as int))));
        assert(field_value_is(deep_of(lines@), label@, trimmed@));
    }
    Some(trimmed)
}

/// Split a body string into lines for field lookup.
pub fn body_lines(body: &str) -> (r: Vec<Vec<char>>)
    ensures
        deep_of(r@) == spec_lines(body@),
{
    let chars = chars_of(body);
    split_lines(&chars)
}


/// A field's value is pinned: two values of one field are equal.
pub proof fn lemma_field_value_unique(
    lines: Seq<Seq<char>>,
    label: Seq<char>,
    v1: Seq<char>,
    v2: Seq<char>,
)
    requires
        field_value_is(lines, label, v1),
        field_value_is(lines, label, v2),
    ensures
        v1 == v2,
{
    let (i1, j1) = choose|i1: int, j1: int|
        field_section(lines, label, i1, j1) && is_trimmed_of(
            v1,
            spec_join(lines.subrange(i1 + 1, j1)),
        );
    let (i2, j2) = choose|i2: int, j2: int|
        field_section(lines, label, i2, j2) && is_trimmed_of(
            v2,
            spec_join(lines.subrange(i2 + 1, j2)),
        );
    assert(i1 == i2) by {
        if i1 < i2 {
            assert(lines[i1] != header_of(label));
        }
        if i2 < i1 {
            assert(lines[i2] != header_of(label));
        }
    }
    assert(j1 == j2) by {
        if j1 < j2 {
            assert(!is_any_header(lines[j1]));
            assert(is_any_header(lines[j1]));
        }
        if j2 < j1 {
            assert(!is_any_header(lines[j2]));
            assert(is_any_header(lines[j2]));
        }
    }
    crate::text::lemma_trim_unique(v1, v2, spec_join(lines.subrange(i1 + 1, j1)));
}

} // verus!
