//! Splitting a textual path into components.
//!
//! The engine accepts slash- or backslash-delimited paths.  The splitter
//! collapses repeated and trailing separators (no empty components reach the
//! resolver), classifies `.` and `..`, and marks an absolute-style start — a
//! leading separator or a drive-like prefix — with an explicit component, so
//! that the resolver can reject it rather than silently normalize it.
//!
//! A lone `.` component is kept only at the very start of a path; later ones
//! say nothing and are dropped while splitting.

use vstd::prelude::*;
use vstd::string::StrSliceExecFns;

verus! {

/// One component of a split path, at the specification level, over plain
/// character sequences.
pub enum PathComp {
    /// An ordinary segment: the name of a child to look up.
    Named(Seq<char>),
    /// A `.` segment: stay at the current object.
    CurrentDir,
    /// A `..` segment: go to the parent.
    ParentDir,
    /// An absolute-style start; the resolver refuses it.
    Absolute,
}

/// One component of a split path.
#[derive(Debug, PartialEq, Eq)]
pub enum PathComponent {
    /// An ordinary segment: the name of a child to look up.
    Named(String),
    /// A `.` segment: stay at the current object.
    CurrentDir,
    /// A `..` segment: go to the parent.
    ParentDir,
    /// An absolute-style start; the resolver refuses it.
    Absolute,
}

impl View for PathComponent {
    type V = PathComp;

    open spec fn view(&self) -> PathComp {
        match self {
            PathComponent::Named(name) => PathComp::Named(name@),
            PathComponent::CurrentDir => PathComp::CurrentDir,
            PathComponent::ParentDir => PathComp::ParentDir,
            PathComponent::Absolute => PathComp::Absolute,
        }
    }
}

impl Clone for PathComponent {
    /// A clone denotes the very same component.
    fn clone(&self) -> (r: Self)
        ensures
            r@ == self@,
    {
        match self {
            PathComponent::Named(name) => PathComponent::Named(name.clone()),
            PathComponent::CurrentDir => PathComponent::CurrentDir,
            PathComponent::ParentDir => PathComponent::ParentDir,
            PathComponent::Absolute => PathComponent::Absolute,
        }
    }
}

/// The views of a sequence of components.
pub open spec fn comp_views(comps: Seq<PathComponent>) -> Seq<PathComp> {
    comps.map_values(|c: PathComponent| c@)
}

/// The two accepted separators.
pub open spec fn is_sep(c: char) -> bool {
    c == '/' || c == '\\'
}

/// An ASCII letter, as a drive prefix starts with one.
pub open spec fn is_drive_letter(c: char) -> bool {
    (65 <= c as u32 && c as u32 <= 90) || (97 <= c as u32 && c as u32 <= 122)
}

/// A drive-like prefix: the path opens with an ASCII letter and a colon.
pub open spec fn has_drive_prefix(s: Seq<char>) -> bool {
    s.len() >= 2 && is_drive_letter(s[0]) && s[1] == ':'
}

/// Where the segment that starts at `i` ends: the first position at or after
/// `i` that holds a separator, or the end of the text.
pub open spec fn seg_end(s: Seq<char>, i: int) -> int
    decreases s.len() - i,
{
    if i >= s.len() || is_sep(s[i]) {
        i
    } else {
        seg_end(s, i + 1)
    }
}

pub proof fn lemma_seg_end_bounds(s: Seq<char>, i: int)
    requires
        0 <= i <= s.len(),
    ensures
        i <= seg_end(s, i) <= s.len(),
        forall|k: int| i <= k < seg_end(s, i) ==> !is_sep(s[k]),
        seg_end(s, i) < s.len() ==> is_sep(s[seg_end(s, i)]),
        i < s.len() && !is_sep(s[i]) ==> seg_end(s, i) > i,
    decreases s.len() - i,
{
    if i < s.len() && !is_sep(s[i]) {
        lemma_seg_end_bounds(s, i + 1);
    }
}

/// A position is the end of the segment starting at `i` exactly when no
/// separator stands in between and it is itself a separator or the end.
pub proof fn lemma_seg_end_characterization(s: Seq<char>, i: int, j: int)
    requires
        0 <= i <= j <= s.len(),
        forall|k: int| i <= k < j ==> !is_sep(s[k]),
        j == s.len() || is_sep(s[j]),
    ensures
        seg_end(s, i) == j,
    decreases s.len() - i,
{
    if i < j {
        lemma_seg_end_characterization(s, i + 1, j);
    }
}

/// The components of the text from position `i` on.  `first` says whether a
/// component may still be the first of the whole path, which is the one
/// place a `.` is kept.
pub open spec fn parse_from(s: Seq<char>, i: int, first: bool) -> Seq<PathComp>
    decreases s.len() - i,
        via parse_from_decreases
{
    if i < 0 || i >= s.len() {
        seq![]
    } else if is_sep(s[i]) {
        parse_from(s, i + 1, first)
    } else {
        let j = seg_end(s, i);
        let seg = s.subrange(i, j);
        let rest = parse_from(s, j, false);
        if seg == seq!['.'] {
            if first {
                seq![PathComp::CurrentDir] + rest
            } else {
                rest
            }
        } else if seg == seq!['.', '.'] {
            seq![PathComp::ParentDir] + rest
        } else {
            seq![PathComp::Named(seg)] + rest
        }
    }
}

#[via_fn]
proof fn parse_from_decreases(s: Seq<char>, i: int, first: bool) {
    if 0 <= i < s.len() && !is_sep(s[i]) {
        lemma_seg_end_bounds(s, i);
    }
}

/// The components of a whole path.
///
/// A leading separator, or a drive-like prefix, yields an `Absolute` marker
/// in front of whatever follows; everything else is split into segments.
pub open spec fn spec_parse(s: Seq<char>) -> Seq<PathComp> {
    if s.len() > 0 && is_sep(s[0]) {
        seq![PathComp::Absolute] + parse_from(s, 1, false)
    } else if has_drive_prefix(s) {
        seq![PathComp::Absolute] + parse_from(s, 2, false)
    } else {
        parse_from(s, 0, true)
    }
}

/// A named component the resolver can act on: non-empty, with no separator
/// inside.
pub open spec fn component_well_formed(c: PathComp) -> bool {
    match c {
        PathComp::Named(n) => n.len() > 0 && (forall|k: int| 0 <= k < n.len() ==> !is_sep(n[k])),
        _ => true,
    }
}

proof fn lemma_parse_from_well_formed(s: Seq<char>, i: int, first: bool)
    requires
        0 <= i,
    ensures
        forall|j: int|
            0 <= j < parse_from(s, i, first).len() ==> component_well_formed(
                #[trigger] parse_from(s, i, first)[j],
            ),
    decreases s.len() - i,
{
    if i < s.len() {
        if is_sep(s[i]) {
            lemma_parse_from_well_formed(s, i + 1, first);
            assert forall|jj: int|
                0 <= jj < parse_from(s, i, first).len() implies component_well_formed(
                #[trigger] parse_from(s, i, first)[jj],
            ) by {
                assert(parse_from(s, i, first)[jj] == parse_from(s, i + 1, first)[jj]);
            };
        } else {
            lemma_seg_end_bounds(s, i);
            let j = seg_end(s, i);
            let seg = s.subrange(i, j);
            assert(seg.len() > 0);
            assert(forall|k: int| 0 <= k < seg.len() ==> !is_sep(seg[k]));
            lemma_parse_from_well_formed(s, j, false);
            let rest = parse_from(s, j, false);
            if seg == seq!['.'] {
                if first {
                    assert(parse_from(s, i, first) == seq![PathComp::CurrentDir] + rest);
                    lemma_prepend_well_formed(PathComp::CurrentDir, rest);
                    assert forall|jj: int|
                        0 <= jj < parse_from(s, i, first).len() implies component_well_formed(
                        #[trigger] parse_from(s, i, first)[jj],
                    ) by {
                        assert(parse_from(s, i, first)[jj] == (seq![PathComp::CurrentDir] + rest)[jj]);
                    };
                } else {
                    assert(parse_from(s, i, first) == rest);
                    assert forall|jj: int|
                        0 <= jj < parse_from(s, i, first).len() implies component_well_formed(
                        #[trigger] parse_from(s, i, first)[jj],
                    ) by {
                        assert(parse_from(s, i, first)[jj] == rest[jj]);
                    };
                }
            } else if seg == seq!['.', '.'] {
                assert(parse_from(s, i, first) == seq![PathComp::ParentDir] + rest);
                lemma_prepend_well_formed(PathComp::ParentDir, rest);
                assert forall|jj: int|
                    0 <= jj < parse_from(s, i, first).len() implies component_well_formed(
                    #[trigger] parse_from(s, i, first)[jj],
                ) by {
                    assert(parse_from(s, i, first)[jj] == (seq![PathComp::ParentDir] + rest)[jj]);
                };
            } else {
                assert(parse_from(s, i, first) == seq![PathComp::Named(seg)] + rest);
                lemma_prepend_well_formed(PathComp::Named(seg), rest);
                assert forall|jj: int|
                    0 <= jj < parse_from(s, i, first).len() implies component_well_formed(
                    #[trigger] parse_from(s, i, first)[jj],
                ) by {
                    assert(parse_from(s, i, first)[jj] == (seq![PathComp::Named(seg)] + rest)[jj]);
                };
            }
        }
    }
}

/// Prepending one well-formed component keeps a well-formed sequence.
proof fn lemma_prepend_well_formed(c: PathComp, rest: Seq<PathComp>)
    requires
        component_well_formed(c),
        forall|j: int| 0 <= j < rest.len() ==> component_well_formed(#[trigger] rest[j]),
    ensures
        forall|j: int|
            0 <= j < (seq![c] + rest).len() ==> component_well_formed(#[trigger] (seq![c]
                + rest)[j]),
{
    assert forall|j: int| 0 <= j < (seq![c] + rest).len() implies component_well_formed(
        (seq![c] + rest)[j],
    ) by {
        if j > 0 {
            assert((seq![c] + rest)[j] == rest[j - 1]);
        }
    };
}

/// LAW: the splitter never hands the resolver an empty named component or
/// one with a separator inside: repeated and trailing separators are
/// collapsed while splitting.
pub proof fn lemma_parse_components_well_formed(s: Seq<char>)
    ensures
        forall|j: int|
            0 <= j < spec_parse(s).len() ==> component_well_formed(#[trigger] spec_parse(s)[j]),
{
    if s.len() > 0 && is_sep(s[0]) {
        lemma_parse_from_well_formed(s, 1, false);
        lemma_prepend_well_formed(PathComp::Absolute, parse_from(s, 1, false));
    } else if has_drive_prefix(s) {
        lemma_parse_from_well_formed(s, 2, false);
        lemma_prepend_well_formed(PathComp::Absolute, parse_from(s, 2, false));
    } else {
        lemma_parse_from_well_formed(s, 0, true);
    }
}

/// LAW: a path that opens with a separator or with a drive-like prefix is
/// split with the absolute marker in front, whatever follows.
pub proof fn lemma_absolute_start_marked(s: Seq<char>)
    requires
        s.len() > 0,
        is_sep(s[0]) || has_drive_prefix(s),
    ensures
        spec_parse(s).len() > 0,
        spec_parse(s)[0] == PathComp::Absolute,
{
}

proof fn lemma_comp_views_push(comps: Seq<PathComponent>, c: PathComponent)
    ensures
        comp_views(comps.push(c)) == comp_views(comps).push(c@),
{
    assert(comp_views(comps.push(c)) =~= comp_views(comps).push(c@));
}

/// Split a path into components.
///
/// The result is exactly `spec_parse` of the text: repeated and trailing
/// separators collapsed, `.` and `..` classified, an absolute-style start
/// marked with a leading `Absolute` component.
pub fn parse_path(path: &str) -> (r: Vec<PathComponent>)
    ensures
        comp_views(r@) == spec_parse(path@),
{
    let len = path.unicode_len();
    let mut out: Vec<PathComponent> = Vec::new();
    let mut i: usize = 0;
    let mut first: bool = true;

    if len > 0 {
        let c0 = path.get_char(0);
        if c0 == '/' || c0 == '\\' {
            out.push(PathComponent::Absolute);
            i = 1;
            first = false;
            proof {
                lemma_comp_views_push(Seq::empty(), PathComponent::Absolute);
                assert(comp_views(out@) =~= seq![PathComp::Absolute]);
            }
        } else if len >= 2 {
            let c1 = path.get_char(1);
            if ((65 <= c0 as u32 && c0 as u32 <= 90) || (97 <= c0 as u32 && c0 as u32 <= 122))
                && c1 == ':' {
                out.push(PathComponent::Absolute);
                i = 2;
                first = false;
                proof {
                    lemma_comp_views_push(Seq::empty(), PathComponent::Absolute);
                    assert(comp_views(out@) =~= seq![PathComp::Absolute]);
                }
            }
        }
    }
    proof {
        assert(spec_parse(path@) =~= comp_views(out@) + parse_from(path@, i as int, first));
    }

    while i < len
        invariant
            len == path@.len(),
            i <= len,
            spec_parse(path@) == comp_views(out@) + parse_from(path@, i as int, first),
        decreases len - i,
    {
        let c = path.get_char(i);
        if c == '/' || c == '\\' {
            proof {
                assert(parse_from(path@, i as int, first) == parse_from(path@, i + 1, first));
            }
            i = i + 1;
        } else {
            // find the end of the segment that starts at i
            let mut j: usize = i + 1;
            loop
                invariant_except_break
                    len == path@.len(),
                    i < j <= len,
                    forall|k: int| i <= k < j ==> !is_sep(path@[k]),
                ensures
                    i < j <= len,
                    len == path@.len(),
                    forall|k: int| i <= k < j ==> !is_sep(path@[k]),
                    j == len || is_sep(path@[j as int]),
                decreases len - j,
            {
                if j == len {
                    break;
                }
                let cj = path.get_char(j);
                if cj == '/' || cj == '\\' {
                    break;
                }
                j = j + 1;
            }
            proof {
                lemma_seg_end_characterization(path@, i as int, j as int);
            }
            let ghost seg = path@.subrange(i as int, j as int);
            let ghost prev = out@;

            if j - i == 1 && path.get_char(i) == '.' {
                proof {
                    assert(seg =~= seq!['.']);
                }
                if first {
                    out.push(PathComponent::CurrentDir);
                    proof {
                        lemma_comp_views_push(prev, PathComponent::CurrentDir);
                    }
                }
            } else if j - i == 2 && path.get_char(i) == '.' && path.get_char(i + 1) == '.' {
                proof {
                    assert(seg =~= seq!['.', '.']);
                }
                out.push(PathComponent::ParentDir);
                proof {
                    lemma_comp_views_push(prev, PathComponent::ParentDir);
                }
            } else {
                proof {
                    assert(!(seg == seq!['.']) && !(seg == seq!['.', '.'])) by {
                        if seg == seq!['.'] {
                            assert(seg.len() == 1 && seg[0] == '.');
                        }
                        if seg == seq!['.', '.'] {
                            assert(seg.len() == 2 && seg[0] == '.' && seg[1] == '.');
                        }
                    }
                }
                let name = path.substring_char(i, j).to_owned();
                out.push(PathComponent::Named(name));
                proof {
                    lemma_comp_views_push(prev, PathComponent::Named(name));
                }
            }
            proof {
                assert(comp_views(out@) + parse_from(path@, j as int, false) =~= comp_views(prev)
                    + parse_from(path@, i as int, first));
            }
            first = false;
            i = j;
        }
    }
    proof {
        assert(parse_from(path@, i as int, first) =~= Seq::<PathComp>::empty());
        assert(spec_parse(path@) =~= comp_views(out@));
    }
    out
}

} // verus!
