//! The path safety predicate that gates every declared and requested path.
//!
//! A path is safe when it decomposes purely into normal relative segments:
//! no empty, current-directory, parent-directory, root or drive-like
//! segments.  Every component gates on this check before any archive or
//! storage lookup happens.

use vstd::prelude::*;

use crate::chars::{split_on, split_chars, str_to_chars};

verus! {

/// A single path segment is a normal name: non-empty, not `.`, not `..`,
/// and free of the separator and drive characters `\` and `:`.
pub open spec fn seg_is_normal(seg: Seq<char>) -> bool {
    &&& seg.len() > 0
    &&& !(seg.len() == 1 && seg[0] == '.')
    &&& !(seg.len() == 2 && seg[0] == '.' && seg[1] == '.')
    &&& forall|i: int| 0 <= i < seg.len() ==> #[trigger] seg[i] != '\\' && seg[i] != ':'
}

/// A relative path is safe when it is non-empty and every `/`-separated
/// segment is a normal name.  In particular a leading or trailing `/`, a
/// doubled `//`, and any `.` or `..` segment make a path unsafe.
pub open spec fn safe_path(s: Seq<char>) -> bool {
    &&& s.len() > 0
    &&& forall|k: int|
        0 <= k < split_on(s, '/').len() ==> seg_is_normal(#[trigger] split_on(s, '/')[k])
}

/// Check one segment for being a normal name.
fn check_segment(seg: &Vec<char>) -> (r: bool)
    ensures
        r == seg_is_normal(seg@),
{
    if seg.len() == 0 {
        return false;
    }
    if seg.len() == 1 && seg[0] == '.' {
        return false;
    }
    if seg.len() == 2 && seg[0] == '.' && seg[1] == '.' {
        return false;
    }
    let mut i: usize = 0;
    while i < seg.len()
        invariant
            i <= seg@.len(),
            forall|k: int| 0 <= k < i ==> #[trigger] seg@[k] != '\\' && seg@[k] != ':',
        decreases seg@.len() - i,
    {
        let c = seg[i];
        if c == '\\' || c == ':' {
            return false;
        }
        i = i + 1;
    }
    true
}

/// Whether `name` is a traversal-free relative path, fit to address an
/// archive entry.  Evaluated before any storage access is attempted.
pub fn is_safe_path(name: &str) -> (r: bool)
    ensures
        r == safe_path(name@),
{
    let chars = str_to_chars(name);
    if chars.len() == 0 {
        return false;
    }
    let segs = split_chars(&chars, '/');
    let mut k: usize = 0;
    while k < segs.len()
        invariant
            k <= segs@.len(),
            segs.deep_view() == split_on(name@, '/'),
            forall|j: int| 0 <= j < k ==> seg_is_normal(#[trigger] segs.deep_view()[j]),
        decreases segs@.len() - k,
    {
        proof {
            assert(segs.deep_view()[k as int] == segs@[k as int].deep_view());
            assert(segs@[k as int].deep_view() =~= segs@[k as int]@);
        }
        let ok = check_segment(&segs[k]);
        if !ok {
            assert(!seg_is_normal(segs.deep_view()[k as int]));
            return false;
        }
        assert(seg_is_normal(segs.deep_view()[k as int]));
        k = k + 1;
    }
    true
}

} // verus!
