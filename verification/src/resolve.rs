//! Resolution of a relative asset reference, as found inside one map-asset
//! file, into a project-relative path.
//!
//! The referencing file's path is split into directory segments and its file
//! name is dropped; each `..` segment of the reference then pops one
//! directory, any other segment is appended, and a segment containing a full
//! stop counts as the final file name and gets no trailing separator.  The
//! remaining directory stack, in order, is finally put ahead of the appended
//! segments.

use vstd::prelude::*;

verus! {

use crate::text::chars_of;
use crate::text::spec_contains_char;
use crate::text::string_from_chars;
use crate::text::subrange_chars;

use crate::text::extend_chars;
use crate::text::find_char_from;

// ---------------------------------------------------------------------------
// Splitting on a separator
// ---------------------------------------------------------------------------

/// The segments of `s` from position `i` on, split on `c`.  Splitting never
/// yields an empty list: a sequence without the separator is one segment.
pub open spec fn split_from(s: Seq<char>, i: int, c: char) -> Seq<Seq<char>>
    decreases s.len() - i,
{
    let k = find_char_from(s, i, c);
    if i < 0 || k < i || k >= s.len() {
        seq![s.subrange(i, s.len() as int)]
    } else {
        seq![s.subrange(i, k)] + split_from(s, k + 1, c)
    }
}

/// The segments of `s`, split on `c`.
pub open spec fn split_char(s: Seq<char>, c: char) -> Seq<Seq<char>> {
    split_from(s, 0, c)
}

/// The view of a segment list.
pub open spec fn segs_view(ss: Seq<Vec<char>>) -> Seq<Seq<char>> {
    ss.map_values(|x: Vec<char>| x@)
}

/// Splits the characters of `v` on the separator `c`.
pub fn split_chars(v: &Vec<char>, c: char) -> (r: Vec<Vec<char>>)
    ensures
        segs_view(r@) == split_char(v@, c),
{
    let ghost s = v@;
    let mut r: Vec<Vec<char>> = Vec::new();
    let mut i: usize = 0;
    loop
        invariant
            i <= s.len(),
            s == v@,
            split_char(s, c) == segs_view(r@) + split_from(s, i as int, c),
        decreases s.len() - i,
    {
        // scan to the next separator
        let mut k: usize = i;
        while k < v.len() && v[k] != c
            invariant
                i <= k <= s.len(),
                s == v@,
                find_char_from(s, i as int, c) == find_char_from(s, k as int, c),
            decreases s.len() - k,
        {
            k = k + 1;
        }
        proof {
            if k < s.len() {
                assert(find_char_from(s, k as int, c) == k);
            } else {
                assert(find_char_from(s, k as int, c) == s.len());
            }
        }
        let seg = subrange_chars(v, i, k);
        r.push(seg);
        proof {
            assert(segs_view(r@) =~= segs_view(r@.drop_last()) + seq![seg@]);
        }
        if k == v.len() {
            proof {
                assert(split_from(s, i as int, c) =~= seq![seg@]);
                assert(segs_view(r@.drop_last()) + seq![seg@] =~= segs_view(r@));
                assert(split_char(s, c) =~= segs_view(r@));
            }
            return r;
        }
        proof {
            assert(split_from(s, i as int, c) =~= seq![seg@] + split_from(s, k + 1, c));
            assert(segs_view(r@.drop_last()) + (seq![seg@] + split_from(s, k + 1, c)) =~= segs_view(
                r@,
            ) + split_from(s, k + 1, c));
        }
        i = k + 1;
    }
}

// ---------------------------------------------------------------------------
// The resolution algorithm
// ---------------------------------------------------------------------------

/// Applies the reference's segments to the directory stack: `..` pops a
/// directory, a segment with a full stop is appended as the file name, any
/// other segment is appended with a trailing separator.
pub open spec fn spec_apply_segs(
    stack: Seq<Seq<char>>,
    segs: Seq<Seq<char>>,
    tail: Seq<char>,
) -> (Seq<Seq<char>>, Seq<char>)
    decreases segs.len(),
{
    if segs.len() == 0 {
        (stack, tail)
    } else {
        let seg = segs[0];
        if seg == seq!['.', '.'] {
            let popped = if stack.len() > 0 {
                stack.drop_last()
            } else {
                stack
            };
            spec_apply_segs(popped, segs.skip(1), tail)
        } else if spec_contains_char(seg, '.') {
            spec_apply_segs(stack, segs.skip(1), tail + seg)
        } else {
            spec_apply_segs(stack, segs.skip(1), tail + seg + seq!['/'])
        }
    }
}

/// The remaining directories, each with a trailing separator, ahead of the
/// appended segments.
pub open spec fn spec_join_dirs(stack: Seq<Seq<char>>, tail: Seq<char>) -> Seq<char>
    decreases stack.len(),
{
    if stack.len() == 0 {
        tail
    } else {
        stack[0] + seq!['/'] + spec_join_dirs(stack.skip(1), tail)
    }
}

/// The project-relative path that the reference `reference` denotes when it
/// stands in the file at `local`.
pub open spec fn spec_resolve(reference: Seq<char>, local: Seq<char>) -> Seq<char> {
    let stack = split_char(local, '/').drop_last();
    let folded = spec_apply_segs(stack, split_char(reference, '/'), Seq::<char>::empty());
    spec_join_dirs(folded.0, folded.1)
}

/// Whether `seg` holds exactly the two characters of the parent-directory
/// marker.
fn is_parent_marker(seg: &Vec<char>) -> (r: bool)
    ensures
        r == (seg@ == seq!['.', '.']),
{
    if seg.len() == 2 && seg[0] == '.' && seg[1] == '.' {
        proof {
            assert(seg@ =~= seq!['.', '.']);
        }
        true
    } else {
        proof {
            assert(seg@ != seq!['.', '.']) by {
                if seg@.len() == 2 {
                    assert(seq!['.', '.'][0] == '.' && seq!['.', '.'][1] == '.');
                }
            }
        }
        false
    }
}

/// Resolves the relative reference `path`, found inside the file at
/// `local_path`, into a project-relative path.
pub fn local_path_to_project_path(path: &str, local_path: &str) -> (r: String)
    ensures
        r@ == spec_resolve(path@, local_path@),
{
    let local_chars = chars_of(local_path);
    let mut stack = split_chars(&local_chars, '/');
    // drop the file name
    stack.pop();
    let ghost stack0 = segs_view(stack@);
    proof {
        assert(stack0 =~= split_char(local_path@, '/').drop_last());
    }

    let path_chars = chars_of(path);
    let segs = split_chars(&path_chars, '/');
    let ghost segs0 = segs_view(segs@);

    let mut tail: Vec<char> = Vec::new();
    let mut j: usize = 0;
    proof {
        assert(segs0.skip(0) =~= segs0);
    }
    while j < segs.len()
        invariant
            j <= segs@.len(),
            segs0 == segs_view(segs@),
            spec_apply_segs(stack0, segs0, Seq::<char>::empty()) == spec_apply_segs(
                segs_view(stack@),
                segs0.skip(j as int),
                tail@,
            ),
        decreases segs@.len() - j,
    {
        let seg = &segs[j];
        proof {
            assert(segs0[j as int] == seg@);
            assert(segs0.skip(j as int)[0] == segs0[j as int]);
            assert(segs0.skip(j as int).skip(1) =~= segs0.skip(j + 1));
        }
        let ghost tail_before = tail@;
        if is_parent_marker(seg) {
            let ghost before = segs_view(stack@);
            if stack.len() > 0 {
                stack.pop();
            }
            proof {
                if before.len() > 0 {
                    assert(segs_view(stack@) =~= before.drop_last());
                }
            }
        } else if crate::text::chars_contain(seg, '.') {
            extend_chars(&mut tail, seg);
        } else {
            extend_chars(&mut tail, seg);
            tail.push('/');
            proof {
                assert(tail@ =~= tail_before + segs0[j as int] + seq!['/']);
            }
        }
        j = j + 1;
    }
    proof {
        assert(segs0.skip(segs0.len() as int).len() == 0);
    }

    // put the remaining directories ahead of the appended segments
    let mut out: Vec<char> = Vec::new();
    let ghost stack1 = segs_view(stack@);
    let mut d: usize = 0;
    proof {
        assert(stack1.skip(0) =~= stack1);
        assert(out@ + spec_join_dirs(stack1, tail@) =~= spec_join_dirs(stack1, tail@));
    }
    while d < stack.len()
        invariant
            d <= stack@.len(),
            stack1 == segs_view(stack@),
            spec_join_dirs(stack1, tail@) == out@ + spec_join_dirs(
                stack1.skip(d as int),
                tail@,
            ),
        decreases stack@.len() - d,
    {
        proof {
            assert(stack1.skip(d as int)[0] == stack1[d as int]);
            assert(stack1[d as int] == stack@[d as int]@);
            assert(stack1.skip(d as int).skip(1) =~= stack1.skip(d + 1));
        }
        let ghost out_before = out@;
        extend_chars(&mut out, &stack[d]);
        out.push('/');
        proof {
            assert(out@ =~= out_before + stack1[d as int] + seq!['/']);
            assert(out_before + stack1[d as int] + seq!['/'] + spec_join_dirs(
                stack1.skip(d + 1),
                tail@,
            ) =~= out_before + (stack1[d as int] + seq!['/'] + spec_join_dirs(
                stack1.skip(d + 1),
                tail@,
            )));
        }
        d = d + 1;
    }
    let ghost out_done = out@;
    extend_chars(&mut out, &tail);
    proof {
        assert(stack1.skip(stack1.len() as int).len() == 0);
        assert(spec_join_dirs(stack1.skip(stack1.len() as int), tail@) == tail@);
        assert(out@ =~= spec_resolve(path@, local_path@));
    }
    string_from_chars(&out)
}

} // verus!
