//! The file name at the end of a path.

use vstd::prelude::*;

verus! {

/// Where the last segment of `path` begins: after its last `/`, or at 0.
pub open spec fn segment_start(path: Seq<char>) -> int
    decreases path.len(),
{
    if path.len() == 0 || path.last() == '/' {
        path.len() as int
    } else {
        segment_start(path.drop_last())
    }
}

/// The final component of `path`, with `/` as the separator.
///
/// Separators at the end and `.` components are passed over. There is no
/// file name where nothing is left, or where the final component is `..`.
pub open spec fn file_name_of(path: Seq<char>) -> Option<Seq<char>>
    decreases path.len(),
{
    if path.len() == 0 {
        None
    } else if path.last() == '/' {
        file_name_of(path.drop_last())
    } else {
        let segment = path.subrange(segment_start(path), path.len() as int);
        if segment == seq!['.'] {
            if path.len() == 1 {
                None
            } else {
                file_name_of(path.drop_last())
            }
        } else if segment == seq!['.', '.'] {
            None
        } else {
            Some(segment)
        }
    }
}

/// A run without `/` that a `/` or the start of the path precedes is the last
/// segment.
proof fn lemma_segment_start(path: Seq<char>, start: int)
    requires
        0 <= start <= path.len(),
        start == 0 || path[start - 1] == '/',
        forall|j: int| start <= j < path.len() ==> path[j] != '/',
    ensures
        segment_start(path) == start,
    decreases path.len() - start,
{
    if start < path.len() {
        let shorter = path.drop_last();
        assert(path.last() == path[path.len() - 1]);
        assert forall|j: int| start <= j < shorter.len() implies shorter[j] != '/' by {
            assert(shorter[j] == path[j]);
        }
        if start > 0 {
            assert(shorter[start - 1] == path[start - 1]);
        }
        lemma_segment_start(shorter, start);
    } else if start > 0 {
        assert(path.last() == path[start - 1]);
    }
}

/// The file name at the end of `path`, if it has one.
pub fn file_name<'a>(path: &'a str) -> (name: Option<&'a str>)
    ensures
        match name {
            Some(n) => file_name_of(path@) == Some(n@),
            None => file_name_of(path@) is None,
        },
{
    let mut end: usize = path.unicode_len();
    assert(path@.take(end as int) =~= path@);
    while end > 0
        invariant
            end <= path@.len(),
            file_name_of(path@) == file_name_of(path@.take(end as int)),
        decreases end,
    {
        let ghost head = path@.take(end as int);
        assert(head.last() == path@[end - 1]);
        assert(head.drop_last() =~= path@.take(end - 1));
        if path.get_char(end - 1) == '/' {
            end = end - 1;
        } else {
            let mut start: usize = end - 1;
            while start > 0 && path.get_char(start - 1) != '/'
                invariant
                    start < end <= path@.len(),
                    forall|j: int| start <= j < end ==> path@[j] != '/',
                decreases start,
            {
                start = start - 1;
            }
            proof {
                assert forall|j: int| start <= j < head.len() implies head[j] != '/' by {
                    assert(head[j] == path@[j]);
                }
                if start > 0 {
                    assert(head[start - 1] == path@[start - 1]);
                }
                lemma_segment_start(head, start as int);
                assert(head.subrange(start as int, end as int) =~= path@.subrange(
                    start as int,
                    end as int,
                ));
            }
            let ghost segment = path@.subrange(start as int, end as int);
            if end - start == 1 && path.get_char(start) == '.' {
                assert(segment =~= seq!['.']);
                if end == 1 {
                    return None;
                }
                end = end - 1;
            } else if end - start == 2 && path.get_char(start) == '.' && path.get_char(start + 1)
                == '.' {
                assert(segment =~= seq!['.', '.']);
                return None;
            } else {
                proof {
                    if segment == seq!['.'] {
                        assert(segment[0] == '.');
                    }
                    if segment == seq!['.', '.'] {
                        assert(segment[0] == '.' && segment[1] == '.');
                    }
                }
                return Some(path.substring_char(start, end));
            }
        }
    }
    None
}

} // verus!
