//! Relative paths inside a Bundle or a distribution.
use vstd::prelude::*;
use vstd::string::*;

use crate::text;

verus! {

/// A segment of a path stands at these positions: between two slashes, or before the first or behind
/// the last.
pub open spec fn segment_at(s: Seq<char>, start: int, end: int) -> bool {
    &&& 0 <= start <= end <= s.len()
    &&& start == 0 || s[start - 1] == '/'
    &&& end == s.len() || s[end] == '/'
    &&& forall|i: int| start <= i < end ==> #[trigger] s[i] != '/'
}

/// The path leads down from where it starts: it is not absolute, it does not start at the current
/// directory, and no segment leads up. Further empty segments and segments `.` stand for nothing.
pub open spec fn leads_down(s: Seq<char>) -> bool {
    &&& s.len() > 0
    &&& s[0] != '/'
    &&& forall|start: int, end: int| #[trigger]
        segment_at(s, start, end) ==> s.subrange(start, end) != ".."@ && !(start == 0 && s.subrange(start, end) == "."@)
}

/// The path has no platform-specific separator.
pub open spec fn portable(s: Seq<char>) -> bool {
    s.len() > 0 && !s.contains('\\')
}

/// Decides whether a text has characters and no backslash.
pub fn is_portable(s: &str) -> (r: bool)
    ensures
        r == portable(s@),
{
    let chars = text::chars_of(s);
    if chars.len() == 0 {
        return false;
    }
    let mut i: usize = 0;
    while i < chars.len()
        invariant
            i <= chars.len(),
            chars@ == s@,
            forall|k: int| 0 <= k < i ==> #[trigger] s@[k] != '\\',
        decreases chars.len() - i,
    {
        if chars[i] == '\\' {
            assert(s@[i as int] == '\\');
            return false;
        }
        i = i + 1;
    }
    true
}

/// Decides whether a path leads down from where it starts.
pub fn is_leading_down(s: &str) -> (r: bool)
    ensures
        r == leads_down(s@),
{
    let chars = text::chars_of(s);
    if chars.len() == 0 || chars[0] == '/' {
        return false;
    }
    proof {
        reveal_strlit("..");
        reveal_strlit(".");
    }
    let mut start: usize = 0;
    loop
        invariant
            start <= chars.len(),
            chars@ == s@,
            chars.len() > 0,
            chars@[0] != '/',
            ".."@ == seq!['.', '.'],
            "."@ == seq!['.'],
            start == 0 || chars@[start - 1] == '/',
            forall|a: int, b: int|
                a < start && #[trigger] segment_at(s@, a, b) ==> s@.subrange(a, b) != ".."@ && !(a == 0 && s@.subrange(a, b) == "."@),
        decreases chars.len() - start,
    {
        let mut end: usize = start;
        while end < chars.len() && chars[end] != '/'
            invariant
                start <= end <= chars.len(),
                forall|i: int| start <= i < end ==> #[trigger] chars@[i] != '/',
            decreases chars.len() - end,
        {
            end = end + 1;
        }
        assert(segment_at(s@, start as int, end as int));
        let ghost part = s@.subrange(start as int, end as int);
        if end - start == 2 && chars[start] == '.' && chars[start + 1] == '.' {
            assert(part =~= ".."@);
            return false;
        }
        if start == 0 && end == 1 && chars[0] == '.' {
            assert(part =~= "."@);
            return false;
        }
        proof {
            assert(part != ".."@) by {
                if part == ".."@ {
                    assert(part.len() == seq!['.', '.'].len());
                    assert(part[0] == seq!['.', '.'][0] && part[1] == seq!['.', '.'][1]);
                    assert(part[0] == chars@[start as int] && part[1] == chars@[start + 1]);
                }
            }
            assert(!(start == 0 && part == "."@)) by {
                if part == "."@ {
                    assert(part.len() == seq!['.'].len());
                    assert(part[0] == seq!['.'][0] && part[0] == chars@[start as int]);
                }
            }
            assert forall|a: int, b: int| a <= end && #[trigger] segment_at(s@, a, b) implies s@.subrange(a, b) != ".."@ && !(a == 0
                && s@.subrange(a, b) == "."@) by {
                if a == start {
                    if b < end {
                        assert(s@[b] != '/');
                    } else if b > end {
                        assert(s@[end as int] != '/');
                    }
                } else if a > start {
                    assert(s@[a - 1] != '/');
                }
            }
        }
        if end == chars.len() {
            return true;
        }
        start = end + 1;
    }
}

/// The position of the last slash.
pub open spec fn last_slash(s: Seq<char>) -> Option<int>
    decreases s.len(),
{
    if s.len() == 0 {
        None
    } else if s.last() == '/' {
        Some(s.len() - 1)
    } else {
        last_slash(s.drop_last())
    }
}

/// The name that a path ends in: its last segment, or, where that is empty or `.`, the one before.
pub open spec fn last_name(s: Seq<char>) -> Seq<char>
    decreases s.len(),
{
    match last_slash(s) {
        Some(p) => if 0 <= p < s.len() && (s.skip(p + 1).len() == 0 || s.skip(p + 1) == "."@) {
            last_name(s.take(p))
        } else {
            s.skip(p + 1)
        },
        None => s,
    }
}

/// The name that a path ends in.
pub fn file_name(s: &str) -> (r: String)
    ensures
        r@ == last_name(s@),
{
    let chars = text::chars_of(s);
    proof {
        reveal_strlit(".");
    }
    let mut end: usize = chars.len();
    assert(s@.take(end as int) =~= s@);
    loop
        invariant
            end <= chars.len(),
            chars@ == s@,
            "."@ == seq!['.'],
            last_name(s@) == last_name(s@.take(end as int)),
        decreases end,
    {
        let ghost part = s@.take(end as int);
        let mut start: usize = end;
        assert(part.take(start as int) =~= part);
        while start > 0 && chars[start - 1] != '/'
            invariant
                start <= end <= chars.len(),
                chars@ == s@,
                part == s@.take(end as int),
                last_slash(part) == last_slash(part.take(start as int)),
                forall|i: int| start <= i < end ==> #[trigger] chars@[i] != '/',
            decreases start,
        {
            proof {
                assert(part.take(start as int).drop_last() =~= part.take(start - 1));
                assert(part.take(start as int).last() == chars@[start - 1]);
            }
            start = start - 1;
        }
        proof {
            if start > 0 {
                assert(part.take(start as int).last() == '/');
                assert(last_slash(part) == Some(start - 1));
                assert(part.skip(start as int) =~= s@.subrange(start as int, end as int));
            } else {
                assert(last_slash(part) is None);
                assert(part =~= s@.subrange(0, end as int));
            }
        }
        let stands_for_nothing: bool = start == end || (end - start == 1 && chars[start] == '.');
        if start > 0 && stands_for_nothing {
            proof {
                if start < end {
                    assert(part.skip(start as int) =~= "."@);
                }
                assert(part.take(start - 1) =~= s@.take(start - 1));
            }
            end = start - 1;
        } else {
            proof {
                if start > 0 {
                    assert(part.skip(start as int) != "."@) by {
                        if part.skip(start as int) == "."@ {
                            assert(part.skip(start as int).len() == seq!['.'].len());
                            assert(part.skip(start as int)[0] == seq!['.'][0]);
                        }
                    }
                }
            }
            return s.substring_char(start, end).to_owned();
        }
    }
}

/// A path that leads down stays below where it starts: it is not empty, not absolute, and neither is nor
/// has a segment that leads up. A plain name leads down.
pub proof fn a_path_that_leads_down_stays_below(s: Seq<char>, p: int)
    ensures
        leads_down(s) ==> s.len() > 0 && s[0] != '/',
        leads_down(s) && 0 <= p && p + 1 < s.len() && s[p] == '.' && s[p + 1] == '.' && (p == 0 || s[p - 1] == '/') ==> p + 2 < s.len() && s[p + 2]
            != '/',
        s.len() > 0 && (forall|i: int| 0 <= i < s.len() ==> #[trigger] s[i] != '/') && s != seq!['.'] && s != seq!['.', '.'] ==> leads_down(s),
{
    reveal_strlit("..");
    reveal_strlit(".");
    assert(".."@ =~= seq!['.', '.']);
    assert("."@ =~= seq!['.']);
    if leads_down(s) && 0 <= p && p + 1 < s.len() && s[p] == '.' && s[p + 1] == '.' && (p == 0 || s[p - 1] == '/') {
        if p + 2 == s.len() || s[p + 2] == '/' {
            assert(segment_at(s, p, p + 2));
            assert(s.subrange(p, p + 2) =~= ".."@);
        }
    }
    if s.len() > 0 && (forall|i: int| 0 <= i < s.len() ==> #[trigger] s[i] != '/') && s != seq!['.'] && s != seq!['.', '.'] {
        assert forall|start: int, end: int| #[trigger] segment_at(s, start, end) implies s.subrange(start, end) != ".."@ && !(start == 0 && s.subrange(
            start,
            end,
        ) == "."@) by {
            if start > 0 {
                assert(s[start - 1] != '/');
            }
            if end < s.len() {
                assert(s[end] != '/');
            }
            assert(s.subrange(0, s.len() as int) =~= s);
        }
    }
}

proof fn lemma_last_slash(s: Seq<char>, p: int)
    requires
        0 <= p < s.len(),
        s[p] == '/',
        forall|i: int| p < i < s.len() ==> #[trigger] s[i] != '/',
    ensures
        last_slash(s) == Some(p),
    decreases s.len(),
{
    if s.len() - 1 > p {
        assert(s[s.len() - 1] != '/');
        lemma_last_slash(s.drop_last(), p);
    }
}

proof fn lemma_no_slash(s: Seq<char>)
    requires
        forall|i: int| 0 <= i < s.len() ==> #[trigger] s[i] != '/',
    ensures
        last_slash(s) is None,
    decreases s.len(),
{
    if s.len() > 0 {
        assert(s[s.len() - 1] != '/');
        lemma_no_slash(s.drop_last());
    }
}

/// The name that a path ends in is what stands behind its last slash, whatever stands before; a name by
/// itself is its own. A slash at the end does not change it.
pub proof fn a_path_ends_in_its_name(directory: Seq<char>, name: Seq<char>)
    requires
        name.len() > 0,
        name != seq!['.'],
        forall|i: int| 0 <= i < name.len() ==> #[trigger] name[i] != '/',
    ensures
        last_name(name) == name,
        last_name(directory + seq!['/'] + name) == name,
        last_name(directory + seq!['/'] + name + seq!['/']) == name,
{
    reveal_strlit(".");
    assert("."@ =~= seq!['.']);
    lemma_no_slash(name);
    let path = directory + seq!['/'] + name;
    let p = directory.len() as int;
    assert forall|i: int| p < i < path.len() implies #[trigger] path[i] != '/' by {
        assert(path[i] == name[i - p - 1]);
    }
    lemma_last_slash(path, p);
    assert(path.skip(p + 1) =~= name);
    let ended = path + seq!['/'];
    lemma_last_slash(ended, path.len() as int);
    assert(ended.skip(path.len() as int + 1) =~= Seq::empty());
    assert(ended.take(path.len() as int) =~= path);
}

} // verus!
