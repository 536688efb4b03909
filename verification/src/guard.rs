//! Confinement of repository names.
//!
//! A request names a repository by a relative path under a fixed repository
//! root. Before that name is joined onto the root it must be checked: a name
//! holding a parent-directory segment, or starting with `/`, could make the
//! joined path resolve outside the root. The guard here decides exactly that,
//! and the lemmas at the end show that an accepted name can never escape:
//! resolving its segments never ascends above the directory it starts in.

use vstd::prelude::*;

verus! {

/// A parent-directory segment `..` stands at positions `i..i + 2` of `s`,
/// bounded on each side by the string's end or by a `/` separator.
pub open spec fn dotdot_segment_at(s: Seq<char>, i: int) -> bool {
    &&& 0 <= i
    &&& i + 2 <= s.len()
    &&& s[i] == '.'
    &&& s[i + 1] == '.'
    &&& i == 0 || s[i - 1] == '/'
    &&& i + 2 == s.len() || s[i + 2] == '/'
}

/// The string holds a parent-directory segment somewhere.
pub open spec fn has_traversal_segment(s: Seq<char>) -> bool {
    exists|i: int| dotdot_segment_at(s, i)
}

/// A repository name is confined when it is non-empty, relative (it does not
/// start with `/`, so it cannot override the root), and free of
/// parent-directory segments.
pub open spec fn repo_confined(s: Seq<char>) -> bool {
    &&& s.len() > 0
    &&& s[0] != '/'
    &&& !has_traversal_segment(s)
}

/// Decides confinement of a repository name, exactly as `repo_confined`
/// states it.
pub fn repo_name_is_confined(repo: &str) -> (b: bool)
    ensures
        b == repo_confined(repo@),
{
    let n = repo.unicode_len();
    if n == 0 {
        return false;
    }
    if repo.get_char(0) == '/' {
        return false;
    }
    let mut i: usize = 0;
    while i < n
        invariant
            n == repo@.len(),
            i <= n,
            forall|j: int| j < i ==> !(#[trigger] dotdot_segment_at(repo@, j)),
        decreases n - i,
    {
        if i < n - 1 && repo.get_char(i) == '.' && repo.get_char(i + 1) == '.' {
            let left_bounded = i == 0 || repo.get_char(i - 1) == '/';
            let right_bounded = i == n - 2 || repo.get_char(i + 2) == '/';
            if left_bounded && right_bounded {
                assert(dotdot_segment_at(repo@, i as int));
                return false;
            }
        }
        i = i + 1;
    }
    assert(!has_traversal_segment(repo@)) by {
        if has_traversal_segment(repo@) {
            let j = choose|j: int| dotdot_segment_at(repo@, j);
            assert(j < n);
        }
    }
    true
}

/// Splits the rest of a path string into its `/`-separated segments; `cur`
/// carries the partial segment read so far.
pub open spec fn split_segments(s: Seq<char>, cur: Seq<char>) -> Seq<Seq<char>>
    decreases s.len(),
{
    if s.len() == 0 {
        seq![cur]
    } else if s[0] == '/' {
        seq![cur] + split_segments(s.skip(1), Seq::empty())
    } else {
        split_segments(s.skip(1), cur.push(s[0]))
    }
}

/// The `/`-separated segments of a path string.
pub open spec fn path_segments(s: Seq<char>) -> Seq<Seq<char>> {
    split_segments(s, Seq::empty())
}

/// Directory-depth change of one segment under path resolution: `..` ascends,
/// `.` and the empty segment stay in place, any other segment descends into
/// a child directory.
pub open spec fn segment_depth_change(seg: Seq<char>) -> int {
    if seg == ".."@ {
        -1
    } else if seg == "."@ || seg.len() == 0 {
        0
    } else {
        1
    }
}

/// Directory depth, relative to the starting directory, after resolving all
/// of `segs` in order.
pub open spec fn resolved_depth(segs: Seq<Seq<char>>) -> int
    decreases segs.len(),
{
    if segs.len() == 0 {
        0
    } else {
        resolved_depth(segs.drop_last()) + segment_depth_change(segs.last())
    }
}

/// Resolution escapes the starting directory when some prefix of the
/// segments already resolves to a negative depth.
pub open spec fn resolution_escapes(segs: Seq<Seq<char>>) -> bool {
    exists|k: int| 0 <= k <= segs.len() && resolved_depth(#[trigger] segs.take(k)) < 0
}

proof fn lemma_split_free_of_dotdot(s: Seq<char>, cur: Seq<char>)
    requires
        !has_traversal_segment(cur + s),
    ensures
        forall|k: int|
            0 <= k < split_segments(s, cur).len() ==> split_segments(s, cur)[k] != ".."@,
    decreases s.len(),
{
    reveal_strlit("..");
    if s.len() == 0 {
        assert forall|k: int|
            0 <= k < split_segments(s, cur).len() implies split_segments(s, cur)[k]
            != ".."@ by {
            if cur == ".."@ {
                assert((cur + s)[0] == '.' && (cur + s)[1] == '.');
                assert(dotdot_segment_at(cur + s, 0));
            }
        }
    } else if s[0] == '/' {
        let rest = s.skip(1);
        assert(Seq::<char>::empty() + rest =~= rest);
        assert(!has_traversal_segment(rest)) by {
            if has_traversal_segment(rest) {
                let j = choose|j: int| dotdot_segment_at(rest, j);
                assert((cur + s)[cur.len() as int + 1 + j] == rest[j]);
                assert((cur + s)[cur.len() as int + 1 + j + 1] == rest[j + 1]);
                assert(dotdot_segment_at(cur + s, cur.len() as int + 1 + j));
            }
        }
        lemma_split_free_of_dotdot(rest, Seq::empty());
        assert forall|k: int|
            0 <= k < split_segments(s, cur).len() implies split_segments(s, cur)[k]
            != ".."@ by {
            if k == 0 {
                if cur == ".."@ {
                    assert((cur + s)[0] == '.' && (cur + s)[1] == '.');
                    assert((cur + s)[2] == s[0]);
                    assert(dotdot_segment_at(cur + s, 0));
                }
            } else {
                assert(split_segments(s, cur)[k] == split_segments(rest, Seq::empty())[
                    k - 1
                ]);
            }
        }
    } else {
        assert(cur.push(s[0]) + s.skip(1) =~= cur + s);
        lemma_split_free_of_dotdot(s.skip(1), cur.push(s[0]));
        assert(split_segments(s, cur) == split_segments(s.skip(1), cur.push(s[0])));
    }
}

/// The segments of a string free of parent-directory segments are all
/// distinct from `..`.
pub proof fn lemma_no_traversal_segments(s: Seq<char>)
    requires
        !has_traversal_segment(s),
    ensures
        forall|k: int| 0 <= k < path_segments(s).len() ==> path_segments(s)[k] != ".."@,
{
    assert(Seq::<char>::empty() + s =~= s);
    lemma_split_free_of_dotdot(s, Seq::empty());
}

/// Resolving segments none of which is `..` never lowers the depth below
/// the starting directory.
pub proof fn lemma_depth_nonneg(segs: Seq<Seq<char>>)
    requires
        forall|k: int| 0 <= k < segs.len() ==> segs[k] != ".."@,
    ensures
        resolved_depth(segs) >= 0,
    decreases segs.len(),
{
    if segs.len() > 0 {
        lemma_depth_nonneg(segs.drop_last());
        assert(segs.last() != ".."@);
    }
}

/// Resolved depth adds across concatenation of segment lists.
pub proof fn lemma_depth_concat(a: Seq<Seq<char>>, b: Seq<Seq<char>>)
    ensures
        resolved_depth(a + b) == resolved_depth(a) + resolved_depth(b),
    decreases b.len(),
{
    if b.len() == 0 {
        assert(a + b =~= a);
    } else {
        assert((a + b).drop_last() =~= a + b.drop_last());
        assert((a + b).last() == b.last());
        lemma_depth_concat(a, b.drop_last());
    }
}

proof fn lemma_split_across_slash(s1: Seq<char>, s2: Seq<char>, cur: Seq<char>)
    ensures
        split_segments(s1 + "/"@ + s2, cur) == split_segments(s1, cur) + split_segments(
            s2,
            Seq::empty(),
        ),
    decreases s1.len(),
{
    reveal_strlit("/");
    if s1.len() == 0 {
        assert(s1 + "/"@ + s2 =~= seq!['/'] + s2);
        assert((seq!['/'] + s2)[0] == '/');
        assert((seq!['/'] + s2).skip(1) =~= s2);
        assert(split_segments(s1, cur) == seq![cur]);
    } else {
        assert((s1 + "/"@ + s2)[0] == s1[0]);
        assert((s1 + "/"@ + s2).skip(1) =~= s1.skip(1) + "/"@ + s2);
        if s1[0] == '/' {
            lemma_split_across_slash(s1.skip(1), s2, Seq::empty());
        } else {
            lemma_split_across_slash(s1.skip(1), s2, cur.push(s1[0]));
        }
    }
}

/// A `/` that joins two strings separates their segments: the segments of
/// `s1 + "/" + s2` are exactly the segments of `s1` followed by those of
/// `s2`.
pub proof fn lemma_path_segments_of_join(s1: Seq<char>, s2: Seq<char>)
    ensures
        path_segments(s1 + "/"@ + s2) == path_segments(s1) + path_segments(s2),
{
    lemma_split_across_slash(s1, s2, Seq::empty());
}

/// Confinement law: a repository name accepted by the guard is relative and
/// its resolution never ascends above the directory it starts in, so the
/// joined path `<root>/<name>` stays at or below the repository root.
pub proof fn lemma_confined_repo_never_escapes_root(repo: Seq<char>)
    requires
        repo_confined(repo),
    ensures
        repo.len() > 0,
        repo[0] != '/',
        forall|k: int| 0 <= k < path_segments(repo).len() ==> path_segments(repo)[k] != ".."@,
        !resolution_escapes(path_segments(repo)),
{
    lemma_no_traversal_segments(repo);
    let segs = path_segments(repo);
    assert(!resolution_escapes(segs)) by {
        if resolution_escapes(segs) {
            let k = choose|k: int| 0 <= k <= segs.len() && resolved_depth(#[trigger] segs.take(k)) < 0;
            assert(forall|m: int| 0 <= m < segs.take(k).len() ==> segs.take(k)[m] != ".."@);
            lemma_depth_nonneg(segs.take(k));
        }
    }
}

} // verus!
