//! Text-level rules of the pipeline: which summary lines mark a post, how
//! the title is derived from a marked summary, and how a commit body is
//! split into paragraphs on blank lines.

use vstd::prelude::*;
use vstd::string::StrSliceExecFns;

verus! {

/// The literal prefix that designates a commit as publishable content.
pub open spec fn marker() -> Seq<char> {
    "POST: "@
}

/// True when a summary line designates a post: it is at least as long as
/// the marker and begins with it.
pub open spec fn is_post_summary(s: Seq<char>) -> bool {
    s.len() >= marker().len() && s.subrange(0, marker().len() as int) == marker()
}

/// The title of a post: its summary with the marker prefix removed.
pub open spec fn spec_title(s: Seq<char>) -> Seq<char> {
    s.skip(marker().len() as int)
}

/// Whether a paragraph separator (two consecutive newlines) starts at
/// position `i` of `s`.
pub open spec fn is_sep_at(s: Seq<char>, i: int) -> bool {
    0 <= i && i + 2 <= s.len() && s[i] == '\n' && s[i + 1] == '\n'
}

/// The position of the first paragraph separator at or after `i`, or
/// `s.len()` when there is none.
pub open spec fn find_sep_from(s: Seq<char>, i: int) -> int
    recommends
        0 <= i <= s.len(),
    decreases s.len() - i,
    when 0 <= i <= s.len()
{
    if i + 2 > s.len() {
        s.len() as int
    } else if s[i] == '\n' && s[i + 1] == '\n' {
        i
    } else {
        find_sep_from(s, i + 1)
    }
}

/// The segments of `s` between paragraph separators, in order, empty
/// segments included.  This matches splitting on the leftmost separator
/// first: the segment before the first separator, then the split of what
/// follows it.
pub open spec fn spec_split(s: Seq<char>) -> Seq<Seq<char>>
    decreases s.len(),
{
    let p = find_sep_from(s, 0);
    if 0 <= p && p + 2 <= s.len() {
        seq![s.take(p)] + spec_split(s.skip(p + 2))
    } else {
        seq![s]
    }
}

/// The subsequence of the non-empty segments of `segs`, in order.
pub open spec fn drop_empty(segs: Seq<Seq<char>>) -> Seq<Seq<char>>
    decreases segs.len(),
{
    if segs.len() == 0 {
        Seq::<Seq<char>>::empty()
    } else if segs.last().len() == 0 {
        drop_empty(segs.drop_last())
    } else {
        drop_empty(segs.drop_last()).push(segs.last())
    }
}

/// The paragraphs of a body: its segments between blank-line separators,
/// with empty segments dropped.
pub open spec fn spec_paragraphs(s: Seq<char>) -> Seq<Seq<char>> {
    drop_empty(spec_split(s))
}

/// `find_sep_from` returns the first separator position: if a separator
/// stands at `p` and none stands in `[i, p)`, the search from `i` finds `p`.
proof fn lemma_find_sep_at(s: Seq<char>, i: int, p: int)
    requires
        0 <= i <= p,
        is_sep_at(s, p),
        forall|j: int| i <= j < p ==> !is_sep_at(s, j),
    ensures
        find_sep_from(s, i) == p,
    decreases p - i,
{
    if i < p {
        assert(!is_sep_at(s, i));
        lemma_find_sep_at(s, i + 1, p);
    }
}

/// When no separator stands at or after `i`, the search from `i` reports
/// none (that is, `s.len()`).
proof fn lemma_find_sep_none(s: Seq<char>, i: int)
    requires
        0 <= i <= s.len(),
        forall|j: int| i <= j ==> !is_sep_at(s, j),
    ensures
        find_sep_from(s, i) == s.len(),
    decreases s.len() - i,
{
    if i + 2 <= s.len() {
        assert(!is_sep_at(s, i));
        lemma_find_sep_none(s, i + 1);
    }
}

/// Dropping empty segments distributes over concatenation.
proof fn lemma_drop_empty_add(a: Seq<Seq<char>>, b: Seq<Seq<char>>)
    ensures
        drop_empty(a + b) == drop_empty(a) + drop_empty(b),
    decreases b.len(),
{
    if b.len() == 0 {
        assert(a + b =~= a);
        assert(drop_empty(a) + drop_empty(b) =~= drop_empty(a));
    } else {
        lemma_drop_empty_add(a, b.drop_last());
        assert((a + b).drop_last() =~= a + b.drop_last());
        assert((a + b).last() == b.last());
        if b.last().len() == 0 {
            assert(drop_empty(a) + drop_empty(b) =~= drop_empty(a) + drop_empty(b.drop_last()));
        } else {
            assert(drop_empty(a) + drop_empty(b) =~= (drop_empty(a) + drop_empty(
                b.drop_last(),
            )).push(b.last()));
        }
    }
}

/// Dropping empty segments from a one-element sequence keeps the element
/// exactly when it is non-empty.
proof fn lemma_drop_empty_singleton(x: Seq<char>)
    ensures
        drop_empty(seq![x]) == if x.len() != 0 {
            seq![x]
        } else {
            Seq::<Seq<char>>::empty()
        },
{
    assert(drop_empty(Seq::<Seq<char>>::empty()) == Seq::<Seq<char>>::empty());
    assert(seq![x].drop_last() =~= Seq::<Seq<char>>::empty());
    assert(seq![x].last() == x);
    if x.len() != 0 {
        assert(drop_empty(seq![x]) =~= seq![x]);
    }
}

/// No empty paragraph is ever emitted: every element of
/// `spec_paragraphs(s)` is a non-empty segment.
pub proof fn lemma_no_empty_paragraphs(s: Seq<char>, i: int)
    requires
        0 <= i < spec_paragraphs(s).len(),
    ensures
        spec_paragraphs(s)[i].len() != 0,
{
    lemma_drop_empty_all_nonempty(spec_split(s), i);
}

/// Every element that `drop_empty` keeps is non-empty.
proof fn lemma_drop_empty_all_nonempty(segs: Seq<Seq<char>>, i: int)
    requires
        0 <= i < drop_empty(segs).len(),
    ensures
        drop_empty(segs)[i].len() != 0,
    decreases segs.len(),
{
    if segs.len() > 0 {
        if segs.last().len() == 0 {
            lemma_drop_empty_all_nonempty(segs.drop_last(), i);
        } else {
            if i < drop_empty(segs.drop_last()).len() {
                lemma_drop_empty_all_nonempty(segs.drop_last(), i);
            }
        }
    }
}

/// Whether the summary line begins with the marker `"POST: "`.
pub fn starts_with_marker(s: &str) -> (r: bool)
    ensures
        r == is_post_summary(s@),
{
    proof {
        reveal_strlit("POST: ");
    }
    let n = s.unicode_len();
    if n < 6 {
        return false;
    }
    let r = s.get_char(0) == 'P' && s.get_char(1) == 'O' && s.get_char(2) == 'S' && s.get_char(3)
        == 'T' && s.get_char(4) == ':' && s.get_char(5) == ' ';
    proof {
        assert(marker() =~= seq!['P', 'O', 'S', 'T', ':', ' ']);
        if r {
            assert(s@.subrange(0, 6) =~= marker());
        }
        if is_post_summary(s@) {
            assert(forall|k: int| 0 <= k < 6 ==> s@[k] == #[trigger] s@.subrange(0, 6)[k]);
            assert(s@[0] == 'P' && s@[1] == 'O' && s@[2] == 'S' && s@[3] == 'T' && s@[4] == ':'
                && s@[5] == ' ');
        }
    }
    r
}

/// Splits a body into paragraphs on blank-line separators (two consecutive
/// newlines), dropping the empty segments that runs of blank lines leave.
pub fn split_paragraphs(body: &str) -> (r: Vec<String>)
    ensures
        r.deep_view() == spec_paragraphs(body@),
{
    let n = body.unicode_len();
    let mut r: Vec<String> = Vec::new();
    let mut seg_start: usize = 0;
    let mut i: usize = 0;
    proof {
        assert(body@.skip(0) =~= body@);
    }
    while i < n
        invariant
            n == body@.len(),
            seg_start <= i <= n,
            forall|j: int| seg_start <= j < i ==> !is_sep_at(body@, j),
            r.deep_view() + spec_paragraphs(body@.skip(seg_start as int)) == spec_paragraphs(
                body@,
            ),
        decreases n - i,
    {
        let sep = body.get_char(i) == '\n' && i + 1 < n && body.get_char(i + 1) == '\n';
        if sep {
            let ghost suffix = body@.skip(seg_start as int);
            let ghost p: int = i as int - seg_start as int;
            let ghost head = suffix.take(p);
            let ghost rest = spec_split(suffix.skip(p + 2));
            proof {
                assert(suffix[p] == body@[i as int]);
                assert(suffix[p + 1] == body@[i as int + 1]);
                assert(is_sep_at(suffix, p));
                assert forall|j: int| 0 <= j < p implies !is_sep_at(suffix, j) by {
                    if is_sep_at(suffix, j) {
                        assert(suffix[j] == body@[seg_start + j]);
                        assert(suffix[j + 1] == body@[seg_start + j + 1]);
                        assert(is_sep_at(body@, seg_start + j));
                    }
                }
                lemma_find_sep_at(suffix, 0, p);
                assert(spec_split(suffix) == seq![head] + rest);
                lemma_drop_empty_add(seq![head], rest);
                lemma_drop_empty_singleton(head);
                assert(suffix.skip(p + 2) =~= body@.skip(i as int + 2));
                assert(head =~= body@.subrange(seg_start as int, i as int));
            }
            let ghost r0 = r.deep_view();
            if seg_start < i {
                let seg = body.substring_char(seg_start, i);
                r.push(seg.to_owned());
                proof {
                    assert(r.deep_view() =~= r0.push(head));
                    assert(r.deep_view() + drop_empty(rest) =~= r0 + drop_empty(
                        seq![head] + rest,
                    ));
                }
            } else {
                proof {
                    assert(head.len() == 0);
                    assert(r.deep_view() + drop_empty(rest) =~= r0 + drop_empty(
                        seq![head] + rest,
                    ));
                }
            }
            i = i + 2;
            seg_start = i;
        } else {
            proof {
                assert(!is_sep_at(body@, i as int));
            }
            i = i + 1;
        }
    }
    let ghost suffix = body@.skip(seg_start as int);
    proof {
        assert forall|j: int| 0 <= j implies !is_sep_at(suffix, j) by {
            if is_sep_at(suffix, j) {
                assert(suffix[j] == body@[seg_start + j]);
                assert(suffix[j + 1] == body@[seg_start + j + 1]);
                assert(is_sep_at(body@, seg_start + j));
            }
        }
        lemma_find_sep_none(suffix, 0);
        assert(spec_split(suffix) == seq![suffix]);
        lemma_drop_empty_singleton(suffix);
    }
    let ghost r0 = r.deep_view();
    if seg_start < n {
        let seg = body.substring_char(seg_start, n);
        r.push(seg.to_owned());
        proof {
            assert(suffix =~= body@.subrange(seg_start as int, n as int));
            assert(r.deep_view() =~= r0.push(suffix));
            assert(r.deep_view() =~= r0 + spec_paragraphs(suffix));
        }
    } else {
        proof {
            assert(suffix.len() == 0);
            assert(r.deep_view() =~= r0 + spec_paragraphs(suffix));
        }
    }
    proof {
        assert(r.deep_view() =~= spec_paragraphs(body@));
    }
    r
}

/// The title of a marked summary: the summary with `"POST: "` stripped.
pub fn title_of(s: &str) -> (r: String)
    requires
        is_post_summary(s@),
    ensures
        r@ == spec_title(s@),
{
    proof {
        reveal_strlit("POST: ");
    }
    let n = s.unicode_len();
    let t = s.substring_char(6, n);
    proof {
        assert(t@ =~= spec_title(s@));
    }
    t.to_owned()
}

} // verus!
