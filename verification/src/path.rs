//! Path segments of a request: each segment handed to the request builder
//! loses its leading and trailing slashes and is then cut at every inner
//! slash into the pieces that the URL receives.
use vstd::prelude::*;

verus! {

/// The views of a sequence of strings.
pub open spec fn string_views(v: Seq<String>) -> Seq<Seq<char>> {
    v.map_values(|s: String| s@)
}

/// `s` without its leading slashes.
pub open spec fn without_leading_slashes(s: Seq<char>) -> Seq<char>
    decreases s.len(),
{
    if s.len() > 0 && s[0] == '/' {
        without_leading_slashes(s.drop_first())
    } else {
        s
    }
}

/// `s` without its trailing slashes.
pub open spec fn without_trailing_slashes(s: Seq<char>) -> Seq<char>
    decreases s.len(),
{
    if s.len() > 0 && s.last() == '/' {
        without_trailing_slashes(s.drop_last())
    } else {
        s
    }
}

/// `s` with every leading and every trailing slash removed.
pub open spec fn trimmed(s: Seq<char>) -> Seq<char> {
    without_trailing_slashes(without_leading_slashes(s))
}

/// The pieces of `s` between its slashes, in order: `n` slashes give
/// `n + 1` pieces, some of which may be empty.
pub open spec fn split_at_slashes(s: Seq<char>) -> Seq<Seq<char>>
    decreases s.len(),
{
    if s.len() == 0 {
        seq![Seq::<char>::empty()]
    } else {
        let before = split_at_slashes(s.drop_last());
        if s.last() == '/' {
            before.push(Seq::<char>::empty())
        } else {
            before.update(before.len() - 1, before.last().push(s.last()))
        }
    }
}

/// The URL path pieces that one segment handed to the builder becomes.
pub open spec fn segment_pieces(segment: Seq<char>) -> Seq<Seq<char>> {
    split_at_slashes(trimmed(segment))
}

/// The URL path pieces of a whole list of segments, in order.
pub open spec fn all_segment_pieces(segments: Seq<Seq<char>>) -> Seq<Seq<char>> {
    segments.map_values(|s: Seq<char>| segment_pieces(s)).flatten()
}

/// `pieces` joined with a slash between each two neighbours.
pub open spec fn joined_with_slashes(pieces: Seq<Seq<char>>) -> Seq<char>
    decreases pieces.len(),
{
    if pieces.len() == 0 {
        Seq::<char>::empty()
    } else if pieces.len() == 1 {
        pieces[0]
    } else {
        joined_with_slashes(pieces.drop_last()) + seq!['/'] + pieces.last()
    }
}

pub open spec fn has_no_slash(s: Seq<char>) -> bool {
    forall|i: int| 0 <= i < s.len() ==> s[i] != '/'
}

pub proof fn lemma_split_nonempty(s: Seq<char>)
    ensures
        split_at_slashes(s).len() >= 1,
    decreases s.len(),
{
    if s.len() > 0 {
        lemma_split_nonempty(s.drop_last());
    }
}

/// Cutting at slashes and joining again with slashes gives the string back,
/// and no piece holds a slash.
pub proof fn lemma_split_then_join(s: Seq<char>)
    ensures
        joined_with_slashes(split_at_slashes(s)) == s,
        forall|i: int|
            0 <= i < split_at_slashes(s).len() ==> has_no_slash(#[trigger] split_at_slashes(s)[i]),
    decreases s.len(),
{
    if s.len() > 0 {
        let t = s.drop_last();
        lemma_split_then_join(t);
        lemma_split_nonempty(t);
        let before = split_at_slashes(t);
        let c = s.last();
        if c == '/' {
            let after = before.push(Seq::<char>::empty());
            assert(after.drop_last() =~= before);
            assert(joined_with_slashes(after) == joined_with_slashes(before) + seq!['/']
                + Seq::<char>::empty());
            assert(joined_with_slashes(after) =~= s);
            assert forall|i: int| 0 <= i < after.len() implies has_no_slash(#[trigger] after[i]) by {
                if i < before.len() {
                    assert(after[i] == before[i]);
                }
            }
        } else {
            let after = before.update(before.len() - 1, before.last().push(c));
            assert forall|i: int| 0 <= i < after.len() implies has_no_slash(#[trigger] after[i]) by {
                if i < before.len() - 1 {
                    assert(after[i] == before[i]);
                } else {
                    assert(has_no_slash(before[i]));
                    assert(after[i] =~= before[i].push(c));
                }
            }
            if before.len() == 1 {
                assert(joined_with_slashes(before) == before[0]);
                assert(after[0] =~= t.push(c));
                assert(after.len() == 1);
                assert(joined_with_slashes(after) == after[0]);
                assert(s =~= t.push(c));
            } else {
                assert(after.drop_last() =~= before.drop_last());
                assert(joined_with_slashes(before) == joined_with_slashes(before.drop_last())
                    + seq!['/'] + before.last());
                assert(joined_with_slashes(after) == joined_with_slashes(before.drop_last())
                    + seq!['/'] + before.last().push(c));
                let a = joined_with_slashes(before.drop_last()) + seq!['/'];
                assert((a + before.last()).push(c) =~= a + before.last().push(c));
                assert(s =~= t.push(c));
            }
        }
    }
}

proof fn lemma_leading_step(s: Seq<char>, i: int)
    requires
        0 <= i < s.len(),
        s[i] == '/',
    ensures
        without_leading_slashes(s.subrange(i, s.len() as int)) == without_leading_slashes(
            s.subrange(i + 1, s.len() as int),
        ),
{
    assert(s.subrange(i, s.len() as int).drop_first() =~= s.subrange(i + 1, s.len() as int));
}

proof fn lemma_trailing_step(s: Seq<char>, i: int, j: int)
    requires
        0 <= i < j <= s.len(),
        s[j - 1] == '/',
    ensures
        without_trailing_slashes(s.subrange(i, j)) == without_trailing_slashes(s.subrange(i, j - 1)),
{
    assert(s.subrange(i, j).drop_last() =~= s.subrange(i, j - 1));
}

/// The segment with its leading and trailing slashes removed.
pub fn trim_slashes(segment: &str) -> (res: &str)
    ensures
        res@ == trimmed(segment@),
{
    let n = segment.unicode_len();
    let mut i: usize = 0;
    proof {
        assert(segment@.subrange(0, n as int) =~= segment@);
    }
    while i < n && segment.get_char(i) == '/'
        invariant
            n == segment@.len(),
            i <= n,
            without_leading_slashes(segment@) == without_leading_slashes(
                segment@.subrange(i as int, n as int),
            ),
        decreases n - i,
    {
        proof {
            lemma_leading_step(segment@, i as int);
        }
        i = i + 1;
    }
    let ghost rest = segment@.subrange(i as int, n as int);
    assert(without_leading_slashes(rest) == rest);
    let mut j: usize = n;
    while j > i && segment.get_char(j - 1) == '/'
        invariant
            n == segment@.len(),
            i <= j <= n,
            rest == segment@.subrange(i as int, n as int),
            without_trailing_slashes(rest) == without_trailing_slashes(
                segment@.subrange(i as int, j as int),
            ),
        decreases j - i,
    {
        proof {
            lemma_trailing_step(segment@, i as int, j as int);
        }
        j = j - 1;
    }
    segment.substring_char(i, j)
}

/// The pieces of `s` between its slashes (see `split_at_slashes`).
pub fn split_slashes(s: &str) -> (pieces: Vec<String>)
    ensures
        string_views(pieces@) == split_at_slashes(s@),
{
    let n = s.unicode_len();
    let mut pieces: Vec<String> = Vec::new();
    let mut start: usize = 0;
    let mut k: usize = 0;
    proof {
        assert(s@.take(0) =~= Seq::<char>::empty());
        assert(string_views(pieces@).push(s@.subrange(0, 0)) =~= seq![Seq::<char>::empty()]);
    }
    while k < n
        invariant
            n == s@.len(),
            start <= k <= n,
            split_at_slashes(s@.take(k as int)) == string_views(pieces@).push(
                s@.subrange(start as int, k as int),
            ),
        decreases n - k,
    {
        let c = s.get_char(k);
        let ghost old_views = string_views(pieces@);
        proof {
            assert(s@.take(k + 1).drop_last() =~= s@.take(k as int));
            assert(s@.take(k + 1).last() == c);
        }
        if c == '/' {
            let piece = s.substring_char(start, k).to_owned();
            pieces.push(piece);
            proof {
                assert(string_views(pieces@) =~= old_views.push(s@.subrange(start as int, k as int)));
                assert(s@.subrange(k + 1, k + 1) =~= Seq::<char>::empty());
            }
            start = k + 1;
        } else {
            proof {
                assert(s@.subrange(start as int, k + 1) =~= s@.subrange(start as int, k as int).push(c));
                assert(old_views.push(s@.subrange(start as int, k as int)).update(
                    old_views.len() as int,
                    s@.subrange(start as int, k as int).push(c),
                ) =~= old_views.push(s@.subrange(start as int, k + 1)));
            }
        }
        k = k + 1;
    }
    let last = s.substring_char(start, n).to_owned();
    let ghost before_views = string_views(pieces@);
    pieces.push(last);
    proof {
        assert(s@.take(n as int) =~= s@);
        assert(string_views(pieces@) =~= before_views.push(s@.subrange(start as int, n as int)));
    }
    pieces
}

/// The URL path pieces of one segment: slashes trimmed off both ends, then
/// cut at every inner slash.
pub fn segment_to_pieces(segment: &str) -> (pieces: Vec<String>)
    ensures
        string_views(pieces@) == segment_pieces(segment@),
{
    split_slashes(trim_slashes(segment))
}

} // verus!
