//! Properties that hold of every request the library prepares.
use vstd::prelude::*;
use crate::client::{add_body, get_all_body, with_path_and_json};
use crate::path::{
    all_segment_pieces, has_no_slash, joined_with_slashes, lemma_split_nonempty,
    lemma_split_then_join, segment_pieces, split_at_slashes, trimmed, without_leading_slashes,
    without_trailing_slashes,
};
use crate::request_builder::{request_body, RequestBuilderView};

verus! {

/// Every request body holds the consumer key; it holds the user's access
/// token exactly when the builder has one; every other key keeps the value
/// that the given JSON had for it.
pub proof fn law_body_carries_credentials(v: RequestBuilderView)
    ensures
        request_body(v).contains_key("consumer_key"@),
        request_body(v)["consumer_key"@] == v.consumer_key,
        v.api_token matches Some(t) ==> request_body(v).contains_key("access_token"@)
            && request_body(v)["access_token"@] == t,
        forall|k: Seq<char>|
            k != "consumer_key"@ && k != "access_token"@ ==> (#[trigger] request_body(
                v,
            ).contains_key(k) <==> (v.json matches Some(m) && m.contains_key(k))),
        forall|k: Seq<char>|
            k != "consumer_key"@ && k != "access_token"@ && #[trigger] request_body(v).contains_key(
                k,
            ) ==> (v.json matches Some(m) && request_body(v)[k] == m[k]),
{
    reveal_strlit("consumer_key");
    reveal_strlit("access_token");
    assert("consumer_key"@ != "access_token"@) by {
        assert("consumer_key"@[0] != "access_token"@[0]);
    }
}

/// A request of a builder without an access token carries none, unless the
/// JSON given to it held one.
pub proof fn law_unsigned_requests(
    v: RequestBuilderView,
    segments: Seq<Seq<char>>,
    json: Map<Seq<char>, Seq<char>>,
)
    requires
        v.api_token is None,
        !json.contains_key("access_token"@),
    ensures
        !request_body(with_path_and_json(v, segments, json)).contains_key("access_token"@),
{
    reveal_strlit("consumer_key");
    reveal_strlit("access_token");
    assert("consumer_key"@ != "access_token"@) by {
        assert("consumer_key"@[0] != "access_token"@[0]);
    }
}

/// Every request of a builder with an access token carries that token,
/// whatever JSON and path it was given.
pub proof fn law_signed_requests(
    v: RequestBuilderView,
    segments: Seq<Seq<char>>,
    json: Map<Seq<char>, Seq<char>>,
    token: Seq<char>,
)
    requires
        v.api_token == Some(token),
    ensures
        request_body(with_path_and_json(v, segments, json)).contains_key("access_token"@),
        request_body(with_path_and_json(v, segments, json))["access_token"@] == token,
{
}

/// The pieces of a segment, joined again with slashes, give back the
/// segment without its outer slashes, and no piece holds a slash.
pub proof fn law_pieces_rejoin(segment: Seq<char>)
    ensures
        joined_with_slashes(segment_pieces(segment)) == trimmed(segment),
        forall|i: int|
            0 <= i < segment_pieces(segment).len() ==> has_no_slash(
                #[trigger] segment_pieces(segment)[i],
            ),
{
    lemma_split_then_join(trimmed(segment));
}

proof fn lemma_leading_of_nonslash(s: Seq<char>)
    requires
        s.len() == 0 || s[0] != '/',
    ensures
        without_leading_slashes(s) == s,
{
}

proof fn lemma_trailing_of_nonslash(s: Seq<char>)
    requires
        s.len() == 0 || s.last() != '/',
    ensures
        without_trailing_slashes(s) == s,
{
}

proof fn lemma_leading_slash_dropped(s: Seq<char>)
    ensures
        without_leading_slashes(seq!['/'] + s) == without_leading_slashes(s),
{
    assert((seq!['/'] + s).drop_first() =~= s);
}

proof fn lemma_leading_then_slash(s: Seq<char>)
    ensures
        without_leading_slashes(s + seq!['/']) == if without_leading_slashes(s).len() == 0 {
            Seq::<char>::empty()
        } else {
            without_leading_slashes(s) + seq!['/']
        },
    decreases s.len(),
{
    if s.len() > 0 && s[0] == '/' {
        assert((s + seq!['/']).drop_first() =~= s.drop_first() + seq!['/']);
        lemma_leading_then_slash(s.drop_first());
    } else if s.len() == 0 {
        assert(s + seq!['/'] =~= seq!['/']);
        assert(seq!['/'].drop_first() =~= Seq::<char>::empty());
        assert(without_leading_slashes(Seq::<char>::empty()) == Seq::<char>::empty());
        assert(without_leading_slashes(seq!['/']) == without_leading_slashes(
            Seq::<char>::empty(),
        ));
    } else {
        assert((s + seq!['/'])[0] == s[0]);
    }
}

proof fn lemma_trailing_slash_dropped(s: Seq<char>)
    ensures
        without_trailing_slashes(s + seq!['/']) == without_trailing_slashes(s),
{
    assert((s + seq!['/']).drop_last() =~= s);
}

/// Slashes around a segment do not change the pieces it gives.
pub proof fn law_outer_slashes_ignored(segment: Seq<char>)
    ensures
        segment_pieces(seq!['/'] + segment + seq!['/']) == segment_pieces(segment),
{
    let inner = seq!['/'] + segment;
    lemma_leading_then_slash(inner);
    lemma_leading_slash_dropped(segment);
    let w = without_leading_slashes(segment);
    if w.len() == 0 {
        assert(trimmed(inner + seq!['/']) =~= trimmed(segment));
    } else {
        lemma_trailing_slash_dropped(w);
    }
}

/// Cutting `x/y` at slashes gives the pieces of `x` followed by those of `y`.
proof fn lemma_split_concat(x: Seq<char>, y: Seq<char>)
    ensures
        split_at_slashes(x + seq!['/'] + y) == split_at_slashes(x) + split_at_slashes(y),
    decreases y.len(),
{
    let s = x + seq!['/'] + y;
    if y.len() == 0 {
        assert(s.drop_last() =~= x);
        assert(split_at_slashes(y) =~= seq![Seq::<char>::empty()]);
        assert(split_at_slashes(s) =~= split_at_slashes(x) + split_at_slashes(y));
    } else {
        let y2 = y.drop_last();
        assert(s.drop_last() =~= x + seq!['/'] + y2);
        assert(s.last() == y.last());
        lemma_split_concat(x, y2);
        lemma_split_nonempty(y2);
        lemma_split_nonempty(x);
        let before = split_at_slashes(y2);
        if y.last() == '/' {
            assert(split_at_slashes(s) =~= split_at_slashes(x) + split_at_slashes(y));
        } else {
            let whole = split_at_slashes(x) + before;
            assert(whole.last() == before.last());
            assert(whole.update(whole.len() - 1, before.last().push(y.last())) =~= split_at_slashes(
                x,
            ) + before.update(before.len() - 1, before.last().push(y.last())));
            assert(split_at_slashes(s) =~= split_at_slashes(x) + split_at_slashes(y));
        }
    }
}

/// One segment `x/y` gives the URL the same path pieces as the segments `x`
/// and `y` given one after the other, when neither has a slash at its ends
/// and neither is empty.
pub proof fn law_joined_segment_splits(path: Seq<Seq<char>>, x: Seq<char>, y: Seq<char>)
    requires
        x.len() > 0,
        y.len() > 0,
        x[0] != '/',
        x.last() != '/',
        y[0] != '/',
        y.last() != '/',
    ensures
        all_segment_pieces(path.push(x + seq!['/'] + y)) == all_segment_pieces(path.push(x).push(y)),
{
    let xy = x + seq!['/'] + y;
    lemma_leading_of_nonslash(x);
    lemma_trailing_of_nonslash(x);
    lemma_leading_of_nonslash(y);
    lemma_trailing_of_nonslash(y);
    assert(xy[0] == x[0]);
    assert(xy.last() == y.last());
    lemma_leading_of_nonslash(xy);
    lemma_trailing_of_nonslash(xy);
    lemma_split_concat(x, y);
    assert(segment_pieces(xy) == segment_pieces(x) + segment_pieces(y));
    let f = |s: Seq<char>| segment_pieces(s);
    let base = path.map_values(f);
    assert(path.push(xy).map_values(f) =~= base.push(segment_pieces(xy)));
    assert(path.push(x).push(y).map_values(f) =~= base.push(segment_pieces(x)).push(
        segment_pieces(y),
    ));
    base.lemma_flatten_push(segment_pieces(xy));
    base.lemma_flatten_push(segment_pieces(x));
    base.push(segment_pieces(x)).lemma_flatten_push(segment_pieces(y));
    assert(base.flatten() + (segment_pieces(x) + segment_pieces(y)) =~= base.flatten()
        + segment_pieces(x) + segment_pieces(y));
}

/// After a key of a JSON body is set, reading it gives the value set, and
/// every other key reads as before.
pub proof fn law_json_read_after_write(
    before: Map<Seq<char>, Seq<char>>,
    key: Seq<char>,
    value: Seq<char>,
    other: Seq<char>,
)
    requires
        other != key,
    ensures
        before.insert(key, value).contains_key(key),
        before.insert(key, value)[key] == value,
        before.insert(key, value).contains_key(other) == before.contains_key(other),
        before.contains_key(other) ==> before.insert(key, value)[other] == before[other],
{
}

/// The body keys that requests use differ from one another.
pub proof fn lemma_body_keys_distinct()
    ensures
        "url"@ != "title"@,
        "url"@ != "consumer_key"@,
        "url"@ != "access_token"@,
        "title"@ != "consumer_key"@,
        "title"@ != "access_token"@,
        "consumer_key"@ != "access_token"@,
        "state"@ != "consumer_key"@,
        "state"@ != "access_token"@,
{
    reveal_strlit("url");
    reveal_strlit("title");
    reveal_strlit("consumer_key");
    reveal_strlit("access_token");
    reveal_strlit("state");
    assert("url"@[0] != "title"@[0]);
    assert("url"@[0] != "consumer_key"@[0]);
    assert("url"@[0] != "access_token"@[0]);
    assert("title"@[0] != "consumer_key"@[0]);
    assert("title"@[0] != "access_token"@[0]);
    assert("consumer_key"@[0] != "access_token"@[0]);
    assert("state"@[0] != "consumer_key"@[0]);
    assert("state"@[0] != "access_token"@[0]);
}

/// The body of a request that adds an item maps `url` to the page URL
/// whether or not a title is given, holds `title` exactly when one is given
/// (mapped to it), holds the consumer key, holds the access token exactly
/// when the builder has one, and holds no other key.
pub proof fn law_add_body(
    v: RequestBuilderView,
    segments: Seq<Seq<char>>,
    url: Seq<char>,
    title: Option<Seq<char>>,
)
    ensures
        ({
            let body = request_body(with_path_and_json(v, segments, add_body(url, title)));
            &&& body.contains_key("url"@) && body["url"@] == url
            &&& body.contains_key("title"@) == (title is Some)
            &&& title matches Some(t) ==> body["title"@] == t
            &&& body.contains_key("consumer_key"@) && body["consumer_key"@] == v.consumer_key
            &&& body.contains_key("access_token"@) == (v.api_token is Some)
            &&& v.api_token matches Some(token) ==> body["access_token"@] == token
            &&& forall|k: Seq<char>|
                #[trigger] body.contains_key(k) ==> k == "url"@ || k == "title"@ || k
                    == "consumer_key"@ || k == "access_token"@
        }),
{
    lemma_body_keys_distinct();
}

/// The body of the request for all items maps `state` to `all`, holds the
/// consumer key, holds the access token exactly when the builder has one,
/// and holds no other key: no filter narrows the list.
pub proof fn law_get_all_body(v: RequestBuilderView, segments: Seq<Seq<char>>)
    ensures
        ({
            let body = request_body(with_path_and_json(v, segments, get_all_body()));
            &&& body.contains_key("state"@) && body["state"@] == "all"@
            &&& body.contains_key("consumer_key"@) && body["consumer_key"@] == v.consumer_key
            &&& body.contains_key("access_token"@) == (v.api_token is Some)
            &&& v.api_token matches Some(token) ==> body["access_token"@] == token
            &&& forall|k: Seq<char>|
                #[trigger] body.contains_key(k) ==> k == "state"@ || k == "consumer_key"@ || k
                    == "access_token"@
        }),
{
    lemma_body_keys_distinct();
}

} // verus!
