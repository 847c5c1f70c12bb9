//! The request builder: collects path segments, a JSON body and the user's
//! access token, and turns them into the POST request that goes to the API.
use vstd::prelude::*;
use crate::config::PocketApiConfig;
use crate::error::PocketApiError;
use crate::json_body::{JsonObject, pair_views};
use crate::path::{all_segment_pieces, segment_pieces, segment_to_pieces, string_views};
use crate::url_ops::{extend_url_path, opt_string_view, url_with_path_segments};

verus! {

/// What a request builder holds.
pub struct RequestBuilderView {
    pub api_url: Seq<char>,
    pub consumer_key: Seq<char>,
    pub api_token: Option<Seq<char>>,
    pub path_segments: Seq<Seq<char>>,
    pub json: Option<Map<Seq<char>, Seq<char>>>,
}

/// The path segments that a request's URL receives: the API version, then
/// the pieces of every segment given to the builder.
pub open spec fn url_segments_of(v: RequestBuilderView) -> Seq<Seq<char>> {
    seq!["v3"@] + all_segment_pieces(v.path_segments)
}

/// The body of a request: the JSON given to the builder (or `{}`) with the
/// consumer key and, when the builder has one, the user's access token.
pub open spec fn request_body(v: RequestBuilderView) -> Map<Seq<char>, Seq<char>> {
    let given = match v.json {
        Some(m) => m,
        None => Map::<Seq<char>, Seq<char>>::empty(),
    };
    let with_key = given.insert("consumer_key"@, v.consumer_key);
    match v.api_token {
        Some(token) => with_key.insert("access_token"@, token),
        None => with_key,
    }
}

/// The headers of every request.
pub open spec fn request_headers() -> Seq<(Seq<char>, Seq<char>)> {
    seq![("Content-Type"@, "application/json; charset=UTF-8"@), ("X-Accept"@, "application/json"@)]
}

/// A POST request ready to be sent: its URL, its headers and its JSON body.
#[derive(Debug)]
pub struct PocketRequest {
    pub url: String,
    pub headers: Vec<(String, String)>,
    pub body: JsonObject,
}

/// `res` is what building `v` gives when the URL operation gave `url`.
pub open spec fn build_outcome(
    v: RequestBuilderView,
    url: Option<Seq<char>>,
    res: Result<PocketRequest, PocketApiError>,
) -> bool {
    match url {
        None => res matches Err(PocketApiError::InvalidBaseUrl),
        Some(u) => res matches Ok(req) && {
            &&& req.url@ == u
            &&& pair_views(req.headers@) == request_headers()
            &&& req.body.as_map() == request_body(v)
        },
    }
}

/// The request builder; cheap to copy at any stage.
#[derive(Debug)]
pub struct PocketRequestBuilder {
    base: PocketApiConfig,
    api_token: Option<String>,
    path_segments: Vec<String>,
    json: Option<JsonObject>,
}

impl View for PocketRequestBuilder {
    type V = RequestBuilderView;

    closed spec fn view(&self) -> RequestBuilderView {
        RequestBuilderView {
            api_url: self.base.api_url(),
            consumer_key: self.base.consumer_key(),
            api_token: opt_string_view(self.api_token),
            path_segments: string_views(self.path_segments@),
            json: match self.json {
                Some(j) => Some(j.as_map()),
                None => None,
            },
        }
    }
}

impl Clone for PocketRequestBuilder {
    fn clone(&self) -> (copy: PocketRequestBuilder)
        ensures
            copy@ == self@,
    {
        let api_token = match &self.api_token {
            Some(t) => Some(t.clone()),
            None => None,
        };
        let mut path_segments: Vec<String> = Vec::new();
        let n = self.path_segments.len();
        let mut i: usize = 0;
        while i < n
            invariant
                n == self.path_segments.len(),
                i <= n,
                string_views(path_segments@) == string_views(self.path_segments@).take(i as int),
            decreases n - i,
        {
            let ghost before = string_views(path_segments@);
            let seg = self.path_segments[i].clone();
            assert(seg@ == string_views(self.path_segments@)[i as int]);
            path_segments.push(seg);
            proof {
                assert(string_views(path_segments@) =~= before.push(seg@));
                assert(string_views(path_segments@) =~= string_views(self.path_segments@).take(
                    i + 1,
                ));
            }
            i = i + 1;
        }
        proof {
            assert(string_views(self.path_segments@).take(n as int) =~= string_views(
                self.path_segments@,
            ));
        }
        let json = match &self.json {
            Some(j) => Some(j.clone()),
            None => None,
        };
        PocketRequestBuilder { base: self.base.clone(), api_token, path_segments, json }
    }
}

impl PocketRequestBuilder {
    /// A builder with no path segments, no JSON and no access token.
    pub fn new(config: PocketApiConfig) -> (builder: PocketRequestBuilder)
        ensures
            builder@ == (RequestBuilderView {
                api_url: config.api_url(),
                consumer_key: config.consumer_key(),
                api_token: None,
                path_segments: Seq::<Seq<char>>::empty(),
                json: None,
            }),
    {
        let b = PocketRequestBuilder {
            base: config,
            api_token: None,
            path_segments: Vec::new(),
            json: None,
        };
        assert(string_views(b.path_segments@) =~= Seq::<Seq<char>>::empty());
        b
    }

    /// Adds a path segment after those added before.
    pub fn join_path(self, segment: String) -> (builder: PocketRequestBuilder)
        ensures
            builder@ == (RequestBuilderView {
                path_segments: self@.path_segments.push(segment@),
                ..self@
            }),
    {
        let mut b = self;
        let ghost before = string_views(b.path_segments@);
        let ghost s = segment@;
        b.path_segments.push(segment);
        assert(string_views(b.path_segments@) =~= before.push(s));
        b
    }

    /// Sets the JSON body, replacing the one set before.
    pub fn json(self, data: JsonObject) -> (builder: PocketRequestBuilder)
        ensures
            builder@ == (RequestBuilderView { json: Some(data.as_map()), ..self@ }),
    {
        let mut b = self;
        b.json = Some(data);
        b
    }

    /// Sets the user's access token, replacing the one set before.
    pub fn user_api_token(self, token: String) -> (builder: PocketRequestBuilder)
        ensures
            builder@ == (RequestBuilderView { api_token: Some(token@), ..self@ }),
    {
        let mut b = self;
        b.api_token = Some(token);
        b
    }

    /// The path segments that the request's URL receives.
    pub fn url_segments(&self) -> (segments: Vec<String>)
        ensures
            string_views(segments@) == url_segments_of(self@),
    {
        let ghost given = string_views(self.path_segments@);
        let mut segments: Vec<String> = Vec::new();
        segments.push("v3".to_owned());
        let n = self.path_segments.len();
        let mut i: usize = 0;
        proof {
            assert(given.take(0).map_values(|s: Seq<char>| segment_pieces(s)) =~= Seq::<
                Seq<Seq<char>>,
            >::empty());
            assert(string_views(segments@) =~= seq!["v3"@] + given.take(0).map_values(
                |s: Seq<char>| segment_pieces(s),
            ).flatten());
        }
        while i < n
            invariant
                n == self.path_segments.len(),
                given == string_views(self.path_segments@),
                i <= n,
                string_views(segments@) == seq!["v3"@] + given.take(i as int).map_values(
                    |s: Seq<char>| segment_pieces(s),
                ).flatten(),
            decreases n - i,
        {
            let ghost before = string_views(segments@);
            let mut pieces = segment_to_pieces(self.path_segments[i].as_str());
            let ghost piece_views = string_views(pieces@);
            segments.append(&mut pieces);
            proof {
                let f = |s: Seq<char>| segment_pieces(s);
                assert(given.take(i + 1).map_values(f) =~= given.take(i as int).map_values(f).push(
                    segment_pieces(given[i as int]),
                ));
                given.take(i as int).map_values(f).lemma_flatten_push(
                    segment_pieces(given[i as int]),
                );
                assert(string_views(segments@) =~= before + piece_views);
            }
            i = i + 1;
        }
        proof {
            assert(given.take(n as int) =~= given);
        }
        segments
    }

    /// The request, given the serialization of its URL (`None` when the base
    /// URL cannot take path segments).
    pub fn build_with_url(self, url: Option<String>) -> (res: Result<PocketRequest, PocketApiError>)
        ensures
            build_outcome(self@, opt_string_view(url), res),
    {
        let url = match url {
            Some(u) => u,
            None => {
                return Err(PocketApiError::InvalidBaseUrl);
            },
        };
        let mut body = match self.json {
            Some(j) => j,
            None => JsonObject::new(),
        };
        body.insert("consumer_key".to_owned(), self.base.api_consumer_key.clone());
        match self.api_token {
            Some(token) => {
                body.insert("access_token".to_owned(), token);
            },
            None => {},
        }
        let mut headers: Vec<(String, String)> = Vec::new();
        headers.push(("Content-Type".to_owned(), "application/json; charset=UTF-8".to_owned()));
        headers.push(("X-Accept".to_owned(), "application/json".to_owned()));
        assert(pair_views(headers@) =~= request_headers());
        Ok(PocketRequest { url, headers, body })
    }

    /// The request: the base URL with `v3` and the segments' pieces appended
    /// to its path, the JSON headers, and the body of `request_body`.
    pub fn build(self) -> (res: Result<PocketRequest, PocketApiError>)
        ensures
            build_outcome(
                self@,
                url_with_path_segments(self@.api_url, url_segments_of(self@)),
                res,
            ),
    {
        let segments = self.url_segments();
        let url = extend_url_path(self.base.api_url.as_str(), &segments);
        self.build_with_url(url)
    }
}

} // verus!
