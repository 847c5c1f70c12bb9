//! The client for a signed-in user: adds an item and lists all items.
use std::collections::HashMap;
use vstd::prelude::*;
use crate::config::PocketApiConfig;
use crate::error::PocketApiError;
use crate::json_body::JsonObject;
use crate::reply::{api_status_ok, check_api_status};
use crate::request_builder::{
    build_outcome, url_segments_of, PocketRequest, PocketRequestBuilder, RequestBuilderView,
};
use crate::responses::{ItemInfo, ItemsInfoResponse, NewItemInfo, NewItemInfoResponse};
use crate::url_ops::url_with_path_segments;

verus! {

/// The builder view after a path segment and a JSON body were given.
pub open spec fn with_path_and_json(
    v: RequestBuilderView,
    segments: Seq<Seq<char>>,
    json: Map<Seq<char>, Seq<char>>,
) -> RequestBuilderView {
    RequestBuilderView { path_segments: v.path_segments + segments, json: Some(json), ..v }
}

/// `res` is what building `v` gives, the URL coming from the URL operation.
pub open spec fn builds(v: RequestBuilderView, res: Result<PocketRequest, PocketApiError>) -> bool {
    build_outcome(v, url_with_path_segments(v.api_url, url_segments_of(v)), res)
}

/// The body of a request that adds `url`, with `title` when there is one.
pub open spec fn add_body(url: Seq<char>, title: Option<Seq<char>>) -> Map<Seq<char>, Seq<char>> {
    let with_url = Map::<Seq<char>, Seq<char>>::empty().insert("url"@, url);
    match title {
        Some(t) => with_url.insert("title"@, t),
        None => with_url,
    }
}

/// The body of a request for all items.
pub open spec fn get_all_body() -> Map<Seq<char>, Seq<char>> {
    Map::<Seq<char>, Seq<char>>::empty().insert("state"@, "all"@)
}

#[derive(Debug)]
pub struct PocketApiClient {
    request_builder: PocketRequestBuilder,
}

impl PocketApiClient {
    /// The builder that every request of the client starts from.
    pub closed spec fn builder(self) -> RequestBuilderView {
        self.request_builder@
    }

    /// A client that signs every request with `user_token`.
    pub fn new(config: PocketApiConfig, user_token: String) -> (client: PocketApiClient)
        ensures
            client.builder() == (RequestBuilderView {
                api_url: config.api_url(),
                consumer_key: config.consumer_key(),
                api_token: Some(user_token@),
                path_segments: Seq::<Seq<char>>::empty(),
                json: None,
            }),
    {
        let request_builder = PocketRequestBuilder::new(config).user_api_token(user_token);
        PocketApiClient { request_builder }
    }

    /// The request that saves `url` (with `title`, when given) to the list.
    pub fn add_request(&self, url: String, title: Option<String>) -> (res: Result<
        PocketRequest,
        PocketApiError,
    >)
        ensures
            builds(
                with_path_and_json(
                    self.builder(),
                    seq!["add"@],
                    add_body(url@, crate::url_ops::opt_string_view(title)),
                ),
                res,
            ),
            res matches Ok(req) ==> {
                let body = req.body.as_map();
                &&& body.contains_key("url"@) && body["url"@] == url@
                &&& body.contains_key("title"@) == (title is Some)
                &&& title matches Some(t) ==> body["title"@] == t@
                &&& body.contains_key("consumer_key"@) && body["consumer_key"@]
                    == self.builder().consumer_key
                &&& body.contains_key("access_token"@) == (self.builder().api_token is Some)
                &&& self.builder().api_token matches Some(token) ==> body["access_token"@] == token
                &&& forall|k: Seq<char>|
                    #[trigger] body.contains_key(k) ==> k == "url"@ || k == "title"@ || k
                        == "consumer_key"@ || k == "access_token"@
            },
    {
        proof {
            crate::laws::law_add_body(
                self.builder(),
                seq!["add"@],
                url@,
                crate::url_ops::opt_string_view(title),
            );
        }
        let mut data = JsonObject::new();
        data.insert("url".to_owned(), url);
        match title {
            Some(t) => {
                data.insert("title".to_owned(), t);
            },
            None => {},
        }
        assert(data.as_map() =~= add_body(url@, crate::url_ops::opt_string_view(title)));
        assert(self.builder().path_segments.push("add"@) =~= self.builder().path_segments
            + seq!["add"@]);
        let builder = self.request_builder.clone().join_path("add".to_owned()).json(data);
        assert(builder@ == with_path_and_json(
            self.builder(),
            seq!["add"@],
            add_body(url@, crate::url_ops::opt_string_view(title)),
        ));
        builder.build()
    }

    /// The request for all items, in every state.
    pub fn get_all_request(&self) -> (res: Result<PocketRequest, PocketApiError>)
        ensures
            builds(with_path_and_json(self.builder(), seq!["get"@], get_all_body()), res),
            res matches Ok(req) ==> {
                let body = req.body.as_map();
                &&& body.contains_key("state"@) && body["state"@] == "all"@
                &&& body.contains_key("consumer_key"@) && body["consumer_key"@]
                    == self.builder().consumer_key
                &&& body.contains_key("access_token"@) == (self.builder().api_token is Some)
                &&& self.builder().api_token matches Some(token) ==> body["access_token"@] == token
                &&& forall|k: Seq<char>|
                    #[trigger] body.contains_key(k) ==> k == "state"@ || k == "consumer_key"@ || k
                        == "access_token"@
            },
    {
        proof {
            crate::laws::law_get_all_body(self.builder(), seq!["get"@]);
        }
        let mut data = JsonObject::new();
        data.insert("state".to_owned(), "all".to_owned());
        assert(data.as_map() =~= get_all_body());
        assert(self.builder().path_segments.push("get"@) =~= self.builder().path_segments
            + seq!["get"@]);
        let builder = self.request_builder.clone().join_path("get".to_owned()).json(data);
        assert(builder@ == with_path_and_json(self.builder(), seq!["get"@], get_all_body()));
        builder.build()
    }
}

/// The added item, when the reply reports success.
pub fn added_item(reply: NewItemInfoResponse) -> (res: Result<NewItemInfo, PocketApiError>)
    ensures
        api_status_ok(reply.status) ==> res == Ok::<NewItemInfo, PocketApiError>(reply.item),
        !api_status_ok(reply.status) ==> (res matches Err(PocketApiError::PocketInvalidApiStatus(
            s,
        )) && s == reply.status),
{
    check_api_status(reply.status)?;
    Ok(reply.item)
}

/// All items, keyed by item id, when the reply reports success.
pub fn all_items(reply: ItemsInfoResponse) -> (res: Result<HashMap<String, ItemInfo>, PocketApiError>)
    ensures
        api_status_ok(reply.status) ==> res == Ok::<HashMap<String, ItemInfo>, PocketApiError>(
            reply.list,
        ),
        !api_status_ok(reply.status) ==> (res matches Err(PocketApiError::PocketInvalidApiStatus(
            s,
        )) && s == reply.status),
{
    check_api_status(reply.status)?;
    Ok(reply.list)
}

} // verus!
