//! Obtaining a user's access token: a request code first, then the page on
//! which the user grants access, then the token itself.
use vstd::prelude::*;
use crate::client::{builds, with_path_and_json};
use crate::config::PocketApiConfig;
use crate::error::PocketApiError;
use crate::form::{lacks, query_encoded};
use crate::json_body::{pair_views, JsonObject};
use crate::request_builder::{PocketRequest, PocketRequestBuilder, RequestBuilderView};
use crate::responses::{CodeRequestResponse, TokenRequestResponse};
use crate::url_ops::{append_url_query, opt_string_view, url_with_query_pairs};

verus! {

/// The page on which a user grants the application access.
pub open spec fn authorize_page() -> Seq<char> {
    "https://getpocket.com/auth/authorize"@
}

/// The query that the authorization page is given.
pub open spec fn authorize_query(code: Seq<char>, redirect_uri: Seq<char>) -> Seq<
    (Seq<char>, Seq<char>),
> {
    seq![("request_token"@, code), ("redirect_uri"@, redirect_uri)]
}

/// The request code and the page on which the user grants access.
#[derive(Debug)]
pub struct AuthInfo {
    pub code: String,
    pub auth_url: String,
}

impl AuthInfo {
    /// `code = <code>, auth_url = <auth_url>`
    pub fn to_display_string(&self) -> (text: String)
        ensures
            text@ == "code = "@ + self.code@ + ", auth_url = "@ + self.auth_url@,
    {
        "code = ".to_owned().concat(self.code.as_str()).concat(", auth_url = ").concat(
            self.auth_url.as_str(),
        )
    }
}

#[derive(Debug)]
pub struct PocketApiTokenReceiver {
    request_builder: PocketRequestBuilder,
}

impl PocketApiTokenReceiver {
    /// The builder that every request of the receiver starts from.
    pub closed spec fn builder(self) -> RequestBuilderView {
        self.request_builder@
    }

    /// A receiver for the application of `config`; its requests carry no
    /// access token.
    pub fn new(config: PocketApiConfig) -> (receiver: PocketApiTokenReceiver)
        ensures
            receiver.builder() == (RequestBuilderView {
                api_url: config.api_url(),
                consumer_key: config.consumer_key(),
                api_token: None,
                path_segments: Seq::<Seq<char>>::empty(),
                json: None,
            }),
    {
        PocketApiTokenReceiver { request_builder: PocketRequestBuilder::new(config) }
    }

    /// The request for a request code, naming the page to which the user
    /// returns once access is granted.
    pub fn auth_code_request(&self, redirect_uri: String) -> (res: Result<
        PocketRequest,
        PocketApiError,
    >)
        ensures
            builds(
                with_path_and_json(
                    self.builder(),
                    seq!["oauth"@, "request"@],
                    Map::<Seq<char>, Seq<char>>::empty().insert("redirect_uri"@, redirect_uri@),
                ),
                res,
            ),
    {
        let ghost uri = redirect_uri@;
        let mut data = JsonObject::new();
        data.insert("redirect_uri".to_owned(), redirect_uri);
        assert(data.as_map() =~= Map::<Seq<char>, Seq<char>>::empty().insert("redirect_uri"@, uri));
        assert(self.builder().path_segments.push("oauth"@).push("request"@)
            =~= self.builder().path_segments + seq!["oauth"@, "request"@]);
        let builder = self.request_builder.clone().join_path("oauth".to_owned()).join_path(
            "request".to_owned(),
        ).json(data);
        builder.build()
    }

    /// The request that exchanges a granted request code for an access token.
    pub fn token_request(&self, code: String) -> (res: Result<PocketRequest, PocketApiError>)
        ensures
            builds(
                with_path_and_json(
                    self.builder(),
                    seq!["oauth"@, "authorize"@],
                    Map::<Seq<char>, Seq<char>>::empty().insert("code"@, code@),
                ),
                res,
            ),
    {
        let ghost c = code@;
        let mut data = JsonObject::new();
        data.insert("code".to_owned(), code);
        assert(data.as_map() =~= Map::<Seq<char>, Seq<char>>::empty().insert("code"@, c));
        assert(self.builder().path_segments.push("oauth"@).push("authorize"@)
            =~= self.builder().path_segments + seq!["oauth"@, "authorize"@]);
        let builder = self.request_builder.clone().join_path("oauth".to_owned()).join_path(
            "authorize".to_owned(),
        ).json(data);
        builder.build()
    }
}

/// The authorization info for `code`, given the authorization page's URL
/// with its query (`None` when that URL could not be made).
pub fn auth_info_with_url(code: String, auth_url: Option<String>) -> (info: Option<AuthInfo>)
    ensures
        auth_url is None ==> info is None,
        auth_url matches Some(u) ==> (info matches Some(i) && i.code == code && i.auth_url == u),
{
    match auth_url {
        Some(u) => Some(AuthInfo { code, auth_url: u }),
        None => None,
    }
}

/// The authorization info for the request code of `reply`: the code and the
/// authorization page, whose query holds the code as `request_token` and
/// then `redirect_uri`.
pub fn user_auth_info(reply: CodeRequestResponse, redirect_uri: &str) -> (info: Option<AuthInfo>)
    ensures
        ({
            let url = url_with_query_pairs(
                authorize_page(),
                authorize_query(reply.code@, redirect_uri@),
            );
            &&& url is None ==> info is None
            &&& url matches Some(u) ==> (info matches Some(i) && i.code == reply.code && i.auth_url@
                == u)
        }),
        info matches Some(i) ==> i.code == reply.code && exists|pre: Seq<char>|
            #![trigger pre.last()]
            {
                &&& i.auth_url@ == pre + query_encoded(
                    seq![("request_token"@, reply.code@), ("redirect_uri"@, redirect_uri@)],
                )
                &&& pre.len() > 0
                &&& (pre.last() == '?' || pre.last() == '&')
            },
{
    let mut query: Vec<(String, String)> = Vec::new();
    query.push(("request_token".to_owned(), reply.code.clone()));
    query.push(("redirect_uri".to_owned(), redirect_uri.to_owned()));
    assert(pair_views(query@) =~= authorize_query(reply.code@, redirect_uri@));
    let page = "https://getpocket.com/auth/authorize";
    proof {
        reveal_strlit("https://getpocket.com/auth/authorize");
        assert(lacks(page@, '#'));
    }
    let auth_url = append_url_query(page, &query);
    proof {
        if auth_url is Some {
            let ghost enc = query_encoded(pair_views(query@));
            let (pre, post) = choose|pre: Seq<char>, post: Seq<char>|
                {
                    &&& auth_url->0@ == pre + enc + post
                    &&& pre.len() > 0
                    &&& (pre.last() == '?' || pre.last() == '&')
                    &&& (post.len() == 0 || post[0] == '#')
                    &&& (lacks(page@, '#') ==> post.len() == 0)
                };
            assert(auth_url->0@ == pre + enc);
        }
    }
    auth_info_with_url(reply.code, auth_url)
}

/// The access token of a reply to a token request.
pub fn received_token(reply: TokenRequestResponse) -> (token: String)
    ensures
        token == reply.access_token,
{
    reply.access_token
}

} // verus!
