//! What every request of the client shares: the API's base URL and the
//! application's consumer key.
use vstd::prelude::*;

verus! {

/// The base URL of the Pocket API.
pub open spec fn default_api_url() -> Seq<char> {
    "https://getpocket.com/"@
}

/// The fixed data of a configuration.
#[derive(Debug)]
pub struct Inner {
    pub api_url: String,
    pub api_consumer_key: String,
}

impl Inner {
    pub fn new(api_url: String, api_consumer_key: String) -> (inner: Inner)
        ensures
            inner.api_url == api_url,
            inner.api_consumer_key == api_consumer_key,
    {
        Inner { api_url, api_consumer_key }
    }
}

impl Clone for Inner {
    fn clone(&self) -> (copy: Inner)
        ensures
            copy == *self,
    {
        Inner { api_url: self.api_url.clone(), api_consumer_key: self.api_consumer_key.clone() }
    }
}

/// The configuration that the request builders are made from.
#[derive(Debug)]
pub struct PocketApiConfig {
    inner: Inner,
}

impl PocketApiConfig {
    pub closed spec fn api_url(self) -> Seq<char> {
        self.inner.api_url@
    }

    pub closed spec fn consumer_key(self) -> Seq<char> {
        self.inner.api_consumer_key@
    }

    /// The configuration for the public Pocket API with the given consumer key.
    pub fn new_default(api_consumer_key: String) -> (config: PocketApiConfig)
        ensures
            config.api_url() == default_api_url(),
            config.consumer_key() == api_consumer_key@,
    {
        let api_url = "https://getpocket.com/".to_owned();
        PocketApiConfig { inner: Inner { api_url, api_consumer_key } }
    }
}

impl std::ops::Deref for PocketApiConfig {
    type Target = Inner;

    fn deref(&self) -> (inner: &Inner)
        ensures
            inner.api_url@ == self.api_url(),
            inner.api_consumer_key@ == self.consumer_key(),
    {
        &self.inner
    }
}

impl Clone for PocketApiConfig {
    fn clone(&self) -> (copy: PocketApiConfig)
        ensures
            copy.api_url() == self.api_url(),
            copy.consumer_key() == self.consumer_key(),
    {
        PocketApiConfig { inner: self.inner.clone() }
    }
}

} // verus!
