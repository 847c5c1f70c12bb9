//! The replies of the API that the client reads.
use std::collections::HashMap;
use vstd::prelude::*;
use crate::decimal::{decimal, i64_decimal, u64_decimal};

verus! {

/// A JSON value of the reply that the client passes on unread.
#[verifier::external_type_specification]
#[verifier::external_body]
pub struct ExJsonValue(serde_json::Value);

/// The reply to a request for an authorization code.
#[derive(Debug)]
pub struct CodeRequestResponse {
    pub code: String,
}

/// The reply to a request for an access token.
#[derive(Debug)]
pub struct TokenRequestResponse {
    pub access_token: String,
    pub username: String,
}

/// An item that was just added, with all further fields of the reply.
#[derive(Debug)]
pub struct NewItemInfo {
    pub item_id: String,
    pub normal_url: String,
    pub title: String,
    pub other: HashMap<String, serde_json::Value>,
}

/// The reply to a request that adds an item.
#[derive(Debug)]
pub struct NewItemInfoResponse {
    pub status: i64,
    pub item: NewItemInfo,
}

/// A saved item, with all further fields of the reply.
#[derive(Debug)]
pub struct ItemInfo {
    pub item_id: String,
    pub resolved_url: String,
    pub resolved_title: String,
    pub other: HashMap<String, serde_json::Value>,
}

/// The reply to a request for all items, keyed by item id.
#[derive(Debug)]
pub struct ItemsInfoResponse {
    pub status: i64,
    pub list: HashMap<String, ItemInfo>,
}

impl CodeRequestResponse {
    /// The code itself.
    pub fn to_display_string(&self) -> (text: String)
        ensures
            text@ == self.code@,
    {
        self.code.clone()
    }
}

impl TokenRequestResponse {
    /// `access_token = <token>, username = <name>`
    pub fn to_display_string(&self) -> (text: String)
        ensures
            text@ == "access_token = "@ + self.access_token@ + ", username = "@ + self.username@,
    {
        "access_token = ".to_owned().concat(self.access_token.as_str()).concat(
            ", username = ",
        ).concat(self.username.as_str())
    }
}

impl NewItemInfo {
    /// `id = <item_id>, title = <title>, url = <normal_url>`
    pub fn to_display_string(&self) -> (text: String)
        ensures
            text@ == "id = "@ + self.item_id@ + ", title = "@ + self.title@ + ", url = "@
                + self.normal_url@,
    {
        "id = ".to_owned().concat(self.item_id.as_str()).concat(", title = ").concat(
            self.title.as_str(),
        ).concat(", url = ").concat(self.normal_url.as_str())
    }
}

impl NewItemInfoResponse {
    /// `status: <status>, item: (<item>)`
    pub fn to_display_string(&self) -> (text: String)
        ensures
            text@ == "status: "@ + decimal(self.status as int) + ", item: ("@ + ("id = "@
                + self.item.item_id@ + ", title = "@ + self.item.title@ + ", url = "@
                + self.item.normal_url@) + ")"@,
    {
        let status = i64_decimal(self.status);
        let item = self.item.to_display_string();
        "status: ".to_owned().concat(status.as_str()).concat(", item: (").concat(
            item.as_str(),
        ).concat(")")
    }
}

impl ItemInfo {
    /// `id = <item_id>, title = <resolved_title>, url = <resolved_url>`
    pub fn to_display_string(&self) -> (text: String)
        ensures
            text@ == "id = "@ + self.item_id@ + ", title = "@ + self.resolved_title@ + ", url = "@
                + self.resolved_url@,
    {
        "id = ".to_owned().concat(self.item_id.as_str()).concat(", title = ").concat(
            self.resolved_title.as_str(),
        ).concat(", url = ").concat(self.resolved_url.as_str())
    }
}

impl ItemsInfoResponse {
    /// `status: <status>, items_count: <number of items>`
    pub fn to_display_string(&self) -> (text: String)
        ensures
            text@ == "status: "@ + decimal(self.status as int) + ", items_count: "@ + decimal(
                self.list.len() as int,
            ),
    {
        let status = i64_decimal(self.status);
        let count = u64_decimal(self.list.len() as u64);
        "status: ".to_owned().concat(status.as_str()).concat(", items_count: ").concat(
            count.as_str(),
        )
    }
}

} // verus!
