//! The metadata provider's answer and the request sent to it.

use crate::text::{join, join_with, views_of};
use vstd::prelude::*;

verus! {

/// Metadata of one video as the provider describes it; any field may be absent.
#[derive(Debug, Clone)]
pub struct ResponseSnippet {
    pub published_at: Option<String>,
    pub channel_id: Option<String>,
    pub title: Option<String>,
    pub description: Option<String>,
    pub channel_title: Option<String>,
    pub tags: Option<Vec<String>>,
    pub category_id: Option<String>,
}

/// One record of the provider's answer.
#[derive(Debug, Clone)]
pub struct ResponseItem {
    pub kind: String,
    pub id: String,
    pub snippet: ResponseSnippet,
}

/// The provider's answer to one batched request.
#[derive(Debug)]
pub struct Response {
    pub kind: String,
    pub items: Vec<ResponseItem>,
}

/// The text of an optional field; an absent field reads as empty.
pub open spec fn text_or_empty(field: Option<String>) -> Seq<char> {
    match field {
        Some(s) => s@,
        None => Seq::empty(),
    }
}

/// Takes the text out of an optional field, empty where it is absent.
pub fn take_text(field: Option<String>) -> (r: String)
    ensures
        r@ == text_or_empty(field),
{
    match field {
        Some(s) => s,
        None => String::new(),
    }
}

/// The provider's endpoint for video metadata, asking for snippet, content details and statistics.
pub const VIDEOS_API_URL: &'static str =
    "https://youtube.googleapis.com/youtube/v3/videos?part=snippet%2CcontentDetails%2Cstatistics";

/// The request URL that asks the provider for the metadata of the videos `video_ids`,
/// authenticated by `api_key`.
pub fn create_videos_request(video_ids: &[String], api_key: &str) -> (r: String)
    ensures
        r@ == VIDEOS_API_URL@ + "&id="@ + join_with(views_of(video_ids@), ","@) + "&key="@ + api_key@,
{
    let mut url = String::from_str(VIDEOS_API_URL);
    url.append("&id=");
    let ids = join(video_ids, ",");
    url.append(ids.as_str());
    url.append("&key=");
    url.append(api_key);
    url
}

} // verus!
