//! The answer that describes one stored discussion topic.
use vstd::prelude::*;

use crate::db::{encode_oid, is_base64_url_of};

verus! {

/// The author of a topic.
pub struct Author {
    pub uid: String,
    pub name: String,
    pub email: String,
}

/// The channel a topic was posted in.
pub struct Channel {
    pub cid: String,
    pub title: String,
    pub tags: Vec<String>,
}

/// A topic with its author and channel.
pub struct TopicPayload {
    pub success: bool,
    pub message: String,
    pub author: Author,
    pub channel: Channel,
    pub title: String,
    pub content: String,
    pub created_at: i64,
}

impl Channel {
    /// A channel known only by id: untitled and untagged.
    pub fn new(cid: [u8; 12]) -> (r: Channel)
        ensures
            is_base64_url_of(r.cid@, cid@),
            r.title@ == "unset"@,
            r.tags@.len() == 0,
    {
        Channel { cid: encode_oid(cid), title: "unset".to_string(), tags: Vec::new() }
    }
}

impl TopicPayload {
    /// The answer for a topic record and its author's record; ids go out
    /// in their path form.
    pub fn new(
        author_id: [u8; 12],
        author_name: String,
        author_email: String,
        channel_id: [u8; 12],
        title: String,
        content: String,
        created_at: i64,
    ) -> (r: TopicPayload)
        ensures
            r.success,
            r.message@ == "Topic queried"@,
            is_base64_url_of(r.author.uid@, author_id@),
            r.author.name@ == author_name@,
            r.author.email@ == author_email@,
            is_base64_url_of(r.channel.cid@, channel_id@),
            r.channel.title@ == "unset"@,
            r.channel.tags@.len() == 0,
            r.title@ == title@,
            r.content@ == content@,
            r.created_at == created_at,
    {
        TopicPayload {
            success: true,
            message: "Topic queried".to_string(),
            author: Author { uid: encode_oid(author_id), name: author_name, email: author_email },
            channel: Channel::new(channel_id),
            title,
            content,
            created_at,
        }
    }
}

} // verus!
