//! The destination-agnostic post model: the contract between the source
//! fetchers and the publisher.

use vstd::prelude::*;

verus! {

/// Generic media attached to a channel post.
#[derive(Clone, Debug, PartialEq, Eq)]
pub enum ChannelPostMedia {
    /// A photo, by direct URL.
    Photo(String),
    /// A video (or animation), by direct URL.
    Video(String),
}

/// Mathematical model of one attached medium.
pub enum MediaModel {
    Photo(Seq<char>),
    Video(Seq<char>),
}

impl View for ChannelPostMedia {
    type V = MediaModel;

    open spec fn view(&self) -> MediaModel {
        match self {
            ChannelPostMedia::Photo(u) => MediaModel::Photo(u@),
            ChannelPostMedia::Video(u) => MediaModel::Video(u@),
        }
    }
}

impl DeepView for ChannelPostMedia {
    type V = MediaModel;

    open spec fn deep_view(&self) -> MediaModel {
        self.view()
    }
}

/// Generic channel post, produced by a source fetcher and consumed exactly
/// once by the publisher.
#[derive(Clone, Debug)]
pub struct ChannelPost {
    /// Post text. May be the empty string.
    pub text: String,
    /// Ordered media list. May be empty.
    pub media: Vec<ChannelPostMedia>,
    /// Attribution label, `<platform> // <author display name>`.
    pub source: String,
    /// Permalink back to the original item, when one can be derived.
    pub source_url: Option<String>,
}

/// Mathematical model of a channel post.
pub struct PostModel {
    pub text: Seq<char>,
    pub media: Seq<MediaModel>,
    pub source: Seq<char>,
    pub source_url: Option<Seq<char>>,
}

impl View for ChannelPost {
    type V = PostModel;

    open spec fn view(&self) -> PostModel {
        PostModel {
            text: self.text@,
            media: self.media.deep_view(),
            source: self.source@,
            source_url: match self.source_url {
                Some(ref u) => Some(u@),
                None => None,
            },
        }
    }
}

impl DeepView for ChannelPost {
    type V = PostModel;

    open spec fn deep_view(&self) -> PostModel {
        self.view()
    }
}

/// A source of channel posts; implementors fetch everything newer than the
/// last delivered item.
pub trait PostFabric {
    /// Identifier of the last delivered post; 0 when nothing was delivered yet.
    fn last_id(&self) -> u64;

    /// Fetch the posts newer than `last_id`, returning an empty list on failure.
    fn fetch_last_posts(&self) -> Vec<ChannelPost>;
}

} // verus!
