//! The destination-platform adapter's core: deciding whether a post is sent
//! at all, composing the grouped-media submission with its caption, and
//! turning the destination's reply into a publish outcome.

use vstd::prelude::*;
use vstd::string::*;
use crate::post::{ChannelPost, ChannelPostMedia, MediaModel, PostModel};
use crate::text::{escape_html, escape_seq};

verus! {

/// Client of the destination platform's post-creation interface.
pub struct TelegramClient {
    /// Bearer credential embedded in the endpoint path.
    pub token: String,
}

impl TelegramClient {
    pub fn new(token: String) -> (r: Self)
        ensures
            r.token == token,
    {
        Self { token }
    }
}

/// Outcome of publishing one post.
#[derive(Clone, Debug, PartialEq, Eq)]
pub enum TelegramResponse {
    Success,
    /// The destination rejected the item: its error code and description.
    Error(u16, String),
}

/// Mathematical model of a publish outcome.
pub enum ResponseModel {
    Success,
    Error(u16, Seq<char>),
}

impl View for TelegramResponse {
    type V = ResponseModel;

    open spec fn view(&self) -> ResponseModel {
        match self {
            TelegramResponse::Success => ResponseModel::Success,
            TelegramResponse::Error(c, d) => ResponseModel::Error(*c, d@),
        }
    }
}

/// One element of a grouped-media submission.
#[derive(Clone, Debug, PartialEq, Eq)]
pub struct TelegramInputMedia {
    pub kind: String,
    pub media: String,
    pub caption: String,
    pub parse_mode: String,
}

/// Mathematical model of one submission element.
pub struct InputMediaModel {
    pub kind: Seq<char>,
    pub media: Seq<char>,
    pub caption: Seq<char>,
    pub parse_mode: Seq<char>,
}

impl View for TelegramInputMedia {
    type V = InputMediaModel;

    open spec fn view(&self) -> InputMediaModel {
        InputMediaModel {
            kind: self.kind@,
            media: self.media@,
            caption: self.caption@,
            parse_mode: self.parse_mode@,
        }
    }
}

impl DeepView for TelegramInputMedia {
    type V = InputMediaModel;

    open spec fn deep_view(&self) -> InputMediaModel {
        self.view()
    }
}

/// The bare submission element one medium becomes, caption not yet set.
pub open spec fn spec_input_item(m: MediaModel) -> InputMediaModel {
    match m {
        MediaModel::Photo(u) => InputMediaModel {
            kind: "photo"@,
            media: u,
            caption: Seq::empty(),
            parse_mode: Seq::empty(),
        },
        MediaModel::Video(u) => InputMediaModel {
            kind: "video"@,
            media: u,
            caption: Seq::empty(),
            parse_mode: Seq::empty(),
        },
    }
}

/// The caption when a permalink is present: escaped text, a blank line, and
/// an attribution anchor linking the escaped source label to the permalink.
pub open spec fn spec_caption_linked(text: Seq<char>, source: Seq<char>, url: Seq<char>) -> Seq<
    char,
> {
    escape_seq(text) + "\n\nsrc: <a href=\""@ + url + "\">"@ + escape_seq(source) + "</a>"@
}

/// The caption when no permalink is known: plain, unescaped text and label.
pub open spec fn spec_caption_plain(text: Seq<char>, source: Seq<char>) -> Seq<char> {
    text + "\n\nsrc: "@ + source
}

/// The grouped-media submission a post becomes: one element per medium, the
/// first element alone carrying the composed caption, with rich-text
/// rendering switched on exactly when a permalink is present. `None` when
/// the post has no media: such a post is not sent at all and publishing it
/// succeeds without any destination call.
pub open spec fn spec_media_group(p: PostModel) -> Option<Seq<InputMediaModel>> {
    if p.media.len() == 0 {
        None
    } else {
        let base = Seq::new(p.media.len(), |i: int| spec_input_item(p.media[i]));
        let head = base[0];
        let first = match p.source_url {
            Some(u) => InputMediaModel {
                kind: head.kind,
                media: head.media,
                caption: spec_caption_linked(p.text, p.source, u),
                parse_mode: "HTML"@,
            },
            None => InputMediaModel {
                kind: head.kind,
                media: head.media,
                caption: spec_caption_plain(p.text, p.source),
                parse_mode: Seq::empty(),
            },
        };
        Some(base.update(0, first))
    }
}

fn input_item(m: &ChannelPostMedia) -> (r: TelegramInputMedia)
    ensures
        r@ == spec_input_item(m@),
{
    match m {
        ChannelPostMedia::Photo(u) => TelegramInputMedia {
            kind: "photo".to_owned(),
            media: u.clone(),
            caption: String::new(),
            parse_mode: String::new(),
        },
        ChannelPostMedia::Video(u) => TelegramInputMedia {
            kind: "video".to_owned(),
            media: u.clone(),
            caption: String::new(),
            parse_mode: String::new(),
        },
    }
}

/// Compose the caption of the first submission element.
fn compose_caption(post: &ChannelPost) -> (r: (String, String))
    ensures
        match post@.source_url {
            Some(u) => r.0@ == spec_caption_linked(post@.text, post@.source, u) && r.1@
                == "HTML"@,
            None => r.0@ == spec_caption_plain(post@.text, post@.source) && r.1@ == Seq::<
                char,
            >::empty(),
        },
{
    match &post.source_url {
        Some(u) => {
            let mut c = escape_html(post.text.clone());
            c.append("\n\nsrc: <a href=\"");
            c.append(u.as_str());
            c.append("\">");
            let src = escape_html(post.source.clone());
            c.append(src.as_str());
            c.append("</a>");
            (c, "HTML".to_owned())
        },
        None => {
            let mut c = post.text.clone();
            c.append("\n\nsrc: ");
            c.append(post.source.as_str());
            (c, String::new())
        },
    }
}

/// Build the grouped-media submission for `post`, or nothing when the post
/// has no media and is to be skipped with a success outcome.
pub fn build_media_group(post: &ChannelPost) -> (r: Option<Vec<TelegramInputMedia>>)
    ensures
        match spec_media_group(post@) {
            Some(ms) => r matches Some(v) && v.deep_view() == ms,
            None => r is None && post@.media.len() == 0,
        },
{
    if post.media.len() == 0 {
        return None;
    }
    let (caption, parse_mode) = compose_caption(post);
    let head = input_item(&post.media[0]);
    let first = TelegramInputMedia { kind: head.kind, media: head.media, caption, parse_mode };
    let mut out: Vec<TelegramInputMedia> = Vec::new();
    out.push(first);
    let ghost base = Seq::new(post@.media.len(), |i: int| spec_input_item(post@.media[i]));
    proof {
        assert(post@.media[0] == post.media@[0].deep_view());
        assert(out.deep_view() =~= base.update(0, spec_media_group(post@).unwrap()[0]).take(1));
    }
    let mut i: usize = 1;
    while i < post.media.len()
        invariant
            1 <= i <= post.media@.len(),
            post@.media.len() == post.media@.len(),
            forall|t: int| 0 <= t < post.media@.len() ==> post@.media[t] == post.media@[t].deep_view(),
            spec_media_group(post@) matches Some(ms) && ms.len() == post.media@.len(),
            out.deep_view() =~= spec_media_group(post@).unwrap().take(i as int),
        decreases post.media@.len() - i,
    {
        let item = input_item(&post.media[i]);
        proof {
            assert(spec_media_group(post@).unwrap()[i as int] == spec_input_item(
                post@.media[i as int],
            ));
        }
        let ghost prev = out.deep_view();
        out.push(item);
        proof {
            assert(out.deep_view() =~= prev.push(item@));
            assert(prev.push(item@) =~= spec_media_group(post@).unwrap().take(i + 1));
        }
        i = i + 1;
    }
    proof {
        assert(spec_media_group(post@).unwrap().take(post.media@.len() as int)
            =~= spec_media_group(post@).unwrap());
    }
    Some(out)
}

/// The text synthesized when a destination error body cannot be read.
pub open spec fn internal_error_text() -> Seq<char> {
    "(platfoxbot) Internal Error"@
}

/// The publish outcome a destination reply maps to: success for a 2xx
/// status; otherwise the structured error read from the body, or the
/// synthetic generic error when the body yielded none.
pub open spec fn spec_outcome(status_ok: bool, body_error: Option<(u16, Seq<char>)>) -> ResponseModel {
    if status_ok {
        ResponseModel::Success
    } else {
        match body_error {
            Some(e) => ResponseModel::Error(e.0, e.1),
            None => ResponseModel::Error(0, internal_error_text()),
        }
    }
}

/// Map a destination reply to the publish outcome: `status_ok` says whether
/// the status was 2xx, `body_error` carries the error body's code and
/// description when one could be read.
pub fn response_outcome(status_ok: bool, body_error: Option<(u16, String)>) -> (r: TelegramResponse)
    ensures
        r@ == spec_outcome(
            status_ok,
            match body_error {
                Some(e) => Some((e.0, e.1@)),
                None => None,
            },
        ),
{
    if status_ok {
        TelegramResponse::Success
    } else {
        match body_error {
            Some(e) => TelegramResponse::Error(e.0, e.1),
            None => TelegramResponse::Error(0, "(platfoxbot) Internal Error".to_owned()),
        }
    }
}

} // verus!
