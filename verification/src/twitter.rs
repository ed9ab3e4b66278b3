//! The source-platform adapter's core: filtering a fetched timeline page to
//! unseen items, resolving attachments, and normalizing items into generic
//! channel posts.

use vstd::prelude::*;
use vstd::string::*;
use crate::media::{RawMedia, RawMediaModel, TwitterMedia, spec_resolve_keys};
use crate::post::{ChannelPost, ChannelPostMedia, MediaModel, PostModel};
use crate::text::{dec_digits, parse_u64, parse_u64_spec, strip_spec, strip_trailing_link, u64_to_dec};

verus! {

/// Client of the source platform's timeline interface.
pub struct TwitterClient {
    /// Bearer credential sent with every timeline request.
    pub token: String,
}

impl TwitterClient {
    pub fn new(token: String) -> (r: Self)
        ensures
            r.token == token,
    {
        Self { token }
    }
}

/// One normalized timeline item, ready to become a channel post.
#[derive(Clone, Debug, PartialEq, Eq)]
pub struct TwitterTweet {
    pub id: u64,
    pub author_id: u64,
    pub author_name: String,
    pub author_username: String,
    pub text: String,
    pub media: Vec<TwitterMedia>,
}

/// Mathematical model of a normalized timeline item.
pub struct TweetModel {
    pub id: u64,
    pub author_id: u64,
    pub author_name: Seq<char>,
    pub author_username: Seq<char>,
    pub text: Seq<char>,
    pub media: Seq<MediaModel>,
}

impl View for TwitterTweet {
    type V = TweetModel;

    open spec fn view(&self) -> TweetModel {
        TweetModel {
            id: self.id,
            author_id: self.author_id,
            author_name: self.author_name@,
            author_username: self.author_username@,
            text: self.text@,
            media: self.media.deep_view(),
        }
    }
}

impl DeepView for TwitterTweet {
    type V = TweetModel;

    open spec fn deep_view(&self) -> TweetModel {
        self.view()
    }
}

/// One raw timeline item as the source platform shapes it: a decimal item
/// identifier, the text, and the attachment references.
#[derive(Clone, Debug)]
pub struct RawTweet {
    pub id: String,
    pub text: String,
    pub media_keys: Vec<String>,
}

/// Mathematical model of a raw timeline item.
pub struct RawTweetModel {
    pub id: Seq<char>,
    pub text: Seq<char>,
    pub media_keys: Seq<Seq<char>>,
}

impl View for RawTweet {
    type V = RawTweetModel;

    open spec fn view(&self) -> RawTweetModel {
        RawTweetModel { id: self.id@, text: self.text@, media_keys: self.media_keys.deep_view() }
    }
}

impl DeepView for RawTweet {
    type V = RawTweetModel;

    open spec fn deep_view(&self) -> RawTweetModel {
        self.view()
    }
}

/// One author object of the fetch response's side catalog.
#[derive(Clone, Debug)]
pub struct RawUser {
    pub id: String,
    pub name: String,
    pub username: String,
}

/// Mathematical model of an author object.
pub struct RawUserModel {
    pub id: Seq<char>,
    pub name: Seq<char>,
    pub username: Seq<char>,
}

impl View for RawUser {
    type V = RawUserModel;

    open spec fn view(&self) -> RawUserModel {
        RawUserModel { id: self.id@, name: self.name@, username: self.username@ }
    }
}

impl DeepView for RawUser {
    type V = RawUserModel;

    open spec fn deep_view(&self) -> RawUserModel {
        self.view()
    }
}

/// One parsed fetch response: the raw items in the order the platform
/// returned them (newest first), with the media and author catalogs.
#[derive(Clone, Debug)]
pub struct Timeline {
    pub tweets: Vec<RawTweet>,
    pub media: Vec<RawMedia>,
    pub users: Vec<RawUser>,
}

/// Mathematical model of a fetch response.
pub struct TimelineModel {
    pub tweets: Seq<RawTweetModel>,
    pub media: Seq<RawMediaModel>,
    pub users: Seq<RawUserModel>,
}

impl View for Timeline {
    type V = TimelineModel;

    open spec fn view(&self) -> TimelineModel {
        TimelineModel {
            tweets: self.tweets.deep_view(),
            media: self.media.deep_view(),
            users: self.users.deep_view(),
        }
    }
}

/// Why a fetch failed; always scoped to one account, never fatal to a pass.
#[derive(Clone, Copy, Debug, PartialEq, Eq, Structural)]
pub enum FetchError {
    /// The response violates the expected shape: missing author, unknown
    /// media key, video without variants, or a non-numeric identifier.
    Schema,
    /// The network transport failed, or the response never arrived.
    Transport,
}

/// The cursor a fetch filters against: an absent entry means 0, deliver
/// everything.
pub open spec fn spec_cursor(last_id: Option<u64>) -> u64 {
    match last_id {
        Some(c) => c,
        None => 0,
    }
}

/// The first author object carrying `id`, if any.
pub open spec fn spec_find_user(users: Seq<RawUserModel>, id: Seq<char>) -> Option<RawUserModel>
    decreases users.len(),
{
    if users.len() == 0 {
        None
    } else if users[0].id == id {
        Some(users[0])
    } else {
        spec_find_user(users.skip(1), id)
    }
}

/// The text an accepted item keeps: unchanged when it has no media, with a
/// trailing short-link token stripped when it has at least one medium.
pub open spec fn spec_item_text(text: Seq<char>, media_count: nat) -> Seq<char> {
    if media_count == 0 {
        text
    } else {
        strip_spec(text)
    }
}

/// The normalized item built from one accepted raw item.
pub open spec fn spec_tweet_model(
    t: RawTweetModel,
    id: u64,
    author_id: u64,
    author: RawUserModel,
    media: Seq<MediaModel>,
) -> TweetModel {
    TweetModel {
        id: id,
        author_id: author_id,
        author_name: author.name,
        author_username: author.username,
        text: spec_item_text(t.text, media.len()),
        media: media,
    }
}

/// What normalizing the raw items yields, in the platform's order: items at
/// or below the cursor are dropped, each accepted item is resolved and
/// built; `None` marks a schema violation (unparsable item or account
/// identifier, or an unresolvable attachment).
pub open spec fn spec_norm_items(
    ts: Seq<RawTweetModel>,
    cursor: u64,
    cat: Seq<RawMediaModel>,
    author: RawUserModel,
    uid: Seq<char>,
) -> Option<Seq<TweetModel>>
    decreases ts.len(),
{
    if ts.len() == 0 {
        Some(Seq::empty())
    } else {
        let t = ts[0];
        match parse_u64_spec(t.id) {
            None => None,
            Some(id) => if id <= cursor {
                spec_norm_items(ts.skip(1), cursor, cat, author, uid)
            } else {
                match spec_resolve_keys(cat, t.media_keys) {
                    None => None,
                    Some(ms) => match parse_u64_spec(uid) {
                        None => None,
                        Some(aid) => match spec_norm_items(ts.skip(1), cursor, cat, author, uid) {
                            None => None,
                            Some(rest) => Some(
                                seq![spec_tweet_model(t, id, aid, author, ms)] + rest,
                            ),
                        },
                    },
                }
            },
        }
    }
}

/// What one whole fetch response normalizes to: nothing for an empty page,
/// otherwise the filtered items under the page's author object; `None`
/// marks a schema violation, the missing author object included.
pub open spec fn spec_normalize(uid: Seq<char>, last_id: Option<u64>, tl: TimelineModel) -> Option<
    Seq<TweetModel>,
> {
    if tl.tweets.len() == 0 {
        Some(Seq::empty())
    } else {
        match spec_find_user(tl.users, uid) {
            None => None,
            Some(a) => spec_norm_items(tl.tweets, spec_cursor(last_id), tl.media, a, uid),
        }
    }
}

/// The attribution label of a post mirrored from this platform.
pub open spec fn spec_source_label(name: Seq<char>) -> Seq<char> {
    "twitter // "@ + name
}

/// The permalink of one mirrored item.
pub open spec fn spec_permalink(username: Seq<char>, id: u64) -> Seq<char> {
    "https://twitter.com/"@ + username + "/status/"@ + dec_digits(id as nat)
}

/// The generic channel post a normalized item becomes.
pub open spec fn spec_channel_post(t: TweetModel) -> PostModel {
    PostModel {
        text: t.text,
        media: t.media,
        source: spec_source_label(t.author_name),
        source_url: Some(spec_permalink(t.author_username, t.id)),
    }
}

impl From<TwitterTweet> for ChannelPost {
    /// Turn one normalized item into the destination-agnostic post model.
    fn from(tweet: TwitterTweet) -> (r: ChannelPost)
        ensures
            r@ == spec_channel_post(tweet@),
    {
        let mut media: Vec<ChannelPostMedia> = Vec::new();
        let mut i: usize = 0;
        while i < tweet.media.len()
            invariant
                0 <= i <= tweet.media@.len(),
                tweet.media.deep_view().len() == tweet.media@.len(),
                forall|t: int|
                    0 <= t < tweet.media@.len() ==> tweet.media.deep_view()[t] == tweet.media@[t]@,
                media.deep_view() =~= tweet.media.deep_view().take(i as int),
            decreases tweet.media@.len() - i,
        {
            let m = match &tweet.media[i] {
                TwitterMedia::Photo(u) => ChannelPostMedia::Photo(u.clone()),
                TwitterMedia::Video(u) => ChannelPostMedia::Video(u.clone()),
            };
            proof {
                assert(m@ == tweet.media.deep_view()[i as int]);
                assert(media@.push(m).map_values(|x: ChannelPostMedia| x.deep_view())
                    =~= media.deep_view().push(m.deep_view()));
            }
            media.push(m);
            proof {
                assert(media.deep_view() =~= tweet.media.deep_view().take(i + 1));
            }
            i = i + 1;
        }
        proof {
            assert(tweet.media.deep_view().take(tweet.media@.len() as int) =~= tweet.media.deep_view());
        }
        let mut source = "twitter // ".to_owned();
        source.append(tweet.author_name.as_str());
        let mut url = "https://twitter.com/".to_owned();
        url.append(tweet.author_username.as_str());
        url.append("/status/");
        let id_digits = u64_to_dec(tweet.id);
        url.append(id_digits.as_str());
        ChannelPost { text: tweet.text, media, source, source_url: Some(url) }
    }
}

impl vstd::std_specs::convert::FromSpecImpl<TwitterTweet> for ChannelPost {
    open spec fn obeys_from_spec() -> bool {
        false
    }

    open spec fn from_spec(tweet: TwitterTweet) -> ChannelPost {
        arbitrary()
    }
}

/// Text stripping: an item with at least one resolved medium has a
/// trailing short-link token removed from its text; an item with no media
/// keeps its text unmodified, token or not.
pub proof fn lemma_text_stripping(text: Seq<char>, media_count: nat, i: int)
    requires
        media_count > 0,
        crate::text::shortlink_at(text, i),
    ensures
        spec_item_text(text, 0) == text,
        crate::text::first_link_from(text, 0) matches Some(j) && spec_item_text(text, media_count)
            == text.take(j) && j <= i,
{
    crate::text::lemma_strip_removes_token(text, i);
}

/// Copy one normalized item, preserving its model.
pub fn clone_tweet(t: &TwitterTweet) -> (r: TwitterTweet)
    ensures
        r@ == t@,
{
    let mut media: Vec<TwitterMedia> = Vec::new();
    let mut i: usize = 0;
    while i < t.media.len()
        invariant
            0 <= i <= t.media@.len(),
            t.media.deep_view().len() == t.media@.len(),
            forall|k: int| 0 <= k < t.media@.len() ==> t.media.deep_view()[k] == t.media@[k]@,
            media.deep_view() =~= t.media.deep_view().take(i as int),
        decreases t.media@.len() - i,
    {
        let m = crate::media::clone_media(&t.media[i]);
        let ghost prev = media.deep_view();
        media.push(m);
        proof {
            assert(media.deep_view() =~= prev.push(m@));
            assert(prev.push(m@) =~= t.media.deep_view().take(i + 1));
        }
        i = i + 1;
    }
    proof {
        assert(t.media.deep_view().take(t.media@.len() as int) =~= t.media.deep_view());
    }
    TwitterTweet {
        id: t.id,
        author_id: t.author_id,
        author_name: t.author_name.clone(),
        author_username: t.author_username.clone(),
        text: t.text.clone(),
        media,
    }
}

/// Dedup: an item whose identifier is at or below the account's cursor
/// never appears in the normalized fetch result.
pub proof fn lemma_fetch_dedup(
    ts: Seq<RawTweetModel>,
    cursor: u64,
    cat: Seq<RawMediaModel>,
    author: RawUserModel,
    uid: Seq<char>,
)
    ensures
        spec_norm_items(ts, cursor, cat, author, uid) matches Some(v) ==> forall|k: int|
            0 <= k < v.len() ==> v[k].id > cursor,
    decreases ts.len(),
{
    if ts.len() > 0 {
        lemma_fetch_dedup(ts.skip(1), cursor, cat, author, uid);
    }
}

/// Dedup, stated of a whole fetch: with cursor `c`, every returned item is
/// strictly newer than `c`.
pub proof fn lemma_normalize_dedup(uid: Seq<char>, last_id: Option<u64>, tl: TimelineModel)
    ensures
        spec_normalize(uid, last_id, tl) matches Some(v) ==> forall|k: int|
            0 <= k < v.len() ==> v[k].id > spec_cursor(last_id),
{
    if tl.tweets.len() > 0 {
        if spec_find_user(tl.users, uid) is Some {
            lemma_fetch_dedup(tl.tweets, spec_cursor(last_id), tl.media, spec_find_user(tl.users, uid).unwrap(), uid);
        }
    }
}

/// Idempotence: a fetch over a page whose items are all at or below the
/// cursor yields no items, so a re-run against an unchanged remote state
/// publishes nothing.
pub proof fn lemma_fetch_idempotent(uid: Seq<char>, c: u64, tl: TimelineModel)
    requires
        forall|i: int|
            0 <= i < tl.tweets.len() ==> ((#[trigger] parse_u64_spec(tl.tweets[i].id)) matches Some(
                id,
            ) && id <= c),
        tl.tweets.len() > 0 ==> spec_find_user(tl.users, uid) is Some,
    ensures
        spec_normalize(uid, Some(c), tl) == Some(Seq::<TweetModel>::empty()),
{
    if tl.tweets.len() > 0 {
        let a = spec_find_user(tl.users, uid).unwrap();
        lemma_norm_items_all_seen(tl.tweets, c, tl.media, a, uid);
    }
}

/// Normalizing a page whose items all sit at or below the cursor yields the
/// empty item list.
proof fn lemma_norm_items_all_seen(
    ts: Seq<RawTweetModel>,
    cursor: u64,
    cat: Seq<RawMediaModel>,
    author: RawUserModel,
    uid: Seq<char>,
)
    requires
        forall|i: int|
            0 <= i < ts.len() ==> ((#[trigger] parse_u64_spec(ts[i].id)) matches Some(id) && id
                <= cursor),
    ensures
        spec_norm_items(ts, cursor, cat, author, uid) == Some(Seq::<TweetModel>::empty()),
    decreases ts.len(),
{
    if ts.len() > 0 {
        assert(parse_u64_spec(ts[0].id) is Some);
        assert forall|i: int| 0 <= i < ts.skip(1).len() implies (#[trigger] parse_u64_spec(
            ts.skip(1)[i].id,
        )) matches Some(id) && id <= cursor by {
            assert(ts.skip(1)[i] == ts[i + 1]);
            assert(parse_u64_spec(ts[i + 1].id) matches Some(id) && id <= cursor);
        }
        lemma_norm_items_all_seen(ts.skip(1), cursor, cat, author, uid);
    }
}

/// Find the author object for `id` in the response's author catalog.
fn find_user<'a>(users: &'a Vec<RawUser>, id: &String) -> (r: Option<&'a RawUser>)
    ensures
        match spec_find_user(users.deep_view(), id@) {
            Some(u) => r matches Some(x) && x@ == u,
            None => r is None,
        },
{
    let mut i: usize = 0;
    proof {
        assert(users.deep_view().skip(0) =~= users.deep_view());
    }
    while i < users.len()
        invariant
            0 <= i <= users@.len(),
            users.deep_view().len() == users@.len(),
            forall|t: int| 0 <= t < users@.len() ==> users.deep_view()[t] == users@[t].deep_view(),
            spec_find_user(users.deep_view(), id@) == spec_find_user(
                users.deep_view().skip(i as int),
                id@,
            ),
        decreases users@.len() - i,
    {
        proof {
            assert(users.deep_view().skip(i as int)[0] == users.deep_view()[i as int]);
            assert(users.deep_view().skip(i as int).skip(1) =~= users.deep_view().skip(i + 1));
        }
        if users[i].id == *id {
            return Some(&users[i]);
        }
        i = i + 1;
    }
    proof {
        assert(users.deep_view().skip(users@.len() as int) =~= Seq::<RawUserModel>::empty());
    }
    None
}

/// Filter one fetched timeline page to the items strictly newer than the
/// cursor and normalize them, in the platform's newest-first order. Every
/// shape violation is reported as a schema error scoped to this account;
/// nothing here fails the whole pass.
pub fn normalize_timeline(user_id: &String, last_id: Option<u64>, tl: &Timeline) -> (r: Result<
    Vec<TwitterTweet>,
    FetchError,
>)
    ensures
        match r {
            Ok(v) => spec_normalize(user_id@, last_id, tl@) matches Some(s) && v.deep_view() == s,
            Err(e) => e == FetchError::Schema && spec_normalize(user_id@, last_id, tl@) is None,
        },
{
    if tl.tweets.len() == 0 {
        let out: Vec<TwitterTweet> = Vec::new();
        proof {
            assert(out.deep_view() =~= Seq::<TweetModel>::empty());
        }
        return Ok(out);
    }
    let author = match find_user(&tl.users, user_id) {
        Some(a) => a,
        None => {
            return Err(FetchError::Schema);
        },
    };
    let cursor: u64 = match last_id {
        Some(c) => c,
        None => 0,
    };
    let ghost am = author@;
    let mut out: Vec<TwitterTweet> = Vec::new();
    let mut i: usize = 0;
    proof {
        assert(tl@.tweets.skip(0) =~= tl@.tweets);
        if spec_norm_items(tl@.tweets, cursor, tl@.media, am, user_id@) is Some {
            assert(out.deep_view() + spec_norm_items(tl@.tweets, cursor, tl@.media, am, user_id@).unwrap()
                =~= spec_norm_items(tl@.tweets, cursor, tl@.media, am, user_id@).unwrap());
        }
    }
    while i < tl.tweets.len()
        invariant
            0 <= i <= tl.tweets@.len(),
            0 < tl@.tweets.len() == tl.tweets@.len(),
            forall|t: int| 0 <= t < tl.tweets@.len() ==> tl@.tweets[t] == tl.tweets@[t].deep_view(),
            cursor == spec_cursor(last_id),
            spec_find_user(tl@.users, user_id@) == Some(am),
            author@ == am,
            match spec_norm_items(tl@.tweets, cursor, tl@.media, am, user_id@) {
                Some(s) => spec_norm_items(
                    tl@.tweets.skip(i as int),
                    cursor,
                    tl@.media,
                    am,
                    user_id@,
                ) matches Some(rest) && s == out.deep_view() + rest,
                None => spec_norm_items(
                    tl@.tweets.skip(i as int),
                    cursor,
                    tl@.media,
                    am,
                    user_id@,
                ) is None,
            },
        decreases tl.tweets@.len() - i,
    {
        proof {
            assert(tl@.tweets.skip(i as int)[0] == tl@.tweets[i as int]);
            assert(tl@.tweets.skip(i as int).skip(1) =~= tl@.tweets.skip(i + 1));
        }
        let tweet = &tl.tweets[i];
        let id = match parse_u64(tweet.id.as_str()) {
            Some(v) => v,
            None => {
                proof {
                    assert(parse_u64_spec(tl@.tweets.skip(i as int)[0].id) is None);
                    assert(spec_norm_items(
                        tl@.tweets.skip(i as int),
                        cursor,
                        tl@.media,
                        am,
                        user_id@,
                    ) is None);
                }
                return Err(FetchError::Schema);
            },
        };
        if id > cursor {
            let media = match crate::media::resolve_keys(&tl.media, &tweet.media_keys) {
                Some(ms) => ms,
                None => {
                    proof {
                        assert(spec_resolve_keys(tl@.media, tl@.tweets.skip(i as int)[0].media_keys)
                            is None);
                        assert(spec_norm_items(
                            tl@.tweets.skip(i as int),
                            cursor,
                            tl@.media,
                            am,
                            user_id@,
                        ) is None);
                    }
                    return Err(FetchError::Schema);
                },
            };
            let author_id = match parse_u64(user_id.as_str()) {
                Some(v) => v,
                None => {
                    proof {
                        assert(parse_u64_spec(user_id@) is None);
                        assert(spec_norm_items(
                            tl@.tweets.skip(i as int),
                            cursor,
                            tl@.media,
                            am,
                            user_id@,
                        ) is None);
                    }
                    return Err(FetchError::Schema);
                },
            };
            let text = if media.len() == 0 {
                tweet.text.clone()
            } else {
                strip_trailing_link(tweet.text.as_str())
            };
            let item = TwitterTweet {
                id,
                author_id,
                author_name: author.name.clone(),
                author_username: author.username.clone(),
                text,
                media,
            };
            proof {
                assert(item.deep_view() == spec_tweet_model(
                    tl@.tweets[i as int],
                    id,
                    author_id,
                    am,
                    item.deep_view().media,
                ));
                assert(out.deep_view().push(item.deep_view()) =~= out.deep_view() + seq![
                    item.deep_view(),
                ]);
                if spec_norm_items(tl@.tweets, cursor, tl@.media, am, user_id@) matches Some(s) {
                    let rest = spec_norm_items(
                        tl@.tweets.skip(i as int),
                        cursor,
                        tl@.media,
                        am,
                        user_id@,
                    ).unwrap();
                    let rest2 = spec_norm_items(
                        tl@.tweets.skip(i + 1),
                        cursor,
                        tl@.media,
                        am,
                        user_id@,
                    ).unwrap();
                    assert(out.deep_view() + (seq![item.deep_view()] + rest2) =~= (out.deep_view()
                        + seq![item.deep_view()]) + rest2);
                }
            }
            out.push(item);
        }
        i = i + 1;
    }
    proof {
        assert(tl@.tweets.skip(tl.tweets@.len() as int) =~= Seq::<RawTweetModel>::empty());
        if spec_norm_items(tl@.tweets, cursor, tl@.media, am, user_id@) matches Some(s) {
            assert(out.deep_view() + Seq::<TweetModel>::empty() =~= out.deep_view());
        }
    }
    Ok(out)
}

} // verus!
