//! Media resolution: choosing one concrete URL per attachment reference,
//! against the media catalog of the current fetch response.

use vstd::prelude::*;
use vstd::string::*;
use crate::post::MediaModel;

verus! {

/// One quality rendition of a video medium, as the source platform lists it.
#[derive(Clone, Debug)]
pub struct RawVariant {
    pub bitrate: Option<u32>,
    pub url: String,
}

/// Mathematical model of a variant.
pub struct VariantModel {
    pub bitrate: Option<u32>,
    pub url: Seq<char>,
}

impl View for RawVariant {
    type V = VariantModel;

    open spec fn view(&self) -> VariantModel {
        VariantModel { bitrate: self.bitrate, url: self.url@ }
    }
}

impl DeepView for RawVariant {
    type V = VariantModel;

    open spec fn deep_view(&self) -> VariantModel {
        self.view()
    }
}

/// One entry of the media catalog attached to a fetch response.
#[derive(Clone, Debug)]
pub struct RawMedia {
    pub media_key: String,
    pub kind: String,
    pub url: Option<String>,
    pub variants: Option<Vec<RawVariant>>,
}

/// Mathematical model of a catalog entry.
pub struct RawMediaModel {
    pub media_key: Seq<char>,
    pub kind: Seq<char>,
    pub url: Option<Seq<char>>,
    pub variants: Option<Seq<VariantModel>>,
}

impl View for RawMedia {
    type V = RawMediaModel;

    open spec fn view(&self) -> RawMediaModel {
        RawMediaModel {
            media_key: self.media_key@,
            kind: self.kind@,
            url: match self.url {
                Some(ref u) => Some(u@),
                None => None,
            },
            variants: match self.variants {
                Some(ref vs) => Some(vs.deep_view()),
                None => None,
            },
        }
    }
}

impl DeepView for RawMedia {
    type V = RawMediaModel;

    open spec fn deep_view(&self) -> RawMediaModel {
        self.view()
    }
}

/// A resolved medium of a source item.
#[derive(Clone, Debug, PartialEq, Eq)]
pub enum TwitterMedia {
    Photo(String),
    Video(String),
}

impl View for TwitterMedia {
    type V = MediaModel;

    open spec fn view(&self) -> MediaModel {
        match self {
            TwitterMedia::Photo(u) => MediaModel::Photo(u@),
            TwitterMedia::Video(u) => MediaModel::Video(u@),
        }
    }
}

impl DeepView for TwitterMedia {
    type V = MediaModel;

    open spec fn deep_view(&self) -> MediaModel {
        self.view()
    }
}

/// Order on declared bitrates: an undeclared bitrate ranks below every
/// declared one.
pub open spec fn bitrate_lt(a: Option<u32>, b: Option<u32>) -> bool {
    match (a, b) {
        (Option::None, Option::Some(_)) => true,
        (Option::Some(x), Option::Some(y)) => x < y,
        _ => false,
    }
}

/// The variant with the maximum declared bitrate; among equally maximal
/// variants, the last one listed.
pub open spec fn spec_best_variant(vs: Seq<VariantModel>) -> Option<VariantModel>
    decreases vs.len(),
{
    if vs.len() == 0 {
        None
    } else {
        let l = vs.last();
        match spec_best_variant(vs.drop_last()) {
            Some(b) => if bitrate_lt(l.bitrate, b.bitrate) {
                Some(b)
            } else {
                Some(l)
            },
            None => Some(l),
        }
    }
}

/// The kind string marking a directly addressed photo.
pub open spec fn photo_kind() -> Seq<char> {
    "photo"@
}

/// What resolving one catalog entry yields: a photo's direct URL, or the
/// maximum-bitrate variant's URL for any other kind; `None` marks a schema
/// violation (photo without URL, video without variants).
pub open spec fn spec_resolve_media(m: RawMediaModel) -> Option<MediaModel> {
    if m.kind == photo_kind() {
        match m.url {
            Some(u) => Some(MediaModel::Photo(u)),
            None => None,
        }
    } else {
        match m.variants {
            Some(vs) => match spec_best_variant(vs) {
                Some(v) => Some(MediaModel::Video(v.url)),
                None => None,
            },
            None => None,
        }
    }
}

/// The first catalog entry carrying `key`, if any.
pub open spec fn spec_find_media(cat: Seq<RawMediaModel>, key: Seq<char>) -> Option<RawMediaModel>
    decreases cat.len(),
{
    if cat.len() == 0 {
        None
    } else if cat[0].media_key == key {
        Some(cat[0])
    } else {
        spec_find_media(cat.skip(1), key)
    }
}

/// What resolving one attachment reference against the catalog yields;
/// `None` marks a schema violation (key absent, or its entry unresolvable).
pub open spec fn spec_resolve_key(cat: Seq<RawMediaModel>, key: Seq<char>) -> Option<MediaModel> {
    match spec_find_media(cat, key) {
        Some(m) => spec_resolve_media(m),
        None => None,
    }
}

/// What resolving a whole attachment list yields, in order; `None` as soon
/// as any single reference is a schema violation.
pub open spec fn spec_resolve_keys(cat: Seq<RawMediaModel>, keys: Seq<Seq<char>>) -> Option<
    Seq<MediaModel>,
>
    decreases keys.len(),
{
    if keys.len() == 0 {
        Some(Seq::empty())
    } else {
        match spec_resolve_key(cat, keys[0]) {
            Some(m) => match spec_resolve_keys(cat, keys.skip(1)) {
                Some(rest) => Some(seq![m] + rest),
                None => None,
            },
            None => None,
        }
    }
}

/// Copy one resolved medium, preserving its model.
pub fn clone_media(m: &TwitterMedia) -> (r: TwitterMedia)
    ensures
        r@ == m@,
{
    match m {
        TwitterMedia::Photo(u) => TwitterMedia::Photo(u.clone()),
        TwitterMedia::Video(u) => TwitterMedia::Video(u.clone()),
    }
}

fn bitrate_lt_exec(a: &Option<u32>, b: &Option<u32>) -> (r: bool)
    ensures
        r == bitrate_lt(*a, *b),
{
    match (a, b) {
        (Option::None, Option::Some(_)) => true,
        (Option::Some(x), Option::Some(y)) => *x < *y,
        _ => false,
    }
}

/// Choose the maximum-bitrate variant's URL; `None` for an empty list.
pub fn best_variant_url(vs: &Vec<RawVariant>) -> (r: Option<String>)
    ensures
        match spec_best_variant(vs.deep_view()) {
            Some(v) => r matches Some(u) && u@ == v.url,
            None => r is None,
        },
{
    let mut r: Option<&RawVariant> = None;
    let mut i: usize = 0;
    while i < vs.len()
        invariant
            0 <= i <= vs@.len(),
            vs.deep_view().len() == vs@.len(),
            forall|t: int| 0 <= t < vs@.len() ==> vs.deep_view()[t] == vs@[t].deep_view(),
            match spec_best_variant(vs.deep_view().take(i as int)) {
                Some(v) => r matches Some(x) && x@ == v,
                None => r is None,
            },
        decreases vs@.len() - i,
    {
        proof {
            assert(vs.deep_view().take(i + 1).drop_last() =~= vs.deep_view().take(i as int));
            assert(vs.deep_view().take(i + 1).last() == vs.deep_view()[i as int]);
        }
        match r {
            Some(b) => {
                if bitrate_lt_exec(&vs[i].bitrate, &b.bitrate) {
                    // keep the current best
                } else {
                    r = Some(&vs[i]);
                }
            },
            None => {
                r = Some(&vs[i]);
            },
        }
        i = i + 1;
    }
    proof {
        assert(vs.deep_view().take(vs@.len() as int) =~= vs.deep_view());
    }
    match r {
        Some(v) => Some(v.url.clone()),
        None => None,
    }
}

/// Find the first catalog entry carrying `key`.
fn find_media<'a>(cat: &'a Vec<RawMedia>, key: &String) -> (r: Option<&'a RawMedia>)
    ensures
        match spec_find_media(cat.deep_view(), key@) {
            Some(m) => r matches Some(x) && x@ == m,
            None => r is None,
        },
{
    let mut i: usize = 0;
    proof {
        assert(cat.deep_view().skip(0) =~= cat.deep_view());
    }
    while i < cat.len()
        invariant
            0 <= i <= cat@.len(),
            cat.deep_view().len() == cat@.len(),
            forall|t: int| 0 <= t < cat@.len() ==> cat.deep_view()[t] == cat@[t].deep_view(),
            spec_find_media(cat.deep_view(), key@) == spec_find_media(
                cat.deep_view().skip(i as int),
                key@,
            ),
        decreases cat@.len() - i,
    {
        proof {
            assert(cat.deep_view().skip(i as int)[0] == cat.deep_view()[i as int]);
            assert(cat.deep_view().skip(i as int).skip(1) =~= cat.deep_view().skip(i + 1));
        }
        if cat[i].media_key == *key {
            return Some(&cat[i]);
        }
        i = i + 1;
    }
    proof {
        assert(cat.deep_view().skip(cat@.len() as int) =~= Seq::<RawMediaModel>::empty());
    }
    None
}

/// Resolve one catalog entry to a concrete medium.
pub fn resolve_media(m: &RawMedia) -> (r: Option<TwitterMedia>)
    ensures
        match spec_resolve_media(m@) {
            Some(mm) => r matches Some(x) && x@ == mm,
            None => r is None,
        },
{
    let photo = "photo".to_owned();
    if m.kind == photo {
        match &m.url {
            Some(u) => Some(TwitterMedia::Photo(u.clone())),
            None => None,
        }
    } else {
        match &m.variants {
            Some(vs) => match best_variant_url(vs) {
                Some(u) => Some(TwitterMedia::Video(u)),
                None => None,
            },
            None => None,
        }
    }
}

/// Resolve a whole attachment list against the catalog; `None` on the first
/// schema violation.
pub fn resolve_keys(cat: &Vec<RawMedia>, keys: &Vec<String>) -> (r: Option<Vec<TwitterMedia>>)
    ensures
        match spec_resolve_keys(cat.deep_view(), keys.deep_view()) {
            Some(ms) => r matches Some(v) && v.deep_view() == ms,
            None => r is None,
        },
{
    let mut out: Vec<TwitterMedia> = Vec::new();
    let mut i: usize = 0;
    proof {
        assert(keys.deep_view().skip(0) =~= keys.deep_view());
        if spec_resolve_keys(cat.deep_view(), keys.deep_view()) is Some {
            assert(out.deep_view() + spec_resolve_keys(cat.deep_view(), keys.deep_view()).unwrap()
                =~= spec_resolve_keys(cat.deep_view(), keys.deep_view()).unwrap());
        }
    }
    while i < keys.len()
        invariant
            0 <= i <= keys@.len(),
            keys.deep_view().len() == keys@.len(),
            forall|t: int| 0 <= t < keys@.len() ==> keys.deep_view()[t] == keys@[t]@,
            match spec_resolve_keys(cat.deep_view(), keys.deep_view()) {
                Some(ms) => spec_resolve_keys(cat.deep_view(), keys.deep_view().skip(i as int))
                    matches Some(rest) && ms == out.deep_view() + rest,
                None => spec_resolve_keys(
                    cat.deep_view(),
                    keys.deep_view().skip(i as int),
                ) is None,
            },
        decreases keys@.len() - i,
    {
        proof {
            assert(keys.deep_view().skip(i as int)[0] == keys.deep_view()[i as int]);
            assert(keys.deep_view().skip(i as int).skip(1) =~= keys.deep_view().skip(i + 1));
        }
        let resolved = match find_media(cat, &keys[i]) {
            Some(m) => resolve_media(m),
            None => None,
        };
        match resolved {
            Some(m) => {
                out.push(m);
            },
            None => {
                return None;
            },
        }
        i = i + 1;
    }
    proof {
        assert(keys.deep_view().skip(keys@.len() as int) =~= Seq::<Seq<char>>::empty());
    }
    Some(out)
}

} // verus!
