//! The cursor store and the pass orchestration core: advancing per-account
//! cursors from fetch results, ordering items for chronological delivery,
//! and aggregating a pass's outcome.

use vstd::prelude::*;
use vstd::string::*;
use crate::telegram::TelegramResponse;
use crate::text::dec_digits;
use crate::text::u64_to_dec;
use crate::twitter::{FetchError, TweetModel, TwitterTweet};

verus! {

/// The mapping a list of account/cursor entries denotes; a later entry for
/// the same account wins.
pub open spec fn entries_map(s: Seq<(String, u64)>) -> Map<Seq<char>, u64>
    decreases s.len(),
{
    if s.len() == 0 {
        Map::empty()
    } else {
        entries_map(s.drop_last()).insert(s.last().0@, s.last().1)
    }
}

/// At most one entry per account.
pub open spec fn unique_keys(s: Seq<(String, u64)>) -> bool {
    forall|i: int, j: int| 0 <= i < j < s.len() ==> s[i].0@ != s[j].0@
}

/// The cursor an account is at: its mapped value, or 0 when the account has
/// no entry yet (deliver everything).
pub open spec fn cursor_lookup(m: Map<Seq<char>, u64>, k: Seq<char>) -> u64 {
    if m.contains_key(k) {
        m[k]
    } else {
        0
    }
}

/// An account is in the denoted mapping exactly when some entry carries it.
proof fn lemma_entries_map_domain(s: Seq<(String, u64)>, k: Seq<char>)
    ensures
        entries_map(s).contains_key(k) <==> exists|i: int| 0 <= i < s.len() && s[i].0@ == k,
    decreases s.len(),
{
    if s.len() > 0 {
        lemma_entries_map_domain(s.drop_last(), k);
        if s.last().0@ == k {
            assert(s[s.len() - 1].0@ == k);
        } else {
            if entries_map(s).contains_key(k) {
                let i = choose|i: int| 0 <= i < s.drop_last().len() && s.drop_last()[i].0@ == k;
                assert(s[i].0@ == k);
            }
            if exists|i: int| 0 <= i < s.len() && s[i].0@ == k {
                let i = choose|i: int| 0 <= i < s.len() && s[i].0@ == k;
                assert(s.drop_last()[i].0@ == k);
            }
        }
    }
}

/// With unique keys, the entry at `i` gives its account's mapped value.
proof fn lemma_entries_map_value(s: Seq<(String, u64)>, i: int)
    requires
        unique_keys(s),
        0 <= i < s.len(),
    ensures
        entries_map(s).contains_key(s[i].0@),
        entries_map(s)[s[i].0@] == s[i].1,
    decreases s.len(),
{
    if i < s.len() - 1 {
        assert(unique_keys(s.drop_last()));
        assert(s.drop_last()[i] == s[i]);
        lemma_entries_map_value(s.drop_last(), i);
        assert(s.last().0@ != s[i].0@);
    }
}

/// With unique keys, overwriting the entry that carries an account denotes
/// inserting into the mapping.
proof fn lemma_entries_map_update(s: Seq<(String, u64)>, i: int, p: (String, u64))
    requires
        unique_keys(s),
        0 <= i < s.len(),
        p.0@ == s[i].0@,
    ensures
        entries_map(s.update(i, p)) == entries_map(s).insert(p.0@, p.1),
        unique_keys(s.update(i, p)),
    decreases s.len(),
{
    if i == s.len() - 1 {
        assert(s.update(i, p).drop_last() =~= s.drop_last());
        assert(s.update(i, p).last() == p);
        assert(entries_map(s.drop_last()).insert(p.0@, p.1) =~= entries_map(s.drop_last()).insert(
            s.last().0@,
            s.last().1,
        ).insert(p.0@, p.1));
    } else {
        assert(unique_keys(s.drop_last()));
        assert(s.drop_last()[i] == s[i]);
        lemma_entries_map_update(s.drop_last(), i, p);
        assert(s.update(i, p).drop_last() =~= s.drop_last().update(i, p));
        assert(s.update(i, p).last() == s.last());
        assert(s.last().0@ != p.0@);
        assert(entries_map(s.drop_last()).insert(p.0@, p.1).insert(s.last().0@, s.last().1)
            =~= entries_map(s.drop_last()).insert(s.last().0@, s.last().1).insert(p.0@, p.1));
    }
}

/// Persisted mapping of account identifier to the highest item identifier
/// already delivered.
pub struct CursorStore {
    entries: Vec<(String, u64)>,
}

impl View for CursorStore {
    type V = Map<Seq<char>, u64>;

    closed spec fn view(&self) -> Map<Seq<char>, u64> {
        entries_map(self.entries@)
    }
}

impl CursorStore {
    /// Well-formed: one entry per account.
    pub closed spec fn wf(&self) -> bool {
        unique_keys(self.entries@)
    }

    /// The empty store: no account has delivered anything yet.
    pub fn new() -> (r: Self)
        ensures
            r.wf(),
            r@ == Map::<Seq<char>, u64>::empty(),
    {
        CursorStore { entries: Vec::new() }
    }

    /// The stored cursor of `account`, if it has one.
    pub fn get(&self, account: &String) -> (r: Option<u64>)
        requires
            self.wf(),
        ensures
            r == (if self@.contains_key(account@) {
                Some(self@[account@])
            } else {
                None::<u64>
            }),
    {
        let mut i: usize = 0;
        while i < self.entries.len()
            invariant
                0 <= i <= self.entries@.len(),
                self.wf(),
                forall|t: int| 0 <= t < i ==> self.entries@[t].0@ != account@,
            decreases self.entries@.len() - i,
        {
            if self.entries[i].0 == *account {
                proof {
                    lemma_entries_map_value(self.entries@, i as int);
                }
                return Some(self.entries[i].1);
            }
            i = i + 1;
        }
        proof {
            lemma_entries_map_domain(self.entries@, account@);
        }
        None
    }

    /// The cursor a fetch for `account` filters against: the stored value,
    /// or 0 when none is stored.
    pub fn cursor_of(&self, account: &String) -> (r: u64)
        requires
            self.wf(),
        ensures
            r == cursor_lookup(self@, account@),
    {
        match self.get(account) {
            Some(v) => v,
            None => 0,
        }
    }

    /// Map `account` to `id`, overwriting any earlier entry.
    pub fn set(&mut self, account: String, id: u64)
        requires
            old(self).wf(),
        ensures
            final(self).wf(),
            final(self)@ == old(self)@.insert(account@, id),
    {
        let mut i: usize = 0;
        while i < self.entries.len()
            invariant
                0 <= i <= self.entries@.len(),
                self.wf(),
                self.entries@ == old(self).entries@,
                forall|t: int| 0 <= t < i ==> self.entries@[t].0@ != account@,
            decreases self.entries@.len() - i,
        {
            if self.entries[i].0 == account {
                let ghost s0 = self.entries@;
                let entry = (account, id);
                proof {
                    lemma_entries_map_update(s0, i as int, entry);
                }
                self.entries[i] = entry;
                return ;
            }
            i = i + 1;
        }
        let ghost s0 = self.entries@;
        let entry = (account, id);
        let ghost p = entry;
        self.entries.push(entry);
        proof {
            assert(self.entries@.drop_last() =~= s0);
            assert(self.entries@.last() == p);
            assert forall|a: int, b: int| 0 <= a < b < self.entries@.len() implies self.entries@[a].0@
                != self.entries@[b].0@ by {
                if b == self.entries@.len() - 1 {
                    assert(s0[a].0@ != account@);
                }
            }
        }
    }

    /// The entries as a plain list, for persisting the store.
    pub fn entry_list(&self) -> (r: &Vec<(String, u64)>)
        ensures
            entries_map(r@) == self@,
    {
        &self.entries
    }
}

// ---------------------------------------------------------------------------
// Cursor update
// ---------------------------------------------------------------------------

/// The newest item of one account's fetch result: the first element, since
/// the platform returns items newest first.
pub open spec fn spec_newest(r: Result<Vec<TwitterTweet>, FetchError>) -> Option<TweetModel> {
    match r {
        Ok(v) => if v.deep_view().len() > 0 {
            Some(v.deep_view()[0])
        } else {
            None
        },
        Err(_) => None,
    }
}

/// What one fetch result does to the cursor mapping: a non-empty result
/// maps its author to the newest item's identifier, anything else leaves
/// the mapping alone.
pub open spec fn spec_advance_one(
    m: Map<Seq<char>, u64>,
    r: Result<Vec<TwitterTweet>, FetchError>,
) -> Map<Seq<char>, u64> {
    match spec_newest(r) {
        Some(t) => m.insert(dec_digits(t.author_id as nat), t.id),
        None => m,
    }
}

/// The cursor mapping after a whole pass's fetch results, applied in fetch
/// order.
pub open spec fn spec_advanced(
    m: Map<Seq<char>, u64>,
    rs: Seq<Result<Vec<TwitterTweet>, FetchError>>,
) -> Map<Seq<char>, u64>
    decreases rs.len(),
{
    if rs.len() == 0 {
        m
    } else {
        spec_advanced(spec_advance_one(m, rs[0]), rs.skip(1))
    }
}

/// Advance the cursor store from a pass's fetch results: each account with
/// a non-empty result moves to the identifier of its newest fetched item.
/// This runs once, after all fetches are in and before anything is
/// published, so a later publish failure never touches a cursor.
pub fn advance_cursors(
    store: &mut CursorStore,
    results: &Vec<Result<Vec<TwitterTweet>, FetchError>>,
)
    requires
        old(store).wf(),
    ensures
        final(store).wf(),
        final(store)@ == spec_advanced(old(store)@, results@),
{
    let mut i: usize = 0;
    proof {
        assert(results@.skip(0) =~= results@);
    }
    while i < results.len()
        invariant
            0 <= i <= results@.len(),
            store.wf(),
            spec_advanced(old(store)@, results@) == spec_advanced(
                store@,
                results@.skip(i as int),
            ),
        decreases results@.len() - i,
    {
        proof {
            assert(results@.skip(i as int)[0] == results@[i as int]);
            assert(results@.skip(i as int).skip(1) =~= results@.skip(i + 1));
        }
        match &results[i] {
            Ok(v) => {
                if v.len() > 0 {
                    proof {
                        assert(v.deep_view()[0] == v@[0]@);
                    }
                    let key = u64_to_dec(v[0].author_id);
                    let id = v[0].id;
                    store.set(key, id);
                }
            },
            Err(_) => {},
        }
        i = i + 1;
    }
    proof {
        assert(results@.skip(results@.len() as int)
            =~= Seq::<Result<Vec<TwitterTweet>, FetchError>>::empty());
    }
}

// ---------------------------------------------------------------------------
// Publish ordering
// ---------------------------------------------------------------------------

/// The order a pass publishes in: per account, in fetch-initiation order,
/// that account's items reversed to oldest first; failed accounts
/// contribute nothing.
pub open spec fn spec_publish_order(rs: Seq<Result<Vec<TwitterTweet>, FetchError>>) -> Seq<
    TweetModel,
>
    decreases rs.len(),
{
    if rs.len() == 0 {
        Seq::empty()
    } else {
        (match rs[0] {
            Ok(v) => v.deep_view().reverse(),
            Err(_) => Seq::empty(),
        }) + spec_publish_order(rs.skip(1))
    }
}

/// Flatten a pass's fetch results into the publish order: each account's
/// items oldest first, accounts concatenated in fetch-initiation order.
pub fn publish_sequence(results: &Vec<Result<Vec<TwitterTweet>, FetchError>>) -> (r: Vec<
    TwitterTweet,
>)
    ensures
        r.deep_view() == spec_publish_order(results@),
{
    let mut out: Vec<TwitterTweet> = Vec::new();
    let mut i: usize = 0;
    proof {
        assert(results@.skip(0) =~= results@);
        assert(out.deep_view() + spec_publish_order(results@) =~= spec_publish_order(results@));
    }
    while i < results.len()
        invariant
            0 <= i <= results@.len(),
            spec_publish_order(results@) == out.deep_view() + spec_publish_order(
                results@.skip(i as int),
            ),
        decreases results@.len() - i,
    {
        proof {
            assert(results@.skip(i as int)[0] == results@[i as int]);
            assert(results@.skip(i as int).skip(1) =~= results@.skip(i + 1));
        }
        match &results[i] {
            Ok(v) => {
                let ghost entry_dv = out.deep_view();
                let mut j: usize = 0;
                while j < v.len()
                    invariant
                        0 <= j <= v@.len(),
                        v.deep_view().len() == v@.len(),
                        forall|k: int| 0 <= k < v@.len() ==> v.deep_view()[k] == v@[k]@,
                        out.deep_view() =~= entry_dv + v.deep_view().reverse().take(j as int),
                    decreases v@.len() - j,
                {
                    let item = crate::twitter::clone_tweet(&v[v.len() - 1 - j]);
                    let ghost prev = out.deep_view();
                    proof {
                        assert(v.deep_view().reverse()[j as int] == v.deep_view()[v@.len() - 1
                            - j]);
                    }
                    out.push(item);
                    proof {
                        assert(out.deep_view() =~= prev.push(item@));
                        assert(prev.push(item@) =~= entry_dv + v.deep_view().reverse().take(
                            j + 1,
                        ));
                    }
                    j = j + 1;
                }
                proof {
                    assert(v.deep_view().reverse().take(v@.len() as int)
                        =~= v.deep_view().reverse());
                    assert((entry_dv + v.deep_view().reverse()) + spec_publish_order(
                        results@.skip(i + 1),
                    ) =~= entry_dv + (v.deep_view().reverse() + spec_publish_order(
                        results@.skip(i + 1),
                    )));
                }
            },
            Err(_) => {
                proof {
                    assert(out.deep_view() + (Seq::<TweetModel>::empty() + spec_publish_order(
                        results@.skip(i + 1),
                    )) =~= out.deep_view() + spec_publish_order(results@.skip(i + 1)));
                }
            },
        }
        i = i + 1;
    }
    proof {
        assert(results@.skip(results@.len() as int)
            =~= Seq::<Result<Vec<TwitterTweet>, FetchError>>::empty());
        assert(out.deep_view() + Seq::<TweetModel>::empty() =~= out.deep_view());
    }
    out
}

// ---------------------------------------------------------------------------
// Pass outcome
// ---------------------------------------------------------------------------

/// One recorded publish failure: the item and the destination's error.
#[derive(Clone, Debug)]
pub struct PublishFailure {
    pub item_id: u64,
    pub code: u16,
    pub description: String,
}

/// Mathematical model of a recorded publish failure.
pub struct FailureModel {
    pub item_id: u64,
    pub code: u16,
    pub description: Seq<char>,
}

impl View for PublishFailure {
    type V = FailureModel;

    open spec fn view(&self) -> FailureModel {
        FailureModel { item_id: self.item_id, code: self.code, description: self.description@ }
    }
}

impl DeepView for PublishFailure {
    type V = FailureModel;

    open spec fn deep_view(&self) -> FailureModel {
        self.view()
    }
}

/// What one pass ends with: how many accounts were attempted, how many
/// items went out, and every per-item publish failure and per-account
/// fetch failure, none of which aborted the pass.
#[derive(Clone, Debug)]
pub struct PassReport {
    pub accounts: u64,
    pub published: u64,
    pub publish_errors: Vec<PublishFailure>,
    pub fetch_errors: Vec<FetchError>,
}

impl PassReport {
    /// Start a pass over `accounts` accounts: nothing delivered, nothing
    /// failed yet.
    pub fn new(accounts: u64) -> (r: Self)
        ensures
            r.accounts == accounts,
            r.published == 0,
            r.publish_errors@.len() == 0,
            r.fetch_errors@.len() == 0,
    {
        PassReport { accounts, published: 0, publish_errors: Vec::new(), fetch_errors: Vec::new() }
    }

    /// Record one account's fetch failure; the pass goes on.
    pub fn record_fetch_error(&mut self, e: FetchError)
        ensures
            final(self).fetch_errors@ == old(self).fetch_errors@.push(e),
            final(self).publish_errors == old(self).publish_errors,
            final(self).published == old(self).published,
            final(self).accounts == old(self).accounts,
    {
        self.fetch_errors.push(e);
    }

    /// Record one item's publish outcome: a success counts it as published,
    /// a failure is kept with the item's identifier; either way the pass
    /// goes on to the next item.
    pub fn record_publish(&mut self, item_id: u64, outcome: &TelegramResponse)
        requires
            old(self).published < u64::MAX,
        ensures
            final(self).accounts == old(self).accounts,
            final(self).fetch_errors == old(self).fetch_errors,
            match outcome@ {
                crate::telegram::ResponseModel::Success => final(self).published == old(
                    self,
                ).published + 1 && final(self).publish_errors == old(self).publish_errors,
                crate::telegram::ResponseModel::Error(c, d) => final(self).published == old(
                    self,
                ).published && final(self).publish_errors.deep_view() == old(
                    self,
                ).publish_errors.deep_view().push(
                    FailureModel { item_id, code: c, description: d },
                ),
            },
    {
        match outcome {
            TelegramResponse::Success => {
                self.published = self.published + 1;
            },
            TelegramResponse::Error(code, description) => {
                let ghost prev = self.publish_errors.deep_view();
                let f = PublishFailure { item_id, code: *code, description: description.clone() };
                self.publish_errors.push(f);
                proof {
                    assert(self.publish_errors.deep_view() =~= prev.push(f@));
                }
            },
        }
    }

    /// Whether the pass should surface a non-zero status: true exactly when
    /// at least one publish failed.
    pub fn has_failures(&self) -> (r: bool)
        ensures
            r == (self.publish_errors@.len() > 0),
    {
        self.publish_errors.len() > 0
    }
}

// ---------------------------------------------------------------------------
// Pass laws
// ---------------------------------------------------------------------------

/// Ordering: when an account's page is strictly newest first, its publish
/// order is strictly oldest first.
pub proof fn lemma_publish_oldest_first(v: Seq<TweetModel>)
    requires
        forall|i: int, j: int| 0 <= i < j < v.len() ==> v[i].id > v[j].id,
    ensures
        forall|i: int, j: int| 0 <= i < j < v.len() ==> v.reverse()[i].id < v.reverse()[j].id,
{
}

/// An idle pass: when every account's fetch came back empty, the cursor
/// mapping is unchanged and nothing is published.
pub proof fn lemma_idle_pass(m: Map<Seq<char>, u64>, rs: Seq<Result<Vec<TwitterTweet>, FetchError>>)
    requires
        forall|i: int|
            0 <= i < rs.len() ==> ((#[trigger] rs[i]) matches Ok(v) && v.deep_view().len() == 0),
    ensures
        spec_advanced(m, rs) == m,
        spec_publish_order(rs).len() == 0,
    decreases rs.len(),
{
    if rs.len() > 0 {
        assert(rs[0] matches Ok(v) && v.deep_view().len() == 0);
        assert forall|i: int| 0 <= i < rs.skip(1).len() implies ((#[trigger] rs.skip(1)[i]) matches
            Ok(v) && v.deep_view().len() == 0) by {
            assert(rs.skip(1)[i] == rs[i + 1]);
            assert(rs[i + 1] matches Ok(v) && v.deep_view().len() == 0);
        }
        lemma_idle_pass(m, rs.skip(1));
    }
}

/// The cursor key one item's account is stored under.
pub open spec fn newest_key(t: TweetModel) -> Seq<char> {
    dec_digits(t.author_id as nat)
}

/// A result only ever moves its account's cursor forward from `m`.
pub open spec fn advances_from(m: Map<Seq<char>, u64>, r: Result<Vec<TwitterTweet>, FetchError>) -> bool {
    match spec_newest(r) {
        Some(t) => t.id >= cursor_lookup(m, newest_key(t)),
        None => true,
    }
}

/// Two results never advance the same account.
pub open spec fn distinct_accounts(
    r1: Result<Vec<TwitterTweet>, FetchError>,
    r2: Result<Vec<TwitterTweet>, FetchError>,
) -> bool {
    match (spec_newest(r1), spec_newest(r2)) {
        (Some(a), Some(b)) => newest_key(a) != newest_key(b),
        _ => true,
    }
}

/// A result that came out of a fetch filtered against the store's own
/// cursor only ever moves that cursor forward: dedup guarantees every
/// fetched item, the newest included, sits strictly above the cursor the
/// fetch was given.
pub proof fn lemma_fetch_advances(
    m: Map<Seq<char>, u64>,
    uid: Seq<char>,
    tl: crate::twitter::TimelineModel,
    r: Result<Vec<TwitterTweet>, FetchError>,
)
    requires
        r matches Ok(v) ==> crate::twitter::spec_normalize(uid, Some(cursor_lookup(m, uid)), tl)
            == Some(v.deep_view()),
        spec_newest(r) matches Some(t) ==> newest_key(t) == uid,
    ensures
        advances_from(m, r),
{
    if r is Ok {
        let v = r.unwrap();
        if v.deep_view().len() > 0 {
            crate::twitter::lemma_normalize_dedup(uid, Some(cursor_lookup(m, uid)), tl);
            let s = crate::twitter::spec_normalize(uid, Some(cursor_lookup(m, uid)), tl).unwrap();
            assert(s == v.deep_view());
            assert(s[0].id > crate::twitter::spec_cursor(Some(cursor_lookup(m, uid))));
            assert(v.deep_view()[0].id > cursor_lookup(m, uid));
        }
    }
}

/// Monotone cursors: when every non-empty result's newest item is at least
/// its account's current cursor and no two results advance the same
/// account, a pass never lowers any account's cursor, nor forgets one.
pub proof fn lemma_cursor_monotone(
    m: Map<Seq<char>, u64>,
    rs: Seq<Result<Vec<TwitterTweet>, FetchError>>,
)
    requires
        forall|i: int| 0 <= i < rs.len() ==> advances_from(m, #[trigger] rs[i]),
        forall|i: int, j: int|
            0 <= i < j < rs.len() ==> distinct_accounts(#[trigger] rs[i], #[trigger] rs[j]),
    ensures
        forall|k: Seq<char>|
            #[trigger] cursor_lookup(spec_advanced(m, rs), k) >= cursor_lookup(m, k),
        forall|k: Seq<char>|
            m.contains_key(k) ==> #[trigger] spec_advanced(m, rs).contains_key(k),
    decreases rs.len(),
{
    if rs.len() > 0 {
        let m1 = spec_advance_one(m, rs[0]);
        assert forall|i: int| 0 <= i < rs.skip(1).len() implies advances_from(
            m1,
            #[trigger] rs.skip(1)[i],
        ) by {
            assert(rs.skip(1)[i] == rs[i + 1]);
            assert(advances_from(m, rs[i + 1]));
            assert(distinct_accounts(rs[0], rs[i + 1]));
            if spec_newest(rs[i + 1]) is Some {
                let t = spec_newest(rs[i + 1]).unwrap();
                if spec_newest(rs[0]) is Some {
                    let h = spec_newest(rs[0]).unwrap();
                    assert(newest_key(h) != newest_key(t));
                    assert(cursor_lookup(m1, newest_key(t)) == cursor_lookup(m, newest_key(t)));
                }
            }
        }
        assert forall|i: int, j: int| 0 <= i < j < rs.skip(1).len() implies distinct_accounts(
            #[trigger] rs.skip(1)[i],
            #[trigger] rs.skip(1)[j],
        ) by {
            assert(rs.skip(1)[i] == rs[i + 1]);
            assert(rs.skip(1)[j] == rs[j + 1]);
            assert(distinct_accounts(rs[i + 1], rs[j + 1]));
        }
        lemma_cursor_monotone(m1, rs.skip(1));
        assert(advances_from(m, rs[0]));
        assert forall|k: Seq<char>| #[trigger] cursor_lookup(m1, k) >= cursor_lookup(m, k) by {
            if spec_newest(rs[0]) is Some {
                let h = spec_newest(rs[0]).unwrap();
                if k != newest_key(h) {
                    assert(cursor_lookup(m1, k) == cursor_lookup(m, k));
                }
            }
        }
        assert(spec_advanced(m, rs) == spec_advanced(m1, rs.skip(1)));
        assert forall|k: Seq<char>| #[trigger] cursor_lookup(spec_advanced(m, rs), k)
            >= cursor_lookup(m, k) by {
            assert(cursor_lookup(spec_advanced(m1, rs.skip(1)), k) >= cursor_lookup(m1, k));
            assert(cursor_lookup(m1, k) >= cursor_lookup(m, k));
        }
        assert forall|k: Seq<char>| m.contains_key(k) implies #[trigger] spec_advanced(
            m,
            rs,
        ).contains_key(k) by {
            assert(m1.contains_key(k));
            assert(spec_advanced(m1, rs.skip(1)).contains_key(k));
        }
    }
}

} // verus!
