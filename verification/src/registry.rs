//! The backends of a process, in the order of their registration, and the
//! rules by which listings are merged and requests find their backend.

use crate::models::{
    Backend, BackendProvider, Capabilities, CapabilitiesView, PapyrError, PapyrErrorView,
    ScanConfig, ScanEvent, ScanSession, ScannerInfo,
};
use crate::seqs::{
    distinct_by, has_key, is_first_of_key, keys_differ, lemma_distinct_by, lemma_distinct_by_push,
};
use crate::text::same_text;
use vstd::prelude::*;

verus! {

/// The key by which descriptors are told apart: the identifier.
pub open spec fn info_key() -> spec_fn(ScannerInfo) -> Seq<char> {
    |info: ScannerInfo| info.id@
}

/// The listings of all backends, one behind the other.
pub open spec fn all_listed(listings: Seq<Vec<ScannerInfo>>) -> Seq<ScannerInfo>
    decreases listings.len(),
{
    if listings.len() == 0 {
        Seq::empty()
    } else {
        all_listed(listings.drop_last()) + listings.last()@
    }
}

/// The listings of all backends as one list: in the order of the backends,
/// and for each identifier the descriptor that comes first.
pub open spec fn merged(listings: Seq<Vec<ScannerInfo>>) -> Seq<ScannerInfo> {
    distinct_by(all_listed(listings), info_key())
}

/// The listing holds a descriptor with exactly this identifier.
pub open spec fn lists(listing: Seq<ScannerInfo>, device_id: Seq<char>) -> bool {
    has_key(listing, info_key(), device_id)
}

/// The backend that owns an identifier: the first whose listing holds it.
pub open spec fn owner_of(listings: Seq<Vec<ScannerInfo>>, device_id: Seq<char>) -> Option<int>
    decreases listings.len(),
{
    if listings.len() == 0 {
        None
    } else {
        match owner_of(listings.drop_last(), device_id) {
            Some(b) => Some(b),
            None => if lists(listings.last()@, device_id) {
                Some(listings.len() - 1)
            } else {
                None
            },
        }
    }
}

/// The owner is the first backend that lists the identifier, and there is
/// one exactly when some backend lists it.
pub proof fn lemma_owner_of(listings: Seq<Vec<ScannerInfo>>, device_id: Seq<char>)
    ensures
        match owner_of(listings, device_id) {
            Some(b) => {
                &&& 0 <= b < listings.len()
                &&& lists(listings[b]@, device_id)
                &&& forall|a: int| 0 <= a < b ==> !lists(#[trigger] listings[a]@, device_id)
            },
            None => forall|a: int| 0 <= a < listings.len() ==> !lists(
                #[trigger] listings[a]@,
                device_id,
            ),
        },
        owner_of(listings, device_id) is Some <==> lists(all_listed(listings), device_id),
    decreases listings.len(),
{
    if listings.len() > 0 {
        let front = listings.drop_last();
        let last = listings.last()@;
        lemma_owner_of(front, device_id);
        let all = all_listed(listings);
        let before = all_listed(front);
        if lists(all, device_id) {
            let i = choose|i: int| 0 <= i < all.len() && info_key()(#[trigger] all[i]) == device_id;
            if i < before.len() {
                assert(info_key()(before[i]) == device_id);
            } else {
                assert(info_key()(last[i - before.len()]) == device_id);
            }
        }
        if lists(before, device_id) {
            let i = choose|i: int|
                0 <= i < before.len() && info_key()(#[trigger] before[i]) == device_id;
            assert(info_key()(all[i]) == device_id);
        }
        if lists(last, device_id) {
            let i = choose|i: int| 0 <= i < last.len() && info_key()(#[trigger] last[i]) == device_id;
            assert(info_key()(all[before.len() + i]) == device_id);
        }
        match owner_of(front, device_id) {
            Some(b) => {
                assert(listings[b] == front[b]);
                assert forall|a: int| 0 <= a < b implies !lists(
                    #[trigger] listings[a]@,
                    device_id,
                ) by {
                    assert(listings[a] == front[a]);
                }
            },
            None => {
                assert forall|a: int| 0 <= a < front.len() implies !lists(
                    #[trigger] listings[a]@,
                    device_id,
                ) by {
                    assert(listings[a] == front[a]);
                }
            },
        }
    }
}

/// The backend whose listing holds the item at a position of `all_listed`.
pub open spec fn backend_at(listings: Seq<Vec<ScannerInfo>>, position: int) -> int
    decreases listings.len(),
{
    if listings.len() == 0 {
        0
    } else if position >= all_listed(listings.drop_last()).len() {
        listings.len() - 1
    } else {
        backend_at(listings.drop_last(), position)
    }
}

/// The item stands in `all` before the given position.
pub open spec fn stands_before(all: Seq<ScannerInfo>, position: int, item: ScannerInfo) -> bool {
    exists|h: int| 0 <= h < position && h < all.len() && all[h] == item
}

proof fn lemma_backend_at(listings: Seq<Vec<ScannerInfo>>, position: int)
    requires
        0 <= position < all_listed(listings).len(),
    ensures
        0 <= backend_at(listings, position) < listings.len(),
        listings[backend_at(listings, position)]@.contains(all_listed(listings)[position]),
        forall|a: int, i: int|
            0 <= a < backend_at(listings, position) && 0 <= i < listings[a]@.len()
                ==> stands_before(all_listed(listings), position, #[trigger] listings[a]@[i]),
    decreases listings.len(),
{
    let front = listings.drop_last();
    let before = all_listed(front);
    let all = all_listed(listings);
    if position >= before.len() {
        let last = listings.last()@;
        assert(last[position - before.len()] == all[position]);
        assert forall|a: int, i: int|
            0 <= a < listings.len() - 1 && 0 <= i < listings[a]@.len() implies stands_before(
            all,
            position,
            #[trigger] listings[a]@[i],
        ) by {
            assert(front[a] == listings[a]);
            lemma_listed_position(front, a, i);
            let h = choose|h: int| 0 <= h < before.len() && before[h] == front[a]@[i];
            assert(all[h] == listings[a]@[i]);
        }
    } else {
        lemma_backend_at(front, position);
        let b = backend_at(front, position);
        assert(front[b] == listings[b]);
        assert(before[position] == all[position]);
        assert forall|a: int, i: int|
            0 <= a < b && 0 <= i < listings[a]@.len() implies stands_before(
            all,
            position,
            #[trigger] listings[a]@[i],
        ) by {
            assert(front[a] == listings[a]);
            assert(stands_before(before, position, front[a]@[i]));
            let h = choose|h: int| 0 <= h < position && h < before.len() && before[h] == front[a]@[i];
            assert(all[h] == listings[a]@[i]);
        }
    }
}

/// Every item of every listing stands somewhere in `all_listed`.
proof fn lemma_listed_position(listings: Seq<Vec<ScannerInfo>>, a: int, i: int)
    requires
        0 <= a < listings.len(),
        0 <= i < listings[a]@.len(),
    ensures
        exists|h: int| 0 <= h < all_listed(listings).len() && all_listed(listings)[h] == listings[a]@[i],
    decreases listings.len(),
{
    let front = listings.drop_last();
    let before = all_listed(front);
    let all = all_listed(listings);
    if a == listings.len() - 1 {
        assert(all[before.len() + i] == listings[a]@[i]);
    } else {
        lemma_listed_position(front, a, i);
        let h = choose|h: int| 0 <= h < before.len() && before[h] == front[a]@[i];
        assert(all[h] == listings[a]@[i]);
    }
}

/// Identifiers are unique: the merged list holds no identifier twice,
/// whatever the backends list.
pub proof fn lemma_merged_ids_differ(listings: Seq<Vec<ScannerInfo>>)
    ensures
        keys_differ(merged(listings), info_key()),
        forall|device_id: Seq<char>|
            lists(merged(listings), device_id) <==> lists(all_listed(listings), device_id),
{
    lemma_distinct_by(all_listed(listings), info_key());
}

/// Routing is sound: a descriptor of the merged list stands in the listing
/// of the backend that owns its identifier, so a scan that is started by
/// that identifier goes to the backend that the descriptor came from. What
/// decides is the whole identifier, never a part of it.
pub proof fn lemma_routing_sound(listings: Seq<Vec<ScannerInfo>>, k: int)
    requires
        0 <= k < merged(listings).len(),
    ensures
        owner_of(listings, merged(listings)[k].id@) matches Some(b) && 0 <= b < listings.len()
            && listings[b]@.contains(merged(listings)[k]),
{
    let all = all_listed(listings);
    let m = merged(listings);
    let device_id = m[k].id@;
    lemma_distinct_by(all, info_key());
    let i = choose|i: int| is_first_of_key(all, info_key(), i) && all[i] == m[k];
    lemma_backend_at(listings, i);
    let b = backend_at(listings, i);
    lemma_owner_of(listings, device_id);
    assert(lists(listings[b]@, device_id)) by {
        let j = choose|j: int| 0 <= j < listings[b]@.len() && listings[b]@[j] == all[i];
        assert(info_key()(listings[b]@[j]) == device_id);
    }
    let o = owner_of(listings, device_id)->0;
    if o < b {
        let j = choose|j: int|
            0 <= j < listings[o]@.len() && info_key()(#[trigger] listings[o]@[j]) == device_id;
        assert(stands_before(all, i, listings[o]@[j]));
        let h = choose|h: int| 0 <= h < i && h < all.len() && all[h] == listings[o]@[j];
        assert(info_key()(all[h]) == info_key()(all[i]));
    }
}

/// Tells whether a listing holds a descriptor with exactly this identifier.
pub fn lists_device(listing: &Vec<ScannerInfo>, device_id: &str) -> (found: bool)
    ensures
        found == lists(listing@, device_id@),
{
    let mut i: usize = 0;
    while i < listing.len()
        invariant
            i <= listing@.len(),
            forall|k: int| 0 <= k < i ==> listing@[k].id@ != device_id@,
        decreases listing@.len() - i,
    {
        if same_text(listing[i].id.as_str(), device_id) {
            assert(info_key()(listing@[i as int]) == device_id@);
            return true;
        }
        i = i + 1;
    }
    proof {
        if lists(listing@, device_id@) {
            let k = choose|k: int|
                0 <= k < listing@.len() && info_key()(#[trigger] listing@[k]) == device_id@;
            assert(listing@[k].id@ == device_id@);
        }
    }
    false
}

/// Finds the backend that owns an identifier: the first whose listing holds
/// it.
pub fn find_owner(listings: &Vec<Vec<ScannerInfo>>, device_id: &str) -> (owner: Option<usize>)
    ensures
        match owner {
            Some(b) => owner_of(listings@, device_id@) == Some(b as int),
            None => owner_of(listings@, device_id@) is None,
        },
{
    let mut i: usize = 0;
    assert(listings@.take(0) =~= Seq::<Vec<ScannerInfo>>::empty());
    while i < listings.len()
        invariant
            i <= listings@.len(),
            owner_of(listings@.take(i as int), device_id@) is None,
        decreases listings@.len() - i,
    {
        proof {
            let next = listings@.take(i + 1);
            assert(next.drop_last() =~= listings@.take(i as int));
            assert(next.last() == listings@[i as int]);
        }
        if lists_device(&listings[i], device_id) {
            proof {
                lemma_owner_of(listings@, device_id@);
                lemma_owner_of(listings@.take(i + 1), device_id@);
                let o = owner_of(listings@, device_id@);
                if o is Some {
                    if o->0 < i {
                        assert(listings@.take(i + 1)[o->0] == listings@[o->0]);
                    }
                    if o->0 > i {
                    }
                } else {
                }
            }
            return Some(i);
        }
        i = i + 1;
    }
    assert(listings@.take(i as int) =~= listings@);
    None
}

/// Appends to `out` the descriptors of `listing` whose identifier it does
/// not hold yet.
fn merge_into(out: &mut Vec<ScannerInfo>, listing: Vec<ScannerInfo>, Ghost(seen): Ghost<
    Seq<ScannerInfo>,
>)
    requires
        old(out)@ == distinct_by(seen, info_key()),
    ensures
        final(out)@ == distinct_by(seen + listing@, info_key()),
{
    let ghost whole = listing@;
    assert(seen + whole.take(0) =~= seen);
    for info in it: listing
        invariant
            it.seq() == whole,
            out@ == distinct_by(seen + whole.take(it.index() as int), info_key()),
    {
        proof {
            let done = whole.take(it.index() as int);
            lemma_distinct_by_push(seen + done, info_key(), info);
            assert((seen + done).push(info) =~= seen + whole.take(it.index() + 1));
        }
        if !lists_device(out, info.id.as_str()) {
            out.push(info);
        }
    }
    assert(whole.take(whole.len() as int) =~= whole);
}

/// Merges the listings of the backends into one list: in the order of the
/// backends, and where an identifier comes more than once, the first
/// descriptor with it stays.
pub fn merge_listings(listings: Vec<Vec<ScannerInfo>>) -> (list: Vec<ScannerInfo>)
    ensures
        list@ == merged(listings@),
        keys_differ(list@, info_key()),
{
    let ghost whole = listings@;
    let mut list: Vec<ScannerInfo> = Vec::new();
    assert(whole.take(0) =~= Seq::<Vec<ScannerInfo>>::empty());
    for listing in it: listings
        invariant
            it.seq() == whole,
            list@ == merged(whole.take(it.index() as int)),
    {
        proof {
            let next = whole.take(it.index() + 1);
            assert(next.drop_last() =~= whole.take(it.index() as int));
            assert(next.last() == listing);
        }
        merge_into(&mut list, listing, Ghost(all_listed(whole.take(it.index() as int))));
    }
    assert(whole.take(whole.len() as int) =~= whole);
    proof {
        lemma_merged_ids_differ(whole);
    }
    list
}

pub open spec fn reply_view(reply: Result<Capabilities, PapyrError>) -> Result<
    CapabilitiesView,
    PapyrErrorView,
> {
    match reply {
        Ok(caps) => Ok(caps@),
        Err(e) => Err(e@),
    }
}

/// What one backend's answer to a capability query decides: nothing where
/// the backend says `NotFound`, so that the query passes on; else the
/// registry's answer, which is the record made consistent, or the error as
/// it stands.
pub open spec fn settled(answer: Result<CapabilitiesView, PapyrErrorView>) -> Option<
    Result<CapabilitiesView, PapyrErrorView>,
> {
    match answer {
        Ok(caps) => Some(Ok(caps.completed())),
        Err(PapyrErrorView::NotFound(_)) => None,
        Err(e) => Some(Err(e)),
    }
}

/// What a capability query gives, from what the backends answer in their
/// order: the first answer that decides, and `NotFound` of the identifier
/// that was asked for where none does.
pub open spec fn routed(
    answers: Seq<Result<CapabilitiesView, PapyrErrorView>>,
    device_id: Seq<char>,
) -> Result<CapabilitiesView, PapyrErrorView>
    decreases answers.len(),
{
    if answers.len() == 0 {
        Err(PapyrErrorView::NotFound(device_id))
    } else {
        match settled(answers.first()) {
            Some(reply) => reply,
            None => routed(answers.drop_first(), device_id),
        }
    }
}

/// Answers that all say `NotFound` decide nothing.
pub proof fn lemma_routed_skips(
    passed: Seq<Result<CapabilitiesView, PapyrErrorView>>,
    rest: Seq<Result<CapabilitiesView, PapyrErrorView>>,
    device_id: Seq<char>,
)
    requires
        forall|i: int| 0 <= i < passed.len() ==> (#[trigger] passed[i]) matches Err(
            PapyrErrorView::NotFound(_),
        ),
    ensures
        routed(passed + rest, device_id) == routed(rest, device_id),
    decreases passed.len(),
{
    if passed.len() == 0 {
        assert(passed + rest =~= rest);
    } else {
        assert((passed + rest).drop_first() =~= passed.drop_first() + rest);
        assert(passed.first() == passed[0]);
        assert forall|i: int| 0 <= i < passed.drop_first().len() implies (
        #[trigger] passed.drop_first()[i]) matches Err(PapyrErrorView::NotFound(_)) by {
            assert(passed.drop_first()[i] == passed[i + 1]);
        }
        lemma_routed_skips(passed.drop_first(), rest, device_id);
    }
}

/// The registry's answer is a consistent record whenever it is a record.
pub proof fn lemma_routed_is_consistent(
    answers: Seq<Result<CapabilitiesView, PapyrErrorView>>,
    device_id: Seq<char>,
)
    ensures
        routed(answers, device_id) matches Ok(caps) ==> caps.is_consistent(),
    decreases answers.len(),
{
    if answers.len() > 0 {
        match answers.first() {
            Ok(caps) => {
                caps.lemma_completed_is_consistent();
            },
            Err(_) => {
                lemma_routed_is_consistent(answers.drop_first(), device_id);
            },
        }
    }
}

pub open spec fn settled_view(settled: Option<Result<Capabilities, PapyrError>>) -> Option<
    Result<CapabilitiesView, PapyrErrorView>,
> {
    match settled {
        Some(reply) => Some(reply_view(reply)),
        None => None,
    }
}

/// The views of the backends' answers, each in its place.
pub open spec fn reply_views(answers: Seq<Result<Capabilities, PapyrError>>) -> Seq<
    Result<CapabilitiesView, PapyrErrorView>,
> {
    Seq::new(answers.len(), |k: int| reply_view(answers[k]))
}

/// The answers are what the first backends give, each in its place, when
/// they are asked what the device can do.
pub open spec fn given_by<P: BackendProvider>(
    providers: Seq<P>,
    device_id: &str,
    answers: Seq<Result<Capabilities, PapyrError>>,
) -> bool {
    &&& answers.len() <= providers.len()
    &&& forall|k: int|
        0 <= k < answers.len() ==> call_ensures(
            P::capabilities,
            (&providers[k], device_id),
            #[trigger] answers[k],
        )
}

/// The answers are those of one round of asking: the backends gave them in
/// their order, and the round went on to the first answer that decides, or
/// through all backends where none does.
pub open spec fn answered_by<P: BackendProvider>(
    providers: Seq<P>,
    device_id: &str,
    answers: Seq<Result<Capabilities, PapyrError>>,
) -> bool {
    &&& given_by(providers, device_id, answers)
    &&& answers.len() < providers.len() ==> answers.len() > 0 && settled(
        reply_view(answers.last()),
    ) is Some
}

/// Tells what one backend's answer to a capability query decides.
pub fn settle(answer: Result<Capabilities, PapyrError>) -> (decided: Option<
    Result<Capabilities, PapyrError>,
>)
    ensures
        settled_view(decided) == settled(reply_view(answer)),
{
    match answer {
        Ok(caps) => Some(Ok(caps.completed())),
        Err(PapyrError::NotFound(_)) => None,
        Err(e) => Some(Err(e)),
    }
}

/// The listings are what the first backends list, each in its place, when
/// they are asked for their scanners.
pub open spec fn listed_by<P: BackendProvider>(
    providers: Seq<P>,
    listings: Seq<Vec<ScannerInfo>>,
) -> bool {
    &&& listings.len() <= providers.len()
    &&& forall|k: int|
        0 <= k < listings.len() ==> call_ensures(
            P::enumerate,
            (&providers[k],),
            #[trigger] listings[k],
        )
}

/// The listings are those of one search for the owner of a device: the
/// backends gave them in their order, and the search went on to the first
/// backend that lists the identifier, or through all backends where none
/// does.
pub open spec fn searched_by<P: BackendProvider>(
    providers: Seq<P>,
    device_id: Seq<char>,
    listings: Seq<Vec<ScannerInfo>>,
) -> bool {
    &&& listed_by(providers, listings)
    &&& owner_of(listings, device_id) is None ==> listings.len() == providers.len()
}

/// A scan was routed by these listings: the backend that owns the device
/// by them was asked to start it, with the identifier and the request as
/// they came, and what it gave is what was started; where no backend lists
/// the identifier, none was asked, and the scan failed with `NotFound`.
pub open spec fn scan_routed<P: BackendProvider>(
    providers: Seq<P>,
    device_id: &str,
    config: ScanConfig,
    listings: Seq<Vec<ScannerInfo>>,
    started: Result<Box<dyn ScanSession>, PapyrError>,
) -> bool {
    &&& searched_by(providers, device_id@, listings)
    &&& match owner_of(listings, device_id@) {
        Some(b) => 0 <= b < providers.len() && call_ensures(
            P::start_scan,
            (&providers[b], device_id, config),
            started,
        ),
        None => started matches Err(e) && e@ == no_owner(device_id@),
    }
}

/// The text of the error for a scan on a device that no backend lists.
pub open spec fn no_owner(device_id: Seq<char>) -> PapyrErrorView {
    PapyrErrorView::NotFound("Device "@ + device_id + " not found in any backend"@)
}

/// The backends of a process, in the order of their registration.
pub struct BackendRegistry<P: BackendProvider> {
    providers: Vec<P>,
}

impl<P: BackendProvider> View for BackendRegistry<P> {
    type V = Seq<P>;

    closed spec fn view(&self) -> Seq<P> {
        self.providers@
    }
}

impl<P: BackendProvider> BackendRegistry<P> {
    /// A registry without backends.
    pub fn new() -> (registry: Self)
        ensures
            registry@.len() == 0,
    {
        BackendRegistry { providers: Vec::new() }
    }

    /// Adds a backend behind those that are registered.
    pub fn register(&mut self, provider: P)
        ensures
            final(self)@ == old(self)@.push(provider),
    {
        self.providers.push(provider);
    }

    /// How many backends are registered.
    pub fn len(&self) -> (count: usize)
        ensures
            count == self@.len(),
    {
        self.providers.len()
    }

    /// Asks every backend for its scanners and merges what they list: in
    /// the order of the backends, and no identifier twice.
    pub fn list_devices(&self) -> (listed: Result<Vec<ScannerInfo>, PapyrError>)
        ensures
            listed matches Ok(list) && keys_differ(list@, info_key()) && exists|
                listings: Seq<Vec<ScannerInfo>>,
            |
                #[trigger] listed_by(self@, listings) && listings.len() == self@.len() && list@
                    == merged(listings),
            self@.len() == 0 ==> (listed matches Ok(list) && list@.len() == 0),
    {
        let mut listings: Vec<Vec<ScannerInfo>> = Vec::new();
        let mut i: usize = 0;
        while i < self.providers.len()
            invariant
                i <= self.providers@.len(),
                listings@.len() == i,
                listed_by(self@, listings@),
            decreases self.providers@.len() - i,
        {
            let listing = self.providers[i].enumerate();
            let ghost before = listings@;
            listings.push(listing);
            proof {
                assert forall|k: int| 0 <= k < listings@.len() implies call_ensures(
                    P::enumerate,
                    (&self@[k],),
                    #[trigger] listings@[k],
                ) by {
                    if k < before.len() {
                        assert(listings@[k] == before[k]);
                    }
                }
            }
            i = i + 1;
        }
        let ghost asked = listings@;
        let list = merge_listings(listings);
        proof {
            assert(list@ == merged(asked));
            assert(listed_by(self@, asked));
            if self@.len() == 0 {
                assert(asked =~= Seq::<Vec<ScannerInfo>>::empty());
                assert(all_listed(asked) =~= Seq::<ScannerInfo>::empty());
            }
        }
        Ok(list)
    }

    /// Asks the backends in their order what the device can do, until one
    /// answers with something other than `NotFound`. The reply is what the
    /// answers of the backends that were asked route to: the record of the
    /// first that decides, made consistent, or its error; `NotFound` of the
    /// identifier where every backend says `NotFound`.
    pub fn capabilities(&self, device_id: &str) -> (reply: Result<Capabilities, PapyrError>)
        ensures
            reply matches Ok(caps) ==> caps.is_consistent(),
            exists|answers: Seq<Result<Capabilities, PapyrError>>|
                #[trigger] answered_by(self@, device_id, answers) && routed(
                    reply_views(answers),
                    device_id@,
                ) == reply_view(reply),
            self@.len() == 0 ==> reply_view(reply) == Err::<CapabilitiesView, PapyrErrorView>(
                PapyrErrorView::NotFound(device_id@),
            ),
    {
        let ghost mut asked: Seq<Result<Capabilities, PapyrError>> = Seq::empty();
        let mut i: usize = 0;
        while i < self.providers.len()
            invariant
                i <= self.providers@.len(),
                asked.len() == i,
                given_by(self@, device_id, asked),
                forall|k: int| 0 <= k < asked.len() ==> reply_view(#[trigger] asked[k]) matches Err(
                    PapyrErrorView::NotFound(_),
                ),
            decreases self.providers@.len() - i,
        {
            let answer = self.providers[i].capabilities(device_id);
            let ghost answered = answer;
            proof {
                let before = asked;
                asked = asked.push(answered);
                assert forall|k: int| 0 <= k < asked.len() implies call_ensures(
                    P::capabilities,
                    (&self@[k], device_id),
                    #[trigger] asked[k],
                ) by {
                    if k < before.len() {
                        assert(asked[k] == before[k]);
                    }
                }
            }
            match settle(answer) {
                Some(reply) => {
                    proof {
                        let passed = reply_views(asked.drop_last());
                        let answers = reply_views(asked);
                        assert(answers =~= passed + seq![reply_view(answered)]);
                        lemma_routed_skips(passed, seq![reply_view(answered)], device_id@);
                        assert(routed(answers, device_id@) == reply_view(reply));
                        lemma_routed_is_consistent(answers, device_id@);
                        assert(answered_by(self@, device_id, asked));
                    }
                    return reply;
                },
                None => {},
            }
            i = i + 1;
        }
        proof {
            let passed = reply_views(asked);
            lemma_routed_skips(passed, Seq::empty(), device_id@);
            assert(passed + Seq::empty() =~= passed);
            assert(routed(passed, device_id@) == Err::<CapabilitiesView, PapyrErrorView>(
                PapyrErrorView::NotFound(device_id@),
            ));
            assert(answered_by(self@, device_id, asked));
        }
        Err(PapyrError::NotFound(String::from_str(device_id)))
    }

    /// Finds the backend that owns the device now: the backends are asked
    /// for their scanners, in order, until one lists the identifier. The
    /// owner is the first backend whose listing holds the whole identifier.
    pub fn owner(&self, device_id: &str) -> (owner: Option<usize>)
        ensures
            owner matches Some(b) ==> b < self@.len(),
            exists|listings: Seq<Vec<ScannerInfo>>|
                #[trigger] searched_by(self@, device_id@, listings) && owner_of(
                    listings,
                    device_id@,
                ) == match owner {
                    Some(b) => Some(b as int),
                    None => None,
                },
            self@.len() == 0 ==> owner is None,
    {
        let ghost mut asked: Seq<Vec<ScannerInfo>> = Seq::empty();
        let mut i: usize = 0;
        while i < self.providers.len()
            invariant
                i <= self.providers@.len(),
                asked.len() == i,
                listed_by(self@, asked),
                owner_of(asked, device_id@) is None,
            decreases self.providers@.len() - i,
        {
            let listing = self.providers[i].enumerate();
            proof {
                let before = asked;
                assert(asked.push(listing).drop_last() =~= asked);
                asked = asked.push(listing);
                assert forall|k: int| 0 <= k < asked.len() implies call_ensures(
                    P::enumerate,
                    (&self@[k],),
                    #[trigger] asked[k],
                ) by {
                    if k < before.len() {
                        assert(asked[k] == before[k]);
                    }
                }
            }
            if lists_device(&listing, device_id) {
                assert(owner_of(asked, device_id@) == Some(i as int));
                assert(searched_by(self@, device_id@, asked));
                return Some(i);
            }
            i = i + 1;
        }
        assert(owner_of(asked, device_id@) is None);
        assert(searched_by(self@, device_id@, asked));
        None
    }

    /// Starts a scan on the backend that owns the device: the first
    /// backend, in their order, whose listing holds the whole identifier.
    /// That backend gets the identifier and the request as they came, and
    /// what it gives comes back as it is. A backend that does not list the
    /// identifier is never asked to scan, whatever it would make of the
    /// identifier; where no backend lists it, the scan fails with
    /// `NotFound`.
    pub fn start_scan(&self, device_id: &str, config: ScanConfig) -> (started: Result<
        Box<dyn ScanSession>,
        PapyrError,
    >)
        ensures
            exists|listings: Seq<Vec<ScannerInfo>>| #[trigger]
                scan_routed(self@, device_id, config, listings, started),
            self@.len() == 0 ==> (started matches Err(e) && e@ == no_owner(device_id@)),
    {
        let owner = self.owner(device_id);
        let ghost listings = choose|listings: Seq<Vec<ScannerInfo>>|
            #[trigger] searched_by(self@, device_id@, listings) && owner_of(listings, device_id@)
                == match owner {
                Some(b) => Some(b as int),
                None => None,
            };
        match owner {
            Some(b) => {
                let started = self.providers[b].start_scan(device_id, config);
                assert(scan_routed(self@, device_id, config, listings, started));
                started
            },
            None => {
                let mut text = String::from_str("Device ");
                text.append(device_id);
                text.append(" not found in any backend");
                let started = Err(PapyrError::NotFound(text));
                assert(scan_routed(self@, device_id, config, listings, started));
                started
            },
        }
    }
}

impl<T: BackendProvider + ?Sized> BackendProvider for Box<T> {
    /// The name that the backend in the box gives.
    fn name(&self) -> (name: &'static str)
        ensures
            call_ensures(T::name, (&**self,), name),
    {
        (**self).name()
    }

    /// The tag that the backend in the box gives.
    fn kind(&self) -> (kind: Backend)
        ensures
            call_ensures(T::kind, (&**self,), kind),
    {
        (**self).kind()
    }

    /// The scanners that the backend in the box lists.
    fn enumerate(&self) -> (list: Vec<ScannerInfo>)
        ensures
            call_ensures(T::enumerate, (&**self,), list),
    {
        (**self).enumerate()
    }

    /// What the backend in the box answers for the device.
    fn capabilities(&self, device_id: &str) -> (reply: Result<Capabilities, PapyrError>)
        ensures
            call_ensures(T::capabilities, (&**self, device_id), reply),
    {
        (**self).capabilities(device_id)
    }

    /// The scan that the backend in the box starts, or its error.
    fn start_scan(&self, device_id: &str, cfg: ScanConfig) -> (started: Result<
        Box<dyn ScanSession>,
        PapyrError,
    >)
        ensures
            call_ensures(T::start_scan, (&**self, device_id, cfg), started),
    {
        (**self).start_scan(device_id, cfg)
    }
}

impl<T: ScanSession + ?Sized> ScanSession for Box<T> {
    fn next_event(&mut self) -> Result<Option<ScanEvent>, PapyrError> {
        (**self).next_event()
    }
}

} // verus!
