//! Bookkeeping for decrypting entries off the interactive thread: a
//! session-scoped plaintext cache and the set of titles being decrypted, so
//! that each title has at most one decryption in flight.
use vstd::prelude::*;
use crate::title_map::TitleMap;

verus! {

/// What the cache knows of a title.
pub enum RevealState {
    /// A decryption was dispatched and has not reported back.
    Pending,
    /// The decrypted plaintext.
    Revealed(String),
    /// The decryption failed; it is not retried until the title is forgotten.
    Failed,
}

/// The model of a `RevealState`.
pub enum SlotView {
    Pending,
    Revealed(Seq<char>),
    Failed,
}

/// What a reveal request tells the caller.
#[derive(Debug, Clone, PartialEq, Eq)]
pub enum RevealRequest {
    /// The plaintext, from the cache.
    Cached(String),
    /// A decryption for this title is in flight.
    InProgress,
    /// The decryption of this title failed.
    Failed,
    /// The caller is to start the one decryption of this title and report
    /// its result through `complete_reveal`.
    Dispatch,
}

/// The model of a `RevealRequest`.
pub enum RequestView {
    Cached(Seq<char>),
    InProgress,
    Failed,
    Dispatch,
}

pub open spec fn slot_view(s: RevealState) -> SlotView {
    match s {
        RevealState::Pending => SlotView::Pending,
        RevealState::Revealed(p) => SlotView::Revealed(p@),
        RevealState::Failed => SlotView::Failed,
    }
}

pub open spec fn request_view(r: RevealRequest) -> RequestView {
    match r {
        RevealRequest::Cached(p) => RequestView::Cached(p@),
        RevealRequest::InProgress => RequestView::InProgress,
        RevealRequest::Failed => RequestView::Failed,
        RevealRequest::Dispatch => RequestView::Dispatch,
    }
}

/// A reveal request: a cached title is answered from the cache, a pending
/// or failed one is reported as such, and any other becomes pending and is
/// handed to the caller to decrypt. Only that last case changes the state.
pub open spec fn reveal_outcome(
    pre: Map<Seq<char>, SlotView>,
    title: Seq<char>,
    r: RequestView,
    post: Map<Seq<char>, SlotView>,
) -> bool {
    if !pre.contains_key(title) {
        r == RequestView::Dispatch && post == pre.insert(title, SlotView::Pending)
    } else {
        post == pre && match pre[title] {
            SlotView::Revealed(p) => r == RequestView::Cached(p),
            SlotView::Pending => r == RequestView::InProgress,
            SlotView::Failed => r == RequestView::Failed,
        }
    }
}

/// A finished decryption: a pending title takes its plaintext, or is marked
/// failed; the result for a title that is not pending (the cache was cleared
/// meanwhile) is dropped.
pub open spec fn complete_outcome(
    pre: Map<Seq<char>, SlotView>,
    title: Seq<char>,
    result: Option<Seq<char>>,
    post: Map<Seq<char>, SlotView>,
) -> bool {
    if pre.contains_key(title) && pre[title] == SlotView::Pending {
        post == pre.insert(
            title,
            match result {
                Some(p) => SlotView::Revealed(p),
                None => SlotView::Failed,
            },
        )
    } else {
        post == pre
    }
}

/// Plaintexts and in-flight decryptions of one unlocked session.
pub struct RevealCache {
    slots: TitleMap<RevealState>,
}

impl View for RevealCache {
    type V = Map<Seq<char>, SlotView>;

    closed spec fn view(&self) -> Map<Seq<char>, SlotView> {
        self.slots@.map_values(|s: RevealState| slot_view(s))
    }
}

impl RevealCache {
    /// The internal list stands for the map.
    pub closed spec fn wf(&self) -> bool {
        self.slots.wf()
    }

    /// An empty cache with nothing in flight.
    pub fn new() -> (r: Self)
        ensures
            r.wf(),
            r@ == Map::<Seq<char>, SlotView>::empty(),
    {
        let r = RevealCache { slots: TitleMap::new() };
        assert(r@ =~= Map::<Seq<char>, SlotView>::empty());
        r
    }

    /// Asks for the plaintext of `title`.
    pub fn request_reveal(&mut self, title: &str) -> (r: RevealRequest)
        requires
            old(self).wf(),
        ensures
            final(self).wf(),
            reveal_outcome(old(self)@, title@, request_view(r), final(self)@),
    {
        let ghost pre = self.slots@;
        match self.slots.get(title) {
            Some(RevealState::Revealed(p)) => RevealRequest::Cached(p.clone()),
            Some(RevealState::Pending) => RevealRequest::InProgress,
            Some(RevealState::Failed) => RevealRequest::Failed,
            None => {
                self.slots.insert(String::from_str(title), RevealState::Pending);
                assert(self@ =~= pre.map_values(|s: RevealState| slot_view(s)).insert(
                    title@,
                    SlotView::Pending,
                ));
                RevealRequest::Dispatch
            },
        }
    }

    /// Records the result of the decryption of `title`.
    pub fn complete_reveal(&mut self, title: String, result: Option<String>)
        requires
            old(self).wf(),
        ensures
            final(self).wf(),
            complete_outcome(
                old(self)@,
                title@,
                match result {
                    Some(p) => Some(p@),
                    None => None,
                },
                final(self)@,
            ),
    {
        let ghost pre = self.slots@;
        let ghost t = title@;
        let pending = match self.slots.get(title.as_str()) {
            Some(RevealState::Pending) => true,
            _ => false,
        };
        if pending {
            let state = match result {
                Some(p) => RevealState::Revealed(p),
                None => RevealState::Failed,
            };
            self.slots.insert(title, state);
            assert(self@ =~= pre.map_values(|s: RevealState| slot_view(s)).insert(t, slot_view(state)));
        }
    }

    /// Drops what is known of `title`, so that the next request decrypts it
    /// again.
    pub fn forget(&mut self, title: &str)
        requires
            old(self).wf(),
        ensures
            final(self).wf(),
            final(self)@ == old(self)@.remove(title@),
    {
        let ghost pre = self.slots@;
        self.slots.remove(title);
        assert(self@ =~= pre.map_values(|s: RevealState| slot_view(s)).remove(title@));
    }

    /// Drops every plaintext and every pending mark, as on locking.
    pub fn clear(&mut self)
        ensures
            final(self).wf(),
            final(self)@ == Map::<Seq<char>, SlotView>::empty(),
    {
        self.slots.clear();
        assert(self@ =~= Map::<Seq<char>, SlotView>::empty());
    }
}

/// Two reveal requests for a title that is neither cached nor in flight
/// dispatch exactly one decryption; once it reports a plaintext, the next
/// request is answered with that plaintext from the cache.
pub proof fn lemma_pending_dedup(
    m0: Map<Seq<char>, SlotView>,
    title: Seq<char>,
    r1: RequestView,
    m1: Map<Seq<char>, SlotView>,
    r2: RequestView,
    m2: Map<Seq<char>, SlotView>,
    plain: Seq<char>,
    m3: Map<Seq<char>, SlotView>,
    r3: RequestView,
    m4: Map<Seq<char>, SlotView>,
)
    requires
        !m0.contains_key(title),
        reveal_outcome(m0, title, r1, m1),
        reveal_outcome(m1, title, r2, m2),
        complete_outcome(m2, title, Some(plain), m3),
        reveal_outcome(m3, title, r3, m4),
    ensures
        r1 == RequestView::Dispatch,
        r2 == RequestView::InProgress,
        r3 == RequestView::Cached(plain),
        m4 == m3,
{
}

} // verus!
