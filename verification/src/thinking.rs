//! Collapse state of reasoning ("thinking") blocks, one record per reasoning
//! message.
//!
//! A thinking block starts expanded while its reasoning streams in. The first
//! time the reasoning is seen finished, the block collapses on its own, unless
//! the user has already toggled it by hand; a manual toggle always wins.

use vstd::prelude::*;

verus! {

/// Identifier of one message in an agent's output.
#[derive(Clone, Debug, PartialEq, Eq)]
pub struct MessageId(pub String);

impl View for MessageId {
    type V = Seq<char>;

    open spec fn view(&self) -> Seq<char> {
        self.0@
    }
}

impl MessageId {
    /// Wraps `id` as a message identifier.
    pub fn new(id: String) -> (r: MessageId)
        ensures
            r@ == id@,
    {
        MessageId(id)
    }

    /// Copies this identifier.
    pub fn duplicate(&self) -> (r: MessageId)
        ensures
            r@ == self@,
    {
        MessageId(self.0.clone())
    }

    /// Whether `self` and `other` name the same message.
    pub fn same_as(&self, other: &MessageId) -> (r: bool)
        ensures
            r == (self@ == other@),
    {
        self.0 == other.0
    }
}

/// UI state of one reasoning message's thinking block.
#[derive(Clone, Copy, Debug, PartialEq, Eq, Structural)]
pub struct ThinkingUiState {
    /// Whether the block currently hides its body.
    pub collapsed: bool,
    /// Whether the reasoning was finished when it was last seen.
    pub last_known_finished: bool,
    /// Whether the user has toggled the block by hand.
    pub user_toggled: bool,
}

impl ThinkingUiState {
    /// The state of a block that has not been seen yet: expanded, unfinished,
    /// untouched.
    pub open spec fn initial() -> ThinkingUiState {
        ThinkingUiState { collapsed: false, last_known_finished: false, user_toggled: false }
    }

    /// The state after the reasoning is observed as `finished` (or not): the
    /// first transition to finished collapses the block unless the user has
    /// toggled it.
    pub open spec fn synced(self, finished: bool) -> ThinkingUiState {
        ThinkingUiState {
            collapsed: if finished && !self.last_known_finished && !self.user_toggled {
                true
            } else {
                self.collapsed
            },
            last_known_finished: finished,
            user_toggled: self.user_toggled,
        }
    }

    /// The state after a click on the block's header.
    pub open spec fn toggled(self) -> ThinkingUiState {
        ThinkingUiState {
            collapsed: !self.collapsed,
            last_known_finished: self.last_known_finished,
            user_toggled: true,
        }
    }

    /// The state after observing the reasoning with each value of
    /// `observations` in turn.
    pub open spec fn synced_all(self, observations: Seq<bool>) -> ThinkingUiState
        decreases observations.len(),
    {
        if observations.len() == 0 {
            self
        } else {
            self.synced_all(observations.drop_last()).synced(observations.last())
        }
    }

    /// Applies the finish transition in place.
    pub fn sync(&mut self, finished: bool)
        ensures
            *final(self) == old(self).synced(finished),
    {
        if finished && !self.last_known_finished && !self.user_toggled {
            self.collapsed = true;
        }
        self.last_known_finished = finished;
    }

    /// Applies a manual toggle in place.
    pub fn toggle(&mut self)
        ensures
            *final(self) == old(self).toggled(),
    {
        self.collapsed = !self.collapsed;
        self.user_toggled = true;
    }
}

impl Default for ThinkingUiState {
    fn default() -> (s: ThinkingUiState)
        ensures
            s == ThinkingUiState::initial(),
    {
        ThinkingUiState { collapsed: false, last_known_finished: false, user_toggled: false }
    }
}

/// One stored record: a message and its thinking block state.
#[derive(Clone, Debug)]
pub struct ThinkingEntry {
    pub message_id: MessageId,
    pub state: ThinkingUiState,
}

/// The state found for `id` in `entries`: that of the first entry naming it.
pub open spec fn find_state(entries: Seq<ThinkingEntry>, id: Seq<char>) -> Option<ThinkingUiState>
    decreases entries.len(),
{
    if entries.len() == 0 {
        None
    } else if entries[0].message_id@ == id {
        Some(entries[0].state)
    } else {
        find_state(entries.drop_first(), id)
    }
}

/// Thinking block states of all reasoning messages seen so far, keyed by
/// message.
pub struct ThinkingStates {
    entries: Vec<ThinkingEntry>,
}

impl ThinkingStates {
    /// Each message has at most one record.
    #[verifier::type_invariant]
    spec fn each_message_once(self) -> bool {
        forall|i: int, j: int|
            0 <= i < j < self.entries@.len() ==> self.entries@[i].message_id@
                != self.entries@[j].message_id@
    }
}

impl View for ThinkingStates {
    type V = Map<Seq<char>, ThinkingUiState>;

    closed spec fn view(&self) -> Map<Seq<char>, ThinkingUiState> {
        Map::new(
            |id: Seq<char>| find_state(self.entries@, id) is Some,
            |id: Seq<char>| find_state(self.entries@, id)->0,
        )
    }
}

/// The state of `id` in `states`, or the initial state when it has none.
pub open spec fn state_or_initial(states: Map<Seq<char>, ThinkingUiState>, id: Seq<char>) -> ThinkingUiState {
    if states.contains_key(id) {
        states[id]
    } else {
        ThinkingUiState::initial()
    }
}

proof fn lemma_find_skip(entries: Seq<ThinkingEntry>, id: Seq<char>, i: int)
    requires
        0 <= i <= entries.len(),
        forall|j: int| 0 <= j < i ==> entries[j].message_id@ != id,
    ensures
        find_state(entries, id) == find_state(entries.skip(i), id),
    decreases i,
{
    if i > 0 {
        assert(entries.drop_first().skip(i - 1) =~= entries.skip(i));
        lemma_find_skip(entries.drop_first(), id, i - 1);
    } else {
        assert(entries.skip(0) =~= entries);
    }
}

proof fn lemma_find_absent(entries: Seq<ThinkingEntry>, id: Seq<char>)
    requires
        forall|j: int| 0 <= j < entries.len() ==> entries[j].message_id@ != id,
    ensures
        find_state(entries, id) is None,
    decreases entries.len(),
{
    if entries.len() > 0 {
        lemma_find_absent(entries.drop_first(), id);
    }
}

proof fn lemma_find_update(
    entries: Seq<ThinkingEntry>,
    i: int,
    e: ThinkingEntry,
    id: Seq<char>,
)
    requires
        0 <= i < entries.len(),
        e.message_id@ == entries[i].message_id@,
        forall|j: int| 0 <= j < i ==> entries[j].message_id@ != e.message_id@,
    ensures
        id == e.message_id@ ==> find_state(entries.update(i, e), id) == Some(e.state),
        id != e.message_id@ ==> find_state(entries.update(i, e), id) == find_state(entries, id),
    decreases i,
{
    if i > 0 {
        assert(entries.update(i, e).drop_first() =~= entries.drop_first().update(i - 1, e));
        lemma_find_update(entries.drop_first(), i - 1, e, id);
    } else {
        assert(entries.update(0, e).drop_first() =~= entries.drop_first());
    }
}

proof fn lemma_find_push(entries: Seq<ThinkingEntry>, e: ThinkingEntry, id: Seq<char>)
    requires
        forall|j: int| 0 <= j < entries.len() ==> entries[j].message_id@ != e.message_id@,
    ensures
        id == e.message_id@ ==> find_state(entries.push(e), id) == Some(e.state),
        id != e.message_id@ ==> find_state(entries.push(e), id) == find_state(entries, id),
    decreases entries.len(),
{
    if entries.len() > 0 {
        assert(entries.push(e).drop_first() =~= entries.drop_first().push(e));
        lemma_find_push(entries.drop_first(), e, id);
    } else {
        assert(entries.push(e).drop_first() =~= entries);
    }
}

impl ThinkingStates {
    /// No state recorded for any message.
    pub fn new() -> (r: ThinkingStates)
        ensures
            r@ == Map::<Seq<char>, ThinkingUiState>::empty(),
    {
        let r = ThinkingStates { entries: Vec::new() };
        assert(r@ =~= Map::<Seq<char>, ThinkingUiState>::empty());
        r
    }

    /// Index of the first entry for `id`, if any.
    fn position(&self, id: &MessageId) -> (r: Option<usize>)
        ensures
            match r {
                Some(i) => i < self.entries@.len() && self.entries@[i as int].message_id@ == id@
                    && forall|j: int| 0 <= j < i ==> self.entries@[j].message_id@ != id@,
                None => forall|j: int|
                    0 <= j < self.entries@.len() ==> self.entries@[j].message_id@ != id@,
            },
    {
        let mut i: usize = 0;
        while i < self.entries.len()
            invariant
                i <= self.entries@.len(),
                forall|j: int| 0 <= j < i ==> self.entries@[j].message_id@ != id@,
            decreases self.entries@.len() - i,
        {
            if self.entries[i].message_id.same_as(id) {
                return Some(i);
            }
            i = i + 1;
        }
        None
    }

    /// The recorded state of `id`, if any.
    pub fn get(&self, id: &MessageId) -> (r: Option<ThinkingUiState>)
        ensures
            r == (if self@.contains_key(id@) { Some(self@[id@]) } else { None }),
    {
        match self.position(id) {
            Some(i) => {
                proof {
                    lemma_find_skip(self.entries@, id@, i as int);
                }
                Some(self.entries[i].state)
            },
            None => {
                proof {
                    lemma_find_absent(self.entries@, id@);
                }
                None
            },
        }
    }

    /// Whether the thinking block of `id` is collapsed; a message without a
    /// record is expanded.
    pub fn is_collapsed(&self, id: &MessageId) -> (r: bool)
        ensures
            r == (self@.contains_key(id@) && self@[id@].collapsed),
    {
        match self.get(id) {
            Some(state) => state.collapsed,
            None => false,
        }
    }

    /// Stores `state` as the state of `id`, leaving every other message alone.
    fn store(&mut self, id: &MessageId, state: ThinkingUiState)
        ensures
            final(self)@ == old(self)@.insert(id@, state),
    {
        proof {
            use_type_invariant(&*self);
        }
        let entry = ThinkingEntry { message_id: id.duplicate(), state };
        let found = self.position(id);
        let ghost before = self.entries@;
        let mut entries: Vec<ThinkingEntry> = Vec::new();
        std::mem::swap(&mut entries, &mut self.entries);
        assert(entries@ == before);
        match found {
            Some(i) => {
                entries.set(i, entry);
                proof {
                    assert forall|k: Seq<char>|
                        find_state(entries@, k) == (if k == id@ {
                            Some(state)
                        } else {
                            find_state(before, k)
                        }) by {
                        lemma_find_update(before, i as int, entry, k);
                    }
                }
            },
            None => {
                entries.push(entry);
                proof {
                    assert forall|k: Seq<char>|
                        find_state(entries@, k) == (if k == id@ {
                            Some(state)
                        } else {
                            find_state(before, k)
                        }) by {
                        lemma_find_push(before, entry, k);
                    }
                }
            },
        }
        assert forall|a: int, b: int|
            0 <= a < b < entries@.len() implies entries@[a].message_id@ != entries@[b].message_id@ by {
            if found is None && b == before.len() {
                assert(entries@[a] == before[a]);
            }
        }
        self.entries = entries;
        assert(self@ =~= old(self)@.insert(id@, state));
    }

    /// Records that the reasoning of `id` was seen `finished` (or not),
    /// applying the finish transition to its state.
    pub fn sync(&mut self, id: &MessageId, finished: bool)
        ensures
            final(self)@ == old(self)@.insert(
                id@,
                state_or_initial(old(self)@, id@).synced(finished),
            ),
    {
        let mut state = match self.get(id) {
            Some(s) => s,
            None => ThinkingUiState::default(),
        };
        state.sync(finished);
        self.store(id, state);
    }

    /// Records a click on the header of `id`'s thinking block.
    pub fn toggle(&mut self, id: &MessageId)
        ensures
            final(self)@ == old(self)@.insert(id@, state_or_initial(old(self)@, id@).toggled()),
    {
        let mut state = match self.get(id) {
            Some(s) => s,
            None => ThinkingUiState::default(),
        };
        state.toggle();
        self.store(id, state);
    }
}

/// A block that has never been seen is shown expanded.
pub proof fn law_unseen_block_is_expanded(states: Map<Seq<char>, ThinkingUiState>, id: Seq<char>)
    requires
        !states.contains_key(id),
    ensures
        !state_or_initial(states, id).collapsed,
{
}

/// While the reasoning is still streaming, observing it never changes whether
/// the block is collapsed.
pub proof fn law_streaming_keeps_collapse(s: ThinkingUiState)
    ensures
        s.synced(false).collapsed == s.collapsed,
{
}

/// The first observation of the finished reasoning collapses a block that the
/// user has not toggled.
pub proof fn law_first_finish_collapses(s: ThinkingUiState)
    requires
        !s.last_known_finished,
        !s.user_toggled,
    ensures
        s.synced(true).collapsed,
{
}

/// Once the user has toggled a block, no observation of the reasoning,
/// finished or not, changes whether it is collapsed.
pub proof fn law_manual_toggle_wins(s: ThinkingUiState, observations: Seq<bool>)
    requires
        s.user_toggled,
    ensures
        s.synced_all(observations).collapsed == s.collapsed,
        s.synced_all(observations).user_toggled,
    decreases observations.len(),
{
    if observations.len() > 0 {
        law_manual_toggle_wins(s, observations.drop_last());
    }
}

/// A toggle made while the reasoning streams keeps the block in the state the
/// user chose, whatever observations follow, the finish included.
pub proof fn law_toggle_prevents_auto_collapse(s: ThinkingUiState, observations: Seq<bool>)
    ensures
        s.toggled().synced_all(observations).collapsed == !s.collapsed,
{
    law_manual_toggle_wins(s.toggled(), observations);
}

/// Observing the same finish status twice is the same as observing it once.
pub proof fn law_sync_idempotent(s: ThinkingUiState, finished: bool)
    ensures
        s.synced(finished).synced(finished) == s.synced(finished),
{
}

/// Two toggles bring the block back to its previous collapse state.
pub proof fn law_toggle_twice_restores(s: ThinkingUiState)
    ensures
        s.toggled().toggled().collapsed == s.collapsed,
        s.toggled().toggled().last_known_finished == s.last_known_finished,
{
}

/// A block already seen finished is left as it is by further finished
/// observations, so one the user expanded after the auto-collapse stays
/// expanded.
pub proof fn law_finished_block_is_stable(s: ThinkingUiState)
    requires
        s.last_known_finished,
    ensures
        s.synced(true) == s,
{
}

/// Observing or toggling one message's block leaves every other message's
/// block untouched.
pub proof fn law_blocks_are_independent(
    states: Map<Seq<char>, ThinkingUiState>,
    id: Seq<char>,
    other: Seq<char>,
    finished: bool,
)
    requires
        id != other,
    ensures
        states.insert(id, state_or_initial(states, id).synced(finished)).contains_key(other)
            == states.contains_key(other),
        states.contains_key(other) ==> states.insert(
            id,
            state_or_initial(states, id).synced(finished),
        )[other] == states[other],
        states.insert(id, state_or_initial(states, id).toggled()).contains_key(other)
            == states.contains_key(other),
        states.contains_key(other) ==> states.insert(id, state_or_initial(states, id).toggled())[other]
            == states[other],
{
}

/// The states after observing message `id` with finish status `finished`.
pub open spec fn synced_in(
    states: Map<Seq<char>, ThinkingUiState>,
    id: Seq<char>,
    finished: bool,
) -> Map<Seq<char>, ThinkingUiState> {
    states.insert(id, state_or_initial(states, id).synced(finished))
}

/// The states after a click on message `id`'s block.
pub open spec fn toggled_in(states: Map<Seq<char>, ThinkingUiState>, id: Seq<char>) -> Map<
    Seq<char>,
    ThinkingUiState,
> {
    states.insert(id, state_or_initial(states, id).toggled())
}

/// Observing a message with the same status again, as each frame does,
/// leaves the states as the first observation left them.
pub proof fn law_observing_again_changes_nothing(
    states: Map<Seq<char>, ThinkingUiState>,
    id: Seq<char>,
    finished: bool,
)
    ensures
        synced_in(synced_in(states, id, finished), id, finished) == synced_in(states, id, finished),
{
    assert(synced_in(synced_in(states, id, finished), id, finished) =~= synced_in(
        states,
        id,
        finished,
    ));
}

/// A block the user expands after it was seen finished stays expanded when
/// the finished reasoning is observed again: the auto-collapse happens on the
/// first finish only.
pub proof fn law_expanded_after_finish_stays_expanded(
    states: Map<Seq<char>, ThinkingUiState>,
    id: Seq<char>,
)
    requires
        state_or_initial(states, id).last_known_finished,
    ensures
        synced_in(toggled_in(states, id), id, true) == toggled_in(states, id),
{
    assert(synced_in(toggled_in(states, id), id, true) =~= toggled_in(states, id));
}

/// A block the user toggled while the reasoning streamed is not collapsed
/// by the finish: observing it finished keeps the state the user chose.
pub proof fn law_toggle_before_finish_is_kept(
    states: Map<Seq<char>, ThinkingUiState>,
    id: Seq<char>,
)
    ensures
        synced_in(toggled_in(states, id), id, true)[id].collapsed == toggled_in(
            states,
            id,
        )[id].collapsed,
{
}

} // verus!
