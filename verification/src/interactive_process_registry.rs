//! Registry of live interactive CLI processes, keyed by (context_type, context_id).
//!
//! The registry owns the lifecycle state of each registration: its monotonic
//! token, whether it is mid-turn or idle, whether it retires after the current
//! turn, and the stdin turns it accepted but has not answered yet. The stdin
//! pipe and the completion notifier belong to the async shell that wraps this
//! type and are looked up by token.
use vstd::prelude::*;

use crate::agents::AgentHarnessKind;
use crate::text::{chars_of, copy_opt, copy_str, is_blank, opt_view, push_char, str_eq, str_is_blank};

verus! {

/// Key for identifying an interactive process by context.
#[derive(Debug)]
pub struct InteractiveProcessKey {
    pub context_type: String,
    pub context_id: String,
}

impl View for InteractiveProcessKey {
    type V = (Seq<char>, Seq<char>);

    open spec fn view(&self) -> (Seq<char>, Seq<char>) {
        (self.context_type@, self.context_id@)
    }
}

impl InteractiveProcessKey {
    pub fn new(context_type: &str, context_id: &str) -> (key: Self)
        ensures
            key@ == (context_type@, context_id@),
    {
        InteractiveProcessKey { context_type: copy_str(context_type), context_id: copy_str(context_id) }
    }

    /// A copy of this key.
    pub fn duplicate(&self) -> (key: Self)
        ensures
            key@ == self@,
    {
        InteractiveProcessKey {
            context_type: copy_str(self.context_type.as_str()),
            context_id: copy_str(self.context_id.as_str()),
        }
    }

    /// Field-wise equality of two keys.
    pub fn same_as(&self, other: &Self) -> (r: bool)
        ensures
            r == (self@ == other@),
    {
        self.context_type == other.context_type && self.context_id == other.context_id
    }
}

/// A user turn accepted by a live interactive process but not yet answered.
#[derive(Debug)]
pub struct PendingStdinTurn {
    pub persisted_message_id: String,
    pub content: String,
    pub metadata_override: Option<String>,
    pub queued_at: String,
}

#[derive(Debug, Clone, Copy, PartialEq, Eq, Structural)]
pub enum InteractiveProcessState {
    Active,
    Idle,
}

/// Result of completing a concrete interactive-process turn.
#[derive(Debug, Clone, Copy, PartialEq, Eq, Structural)]
pub enum InteractiveProcessTurnCompleteDisposition {
    Stale,
    KeepAlive,
    RetireAfterTurn,
}

/// Result of staging retirement for one concrete registration.
#[derive(Debug, Clone, Copy, PartialEq, Eq, Structural)]
pub enum InteractiveProcessRetireArmDisposition {
    Stale,
    AwaitingTurn,
    IdleReady,
}

/// Read-only retirement status for one exact owner.
#[derive(Debug, Clone, Copy, PartialEq, Eq, Structural)]
pub enum InteractiveProcessRetireAfterTurnDisposition {
    Stale,
    Active { is_armed: bool },
    Idle { is_armed: bool },
}

/// Monotonic identity for one concrete registry entry.
#[derive(Debug, Clone, Copy, PartialEq, Eq, Structural)]
pub struct InteractiveProcessToken(u64);

impl InteractiveProcessToken {
    pub closed spec fn id(self) -> u64 {
        self.0
    }

    pub fn value(&self) -> (v: u64)
        ensures
            v == self.id(),
    {
        self.0
    }
}

/// Why a write through a registration did not complete.
#[derive(Debug)]
pub enum InteractiveProcessWriteError {
    Missing { context_type: String, context_id: String },
    Retiring { context_type: String, context_id: String },
    StdinIo {
        context_type: String,
        context_id: String,
        token: InteractiveProcessToken,
        operation: String,
        source_message: String,
    },
}

#[derive(Debug)]
pub struct InteractiveProcessMetadata {
    pub agent_run_id: Option<String>,
    pub harness: Option<AgentHarnessKind>,
    pub provider_session_id: Option<String>,
    pub persona_id: Option<String>,
    pub persona_content_hash: Option<String>,
}

/// The value of a metadata record, by the views of its strings.
pub struct MetadataView {
    pub agent_run_id: Option<Seq<char>>,
    pub harness: Option<AgentHarnessKind>,
    pub provider_session_id: Option<Seq<char>>,
    pub persona_id: Option<Seq<char>>,
    pub persona_content_hash: Option<Seq<char>>,
}

impl View for InteractiveProcessMetadata {
    type V = MetadataView;

    open spec fn view(&self) -> MetadataView {
        MetadataView {
            agent_run_id: opt_view(self.agent_run_id),
            harness: self.harness,
            provider_session_id: opt_view(self.provider_session_id),
            persona_id: opt_view(self.persona_id),
            persona_content_hash: opt_view(self.persona_content_hash),
        }
    }
}

impl InteractiveProcessMetadata {
    /// Metadata with every field unset.
    pub fn empty() -> (m: Self)
        ensures
            m@ == (MetadataView {
                agent_run_id: None,
                harness: None,
                provider_session_id: None,
                persona_id: None,
                persona_content_hash: None,
            }),
    {
        InteractiveProcessMetadata {
            agent_run_id: None,
            harness: None,
            provider_session_id: None,
            persona_id: None,
            persona_content_hash: None,
        }
    }

    /// A copy of this metadata.
    pub fn duplicate(&self) -> (m: Self)
        ensures
            m@ == self@,
    {
        InteractiveProcessMetadata {
            agent_run_id: copy_opt(&self.agent_run_id),
            harness: self.harness,
            provider_session_id: copy_opt(&self.provider_session_id),
            persona_id: copy_opt(&self.persona_id),
            persona_content_hash: copy_opt(&self.persona_content_hash),
        }
    }
}

impl Default for InteractiveProcessMetadata {
    fn default() -> (m: Self)
        ensures
            m@.agent_run_id is None,
            m@.harness is None,
            m@.provider_session_id is None,
            m@.persona_id is None,
            m@.persona_content_hash is None,
    {
        Self::empty()
    }
}

/// Immutable identity and metadata captured from the current entry.
#[derive(Debug)]
pub struct InteractiveProcessOwnerSnapshot {
    pub token: InteractiveProcessToken,
    pub agent_run_id: String,
    pub metadata: InteractiveProcessMetadata,
}

/// One registration: its identity and lifecycle state.
#[derive(Debug)]
pub struct InteractiveProcess {
    pub metadata: InteractiveProcessMetadata,
    token: InteractiveProcessToken,
    state: InteractiveProcessState,
    retire_after_turn: bool,
    pending_stdin_turns: Vec<PendingStdinTurn>,
}

/// The abstract value of one registration.
pub struct ProcessEntry {
    pub token: u64,
    pub state: InteractiveProcessState,
    pub retire_after_turn: bool,
    pub pending: Seq<PendingStdinTurn>,
    pub metadata: MetadataView,
}

impl View for InteractiveProcess {
    type V = ProcessEntry;

    closed spec fn view(&self) -> ProcessEntry {
        ProcessEntry {
            token: self.token.id(),
            state: self.state,
            retire_after_turn: self.retire_after_turn,
            pending: self.pending_stdin_turns@,
            metadata: self.metadata@,
        }
    }
}

impl InteractiveProcess {
    pub fn token(&self) -> (t: InteractiveProcessToken)
        ensures
            t.id() == self@.token,
    {
        self.token
    }

    pub fn state(&self) -> (s: InteractiveProcessState)
        ensures
            s == self@.state,
    {
        self.state
    }

    pub fn retire_after_turn(&self) -> (b: bool)
        ensures
            b == self@.retire_after_turn,
    {
        self.retire_after_turn
    }

    /// Drain the unanswered stdin turns from an already-removed entry.
    pub fn take_pending_stdin_turns(&mut self) -> (turns: Vec<PendingStdinTurn>)
        ensures
            turns@ == old(self)@.pending,
            final(self)@ == (ProcessEntry { pending: Seq::empty(), ..old(self)@ }),
    {
        let mut turns: Vec<PendingStdinTurn> = Vec::new();
        std::mem::swap(&mut turns, &mut self.pending_stdin_turns);
        turns
    }
}

/// The run id of a registration, by view.
pub open spec fn run_of(e: ProcessEntry) -> Option<Seq<char>> {
    e.metadata.agent_run_id
}

/// The registry's abstract state: one entry per key.
pub type RegistryModel = Map<(Seq<char>, Seq<char>), ProcessEntry>;

/// True when `k` is registered with token `t`.
pub open spec fn token_owns(m: RegistryModel, k: (Seq<char>, Seq<char>), t: u64) -> bool {
    m.contains_key(k) && m[k].token == t
}

/// True when `k` is registered with token `t` and launch run id `run`.
pub open spec fn run_owns(
    m: RegistryModel,
    k: (Seq<char>, Seq<char>),
    t: u64,
    run: Seq<char>,
) -> bool {
    token_owns(m, k, t) && run_of(m[k]) == Some(run)
}

/// A fresh registration.
pub open spec fn fresh_entry(t: u64, metadata: MetadataView) -> ProcessEntry {
    ProcessEntry {
        token: t,
        state: InteractiveProcessState::Active,
        retire_after_turn: false,
        pending: Seq::empty(),
        metadata,
    }
}

/// The model after `push_pending_turn`.
pub open spec fn after_push(
    m: RegistryModel,
    k: (Seq<char>, Seq<char>),
    t: u64,
    turn: PendingStdinTurn,
) -> RegistryModel {
    if token_owns(m, k, t) {
        m.insert(k, ProcessEntry { pending: m[k].pending.push(turn), ..m[k] })
    } else {
        m
    }
}

/// The model after `pop_pending_turn`.
pub open spec fn after_pop(m: RegistryModel, k: (Seq<char>, Seq<char>), t: u64) -> RegistryModel {
    if token_owns(m, k, t) && m[k].pending.len() > 0 {
        m.insert(k, ProcessEntry { pending: m[k].pending.drop_first(), ..m[k] })
    } else {
        m
    }
}

/// What `pop_pending_turn` returns.
pub open spec fn popped(m: RegistryModel, k: (Seq<char>, Seq<char>), t: u64) -> Option<
    PendingStdinTurn,
> {
    if token_owns(m, k, t) && m[k].pending.len() > 0 {
        Some(m[k].pending[0])
    } else {
        None
    }
}

/// The model after `take_pending_turns`: the owner is drained and sealed.
pub open spec fn after_take(m: RegistryModel, k: (Seq<char>, Seq<char>), t: u64) -> RegistryModel {
    if token_owns(m, k, t) {
        m.insert(k, ProcessEntry { pending: Seq::empty(), retire_after_turn: true, ..m[k] })
    } else {
        m
    }
}

/// The model after `arm_retire_after_turn_if_owner`.
pub open spec fn after_arm(
    m: RegistryModel,
    k: (Seq<char>, Seq<char>),
    t: u64,
    run: Seq<char>,
) -> RegistryModel {
    if run_owns(m, k, t, run) {
        m.insert(k, ProcessEntry { retire_after_turn: true, ..m[k] })
    } else {
        m
    }
}

/// What `arm_retire_after_turn_if_owner` returns.
pub open spec fn arm_result(
    m: RegistryModel,
    k: (Seq<char>, Seq<char>),
    t: u64,
    run: Seq<char>,
) -> InteractiveProcessRetireArmDisposition {
    if !run_owns(m, k, t, run) {
        InteractiveProcessRetireArmDisposition::Stale
    } else if m[k].state == InteractiveProcessState::Idle {
        InteractiveProcessRetireArmDisposition::IdleReady
    } else {
        InteractiveProcessRetireArmDisposition::AwaitingTurn
    }
}

/// The model after `disarm_retire_after_turn_if_owner`.
pub open spec fn after_disarm(
    m: RegistryModel,
    k: (Seq<char>, Seq<char>),
    t: u64,
    run: Seq<char>,
) -> RegistryModel {
    if run_owns(m, k, t, run) && m[k].retire_after_turn {
        m.insert(k, ProcessEntry { retire_after_turn: false, ..m[k] })
    } else {
        m
    }
}

/// The model after `complete_turn_if_owner`.
pub open spec fn after_complete(
    m: RegistryModel,
    k: (Seq<char>, Seq<char>),
    t: u64,
    run: Seq<char>,
) -> RegistryModel {
    if !run_owns(m, k, t, run) {
        m
    } else if m[k].retire_after_turn {
        m.remove(k)
    } else {
        m.insert(k, ProcessEntry { state: InteractiveProcessState::Idle, ..m[k] })
    }
}

/// What `complete_turn_if_owner` returns.
pub open spec fn complete_result(
    m: RegistryModel,
    k: (Seq<char>, Seq<char>),
    t: u64,
    run: Seq<char>,
) -> InteractiveProcessTurnCompleteDisposition {
    if !run_owns(m, k, t, run) {
        InteractiveProcessTurnCompleteDisposition::Stale
    } else if m[k].retire_after_turn {
        InteractiveProcessTurnCompleteDisposition::RetireAfterTurn
    } else {
        InteractiveProcessTurnCompleteDisposition::KeepAlive
    }
}

/// True when `retire_armed_idle_if_owner` removes the entry.
pub open spec fn armed_idle_owned(
    m: RegistryModel,
    k: (Seq<char>, Seq<char>),
    t: u64,
    run: Seq<char>,
) -> bool {
    run_owns(m, k, t, run) && m[k].retire_after_turn && m[k].state
        == InteractiveProcessState::Idle
}

/// True when `retire_if_idle` removes the entry.
pub open spec fn unarmed_idle(m: RegistryModel, k: (Seq<char>, Seq<char>)) -> bool {
    m.contains_key(k) && m[k].state == InteractiveProcessState::Idle && !m[k].retire_after_turn
}

/// How a write request is decided, before any byte reaches stdin.
pub enum WriteDecision {
    Missing,
    Retiring,
    Accepted,
}

/// The decision for a write to `k`, optionally scoped to an exact owner.
pub open spec fn write_decision(
    m: RegistryModel,
    k: (Seq<char>, Seq<char>),
    owner: Option<(u64, Seq<char>)>,
) -> WriteDecision {
    if !m.contains_key(k) {
        WriteDecision::Missing
    } else if owner is Some && (m[k].token != owner.unwrap().0 || is_blank(owner.unwrap().1)
        || run_of(m[k]) != Some(owner.unwrap().1)) {
        WriteDecision::Missing
    } else if m[k].retire_after_turn {
        WriteDecision::Retiring
    } else {
        WriteDecision::Accepted
    }
}

/// The model after a write request.
pub open spec fn after_write(
    m: RegistryModel,
    k: (Seq<char>, Seq<char>),
    owner: Option<(u64, Seq<char>)>,
) -> RegistryModel {
    match write_decision(m, k, owner) {
        WriteDecision::Accepted => m.insert(
            k,
            ProcessEntry { state: InteractiveProcessState::Active, ..m[k] },
        ),
        _ => m,
    }
}

/// The line written to stdin for `message`: a newline is appended when missing.
pub open spec fn stdin_line(message: Seq<char>) -> Seq<char> {
    if message.len() > 0 && message.last() == '\n' {
        message
    } else {
        message.push('\n')
    }
}

/// Registry for interactive CLI processes.
#[derive(Debug)]
pub struct InteractiveProcessRegistry {
    entries: Vec<(InteractiveProcessKey, InteractiveProcess)>,
    next_token: u64,
}

impl InteractiveProcessRegistry {
    pub closed spec fn key_at(&self, i: int) -> (Seq<char>, Seq<char>) {
        self.entries@[i].0@
    }

    pub closed spec fn entry_at(&self, i: int) -> ProcessEntry {
        self.entries@[i].1@
    }

    pub closed spec fn len(&self) -> nat {
        self.entries@.len()
    }

    /// Abstract state: the entry registered under each key.
    pub closed spec fn view(&self) -> RegistryModel {
        Map::new(
            |k: (Seq<char>, Seq<char>)| exists|i: int| 0 <= i < self.len() && self.key_at(i) == k,
            |k: (Seq<char>, Seq<char>)|
                self.entry_at(choose|i: int| 0 <= i < self.len() && self.key_at(i) == k),
        )
    }

    /// The token that the next registration receives.
    pub closed spec fn next(&self) -> u64 {
        self.next_token
    }

    /// Internal consistency: one entry per key, every issued token is below
    /// the next one, and no two entries share a token.
    pub closed spec fn wf(&self) -> bool {
        &&& self.next_token >= 1
        &&& forall|i: int, j: int|
            #![trigger self.key_at(i), self.key_at(j)]
            0 <= i < self.len() && 0 <= j < self.len() && i != j ==> self.key_at(i) != self.key_at(j)
        &&& forall|i: int| 0 <= i < self.len() ==> (#[trigger] self.entry_at(i)).token < self.next_token
        &&& forall|i: int, j: int|
            #![trigger self.entry_at(i), self.entry_at(j)]
            0 <= i < self.len() && 0 <= j < self.len() && i != j ==> self.entry_at(i).token
                != self.entry_at(j).token
    }

    proof fn lemma_view_at(&self, i: int)
        requires
            self.wf(),
            0 <= i < self.len(),
        ensures
            self.view().contains_key(self.key_at(i)),
            self.view()[self.key_at(i)] == self.entry_at(i),
    {
        let k = self.key_at(i);
        assert(exists|j: int| 0 <= j < self.len() && self.key_at(j) == k);
        let j = choose|j: int| 0 <= j < self.len() && self.key_at(j) == k;
        assert(j == i);
    }

    /// Tokens of registered entries are below `next()`.
    pub proof fn lemma_tokens_below_next(&self, k: (Seq<char>, Seq<char>))
        requires
            self.wf(),
            self.view().contains_key(k),
        ensures
            self.view()[k].token < self.next(),
    {
        let i = choose|i: int| 0 <= i < self.len() && self.key_at(i) == k;
        self.lemma_view_at(i);
    }

    pub fn new() -> (r: Self)
        ensures
            r.wf(),
            r.view() == RegistryModel::empty(),
            r.next() == 1,
    {
        let r = InteractiveProcessRegistry { entries: Vec::new(), next_token: 1 };
        assert(r.view() =~= RegistryModel::empty());
        r
    }

    fn find(&self, key: &InteractiveProcessKey) -> (r: Option<usize>)
        requires
            self.wf(),
        ensures
            match r {
                Some(i) => i < self.len() && self.key_at(i as int) == key@ && self.view().contains_key(
                    key@,
                ) && self.view()[key@] == self.entry_at(i as int),
                None => !self.view().contains_key(key@),
            },
    {
        let mut i: usize = 0;
        while i < self.entries.len()
            invariant
                self.wf(),
                i <= self.len(),
                forall|j: int| 0 <= j < i ==> self.key_at(j) != key@,
            decreases self.entries.len() - i,
        {
            if self.entries[i].0.same_as(key) {
                proof {
                    self.lemma_view_at(i as int);
                }
                return Some(i);
            }
            i = i + 1;
        }
        None
    }

    /// Remove the entry at index `i`, with its key.
    fn take_pair_at(&mut self, i: usize) -> (r: (InteractiveProcessKey, InteractiveProcess))
        requires
            old(self).wf(),
            i < old(self).len(),
        ensures
            final(self).wf(),
            final(self).next() == old(self).next(),
            r.0@ == old(self).key_at(i as int),
            r.1@ == old(self).entry_at(i as int),
            r.1@.token < final(self).next(),
            forall|j: int|
                0 <= j < final(self).len() ==> final(self).key_at(j) != r.0@ && (#[trigger] final(self).entry_at(j)).token != r.1@.token,
            final(self).view() == old(self).view().remove(old(self).key_at(i as int)),
    {
        let ghost old_self = *self;
        let (key, entry) = self.entries.remove(i);
        proof {
            let k = old_self.key_at(i as int);
            assert forall|j: int| 0 <= j < self.len() implies self.key_at(j) == old_self.key_at(
                if j < i { j } else { j + 1 },
            ) && self.entry_at(j) == old_self.entry_at(if j < i { j } else { j + 1 }) by {}
            assert forall|a: int, b: int|
                #![trigger self.key_at(a), self.key_at(b)]
                #![trigger self.entry_at(a), self.entry_at(b)]
                0 <= a < self.len() && 0 <= b < self.len() && a != b implies self.key_at(a)
                != self.key_at(b) && self.entry_at(a).token != self.entry_at(b).token by {
                let oa = if a < i { a } else { a + 1 };
                let ob = if b < i { b } else { b + 1 };
                assert(self.key_at(a) == old_self.key_at(oa));
                assert(self.key_at(b) == old_self.key_at(ob));
                assert(old_self.key_at(oa) != old_self.key_at(ob));
                assert(old_self.entry_at(oa).token != old_self.entry_at(ob).token);
            }
            assert forall|a: int| 0 <= a < self.len() implies (#[trigger] self.entry_at(a)).token
                < self.next_token by {
                let oa = if a < i { a } else { a + 1 };
                assert(old_self.entry_at(oa).token < old_self.next_token);
            }
            assert forall|j: int|
                0 <= j < self.len() implies self.key_at(j) != k && (#[trigger] self.entry_at(
                j,
            )).token != entry@.token by {
                let oj = if j < i { j } else { j + 1 };
                assert(self.key_at(j) == old_self.key_at(oj));
                assert(old_self.key_at(oj) != old_self.key_at(i as int));
                assert(old_self.entry_at(oj).token != old_self.entry_at(i as int).token);
            }
            assert(old_self.entry_at(i as int).token < old_self.next_token);
            assert forall|q: (Seq<char>, Seq<char>)|
                #[trigger] self.view().contains_key(q) == old_self.view().remove(k).contains_key(q) by {
                if old_self.view().contains_key(q) && q != k {
                    let j = choose|j: int| 0 <= j < old_self.len() && old_self.key_at(j) == q;
                    assert(j != i);
                    let jj = if j < i { j } else { j - 1 };
                    assert(self.key_at(jj) == q);
                }
                if self.view().contains_key(q) {
                    let j = choose|j: int| 0 <= j < self.len() && self.key_at(j) == q;
                    let oj = if j < i { j } else { j + 1 };
                    assert(old_self.key_at(oj) == q);
                    assert(oj != i);
                }
            }
            assert forall|q: (Seq<char>, Seq<char>)| #[trigger]
                self.view().contains_key(q) implies self.view()[q] == old_self.view().remove(k)[q] by {
                let j = choose|j: int| 0 <= j < self.len() && self.key_at(j) == q;
                self.lemma_view_at(j);
                let oj = if j < i { j } else { j + 1 };
                old_self.lemma_view_at(oj);
            }
            assert(self.view() =~= old_self.view().remove(k));
        }
        (key, entry)
    }

    /// Remove the entry at index `i`.
    fn take_at(&mut self, i: usize) -> (e: InteractiveProcess)
        requires
            old(self).wf(),
            i < old(self).len(),
        ensures
            final(self).wf(),
            final(self).next() == old(self).next(),
            e@ == old(self).entry_at(i as int),
            final(self).view() == old(self).view().remove(old(self).key_at(i as int)),
    {
        let (_key, e) = self.take_pair_at(i);
        e
    }

    /// Put an entry back under a key that is absent, with a token that no
    /// other entry holds.
    fn reinsert(&mut self, key: InteractiveProcessKey, entry: InteractiveProcess)
        requires
            old(self).wf(),
            entry@.token < old(self).next(),
            forall|j: int|
                0 <= j < old(self).len() ==> old(self).key_at(j) != key@ && (#[trigger] old(self).entry_at(j)).token != entry@.token,
        ensures
            final(self).wf(),
            final(self).next() == old(self).next(),
            final(self).view() == old(self).view().insert(key@, entry@),
    {
        let ghost old_self = *self;
        let ghost k = key@;
        let ghost e = entry@;
        self.entries.push((key, entry));
        proof {
            let n = old_self.len() as int;
            assert forall|j: int| 0 <= j < n implies self.key_at(j) == old_self.key_at(j)
                && self.entry_at(j) == old_self.entry_at(j) by {}
            assert(self.key_at(n) == k);
            assert(self.entry_at(n) == e);
            assert forall|a: int, b: int|
                #![trigger self.key_at(a), self.key_at(b)]
                #![trigger self.entry_at(a), self.entry_at(b)]
                0 <= a < self.len() && 0 <= b < self.len() && a != b implies self.key_at(a)
                != self.key_at(b) && self.entry_at(a).token != self.entry_at(b).token by {
                if a < n && b < n {
                    assert(self.key_at(a) == old_self.key_at(a));
                    assert(self.key_at(b) == old_self.key_at(b));
                    assert(old_self.key_at(a) != old_self.key_at(b));
                    assert(old_self.entry_at(a).token != old_self.entry_at(b).token);
                } else if a == n {
                    assert(self.key_at(b) == old_self.key_at(b));
                    assert(old_self.key_at(b) != k);
                    assert(old_self.entry_at(b).token != e.token);
                } else {
                    assert(self.key_at(a) == old_self.key_at(a));
                    assert(old_self.key_at(a) != k);
                    assert(old_self.entry_at(a).token != e.token);
                }
            }
            assert forall|a: int| 0 <= a < self.len() implies (#[trigger] self.entry_at(a)).token
                < self.next_token by {
                if a < n {
                    assert(old_self.entry_at(a).token < old_self.next_token);
                } else {
                    assert(self.entry_at(a) == e);
                }
            }
            assert(self.next_token == old_self.next_token);
            assert(self.wf());
            assert forall|q: (Seq<char>, Seq<char>)|
                #[trigger] self.view().contains_key(q) == old_self.view().insert(k, e).contains_key(q) by {
                if old_self.view().contains_key(q) {
                    let j = choose|j: int| 0 <= j < old_self.len() && old_self.key_at(j) == q;
                    assert(self.key_at(j) == q);
                }
                if self.view().contains_key(q) {
                    let j = choose|j: int| 0 <= j < self.len() && self.key_at(j) == q;
                    if j < n {
                        assert(old_self.key_at(j) == q);
                    }
                }
            }
            assert forall|q: (Seq<char>, Seq<char>)| #[trigger]
                self.view().contains_key(q) implies self.view()[q] == old_self.view().insert(k, e)[q] by {
                let j = choose|j: int| 0 <= j < self.len() && self.key_at(j) == q;
                self.lemma_view_at(j);
                if j < n {
                    old_self.lemma_view_at(j);
                }
            }
            assert(self.view() =~= old_self.view().insert(k, e));
        }
    }

    /// Register a new entry for `key`, replacing any entry already there.
    ///
    /// The new entry is active, not armed, holds no pending turns, and its
    /// token is the registry's next token.
    pub fn register_entry(
        &mut self,
        key: InteractiveProcessKey,
        metadata: InteractiveProcessMetadata,
    ) -> (t: InteractiveProcessToken)
        requires
            old(self).wf(),
            old(self).next() < u64::MAX,
        ensures
            final(self).wf(),
            t.id() == old(self).next(),
            final(self).next() == old(self).next() + 1,
            final(self).view() == old(self).view().insert(key@, fresh_entry(t.id(), metadata@)),
    {
        let token = InteractiveProcessToken(self.next_token);
        let entry = InteractiveProcess {
            metadata,
            token,
            state: InteractiveProcessState::Active,
            retire_after_turn: false,
            pending_stdin_turns: Vec::new(),
        };
        let ghost k = key@;
        match self.find(&key) {
            Some(i) => {
                let ghost before = *self;
                let _ = self.take_at(i);
                let ghost mid = *self;
                proof {
                    assert forall|j: int| 0 <= j < mid.len() implies mid.key_at(j) != k by {
                        mid.lemma_view_at(j);
                    }
                }
                self.push_new(key, entry);
                proof {
                    assert(mid.view().insert(k, entry@) =~= before.view().insert(k, entry@));
                }
            },
            None => {
                proof {
                    assert forall|j: int| 0 <= j < self.len() implies self.key_at(j) != k by {
                        self.lemma_view_at(j);
                    }
                }
                self.push_new(key, entry);
            },
        }
        token
    }

    fn push_new(&mut self, key: InteractiveProcessKey, entry: InteractiveProcess)
        requires
            old(self).wf(),
            old(self).next() < u64::MAX,
            entry@.token == old(self).next(),
            forall|j: int| 0 <= j < old(self).len() ==> old(self).key_at(j) != key@,
        ensures
            final(self).wf(),
            final(self).next() == old(self).next() + 1,
            final(self).view() == old(self).view().insert(key@, entry@),
    {
        let ghost old_self = *self;
        let ghost k = key@;
        let ghost e = entry@;
        self.entries.push((key, entry));
        self.next_token = self.next_token + 1;
        proof {
            let n = old_self.len() as int;
            assert forall|j: int| 0 <= j < n implies self.key_at(j) == old_self.key_at(j)
                && self.entry_at(j) == old_self.entry_at(j) by {}
            assert(self.key_at(n) == k);
            assert(self.entry_at(n) == e);
            assert forall|a: int, b: int|
                #![trigger self.key_at(a), self.key_at(b)]
                #![trigger self.entry_at(a), self.entry_at(b)]
                0 <= a < self.len() && 0 <= b < self.len() && a != b implies self.key_at(a)
                != self.key_at(b) && self.entry_at(a).token != self.entry_at(b).token by {
                if a < n && b < n {
                    assert(self.key_at(a) == old_self.key_at(a));
                    assert(self.key_at(b) == old_self.key_at(b));
                    assert(old_self.key_at(a) != old_self.key_at(b));
                    assert(old_self.entry_at(a).token != old_self.entry_at(b).token);
                } else if a == n {
                    assert(self.key_at(b) == old_self.key_at(b));
                    assert(old_self.key_at(b) != k);
                    assert(old_self.entry_at(b).token < old_self.next_token);
                } else {
                    assert(self.key_at(a) == old_self.key_at(a));
                    assert(old_self.key_at(a) != k);
                    assert(old_self.entry_at(a).token < old_self.next_token);
                }
            }
            assert forall|a: int| 0 <= a < self.len() implies (#[trigger] self.entry_at(a)).token
                < self.next_token by {
                if a < n {
                    assert(old_self.entry_at(a).token < old_self.next_token);
                } else {
                    assert(self.entry_at(a) == e);
                }
            }
            assert(self.wf());
            assert forall|q: (Seq<char>, Seq<char>)|
                #[trigger] self.view().contains_key(q) == old_self.view().insert(k, e).contains_key(q) by {
                if old_self.view().contains_key(q) {
                    let j = choose|j: int| 0 <= j < old_self.len() && old_self.key_at(j) == q;
                    assert(self.key_at(j) == q);
                }
                if self.view().contains_key(q) {
                    let j = choose|j: int| 0 <= j < self.len() && self.key_at(j) == q;
                    if j < n {
                        assert(old_self.key_at(j) == q);
                    }
                }
            }
            assert forall|q: (Seq<char>, Seq<char>)| #[trigger]
                self.view().contains_key(q) implies self.view()[q] == old_self.view().insert(k, e)[q] by {
                let j = choose|j: int| 0 <= j < self.len() && self.key_at(j) == q;
                self.lemma_view_at(j);
                if j < n {
                    old_self.lemma_view_at(j);
                }
            }
            assert(self.view() =~= old_self.view().insert(k, e));
        }
    }

    /// Whether another process can still be registered: tokens are never
    /// reused, so the registry refuses once they run out.
    pub fn tokens_available(&self) -> (b: bool)
        ensures
            b == (self.next() < u64::MAX),
    {
        self.next_token < u64::MAX
    }

    /// Check if an interactive process exists for this context.
    pub fn has_process(&self, key: &InteractiveProcessKey) -> (b: bool)
        requires
            self.wf(),
        ensures
            b == self.view().contains_key(key@),
    {
        self.find(key).is_some()
    }

    /// Decide a write to `key`, optionally scoped to the exact owner
    /// `(token, agent_run_id)`. On acceptance the entry becomes active and the
    /// caller receives the owner token and the newline-terminated line to send.
    pub fn begin_write(
        &mut self,
        key: &InteractiveProcessKey,
        expected_owner: Option<(InteractiveProcessToken, &str)>,
        message: &str,
    ) -> (r: Result<(InteractiveProcessToken, String), InteractiveProcessWriteError>)
        requires
            old(self).wf(),
        ensures
            final(self).wf(),
            final(self).next() == old(self).next(),
            final(self).view() == after_write(old(self).view(), key@, owner_view(expected_owner)),
            match r {
                Ok((t, line)) => write_decision(old(self).view(), key@, owner_view(expected_owner))
                    is Accepted && t.id() == old(self).view()[key@].token && line@ == stdin_line(
                    message@,
                ),
                Err(InteractiveProcessWriteError::Missing { context_type, context_id }) => write_decision(
                    old(self).view(),
                    key@,
                    owner_view(expected_owner),
                ) is Missing && (context_type@, context_id@) == key@,
                Err(InteractiveProcessWriteError::Retiring { context_type, context_id }) => write_decision(
                    old(self).view(),
                    key@,
                    owner_view(expected_owner),
                ) is Retiring && (context_type@, context_id@) == key@,
                Err(_) => false,
            },
    {
        let i = match self.find(key) {
            Some(i) => i,
            None => {
                return Err(
                    InteractiveProcessWriteError::Missing {
                        context_type: copy_str(key.context_type.as_str()),
                        context_id: copy_str(key.context_id.as_str()),
                    },
                );
            },
        };
        let ghost m = self.view();
        let mismatch = match expected_owner {
            Some((token, run)) => {
                let e = &self.entries[i].1;
                e.token != token || str_is_blank(run) || !opt_str_is(&e.metadata.agent_run_id, run)
            },
            None => false,
        };
        if mismatch {
            return Err(
                InteractiveProcessWriteError::Missing {
                    context_type: copy_str(key.context_type.as_str()),
                    context_id: copy_str(key.context_id.as_str()),
                },
            );
        }
        if self.entries[i].1.retire_after_turn {
            return Err(
                InteractiveProcessWriteError::Retiring {
                    context_type: copy_str(key.context_type.as_str()),
                    context_id: copy_str(key.context_id.as_str()),
                },
            );
        }
        let (k, mut e) = self.take_pair_at(i);
        e.state = InteractiveProcessState::Active;
        let token = e.token;
        self.reinsert(k, e);
        let line = with_trailing_newline(message);
        Ok((token, line))
    }

    /// Remove and return the entry for a context.
    pub fn remove(&mut self, key: &InteractiveProcessKey) -> (r: Option<InteractiveProcess>)
        requires
            old(self).wf(),
        ensures
            final(self).wf(),
            final(self).next() == old(self).next(),
            final(self).view() == old(self).view().remove(key@),
            match r {
                Some(e) => old(self).view().contains_key(key@) && e@ == old(self).view()[key@],
                None => !old(self).view().contains_key(key@),
            },
    {
        match self.find(key) {
            Some(i) => Some(self.take_at(i)),
            None => {
                proof {
                    assert(self.view().remove(key@) =~= self.view());
                }
                None
            },
        }
    }

    /// Remove an entry only when it is still the registration `token`.
    pub fn remove_if_token(&mut self, key: &InteractiveProcessKey, token: InteractiveProcessToken) -> (r:
        Option<InteractiveProcess>)
        requires
            old(self).wf(),
        ensures
            final(self).wf(),
            final(self).next() == old(self).next(),
            token_owns(old(self).view(), key@, token.id()) ==> final(self).view() == old(self).view().remove(key@) && r is Some && r->0@ == old(self).view()[key@],
            !token_owns(old(self).view(), key@, token.id()) ==> final(self).view() == old(self).view() && r is None,
    {
        match self.find(key) {
            Some(i) => {
                if self.entries[i].1.token == token {
                    Some(self.take_at(i))
                } else {
                    None
                }
            },
            None => None,
        }
    }

    /// Record a stdin-delivered user turn for exactly one owner.
    pub fn push_pending_turn(
        &mut self,
        key: &InteractiveProcessKey,
        token: InteractiveProcessToken,
        turn: PendingStdinTurn,
    ) -> (b: bool)
        requires
            old(self).wf(),
        ensures
            final(self).wf(),
            final(self).next() == old(self).next(),
            b == token_owns(old(self).view(), key@, token.id()),
            final(self).view() == after_push(old(self).view(), key@, token.id(), turn),
    {
        match self.find(key) {
            Some(i) => {
                if self.entries[i].1.token != token {
                    return false;
                }
                let (k, mut e) = self.take_pair_at(i);
                e.pending_stdin_turns.push(turn);
                self.reinsert(k, e);
                true
            },
            None => false,
        }
    }

    /// Remove the oldest unanswered stdin turn for exactly one owner.
    pub fn pop_pending_turn(&mut self, key: &InteractiveProcessKey, token: InteractiveProcessToken) -> (r:
        Option<PendingStdinTurn>)
        requires
            old(self).wf(),
        ensures
            final(self).wf(),
            final(self).next() == old(self).next(),
            r == popped(old(self).view(), key@, token.id()),
            final(self).view() == after_pop(old(self).view(), key@, token.id()),
    {
        match self.find(key) {
            Some(i) => {
                if self.entries[i].1.token != token || self.entries[i].1.pending_stdin_turns.len()
                    == 0 {
                    return None;
                }
                let (k, mut e) = self.take_pair_at(i);
                let ghost before = e.pending_stdin_turns@;
                let turn = e.pending_stdin_turns.remove(0);
                proof {
                    assert(e.pending_stdin_turns@ =~= before.drop_first());
                }
                self.reinsert(k, e);
                Some(turn)
            },
            None => None,
        }
    }

    /// Drain every unanswered stdin turn of the exact owner and seal the
    /// entry against further writes.
    pub fn take_pending_turns(&mut self, key: &InteractiveProcessKey, token: InteractiveProcessToken) -> (r:
        Vec<PendingStdinTurn>)
        requires
            old(self).wf(),
        ensures
            final(self).wf(),
            final(self).next() == old(self).next(),
            token_owns(old(self).view(), key@, token.id()) ==> r@ == old(self).view()[key@].pending,
            !token_owns(old(self).view(), key@, token.id()) ==> r@.len() == 0,
            final(self).view() == after_take(old(self).view(), key@, token.id()),
    {
        match self.find(key) {
            Some(i) => {
                if self.entries[i].1.token != token {
                    return Vec::new();
                }
                let (k, mut e) = self.take_pair_at(i);
                e.retire_after_turn = true;
                let mut turns: Vec<PendingStdinTurn> = Vec::new();
                std::mem::swap(&mut turns, &mut e.pending_stdin_turns);
                self.reinsert(k, e);
                turns
            },
            None => Vec::new(),
        }
    }

    /// Mark only the registration `token` as idle.
    pub fn mark_idle_if_token(&mut self, key: &InteractiveProcessKey, token: InteractiveProcessToken) -> (b:
        bool)
        requires
            old(self).wf(),
        ensures
            final(self).wf(),
            final(self).next() == old(self).next(),
            b == token_owns(old(self).view(), key@, token.id()),
            b ==> final(self).view() == old(self).view().insert(
                key@,
                ProcessEntry { state: InteractiveProcessState::Idle, ..old(self).view()[key@] },
            ),
            !b ==> final(self).view() == old(self).view(),
    {
        match self.find(key) {
            Some(i) => {
                if self.entries[i].1.token != token {
                    return false;
                }
                let (k, mut e) = self.take_pair_at(i);
                e.state = InteractiveProcessState::Idle;
                self.reinsert(k, e);
                true
            },
            None => false,
        }
    }

    /// Stage retirement after the current turn for exactly one launch owner.
    pub fn arm_retire_after_turn_if_owner(
        &mut self,
        key: &InteractiveProcessKey,
        token: InteractiveProcessToken,
        agent_run_id: &str,
    ) -> (r: InteractiveProcessRetireArmDisposition)
        requires
            old(self).wf(),
        ensures
            final(self).wf(),
            final(self).next() == old(self).next(),
            r == arm_result(old(self).view(), key@, token.id(), agent_run_id@),
            final(self).view() == after_arm(old(self).view(), key@, token.id(), agent_run_id@),
    {
        match self.find(key) {
            Some(i) => {
                if self.entries[i].1.token != token || !opt_str_is(
                    &self.entries[i].1.metadata.agent_run_id,
                    agent_run_id,
                ) {
                    return InteractiveProcessRetireArmDisposition::Stale;
                }
                let (k, mut e) = self.take_pair_at(i);
                e.retire_after_turn = true;
                let idle = e.state == InteractiveProcessState::Idle;
                self.reinsert(k, e);
                if idle {
                    InteractiveProcessRetireArmDisposition::IdleReady
                } else {
                    InteractiveProcessRetireArmDisposition::AwaitingTurn
                }
            },
            None => InteractiveProcessRetireArmDisposition::Stale,
        }
    }

    /// Retire exactly one staged, idle registration.
    pub fn retire_armed_idle_if_owner(
        &mut self,
        key: &InteractiveProcessKey,
        token: InteractiveProcessToken,
        agent_run_id: &str,
    ) -> (r: Option<InteractiveProcess>)
        requires
            old(self).wf(),
        ensures
            final(self).wf(),
            final(self).next() == old(self).next(),
            armed_idle_owned(old(self).view(), key@, token.id(), agent_run_id@) ==> final(self).view() == old(self).view().remove(key@) && r is Some && r->0@ == old(self).view()[key@],
            !armed_idle_owned(old(self).view(), key@, token.id(), agent_run_id@) ==> final(self).view() == old(self).view() && r is None,
    {
        match self.find(key) {
            Some(i) => {
                let e = &self.entries[i].1;
                if e.token == token && opt_str_is(&e.metadata.agent_run_id, agent_run_id)
                    && e.retire_after_turn && e.state == InteractiveProcessState::Idle {
                    Some(self.take_at(i))
                } else {
                    None
                }
            },
            None => None,
        }
    }

    /// Cancel a staged exact-owner retirement.
    pub fn disarm_retire_after_turn_if_owner(
        &mut self,
        key: &InteractiveProcessKey,
        token: InteractiveProcessToken,
        agent_run_id: &str,
    ) -> (b: bool)
        requires
            old(self).wf(),
        ensures
            final(self).wf(),
            final(self).next() == old(self).next(),
            b == (run_owns(old(self).view(), key@, token.id(), agent_run_id@) && old(self).view()[key@].retire_after_turn),
            final(self).view() == after_disarm(old(self).view(), key@, token.id(), agent_run_id@),
    {
        match self.find(key) {
            Some(i) => {
                if self.entries[i].1.token != token || !opt_str_is(
                    &self.entries[i].1.metadata.agent_run_id,
                    agent_run_id,
                ) {
                    return false;
                }
                if !self.entries[i].1.retire_after_turn {
                    return false;
                }
                let (k, mut e) = self.take_pair_at(i);
                e.retire_after_turn = false;
                self.reinsert(k, e);
                true
            },
            None => false,
        }
    }

    /// Settle a turn only for its exact registration and launch owner.
    pub fn complete_turn_if_owner(
        &mut self,
        key: &InteractiveProcessKey,
        token: InteractiveProcessToken,
        agent_run_id: &str,
    ) -> (r: InteractiveProcessTurnCompleteDisposition)
        requires
            old(self).wf(),
        ensures
            final(self).wf(),
            final(self).next() == old(self).next(),
            r == complete_result(old(self).view(), key@, token.id(), agent_run_id@),
            final(self).view() == after_complete(old(self).view(), key@, token.id(), agent_run_id@),
    {
        match self.find(key) {
            Some(i) => {
                if self.entries[i].1.token != token || !opt_str_is(
                    &self.entries[i].1.metadata.agent_run_id,
                    agent_run_id,
                ) {
                    return InteractiveProcessTurnCompleteDisposition::Stale;
                }
                if self.entries[i].1.retire_after_turn {
                    let _ = self.take_at(i);
                    InteractiveProcessTurnCompleteDisposition::RetireAfterTurn
                } else {
                    let (k, mut e) = self.take_pair_at(i);
                    e.state = InteractiveProcessState::Idle;
                    self.reinsert(k, e);
                    InteractiveProcessTurnCompleteDisposition::KeepAlive
                }
            },
            None => InteractiveProcessTurnCompleteDisposition::Stale,
        }
    }

    /// Retire only an unarmed idle registration.
    pub fn retire_if_idle(&mut self, key: &InteractiveProcessKey) -> (r: Option<InteractiveProcess>)
        requires
            old(self).wf(),
        ensures
            final(self).wf(),
            final(self).next() == old(self).next(),
            unarmed_idle(old(self).view(), key@) ==> final(self).view() == old(self).view().remove(
                key@,
            ) && r is Some && r->0@ == old(self).view()[key@],
            !unarmed_idle(old(self).view(), key@) ==> final(self).view() == old(self).view()
                && r is None,
    {
        match self.find(key) {
            Some(i) => {
                let e = &self.entries[i].1;
                if e.state == InteractiveProcessState::Idle && !e.retire_after_turn {
                    Some(self.take_at(i))
                } else {
                    None
                }
            },
            None => None,
        }
    }

    /// A copy of the metadata of a registered process.
    pub fn get_metadata(&self, key: &InteractiveProcessKey) -> (r: Option<InteractiveProcessMetadata>)
        requires
            self.wf(),
        ensures
            match r {
                Some(m) => self.view().contains_key(key@) && m@ == self.view()[key@].metadata,
                None => !self.view().contains_key(key@),
            },
    {
        match self.find(key) {
            Some(i) => Some(self.entries[i].1.metadata.duplicate()),
            None => None,
        }
    }

    /// Capture the current exact owner of `key`. Entries without a
    /// non-blank run id yield nothing.
    pub fn capture_owner(&self, key: &InteractiveProcessKey) -> (r: Option<
        InteractiveProcessOwnerSnapshot,
    >)
        requires
            self.wf(),
        ensures
            match r {
                Some(s) => self.view().contains_key(key@) && s.token.id() == self.view()[key@].token
                    && run_of(self.view()[key@]) == Some(s.agent_run_id@) && !is_blank(
                    s.agent_run_id@,
                ) && s.metadata@ == self.view()[key@].metadata,
                None => !self.view().contains_key(key@) || run_of(self.view()[key@]) is None
                    || is_blank(run_of(self.view()[key@])->0),
            },
    {
        match self.find(key) {
            Some(i) => {
                let e = &self.entries[i].1;
                match &e.metadata.agent_run_id {
                    Some(run) => {
                        if str_is_blank(run.as_str()) {
                            return None;
                        }
                        Some(
                            InteractiveProcessOwnerSnapshot {
                                token: e.token,
                                agent_run_id: copy_str(run.as_str()),
                                metadata: e.metadata.duplicate(),
                            },
                        )
                    },
                    None => None,
                }
            },
            None => None,
        }
    }

    /// Read the retirement state only for the exact current owner.
    pub fn retire_after_turn_disposition_if_owner(
        &self,
        key: &InteractiveProcessKey,
        token: InteractiveProcessToken,
        agent_run_id: &str,
    ) -> (r: InteractiveProcessRetireAfterTurnDisposition)
        requires
            self.wf(),
        ensures
            r == (if is_blank(agent_run_id@) || !run_owns(self.view(), key@, token.id(), agent_run_id@) {
                InteractiveProcessRetireAfterTurnDisposition::Stale
            } else if self.view()[key@].state == InteractiveProcessState::Active {
                InteractiveProcessRetireAfterTurnDisposition::Active {
                    is_armed: self.view()[key@].retire_after_turn,
                }
            } else {
                InteractiveProcessRetireAfterTurnDisposition::Idle {
                    is_armed: self.view()[key@].retire_after_turn,
                }
            }),
    {
        if str_is_blank(agent_run_id) {
            return InteractiveProcessRetireAfterTurnDisposition::Stale;
        }
        match self.find(key) {
            Some(i) => {
                let e = &self.entries[i].1;
                if e.token != token || !opt_str_is(&e.metadata.agent_run_id, agent_run_id) {
                    return InteractiveProcessRetireAfterTurnDisposition::Stale;
                }
                match e.state {
                    InteractiveProcessState::Active => InteractiveProcessRetireAfterTurnDisposition::Active {
                        is_armed: e.retire_after_turn,
                    },
                    InteractiveProcessState::Idle => InteractiveProcessRetireAfterTurnDisposition::Idle {
                        is_armed: e.retire_after_turn,
                    },
                }
            },
            None => InteractiveProcessRetireAfterTurnDisposition::Stale,
        }
    }

    /// The state of a registered process.
    pub fn state_of(&self, key: &InteractiveProcessKey) -> (r: Option<InteractiveProcessState>)
        requires
            self.wf(),
        ensures
            match r {
                Some(s) => self.view().contains_key(key@) && s == self.view()[key@].state,
                None => !self.view().contains_key(key@),
            },
    {
        match self.find(key) {
            Some(i) => Some(self.entries[i].1.state),
            None => None,
        }
    }

    /// Remove all registered processes and hand back their tokens.
    pub fn clear(&mut self) -> (tokens: Vec<InteractiveProcessToken>)
        requires
            old(self).wf(),
        ensures
            final(self).wf(),
            final(self).next() == old(self).next(),
            final(self).view() == RegistryModel::empty(),
            tokens@.len() == old(self).view().len(),
            forall|k: (Seq<char>, Seq<char>)| #[trigger]
                old(self).view().contains_key(k) ==> exists|j: int|
                    0 <= j < tokens@.len() && tokens@[j].id() == old(self).view()[k].token,
    {
        let ghost old_self = *self;
        let mut tokens: Vec<InteractiveProcessToken> = Vec::new();
        let mut i: usize = 0;
        while i < self.entries.len()
            invariant
                *self == old_self,
                i <= self.len(),
                tokens@.len() == i,
                forall|j: int| 0 <= j < i ==> tokens@[j].id() == self.entry_at(j).token,
            decreases self.entries.len() - i,
        {
            tokens.push(self.entries[i].1.token);
            i = i + 1;
        }
        proof {
            assert forall|k: (Seq<char>, Seq<char>)| #[trigger]
                old_self.view().contains_key(k) implies exists|j: int|
                0 <= j < tokens@.len() && tokens@[j].id() == old_self.view()[k].token by {
                let j = choose|j: int| 0 <= j < old_self.len() && old_self.key_at(j) == k;
                old_self.lemma_view_at(j);
                assert(tokens@[j].id() == old_self.view()[k].token);
            }
            old_self.lemma_len_matches();
        }
        self.entries = Vec::new();
        proof {
            assert(self.view() =~= RegistryModel::empty());
        }
        tokens
    }

    /// Number of registered processes.
    pub fn count(&self) -> (n: usize)
        requires
            self.wf(),
        ensures
            n == self.view().len(),
    {
        proof {
            self.lemma_len_matches();
        }
        self.entries.len()
    }

    proof fn lemma_len_matches(&self)
        requires
            self.wf(),
        ensures
            self.view().len() == self.len(),
            self.view().dom().finite(),
    {
        let keys = Seq::new(self.len(), |i: int| self.key_at(i));
        assert forall|i: int, j: int| 0 <= i < keys.len() && 0 <= j < keys.len() && i != j implies keys[i]
            != keys[j] by {}
        keys.unique_seq_to_set();
        assert forall|q: (Seq<char>, Seq<char>)| #[trigger]
            self.view().dom().contains(q) == keys.to_set().contains(q) by {
            if self.view().dom().contains(q) {
                let j = choose|j: int| 0 <= j < self.len() && self.key_at(j) == q;
                assert(keys[j] == q);
            }
            if keys.to_set().contains(q) {
                let j = choose|j: int| 0 <= j < keys.len() && keys[j] == q;
                assert(self.key_at(j) == q);
            }
        }
        assert(self.view().dom() =~= keys.to_set());
    }

    /// The keys of all registered processes.
    pub fn dump_state(&self) -> (keys: Vec<InteractiveProcessKey>)
        requires
            self.wf(),
        ensures
            keys@.len() == self.view().len(),
            forall|j: int| 0 <= j < keys@.len() ==> self.view().contains_key(#[trigger] keys@[j]@),
            forall|k: (Seq<char>, Seq<char>)| #[trigger]
                self.view().contains_key(k) ==> exists|j: int| 0 <= j < keys@.len() && keys@[j]@ == k,
    {
        proof {
            self.lemma_len_matches();
        }
        let mut keys: Vec<InteractiveProcessKey> = Vec::new();
        let mut i: usize = 0;
        while i < self.entries.len()
            invariant
                self.wf(),
                i <= self.len(),
                keys@.len() == i,
                forall|j: int| 0 <= j < i ==> (#[trigger] keys@[j])@ == self.key_at(j),
            decreases self.entries.len() - i,
        {
            keys.push(self.entries[i].0.duplicate());
            i = i + 1;
        }
        proof {
            assert forall|j: int| 0 <= j < keys@.len() implies self.view().contains_key(
                #[trigger] keys@[j]@,
            ) by {
                self.lemma_view_at(j);
            }
            assert forall|k: (Seq<char>, Seq<char>)| #[trigger]
                self.view().contains_key(k) implies exists|j: int|
                0 <= j < keys@.len() && keys@[j]@ == k by {
                let j = choose|j: int| 0 <= j < self.len() && self.key_at(j) == k;
                assert(keys@[j]@ == k);
            }
        }
        keys
    }

}

/// The exact-owner view of an optional `(token, run id)` pair.
pub open spec fn owner_view(owner: Option<(InteractiveProcessToken, &str)>) -> Option<(u64, Seq<char>)> {
    match owner {
        Some((t, run)) => Some((t.id(), run@)),
        None => None,
    }
}

/// True when `s` is `Some(run)`.
fn opt_str_is(s: &Option<String>, run: &str) -> (r: bool)
    ensures
        r == (opt_view(*s) == Some(run@)),
{
    match s {
        Some(v) => str_eq(v.as_str(), run),
        None => false,
    }
}

/// `message`, newline-terminated.
pub fn with_trailing_newline(message: &str) -> (line: String)
    ensures
        line@ == stdin_line(message@),
{
    let mut line = copy_str(message);
    let v = chars_of(message);
    if v.len() > 0 && v[v.len() - 1] == '\n' {
        line
    } else {
        push_char(&mut line, '\n');
        line
    }
}


/// A token or run id that does not own `k` changes nothing: pushing,
/// popping, draining, arming, disarming and completing a turn leave the
/// registry as it was and report a stale or empty outcome.
pub proof fn law_stale_owner_operations_are_inert(
    m: RegistryModel,
    k: (Seq<char>, Seq<char>),
    t: u64,
    run: Seq<char>,
    turn: PendingStdinTurn,
)
    requires
        !token_owns(m, k, t),
    ensures
        after_push(m, k, t, turn) == m,
        after_pop(m, k, t) == m,
        popped(m, k, t) is None,
        after_take(m, k, t) == m,
        after_arm(m, k, t, run) == m,
        arm_result(m, k, t, run) is Stale,
        after_disarm(m, k, t, run) == m,
        after_complete(m, k, t, run) == m,
        complete_result(m, k, t, run) is Stale,
{
}

/// Unanswered stdin turns leave in the order they were accepted.
pub proof fn law_pending_turns_are_fifo(
    m: RegistryModel,
    k: (Seq<char>, Seq<char>),
    t: u64,
    first: PendingStdinTurn,
    second: PendingStdinTurn,
)
    requires
        token_owns(m, k, t),
        m[k].pending.len() == 0,
    ensures
        popped(after_push(after_push(m, k, t, first), k, t, second), k, t) == Some(first),
        popped(after_pop(after_push(after_push(m, k, t, first), k, t, second), k, t), k, t) == Some(
            second,
        ),
        after_pop(after_pop(after_push(after_push(m, k, t, first), k, t, second), k, t), k, t)[k].pending.len()
            == 0,
{
    let m1 = after_push(m, k, t, first);
    let m2 = after_push(m1, k, t, second);
    assert(m2[k].pending =~= seq![first, second]);
    let m3 = after_pop(m2, k, t);
    assert(m3[k].pending =~= seq![second]);
    let m4 = after_pop(m3, k, t);
    assert(m4[k].pending =~= Seq::<PendingStdinTurn>::empty());
}

/// Disarming undoes arming for the exact owner of an unarmed entry.
pub proof fn law_disarm_undoes_arm(m: RegistryModel, k: (Seq<char>, Seq<char>), t: u64, run: Seq<char>)
    requires
        run_owns(m, k, t, run),
        !m[k].retire_after_turn,
    ensures
        after_disarm(after_arm(m, k, t, run), k, t, run) == m,
{
    let a = after_arm(m, k, t, run);
    let d = after_disarm(a, k, t, run);
    assert(d[k] == m[k]);
    assert(d =~= m);
}

/// Once an owner is armed to retire, or its pending turns are drained, no
/// write to the key is accepted.
pub proof fn law_retiring_entries_refuse_writes(
    m: RegistryModel,
    k: (Seq<char>, Seq<char>),
    t: u64,
    run: Seq<char>,
    owner: Option<(u64, Seq<char>)>,
)
    requires
        run_owns(m, k, t, run),
    ensures
        !(write_decision(after_arm(m, k, t, run), k, owner) is Accepted),
        !(write_decision(after_take(m, k, t), k, owner) is Accepted),
        after_write(after_arm(m, k, t, run), k, owner) == after_arm(m, k, t, run),
{
}

/// Completing the exact owner's turn removes an armed entry and idles an
/// unarmed one.
pub proof fn law_turn_completion_settles_the_owner(
    m: RegistryModel,
    k: (Seq<char>, Seq<char>),
    t: u64,
    run: Seq<char>,
)
    requires
        run_owns(m, k, t, run),
    ensures
        m[k].retire_after_turn ==> !after_complete(m, k, t, run).contains_key(k)
            && complete_result(m, k, t, run) is RetireAfterTurn,
        !m[k].retire_after_turn ==> after_complete(m, k, t, run)[k].state
            == InteractiveProcessState::Idle && after_complete(m, k, t, run)[k].token == t
            && complete_result(m, k, t, run) is KeepAlive,
{
}

/// Generic idle cleanup never removes an entry that an owner has armed.
pub proof fn law_idle_cleanup_spares_armed_entries(
    m: RegistryModel,
    k: (Seq<char>, Seq<char>),
    t: u64,
    run: Seq<char>,
)
    requires
        run_owns(m, k, t, run),
    ensures
        !unarmed_idle(after_arm(m, k, t, run), k),
        !unarmed_idle(after_take(m, k, t), k),
{
}

/// A replacement registration fences the previous owner: the earlier
/// token no longer owns the key.
pub proof fn law_replacement_fences_previous_owner(
    reg: InteractiveProcessRegistry,
    k: (Seq<char>, Seq<char>),
    previous: u64,
    metadata: MetadataView,
)
    requires
        reg.wf(),
        token_owns(reg.view(), k, previous),
    ensures
        previous < reg.next(),
        !token_owns(reg.view().insert(k, fresh_entry(reg.next(), metadata)), k, previous),
{
    reg.lemma_tokens_below_next(k);
}

} // verus!
