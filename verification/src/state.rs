//! The shared per-chat runtime state: conversation sessions, cancellation
//! tokens, rate-limiter reservations, and the guarded history updates.
//!
//! One instance of [`RuntimeState`] exists per process, behind one lock
//! owned by the embedding program; every method here is a short,
//! non-blocking critical section. The admission-control rule is that the
//! presence of a cancellation token for a chat is the sole signal that a
//! turn is in flight.

use vstd::hash_map::HashMapWithView;
use vstd::prelude::*;

use crate::codex::CancelToken;
use crate::session::{enforce_history_cap, HistoryItem, HistoryType, MAX_HISTORY_ITEMS};

verus! {

broadcast use vstd::std_specs::hash::group_hash_axioms;

/// Per-chat conversation state.
pub struct ChatSession {
    /// Identifier the backend uses to resume context.
    pub session_id: Option<String>,
    /// Working directory of the conversation.
    pub current_path: Option<String>,
    /// Bounded conversation history, oldest first.
    pub history: Vec<HistoryItem>,
    /// Upload notices not yet delivered to the backend.
    pub pending_uploads: Vec<String>,
    /// Set by an explicit reset to keep a racing render loop from
    /// repopulating history.
    pub cleared: bool,
}

impl ChatSession {
    /// A fresh, empty session.
    pub fn new() -> (s: Self)
        ensures
            s.session_id is None,
            s.current_path is None,
            s.history@ =~= Seq::<HistoryItem>::empty(),
            s.pending_uploads@ =~= Seq::<String>::empty(),
            !s.cleared,
    {
        ChatSession {
            session_id: None,
            current_path: None,
            history: Vec::new(),
            pending_uploads: Vec::new(),
            cleared: false,
        }
    }
}

/// Bot-level settings kept with the runtime state and persisted by the
/// embedding program.
pub struct BotSettings {
    /// Per-chat allowed-tool lists.
    pub allowed_tools: HashMapWithView<i64, Vec<String>>,
    /// Per-chat last working directory.
    pub last_sessions: HashMapWithView<i64, String>,
    /// The registered owner, imprinted on first contact.
    pub owner_user_id: Option<u64>,
    /// Chats whose group members may all use the bot.
    pub as_public_for_group_chat: HashMapWithView<i64, bool>,
}

impl BotSettings {
    /// Empty settings: no owner, no per-chat entries.
    pub fn new() -> (s: Self)
        ensures
            s.allowed_tools@ =~= Map::<i64, Vec<String>>::empty(),
            s.last_sessions@ =~= Map::<i64, String>::empty(),
            s.owner_user_id is None,
            s.as_public_for_group_chat@ =~= Map::<i64, bool>::empty(),
    {
        BotSettings {
            allowed_tools: HashMapWithView::new(),
            last_sessions: HashMapWithView::new(),
            owner_user_id: None,
            as_public_for_group_chat: HashMapWithView::new(),
        }
    }
}

/// The tools a backend run may use in a chat: the chat's configured list
/// where one exists, the default list otherwise.
pub fn get_allowed_tools(settings: &BotSettings, chat_id: i64) -> (r: Vec<String>)
    ensures
        match settings.allowed_tools@.contains_key(chat_id) {
            true => crate::text::string_views(r@) == crate::text::string_views(
                settings.allowed_tools@[chat_id]@,
            ),
            false => crate::text::string_views(r@) == spec_default_allowed_tools(),
        },
{
    match settings.allowed_tools.get(&chat_id) {
        Some(tools) => clone_string_vec(tools),
        None => default_allowed_tools(),
    }
}

/// Copy a vector of strings.
fn clone_string_vec(v: &Vec<String>) -> (r: Vec<String>)
    ensures
        crate::text::string_views(r@) == crate::text::string_views(v@),
{
    let mut r: Vec<String> = Vec::new();
    let mut i: usize = 0;
    while i < v.len()
        invariant
            i <= v@.len(),
            r@.len() == i,
            forall|j: int| 0 <= j < i ==> r@[j]@ == v@[j]@,
        decreases v.len() - i,
    {
        r.push(v[i].clone());
        i = i + 1;
    }
    assert(crate::text::string_views(r@) =~= crate::text::string_views(v@));
    r
}

/// The default allowed-tool names.
pub open spec fn spec_default_allowed_tools() -> Seq<Seq<char>> {
    seq![
        "Bash"@,
        "Read"@,
        "Edit"@,
        "Write"@,
        "Glob"@,
        "Grep"@,
        "Task"@,
        "TaskOutput"@,
        "TaskStop"@,
        "WebFetch"@,
        "WebSearch"@,
        "NotebookEdit"@,
        "Skill"@,
        "TaskCreate"@,
        "TaskGet"@,
        "TaskUpdate"@,
        "TaskList"@,
    ]
}

/// The default allowed-tool list in owned form.
pub fn default_allowed_tools() -> (r: Vec<String>)
    ensures
        crate::text::string_views(r@) == spec_default_allowed_tools(),
{
    let mut v: Vec<String> = Vec::new();
    v.push("Bash".to_owned());
    v.push("Read".to_owned());
    v.push("Edit".to_owned());
    v.push("Write".to_owned());
    v.push("Glob".to_owned());
    v.push("Grep".to_owned());
    v.push("Task".to_owned());
    v.push("TaskOutput".to_owned());
    v.push("TaskStop".to_owned());
    v.push("WebFetch".to_owned());
    v.push("WebSearch".to_owned());
    v.push("NotebookEdit".to_owned());
    v.push("Skill".to_owned());
    v.push("TaskCreate".to_owned());
    v.push("TaskGet".to_owned());
    v.push("TaskUpdate".to_owned());
    v.push("TaskList".to_owned());
    assert(crate::text::string_views(v@) =~= spec_default_allowed_tools());
    v
}

/// The process-wide shared state, guarded by one lock in the embedding
/// program.
pub struct RuntimeState {
    /// Per-chat conversation sessions.
    pub sessions: HashMapWithView<i64, ChatSession>,
    /// Bot-level settings.
    pub settings: BotSettings,
    /// Per-chat cancellation tokens; presence marks a turn in flight.
    pub cancel_tokens: HashMapWithView<i64, CancelToken>,
    /// Per-chat process id of a running shell command.
    pub shell_pids: HashMapWithView<i64, u32>,
    /// Per-chat id of the pending "stopping" notice message.
    pub stop_message_ids: HashMapWithView<i64, i32>,
    /// Per-chat last reserved outbound-call instant, in milliseconds.
    pub api_timestamps: HashMapWithView<i64, u64>,
}

impl RuntimeState {
    /// Every recorded history respects the retention cap.
    pub open spec fn wf(self) -> bool {
        forall|c: i64| #[trigger] self.sessions@.contains_key(c)
            ==> self.sessions@[c].history@.len() <= MAX_HISTORY_ITEMS
    }

    /// Fresh state: no sessions, no tokens, no reservations.
    pub fn new() -> (s: Self)
        ensures
            s.sessions@ =~= Map::<i64, ChatSession>::empty(),
            s.cancel_tokens@ =~= Map::<i64, CancelToken>::empty(),
            s.shell_pids@ =~= Map::<i64, u32>::empty(),
            s.stop_message_ids@ =~= Map::<i64, i32>::empty(),
            s.api_timestamps@ =~= Map::<i64, u64>::empty(),
            s.wf(),
    {
        RuntimeState {
            sessions: HashMapWithView::new(),
            settings: BotSettings::new(),
            cancel_tokens: HashMapWithView::new(),
            shell_pids: HashMapWithView::new(),
            stop_message_ids: HashMapWithView::new(),
            api_timestamps: HashMapWithView::new(),
        }
    }

    /// Whether a turn is in flight for the chat: the admission-control
    /// signal is the presence of a cancellation token, nothing else.
    pub fn is_busy(&self, chat_id: i64) -> (busy: bool)
        ensures
            busy == self.cancel_tokens@.contains_key(chat_id),
    {
        self.cancel_tokens.contains_key(&chat_id)
    }

    /// Admit a new turn unless one is already in flight: a busy chat is
    /// refused and nothing changes; an idle chat gets a fresh token
    /// registered.
    pub fn try_begin_turn(&mut self, chat_id: i64) -> (admitted: bool)
        ensures
            begin_turn_transition(*old(self), *final(self), chat_id, admitted),
    {
        if self.cancel_tokens.contains_key(&chat_id) {
            false
        } else {
            self.cancel_tokens.insert(chat_id, CancelToken::new());
            true
        }
    }

    /// Set the cancellation flag of the chat's in-flight turn, if any;
    /// reports whether a token was present and, where it was, the process
    /// id it carried.
    pub fn cancel_turn(&mut self, chat_id: i64) -> (r: (bool, Option<u32>))
        ensures
            r.0 == old(self).cancel_tokens@.contains_key(chat_id),
            r.0 ==> r.1 == old(self).cancel_tokens@[chat_id].child_pid
                && final(self).cancel_tokens@ =~= old(self).cancel_tokens@.insert(
                chat_id,
                (CancelToken { cancelled: true, child_pid: r.1 }),
            ),
            !r.0 ==> final(self).cancel_tokens@ == old(self).cancel_tokens@,
            final(self).sessions == old(self).sessions,
            final(self).settings == old(self).settings,
            final(self).shell_pids == old(self).shell_pids,
            final(self).stop_message_ids == old(self).stop_message_ids,
            final(self).api_timestamps == old(self).api_timestamps,
    {
        match self.cancel_tokens.get(&chat_id) {
            Some(t) => {
                let pid = t.child_pid;
                self.cancel_tokens.insert(chat_id, CancelToken { cancelled: true, child_pid: pid });
                (true, pid)
            }
            None => (false, None),
        }
    }

    /// Whether the chat's in-flight turn has been cancelled.
    pub fn is_cancelled(&self, chat_id: i64) -> (r: bool)
        ensures
            r == (self.cancel_tokens@.contains_key(chat_id)
                && self.cancel_tokens@[chat_id].cancelled),
    {
        match self.cancel_tokens.get(&chat_id) {
            Some(t) => t.cancelled,
            None => false,
        }
    }

    /// Record the spawned subprocess's id in the chat's token so an
    /// external cancel request can signal it.
    pub fn set_child_pid(&mut self, chat_id: i64, pid: u32)
        ensures
            old(self).cancel_tokens@.contains_key(chat_id) ==> final(self).cancel_tokens@
                =~= old(self).cancel_tokens@.insert(
                chat_id,
                (CancelToken {
                    cancelled: old(self).cancel_tokens@[chat_id].cancelled,
                    child_pid: Some(pid),
                }),
            ),
            !old(self).cancel_tokens@.contains_key(chat_id) ==> final(self).cancel_tokens@
                == old(self).cancel_tokens@,
            final(self).sessions == old(self).sessions,
            final(self).settings == old(self).settings,
            final(self).shell_pids == old(self).shell_pids,
            final(self).stop_message_ids == old(self).stop_message_ids,
            final(self).api_timestamps == old(self).api_timestamps,
    {
        match self.cancel_tokens.get(&chat_id) {
            Some(t) => {
                let cancelled = t.cancelled;
                self.cancel_tokens.insert(
                    chat_id,
                    CancelToken { cancelled, child_pid: Some(pid) },
                );
            }
            None => {}
        }
    }

    /// End the chat's turn: deregister the cancellation token and take the
    /// pending "stopping" notice id, returning the chat to idle.
    pub fn finish_turn(&mut self, chat_id: i64) -> (stop_msg: Option<i32>)
        ensures
            final(self).cancel_tokens@ == old(self).cancel_tokens@.remove(chat_id),
            final(self).stop_message_ids@ == old(self).stop_message_ids@.remove(chat_id),
            stop_msg == (if old(self).stop_message_ids@.contains_key(chat_id) {
                Some(old(self).stop_message_ids@[chat_id])
            } else {
                None::<i32>
            }),
            final(self).sessions == old(self).sessions,
            final(self).settings == old(self).settings,
            final(self).shell_pids == old(self).shell_pids,
            final(self).api_timestamps == old(self).api_timestamps,
    {
        self.cancel_tokens.remove(&chat_id);
        let stop_msg = match self.stop_message_ids.get(&chat_id) {
            Some(id) => Some(*id),
            None => None,
        };
        self.stop_message_ids.remove(&chat_id);
        stop_msg
    }

    /// Reset the chat's session in place: drop the backend session id,
    /// the history and the pending uploads, and raise the `cleared` flag
    /// so a racing render loop will not repopulate history; the token and
    /// notice bookkeeping is dropped too.
    pub fn clear_session(&mut self, chat_id: i64)
        ensures
            clear_session_transition(*old(self), *final(self), chat_id),
    {
        match self.sessions.get(&chat_id) {
            Some(s) => {
                let path = clone_opt(&s.current_path);
                let fresh = ChatSession {
                    session_id: None,
                    current_path: path,
                    history: Vec::new(),
                    pending_uploads: Vec::new(),
                    cleared: true,
                };
                self.sessions.insert(chat_id, fresh);
            }
            None => {}
        }
        self.cancel_tokens.remove(&chat_id);
        self.stop_message_ids.remove(&chat_id);
    }

    /// Append the user/assistant pair of a finished turn to the chat's
    /// history — unless the session was cleared while the turn ran, in
    /// which case nothing is recorded. The new session id, where one was
    /// learned, is stored either way only on a recording session. The
    /// retention cap is enforced.
    pub fn record_turn(
        &mut self,
        chat_id: i64,
        user_text: String,
        assistant_text: String,
        new_session_id: Option<String>,
    ) -> (recorded: bool)
        ensures
            record_turn_transition(
                *old(self),
                *final(self),
                chat_id,
                user_text,
                assistant_text,
                new_session_id,
                recorded,
            ),
    {
        match self.sessions.get(&chat_id) {
            Some(s) => {
                if s.cleared {
                    return false;
                }
                let mut history = clone_history(&s.history);
                let session_id = match new_session_id {
                    Some(sid) => Some(sid),
                    None => clone_opt(&s.session_id),
                };
                let current_path = clone_opt(&s.current_path);
                let pending_uploads = clone_string_vec(&s.pending_uploads);
                history.push(HistoryItem { item_type: HistoryType::User, content: user_text });
                history.push(
                    HistoryItem { item_type: HistoryType::Assistant, content: assistant_text },
                );
                enforce_history_cap(&mut history);
                let updated = ChatSession {
                    session_id,
                    current_path,
                    history,
                    pending_uploads,
                    cleared: false,
                };
                self.sessions.insert(chat_id, updated);
                true
            }
            None => false,
        }
    }

    /// Take the chat's pending upload notices for delivery to the backend
    /// exactly once, and lower the `cleared` flag now that a new turn has
    /// begun.
    pub fn drain_pending_uploads(&mut self, chat_id: i64) -> (uploads: Vec<String>)
        ensures
            old(self).sessions@.contains_key(chat_id) ==> {
                &&& crate::text::string_views(uploads@) == crate::text::string_views(
                    old(self).sessions@[chat_id].pending_uploads@,
                )
                &&& final(self).sessions@.contains_key(chat_id)
                &&& final(self).sessions@[chat_id].pending_uploads@.len() == 0
                &&& !final(self).sessions@[chat_id].cleared
                &&& final(self).sessions@[chat_id].history@ == old(self).sessions@[chat_id].history@
                &&& final(self).sessions@[chat_id].session_id == old(self).sessions@[chat_id].session_id
                &&& final(self).sessions@[chat_id].current_path == old(self).sessions@[chat_id].current_path
                &&& final(self).sessions@ =~= old(self).sessions@.insert(
                    chat_id,
                    final(self).sessions@[chat_id],
                )
            },
            !old(self).sessions@.contains_key(chat_id) ==> uploads@.len() == 0 && final(self).sessions@ == old(self).sessions@,
            final(self).settings == old(self).settings,
            final(self).cancel_tokens == old(self).cancel_tokens,
            final(self).shell_pids == old(self).shell_pids,
            final(self).stop_message_ids == old(self).stop_message_ids,
            final(self).api_timestamps == old(self).api_timestamps,
            old(self).wf() ==> final(self).wf(),
    {
        match self.sessions.get(&chat_id) {
            Some(s) => {
                let uploads = clone_string_vec(&s.pending_uploads);
                let updated = ChatSession {
                    session_id: clone_opt(&s.session_id),
                    current_path: clone_opt(&s.current_path),
                    history: clone_history(&s.history),
                    pending_uploads: Vec::new(),
                    cleared: false,
                };
                proof {
                    assert(updated.history@ =~= old(self).sessions@[chat_id].history@);
                }
                self.sessions.insert(chat_id, updated);
                uploads
            }
            None => Vec::new(),
        }
    }

    /// Reserve the next outbound-call slot for the chat: the later of now
    /// and one minimum gap after the previous reservation. The
    /// reservation itself is the serialized step; the caller sleeps until
    /// the returned instant before calling out.
    pub fn reserve_api_slot(&mut self, chat_id: i64, now_millis: u64, min_gap_millis: u64) -> (
        slot: u64)
        ensures
            slot as int == spec_reserve_slot(
                if old(self).api_timestamps@.contains_key(chat_id) {
                    Some(old(self).api_timestamps@[chat_id])
                } else {
                    None
                },
                now_millis,
                min_gap_millis,
            ),
            final(self).api_timestamps@ == old(self).api_timestamps@.insert(chat_id, slot),
            final(self).sessions == old(self).sessions,
            final(self).settings == old(self).settings,
            final(self).cancel_tokens == old(self).cancel_tokens,
            final(self).shell_pids == old(self).shell_pids,
            final(self).stop_message_ids == old(self).stop_message_ids,
    {
        let earliest: u64 = match self.api_timestamps.get(&chat_id) {
            Some(last) => {
                if *last <= u64::MAX - min_gap_millis {
                    *last + min_gap_millis
                } else {
                    u64::MAX
                }
            }
            None => now_millis,
        };
        let slot = if earliest > now_millis {
            earliest
        } else {
            now_millis
        };
        self.api_timestamps.insert(chat_id, slot);
        slot
    }
}

/// Copy an optional string.
fn clone_opt(o: &Option<String>) -> (r: Option<String>)
    ensures
        r == *o,
{
    match o {
        Some(s) => Some(s.clone()),
        None => None,
    }
}

/// Copy a history vector.
fn clone_history(v: &Vec<HistoryItem>) -> (r: Vec<HistoryItem>)
    ensures
        r@ == v@,
{
    let mut r: Vec<HistoryItem> = Vec::new();
    let mut i: usize = 0;
    while i < v.len()
        invariant
            i <= v@.len(),
            r@ == v@.take(i as int),
        decreases v.len() - i,
    {
        let item = HistoryItem { item_type: v[i].item_type, content: v[i].content.clone() };
        assert(item == v@[i as int]);
        r.push(item);
        assert(r@ =~= v@.take(i + 1 as int));
        i = i + 1;
    }
    assert(r@ =~= v@);
    r
}

/// The slot the rate limiter hands out: the later of now and one minimum
/// gap after the previous reservation (saturating at the clock's range);
/// a chat with no previous reservation is served now.
pub open spec fn spec_reserve_slot(last: Option<u64>, now: u64, gap: u64) -> int {
    let earliest = match last {
        Some(l) => if l + gap <= u64::MAX {
            l + gap
        } else {
            u64::MAX as int
        },
        None => now as int,
    };
    if earliest > now {
        earliest
    } else {
        now as int
    }
}

/// How `try_begin_turn` may change the state: a busy chat is refused
/// untouched; an idle chat is admitted with a fresh token registered and
/// everything else unchanged.
pub open spec fn begin_turn_transition(
    pre: RuntimeState,
    post: RuntimeState,
    chat_id: i64,
    admitted: bool,
) -> bool {
    &&& admitted == !pre.cancel_tokens@.contains_key(chat_id)
    &&& (if admitted {
        post.cancel_tokens@ =~= pre.cancel_tokens@.insert(
            chat_id,
            (CancelToken { cancelled: false, child_pid: None }),
        )
    } else {
        post.cancel_tokens@ == pre.cancel_tokens@
    })
    &&& post.sessions == pre.sessions
    &&& post.settings == pre.settings
    &&& post.shell_pids == pre.shell_pids
    &&& post.stop_message_ids == pre.stop_message_ids
    &&& post.api_timestamps == pre.api_timestamps
}

/// How `clear_session` changes the state: an existing session keeps only
/// its working directory and raises `cleared`; the chat's token and
/// notice bookkeeping is dropped.
pub open spec fn clear_session_transition(
    pre: RuntimeState,
    post: RuntimeState,
    chat_id: i64,
) -> bool {
    &&& (if pre.sessions@.contains_key(chat_id) {
        {
            &&& post.sessions@.contains_key(chat_id)
            &&& post.sessions@[chat_id].session_id is None
            &&& post.sessions@[chat_id].current_path == pre.sessions@[chat_id].current_path
            &&& post.sessions@[chat_id].history@.len() == 0
            &&& post.sessions@[chat_id].pending_uploads@.len() == 0
            &&& post.sessions@[chat_id].cleared
            &&& post.sessions@ =~= pre.sessions@.insert(chat_id, post.sessions@[chat_id])
        }
    } else {
        post.sessions@ == pre.sessions@
    })
    &&& post.cancel_tokens@ =~= pre.cancel_tokens@.remove(chat_id)
    &&& post.stop_message_ids@ =~= pre.stop_message_ids@.remove(chat_id)
    &&& post.settings == pre.settings
    &&& post.shell_pids == pre.shell_pids
    &&& post.api_timestamps == pre.api_timestamps
}

/// A history with the oldest entries evicted down to the cap.
pub open spec fn spec_capped(h: Seq<HistoryItem>) -> Seq<HistoryItem> {
    if h.len() > MAX_HISTORY_ITEMS {
        h.skip(h.len() - MAX_HISTORY_ITEMS)
    } else {
        h
    }
}

/// How `record_turn` may change the state: on a live (present, not
/// cleared) session, exactly one user entry and one assistant entry are
/// appended, the cap is enforced, and the learned session id is stored;
/// on a cleared or absent session nothing changes.
pub open spec fn record_turn_transition(
    pre: RuntimeState,
    post: RuntimeState,
    chat_id: i64,
    user_text: String,
    assistant_text: String,
    new_session_id: Option<String>,
    recorded: bool,
) -> bool {
    &&& recorded == (pre.sessions@.contains_key(chat_id) && !pre.sessions@[chat_id].cleared)
    &&& (if recorded {
        {
            &&& post.sessions@.contains_key(chat_id)
            &&& post.sessions@[chat_id].history@ =~= spec_capped(
                pre.sessions@[chat_id].history@.push(
                    (HistoryItem { item_type: HistoryType::User, content: user_text }),
                ).push(
                    (HistoryItem { item_type: HistoryType::Assistant, content: assistant_text }),
                ),
            )
            &&& post.sessions@[chat_id].session_id == (if new_session_id is Some {
                new_session_id
            } else {
                pre.sessions@[chat_id].session_id
            })
            &&& post.sessions@[chat_id].current_path == pre.sessions@[chat_id].current_path
            &&& crate::text::string_views(post.sessions@[chat_id].pending_uploads@)
                == crate::text::string_views(pre.sessions@[chat_id].pending_uploads@)
            &&& !post.sessions@[chat_id].cleared
            &&& post.sessions@ =~= pre.sessions@.insert(chat_id, post.sessions@[chat_id])
        }
    } else {
        post.sessions@ == pre.sessions@
    })
    &&& post.settings == pre.settings
    &&& post.cancel_tokens == pre.cancel_tokens
    &&& post.shell_pids == pre.shell_pids
    &&& post.stop_message_ids == pre.stop_message_ids
    &&& post.api_timestamps == pre.api_timestamps
}

/// Admission control: once a turn has been admitted for a chat, a second
/// request for the same chat is refused, and the state it sees still
/// holds the first turn's token — for each chat at most one cancellation
/// token is ever registered at a time.
pub proof fn lemma_admission_control(
    s0: RuntimeState,
    s1: RuntimeState,
    s2: RuntimeState,
    chat_id: i64,
    first: bool,
    second: bool,
)
    requires
        begin_turn_transition(s0, s1, chat_id, first),
        begin_turn_transition(s1, s2, chat_id, second),
        first,
    ensures
        !second,
        s2.cancel_tokens@ == s1.cancel_tokens@,
        s1.cancel_tokens@.contains_key(chat_id),
{
}

/// A cleared session records nothing: a turn that finalizes after the
/// session was cleared appends no history entries, so the history stays
/// empty.
pub proof fn lemma_clear_suppresses_recording(
    s0: RuntimeState,
    s1: RuntimeState,
    s2: RuntimeState,
    chat_id: i64,
    user_text: String,
    assistant_text: String,
    new_session_id: Option<String>,
    recorded: bool,
)
    requires
        s0.sessions@.contains_key(chat_id),
        clear_session_transition(s0, s1, chat_id),
        record_turn_transition(s1, s2, chat_id, user_text, assistant_text, new_session_id, recorded),
    ensures
        !recorded,
        s2.sessions@ == s1.sessions@,
        s2.sessions@[chat_id].history@.len() == 0,
{
}

/// A finalizing turn on a live session records exactly one user entry
/// and one assistant entry, in that order, at the end of the history,
/// within the retention cap.
pub proof fn lemma_turn_records_one_pair(
    s1: RuntimeState,
    s2: RuntimeState,
    chat_id: i64,
    user_text: String,
    assistant_text: String,
    new_session_id: Option<String>,
    recorded: bool,
)
    requires
        record_turn_transition(s1, s2, chat_id, user_text, assistant_text, new_session_id, recorded),
        s1.sessions@.contains_key(chat_id),
        !s1.sessions@[chat_id].cleared,
        s1.sessions@[chat_id].history@.len() + 2 <= MAX_HISTORY_ITEMS,
    ensures
        recorded,
        s2.sessions@[chat_id].history@.len() == s1.sessions@[chat_id].history@.len() + 2,
        s2.sessions@[chat_id].history@ =~= s1.sessions@[chat_id].history@.push(
            (HistoryItem { item_type: HistoryType::User, content: user_text }),
        ).push((HistoryItem { item_type: HistoryType::Assistant, content: assistant_text })),
{
    let appended = s1.sessions@[chat_id].history@.push(
        (HistoryItem { item_type: HistoryType::User, content: user_text }),
    ).push((HistoryItem { item_type: HistoryType::Assistant, content: assistant_text }));
    assert(appended.len() <= MAX_HISTORY_ITEMS);
    assert(spec_capped(appended) == appended);
}

/// The retention bound is an invariant: however a turn is recorded, a
/// state whose histories respect the cap steps to a state whose
/// histories still do.
pub proof fn lemma_history_stays_bounded(
    s1: RuntimeState,
    s2: RuntimeState,
    chat_id: i64,
    user_text: String,
    assistant_text: String,
    new_session_id: Option<String>,
    recorded: bool,
)
    requires
        s1.wf(),
        record_turn_transition(s1, s2, chat_id, user_text, assistant_text, new_session_id, recorded),
    ensures
        s2.wf(),
{
    if recorded {
        assert forall|c: i64| #[trigger] s2.sessions@.contains_key(c) implies s2.sessions@[c].history@.len()
            <= MAX_HISTORY_ITEMS by {
            if c == chat_id {
                assert(s2.sessions@[c].history@.len() <= MAX_HISTORY_ITEMS);
            } else {
                assert(s2.sessions@.contains_key(c) ==> s1.sessions@.contains_key(c)
                    && s2.sessions@[c] == s1.sessions@[c]);
            }
        }
    }
}

/// Rate-limiter reservations are monotone per chat: each reservation made
/// after another, with the first one stored, lies at least one minimum
/// gap after it (as long as the clock's range is not exhausted).
pub proof fn lemma_reservation_spacing(last: Option<u64>, now1: u64, now2: u64, gap: u64)
    requires
        spec_reserve_slot(last, now1, gap) + gap <= u64::MAX,
    ensures
        spec_reserve_slot(
            Some(spec_reserve_slot(last, now1, gap) as u64),
            now2,
            gap,
        ) >= spec_reserve_slot(last, now1, gap) + gap,
{
}

} // verus!
