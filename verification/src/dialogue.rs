//! The per-chat dialogue state machine behind the quiz workflow. Each chat
//! owns one session; a session starts at `Start`, moves to `ChooseTarget`
//! when the workflow begins, to `SetQuote` when a target is picked, and back
//! to `Start` when the quote arrives and the quiz is produced. Sessions of
//! distinct chats never touch each other.

use vstd::prelude::*;
use vstd::hash_map::StringHashMap;

use crate::quiz::ComposeError;
use crate::quiz::Quiz;
use crate::quiz::compose_quiz_random;
use crate::roster::RosterStore;
use crate::roster::bumped;
use crate::roster::names_of;
use crate::strseq::views_of;

verus! {

/// One chat's position in the quiz workflow.
pub enum PollState {
    /// No pending interaction.
    Start,
    /// Waiting for the user to pick a roster member; `message_id` is the
    /// chooser prompt, retracted once a choice is made.
    ChooseTarget { message_id: i32 },
    /// Waiting for the quote text about `target`; `message_id` is the quote
    /// prompt, retracted once the text arrives.
    SetQuote { message_id: i32, target: String },
}

/// The mathematical value of a session, with the target as characters.
pub enum SessionView {
    Start,
    ChooseTarget { message_id: i32 },
    SetQuote { message_id: i32, target: Seq<char> },
}

impl View for PollState {
    type V = SessionView;

    open spec fn view(&self) -> SessionView {
        match self {
            PollState::Start => SessionView::Start,
            PollState::ChooseTarget { message_id } => SessionView::ChooseTarget {
                message_id: *message_id,
            },
            PollState::SetQuote { message_id, target } => SessionView::SetQuote {
                message_id: *message_id,
                target: target@,
            },
        }
    }
}

impl Clone for PollState {
    fn clone(&self) -> (r: Self)
        ensures
            r@ == self@,
    {
        match self {
            PollState::Start => PollState::Start,
            PollState::ChooseTarget { message_id } => PollState::ChooseTarget {
                message_id: *message_id,
            },
            PollState::SetQuote { message_id, target } => PollState::SetQuote {
                message_id: *message_id,
                target: target.clone(),
            },
        }
    }
}

/// The session a map assigns to a chat: `Start` if the chat was never seen.
pub open spec fn session_of(m: Map<Seq<char>, SessionView>, chat: Seq<char>) -> SessionView {
    if m.contains_key(chat) {
        m[chat]
    } else {
        SessionView::Start
    }
}

/// The volatile per-chat session store.
pub struct DialogueStore {
    sessions: StringHashMap<PollState>,
}

impl View for DialogueStore {
    type V = Map<Seq<char>, SessionView>;

    closed spec fn view(&self) -> Map<Seq<char>, SessionView> {
        self.sessions@.map_values(|s: PollState| s@)
    }
}

impl DialogueStore {
    /// An empty store: every chat is implicitly at `Start`.
    pub fn new() -> (s: Self)
        ensures
            s@ == Map::<Seq<char>, SessionView>::empty(),
            forall|chat: Seq<char>| session_of(s@, chat) == SessionView::Start,
    {
        let s = DialogueStore { sessions: StringHashMap::new() };
        proof {
            assert(s@ =~= Map::<Seq<char>, SessionView>::empty());
        }
        s
    }

    /// The chat's current session, defaulting to `Start`.
    pub fn get(&self, chat_id: &String) -> (r: PollState)
        ensures
            r@ == session_of(self@, chat_id@),
    {
        match self.sessions.get(chat_id.as_str()) {
            Some(s) => s.clone(),
            None => PollState::Start,
        }
    }

    /// Replaces the chat's session.
    pub fn set(&mut self, chat_id: &String, state: PollState)
        ensures
            final(self)@ == old(self)@.insert(chat_id@, state@),
    {
        self.sessions.insert(chat_id.clone(), state);
        proof {
            assert(self@ =~= old(self)@.insert(chat_id@, state@));
        }
    }

    /// Puts the chat back at `Start`.
    pub fn reset(&mut self, chat_id: &String)
        ensures
            final(self)@ == old(self)@.insert(chat_id@, SessionView::Start),
    {
        self.set(chat_id, PollState::Start);
    }
}

/// Why a dialogue event produced no quiz.
#[derive(Clone, Copy, PartialEq, Eq, Structural, Debug)]
pub enum WorkflowError {
    /// The chat is not at the step this event belongs to; the event is
    /// ignored.
    UnexpectedEvent,
    /// The composer rejected the stored target: the workflow is aborted and
    /// the session reset, so the chat is not left stuck.
    Compose(ComposeError),
}

/// What the completed workflow hands back for sending.
#[derive(Debug)]
pub struct QuizOutcome {
    /// The quote prompt to retract.
    pub prompt_message_id: i32,
    /// The composed quiz to send.
    pub quiz: Quiz,
}

/// The quiz-start command: the chat's session becomes `ChooseTarget`,
/// remembering the chooser prompt that the caller just sent.
pub fn handle_quiz_start(sessions: &mut DialogueStore, chat_id: &String, prompt_message_id: i32)
    ensures
        final(sessions)@ == old(sessions)@.insert(
            chat_id@,
            SessionView::ChooseTarget { message_id: prompt_message_id },
        ),
{
    sessions.set(chat_id, PollState::ChooseTarget { message_id: prompt_message_id });
}

/// A target was selected. If the chat is at `ChooseTarget`, the session
/// moves to `SetQuote` with the quote prompt the caller just sent, and the
/// chooser prompt to retract is returned; any other state ignores the event.
/// A selection that carries no payload falls back to the empty name.
pub fn handle_target_selected(
    sessions: &mut DialogueStore,
    chat_id: &String,
    selected: Option<String>,
    quote_prompt_message_id: i32,
) -> (r: Option<i32>)
    ensures
        match session_of(old(sessions)@, chat_id@) {
            SessionView::ChooseTarget { message_id } => {
                &&& r == Some(message_id)
                &&& final(sessions)@ == old(sessions)@.insert(
                    chat_id@,
                    SessionView::SetQuote {
                        message_id: quote_prompt_message_id,
                        target: match selected {
                            Some(t) => t@,
                            None => Seq::<char>::empty(),
                        },
                    },
                )
            },
            _ => r == None::<i32> && final(sessions)@ == old(sessions)@,
        },
{
    match sessions.get(chat_id) {
        PollState::ChooseTarget { message_id } => {
            let target = match selected {
                Some(t) => t,
                None => String::new(),
            };
            sessions.set(
                chat_id,
                PollState::SetQuote { message_id: quote_prompt_message_id, target },
            );
            Some(message_id)
        },
        _ => None,
    }
}

/// The quote text arrived. If the chat is at `SetQuote`, the quiz is
/// composed from the roster and the stored target, the target's quiz count
/// goes up by one, and the session returns to `Start`; the quote prompt to
/// retract comes back with the quiz. If composing fails the session is
/// still reset, so the chat is not left stuck, and the roster is unchanged.
/// Any other state ignores the event.
pub fn handle_quote_received(
    sessions: &mut DialogueStore,
    roster: &mut RosterStore,
    chat_id: &String,
) -> (r: Result<QuizOutcome, WorkflowError>)
    requires
        names_of(old(roster)@).no_duplicates(),
        forall|j: int| 0 <= j < old(roster)@.len() ==> old(roster)@[j].1 < u64::MAX,
    ensures
        match session_of(old(sessions)@, chat_id@) {
            SessionView::SetQuote { message_id, target } => match r {
                Ok(out) => {
                    &&& out.prompt_message_id == message_id
                    &&& names_of(old(roster)@).contains(target)
                    &&& out.quiz.correct_index + 1 < crate::POLL_MAX_OPTIONS_COUNT
                    &&& views_of(out.quiz.options@)[out.quiz.correct_index as int] == target
                    &&& views_of(out.quiz.options@).no_duplicates()
                    &&& forall|n: Seq<char>|
                        views_of(out.quiz.options@).contains(n) ==> names_of(
                            old(roster)@,
                        ).contains(n)
                    &&& out.quiz.options@.len() == if old(roster)@.len()
                        < crate::POLL_MAX_OPTIONS_COUNT {
                        old(roster)@.len() as int
                    } else {
                        crate::POLL_MAX_OPTIONS_COUNT as int
                    }
                    &&& final(roster)@ == bumped(old(roster)@, target)
                    &&& final(sessions)@ == old(sessions)@.insert(chat_id@, SessionView::Start)
                },
                Err(WorkflowError::Compose(e)) => {
                    &&& match e {
                        ComposeError::TargetMissing => !names_of(old(roster)@).contains(target),
                        ComposeError::RosterTooSmall => names_of(old(roster)@).contains(target)
                            && old(roster)@.len() < crate::POLL_MAX_OPTIONS_COUNT - 1,
                    }
                    &&& final(roster)@ == old(roster)@
                    &&& final(sessions)@ == old(sessions)@.insert(chat_id@, SessionView::Start)
                },
                Err(WorkflowError::UnexpectedEvent) => false,
            },
            _ => {
                &&& r == Err::<QuizOutcome, WorkflowError>(WorkflowError::UnexpectedEvent)
                &&& final(sessions)@ == old(sessions)@
                &&& final(roster)@ == old(roster)@
            },
        },
        (match session_of(old(sessions)@, chat_id@) {
            SessionView::SetQuote { message_id: _, target } => names_of(
                old(roster)@,
            ).contains(target) && old(roster)@.len() >= crate::POLL_MAX_OPTIONS_COUNT - 1,
            _ => false,
        }) ==> r is Ok,
{
    match sessions.get(chat_id) {
        PollState::SetQuote { message_id, target } => {
            let names = roster.names();
            let composed = compose_quiz_random(&names, &target);
            sessions.reset(chat_id);
            match composed {
                Ok(quiz) => {
                    roster.increment_quiz_count(&target);
                    Ok(QuizOutcome { prompt_message_id: message_id, quiz })
                },
                Err(e) => Err(WorkflowError::Compose(e)),
            }
        },
        _ => Err(WorkflowError::UnexpectedEvent),
    }
}

/// Law: sessions of distinct chats are independent. Writing one chat's
/// session neither changes nor is influenced by any other chat's session.
pub proof fn lemma_sessions_independent(
    sessions: Map<Seq<char>, SessionView>,
    written_chat: Seq<char>,
    other_chat: Seq<char>,
    state: SessionView,
)
    requires
        written_chat != other_chat,
    ensures
        session_of(sessions.insert(written_chat, state), other_chat) == session_of(
            sessions,
            other_chat,
        ),
{
}

/// Law: a chat that was never seen is at `Start`, and the full successful
/// workflow — the start command, then a target selection, then the quote —
/// leaves the chat's session exactly at `Start` again, with the target's
/// quiz count up by one and every other member's count unchanged. The three
/// inserts below are the session updates that `handle_quiz_start`,
/// `handle_target_selected` and `handle_quote_received` promise, and the
/// `bumped` roster is the one `handle_quote_received` promises.
pub proof fn lemma_full_quiz_sequence(
    sessions0: Map<Seq<char>, SessionView>,
    roster0: Seq<(Seq<char>, u64)>,
    chat: Seq<char>,
    chooser_prompt: i32,
    quote_prompt: i32,
    target: Seq<char>,
)
    requires
        crate::roster::roster_has_name(roster0, target),
        forall|j: int| 0 <= j < roster0.len() ==> roster0[j].1 < u64::MAX,
    ensures
        session_of(Map::<Seq<char>, SessionView>::empty(), chat) == SessionView::Start,
        ({
            let after_start = sessions0.insert(
                chat,
                SessionView::ChooseTarget { message_id: chooser_prompt },
            );
            let after_choice = after_start.insert(
                chat,
                SessionView::SetQuote { message_id: quote_prompt, target },
            );
            let after_quote = after_choice.insert(chat, SessionView::Start);
            let roster1 = bumped(roster0, target);
            &&& session_of(after_quote, chat) == SessionView::Start
            &&& roster1.len() == roster0.len()
            &&& forall|j: int|
                0 <= j < roster0.len() && roster0[j].0 == target ==> roster1[j].1 == roster0[j].1
                    + 1
            &&& forall|j: int|
                0 <= j < roster0.len() && roster0[j].0 != target ==> roster1[j] == roster0[j]
        }),
{
}

} // verus!
