//! The application state of the chat client and its transitions.
//!
//! `App` is the single source of truth for what is on screen: the current
//! screen mode, the transcript, the input buffer under composition, and the
//! awaiting-reply flag. Only the event loop mutates it, through the
//! functions of this module: `new` seeds the initial state, `begin_submission`
//! and `finish_submission` carry out the submission protocol around the
//! asynchronous enqueue that the caller performs in between, and
//! `apply_response` records a reply drained from the inbound queue.

use vstd::prelude::*;
use vstd::string::*;

use crate::text::{all_space, is_space_char, lemma_trim_empty_iff_all_space, trim, trim_spec};

verus! {

/// Which screen is active. `Splash` is the initial mode; the first Enter
/// key switches to `Chat`, and nothing ever switches back.
#[derive(Clone, Copy, PartialEq, Eq, Structural, Debug)]
pub enum ScreenMode {
    Splash,
    Chat,
}

/// What a transcript entry is, which drives its rendering glyph. Only
/// `Thinking` also steers control flow: it is the placeholder that marks a
/// request still awaiting its reply.
#[derive(Clone, Copy, PartialEq, Eq, Structural, Debug)]
pub enum MessageKind {
    User,
    Thinking,
    ToolCall,
    Output,
    System,
}

/// One transcript entry. The content may span several lines; entries are
/// immutable once created.
pub struct Message {
    pub kind: MessageKind,
    pub content: String,
}

/// The mathematical value of a `Message`.
#[verifier::ext_equal]
pub ghost struct MsgView {
    pub kind: MessageKind,
    pub content: Seq<char>,
}

impl View for Message {
    type V = MsgView;

    open spec fn view(&self) -> MsgView {
        MsgView { kind: self.kind, content: self.content@ }
    }
}

/// The mathematical value of the whole application state.
#[verifier::ext_equal]
pub ghost struct AppView {
    pub mode: ScreenMode,
    pub input: Seq<char>,
    pub transcript: Seq<MsgView>,
    pub awaiting_reply: bool,
}

/// The application state. The two bounded channels that connect the event
/// loop to the worker bridge tasks are owned by the loop itself, not by
/// this struct; submission hands the prompt to the caller, which enqueues
/// it and reports back through `finish_submission`.
pub struct App {
    pub mode: ScreenMode,
    pub input: String,
    pub transcript: Vec<Message>,
    pub awaiting_reply: bool,
}

impl View for App {
    type V = AppView;

    open spec fn view(&self) -> AppView {
        AppView {
            mode: self.mode,
            input: self.input@,
            transcript: self.transcript@.map_values(|m: Message| m@),
            awaiting_reply: self.awaiting_reply,
        }
    }
}

/// Content of the first seeded transcript entry.
pub open spec fn welcome_text() -> Seq<char> {
    "Welcome to CLI CODE."@
}

/// Content of the second seeded transcript entry.
pub open spec fn ready_text() -> Seq<char> {
    "I am ready to assist. Type anything to chat with Google Gemini."@
}

/// Content of the Thinking placeholder appended on each submission.
pub open spec fn thinking_text() -> Seq<char> {
    "Consulting Gemini..."@
}

/// Content of the System entry appended when the outbound queue is closed.
pub open spec fn send_error_text() -> Seq<char> {
    "Error communicating with AI worker: channel closed"@
}

/// The state a fresh client starts in: splash screen, the two seeded
/// System messages, an empty input buffer, and no reply outstanding.
pub open spec fn init_view() -> AppView {
    AppView {
        mode: ScreenMode::Splash,
        input: Seq::<char>::empty(),
        transcript: seq![
            MsgView { kind: MessageKind::System, content: welcome_text() },
            MsgView { kind: MessageKind::System, content: ready_text() },
        ],
        awaiting_reply: false,
    }
}

/// A Thinking placeholder at position `i` stands directly after the User
/// entry of its own request.
pub open spec fn thinking_follows_user(t: Seq<MsgView>, i: int) -> bool {
    t[i].kind is Thinking ==> i > 0 && t[i - 1].kind is User
}

/// Well-formedness of a transcript: every Thinking placeholder stands
/// directly after the User entry of its own request.
pub open spec fn transcript_wf(t: Seq<MsgView>) -> bool {
    forall|i: int| 0 <= i < t.len() ==> #[trigger] thinking_follows_user(t, i)
}

impl AppView {
    /// Well-formedness of the whole state.
    pub open spec fn wf(self) -> bool {
        transcript_wf(self.transcript)
    }
}

/// The state after the synchronous part of a submission: a whitespace-only
/// input is dropped and the buffer cleared; otherwise the User entry and
/// the Thinking placeholder are appended, and the buffer still holds the
/// text until the enqueue attempt finishes.
pub open spec fn submit_begin_view(a: AppView) -> AppView {
    if trim_spec(a.input).len() == 0 {
        AppView { input: Seq::<char>::empty(), ..a }
    } else {
        AppView {
            transcript: a.transcript.push(
                MsgView { kind: MessageKind::User, content: a.input },
            ).push(MsgView { kind: MessageKind::Thinking, content: thinking_text() }),
            ..a
        }
    }
}

/// What a submission hands to the outbound queue: the trimmed input, or
/// nothing when trimming leaves nothing.
pub open spec fn submit_prompt_view(a: AppView) -> Option<Seq<char>> {
    if trim_spec(a.input).len() == 0 {
        None
    } else {
        Some(trim_spec(a.input))
    }
}

/// The state after the enqueue attempt: on success the reply is now
/// outstanding; on failure a System entry reports it and the flag is left
/// alone. The input buffer is cleared either way.
pub open spec fn submit_finish_view(a: AppView, sent: bool) -> AppView {
    if sent {
        AppView { input: Seq::<char>::empty(), awaiting_reply: true, ..a }
    } else {
        AppView {
            input: Seq::<char>::empty(),
            transcript: a.transcript.push(
                MsgView { kind: MessageKind::System, content: send_error_text() },
            ),
            ..a
        }
    }
}

/// The state after a reply arrives: while a reply is outstanding, a
/// trailing Thinking placeholder is removed first; the decoded reply is
/// appended as an Output entry, and no reply is outstanding afterwards. A
/// reply that arrives unrequested is appended all the same.
pub open spec fn apply_response_view(a: AppView, line: Seq<char>) -> AppView {
    let kept = if a.awaiting_reply && a.transcript.len() > 0 && a.transcript.last().kind
        is Thinking {
        a.transcript.drop_last()
    } else {
        a.transcript
    };
    AppView {
        transcript: kept.push(MsgView { kind: MessageKind::Output, content: line }),
        awaiting_reply: false,
        ..a
    }
}

impl App {
    /// The seeded state of a fresh client.
    pub fn new() -> (app: App)
        ensures
            app@ == init_view(),
            app@.wf(),
    {
        let mut transcript: Vec<Message> = Vec::new();
        transcript.push(
            Message { kind: MessageKind::System, content: "Welcome to CLI CODE.".to_owned() },
        );
        transcript.push(
            Message {
                kind: MessageKind::System,
                content: "I am ready to assist. Type anything to chat with Google Gemini.".to_owned(),
            },
        );
        let app = App {
            mode: ScreenMode::Splash,
            input: String::new(),
            transcript,
            awaiting_reply: false,
        };
        proof {
            assert(app@.transcript =~~= init_view().transcript);
            assert(app@ =~~= init_view());
        }
        app
    }

    /// The synchronous part of a submission: on a whitespace-only buffer,
    /// clear it and do nothing else; otherwise append the User entry and
    /// the Thinking placeholder and hand back the trimmed prompt for the
    /// caller to enqueue. After enqueueing, the caller reports the outcome
    /// to `finish_submission`.
    pub fn begin_submission(&mut self) -> (prompt: Option<String>)
        requires
            old(self)@.wf(),
        ensures
            final(self)@ == submit_begin_view(old(self)@),
            final(self)@.wf(),
            prompt is Some <==> submit_prompt_view(old(self)@) is Some,
            prompt matches Some(p) ==> submit_prompt_view(old(self)@) == Some(p@),
    {
        let ghost a0 = self@;
        let trimmed = trim(self.input.as_str());
        if trimmed.unicode_len() == 0 {
            self.input = String::new();
            proof {
                assert(self@ =~~= submit_begin_view(a0));
            }
            return None;
        }
        let p = trimmed.to_owned();
        let user_content = self.input.clone();
        self.transcript.push(Message { kind: MessageKind::User, content: user_content });
        self.transcript.push(
            Message { kind: MessageKind::Thinking, content: "Consulting Gemini...".to_owned() },
        );
        proof {
            assert(self@ =~~= submit_begin_view(a0));
            let t0 = a0.transcript;
            let t2 = self@.transcript;
            assert forall|i: int| 0 <= i < t2.len() implies thinking_follows_user(t2, i) by {
                if i < t0.len() {
                    assert(thinking_follows_user(t0, i));
                    assert(t2[i] == t0[i]);
                    if i > 0 {
                        assert(t2[i - 1] == t0[i - 1]);
                    }
                } else if i == t0.len() + 1 {
                    assert(t2[i - 1].kind is User);
                }
            }
        }
        Some(p)
    }

    /// The asynchronous tail of a submission: record whether the prompt
    /// reached the outbound queue, and clear the input buffer.
    pub fn finish_submission(&mut self, sent: bool)
        requires
            old(self)@.wf(),
        ensures
            final(self)@ == submit_finish_view(old(self)@, sent),
            final(self)@.wf(),
    {
        let ghost a0 = self@;
        if sent {
            self.awaiting_reply = true;
        } else {
            self.transcript.push(
                Message {
                    kind: MessageKind::System,
                    content: "Error communicating with AI worker: channel closed".to_owned(),
                },
            );
        }
        self.input = String::new();
        proof {
            assert(self@ =~~= submit_finish_view(a0, sent));
            let t0 = a0.transcript;
            let t1 = self@.transcript;
            assert forall|i: int| 0 <= i < t1.len() implies thinking_follows_user(t1, i) by {
                if i < t0.len() {
                    assert(thinking_follows_user(t0, i));
                    assert(t1[i] == t0[i]);
                    if i > 0 {
                        assert(t1[i - 1] == t0[i - 1]);
                    }
                }
            }
        }
    }

    /// Record one reply drained from the inbound queue, as
    /// `apply_response_view` describes.
    pub fn apply_response(&mut self, line: String)
        requires
            old(self)@.wf(),
        ensures
            final(self)@ == apply_response_view(old(self)@, line@),
            final(self)@.wf(),
    {
        let ghost a0 = self@;
        if self.awaiting_reply {
            let mut pop_thinking = false;
            if self.transcript.len() > 0 {
                let last_kind = self.transcript[self.transcript.len() - 1].kind;
                pop_thinking = last_kind == MessageKind::Thinking;
            }
            if pop_thinking {
                let _ = self.transcript.pop();
            }
            self.awaiting_reply = false;
        }
        self.transcript.push(Message { kind: MessageKind::Output, content: line });
        proof {
            assert(self@ =~~= apply_response_view(a0, line@));
            let t0 = a0.transcript;
            let t1 = self@.transcript;
            assert forall|i: int| 0 <= i < t1.len() implies thinking_follows_user(t1, i) by {
                if i < t1.len() - 1 {
                    assert(thinking_follows_user(t0, i));
                    assert(t1[i] == t0[i]);
                    if i > 0 {
                        assert(t1[i - 1] == t0[i - 1]);
                    }
                }
            }
        }
    }
}

/// Law: submitting while the input buffer holds only whitespace appends no
/// transcript entry, enqueues nothing, and leaves the buffer empty.
pub proof fn lemma_whitespace_submission(a: AppView)
    requires
        all_space(a.input),
    ensures
        submit_begin_view(a).transcript == a.transcript,
        submit_begin_view(a).input.len() == 0,
        submit_begin_view(a).mode == a.mode,
        submit_begin_view(a).awaiting_reply == a.awaiting_reply,
        submit_prompt_view(a) is None,
{
    lemma_trim_empty_iff_all_space(a.input);
}

/// Law: while a reply is outstanding and the Thinking placeholder is the
/// most recent entry, the arriving reply replaces exactly that placeholder
/// with one Output entry and marks the request answered.
pub proof fn lemma_reply_resolves_thinking(a: AppView, line: Seq<char>)
    requires
        a.awaiting_reply,
        a.transcript.len() > 0,
        a.transcript.last().kind is Thinking,
    ensures
        apply_response_view(a, line).transcript == a.transcript.drop_last().push(
            MsgView { kind: MessageKind::Output, content: line },
        ),
        !apply_response_view(a, line).awaiting_reply,
{
}

/// Positions `i` and `i + 1` of the transcript do not both hold a Thinking
/// placeholder.
pub open spec fn no_adjacent_thinking_at(t: Seq<MsgView>, i: int) -> bool {
    !(t[i].kind is Thinking && t[i + 1].kind is Thinking)
}

/// Law: a well-formed transcript never holds two consecutive Thinking
/// placeholders; each one stands directly after the User entry of its own
/// request, so another Thinking can never touch it.
pub proof fn lemma_no_consecutive_thinking(t: Seq<MsgView>)
    requires
        transcript_wf(t),
    ensures
        forall|i: int| 0 <= i < t.len() - 1 ==> #[trigger] no_adjacent_thinking_at(t, i),
{
    assert forall|i: int| 0 <= i < t.len() - 1 implies no_adjacent_thinking_at(t, i) by {
        assert(thinking_follows_user(t, i + 1));
    }
}

} // verus!
