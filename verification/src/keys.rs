//! The keyboard surface of the client: which keys do what on each screen.
//!
//! The event loop reads at most one key per iteration, translates it to a
//! `KeyInput`, and applies it through `App::handle_key`, which returns the
//! action the loop must carry out: keep going, end the loop, or enqueue a
//! prompt (and afterwards report the outcome to `App::finish_submission`).

use vstd::prelude::*;
use vstd::string::*;

use crate::state::{
    submit_begin_view, submit_prompt_view, App, AppView, ScreenMode,
};
use crate::text::{is_quit_command, is_quit_word, pop_char, push_char, trim, trim_spec};

verus! {

/// One keyboard event. Printable characters arrive as `Char`; the control
/// combination that quits arrives as `CtrlC`; every key without an effect
/// arrives as `Other`.
#[derive(Clone, Copy, Debug)]
pub enum KeyInput {
    Char(char),
    Enter,
    Backspace,
    Esc,
    CtrlC,
    Other,
}

/// What the event loop must do after a key was applied: nothing further,
/// return (ending the application), or enqueue a prompt to the worker.
#[derive(Debug)]
pub enum KeyAction {
    Continue,
    Exit,
    Enqueue(String),
}

/// The mathematical value of a `KeyAction`.
#[verifier::ext_equal]
pub ghost enum ActionView {
    Continue,
    Exit,
    Enqueue(Seq<char>),
}

/// The view of an action.
pub open spec fn action_view(a: KeyAction) -> ActionView {
    match a {
        KeyAction::Continue => ActionView::Continue,
        KeyAction::Exit => ActionView::Exit,
        KeyAction::Enqueue(s) => ActionView::Enqueue(s@),
    }
}

/// The submission triggered by Enter: the state steps as
/// `submit_begin_view` says, and the trimmed prompt, if there is one, goes
/// to the outbound queue.
pub open spec fn enter_submit_view(a: AppView) -> (AppView, ActionView) {
    (
        submit_begin_view(a),
        match submit_prompt_view(a) {
            Option::None => ActionView::Continue,
            Option::Some(p) => ActionView::Enqueue(p),
        },
    )
}

/// The whole keyboard surface: the state after one key and the action the
/// event loop must carry out.
///
/// On the splash screen, Esc, `q` and Ctrl+C quit; Enter switches to the
/// chat screen and submits whatever is in the buffer. On the chat screen,
/// Ctrl+C quits, Enter either quits (when the trimmed buffer reads "quit"
/// or "exit" in any case) or submits. On both screens other printable
/// characters extend the buffer and Backspace shortens it.
pub open spec fn handle_key_view(a: AppView, key: KeyInput) -> (AppView, ActionView) {
    match a.mode {
        ScreenMode::Splash => match key {
            KeyInput::CtrlC => (a, ActionView::Exit),
            KeyInput::Esc => (a, ActionView::Exit),
            KeyInput::Char(c) => if c == 'q' {
                (a, ActionView::Exit)
            } else {
                (AppView { input: a.input.push(c), ..a }, ActionView::Continue)
            },
            KeyInput::Backspace => (
                AppView {
                    input: if a.input.len() > 0 {
                        a.input.drop_last()
                    } else {
                        a.input
                    },
                    ..a
                },
                ActionView::Continue,
            ),
            KeyInput::Enter => enter_submit_view(AppView { mode: ScreenMode::Chat, ..a }),
            KeyInput::Other => (a, ActionView::Continue),
        },
        ScreenMode::Chat => match key {
            KeyInput::CtrlC => (a, ActionView::Exit),
            KeyInput::Enter => if is_quit_word(trim_spec(a.input)) {
                (a, ActionView::Exit)
            } else {
                enter_submit_view(a)
            },
            KeyInput::Char(c) => (AppView { input: a.input.push(c), ..a }, ActionView::Continue),
            KeyInput::Backspace => (
                AppView {
                    input: if a.input.len() > 0 {
                        a.input.drop_last()
                    } else {
                        a.input
                    },
                    ..a
                },
                ActionView::Continue,
            ),
            KeyInput::Esc => (a, ActionView::Continue),
            KeyInput::Other => (a, ActionView::Continue),
        },
    }
}

impl App {
    /// Apply one keyboard event, as `handle_key_view` describes, and return
    /// the action the event loop must carry out.
    pub fn handle_key(&mut self, key: KeyInput) -> (action: KeyAction)
        requires
            old(self)@.wf(),
        ensures
            final(self)@ == handle_key_view(old(self)@, key).0,
            final(self)@.wf(),
            action_view(action) == handle_key_view(old(self)@, key).1,
    {
        let ghost a0 = self@;
        match self.mode {
            ScreenMode::Splash => match key {
                KeyInput::CtrlC => KeyAction::Exit,
                KeyInput::Esc => KeyAction::Exit,
                KeyInput::Char(c) => {
                    if c == 'q' {
                        KeyAction::Exit
                    } else {
                        push_char(&mut self.input, c);
                        proof {
                            assert(self@ =~~= handle_key_view(a0, key).0);
                        }
                        KeyAction::Continue
                    }
                },
                KeyInput::Backspace => {
                    let _ = pop_char(&mut self.input);
                    proof {
                        assert(self@ =~~= handle_key_view(a0, key).0);
                    }
                    KeyAction::Continue
                },
                KeyInput::Enter => {
                    self.mode = ScreenMode::Chat;
                    proof {
                        assert(self@ =~~= (AppView { mode: ScreenMode::Chat, ..a0 }));
                    }
                    match self.begin_submission() {
                        Option::Some(p) => KeyAction::Enqueue(p),
                        Option::None => KeyAction::Continue,
                    }
                },
                KeyInput::Other => KeyAction::Continue,
            },
            ScreenMode::Chat => match key {
                KeyInput::CtrlC => KeyAction::Exit,
                KeyInput::Enter => {
                    let quit = is_quit_command(trim(self.input.as_str()));
                    if quit {
                        KeyAction::Exit
                    } else {
                        match self.begin_submission() {
                            Option::Some(p) => KeyAction::Enqueue(p),
                            Option::None => KeyAction::Continue,
                        }
                    }
                },
                KeyInput::Char(c) => {
                    push_char(&mut self.input, c);
                    proof {
                        assert(self@ =~~= handle_key_view(a0, key).0);
                    }
                    KeyAction::Continue
                },
                KeyInput::Backspace => {
                    let _ = pop_char(&mut self.input);
                    proof {
                        assert(self@ =~~= handle_key_view(a0, key).0);
                    }
                    KeyAction::Continue
                },
                KeyInput::Esc => KeyAction::Continue,
                KeyInput::Other => KeyAction::Continue,
            },
        }
    }
}

/// Law: on the chat screen, an input whose trimmed text reads "quit" or
/// "exit" in any letter case makes Enter end the application: the state is
/// untouched and nothing is enqueued to the worker.
pub proof fn lemma_quit_exits(a: AppView)
    requires
        a.mode is Chat,
        is_quit_word(trim_spec(a.input)),
    ensures
        handle_key_view(a, KeyInput::Enter).0 == a,
        handle_key_view(a, KeyInput::Enter).1 is Exit,
{
}

} // verus!
