//! Draining the inbound reply queue.
//!
//! The reader bridge task pushes each decoded worker response onto a bounded
//! channel; once per iteration the event loop drains everything currently
//! queued, so a reply is never lost behind a slow keyboard consumer.
//! `drain_inbound` performs that drain against the real channel receiver and
//! records each reply through `App::apply_response`.

use vstd::prelude::*;

use crate::state::{apply_response_view, App, AppView};

verus! {

/// Relies on `tokio::sync::mpsc::Receiver`: the receive half of a bounded
/// channel, declared here (opaquely) so the drain can take it by reference.
#[verifier::external_type_specification]
#[verifier::external_body]
#[verifier::reject_recursive_types(T)]
pub struct ExReceiver<T>(tokio::sync::mpsc::Receiver<T>);

/// Relies on `tokio::sync::mpsc::Receiver::try_recv`: returns the next
/// queued message without waiting, or an error value when the queue is
/// momentarily empty or the channel is closed. Whether a message is there,
/// and which, depends on the sending task, so nothing is promised of the
/// result; the caller handles every outcome.
#[verifier::external_body]
fn try_recv_line(rx: &mut tokio::sync::mpsc::Receiver<String>) -> (r: Option<String>) {
    rx.try_recv().ok()
}

/// The state after the replies in `lines` have arrived, oldest first.
pub open spec fn fold_responses(a: AppView, lines: Seq<Seq<char>>) -> AppView
    decreases lines.len(),
{
    if lines.len() == 0 {
        a
    } else {
        fold_responses(apply_response_view(a, lines.first()), lines.drop_first())
    }
}

proof fn lemma_fold_responses_push(a: AppView, lines: Seq<Seq<char>>, l: Seq<char>)
    ensures
        fold_responses(a, lines.push(l)) == apply_response_view(fold_responses(a, lines), l),
    decreases lines.len(),
{
    if lines.len() == 0 {
        assert(lines.push(l).first() == l);
        assert(lines.push(l).drop_first() =~= Seq::<Seq<char>>::empty());
        assert(fold_responses(a, lines.push(l)) == fold_responses(
            apply_response_view(a, l),
            Seq::<Seq<char>>::empty(),
        ));
        assert(fold_responses(a, lines) == a);
    } else {
        let a1 = apply_response_view(a, lines.first());
        assert(lines.push(l).first() == lines.first());
        assert(lines.push(l).drop_first() =~= lines.drop_first().push(l));
        assert(fold_responses(a, lines.push(l)) == fold_responses(a1, lines.drop_first().push(l)));
        lemma_fold_responses_push(a1, lines.drop_first(), l);
        assert(fold_responses(a, lines) == fold_responses(a1, lines.drop_first()));
    }
}

/// Record the replies queued on the inbound channel, oldest first, and
/// return once the channel is momentarily empty or closed. The channel
/// holds at most `CHANNEL_CAPACITY` messages, so that many receives drain
/// everything that was queued when the drain began; replies arriving while
/// it runs are picked up by the next event-loop iteration. The screen mode
/// and the input buffer are untouched; the final state is the old state
/// after some sequence of arrived replies.
pub fn drain_inbound(app: &mut App, rx: &mut tokio::sync::mpsc::Receiver<String>)
    requires
        old(app)@.wf(),
    ensures
        final(app)@.wf(),
        exists|lines: Seq<Seq<char>>| final(app)@ == fold_responses(old(app)@, lines),
        final(app)@.mode == old(app)@.mode,
        final(app)@.input == old(app)@.input,
{
    let ghost a0 = app@;
    let ghost mut lines: Seq<Seq<char>> = Seq::empty();
    let mut budget: usize = crate::CHANNEL_CAPACITY;
    while budget > 0
        invariant
            app@.wf(),
            app@ == fold_responses(a0, lines),
            app@.mode == a0.mode,
            app@.input == a0.input,
        decreases budget,
    {
        match try_recv_line(rx) {
            Option::Some(line) => {
                let ghost l = line@;
                app.apply_response(line);
                proof {
                    lemma_fold_responses_push(a0, lines, l);
                    lines = lines.push(l);
                }
                budget = budget - 1;
            },
            Option::None => {
                break ;
            },
        }
    }
    proof {
        assert(app@ == fold_responses(a0, lines));
    }
}

} // verus!
