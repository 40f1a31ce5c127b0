//! Timers: every so many seconds a timer fires, runs its script callback and sends its
//! reaction line to its session.
//!
//! The waiting and the running of callbacks happen outside the library; a [`Timer`] keeps the
//! configuration and the count of hits, and says what each firing does.

use vstd::prelude::*;

use crate::model::InputLine;
use crate::input::EchoState;
use crate::text::owned;

verus! {

/// Why a timer cannot be made.
#[derive(Debug, Clone, Copy, PartialEq, Eq, Structural)]
pub enum TimerError {
    /// Neither a callback nor a reaction was given.
    NothingToDo,
    /// A reaction was given without a session to send it to.
    ReactionWithoutSession,
}

impl TimerError {
    /// The error's message, as the error's `Display` renders it.
    pub fn to_string(&self) -> (s: String)
        ensures
            s@ == match self {
                TimerError::NothingToDo => "invalid timer: one of callback or reaction must be provided"@,
                TimerError::ReactionWithoutSession => "invalid timer: reaction requires a session to be provided"@,
            },
    {
        match self {
            TimerError::NothingToDo => owned(
                "invalid timer: one of callback or reaction must be provided",
            ),
            TimerError::ReactionWithoutSession => owned(
                "invalid timer: reaction requires a session to be provided",
            ),
        }
    }
}

/// A timer: its name, its period, the script callback it runs (by handle), the line it sends
/// and the session it sends it to, whether it runs, and how often it fired.
#[derive(Debug)]
pub struct Timer {
    pub name: String,
    pub duration_seconds: u64,
    pub callback: Option<u32>,
    pub reaction: Option<String>,
    pub session: Option<u32>,
    pub hit_count: u64,
    pub running: bool,
}

/// What a timer made of the given parts is: an error when it has nothing to do, or a reaction
/// but no session to send it to; otherwise `Ok`.
pub open spec fn timer_check(callback: Option<u32>, reaction: Option<String>, session: Option<u32>) -> Option<TimerError> {
    if callback is None && reaction is None {
        Some(TimerError::NothingToDo)
    } else if reaction is Some && session is None {
        Some(TimerError::ReactionWithoutSession)
    } else {
        None
    }
}

/// What a firing asks for: the callback to run, then (if it succeeds) the line to send and
/// the session to send it to.
#[derive(Debug, Clone, PartialEq, Eq)]
pub struct Firing {
    pub callback: Option<u32>,
    pub reaction: Option<(u32, InputLine)>,
}

impl Timer {
    /// A stopped timer that has not fired; fails when it would have nothing to do, or a
    /// reaction but no session.
    pub fn new(
        name: String,
        duration_seconds: u64,
        callback: Option<u32>,
        reaction: Option<String>,
        session: Option<u32>,
    ) -> (r: Result<Timer, TimerError>)
        ensures
            match timer_check(callback, reaction, session) {
                Some(e) => r == Err::<Timer, TimerError>(e),
                None => r matches Ok(t) && t.name@ == name@ && t.duration_seconds == duration_seconds
                    && t.callback == callback && t.reaction == reaction && t.session == session
                    && t.hit_count == 0 && !t.running,
            },
    {
        if callback.is_none() && reaction.is_none() {
            return Err(TimerError::NothingToDo);
        }
        if reaction.is_some() && session.is_none() {
            return Err(TimerError::ReactionWithoutSession);
        }
        Ok(Timer { name, duration_seconds, callback, reaction, session, hit_count: 0, running: false })
    }

    /// The period, in seconds.
    pub fn duration(&self) -> (d: u64)
        ensures
            d == self.duration_seconds,
    {
        self.duration_seconds
    }

    /// How often the timer fired.
    pub fn hit_count(&self) -> (n: u64)
        ensures
            n == self.hit_count,
    {
        self.hit_count
    }

    /// Whether the timer runs.
    pub fn running(&self) -> (b: bool)
        ensures
            b == self.running,
    {
        self.running
    }

    /// Start the timer; `false`, changing nothing, when it already runs.
    pub fn start(&mut self) -> (started: bool)
        ensures
            started == !old(self).running,
            final(self).running,
            final(self).hit_count == old(self).hit_count,
            final(self).duration_seconds == old(self).duration_seconds,
            final(self).name == old(self).name,
            final(self).callback == old(self).callback,
            final(self).reaction == old(self).reaction,
            final(self).session == old(self).session,
    {
        if self.running {
            return false;
        }
        self.running = true;
        true
    }

    /// Stop the timer; `false`, changing nothing, when it does not run.
    pub fn stop(&mut self) -> (stopped: bool)
        ensures
            stopped == old(self).running,
            !final(self).running,
            final(self).hit_count == old(self).hit_count,
            final(self).duration_seconds == old(self).duration_seconds,
            final(self).name == old(self).name,
            final(self).callback == old(self).callback,
            final(self).reaction == old(self).reaction,
            final(self).session == old(self).session,
    {
        if !self.running {
            return false;
        }
        self.running = false;
        true
    }

    /// Fire once: count the hit, and say what to do — run the callback, if there is one,
    /// then send the reaction line, marked as scripted and shown, to the session.
    pub fn fire(&mut self) -> (f: Firing)
        requires
            old(self).hit_count < u64::MAX,
        ensures
            final(self).hit_count == old(self).hit_count + 1,
            final(self).running == old(self).running,
            final(self).duration_seconds == old(self).duration_seconds,
            final(self).name == old(self).name,
            final(self).callback == old(self).callback,
            final(self).reaction == old(self).reaction,
            final(self).session == old(self).session,
            f.callback == old(self).callback,
            match (old(self).reaction, old(self).session) {
                (Some(text), Some(id)) => f.reaction matches Some((sid, line)) && sid == id
                    && line.sent@ == text@ && line.original is None && line.echo
                    == EchoState::Enabled && line.scripted,
                _ => f.reaction is None,
            },
    {
        self.hit_count = self.hit_count + 1;
        let reaction = match (&self.reaction, self.session) {
            (Some(text), Some(id)) => Some((id, InputLine::new(text.clone(), true, true))),
            _ => None,
        };
        Firing { callback: self.callback, reaction }
    }
}

} // verus!
