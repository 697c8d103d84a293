//! The listener's decisions, without the socket and without the threads.
//!
//! Whoever owns the listening socket tells the server what an `accept` gave;
//! the server says what to do about it. Each session thread asks in the same
//! way what to do about its close channel.

use vstd::prelude::*;
use crate::ltsv::push_char;
use crate::narcissus::{Config, Narcissus};
use crate::server::protocol::invalid_request;
use crate::server::session::{hello_accepted, Phase, SessionView};
use crate::errors::Error;

verus! {

/// What a thread finds in its close channel when it looks without waiting.
#[derive(Copy, Clone, Debug, PartialEq, Eq, Structural)]
pub enum Signal {
    /// A request to close.
    Close,
    /// The other end of the channel is gone.
    Disconnected,
    /// Nothing.
    Empty,
}

/// What an `accept` on the listening socket gave.
#[derive(Copy, Clone, Debug, PartialEq, Eq, Structural)]
pub enum Accepted {
    /// A new client.
    Connection,
    /// No client is waiting.
    WouldBlock,
    /// The socket failed.
    Failed,
}

/// What the owner of the listening socket does after an `accept`.
#[derive(Debug, PartialEq, Eq)]
pub enum ServerAction {
    /// Start a session thread of this name for the new client.
    Spawn(String),
    /// Nothing.
    Idle,
    /// Give the socket's error to the supervisor.
    Fail,
}

/// What a session thread does next.
#[derive(Copy, Clone, Debug, PartialEq, Eq, Structural)]
pub enum SessionStep {
    /// Read the client's hello, and answer it if it is accepted.
    Hello,
    /// Send the client a shutdown message and end.
    Shutdown,
    /// Go on with the tick.
    Continue,
    /// End with the close channel's error.
    Crash,
    /// End, and write nothing more than is in the write buffer.
    End,
}

/// The decimal digit of a number below ten.
pub open spec fn digit(n: int) -> char {
    (0x30 + n) as u8 as char
}

/// A number in decimal, without zeros in front.
pub open spec fn decimal(n: nat) -> Seq<char>
    decreases n,
{
    if n < 10 {
        seq![digit(n as int)]
    } else {
        decimal(n / 10).push(digit((n % 10) as int))
    }
}

/// The name of the thread of the client numbered `n`.
pub open spec fn client_name(n: u32) -> Seq<char> {
    "client_"@ + decimal(n as nat)
}

/// Appends `n` in decimal to `buf`.
fn push_decimal(buf: &mut String, n: u32)
    ensures
        final(buf)@ == old(buf)@ + decimal(n as nat),
    decreases n,
{
    let ghost start = buf@;
    if n >= 10 {
        push_decimal(buf, n / 10);
    }
    let d = (n % 10) as u8;
    push_char(buf, (0x30 + d) as char);
    proof {
        assert(buf@ =~= start + decimal(n as nat));
    }
}

/// The listener: the settings, and how many clients it has accepted.
pub struct Server {
    n: Narcissus,
    client_num: u32,
}

impl Server {
    /// How many clients were accepted so far.
    pub closed spec fn clients(&self) -> u32 {
        self.client_num
    }

    /// The settings the server was made with.
    pub closed spec fn config(&self) -> Config {
        self.n.config
    }

    /// A listener that has accepted nobody yet.
    pub fn new(n: Narcissus) -> (s: Server)
        ensures
            s.clients() == 0,
            s.config() == n.config,
    {
        Server { n, client_num: 0 }
    }

    /// The path the listening socket is bound to. A file found there before
    /// binding is a leftover and is removed first.
    pub fn socket_path(&self) -> (path: &String)
        ensures
            *path == self.config().socket_path,
    {
        &self.n.config.socket_path
    }

    /// How many clients were accepted so far.
    pub fn client_num(&self) -> (n: u32)
        ensures
            n == self.clients(),
    {
        self.client_num
    }

    /// Says what to do after an `accept`: a new client gets a session thread
    /// named after its number, counted from 0; a socket that would block is
    /// no event; a failure goes to the supervisor.
    pub fn tick(&mut self, accepted: Accepted) -> (action: ServerAction)
        requires
            accepted == Accepted::Connection ==> old(self).clients() < u32::MAX,
        ensures
            final(self).config() == old(self).config(),
            match accepted {
                Accepted::Connection => {
                    &&& action matches ServerAction::Spawn(name)
                    &&& name@ == client_name(old(self).clients())
                    &&& final(self).clients() == old(self).clients() + 1
                },
                Accepted::WouldBlock => action == ServerAction::Idle && final(self).clients()
                    == old(self).clients(),
                Accepted::Failed => action == ServerAction::Fail && final(self).clients() == old(
                    self,
                ).clients(),
            },
    {
        match accepted {
            Accepted::Connection => {
                let mut name = "client_".to_owned();
                push_decimal(&mut name, self.client_num);
                self.client_num = self.client_num + 1;
                ServerAction::Spawn(name)
            },
            Accepted::WouldBlock => ServerAction::Idle,
            Accepted::Failed => ServerAction::Fail,
        }
    }
}

/// What a session thread does next, by the phase of its session and by what
/// it finds in its close channel. A session that waits for its hello reads
/// it. An active session ticks, unless it is asked to close, which is passed
/// on to the client, or the other end of the close channel is gone, which
/// ends the session with an error. A session that is over but for its
/// shutdown message sends it and ends; a closed session ends.
pub open spec fn session_step(phase: Phase, closer: Signal) -> SessionStep {
    match phase {
        Phase::HelloWait => SessionStep::Hello,
        Phase::Active => match closer {
            Signal::Close => SessionStep::Shutdown,
            Signal::Empty => SessionStep::Continue,
            Signal::Disconnected => SessionStep::Crash,
        },
        Phase::Closing => SessionStep::Shutdown,
        Phase::Closed => SessionStep::End,
    }
}

/// Says what a session thread does next.
pub fn run_session(phase: Phase, closer: Signal) -> (step: SessionStep)
    ensures
        step == session_step(phase, closer),
{
    match phase {
        Phase::HelloWait => SessionStep::Hello,
        Phase::Active => match closer {
            Signal::Close => SessionStep::Shutdown,
            Signal::Empty => SessionStep::Continue,
            Signal::Disconnected => SessionStep::Crash,
        },
        Phase::Closing => SessionStep::Shutdown,
        Phase::Closed => SessionStep::End,
    }
}

/// A session whose hello is refused ends before anything is written or
/// subscribed: the hello gives the error of an invalid request and closes the
/// session with its write buffer and its streams as they were, and the next
/// step of a closed session is to end, whatever the close channel holds.
pub proof fn lemma_refused_hello_ends(
    s: SessionView,
    raw: Seq<u8>,
    now: u64,
    id: u32,
    closer: Signal,
)
    requires
        s.phase == Phase::HelloWait,
        !hello_accepted(raw),
    ensures
        ({
            let (next, answer) = s.after_hello(raw, now, id);
            &&& answer == Err::<(), Error>(invalid_request())
            &&& next.write_buffer == s.write_buffer
            &&& next.write_sent == s.write_sent
            &&& next.faceposition == s.faceposition
            &&& next.luminosity == s.luminosity
            &&& session_step(next.phase, closer) == SessionStep::End
        }),
{
}

/// A session ticks only between an accepted hello and its end: the step is
/// to go on exactly for an active session with nothing in its close channel.
pub proof fn lemma_ticks_need_an_active_session(phase: Phase, closer: Signal)
    ensures
        session_step(phase, closer) == SessionStep::Continue <==> phase == Phase::Active
            && closer == Signal::Empty,
{
}

} // verus!
