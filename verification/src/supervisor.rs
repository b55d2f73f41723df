//! The connection supervisor as a state machine: discover, connect, stream,
//! and start over when the link is lost, until the caller cancels.

use crate::config::LinkParams;
use crate::decoder::{decoded_samples, sample_views, undecoded_tail, FrameDecoder};
use crate::frame::{DecodedSample, FRAME_LEN};
use vstd::prelude::*;

verus! {

/// The states of a supervised connection.
#[derive(Clone, Copy, Debug, PartialEq, Eq, Structural)]
pub enum LinkState {
    /// Not started.
    Idle,
    /// Looking for the device among the candidate ports.
    Discovering,
    /// The device's port is known; the link is being opened and started.
    Connected,
    /// Reading frames from the device.
    Streaming,
    /// The link is lost; waiting before looking for the device again.
    Disconnected,
    /// Cancelled by the caller.
    ShuttingDown,
}

/// What the driver reports to the supervisor.
#[derive(Debug, PartialEq, Eq)]
pub enum LinkEvent {
    /// The caller starts the supervisor, which is to find the device.
    Start,
    /// The caller starts the supervisor on the port with this name.
    StartOn(String),
    /// Discovery found the device on the port with this name.
    DeviceFound(String),
    /// The link opened.
    LinkOpened,
    /// The link could not be opened.
    LinkOpenFailed,
    /// The start command was written and the settle delay is over.
    CommandSent,
    /// The start command could not be written; the settle delay is over.
    CommandFailed,
    /// A read returned these bytes.
    Bytes(Vec<u8>),
    /// A read timed out.
    ReadTimeout,
    /// A read failed otherwise.
    LinkError,
    /// The delay after a disconnect is over.
    RetryElapsed,
    /// The caller shuts the supervisor down.
    Cancel,
}

/// What the supervisor asks of the driver.
#[derive(Debug, PartialEq, Eq)]
pub enum LinkAction {
    /// Run a discovery and report the port found.
    Discover,
    /// Open a fresh link on the supervisor's port, at this data rate and
    /// with this read timeout.
    OpenLink { data_rate: u32, timeout_ms: u64 },
    /// Write the start command, then wait this long.
    SendStart { settle_delay_ms: u64 },
    /// Read from the link.
    Read,
    /// Hand these samples to the sink, in order, then read from the link.
    Deliver(Vec<DecodedSample>),
    /// Release the link if one is held, then wait this long.
    WaitRetry { release_link: bool, delay_ms: u64 },
    /// Release the link if one is held and stop.
    Shutdown { release_link: bool },
}

/// An event as the transition function sees it.
pub enum LinkInput {
    Start,
    StartOn(Seq<char>),
    DeviceFound(Seq<char>),
    LinkOpened,
    LinkOpenFailed,
    CommandSent,
    CommandFailed,
    Bytes(Seq<u8>),
    ReadTimeout,
    LinkError,
    RetryElapsed,
    Cancel,
}

/// An action as the transition function gives it.
pub enum LinkOutput {
    Discover,
    OpenLink { data_rate: u32, timeout_ms: u64 },
    SendStart { settle_delay_ms: u64 },
    Read,
    Deliver(Seq<Seq<i16>>),
    WaitRetry { release_link: bool, delay_ms: u64 },
    Shutdown { release_link: bool },
}

impl View for LinkEvent {
    type V = LinkInput;

    open spec fn view(&self) -> LinkInput {
        match *self {
            LinkEvent::Start => LinkInput::Start,
            LinkEvent::StartOn(name) => LinkInput::StartOn(name@),
            LinkEvent::DeviceFound(name) => LinkInput::DeviceFound(name@),
            LinkEvent::LinkOpened => LinkInput::LinkOpened,
            LinkEvent::LinkOpenFailed => LinkInput::LinkOpenFailed,
            LinkEvent::CommandSent => LinkInput::CommandSent,
            LinkEvent::CommandFailed => LinkInput::CommandFailed,
            LinkEvent::Bytes(bytes) => LinkInput::Bytes(bytes@),
            LinkEvent::ReadTimeout => LinkInput::ReadTimeout,
            LinkEvent::LinkError => LinkInput::LinkError,
            LinkEvent::RetryElapsed => LinkInput::RetryElapsed,
            LinkEvent::Cancel => LinkInput::Cancel,
        }
    }
}

impl View for LinkAction {
    type V = LinkOutput;

    open spec fn view(&self) -> LinkOutput {
        match *self {
            LinkAction::Discover => LinkOutput::Discover,
            LinkAction::OpenLink { data_rate, timeout_ms } => LinkOutput::OpenLink {
                data_rate,
                timeout_ms,
            },
            LinkAction::SendStart { settle_delay_ms } => LinkOutput::SendStart { settle_delay_ms },
            LinkAction::Read => LinkOutput::Read,
            LinkAction::Deliver(samples) => LinkOutput::Deliver(sample_views(samples@)),
            LinkAction::WaitRetry { release_link, delay_ms } => LinkOutput::WaitRetry {
                release_link,
                delay_ms,
            },
            LinkAction::Shutdown { release_link } => LinkOutput::Shutdown { release_link },
        }
    }
}

/// The view of an action that may be absent.
pub open spec fn output_of(action: Option<LinkAction>) -> Option<LinkOutput> {
    match action {
        Some(a) => Some(a@),
        None => None,
    }
}

/// The state of a supervisor.
pub struct SupervisorState {
    /// Rate, timeouts and delays.
    pub params: LinkParams,
    /// Whether the supervisor looks for the device again when the link is
    /// lost or cannot be opened; it shuts down instead where it does not.
    pub reconnect: bool,
    pub state: LinkState,
    /// Name of the port that discovery found last; empty before the first.
    pub port: Seq<char>,
    /// A link is open.
    pub link_held: bool,
    /// Bytes read from the link that no frame has claimed yet.
    pub pending: Seq<u8>,
}

impl SupervisorState {
    /// A link is held only while connected or streaming, and always while
    /// streaming; bytes are pending only while streaming, and fewer than a
    /// frame's worth.
    pub open spec fn wf(self) -> bool {
        &&& self.link_held ==> self.state == LinkState::Connected || self.state
            == LinkState::Streaming
        &&& self.state == LinkState::Streaming ==> self.link_held
        &&& self.pending.len() > 0 ==> self.state == LinkState::Streaming
        &&& self.pending.len() < FRAME_LEN
    }

    /// The state before the supervisor is started.
    pub open spec fn initial(params: LinkParams, reconnect: bool) -> SupervisorState {
        SupervisorState {
            params,
            reconnect,
            state: LinkState::Idle,
            port: Seq::empty(),
            link_held: false,
            pending: Seq::empty(),
        }
    }

    /// The state without link and pending bytes, in state `state`.
    pub open spec fn released(self, state: LinkState) -> SupervisorState {
        SupervisorState { state, link_held: false, pending: Seq::empty(), ..self }
    }

    /// The action that opens the link.
    pub open spec fn open_link(self) -> LinkOutput {
        LinkOutput::OpenLink {
            data_rate: self.params.data_rate,
            timeout_ms: self.params.stream_timeout_ms,
        }
    }

    /// What follows the loss of the link, or the failure to open it: the
    /// retry delay and then a new discovery, or the end where the supervisor
    /// does not reconnect. `release_link` says whether a link is held.
    pub open spec fn lose_link(self, release_link: bool) -> (SupervisorState, Option<LinkOutput>) {
        if self.reconnect {
            (
                self.released(LinkState::Disconnected),
                Some(LinkOutput::WaitRetry { release_link, delay_ms: self.params.retry_delay_ms }),
            )
        } else {
            (self.released(LinkState::ShuttingDown), Some(LinkOutput::Shutdown { release_link }))
        }
    }

    /// The transition function: the next state and the action asked of the
    /// driver, or the same state and no action where the event is not one
    /// that the state waits for. A cancellation is taken in every state.
    pub open spec fn transition(self, input: LinkInput) -> (SupervisorState, Option<LinkOutput>) {
        match (input, self.state) {
            (LinkInput::Cancel, _) => (
                self.released(LinkState::ShuttingDown),
                Some(LinkOutput::Shutdown { release_link: self.link_held }),
            ),
            (LinkInput::Start, LinkState::Idle) => (
                SupervisorState { state: LinkState::Discovering, ..self },
                Some(LinkOutput::Discover),
            ),
            (LinkInput::StartOn(name), LinkState::Idle) | (
                LinkInput::DeviceFound(name),
                LinkState::Discovering,
            ) => (
                SupervisorState { state: LinkState::Connected, port: name, ..self },
                Some(self.open_link()),
            ),
            (LinkInput::LinkOpened, LinkState::Connected) => if self.link_held {
                (self, None)
            } else {
                (
                    SupervisorState { link_held: true, ..self },
                    Some(LinkOutput::SendStart { settle_delay_ms: self.params.settle_delay_ms }),
                )
            },
            (LinkInput::LinkOpenFailed, LinkState::Connected) => if self.link_held {
                (self, None)
            } else {
                self.lose_link(false)
            },
            (LinkInput::CommandSent, LinkState::Connected) | (
                LinkInput::CommandFailed,
                LinkState::Connected,
            ) => if self.link_held {
                (
                    SupervisorState {
                        state: LinkState::Streaming,
                        pending: Seq::empty(),
                        ..self
                    },
                    Some(LinkOutput::Read),
                )
            } else {
                (self, None)
            },
            (LinkInput::Bytes(bytes), LinkState::Streaming) => (
                SupervisorState { pending: undecoded_tail(self.pending + bytes), ..self },
                Some(LinkOutput::Deliver(decoded_samples(self.pending + bytes))),
            ),
            (LinkInput::ReadTimeout, LinkState::Streaming) => (self, Some(LinkOutput::Read)),
            (LinkInput::LinkError, LinkState::Streaming) => self.lose_link(true),
            (LinkInput::RetryElapsed, LinkState::Disconnected) => (
                SupervisorState { state: LinkState::Discovering, ..self },
                Some(LinkOutput::Discover),
            ),
            _ => (self, None),
        }
    }
}

/// The supervisor.
pub struct Supervisor {
    params: LinkParams,
    reconnect: bool,
    state: LinkState,
    port: String,
    link_held: bool,
    decoder: FrameDecoder,
}

impl View for Supervisor {
    type V = SupervisorState;

    closed spec fn view(&self) -> SupervisorState {
        SupervisorState {
            params: self.params,
            reconnect: self.reconnect,
            state: self.state,
            port: self.port@,
            link_held: self.link_held,
            pending: self.decoder@,
        }
    }
}

impl Supervisor {
    #[verifier::type_invariant]
    spec fn consistent(&self) -> bool {
        self@.wf()
    }

    /// A supervisor that has not been started, with the numbers to run with.
    /// With `reconnect` it looks for the device again whenever the link is
    /// lost or cannot be opened; without, it shuts down then.
    pub fn new(params: LinkParams, reconnect: bool) -> (supervisor: Self)
        ensures
            supervisor@ == SupervisorState::initial(params, reconnect),
            supervisor@.wf(),
    {
        Supervisor {
            params,
            reconnect,
            state: LinkState::Idle,
            port: String::new(),
            link_held: false,
            decoder: FrameDecoder::new(),
        }
    }

    /// The state the supervisor is in.
    pub fn state(&self) -> (state: LinkState)
        ensures
            state == self@.state,
    {
        self.state
    }

    /// Name of the port that discovery found last.
    pub fn port(&self) -> (name: &String)
        ensures
            name@ == self@.port,
    {
        &self.port
    }

    /// Whether a link is open.
    pub fn link_held(&self) -> (held: bool)
        ensures
            held == self@.link_held,
            self@.wf(),
    {
        proof {
            use_type_invariant(self);
        }
        self.link_held
    }

    fn release(&mut self, state: LinkState)
        requires
            state != LinkState::Streaming,
        ensures
            final(self)@ == old(self)@.released(state),
    {
        proof {
            use_type_invariant(&*self);
        }
        self.decoder = FrameDecoder::new();
        self.state = LinkState::Connected;
        self.link_held = false;
        self.state = state;
    }

    fn lose_link(&mut self, release_link: bool) -> (action: Option<LinkAction>)
        ensures
            (final(self)@, output_of(action)) == old(self)@.lose_link(release_link),
    {
        if self.reconnect {
            self.release(LinkState::Disconnected);
            Some(LinkAction::WaitRetry { release_link, delay_ms: self.params.retry_delay_ms })
        } else {
            self.release(LinkState::ShuttingDown);
            Some(LinkAction::Shutdown { release_link })
        }
    }

    fn connect_to(&mut self, name: String) -> (action: Option<LinkAction>)
        requires
            old(self)@.state == LinkState::Idle || old(self)@.state == LinkState::Discovering,
        ensures
            final(self)@ == (SupervisorState {
                state: LinkState::Connected,
                port: name@,
                ..old(self)@
            }),
            output_of(action) == Some(old(self)@.open_link()),
    {
        proof {
            use_type_invariant(&*self);
        }
        self.port = name;
        self.state = LinkState::Connected;
        Some(
            LinkAction::OpenLink {
                data_rate: self.params.data_rate,
                timeout_ms: self.params.stream_timeout_ms,
            },
        )
    }

    /// Takes an event from the driver and returns the action to perform
    /// next, or `None`, with the state unchanged, where the event is out of
    /// turn.
    pub fn step(&mut self, event: LinkEvent) -> (action: Option<LinkAction>)
        ensures
            (final(self)@, output_of(action)) == old(self)@.transition(event@),
            final(self)@.wf(),
    {
        proof {
            use_type_invariant(&*self);
        }
        let action = match event {
            LinkEvent::Cancel => {
                let release_link = self.link_held;
                self.release(LinkState::ShuttingDown);
                Some(LinkAction::Shutdown { release_link })
            },
            LinkEvent::Start => match self.state {
                LinkState::Idle => {
                    self.state = LinkState::Discovering;
                    Some(LinkAction::Discover)
                },
                _ => None,
            },
            LinkEvent::StartOn(name) => match self.state {
                LinkState::Idle => self.connect_to(name),
                _ => None,
            },
            LinkEvent::DeviceFound(name) => match self.state {
                LinkState::Discovering => self.connect_to(name),
                _ => None,
            },
            LinkEvent::LinkOpened => match self.state {
                LinkState::Connected => if self.link_held {
                    None
                } else {
                    self.link_held = true;
                    Some(LinkAction::SendStart { settle_delay_ms: self.params.settle_delay_ms })
                },
                _ => None,
            },
            LinkEvent::LinkOpenFailed => match self.state {
                LinkState::Connected => if self.link_held {
                    None
                } else {
                    self.lose_link(false)
                },
                _ => None,
            },
            LinkEvent::CommandSent | LinkEvent::CommandFailed => match self.state {
                LinkState::Connected => if self.link_held {
                    assert(self@.pending =~= Seq::<u8>::empty());
                    self.state = LinkState::Streaming;
                    Some(LinkAction::Read)
                } else {
                    None
                },
                _ => None,
            },
            LinkEvent::Bytes(bytes) => match self.state {
                LinkState::Streaming => {
                    let mut decoder = FrameDecoder::new();
                    core::mem::swap(&mut decoder, &mut self.decoder);
                    let samples = decoder.feed(bytes.as_slice());
                    self.decoder = decoder;
                    Some(LinkAction::Deliver(samples))
                },
                _ => None,
            },
            LinkEvent::ReadTimeout => match self.state {
                LinkState::Streaming => Some(LinkAction::Read),
                _ => None,
            },
            LinkEvent::LinkError => match self.state {
                LinkState::Streaming => self.lose_link(true),
                _ => None,
            },
            LinkEvent::RetryElapsed => match self.state {
                LinkState::Disconnected => {
                    self.state = LinkState::Discovering;
                    Some(LinkAction::Discover)
                },
                _ => None,
            },
        };
        proof {
            use_type_invariant(&*self);
        }
        action
    }
}

/// Every transition keeps the state well formed, and none touches the
/// numbers that the supervisor runs with or its policy.
pub proof fn lemma_transition_keeps_wf(state: SupervisorState, input: LinkInput)
    requires
        state.wf(),
    ensures
        state.transition(input).0.wf(),
        state.transition(input).0.params == state.params,
        state.transition(input).0.reconnect == state.reconnect,
{
    if let LinkInput::Bytes(bytes) = input {
        crate::decoder::lemma_scan_end_bounds(state.pending + bytes, 0);
    }
}

/// An event out of turn changes nothing.
pub proof fn lemma_out_of_turn_changes_nothing(state: SupervisorState, input: LinkInput)
    requires
        state.transition(input).1 is None,
    ensures
        state.transition(input).0 == state,
{
}

/// Losing the link while streaming leads back to discovery, where the
/// supervisor reconnects: it becomes disconnected and has the link released
/// and the retry delay waited out, and when the delay is over it is
/// discovering again, with nothing left of the old connection's bytes.
pub proof fn lemma_link_loss_leads_to_discovery(state: SupervisorState)
    requires
        state.state == LinkState::Streaming,
        state.reconnect,
    ensures
        ({
            let (lost, first) = state.transition(LinkInput::LinkError);
            let (again, second) = lost.transition(LinkInput::RetryElapsed);
            &&& lost.state == LinkState::Disconnected
            &&& first == Some(
                LinkOutput::WaitRetry {
                    release_link: true,
                    delay_ms: state.params.retry_delay_ms,
                },
            )
            &&& again.state == LinkState::Discovering
            &&& second == Some(LinkOutput::Discover)
            &&& !again.link_held
            &&& again.pending == Seq::<u8>::empty()
        }),
{
}

/// A read that times out, or that returns bytes, leaves the supervisor
/// streaming with its link.
pub proof fn lemma_reads_keep_streaming(state: SupervisorState, input: LinkInput)
    requires
        state.state == LinkState::Streaming,
        input is ReadTimeout || input is Bytes,
    ensures
        state.transition(input).0.state == LinkState::Streaming,
        state.transition(input).0.link_held == state.link_held,
        state.transition(input).0.port == state.port,
        input is ReadTimeout ==> state.transition(input) == (state, Some(LinkOutput::Read)),
{
}

/// A cancellation is taken in every state: the supervisor shuts down and
/// has the link released exactly if one was held. Once shut down it takes
/// nothing but further cancellations.
pub proof fn lemma_cancel_shuts_down(state: SupervisorState, input: LinkInput)
    ensures
        state.transition(LinkInput::Cancel).0.state == LinkState::ShuttingDown,
        state.transition(LinkInput::Cancel).1 == Some(
            LinkOutput::Shutdown { release_link: state.link_held },
        ),
        !state.transition(LinkInput::Cancel).0.link_held,
        state.state == LinkState::ShuttingDown && !(input is Cancel) ==> state.transition(input)
            == (state, None::<LinkOutput>),
{
}

/// Where the supervisor reconnects, only a cancellation ends the cycle:
/// no other event leads it to shut down, and none leads it back to idle.
pub proof fn lemma_only_cancel_ends(state: SupervisorState, input: LinkInput)
    requires
        state.reconnect,
        !(input is Cancel),
        state.state != LinkState::ShuttingDown,
    ensures
        state.transition(input).0.state != LinkState::ShuttingDown,
        state.transition(input).0.state != LinkState::Idle || state.state == LinkState::Idle,
{
}

/// Where the supervisor does not reconnect, losing the link while streaming
/// ends it: it shuts down and has the link released.
pub proof fn lemma_link_loss_ends_single_run(state: SupervisorState)
    requires
        state.state == LinkState::Streaming,
        !state.reconnect,
    ensures
        state.transition(LinkInput::LinkError).0.state == LinkState::ShuttingDown,
        state.transition(LinkInput::LinkError).1 == Some(
            LinkOutput::Shutdown { release_link: true },
        ),
{
}

} // verus!
