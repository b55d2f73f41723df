//! Device discovery as a state machine. The driver performs each action on
//! the ports and reports what happened; the machine decides what comes next.

use crate::config::LinkParams;
use crate::identity::{accepted, decode_lossy, matches_identity, texts_of, utf8_lossy};
use vstd::prelude::*;
use vstd::string::StringExecFns;

verus! {

/// Where a discovery stands.
#[derive(Clone, Copy, Debug, PartialEq, Eq, Structural)]
pub enum DiscoveryPhase {
    /// Not begun.
    Idle,
    /// Waiting for the candidate ports of a new sweep.
    Enumerating,
    /// Waiting for the candidate under the cursor to open.
    Opening,
    /// Waiting for the identification command to be written.
    Commanding,
    /// Waiting for a read on the candidate under the cursor.
    Listening,
    /// A sweep found no device; waiting out the delay before the next.
    Resting,
    /// The candidate under the cursor answered with an accepted identity.
    Found,
    /// Cancelled by the caller.
    Cancelled,
}

/// What the driver reports to the machine.
#[derive(Debug, PartialEq, Eq)]
pub enum DiscoveryEvent {
    /// The caller asks for a device.
    Begin,
    /// The names of the ports present, in the order to be tried.
    Candidates(Vec<String>),
    /// The candidate opened.
    Opened,
    /// The candidate could not be opened.
    OpenFailed,
    /// The identification command was written.
    CommandSent,
    /// The identification command could not be written.
    CommandFailed,
    /// A read returned `bytes`, `elapsed_ms` after listening began.
    Data { bytes: Vec<u8>, elapsed_ms: u64 },
    /// A read timed out, `elapsed_ms` after listening began.
    Silence { elapsed_ms: u64 },
    /// A read failed otherwise.
    ReadFailed,
    /// The delay between sweeps is over.
    Rested,
    /// The caller gives up.
    Cancel,
}

/// What the machine asks of the driver.
#[derive(Clone, Copy, Debug, PartialEq, Eq, Structural)]
pub enum DiscoveryAction {
    /// List the ports present and report them.
    Enumerate,
    /// Release any candidate held and open the candidate at `index`, at
    /// this data rate and with this read timeout.
    Open { index: usize, data_rate: u32, timeout_ms: u64 },
    /// Write the identification command to the open candidate.
    Identify,
    /// Read from the open candidate.
    Listen,
    /// Release any candidate held and wait this long before the next sweep.
    Rest { delay_ms: u64 },
    /// The candidate at `index` is the device.
    Report { index: usize },
    /// Release any candidate held and stop.
    Halt,
}

/// An event as the transition function sees it.
pub enum ProbeInput {
    Begin,
    Candidates(Seq<Seq<char>>),
    Opened,
    OpenFailed,
    CommandSent,
    CommandFailed,
    Text { text: Seq<char>, elapsed_ms: u64 },
    Silence { elapsed_ms: u64 },
    ReadFailed,
    Rested,
    Cancel,
}

impl ProbeInput {
    /// A list of candidates is no longer than a machine can index.
    pub open spec fn wf(self) -> bool {
        self matches ProbeInput::Candidates(names) ==> names.len() <= usize::MAX
    }
}

impl View for DiscoveryEvent {
    type V = ProbeInput;

    /// Bytes read count as the text that lossy decoding makes of them; a
    /// read of no bytes counts as silence.
    open spec fn view(&self) -> ProbeInput {
        match *self {
            DiscoveryEvent::Begin => ProbeInput::Begin,
            DiscoveryEvent::Candidates(names) => ProbeInput::Candidates(texts_of(names@)),
            DiscoveryEvent::Opened => ProbeInput::Opened,
            DiscoveryEvent::OpenFailed => ProbeInput::OpenFailed,
            DiscoveryEvent::CommandSent => ProbeInput::CommandSent,
            DiscoveryEvent::CommandFailed => ProbeInput::CommandFailed,
            DiscoveryEvent::Data { bytes, elapsed_ms } => if bytes@.len() == 0 {
                ProbeInput::Silence { elapsed_ms }
            } else {
                ProbeInput::Text { text: utf8_lossy(bytes@), elapsed_ms }
            },
            DiscoveryEvent::Silence { elapsed_ms } => ProbeInput::Silence { elapsed_ms },
            DiscoveryEvent::ReadFailed => ProbeInput::ReadFailed,
            DiscoveryEvent::Rested => ProbeInput::Rested,
            DiscoveryEvent::Cancel => ProbeInput::Cancel,
        }
    }
}

/// The state of a discovery.
pub struct DiscoveryState {
    /// Identity markers, one of which a response must contain.
    pub markers: Seq<Seq<char>>,
    /// Rate, timeouts and delays.
    pub params: LinkParams,
    pub phase: DiscoveryPhase,
    /// The candidate ports of the current sweep.
    pub candidates: Seq<Seq<char>>,
    /// Index of the candidate being probed.
    pub cursor: int,
    /// What the candidate under the cursor has answered so far.
    pub response: Seq<char>,
}

impl DiscoveryState {
    /// A candidate is under the cursor.
    pub open spec fn probing(self) -> bool {
        self.phase == DiscoveryPhase::Opening || self.phase == DiscoveryPhase::Commanding
            || self.phase == DiscoveryPhase::Listening || self.phase == DiscoveryPhase::Found
    }

    /// While a candidate is probed the cursor points into the candidates,
    /// which are no more than a machine can index.
    pub open spec fn wf(self) -> bool {
        &&& self.candidates.len() <= usize::MAX
        &&& self.probing() ==> 0 <= self.cursor < self.candidates.len()
    }

    /// The state before discovery begins.
    pub open spec fn initial(markers: Seq<Seq<char>>, params: LinkParams) -> DiscoveryState {
        DiscoveryState {
            markers,
            params,
            phase: DiscoveryPhase::Idle,
            candidates: Seq::empty(),
            cursor: 0,
            response: Seq::empty(),
        }
    }

    /// The action that opens the candidate at `index`.
    pub open spec fn open(self, index: int) -> DiscoveryAction {
        DiscoveryAction::Open {
            index: index as usize,
            data_rate: self.params.data_rate,
            timeout_ms: self.params.probe_timeout_ms,
        }
    }

    /// The action that waits out the delay between sweeps.
    pub open spec fn rest(self) -> DiscoveryAction {
        DiscoveryAction::Rest { delay_ms: self.params.retry_delay_ms }
    }

    /// Gives up the candidate under the cursor: on to the next one, or to
    /// rest where it was the last of the sweep.
    pub open spec fn abandon(self) -> (DiscoveryState, Option<DiscoveryAction>) {
        if self.cursor + 1 < self.candidates.len() {
            (
                DiscoveryState {
                    phase: DiscoveryPhase::Opening,
                    cursor: self.cursor + 1,
                    response: Seq::empty(),
                    ..self
                },
                Some(self.open(self.cursor + 1)),
            )
        } else {
            (
                DiscoveryState { phase: DiscoveryPhase::Resting, response: Seq::empty(), ..self },
                Some(self.rest()),
            )
        }
    }

    /// Listens on while the candidate's time window is open, and gives the
    /// candidate up once it has closed.
    pub open spec fn listen_on(self, elapsed_ms: u64) -> (DiscoveryState, Option<DiscoveryAction>) {
        if elapsed_ms < self.params.probe_window_ms {
            (self, Some(DiscoveryAction::Listen))
        } else {
            self.abandon()
        }
    }

    /// Adds `text` to the response: the candidate is the device as soon as
    /// the response contains a marker, whatever the time.
    pub open spec fn hear(self, text: Seq<char>, elapsed_ms: u64) -> (
        DiscoveryState,
        Option<DiscoveryAction>,
    ) {
        let heard = DiscoveryState { response: self.response + text, ..self };
        if accepted(heard.response, self.markers) {
            (
                DiscoveryState { phase: DiscoveryPhase::Found, ..heard },
                Some(DiscoveryAction::Report { index: self.cursor as usize }),
            )
        } else {
            heard.listen_on(elapsed_ms)
        }
    }

    /// Starts a sweep over `names`.
    pub open spec fn sweep(self, names: Seq<Seq<char>>) -> (
        DiscoveryState,
        Option<DiscoveryAction>,
    ) {
        if names.len() == 0 {
            (
                DiscoveryState {
                    phase: DiscoveryPhase::Resting,
                    candidates: names,
                    cursor: 0,
                    response: Seq::empty(),
                    ..self
                },
                Some(self.rest()),
            )
        } else {
            (
                DiscoveryState {
                    phase: DiscoveryPhase::Opening,
                    candidates: names,
                    cursor: 0,
                    response: Seq::empty(),
                    ..self
                },
                Some(self.open(0)),
            )
        }
    }

    /// The state with another phase.
    pub open spec fn at(self, phase: DiscoveryPhase) -> DiscoveryState {
        DiscoveryState { phase, ..self }
    }

    /// The state after a run of inputs, taken one after the other.
    pub open spec fn run(self, inputs: Seq<ProbeInput>) -> DiscoveryState
        decreases inputs.len(),
    {
        if inputs.len() == 0 {
            self
        } else {
            self.transition(inputs[0]).0.run(inputs.skip(1))
        }
    }

    /// The transition function: the next state and the action asked of the
    /// driver, or the same state and no action where the event is not one
    /// that the phase waits for. A cancellation is taken in every phase.
    pub open spec fn transition(self, input: ProbeInput) -> (
        DiscoveryState,
        Option<DiscoveryAction>,
    ) {
        match (input, self.phase) {
            (ProbeInput::Cancel, _) => (
                self.at(DiscoveryPhase::Cancelled),
                Some(DiscoveryAction::Halt),
            ),
            (ProbeInput::Begin, DiscoveryPhase::Idle) => (
                self.at(DiscoveryPhase::Enumerating),
                Some(DiscoveryAction::Enumerate),
            ),
            (ProbeInput::Candidates(names), DiscoveryPhase::Enumerating) => self.sweep(names),
            (ProbeInput::Opened, DiscoveryPhase::Opening) => (
                self.at(DiscoveryPhase::Commanding),
                Some(DiscoveryAction::Identify),
            ),
            (ProbeInput::OpenFailed, DiscoveryPhase::Opening) => self.abandon(),
            (ProbeInput::CommandSent, DiscoveryPhase::Commanding) => (
                self.at(DiscoveryPhase::Listening),
                Some(DiscoveryAction::Listen),
            ),
            (ProbeInput::CommandFailed, DiscoveryPhase::Commanding) => self.abandon(),
            (ProbeInput::Text { text, elapsed_ms }, DiscoveryPhase::Listening) => self.hear(
                text,
                elapsed_ms,
            ),
            (ProbeInput::Silence { elapsed_ms }, DiscoveryPhase::Listening) => self.listen_on(
                elapsed_ms,
            ),
            (ProbeInput::ReadFailed, DiscoveryPhase::Listening) => self.abandon(),
            (ProbeInput::Rested, DiscoveryPhase::Resting) => (
                self.at(DiscoveryPhase::Enumerating),
                Some(DiscoveryAction::Enumerate),
            ),
            _ => (self, None),
        }
    }
}

/// The discovery machine.
pub struct Discovery {
    markers: Vec<String>,
    params: LinkParams,
    phase: DiscoveryPhase,
    candidates: Vec<String>,
    cursor: usize,
    response: String,
}

impl View for Discovery {
    type V = DiscoveryState;

    closed spec fn view(&self) -> DiscoveryState {
        DiscoveryState {
            markers: texts_of(self.markers@),
            params: self.params,
            phase: self.phase,
            candidates: texts_of(self.candidates@),
            cursor: self.cursor as int,
            response: self.response@,
        }
    }
}

impl Discovery {
    #[verifier::type_invariant]
    spec fn cursor_in_range(&self) -> bool {
        &&& self.candidates.len() == self.candidates@.len()
        &&& self@.probing() ==> self.cursor < self.candidates.len()
    }

    /// A machine that has not begun, with the markers to look for and the
    /// numbers to run with.
    pub fn new(markers: Vec<String>, params: LinkParams) -> (machine: Self)
        ensures
            machine@ == DiscoveryState::initial(texts_of(markers@), params),
            machine@.wf(),
    {
        let machine = Discovery {
            markers,
            params,
            phase: DiscoveryPhase::Idle,
            candidates: Vec::new(),
            cursor: 0,
            response: String::new(),
        };
        assert(machine@.candidates =~= Seq::<Seq<char>>::empty());
        assert(machine.candidates.len() == 0);
        machine
    }

    /// The phase the machine is in.
    pub fn phase(&self) -> (phase: DiscoveryPhase)
        ensures
            phase == self@.phase,
    {
        self.phase
    }

    /// Index of the candidate being probed.
    pub fn cursor(&self) -> (cursor: usize)
        ensures
            cursor == self@.cursor,
            self@.wf(),
    {
        proof {
            use_type_invariant(self);
        }
        self.cursor
    }

    /// Number of candidates in the current sweep.
    pub fn candidate_count(&self) -> (count: usize)
        ensures
            count == self@.candidates.len(),
    {
        self.candidates.len()
    }

    /// The name of the candidate at `index`, if there is one.
    pub fn candidate(&self, index: usize) -> (name: Option<&String>)
        ensures
            name is Some <==> index < self@.candidates.len(),
            name matches Some(n) ==> n@ == self@.candidates[index as int],
    {
        if index < self.candidates.len() {
            Some(&self.candidates[index])
        } else {
            None
        }
    }

    /// The name of the device, once found.
    pub fn found_port(&self) -> (name: Option<&String>)
        ensures
            name is Some <==> self@.phase == DiscoveryPhase::Found,
            name matches Some(n) ==> 0 <= self@.cursor < self@.candidates.len() && n@
                == self@.candidates[self@.cursor],
    {
        proof {
            use_type_invariant(self);
        }
        match self.phase {
            DiscoveryPhase::Found => Some(&self.candidates[self.cursor]),
            _ => None,
        }
    }

    /// What the candidate under the cursor has answered so far.
    pub fn response(&self) -> (text: &String)
        ensures
            text@ == self@.response,
    {
        &self.response
    }

    fn open_action(&self, index: usize) -> (action: DiscoveryAction)
        ensures
            action == self@.open(index as int),
    {
        DiscoveryAction::Open {
            index,
            data_rate: self.params.data_rate,
            timeout_ms: self.params.probe_timeout_ms,
        }
    }

    fn abandon(&mut self) -> (action: Option<DiscoveryAction>)
        ensures
            (final(self)@, action) == old(self)@.abandon(),
    {
        proof {
            use_type_invariant(&*self);
        }
        self.response = String::new();
        let count = self.candidates.len();
        if self.cursor < count && self.cursor + 1 < count {
            self.phase = DiscoveryPhase::Resting;
            self.cursor = self.cursor + 1;
            self.phase = DiscoveryPhase::Opening;
            Some(self.open_action(self.cursor))
        } else {
            self.phase = DiscoveryPhase::Resting;
            Some(DiscoveryAction::Rest { delay_ms: self.params.retry_delay_ms })
        }
    }

    fn listen_on(&mut self, elapsed_ms: u64) -> (action: Option<DiscoveryAction>)
        ensures
            (final(self)@, action) == old(self)@.listen_on(elapsed_ms),
    {
        if elapsed_ms < self.params.probe_window_ms {
            Some(DiscoveryAction::Listen)
        } else {
            self.abandon()
        }
    }

    /// Takes `text` as read from the candidate under the cursor, `elapsed_ms`
    /// after listening began. Out of turn unless the machine is listening.
    pub fn hear(&mut self, text: &str, elapsed_ms: u64) -> (action: Option<DiscoveryAction>)
        ensures
            (final(self)@, action) == old(self)@.transition(
                ProbeInput::Text { text: text@, elapsed_ms },
            ),
            final(self)@.wf(),
    {
        proof {
            use_type_invariant(&*self);
        }
        let action = match self.phase {
            DiscoveryPhase::Listening => {
                self.response = self.response.clone().concat(text);
                if matches_identity(self.response.as_str(), &self.markers) {
                    self.phase = DiscoveryPhase::Found;
                    Some(DiscoveryAction::Report { index: self.cursor })
                } else {
                    self.listen_on(elapsed_ms)
                }
            },
            _ => None,
        };
        proof {
            use_type_invariant(&*self);
        }
        action
    }

    fn sweep(&mut self, names: Vec<String>) -> (action: Option<DiscoveryAction>)
        ensures
            (final(self)@, action) == old(self)@.sweep(texts_of(names@)),
    {
        self.phase = DiscoveryPhase::Resting;
        self.response = String::new();
        self.cursor = 0;
        self.candidates = names;
        if self.candidates.len() == 0 {
            Some(DiscoveryAction::Rest { delay_ms: self.params.retry_delay_ms })
        } else {
            self.phase = DiscoveryPhase::Opening;
            Some(self.open_action(0))
        }
    }

    /// Takes an event from the driver and returns the action to perform
    /// next, or `None`, with the state unchanged, where the event is out of
    /// turn.
    pub fn step(&mut self, event: DiscoveryEvent) -> (action: Option<DiscoveryAction>)
        ensures
            (final(self)@, action) == old(self)@.transition(event@),
            final(self)@.wf(),
    {
        let action = match event {
            DiscoveryEvent::Cancel => {
                self.phase = DiscoveryPhase::Cancelled;
                Some(DiscoveryAction::Halt)
            },
            DiscoveryEvent::Begin => match self.phase {
                DiscoveryPhase::Idle => {
                    self.phase = DiscoveryPhase::Enumerating;
                    Some(DiscoveryAction::Enumerate)
                },
                _ => None,
            },
            DiscoveryEvent::Candidates(names) => match self.phase {
                DiscoveryPhase::Enumerating => self.sweep(names),
                _ => None,
            },
            DiscoveryEvent::Opened => match self.phase {
                DiscoveryPhase::Opening => {
                    proof {
                        use_type_invariant(&*self);
                    }
                    self.phase = DiscoveryPhase::Commanding;
                    Some(DiscoveryAction::Identify)
                },
                _ => None,
            },
            DiscoveryEvent::OpenFailed => match self.phase {
                DiscoveryPhase::Opening => self.abandon(),
                _ => None,
            },
            DiscoveryEvent::CommandSent => match self.phase {
                DiscoveryPhase::Commanding => {
                    proof {
                        use_type_invariant(&*self);
                    }
                    self.phase = DiscoveryPhase::Listening;
                    Some(DiscoveryAction::Listen)
                },
                _ => None,
            },
            DiscoveryEvent::CommandFailed => match self.phase {
                DiscoveryPhase::Commanding => self.abandon(),
                _ => None,
            },
            DiscoveryEvent::Data { bytes, elapsed_ms } => match self.phase {
                DiscoveryPhase::Listening => {
                    if bytes.len() == 0 {
                        self.listen_on(elapsed_ms)
                    } else {
                        let text = decode_lossy(bytes.as_slice());
                        self.hear(text.as_str(), elapsed_ms)
                    }
                },
                _ => None,
            },
            DiscoveryEvent::Silence { elapsed_ms } => match self.phase {
                DiscoveryPhase::Listening => self.listen_on(elapsed_ms),
                _ => None,
            },
            DiscoveryEvent::ReadFailed => match self.phase {
                DiscoveryPhase::Listening => self.abandon(),
                _ => None,
            },
            DiscoveryEvent::Rested => match self.phase {
                DiscoveryPhase::Resting => {
                    self.phase = DiscoveryPhase::Enumerating;
                    Some(DiscoveryAction::Enumerate)
                },
                _ => None,
            },
        };
        proof {
            use_type_invariant(&*self);
        }
        action
    }
}

/// Every transition keeps the state well formed, and none touches the
/// markers or the numbers that the machine runs with.
pub proof fn lemma_transition_keeps_wf(state: DiscoveryState, input: ProbeInput)
    requires
        state.wf(),
        input.wf(),
    ensures
        state.transition(input).0.wf(),
        state.transition(input).0.markers == state.markers,
        state.transition(input).0.params == state.params,
{
}

/// An event out of turn changes nothing.
pub proof fn lemma_out_of_turn_changes_nothing(state: DiscoveryState, input: ProbeInput)
    requires
        state.transition(input).1 is None,
    ensures
        state.transition(input).0 == state,
{
}

/// A sweep never goes back: a new list of candidates is opened at its first
/// entry, and within a sweep the only candidate ever opened is the one right
/// behind the candidate under the cursor, which the cursor then points at.
/// The list of candidates changes only with a new sweep.
pub proof fn lemma_sweep_moves_forward(state: DiscoveryState, input: ProbeInput)
    requires
        state.wf(),
        input.wf(),
    ensures
        ({
            let (next, action) = state.transition(input);
            &&& action matches Some(DiscoveryAction::Open { index, data_rate, timeout_ms }) ==> {
                &&& next.phase == DiscoveryPhase::Opening
                &&& next.cursor == index
                &&& data_rate == state.params.data_rate
                &&& timeout_ms == state.params.probe_timeout_ms
                &&& next.response == Seq::<char>::empty()
                &&& if input is Candidates {
                    index == 0
                } else {
                    state.probing() && index == state.cursor + 1
                }
            }
            &&& !(action matches Some(DiscoveryAction::Open { .. })) && !(input is Candidates)
                ==> next.cursor == state.cursor
            &&& !(input is Candidates) ==> next.candidates == state.candidates
        }),
{
}

/// A candidate is reported exactly when the machine passes to `Found`, which
/// it does only from listening, for the candidate under the cursor, and on a
/// response that contains one of the markers.
pub proof fn lemma_report_means_match(state: DiscoveryState, input: ProbeInput)
    requires
        state.wf(),
    ensures
        ({
            let (next, action) = state.transition(input);
            &&& action matches Some(DiscoveryAction::Report { index }) ==> {
                &&& state.phase == DiscoveryPhase::Listening
                &&& next.phase == DiscoveryPhase::Found
                &&& index == state.cursor
                &&& next.cursor == state.cursor
                &&& accepted(next.response, state.markers)
            }
            &&& next.phase == DiscoveryPhase::Found && state.phase != DiscoveryPhase::Found
                ==> action matches Some(DiscoveryAction::Report { .. })
        }),
{
}

/// Once a device is found or the discovery is cancelled, it is over: the
/// machine takes nothing more but a cancellation.
pub proof fn lemma_found_and_cancelled_are_final(state: DiscoveryState, input: ProbeInput)
    requires
        state.phase == DiscoveryPhase::Found || state.phase == DiscoveryPhase::Cancelled,
        !(input is Cancel),
    ensures
        state.transition(input) == (state, None::<DiscoveryAction>),
{
}

/// Within one sweep, that is over any run of inputs that brings no new list
/// of candidates, the machine keeps its candidates and its cursor never goes
/// back: no candidate is visited again once the machine has passed it.
pub proof fn lemma_cursor_never_goes_back(state: DiscoveryState, inputs: Seq<ProbeInput>)
    requires
        state.wf(),
        forall|i: int| 0 <= i < inputs.len() ==> !(#[trigger] inputs[i] is Candidates),
    ensures
        state.run(inputs).wf(),
        state.run(inputs).candidates == state.candidates,
        state.run(inputs).cursor >= state.cursor,
    decreases inputs.len(),
{
    if inputs.len() > 0 {
        let next = state.transition(inputs[0]).0;
        lemma_transition_keeps_wf(state, inputs[0]);
        lemma_sweep_moves_forward(state, inputs[0]);
        assert forall|i: int| 0 <= i < inputs.skip(1).len() implies !(#[trigger] inputs.skip(
            1,
        )[i] is Candidates) by {
            assert(inputs.skip(1)[i] == inputs[i + 1]);
        }
        lemma_cursor_never_goes_back(next, inputs.skip(1));
    }
}

/// A candidate whose response contains no marker when its time window has
/// closed is given up: the machine never reports it, and never listens on.
pub proof fn lemma_window_closes(state: DiscoveryState, input: ProbeInput)
    requires
        state.phase == DiscoveryPhase::Listening,
        match input {
            ProbeInput::Text { text, elapsed_ms } => elapsed_ms >= state.params.probe_window_ms
                && !accepted(state.response + text, state.markers),
            ProbeInput::Silence { elapsed_ms } => elapsed_ms >= state.params.probe_window_ms,
            _ => false,
        },
    ensures
        ({
            let (next, action) = state.transition(input);
            &&& next.phase == DiscoveryPhase::Opening || next.phase == DiscoveryPhase::Resting
            &&& action == Some(state.rest()) <==> state.cursor + 1 >= state.candidates.len()
            &&& action == Some(state.open(state.cursor + 1)) <==> state.cursor + 1
                < state.candidates.len()
        }),
{
}

} // verus!
