//! The command exchange: one request, up to three attempts, one verdict.
//!
//! The library does no I/O. An [`Exchange`] is the state of one exchange; it
//! says what to do next as an [`Action`], and the caller reports what came of
//! it as an [`Event`].

use crate::razer::{
    decode, decode_frame, PacketView, RazerCmdStatus, RazerError, RazerPacket, FRAME_LEN, REPORT_LEN,
};
use vstd::prelude::*;

verus! {

/// The most attempts that one exchange makes.
pub const MAX_ATTEMPTS: u8 = 3;

/// Pause after a busy answer, in microseconds, on top of the command delay.
pub const BUSY_BACKOFF_MICROS: u64 = 1000;

/// Pause between a feature report going out and its answer being read, in
/// microseconds.
pub const FEATURE_REPORT_DELAY_MICROS: u64 = 400;

/// How frames reach the device.
#[derive(Debug, Copy, Clone, PartialEq, Eq, Structural)]
pub enum Transport {
    /// HID feature reports: 91 bytes, report index first.
    FeatureReport,
    /// USB control transfers: the bare 90-byte frame.
    ControlTransfer,
}

impl Transport {
    /// The fixed size of every frame on this transport.
    pub open spec fn spec_frame_len(self) -> usize {
        match self {
            Transport::FeatureReport => REPORT_LEN,
            Transport::ControlTransfer => FRAME_LEN,
        }
    }

    /// The bytes that carry `p` on this transport.
    pub open spec fn wire(self, p: PacketView) -> Seq<u8> {
        match self {
            Transport::FeatureReport => p.report(),
            Transport::ControlTransfer => p.frame(),
        }
    }

    /// The packet that `bytes` carry on this transport: none where the length
    /// is not the transport's frame length or the status byte stands for no
    /// status.
    pub open spec fn unwire(self, bytes: Seq<u8>) -> Option<PacketView> {
        if bytes.len() != self.spec_frame_len() {
            None
        } else {
            match self {
                Transport::FeatureReport => decode(bytes),
                Transport::ControlTransfer => decode_frame(0, bytes),
            }
        }
    }

    /// The fixed size of every frame on this transport.
    pub fn frame_len(self) -> (n: usize)
        ensures
            n == self.spec_frame_len(),
    {
        match self {
            Transport::FeatureReport => REPORT_LEN,
            Transport::ControlTransfer => FRAME_LEN,
        }
    }

    /// Writes `p` as this transport sends it.
    pub fn encode(self, p: &RazerPacket) -> (bytes: Vec<u8>)
        ensures
            bytes@ == self.wire(p@),
            bytes@.len() == self.spec_frame_len(),
    {
        let mut out: Vec<u8> = Vec::new();
        match self {
            Transport::FeatureReport => {
                let raw = p.create_packet();
                let mut i: usize = 0;
                while i < 91
                    invariant
                        i <= 91,
                        out@ == raw@.subrange(0, i as int),
                    decreases 91 - i,
                {
                    out.push(raw[i]);
                    i += 1;
                }
                assert(out@ =~= raw@);
            },
            Transport::ControlTransfer => {
                let raw = p.create_frame();
                let mut i: usize = 0;
                while i < 90
                    invariant
                        i <= 90,
                        out@ == raw@.subrange(0, i as int),
                    decreases 90 - i,
                {
                    out.push(raw[i]);
                    i += 1;
                }
                assert(out@ =~= raw@);
            },
        }
        out
    }

    /// Reads the packet that `bytes` carry on this transport.
    pub fn decode(self, bytes: &[u8]) -> (p: Option<RazerPacket>)
        ensures
            match p {
                Some(packet) => self.unwire(bytes@) == Some(packet@),
                None => self.unwire(bytes@) is None,
            },
    {
        if bytes.len() != self.frame_len() {
            return None;
        }
        match self {
            Transport::FeatureReport => {
                let mut raw = [0u8; 91];
                let mut i: usize = 0;
                while i < 91
                    invariant
                        i <= 91,
                        bytes@.len() == 91,
                        forall|j: int| 0 <= j < i ==> raw@[j] == bytes@[j],
                    decreases 91 - i,
                {
                    raw[i] = bytes[i];
                    i += 1;
                }
                assert(raw@ =~= bytes@);
                RazerPacket::from_raw(&raw)
            },
            Transport::ControlTransfer => {
                let mut raw = [0u8; 90];
                let mut i: usize = 0;
                while i < 90
                    invariant
                        i <= 90,
                        bytes@.len() == 90,
                        forall|j: int| 0 <= j < i ==> raw@[j] == bytes@[j],
                    decreases 90 - i,
                {
                    raw[i] = bytes[i];
                    i += 1;
                }
                assert(raw@ =~= bytes@);
                RazerPacket::from_frame(0, &raw)
            },
        }
    }
}

/// Where an exchange stands.
#[derive(Debug, Copy, Clone, PartialEq, Eq, Structural)]
pub enum Phase {
    /// The request is being written.
    Sending,
    /// The request went out; the command delay runs before the read.
    Settling,
    /// The write failed; the command delay runs before the next attempt.
    Recovering,
    /// The answer is being read.
    Receiving,
    /// The device was busy; the backoff runs before the next attempt.
    BackingOff,
    /// The verdict is in.
    Finished,
}

/// What the caller is to do next.
#[derive(Debug, PartialEq, Eq)]
pub enum Action {
    /// Write these bytes to the device, then report `Sent` or `SendFailed`.
    Send(Vec<u8>),
    /// Sleep this many microseconds, then report `Slept`.
    Sleep(u64),
    /// Read one frame from the device, then report `Received` or
    /// `ReceiveFailed`.
    Receive,
    /// Nothing more: the exchange ended with this result.
    Done(Result<RazerPacket, RazerError>),
}

/// What came of the last action.
#[derive(Debug, PartialEq, Eq)]
pub enum Event {
    /// The write went through.
    Sent,
    /// The transport refused the write.
    SendFailed(RazerError),
    /// The pause is over.
    Slept,
    /// The read returned: the byte count the transport reported, and the
    /// read buffer.
    Received(usize, Vec<u8>),
    /// The transport refused the read.
    ReceiveFailed(RazerError),
}

/// An action as plain values.
pub enum ActionView {
    Send(Seq<u8>),
    Sleep(u64),
    Receive,
    Done(Result<PacketView, RazerError>),
}

/// An event as plain values.
pub enum EventView {
    Sent,
    SendFailed(RazerError),
    Slept,
    Received(usize, Seq<u8>),
    ReceiveFailed(RazerError),
}

impl View for Action {
    type V = ActionView;

    open spec fn view(&self) -> ActionView {
        match *self {
            Action::Send(bytes) => ActionView::Send(bytes@),
            Action::Sleep(micros) => ActionView::Sleep(micros),
            Action::Receive => ActionView::Receive,
            Action::Done(Ok(p)) => ActionView::Done(Ok(p@)),
            Action::Done(Err(e)) => ActionView::Done(Err(e)),
        }
    }
}

impl View for Event {
    type V = EventView;

    open spec fn view(&self) -> EventView {
        match *self {
            Event::Sent => EventView::Sent,
            Event::SendFailed(e) => EventView::SendFailed(e),
            Event::Slept => EventView::Slept,
            Event::Received(count, bytes) => EventView::Received(count, bytes@),
            Event::ReceiveFailed(e) => EventView::ReceiveFailed(e),
        }
    }
}

/// The state of one exchange as plain values.
pub struct ExchangeView {
    /// The request that every attempt sends.
    pub request: PacketView,
    pub transport: Transport,
    /// Pause between write and read, in microseconds.
    pub delay_micros: u64,
    /// Attempts begun so far, this one included.
    pub attempts: u8,
    /// The error that the exchange ends with if no attempt succeeds.
    pub last_error: RazerError,
    pub phase: Phase,
    /// The answer that ended the exchange, if one did.
    pub response: Option<PacketView>,
}

impl ExchangeView {
    /// The state in which an exchange begins: first attempt, request not yet
    /// written. An exchange whose reads all come back short ends in
    /// `ECTimeout`.
    pub open spec fn start(request: PacketView, transport: Transport, delay_micros: u64) -> Self {
        ExchangeView {
            request,
            transport,
            delay_micros,
            attempts: 1,
            last_error: RazerError::ECTimeout,
            phase: Phase::Sending,
            response: None,
        }
    }

    /// The action that this state waits on.
    pub open spec fn pending(self) -> ActionView {
        match self.phase {
            Phase::Sending => ActionView::Send(self.transport.wire(self.request)),
            Phase::Settling => ActionView::Sleep(self.delay_micros),
            Phase::Recovering => ActionView::Sleep(self.delay_micros),
            Phase::Receiving => ActionView::Receive,
            Phase::BackingOff => ActionView::Sleep(BUSY_BACKOFF_MICROS),
            Phase::Finished => match self.response {
                Some(p) => ActionView::Done(Ok(p)),
                None => ActionView::Done(Err(self.last_error)),
            },
        }
    }

    /// The state after an attempt failed: the next attempt while there is
    /// one, the end otherwise.
    pub open spec fn retry(self) -> Self {
        if self.attempts >= MAX_ATTEMPTS {
            ExchangeView { phase: Phase::Finished, ..self }
        } else {
            ExchangeView { attempts: (self.attempts + 1) as u8, phase: Phase::Sending, ..self }
        }
    }

    /// The state after an attempt failed with `e`.
    pub open spec fn fail(self, e: RazerError) -> Self {
        (ExchangeView { last_error: e, ..self }).retry()
    }

    /// Whether `answer` ends the exchange in success: it answers the request
    /// and reports the command as done.
    pub open spec fn accepts(self, answer: PacketView) -> bool {
        self.request.is_same(answer) && answer.status == RazerCmdStatus::Successful
    }

    /// The error that an answer which does not end the exchange stands for.
    pub open spec fn fault_of(self, answer: PacketView) -> RazerError {
        if !self.request.is_same(answer) {
            RazerError::InvalidResponse
        } else {
            match answer.status {
                RazerCmdStatus::Busy => RazerError::ECBusy,
                RazerCmdStatus::Failure => RazerError::ECFailure,
                RazerCmdStatus::Timeout => RazerError::ECTimeout,
                RazerCmdStatus::NotSupported => RazerError::CmdNotSupported,
                _ => RazerError::InvalidResponse,
            }
        }
    }

    /// The state after a read of `count` bytes into `bytes`.
    pub open spec fn judge(self, count: usize, bytes: Seq<u8>) -> Self {
        if count != self.transport.spec_frame_len() || bytes.len()
            != self.transport.spec_frame_len() {
            // a short read: try again, the recorded error stays
            self.retry()
        } else {
            match self.transport.unwire(bytes) {
                None => self.fail(RazerError::InvalidResponse),
                Some(answer) => if self.accepts(answer) {
                    ExchangeView { phase: Phase::Finished, response: Some(answer), ..self }
                } else if self.request.is_same(answer) && answer.status == RazerCmdStatus::Busy {
                    ExchangeView {
                        last_error: RazerError::ECBusy,
                        phase: Phase::BackingOff,
                        ..self
                    }
                } else {
                    self.fail(self.fault_of(answer))
                },
            }
        }
    }

    /// The state after `event`. An event that the state does not wait for
    /// changes nothing.
    pub open spec fn next(self, event: EventView) -> Self {
        match (self.phase, event) {
            (Phase::Sending, EventView::Sent) => ExchangeView { phase: Phase::Settling, ..self },
            (Phase::Sending, EventView::SendFailed(e)) => ExchangeView {
                last_error: e,
                phase: Phase::Recovering,
                ..self
            },
            (Phase::Settling, EventView::Slept) => ExchangeView { phase: Phase::Receiving, ..self },
            (Phase::Recovering, EventView::Slept) => self.retry(),
            (Phase::BackingOff, EventView::Slept) => self.retry(),
            (Phase::Receiving, EventView::ReceiveFailed(e)) => self.fail(e),
            (Phase::Receiving, EventView::Received(count, bytes)) => self.judge(count, bytes),
            _ => self,
        }
    }
}

impl ExchangeView {
    /// Whether the state waits for `event`.
    pub open spec fn awaits(self, event: EventView) -> bool {
        match self.phase {
            Phase::Sending => event is Sent || event is SendFailed,
            Phase::Settling => event is Slept,
            Phase::Recovering => event is Slept,
            Phase::BackingOff => event is Slept,
            Phase::Receiving => event is Received || event is ReceiveFailed,
            Phase::Finished => false,
        }
    }

    /// The state after all of `events`, in order.
    pub open spec fn run(self, events: Seq<EventView>) -> Self
        decreases events.len(),
    {
        if events.len() == 0 {
            self
        } else {
            self.run(events.drop_last()).next(events.last())
        }
    }

    /// Whether every one of `events` is waited for by the state it meets.
    pub open spec fn conforming(self, events: Seq<EventView>) -> bool
        decreases events.len(),
    {
        if events.len() == 0 {
            true
        } else {
            self.conforming(events.drop_last()) && self.run(events.drop_last()).awaits(
                events.last(),
            )
        }
    }

    /// Number of writes asked for from this state on, while `events` come in:
    /// one for each state met that asks for a write.
    pub open spec fn writes(self, events: Seq<EventView>) -> nat
        decreases events.len(),
    {
        if events.len() == 0 {
            if self.phase == Phase::Sending {
                1
            } else {
                0
            }
        } else {
            self.writes(events.drop_last()) + if self.run(events).phase == Phase::Sending {
                1nat
            } else {
                0nat
            }
        }
    }

    /// Number of reads asked for from this state on, while `events` come in.
    pub open spec fn reads(self, events: Seq<EventView>) -> nat
        decreases events.len(),
    {
        if events.len() == 0 {
            if self.phase == Phase::Receiving {
                1
            } else {
                0
            }
        } else {
            self.reads(events.drop_last()) + if self.run(events).phase == Phase::Receiving {
                1nat
            } else {
                0nat
            }
        }
    }

    /// Number of command delays asked for from this state on, while
    /// `events` come in.
    pub open spec fn delays(self, events: Seq<EventView>) -> nat
        decreases events.len(),
    {
        if events.len() == 0 {
            if self.phase == Phase::Settling || self.phase == Phase::Recovering {
                1
            } else {
                0
            }
        } else {
            self.delays(events.drop_last()) + if self.run(events).phase == Phase::Settling
                || self.run(events).phase == Phase::Recovering {
                1nat
            } else {
                0nat
            }
        }
    }

    /// Whether one of `events` is a full read of an answer that this state
    /// accepts, namely of `answer`.
    pub open spec fn earned(self, events: Seq<EventView>, answer: PacketView) -> bool {
        exists|i: int|
            0 <= i < events.len() && (#[trigger] events[i] matches EventView::Received(
                count,
                bytes,
            ) && count == self.transport.spec_frame_len() && self.transport.unwire(bytes) == Some(
                answer,
            ))
    }
}

/// An exchange never begins a fourth attempt, whatever is reported to it, and
/// never changes its request, its transport or its delay.
pub proof fn lemma_attempts_bounded(
    request: PacketView,
    transport: Transport,
    delay_micros: u64,
    events: Seq<EventView>,
)
    ensures
        1 <= ExchangeView::start(request, transport, delay_micros).run(events).attempts
            <= MAX_ATTEMPTS,
        ExchangeView::start(request, transport, delay_micros).run(events).request == request,
        ExchangeView::start(request, transport, delay_micros).run(events).transport == transport,
        ExchangeView::start(request, transport, delay_micros).run(events).delay_micros
            == delay_micros,
    decreases events.len(),
{
    if events.len() > 0 {
        lemma_attempts_bounded(request, transport, delay_micros, events.drop_last());
    }
}

proof fn lemma_reads_follow_writes(start: ExchangeView, events: Seq<EventView>)
    requires
        start.phase == Phase::Sending,
        start.attempts == 1,
        start.conforming(events),
    ensures
        start.writes(events) == start.run(events).attempts,
        start.run(events).attempts <= MAX_ATTEMPTS,
        start.reads(events) <= start.writes(events),
        (start.run(events).phase == Phase::Sending || start.run(events).phase == Phase::Settling
            || start.run(events).phase == Phase::Recovering) ==> start.reads(events)
            < start.writes(events),
        start.delays(events) == (if start.run(events).phase == Phase::Sending {
            start.writes(events) - 1
        } else {
            start.writes(events) as int
        }),
    decreases events.len(),
{
    if events.len() > 0 {
        lemma_reads_follow_writes(start, events.drop_last());
    }
}

/// While the caller reports what was asked for, an exchange asks for at most
/// three writes, one for each attempt begun, and for no more reads than
/// writes.
pub proof fn lemma_at_most_three_attempts(
    request: PacketView,
    transport: Transport,
    delay_micros: u64,
    events: Seq<EventView>,
)
    requires
        ExchangeView::start(request, transport, delay_micros).conforming(events),
    ensures
        ExchangeView::start(request, transport, delay_micros).writes(events)
            == ExchangeView::start(request, transport, delay_micros).run(events).attempts,
        ExchangeView::start(request, transport, delay_micros).writes(events) <= 3,
        ExchangeView::start(request, transport, delay_micros).reads(events)
            <= ExchangeView::start(request, transport, delay_micros).writes(events),
{
    lemma_reads_follow_writes(ExchangeView::start(request, transport, delay_micros), events);
}

/// While the caller reports what was asked for, every write is followed by
/// the command delay, once, whether the write went through or not: when the
/// exchange has ended, it has asked for as many delays as writes.
pub proof fn lemma_one_delay_per_attempt(
    request: PacketView,
    transport: Transport,
    delay_micros: u64,
    events: Seq<EventView>,
)
    requires
        ExchangeView::start(request, transport, delay_micros).conforming(events),
        ExchangeView::start(request, transport, delay_micros).run(events).phase
            == Phase::Finished,
    ensures
        ExchangeView::start(request, transport, delay_micros).delays(events)
            == ExchangeView::start(request, transport, delay_micros).writes(events),
{
    lemma_reads_follow_writes(ExchangeView::start(request, transport, delay_micros), events);
}

/// An exchange ends in `Ok` only with an answer that some full read brought,
/// that answers the request and that reports success; and then the result
/// is that answer.
pub proof fn lemma_success_is_earned(
    request: PacketView,
    transport: Transport,
    delay_micros: u64,
    events: Seq<EventView>,
)
    ensures
        ExchangeView::start(request, transport, delay_micros).run(events).pending() matches ActionView::Done(
            Ok(answer),
        ) ==> {
            &&& request.is_same(answer)
            &&& answer.status == RazerCmdStatus::Successful
            &&& ExchangeView::start(request, transport, delay_micros).earned(events, answer)
        },
        ExchangeView::start(request, transport, delay_micros).run(events).response matches Some(
            answer,
        ) ==> {
            &&& ExchangeView::start(request, transport, delay_micros).run(events).phase
                == Phase::Finished
            &&& request.is_same(answer)
            &&& answer.status == RazerCmdStatus::Successful
            &&& ExchangeView::start(request, transport, delay_micros).earned(events, answer)
        },
    decreases events.len(),
{
    let s0 = ExchangeView::start(request, transport, delay_micros);
    lemma_attempts_bounded(request, transport, delay_micros, events);
    if events.len() > 0 {
        let before = events.drop_last();
        lemma_success_is_earned(request, transport, delay_micros, before);
        lemma_attempts_bounded(request, transport, delay_micros, before);
        let s = s0.run(before);
        let t = s0.run(events);
        if t.response is Some {
            let answer = t.response->0;
            if s.response == Some(answer) {
                let i = choose|i: int|
                    0 <= i < before.len() && (#[trigger] before[i] matches EventView::Received(
                        count,
                        bytes,
                    ) && count == transport.spec_frame_len() && transport.unwire(bytes) == Some(
                        answer,
                    ));
                assert(events[i] == before[i]);
            } else {
                assert(events[events.len() - 1] is Received);
            }
        }
    }
}

/// One exchange in progress.
#[derive(Debug)]
pub struct Exchange {
    request: RazerPacket,
    transport: Transport,
    delay_micros: u64,
    attempts: u8,
    last_error: RazerError,
    phase: Phase,
    response: Option<RazerPacket>,
}

impl View for Exchange {
    type V = ExchangeView;

    closed spec fn view(&self) -> ExchangeView {
        ExchangeView {
            request: self.request@,
            transport: self.transport,
            delay_micros: self.delay_micros,
            attempts: self.attempts,
            last_error: self.last_error,
            phase: self.phase,
            response: match self.response {
                Some(p) => Some(p@),
                None => None,
            },
        }
    }
}

impl Exchange {
    /// Begins an exchange and says what to do first: write the request.
    pub fn start(request: RazerPacket, transport: Transport, delay_micros: u64) -> (r: (
        Exchange,
        Action,
    ))
        ensures
            r.0@ == ExchangeView::start(request@, transport, delay_micros),
            r.1@ == r.0@.pending(),
    {
        let exchange = Exchange {
            request,
            transport,
            delay_micros,
            attempts: 1,
            last_error: RazerError::ECTimeout,
            phase: Phase::Sending,
            response: None,
        };
        let action = exchange.pending();
        (exchange, action)
    }

    /// The action that the exchange waits on.
    pub fn pending(&self) -> (action: Action)
        ensures
            action@ == self@.pending(),
    {
        match self.phase {
            Phase::Sending => Action::Send(self.transport.encode(&self.request)),
            Phase::Settling => Action::Sleep(self.delay_micros),
            Phase::Recovering => Action::Sleep(self.delay_micros),
            Phase::Receiving => Action::Receive,
            Phase::BackingOff => Action::Sleep(BUSY_BACKOFF_MICROS),
            Phase::Finished => match self.response {
                Some(p) => Action::Done(Ok(p)),
                None => Action::Done(Err(self.last_error.duplicate())),
            },
        }
    }

    /// Attempts begun so far.
    pub fn attempts(&self) -> (n: u8)
        ensures
            n == self@.attempts,
    {
        self.attempts
    }

    /// Whether the verdict is in.
    pub fn is_finished(&self) -> (done: bool)
        ensures
            done == (self@.phase == Phase::Finished),
    {
        match self.phase {
            Phase::Finished => true,
            _ => false,
        }
    }

    fn retry(&mut self)
        ensures
            final(self)@ == old(self)@.retry(),
    {
        if self.attempts >= MAX_ATTEMPTS {
            self.phase = Phase::Finished;
        } else {
            self.attempts = self.attempts + 1;
            self.phase = Phase::Sending;
        }
    }

    fn judge(&mut self, count: usize, bytes: &Vec<u8>)
        ensures
            final(self)@ == old(self)@.judge(count, bytes@),
    {
        let want = self.transport.frame_len();
        if count != want || bytes.len() != want {
            self.retry();
            return ;
        }
        match self.transport.decode(bytes.as_slice()) {
            None => {
                self.last_error = RazerError::InvalidResponse;
                self.retry();
            },
            Some(answer) => {
                if !self.request.is_same(&answer) {
                    self.last_error = RazerError::InvalidResponse;
                    self.retry();
                } else {
                    match answer.status {
                        RazerCmdStatus::Successful => {
                            self.response = Some(answer);
                            self.phase = Phase::Finished;
                        },
                        RazerCmdStatus::Busy => {
                            self.last_error = RazerError::ECBusy;
                            self.phase = Phase::BackingOff;
                        },
                        RazerCmdStatus::Failure => {
                            self.last_error = RazerError::ECFailure;
                            self.retry();
                        },
                        RazerCmdStatus::Timeout => {
                            self.last_error = RazerError::ECTimeout;
                            self.retry();
                        },
                        RazerCmdStatus::NotSupported => {
                            self.last_error = RazerError::CmdNotSupported;
                            self.retry();
                        },
                        RazerCmdStatus::New => {
                            self.last_error = RazerError::InvalidResponse;
                            self.retry();
                        },
                    }
                }
            },
        }
    }

    /// Takes in what came of the last action and says what to do next.
    pub fn step(self, event: Event) -> (r: (Exchange, Action))
        ensures
            r.0@ == self@.next(event@),
            r.1@ == r.0@.pending(),
    {
        let mut exchange = self;
        match event {
            Event::Sent => {
                if exchange.phase == Phase::Sending {
                    exchange.phase = Phase::Settling;
                }
            },
            Event::SendFailed(e) => {
                if exchange.phase == Phase::Sending {
                    exchange.last_error = e;
                    exchange.phase = Phase::Recovering;
                }
            },
            Event::Slept => {
                match exchange.phase {
                    Phase::Settling => {
                        exchange.phase = Phase::Receiving;
                    },
                    Phase::Recovering => {
                        exchange.retry();
                    },
                    Phase::BackingOff => {
                        exchange.retry();
                    },
                    _ => {},
                }
            },
            Event::ReceiveFailed(e) => {
                if exchange.phase == Phase::Receiving {
                    exchange.last_error = e;
                    exchange.retry();
                }
            },
            Event::Received(count, bytes) => {
                if exchange.phase == Phase::Receiving {
                    exchange.judge(count, &bytes);
                }
            },
        }
        let action = exchange.pending();
        (exchange, action)
    }
}

} // verus!
