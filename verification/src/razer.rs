//! The fixed-size command packet, its wire layout and its checksum.

use vstd::prelude::*;

verus! {

/// Number of payload bytes a packet carries.
pub const ARGS_LEN: usize = 80;

/// Length of a frame as sent by control transfer: no report index.
pub const FRAME_LEN: usize = 90;

/// Length of a frame as sent by feature report: report index first.
pub const REPORT_LEN: usize = 91;

/// Correlation id that every request of this session carries.
pub const SESSION_ID: u8 = 0xFF;

/// What went wrong in a command exchange.
#[derive(Debug, Clone, PartialEq, Eq)]
pub enum RazerError {
    /// The control-transfer transport failed; the text says how.
    UsbError(String),
    /// The feature-report transport failed; the text says how.
    HidError(String),
    /// The device does not know the command.
    CmdNotSupported,
    /// The device was busy.
    ECBusy,
    /// The device gave up on the command, or never answered in full.
    ECTimeout,
    /// What came back answers another request, or is no packet.
    InvalidResponse,
    /// The device failed to carry the command out.
    ECFailure,
}

/// What a command exchange gives: its result, or what went wrong.
pub type RazerResult<T> = Result<T, RazerError>;

/// Status byte of a packet.
#[derive(Debug, Copy, Clone, PartialEq, Eq, PartialOrd, Ord, Structural)]
pub enum RazerCmdStatus {
    New,
    Busy,
    Successful,
    Failure,
    Timeout,
    NotSupported,
}

impl RazerError {
    /// A copy of this error.
    pub fn duplicate(&self) -> (e: RazerError)
        ensures
            e == *self,
    {
        match self {
            RazerError::UsbError(text) => RazerError::UsbError(text.clone()),
            RazerError::HidError(text) => RazerError::HidError(text.clone()),
            RazerError::CmdNotSupported => RazerError::CmdNotSupported,
            RazerError::ECBusy => RazerError::ECBusy,
            RazerError::ECTimeout => RazerError::ECTimeout,
            RazerError::InvalidResponse => RazerError::InvalidResponse,
            RazerError::ECFailure => RazerError::ECFailure,
        }
    }
}

impl RazerCmdStatus {
    /// The byte that stands for this status on the wire.
    pub open spec fn spec_to_byte(self) -> u8 {
        match self {
            RazerCmdStatus::New => 0,
            RazerCmdStatus::Busy => 1,
            RazerCmdStatus::Successful => 2,
            RazerCmdStatus::Failure => 3,
            RazerCmdStatus::Timeout => 4,
            RazerCmdStatus::NotSupported => 5,
        }
    }

    /// The status a wire byte stands for, if any.
    pub open spec fn spec_from_byte(b: u8) -> Option<RazerCmdStatus> {
        if b == 0 {
            Some(RazerCmdStatus::New)
        } else if b == 1 {
            Some(RazerCmdStatus::Busy)
        } else if b == 2 {
            Some(RazerCmdStatus::Successful)
        } else if b == 3 {
            Some(RazerCmdStatus::Failure)
        } else if b == 4 {
            Some(RazerCmdStatus::Timeout)
        } else if b == 5 {
            Some(RazerCmdStatus::NotSupported)
        } else {
            None
        }
    }

    pub fn to_byte(self) -> (b: u8)
        ensures
            b == self.spec_to_byte(),
    {
        match self {
            RazerCmdStatus::New => 0,
            RazerCmdStatus::Busy => 1,
            RazerCmdStatus::Successful => 2,
            RazerCmdStatus::Failure => 3,
            RazerCmdStatus::Timeout => 4,
            RazerCmdStatus::NotSupported => 5,
        }
    }

    pub fn from_byte(b: u8) -> (s: Option<RazerCmdStatus>)
        ensures
            s == Self::spec_from_byte(b),
    {
        match b {
            0 => Some(RazerCmdStatus::New),
            1 => Some(RazerCmdStatus::Busy),
            2 => Some(RazerCmdStatus::Successful),
            3 => Some(RazerCmdStatus::Failure),
            4 => Some(RazerCmdStatus::Timeout),
            5 => Some(RazerCmdStatus::NotSupported),
            _ => None,
        }
    }
}

/// One protocol message.
#[derive(Debug, Copy, Clone, PartialEq, Eq, PartialOrd, Ord)]
pub struct RazerPacket {
    /// Report index that leads a feature report; no part of the frame.
    pub report_index: u8,
    pub status: RazerCmdStatus,
    /// Correlation id, chosen by the sender.
    pub id: u8,
    /// Sequence counter, low byte first on the wire.
    pub remaining: u16,
    pub protocol_type: u8,
    /// Number of payload bytes that count.
    pub data_size: u8,
    pub cmd_class: u8,
    pub cmd_id: u8,
    /// The payload, zero beyond `data_size`.
    pub args: [u8; 80],
    /// XOR of bytes 2 to 87 of the frame.
    pub crc: u8,
    pub _res: u8,
}

/// A packet as plain values: what the contracts speak of.
pub struct PacketView {
    pub report_index: u8,
    pub status: RazerCmdStatus,
    pub id: u8,
    pub remaining: u16,
    pub protocol_type: u8,
    pub data_size: u8,
    pub cmd_class: u8,
    pub cmd_id: u8,
    pub args: Seq<u8>,
    pub crc: u8,
    pub res: u8,
}

impl View for RazerPacket {
    type V = PacketView;

    open spec fn view(&self) -> PacketView {
        PacketView {
            report_index: self.report_index,
            status: self.status,
            id: self.id,
            remaining: self.remaining,
            protocol_type: self.protocol_type,
            data_size: self.data_size,
            cmd_class: self.cmd_class,
            cmd_id: self.cmd_id,
            args: self.args@,
            crc: self.crc,
            res: self._res,
        }
    }
}

/// Low byte of a 16-bit field.
pub open spec fn low_byte(x: u16) -> u8 {
    (x & 0xff) as u8
}

/// High byte of a 16-bit field.
pub open spec fn high_byte(x: u16) -> u8 {
    (x >> 8) as u8
}

/// The 16-bit field whose low byte is `lo` and whose high byte is `hi`.
pub open spec fn join_bytes(lo: u8, hi: u8) -> u16 {
    (lo as u16) | ((hi as u16) << 8)
}

/// XOR of all the bytes of `s`; zero for the empty sequence.
pub open spec fn xor_all(s: Seq<u8>) -> u8
    decreases s.len(),
{
    if s.len() == 0 {
        0u8
    } else {
        xor_all(s.drop_last()) ^ s.last()
    }
}

/// Checksum of a frame: the XOR of its bytes 2 to 87, that is of everything
/// between the status and id bytes in front and the checksum and reserved
/// bytes at the end.
pub open spec fn checksum(frame: Seq<u8>) -> u8 {
    xor_all(frame.subrange(2, 88))
}

/// A payload as a packet holds it: cut to 80 bytes, zero beyond its end.
pub open spec fn padded(args: Seq<u8>) -> Seq<u8> {
    Seq::new(
        80,
        |i: int|
            if i < args.len() {
                args[i]
            } else {
                0u8
            },
    )
}

/// Number of payload bytes that a packet takes from `args`.
pub open spec fn copied_len(args: Seq<u8>) -> u8 {
    if args.len() < 80 {
        args.len() as u8
    } else {
        80u8
    }
}

impl PacketView {
    /// Whether the payload has the fixed length.
    pub open spec fn wf(self) -> bool {
        self.args.len() == ARGS_LEN
    }

    /// The eight bytes in front of the payload.
    pub open spec fn header(self) -> Seq<u8> {
        seq![
            self.status.spec_to_byte(),
            self.id,
            low_byte(self.remaining),
            high_byte(self.remaining),
            self.protocol_type,
            self.data_size,
            self.cmd_class,
            self.cmd_id,
        ]
    }

    /// The 90-byte frame: header, payload, checksum, reserved byte.
    pub open spec fn frame(self) -> Seq<u8> {
        self.header() + self.args + seq![self.crc, self.res]
    }

    /// The 91-byte feature report: report index, then the frame.
    pub open spec fn report(self) -> Seq<u8> {
        seq![self.report_index] + self.frame()
    }

    /// The checksum that belongs to the other fields.
    pub open spec fn expected_crc(self) -> u8 {
        checksum(self.frame())
    }

    /// This packet with the checksum that belongs to it.
    pub open spec fn sealed(self) -> PacketView {
        PacketView { crc: self.expected_crc(), ..self }
    }

    /// This packet after its payload was replaced by `args`.
    pub open spec fn with_args(self, args: Seq<u8>) -> PacketView {
        (PacketView { args: padded(args), data_size: copied_len(args), ..self }).sealed()
    }

    /// Whether `other` answers this request: sequence counter, command class
    /// and id agree.
    pub open spec fn is_same(self, other: PacketView) -> bool {
        self.remaining == other.remaining && self.cmd_class == other.cmd_class && self.id
            == other.id
    }
}

/// The request packet for a command.
pub open spec fn encode(class: u8, cmd: u8, args: Seq<u8>) -> PacketView {
    (PacketView {
        report_index: 0,
        status: RazerCmdStatus::New,
        id: SESSION_ID,
        remaining: 0,
        protocol_type: 0,
        data_size: copied_len(args),
        cmd_class: class,
        cmd_id: cmd,
        args: padded(args),
        crc: 0,
        res: 0,
    }).sealed()
}

/// The packet that a 90-byte frame holds; none where the status byte stands
/// for no status. The checksum is taken as it is, not tested.
pub open spec fn decode_frame(report_index: u8, frame: Seq<u8>) -> Option<PacketView> {
    match RazerCmdStatus::spec_from_byte(frame[0]) {
        Some(status) => Some(
            PacketView {
                report_index,
                status,
                id: frame[1],
                remaining: join_bytes(frame[2], frame[3]),
                protocol_type: frame[4],
                data_size: frame[5],
                cmd_class: frame[6],
                cmd_id: frame[7],
                args: frame.subrange(8, 88),
                crc: frame[88],
                res: frame[89],
            },
        ),
        None => None,
    }
}

/// The packet that a 91-byte feature report holds.
pub open spec fn decode(report: Seq<u8>) -> Option<PacketView> {
    decode_frame(report[0], report.subrange(1, 91))
}

proof fn lemma_xor_all_push(s: Seq<u8>, b: u8)
    ensures
        xor_all(s.push(b)) == xor_all(s) ^ b,
{
    assert(s.push(b).drop_last() =~= s);
}

proof fn lemma_join_split(x: u16)
    ensures
        join_bytes(low_byte(x), high_byte(x)) == x,
{
    assert((((x & 0xff) as u8) as u16) | ((((x >> 8) as u8) as u16) << 8) == x) by (bit_vector);
}

/// The checksum depends on bytes 2 to 87 of the frame alone.
pub proof fn lemma_checksum_of_range(f: Seq<u8>, g: Seq<u8>)
    requires
        f.len() >= 88,
        g.len() >= 88,
        forall|i: int| 2 <= i < 88 ==> f[i] == g[i],
    ensures
        checksum(f) == checksum(g),
{
    assert(f.subrange(2, 88) =~= g.subrange(2, 88));
}

proof fn lemma_xor_all_update(s: Seq<u8>, k: int, b: u8)
    requires
        0 <= k < s.len(),
    ensures
        xor_all(s.update(k, b)) == xor_all(s) ^ s[k] ^ b,
    decreases s.len(),
{
    let t = s.update(k, b);
    let x = xor_all(s.drop_last());
    let last = s.last();
    if k == s.len() - 1 {
        assert(t.drop_last() =~= s.drop_last());
        assert(x ^ b == (x ^ last) ^ last ^ b) by (bit_vector);
    } else {
        assert(t.drop_last() =~= s.drop_last().update(k, b));
        lemma_xor_all_update(s.drop_last(), k, b);
        let old_byte = s[k];
        assert((x ^ old_byte ^ b) ^ last == (x ^ last) ^ old_byte ^ b) by (bit_vector);
    }
}

/// Changing one byte between offsets 2 and 87 changes the checksum by the
/// XOR of the old and the new byte, so every real change of a single byte
/// shows in the checksum.
pub proof fn lemma_checksum_single_change(f: Seq<u8>, i: int, b: u8)
    requires
        f.len() >= 88,
        2 <= i < 88,
    ensures
        checksum(f.update(i, b)) == checksum(f) ^ f[i] ^ b,
        b != f[i] ==> checksum(f.update(i, b)) != checksum(f),
{
    assert(f.update(i, b).subrange(2, 88) =~= f.subrange(2, 88).update(i - 2, b));
    lemma_xor_all_update(f.subrange(2, 88), i - 2, b);
    let c = checksum(f);
    let a = f[i];
    assert(b != a ==> (c ^ a ^ b) != c) by (bit_vector);
}

/// The checksum is no collision-free code: flipping the same bits in two
/// different bytes between offsets 2 and 87 leaves it unchanged.
pub proof fn lemma_checksum_cancelling_change(f: Seq<u8>, i: int, j: int, flip: u8)
    requires
        f.len() >= 88,
        2 <= i < 88,
        2 <= j < 88,
        i != j,
    ensures
        checksum(f.update(i, f[i] ^ flip).update(j, f[j] ^ flip)) == checksum(f),
{
    let g = f.update(i, f[i] ^ flip);
    lemma_checksum_single_change(f, i, f[i] ^ flip);
    lemma_checksum_single_change(g, j, f[j] ^ flip);
    let c = checksum(f);
    let a = f[i];
    let b = f[j];
    assert(((c ^ a ^ (a ^ flip)) ^ b ^ (b ^ flip)) == c) by (bit_vector);
}

/// Reading back the feature report of a packet gives that packet.
pub proof fn lemma_decode_report(v: PacketView)
    requires
        v.wf(),
    ensures
        v.frame().len() == 90,
        v.report().len() == 91,
        decode_frame(v.report_index, v.frame()) == Some(v),
        decode(v.report()) == Some(v),
{
    let f = v.frame();
    assert(f.len() == 90);
    assert(v.report().subrange(1, 91) =~= f);
    assert(f.subrange(8, 88) =~= v.args);
    assert(f[0] == v.status.spec_to_byte());
    assert(f[2] == low_byte(v.remaining));
    assert(f[3] == high_byte(v.remaining));
    assert(f[88] == v.crc);
    assert(f[89] == v.res);
    lemma_join_split(v.remaining);
}

/// A request of at most 80 payload bytes, written as a feature report and
/// read back, shows its class, its command, its payload length and its
/// payload bytes again.
pub proof fn lemma_encode_decode(class: u8, cmd: u8, payload: Seq<u8>)
    requires
        payload.len() <= 80,
    ensures
        decode(encode(class, cmd, payload).report()) matches Some(p) && {
            &&& p == encode(class, cmd, payload)
            &&& p.cmd_class == class
            &&& p.cmd_id == cmd
            &&& p.data_size == payload.len()
            &&& p.args.subrange(0, payload.len() as int) == payload
            &&& forall|i: int| payload.len() <= i < 80 ==> p.args[i] == 0
            &&& p.status == RazerCmdStatus::New
            &&& p.id == SESSION_ID
            &&& p.remaining == 0
        },
{
    let v = encode(class, cmd, payload);
    lemma_decode_report(v);
    assert(v.args.subrange(0, payload.len() as int) =~= payload);
}

/// Whether a response answers a request depends on the sequence counters,
/// command classes and ids of the two alone: not on status, payload,
/// payload length or any other field.
pub proof fn lemma_is_same_reads_correlation_only(
    a: PacketView,
    b: PacketView,
    a2: PacketView,
    b2: PacketView,
)
    requires
        a.remaining == a2.remaining && a.cmd_class == a2.cmd_class && a.id == a2.id,
        b.remaining == b2.remaining && b.cmd_class == b2.cmd_class && b.id == b2.id,
    ensures
        a.is_same(b) == a2.is_same(b2),
        a.is_same(b) <==> (a.remaining == b.remaining && a.cmd_class == b.cmd_class && a.id
            == b.id),
{
}

impl RazerPacket {
    /// Sets the checksum to the one that belongs to the other fields.
    pub fn set_crc(&mut self)
        ensures
            final(self)@ == old(self)@.sealed(),
    {
        let frame = self.create_frame();
        let mut acc: u8 = 0;
        let mut i: usize = 2;
        while i < 88
            invariant
                2 <= i <= 88,
                acc == xor_all(frame@.subrange(2, i as int)),
            decreases 88 - i,
        {
            proof {
                lemma_xor_all_push(frame@.subrange(2, i as int), frame@[i as int]);
                assert(frame@.subrange(2, i as int).push(frame@[i as int]) =~= frame@.subrange(
                    2,
                    i + 1,
                ));
            }
            acc = acc ^ frame[i];
            i += 1;
        }
        self.crc = acc;
        proof {
            lemma_checksum_of_range(old(self)@.frame(), old(self)@.sealed().frame());
        }
    }

    /// Builds the request for command `cmd` of class `class`. A payload longer
    /// than 80 bytes is cut to 80.
    pub fn new(class: u8, cmd: u8, args: &[u8]) -> (p: Self)
        ensures
            p@ == encode(class, cmd, args@),
    {
        let mut tmp = Self {
            report_index: 0,
            status: RazerCmdStatus::New,
            id: SESSION_ID,
            remaining: 0,
            protocol_type: 0,
            data_size: 0,
            cmd_class: class,
            cmd_id: cmd,
            args: [0u8; 80],
            crc: 0,
            _res: 0,
        };
        tmp.set_args(args);
        proof {
            assert(tmp@.args =~= encode(class, cmd, args@).args);
            lemma_checksum_of_range(tmp@.frame(), encode(class, cmd, args@).frame());
        }
        tmp
    }

    /// Whether `other` answers this request.
    pub fn is_same(&self, other: &Self) -> (same: bool)
        ensures
            same == self@.is_same(other@),
            same == (self.remaining == other.remaining && self.cmd_class == other.cmd_class
                && self.id == other.id),
    {
        self.remaining == other.remaining && self.cmd_class == other.cmd_class && self.id
            == other.id
    }

    /// Replaces the payload, sets `data_size` to the number of bytes taken
    /// and renews the checksum.
    pub fn set_args(&mut self, args: &[u8])
        ensures
            final(self)@ == old(self)@.with_args(args@),
    {
        let max: usize = if args.len() < 80 {
            args.len()
        } else {
            80
        };
        let mut fresh = [0u8; 80];
        let mut i: usize = 0;
        while i < max
            invariant
                i <= max <= 80,
                max <= args@.len(),
                forall|j: int| 0 <= j < i ==> fresh@[j] == args@[j],
                forall|j: int| i <= j < 80 ==> fresh@[j] == 0,
            decreases max - i,
        {
            fresh[i] = args[i];
            i += 1;
        }
        assert(fresh@ =~= padded(args@));
        self.args = fresh;
        self.data_size = max as u8;
        self.set_crc();
    }

    /// The 90 bytes that go out by control transfer.
    pub fn create_frame(&self) -> (bytes: [u8; 90])
        ensures
            bytes@ == self@.frame(),
    {
        let mut out = [0u8; 90];
        out[0] = self.status.to_byte();
        out[1] = self.id;
        out[2] = (self.remaining & 0xff) as u8;
        out[3] = (self.remaining >> 8) as u8;
        out[4] = self.protocol_type;
        out[5] = self.data_size;
        out[6] = self.cmd_class;
        out[7] = self.cmd_id;
        let mut i: usize = 0;
        while i < 80
            invariant
                i <= 80,
                forall|j: int| 0 <= j < 8 ==> out@[j] == self@.header()[j],
                forall|j: int| 0 <= j < i ==> out@[8 + j] == self.args@[j],
            decreases 80 - i,
        {
            out[8 + i] = self.args[i];
            i += 1;
        }
        out[88] = self.crc;
        out[89] = self._res;
        assert(out@ =~= self@.frame());
        out
    }

    /// The 91 bytes that go out as a feature report.
    pub fn create_packet(&self) -> (bytes: [u8; 91])
        ensures
            bytes@ == self@.report(),
    {
        let frame = self.create_frame();
        let mut out = [0u8; 91];
        out[0] = self.report_index;
        let mut i: usize = 0;
        while i < 90
            invariant
                i <= 90,
                out@[0] == self.report_index,
                forall|j: int| 0 <= j < i ==> out@[1 + j] == frame@[j],
            decreases 90 - i,
        {
            out[1 + i] = frame[i];
            i += 1;
        }
        assert(out@ =~= self@.report());
        out
    }

    /// Reads a packet out of a 90-byte frame. Fails only where the status
    /// byte stands for no status; the checksum is not tested.
    pub fn from_frame(report_index: u8, buf: &[u8; 90]) -> (p: Option<Self>)
        ensures
            match p {
                Some(packet) => decode_frame(report_index, buf@) == Some(packet@),
                None => decode_frame(report_index, buf@) is None,
            },
    {
        let status = match RazerCmdStatus::from_byte(buf[0]) {
            Some(s) => s,
            None => {
                return None;
            },
        };
        let mut args = [0u8; 80];
        let mut i: usize = 0;
        while i < 80
            invariant
                i <= 80,
                forall|j: int| 0 <= j < i ==> args@[j] == buf@[8 + j],
            decreases 80 - i,
        {
            args[i] = buf[8 + i];
            i += 1;
        }
        assert(args@ =~= buf@.subrange(8, 88));
        let lo: u16 = buf[2] as u16;
        let hi: u16 = buf[3] as u16;
        Some(
            Self {
                report_index,
                status,
                id: buf[1],
                remaining: lo | (hi << 8),
                protocol_type: buf[4],
                data_size: buf[5],
                cmd_class: buf[6],
                cmd_id: buf[7],
                args,
                crc: buf[88],
                _res: buf[89],
            },
        )
    }

    /// Reads a packet out of a 91-byte feature report.
    pub fn from_raw(buf: &[u8; 91]) -> (p: Option<Self>)
        ensures
            match p {
                Some(packet) => decode(buf@) == Some(packet@),
                None => decode(buf@) is None,
            },
    {
        let mut frame = [0u8; 90];
        let mut i: usize = 0;
        while i < 90
            invariant
                i <= 90,
                forall|j: int| 0 <= j < i ==> frame@[j] == buf@[1 + j],
            decreases 90 - i,
        {
            frame[i] = buf[1 + i];
            i += 1;
        }
        assert(frame@ =~= buf@.subrange(1, 91));
        Self::from_frame(buf[0], &frame)
    }
}

} // verus!
