//! From the grid to the wire: the commands that put one frame on the keys,
//! and the pace at which frames follow each other.

use crate::effects::{Colour, Effect, EffectLayer};
use crate::razer::{encode, PacketView, RazerPacket};
use vstd::prelude::*;

verus! {

/// Class of the lighting commands.
pub const LIGHTING_CLASS: u8 = 0x03;

/// Command that writes the colours of one row.
pub const ROW_COMMAND: u8 = 0x0B;

/// Command that shows the rows written so far.
pub const DISPLAY_COMMAND: u8 = 0x0A;

/// Time from the start of one tick to the start of the next, in
/// microseconds: 25 ticks a second.
pub const FRAME_INTERVAL_MICROS: u64 = 40_000;

/// Where a LED setting is kept.
#[derive(Debug, Copy, Clone, PartialEq, Eq, Structural)]
pub enum LedStorage {
    NoStore,
    VarStore,
}

impl LedStorage {
    pub open spec fn spec_code(self) -> u8 {
        match self {
            LedStorage::NoStore => 0,
            LedStorage::VarStore => 1,
        }
    }

    /// The byte that stands for this storage in a command.
    pub fn code(self) -> (c: u8)
        ensures
            c == self.spec_code(),
    {
        match self {
            LedStorage::NoStore => 0,
            LedStorage::VarStore => 1,
        }
    }
}

/// The LEDs that a device can have.
#[derive(Debug, Copy, Clone, PartialEq, Eq, PartialOrd, Ord, Structural)]
pub enum Led {
    Zero,
    ScrollWheel,
    Battery,
    Logo,
    Backlight,
    Macro,
    Game,
    RedProfile,
    GreenProfile,
    BlueProfile,
    RightSide,
    LeftSide,
    Charging,
    FastCharging,
    FullyCharged,
}

impl Led {
    pub open spec fn spec_code(self) -> u8 {
        match self {
            Led::Zero => 0x00,
            Led::ScrollWheel => 0x01,
            Led::Battery => 0x03,
            Led::Logo => 0x04,
            Led::Backlight => 0x05,
            Led::Macro => 0x07,
            Led::Game => 0x08,
            Led::RedProfile => 0x0C,
            Led::GreenProfile => 0x0D,
            Led::BlueProfile => 0x0E,
            Led::RightSide => 0x10,
            Led::LeftSide => 0x11,
            Led::Charging => 0x20,
            Led::FastCharging => 0x21,
            Led::FullyCharged => 0x22,
        }
    }

    /// The byte that stands for this LED in a command.
    pub fn code(self) -> (c: u8)
        ensures
            c == self.spec_code(),
    {
        match self {
            Led::Zero => 0x00,
            Led::ScrollWheel => 0x01,
            Led::Battery => 0x03,
            Led::Logo => 0x04,
            Led::Backlight => 0x05,
            Led::Macro => 0x07,
            Led::Game => 0x08,
            Led::RedProfile => 0x0C,
            Led::GreenProfile => 0x0D,
            Led::BlueProfile => 0x0E,
            Led::RightSide => 0x10,
            Led::LeftSide => 0x11,
            Led::Charging => 0x20,
            Led::FastCharging => 0x21,
            Led::FullyCharged => 0x22,
        }
    }
}

/// One LED of a device.
#[derive(Debug, Copy, Clone)]
pub struct LedController {
    led: Led,
}

impl LedController {
    pub closed spec fn spec_led(&self) -> Led {
        self.led
    }

    pub fn new(led: Led) -> (controller: Self)
        ensures
            controller.spec_led() == led,
    {
        Self { led }
    }

    pub fn led(&self) -> (led: Led)
        ensures
            led == self.spec_led(),
    {
        self.led
    }
}

/// The colours of a row as the device takes them: three bytes a key, red
/// first, key after key.
pub open spec fn row_bytes(row: Seq<Colour>) -> Seq<u8>
    decreases row.len(),
{
    if row.len() == 0 {
        Seq::empty()
    } else {
        row_bytes(row.drop_last()) + row.last().bytes()
    }
}

/// The payload that writes row `index` of a grid `width` keys wide. Index
/// and width go out as one byte each, their low eight bits.
pub open spec fn row_payload(index: int, width: int, row: Seq<Colour>) -> Seq<u8> {
    seq![0xFFu8, (index % 256) as u8, 0x00u8, (width % 256) as u8, 0x00u8, 0x00u8, 0x00u8]
        + row_bytes(row)
}

/// The command that writes row `index`. What of the payload lies beyond 80
/// bytes does not go out.
pub open spec fn row_command(index: int, width: int, row: Seq<Colour>) -> PacketView {
    encode(LIGHTING_CLASS, ROW_COMMAND, row_payload(index, width, row))
}

/// The command that shows the rows written.
pub open spec fn display_command() -> PacketView {
    encode(LIGHTING_CLASS, DISPLAY_COMMAND, seq![0x05u8, 0x00u8])
}

proof fn lemma_row_bytes_len(row: Seq<Colour>)
    ensures
        row_bytes(row).len() == 3 * row.len(),
    decreases row.len(),
{
    if row.len() > 0 {
        lemma_row_bytes_len(row.drop_last());
    }
}

/// The commands of one frame.
#[derive(Debug)]
pub struct FrameCommands {
    /// One command for each row, top row first. They are written without
    /// waiting for answers.
    pub rows: Vec<RazerPacket>,
    /// The command that shows the frame. Its answer is waited for.
    pub display: RazerPacket,
}

/// The command that writes row `index`, whose keys have the colours `row`.
pub fn row_packet<const X: usize>(index: usize, row: &[Colour; X]) -> (packet: RazerPacket)
    ensures
        packet@ == row_command(index as int, X as int, row@),
        packet@.data_size == (if 7 + 3 * X <= 80 {
            (7 + 3 * X) as u8
        } else {
            80u8
        }),
{
    proof {
        lemma_row_bytes_len(row@);
    }
    let mut buffer: Vec<u8> = Vec::new();
    buffer.push(0xFF);
    buffer.push((index % 256) as u8);
    buffer.push(0x00);
    buffer.push((X % 256) as u8);
    buffer.push(0x00);
    buffer.push(0x00);
    buffer.push(0x00);
    let ghost head = buffer@;
    assert(head =~= seq![
        0xFFu8,
        (index as int % 256) as u8,
        0x00u8,
        (X as int % 256) as u8,
        0x00u8,
        0x00u8,
        0x00u8,
    ]);
    let mut x: usize = 0;
    while x < X
        invariant
            x <= X,
            buffer@ == head + row_bytes(row@.subrange(0, x as int)),
        decreases X - x,
    {
        let key = row[x];
        buffer.push(key.r);
        buffer.push(key.g);
        buffer.push(key.b);
        proof {
            let upto = row@.subrange(0, x + 1);
            assert(upto.drop_last() =~= row@.subrange(0, x as int));
            assert(upto.last() == key);
            assert(buffer@ =~= head + row_bytes(upto));
        }
        x += 1;
    }
    assert(row@.subrange(0, X as int) =~= row@);
    RazerPacket::new(LIGHTING_CLASS, ROW_COMMAND, buffer.as_slice())
}

/// The command that shows the rows written.
pub fn display_packet() -> (packet: RazerPacket)
    ensures
        packet@ == display_command(),
{
    let args = [0x05u8, 0x00u8];
    assert(args@ =~= seq![0x05u8, 0x00u8]);
    RazerPacket::new(LIGHTING_CLASS, DISPLAY_COMMAND, args.as_slice())
}

/// Commits the layer and builds the commands that put the committed grid on
/// the keys: one row command for each row, then the display command.
pub fn set_keyboard_effect<const X: usize, const Y: usize>(layer: &mut EffectLayer<X, Y>) -> (commands:
    FrameCommands)
    ensures
        final(layer)@ == old(layer)@.commit(),
        commands.rows@.len() == Y,
        forall|y: int|
            0 <= y < Y ==> (#[trigger] commands.rows@[y])@ == row_command(
                y,
                X as int,
                final(layer)@.committed[y],
            ),
        commands.display@ == display_command(),
{
    let committed = layer.update_matrix();
    let mut rows: Vec<RazerPacket> = Vec::new();
    let mut y: usize = 0;
    while y < Y
        invariant
            y <= Y,
            rows@.len() == y,
            forall|j: int|
                0 <= j < y ==> (#[trigger] rows@[j])@ == row_command(j, X as int, committed@[j]@),
        decreases Y - y,
    {
        rows.push(row_packet(y, &committed[y]));
        y += 1;
    }
    FrameCommands { rows, display: display_packet() }
}

/// One tick of the frame loop: the effect paints, the layer commits, and
/// the commands of the frame come out.
pub fn render_frame<const X: usize, const Y: usize, E: Effect<X, Y>>(
    effect: &mut E,
    layer: &mut EffectLayer<X, Y>,
) -> (commands: FrameCommands)
    ensures
        final(layer)@.mask == old(layer)@.mask,
        forall|x: int, y: int|
            0 <= y < Y && 0 <= x < X && !old(layer)@.mask[y][x] ==> final(layer)@.committed[y][x]
                == old(layer)@.committed[y][x],
        forall|x: int, y: int|
            0 <= y < Y && 0 <= x < X && old(layer)@.mask[y][x] ==> final(layer)@.committed[y][x]
                == final(layer)@.working[y][x],
        commands.rows@.len() == Y,
        forall|y: int|
            0 <= y < Y ==> (#[trigger] commands.rows@[y])@ == row_command(
                y,
                X as int,
                final(layer)@.committed[y],
            ),
        commands.display@ == display_command(),
{
    effect.update(layer);
    proof {
        layer.lemma_shape();
    }
    set_keyboard_effect(layer)
}

/// The pause that fills up a tick which took `elapsed_micros` so far; none
/// where the tick already took longer than the interval, so that the next
/// one starts at once.
pub fn remaining_interval(elapsed_micros: u64) -> (pause: Option<u64>)
    ensures
        pause == (if elapsed_micros <= FRAME_INTERVAL_MICROS {
            Some((FRAME_INTERVAL_MICROS - elapsed_micros) as u64)
        } else {
            None
        }),
{
    FRAME_INTERVAL_MICROS.checked_sub(elapsed_micros)
}

} // verus!
