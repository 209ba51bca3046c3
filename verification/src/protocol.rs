//! The commands the phone app sends to the badge over BLE.
//!
//! On the wire these are archived with rkyv; the archiving lives with the
//! BLE glue, these are the plain values.
use vstd::prelude::*;

verus! {

/// GATT service of the badge. Do not change.
pub const SERVICE_UUID: u128 = 12897126749781238;
/// The characteristic the phone writes commands to. Do not change.
pub const RX_CHAR_UUID: u128 = 12847126749781238;

/// A command to the badge.
#[derive(Debug, Clone, Copy, PartialEq, Eq, Structural)]
pub enum BadgeCommand {
    Debug,
    SetLight(LightCommand),
    Drawing(DrawCommand),
}

/// Color of the badge's RGB LED.
#[derive(Debug, Clone, Copy, PartialEq, Eq, Structural)]
pub struct LightCommand {
    pub r: u8,
    pub g: u8,
    pub b: u8,
}

/// A color the e-paper panel can show.
#[derive(Debug, Clone, Copy, PartialEq, Eq, Structural)]
pub enum Color {
    White,
    Black,
    Red,
}

/// A point in panel coordinates.
#[derive(Debug, Clone, Copy, PartialEq, Eq, Structural)]
pub struct Point {
    pub x: i16,
    pub y: i16,
}

/// A drawing command for the e-paper panel.
#[derive(Debug, Clone, Copy, PartialEq, Eq, Structural)]
pub enum DrawCommand {
    /// A one-pixel line from `start` to `end`.
    Line { start: Point, end: Point, color: Color },
    /// Fill the whole framebuffer with one color.
    Clear { color: Color },
    /// Draw the test pattern and show it.
    Debug,
    /// Show the framebuffer on the panel.
    Flush,
}

/// First byte of the bare four-byte LED packet.
pub const RGB_PACKET_TAG: u8 = 0x01;

/// The bare four-byte LED packet, for a phone that sets the light without
/// rkyv: tag, then red, green and blue.
pub fn rgb_packet(r: u8, g: u8, b: u8) -> (p: [u8; 4])
    ensures
        p@ == seq![RGB_PACKET_TAG, r, g, b],
{
    let p = [RGB_PACKET_TAG, r, g, b];
    assert(p@ =~= seq![RGB_PACKET_TAG, r, g, b]);
    p
}

/// A command of the two-byte greeting characteristic: a write of
/// `[0x3C, 0x3C]` says hello, any other write sets the light.
#[derive(Debug, Clone, Copy, PartialEq, Eq, Structural)]
pub enum Command {
    Hello,
    SetLight,
}

impl Command {
    /// `[0x3C, 0x3C]` greets; anything else sets the light.
    pub fn parse(bytes: &[u8]) -> (c: Command)
        ensures
            c == (if bytes@ == seq![0x3Cu8, 0x3Cu8] { Command::Hello } else { Command::SetLight }),
    {
        if bytes.len() == 2 && bytes[0] == 0x3C && bytes[1] == 0x3C {
            assert(bytes@ =~= seq![0x3Cu8, 0x3Cu8]);
            Command::Hello
        } else {
            proof {
                if bytes@ == seq![0x3Cu8, 0x3Cu8] {
                    assert(bytes@.len() == 2 && bytes@[0] == 0x3C && bytes@[1] == 0x3C);
                }
            }
            Command::SetLight
        }
    }
}

/// Where the badge sends a received command.
#[derive(Debug, Clone, Copy, PartialEq, Eq, Structural)]
pub enum Route {
    /// Only logged.
    Log,
    /// To the LED task.
    Light(LightCommand),
    /// To the display task.
    Draw(DrawCommand),
}

/// Where a command goes: `Debug` is only logged, a light command goes to
/// the LED, a drawing command to the display.
pub fn route(cmd: BadgeCommand) -> (r: Route)
    ensures
        r == match cmd {
            BadgeCommand::Debug => Route::Log,
            BadgeCommand::SetLight(light) => Route::Light(light),
            BadgeCommand::Drawing(draw) => Route::Draw(draw),
        },
{
    match cmd {
        BadgeCommand::Debug => Route::Log,
        BadgeCommand::SetLight(light) => Route::Light(light),
        BadgeCommand::Drawing(draw) => Route::Draw(draw),
    }
}

/// What the badge's GATT connection reports, as far as the command
/// loop cares.
#[derive(Debug, Clone, Copy, PartialEq, Eq, Structural)]
pub enum GattEvent {
    /// The phone disconnected.
    Disconnected,
    /// The phone wrote to the attribute with this handle.
    Write { handle: u16 },
    /// Anything else.
    Other,
}

/// What the command loop does next.
#[derive(Debug, Clone, Copy, PartialEq, Eq, Structural)]
pub enum GattAction {
    /// Leave this connection and advertise again.
    Readvertise,
    /// Decode the written bytes as a command and route it.
    Dispatch,
    /// Nothing; wait for the next event.
    Ignore,
}

/// The command loop's decision on an event of a connection whose command
/// characteristic has handle `rx`: a disconnect ends the connection, a
/// write to `rx` is a command, anything else is ignored.
pub fn on_gatt_event(rx: u16, ev: GattEvent) -> (a: GattAction)
    ensures
        a == match ev {
            GattEvent::Disconnected => GattAction::Readvertise,
            GattEvent::Write { handle } => if handle == rx { GattAction::Dispatch } else { GattAction::Ignore },
            GattEvent::Other => GattAction::Ignore,
        },
{
    match ev {
        GattEvent::Disconnected => GattAction::Readvertise,
        GattEvent::Write { handle } => if handle == rx { GattAction::Dispatch } else { GattAction::Ignore },
        GattEvent::Other => GattAction::Ignore,
    }
}

} // verus!
