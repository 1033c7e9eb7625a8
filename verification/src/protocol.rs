//! The command/response vocabulary spoken between host and device, and the
//! byte values each enumerator takes on the wire.

use vstd::prelude::*;
use crate::replay::Transition;
use crate::replay::VeritasMode;

verus! {

/// Console selector carried by `ProvideInput`.
#[derive(Debug, PartialEq, Eq, Structural, Copy, Clone)]
pub enum System {
    Nes,
    Snes,
    N64,
    Genesis,
    A2600,
    Unknown,
}

/// A transition as it travels on the wire: the frame index is 64 bits wide
/// there, while the device narrows it to 32 bits when installing it.
#[derive(Debug, PartialEq, Eq, Structural, Copy, Clone)]
pub struct TransitionData {
    pub index: u64,
    pub index_kind: u8,
    pub transition_kind: u8,
}

/// A host-to-device command.
#[derive(Debug, PartialEq, Eq, Clone)]
pub enum Command {
    ProvideInput(System, Vec<u8>),
    ProvideTransitions(Vec<TransitionData>),
    SetReplayMode(VeritasMode),
    SetReplayLength(u64),
    SetLatchFilter(u32),
    UseInitialReset(bool),
    GetStatus,
    Ping,
}

/// A device-to-host response.  The device answers every command with
/// exactly one of these.
#[derive(Debug, PartialEq, Eq, Clone)]
pub enum Response {
    Okay,
    DeviceStatus(String),
    BufferStatus { written: u16, remaining_space: u16 },
    Pong,
    Error,
}

/// Mathematical image of a `Command`: heap-backed fields become sequences.
pub enum CommandModel {
    ProvideInput(System, Seq<u8>),
    ProvideTransitions(Seq<TransitionData>),
    SetReplayMode(VeritasMode),
    SetReplayLength(u64),
    SetLatchFilter(u32),
    UseInitialReset(bool),
    GetStatus,
    Ping,
}

/// Mathematical image of a `Response`.
pub enum ResponseModel {
    Okay,
    DeviceStatus(Seq<char>),
    BufferStatus { written: u16, remaining_space: u16 },
    Pong,
    Error,
}

impl View for Command {
    type V = CommandModel;

    open spec fn view(&self) -> CommandModel {
        match self {
            Command::ProvideInput(s, bytes) => CommandModel::ProvideInput(*s, bytes@),
            Command::ProvideTransitions(ts) => CommandModel::ProvideTransitions(ts@),
            Command::SetReplayMode(m) => CommandModel::SetReplayMode(*m),
            Command::SetReplayLength(n) => CommandModel::SetReplayLength(*n),
            Command::SetLatchFilter(us) => CommandModel::SetLatchFilter(*us),
            Command::UseInitialReset(f) => CommandModel::UseInitialReset(*f),
            Command::GetStatus => CommandModel::GetStatus,
            Command::Ping => CommandModel::Ping,
        }
    }
}

impl View for Response {
    type V = ResponseModel;

    open spec fn view(&self) -> ResponseModel {
        match self {
            Response::Okay => ResponseModel::Okay,
            Response::DeviceStatus(s) => ResponseModel::DeviceStatus(s@),
            Response::BufferStatus { written, remaining_space } => ResponseModel::BufferStatus {
                written: *written,
                remaining_space: *remaining_space,
            },
            Response::Pong => ResponseModel::Pong,
            Response::Error => ResponseModel::Error,
        }
    }
}

impl Response {
    /// Anything but the bare `Ok` acknowledgement.
    pub fn is_not_ok(&self) -> (r: bool)
        ensures
            r == (self@ != ResponseModel::Okay),
    {
        match self {
            Response::Okay => false,
            _ => true,
        }
    }
}

/// Wire byte of a console selector.
pub open spec fn spec_system_byte(s: System) -> u8 {
    match s {
        System::Nes => 0x01,
        System::Snes => 0x02,
        System::N64 => 0x03,
        System::Genesis => 0x08,
        System::A2600 => 0x09,
        System::Unknown => 0xFF,
    }
}

/// Strict inverse of `spec_system_byte`: bytes that name no console decode
/// to nothing.
pub open spec fn spec_system_from_byte(b: u8) -> Option<System> {
    match b {
        0x01 => Some(System::Nes),
        0x02 => Some(System::Snes),
        0x03 => Some(System::N64),
        0x08 => Some(System::Genesis),
        0x09 => Some(System::A2600),
        0xFF => Some(System::Unknown),
        _ => None,
    }
}

pub fn system_byte(s: System) -> (r: u8)
    ensures
        r == spec_system_byte(s),
{
    match s {
        System::Nes => 0x01,
        System::Snes => 0x02,
        System::N64 => 0x03,
        System::Genesis => 0x08,
        System::A2600 => 0x09,
        System::Unknown => 0xFF,
    }
}

pub fn system_from_byte(b: u8) -> (r: Option<System>)
    ensures
        r == spec_system_from_byte(b),
{
    match b {
        0x01 => Some(System::Nes),
        0x02 => Some(System::Snes),
        0x03 => Some(System::N64),
        0x08 => Some(System::Genesis),
        0x09 => Some(System::A2600),
        0xFF => Some(System::Unknown),
        _ => None,
    }
}

/// Wire byte of a replay mode.
pub open spec fn spec_mode_byte(m: VeritasMode) -> u8 {
    match m {
        VeritasMode::Initial => 0x00,
        VeritasMode::Idle => 0x01,
        VeritasMode::ReplayN64 => 0x02,
        VeritasMode::ReplayNes => 0x03,
        VeritasMode::ReplayA2600 => 0x04,
        VeritasMode::ReplayGenesis => 0x05,
    }
}

/// Strict inverse of `spec_mode_byte`.
pub open spec fn spec_mode_from_byte(b: u8) -> Option<VeritasMode> {
    match b {
        0x00 => Some(VeritasMode::Initial),
        0x01 => Some(VeritasMode::Idle),
        0x02 => Some(VeritasMode::ReplayN64),
        0x03 => Some(VeritasMode::ReplayNes),
        0x04 => Some(VeritasMode::ReplayA2600),
        0x05 => Some(VeritasMode::ReplayGenesis),
        _ => None,
    }
}

pub fn mode_byte(m: VeritasMode) -> (r: u8)
    ensures
        r == spec_mode_byte(m),
{
    match m {
        VeritasMode::Initial => 0x00,
        VeritasMode::Idle => 0x01,
        VeritasMode::ReplayN64 => 0x02,
        VeritasMode::ReplayNes => 0x03,
        VeritasMode::ReplayA2600 => 0x04,
        VeritasMode::ReplayGenesis => 0x05,
    }
}

pub fn mode_from_byte(b: u8) -> (r: Option<VeritasMode>)
    ensures
        r == spec_mode_from_byte(b),
{
    match b {
        0x00 => Some(VeritasMode::Initial),
        0x01 => Some(VeritasMode::Idle),
        0x02 => Some(VeritasMode::ReplayN64),
        0x03 => Some(VeritasMode::ReplayNes),
        0x04 => Some(VeritasMode::ReplayA2600),
        0x05 => Some(VeritasMode::ReplayGenesis),
        _ => None,
    }
}

/// Wire byte of a transition kind.
pub open spec fn spec_transition_byte(t: Transition) -> u8 {
    match t {
        Transition::SoftReset => 0x01,
        Transition::PowerReset => 0x02,
        Transition::Unsupported => 0x00,
    }
}

pub fn transition_byte(t: Transition) -> (r: u8)
    ensures
        r == spec_transition_byte(t),
{
    match t {
        Transition::SoftReset => 0x01,
        Transition::PowerReset => 0x02,
        Transition::Unsupported => 0x00,
    }
}

/// Total reading of a transition-kind byte: anything unrecognized is
/// `Unsupported`, which the engines ignore.
pub open spec fn spec_transition_from_byte(b: u8) -> Transition {
    match b {
        0x01 => Transition::SoftReset,
        0x02 => Transition::PowerReset,
        _ => Transition::Unsupported,
    }
}

pub fn transition_from_byte(b: u8) -> (r: Transition)
    ensures
        r == spec_transition_from_byte(b),
{
    match b {
        0x01 => Transition::SoftReset,
        0x02 => Transition::PowerReset,
        _ => Transition::Unsupported,
    }
}

/// Frame width in bytes of one controller poll for each console the device
/// can impersonate; zero for consoles it cannot.
pub open spec fn spec_frame_width(s: System) -> nat {
    match s {
        System::Nes => 2,
        System::Genesis => 4,
        System::N64 => 16,
        _ => 0,
    }
}

pub fn frame_width(s: System) -> (r: usize)
    ensures
        r == spec_frame_width(s),
{
    match s {
        System::Nes => 2,
        System::Genesis => 4,
        System::N64 => 16,
        _ => 0,
    }
}

} // verus!
