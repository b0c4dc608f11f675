//! The decisions of one file's measurement: which track parameters are
//! needed, what to do with each packet event, and when the accumulated
//! result is usable.

use vstd::prelude::*;

verus! {

/// Why one file could not be measured.
#[derive(PartialEq, Eq, Structural, Debug, Clone, Copy)]
pub enum MeasureError {
    OpenFailure,
    ProbeFailure,
    NoTrack,
    NoChannelInfo,
    NoSampleRate,
    DecodeFatal,
    NoEnergyData,
}

/// What the decode loop met on its latest step.
#[derive(PartialEq, Eq, Structural, Debug, Clone, Copy)]
pub enum PacketEvent {
    /// A packet of a track other than the selected one.
    OtherTrack,
    /// A packet of the selected track decoded into this many frames.
    Decoded { frames: usize },
    /// A malformed packet that the decoder rejected.
    Malformed,
    /// The stream ended.
    EndOfStream,
    /// A read failed for another reason than the end of the stream.
    IoFailure,
    /// The decoder failed in a way it cannot recover from.
    Fatal,
}

/// What the decode loop does next.
#[derive(PartialEq, Eq, Structural, Debug, Clone, Copy)]
pub enum PacketAction {
    /// Pass over a packet of another track, silently.
    Ignore,
    /// Hand the decoded samples to the accumulator.
    Feed,
    /// Pass over an empty decoded block, with a diagnostic.
    SkipEmpty,
    /// Pass over a malformed packet, with a diagnostic.
    SkipMalformed,
    /// Stop: the stream is done.
    Finish,
    /// Stop on an error; what was fed so far is still used.
    Abandon,
}

impl PacketAction {
    pub open spec fn stops(self) -> bool {
        self is Finish || self is Abandon
    }
}

/// The action owed to each event.
pub open spec fn action_for(e: PacketEvent) -> PacketAction {
    match e {
        PacketEvent::OtherTrack => PacketAction::Ignore,
        PacketEvent::Decoded { frames } => if frames > 0 {
            PacketAction::Feed
        } else {
            PacketAction::SkipEmpty
        },
        PacketEvent::Malformed => PacketAction::SkipMalformed,
        PacketEvent::EndOfStream => PacketAction::Finish,
        PacketEvent::IoFailure => PacketAction::Abandon,
        PacketEvent::Fatal => PacketAction::Abandon,
    }
}

/// The parameters a loudness accumulator is created with: channel count and
/// sample rate, both of which the track must state.
pub fn accumulator_params(channels: Option<usize>, rate: Option<u32>) -> (r: Result<
    (u32, u32),
    MeasureError,
>)
    ensures
        match (channels, rate) {
            (None, _) => r == Err::<(u32, u32), MeasureError>(MeasureError::NoChannelInfo),
            (Some(c), None) => r == if c <= u32::MAX {
                Err::<(u32, u32), MeasureError>(MeasureError::NoSampleRate)
            } else {
                Err::<(u32, u32), MeasureError>(MeasureError::NoChannelInfo)
            },
            (Some(c), Some(s)) => r == if c <= u32::MAX {
                Ok::<(u32, u32), MeasureError>((c as u32, s))
            } else {
                Err::<(u32, u32), MeasureError>(MeasureError::NoChannelInfo)
            },
        },
{
    let c = match channels {
        Some(c) => c,
        None => return Err(MeasureError::NoChannelInfo),
    };
    if c > u32::MAX as usize {
        return Err(MeasureError::NoChannelInfo);
    }
    match rate {
        Some(s) => Ok((c as u32, s)),
        None => Err(MeasureError::NoSampleRate),
    }
}

/// Progress of one file's decode loop.
#[derive(PartialEq, Eq, Structural, Debug, Clone, Copy)]
pub struct DecodeProgress {
    /// Whether any samples reached the accumulator.
    pub fed_any: bool,
    /// The action that ended the loop, once it has ended.
    pub stop: Option<PacketAction>,
}

impl DecodeProgress {
    /// A loop that has not yet seen a packet.
    pub fn new() -> (r: Self)
        ensures
            !r.fed_any,
            r.stop is None,
    {
        DecodeProgress { fed_any: false, stop: None }
    }

    /// Whether the loop goes on.
    pub fn running(&self) -> (r: bool)
        ensures
            r == (self.stop is None),
    {
        self.stop.is_none()
    }

    /// Takes one event and says what to do with it.
    pub fn step(&mut self, event: PacketEvent) -> (r: PacketAction)
        requires
            old(self).stop is None,
        ensures
            r == action_for(event),
            final(self).fed_any == (old(self).fed_any || r is Feed),
            final(self).stop == if r.stops() {
                Some(r)
            } else {
                None::<PacketAction>
            },
    {
        let action = match event {
            PacketEvent::OtherTrack => PacketAction::Ignore,
            PacketEvent::Decoded { frames } => if frames > 0 {
                PacketAction::Feed
            } else {
                PacketAction::SkipEmpty
            },
            PacketEvent::Malformed => PacketAction::SkipMalformed,
            PacketEvent::EndOfStream => PacketAction::Finish,
            PacketEvent::IoFailure => PacketAction::Abandon,
            PacketEvent::Fatal => PacketAction::Abandon,
        };
        match action {
            PacketAction::Feed => {
                self.fed_any = true;
            },
            PacketAction::Finish | PacketAction::Abandon => {
                self.stop = Some(action);
            },
            _ => {},
        }
        action
    }

    /// Whether a result can be given once the loop is over, where
    /// `has_energy` tells whether the accumulator holds gated blocks: a loop
    /// that was abandoned before any samples were fed failed to decode, and
    /// an accumulator without gated blocks has no energy to report.
    pub fn conclude(&self, has_energy: bool) -> (r: Result<(), MeasureError>)
        ensures
            r == if self.stop == Some(PacketAction::Abandon) && !self.fed_any {
                Err::<(), MeasureError>(MeasureError::DecodeFatal)
            } else if !has_energy {
                Err::<(), MeasureError>(MeasureError::NoEnergyData)
            } else {
                Ok::<(), MeasureError>(())
            },
    {
        if !self.fed_any && matches!(self.stop, Some(PacketAction::Abandon)) {
            Err(MeasureError::DecodeFatal)
        } else if !has_energy {
            Err(MeasureError::NoEnergyData)
        } else {
            Ok(())
        }
    }
}

} // verus!
