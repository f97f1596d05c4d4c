//! The order in which one processing block polls parameters and writes samples.
//!
//! A block is driven as a sequence of actions: the gain is read once for the
//! whole block; then, for each sample in order, the tilt smoother is advanced
//! once (and the mix read), after which each channel of that sample is written
//! in order. The caller performs each action on its own buffer and parameter
//! state; `BlockDriver` decides what comes next.
use vstd::prelude::*;

use crate::channel::{direction_of, tilt_direction, TiltDirection};

verus! {

/// One step of a processing block.
#[derive(Clone, Copy, Debug, PartialEq, Eq, Structural)]
pub enum DriverAction {
    /// Read the gain smoother once and convert it to a linear multiplier used
    /// for the whole block.
    PollGain,
    /// Start sample `index`: advance the tilt smoother once, fold its value
    /// into the tilt bias, and read the mix smoother.
    BeginSample { index: usize },
    /// Shape, scale and blend channel `channel` of sample `index`, writing the
    /// result over the input, with the tilt acting in `direction`.
    WriteChannel { index: usize, channel: usize, direction: TiltDirection },
    /// The block is complete.
    Done,
}

/// The writes of channels `from..num_channels` of sample `index`.
pub open spec fn channel_writes(num_channels: nat, index: nat, from: nat) -> Seq<DriverAction> {
    if from <= num_channels {
        Seq::new(
            (num_channels - from) as nat,
            |j: int|
                DriverAction::WriteChannel {
                    index: index as usize,
                    channel: (from + j) as usize,
                    direction: direction_of((from + j) as nat),
                },
        )
    } else {
        Seq::empty()
    }
}

/// The actions of samples `index..num_samples`, each a `BeginSample`
/// followed by the writes of all its channels.
pub open spec fn sample_actions(num_samples: nat, num_channels: nat, index: nat) -> Seq<
    DriverAction,
>
    decreases num_samples - index,
{
    if index < num_samples {
        seq![DriverAction::BeginSample { index: index as usize }] + channel_writes(
            num_channels,
            index,
            0,
        ) + sample_actions(num_samples, num_channels, index + 1)
    } else {
        Seq::empty()
    }
}

/// Every action of a block of `num_samples` samples of `num_channels`
/// channels, in the order in which they are to be performed.
pub open spec fn block_schedule(num_samples: nat, num_channels: nat) -> Seq<DriverAction> {
    seq![DriverAction::PollGain] + sample_actions(num_samples, num_channels, 0)
}

/// Hands out the actions of one processing block, one at a time.
///
/// Its view is the sequence of actions that are still to come.
pub struct BlockDriver {
    num_samples: usize,
    num_channels: usize,
    started: bool,
    sample: usize,
    channel: usize,
    in_sample: bool,
}

impl View for BlockDriver {
    type V = Seq<DriverAction>;

    closed spec fn view(&self) -> Seq<DriverAction> {
        let ns = self.num_samples as nat;
        let nc = self.num_channels as nat;
        if !self.started {
            block_schedule(ns, nc)
        } else if self.in_sample {
            channel_writes(nc, self.sample as nat, self.channel as nat) + sample_actions(
                ns,
                nc,
                self.sample as nat + 1,
            )
        } else {
            sample_actions(ns, nc, self.sample as nat)
        }
    }
}

impl BlockDriver {
    /// The driver's fields describe a point of its block's schedule.
    pub closed spec fn wf(&self) -> bool {
        &&& self.sample <= self.num_samples
        &&& !self.started ==> self.sample == 0 && !self.in_sample
        &&& self.in_sample ==> self.sample < self.num_samples && self.channel
            < self.num_channels
    }

    /// A driver for a block of `num_samples` samples of `num_channels`
    /// channels each, before its first action.
    pub fn new(num_samples: usize, num_channels: usize) -> (d: BlockDriver)
        ensures
            d.wf(),
            d@ == block_schedule(num_samples as nat, num_channels as nat),
    {
        BlockDriver {
            num_samples,
            num_channels,
            started: false,
            sample: 0,
            channel: 0,
            in_sample: false,
        }
    }

    /// The next action of the block, or `Done` once all have been handed out.
    pub fn next_action(&mut self) -> (r: DriverAction)
        requires
            old(self).wf(),
        ensures
            final(self).wf(),
            old(self)@.len() == 0 ==> r == DriverAction::Done && final(self)@ == old(self)@,
            old(self)@.len() > 0 ==> r == old(self)@[0] && final(self)@ == old(self)@.drop_first(),
    {
        let ghost ns = self.num_samples as nat;
        let ghost nc = self.num_channels as nat;
        if !self.started {
            self.started = true;
            assert(old(self)@.drop_first() =~= self@);
            return DriverAction::PollGain;
        }
        if self.in_sample {
            let i = self.sample;
            let c = self.channel;
            let ghost rest = sample_actions(ns, nc, i as nat + 1);
            if c + 1 == self.num_channels {
                self.in_sample = false;
                self.sample = i + 1;
                self.channel = 0;
                assert(old(self)@.drop_first() =~= rest);
            } else {
                self.channel = c + 1;
                assert(old(self)@.drop_first() =~= channel_writes(nc, i as nat, c as nat + 1)
                    + rest);
            }
            return DriverAction::WriteChannel { index: i, channel: c, direction: tilt_direction(c) };
        }
        if self.sample < self.num_samples {
            let i = self.sample;
            let ghost rest = sample_actions(ns, nc, i as nat + 1);
            if self.num_channels == 0 {
                self.sample = i + 1;
                assert(channel_writes(nc, i as nat, 0) =~= Seq::empty());
                assert(old(self)@.drop_first() =~= rest);
            } else {
                self.in_sample = true;
                self.channel = 0;
                assert(old(self)@.drop_first() =~= channel_writes(nc, i as nat, 0) + rest);
            }
            return DriverAction::BeginSample { index: i };
        }
        DriverAction::Done
    }
}

} // verus!
