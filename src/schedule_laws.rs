//! Properties of the action sequence of a processing block.
use vstd::prelude::*;

use crate::channel::direction_of;
use crate::driver::{block_schedule, channel_writes, sample_actions, DriverAction};

verus! {

/// The number of `BeginSample` actions in `s`, that is, how many times the
/// tilt smoother is advanced while `s` is performed.
pub open spec fn count_sample_starts(s: Seq<DriverAction>) -> nat
    decreases s.len(),
{
    if s.len() == 0 {
        0
    } else {
        count_sample_starts(s.drop_last()) + if s.last() is BeginSample {
            1nat
        } else {
            0nat
        }
    }
}

proof fn lemma_count_add(a: Seq<DriverAction>, b: Seq<DriverAction>)
    ensures
        count_sample_starts(a + b) == count_sample_starts(a) + count_sample_starts(b),
    decreases b.len(),
{
    if b.len() == 0 {
        assert(a + b =~= a);
    } else {
        assert((a + b).drop_last() =~= a + b.drop_last());
        lemma_count_add(a, b.drop_last());
    }
}

proof fn lemma_channel_writes_start_nothing(num_channels: nat, index: nat, from: nat)
    requires
        from <= num_channels,
    ensures
        count_sample_starts(channel_writes(num_channels, index, from)) == 0,
    decreases num_channels - from,
{
    let s = channel_writes(num_channels, index, from);
    if s.len() > 0 {
        assert(s.drop_last() =~= channel_writes((num_channels - 1) as nat, index, from));
        lemma_channel_writes_start_nothing((num_channels - 1) as nat, index, from);
    }
}

proof fn lemma_sample_actions_len(num_samples: nat, num_channels: nat, index: nat)
    requires
        index <= num_samples,
    ensures
        sample_actions(num_samples, num_channels, index).len() == (num_samples - index) * (
        num_channels + 1),
    decreases num_samples - index,
{
    if index < num_samples {
        let head = seq![DriverAction::BeginSample { index: index as usize }];
        let writes = channel_writes(num_channels, index, 0);
        let rest = sample_actions(num_samples, num_channels, index + 1);
        assert(sample_actions(num_samples, num_channels, index) == head + writes + rest);
        assert(writes.len() == num_channels);
        lemma_sample_actions_len(num_samples, num_channels, index + 1);
        assert((num_samples - index) * (num_channels + 1) == (num_channels + 1) + (num_samples - (
        index + 1)) * (num_channels + 1)) by (nonlinear_arith);
        assert(sample_actions(num_samples, num_channels, index).len() == (num_samples - index) * (
        num_channels + 1));
    } else {
        assert(sample_actions(num_samples, num_channels, index).len() == 0);
        assert(num_samples - index == 0);
    }
}

proof fn lemma_sample_actions_starts(num_samples: nat, num_channels: nat, index: nat)
    requires
        index <= num_samples,
    ensures
        count_sample_starts(sample_actions(num_samples, num_channels, index)) == num_samples
            - index,
    decreases num_samples - index,
{
    if index < num_samples {
        let head = seq![DriverAction::BeginSample { index: index as usize }];
        let writes = channel_writes(num_channels, index, 0);
        let rest = sample_actions(num_samples, num_channels, index + 1);
        assert(sample_actions(num_samples, num_channels, index) == head + writes + rest);
        lemma_sample_actions_starts(num_samples, num_channels, index + 1);
        lemma_channel_writes_start_nothing(num_channels, index, 0);
        lemma_count_add(head + writes, rest);
        lemma_count_add(head, writes);
        assert(head.drop_last() =~= Seq::<DriverAction>::empty());
        assert(count_sample_starts(Seq::<DriverAction>::empty()) == 0);
        assert(count_sample_starts(head) == 1);
    } else {
        assert(sample_actions(num_samples, num_channels, index) =~= Seq::<DriverAction>::empty());
    }
}

proof fn lemma_sample_actions_at(num_samples: nat, num_channels: nat, index: nat, i: nat, k: nat)
    requires
        index <= i < num_samples,
        k < num_channels,
    ensures
        sample_actions(num_samples, num_channels, index)[(i - index) * (num_channels + 1)]
            == (DriverAction::BeginSample { index: i as usize }),
        sample_actions(num_samples, num_channels, index)[(i - index) * (num_channels + 1) + 1
            + k] == (DriverAction::WriteChannel {
            index: i as usize,
            channel: k as usize,
            direction: direction_of(k),
        }),
    decreases num_samples - index,
{
    let head = seq![DriverAction::BeginSample { index: index as usize }];
    let writes = channel_writes(num_channels, index, 0);
    let rest = sample_actions(num_samples, num_channels, index + 1);
    assert(sample_actions(num_samples, num_channels, index) == head + writes + rest);
    assert(writes.len() == num_channels);
    if index == i {
        assert((i - index) * (num_channels + 1) == 0) by (nonlinear_arith)
            requires
                index == i,
        ;
        assert(writes[k as int] == (DriverAction::WriteChannel {
            index: i as usize,
            channel: k as usize,
            direction: direction_of(k),
        }));
    }
    if index < i {
        lemma_sample_actions_at(num_samples, num_channels, index + 1, i, k);
        lemma_sample_actions_len(num_samples, num_channels, index + 1);
        assert((i - index) * (num_channels + 1) == (num_channels + 1) + (i - (index + 1)) * (
        num_channels + 1)) by (nonlinear_arith)
            requires
                index < i,
        ;
        assert((i - (index + 1)) * (num_channels + 1) + 1 + k < (num_samples - (index + 1)) * (
        num_channels + 1)) by (nonlinear_arith)
            requires
                i < num_samples,
                index < i,
                k < num_channels,
        ;
    }
}

/// A block is its gain poll followed, for each sample in order, by one
/// advance of the tilt smoother and then the writes of all channels of that
/// sample in order: sample `i` starts at position `1 + i * (num_channels + 1)`
/// and its channel `k` is written at `2 + i * (num_channels + 1) + k`, with
/// the tilt acting in the direction that the parity of `k` gives.
pub proof fn lemma_block_order(num_samples: nat, num_channels: nat, i: nat, k: nat)
    requires
        i < num_samples,
        k < num_channels,
    ensures
        block_schedule(num_samples, num_channels)[0] == DriverAction::PollGain,
        block_schedule(num_samples, num_channels)[1 + i * (num_channels + 1) as int]
            == (DriverAction::BeginSample { index: i as usize }),
        block_schedule(num_samples, num_channels)[2 + i * (num_channels + 1) + k as int]
            == (DriverAction::WriteChannel {
            index: i as usize,
            channel: k as usize,
            direction: direction_of(k),
        }),
{
    lemma_sample_actions_at(num_samples, num_channels, 0, i, k);
    lemma_sample_actions_len(num_samples, num_channels, 0);
    assert(i * (num_channels + 1) + 1 + k < num_samples * (num_channels + 1)) by (nonlinear_arith)
        requires
            i < num_samples,
            k < num_channels,
    ;
}

/// A block takes exactly `1 + num_samples * (num_channels + 1)` actions: its
/// work is bounded by the size of the buffer.
pub proof fn lemma_block_length(num_samples: nat, num_channels: nat)
    ensures
        block_schedule(num_samples, num_channels).len() == 1 + num_samples * (num_channels + 1),
{
    lemma_sample_actions_len(num_samples, num_channels, 0);
}

/// The tilt smoother is advanced exactly once per sample, whatever the
/// number of channels.
pub proof fn lemma_tilt_advances_once_per_sample(num_samples: nat, num_channels: nat)
    ensures
        count_sample_starts(block_schedule(num_samples, num_channels)) == num_samples,
{
    let head = seq![DriverAction::PollGain];
    assert(block_schedule(num_samples, num_channels) == head + sample_actions(
        num_samples,
        num_channels,
        0,
    ));
    lemma_sample_actions_starts(num_samples, num_channels, 0);
    lemma_count_add(head, sample_actions(num_samples, num_channels, 0));
    assert(head.drop_last() =~= Seq::<DriverAction>::empty());
    assert(count_sample_starts(Seq::<DriverAction>::empty()) == 0);
    assert(count_sample_starts(head) == 0);
}

/// A block without samples only polls the gain: no sample is touched.
pub proof fn lemma_empty_block_writes_nothing(num_channels: nat)
    ensures
        block_schedule(0, num_channels) == seq![DriverAction::PollGain],
{
    assert(block_schedule(0, num_channels) =~= seq![DriverAction::PollGain]);
}

} // verus!
