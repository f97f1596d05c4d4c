use quiet_texture::channel::{tilt_direction, tilt_sign, TiltDirection};
use quiet_texture::driver::{BlockDriver, DriverAction};

fn run(num_samples: usize, num_channels: usize) -> Vec<DriverAction> {
    let mut d = BlockDriver::new(num_samples, num_channels);
    let mut out = Vec::new();
    loop {
        let a = d.next_action();
        if a == DriverAction::Done {
            break;
        }
        out.push(a);
    }
    out
}

#[test]
fn even_channels_darken_odd_channels_brighten() {
    assert_eq!(tilt_direction(0), TiltDirection::Darken);
    assert_eq!(tilt_direction(1), TiltDirection::Brighten);
    assert_eq!(tilt_direction(2), TiltDirection::Darken);
    assert_eq!(tilt_direction(7), TiltDirection::Brighten);
    assert_eq!(tilt_direction(usize::MAX), TiltDirection::Brighten);
    assert_eq!(tilt_sign(0), -1);
    assert_eq!(tilt_sign(1), 1);
    assert_eq!(tilt_sign(4), -1);
}

#[test]
fn stereo_parity_with_half_bias_on_unit_sample() {
    let bias: f32 = 0.5;
    let sample: f32 = 1.0;
    let shaped: Vec<f32> = (0..2)
        .map(|c| sample + tilt_sign(c) as f32 * bias * sample * 0.35)
        .collect();
    assert!((shaped[0] - 0.825).abs() < 1e-6);
    assert!((shaped[1] - 1.175).abs() < 1e-6);
}

#[test]
fn empty_block_only_polls_gain() {
    assert_eq!(run(0, 2), vec![DriverAction::PollGain]);
    assert_eq!(run(0, 0), vec![DriverAction::PollGain]);
}

#[test]
fn stereo_block_order() {
    let d = TiltDirection::Darken;
    let b = TiltDirection::Brighten;
    assert_eq!(
        run(2, 2),
        vec![
            DriverAction::PollGain,
            DriverAction::BeginSample { index: 0 },
            DriverAction::WriteChannel { index: 0, channel: 0, direction: d },
            DriverAction::WriteChannel { index: 0, channel: 1, direction: b },
            DriverAction::BeginSample { index: 1 },
            DriverAction::WriteChannel { index: 1, channel: 0, direction: d },
            DriverAction::WriteChannel { index: 1, channel: 1, direction: b },
        ]
    );
}

#[test]
fn tilt_advances_once_per_sample_for_any_channel_count() {
    for channels in 0..6usize {
        let actions = run(5, channels);
        let starts = actions
            .iter()
            .filter(|a| matches!(a, DriverAction::BeginSample { .. }))
            .count();
        assert_eq!(starts, 5);
        assert_eq!(actions.len(), 1 + 5 * (channels + 1));
    }
}

#[test]
fn samples_without_channels_still_advance_tilt() {
    assert_eq!(
        run(3, 0),
        vec![
            DriverAction::PollGain,
            DriverAction::BeginSample { index: 0 },
            DriverAction::BeginSample { index: 1 },
            DriverAction::BeginSample { index: 2 },
        ]
    );
}

#[test]
fn done_repeats_after_the_block() {
    let mut d = BlockDriver::new(1, 1);
    assert_eq!(d.next_action(), DriverAction::PollGain);
    assert_eq!(d.next_action(), DriverAction::BeginSample { index: 0 });
    assert_eq!(
        d.next_action(),
        DriverAction::WriteChannel { index: 0, channel: 0, direction: TiltDirection::Darken }
    );
    assert_eq!(d.next_action(), DriverAction::Done);
    assert_eq!(d.next_action(), DriverAction::Done);
}

#[test]
fn large_block_completes() {
    let actions = run(4096, 8);
    assert_eq!(actions.len(), 1 + 4096 * 9);
    assert_eq!(
        actions[actions.len() - 1],
        DriverAction::WriteChannel { index: 4095, channel: 7, direction: TiltDirection::Brighten }
    );
}
