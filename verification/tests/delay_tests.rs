use block_reverb::{ReverbError, ReverbModule};

/// One block of the allpass echo: consume the delayed chunk, mix the
/// attenuated delayed signal into the input, feed the mix back, and
/// combine mix and delayed signal into the output.
fn delay_process(m: &mut ReverbModule, samples: &[f32]) -> Vec<f32> {
    let amplitude = f32::from_bits(m.amplitude_bits);
    let delayed_words = m.take_delayed(samples.len());
    let delayed: Vec<f32> = delayed_words.iter().map(|w| f32::from_bits(*w)).collect();
    let mixed: Vec<f32> = samples
        .iter()
        .zip(delayed.iter().map(|d| d * amplitude))
        .map(|(x, d)| x + d)
        .collect();
    let mixed_words: Vec<u32> = mixed.iter().map(|s| s.to_bits()).collect();
    m.store_feedback(&mixed_words);
    mixed
        .iter()
        .map(|s| s * -amplitude)
        .zip(delayed.iter())
        .map(|(a, b)| a + b)
        .collect()
}

fn module(delay_samples: usize, amplitude: f32) -> ReverbModule {
    ReverbModule::new(delay_samples, amplitude.to_bits()).unwrap()
}

#[test]
fn rejects_zero_delay() {
    assert_eq!(
        ReverbModule::new(0, 0.5f32.to_bits()).err(),
        Some(ReverbError::BufferInit)
    );
}

#[test]
fn output_length_matches_input_length() {
    let mut m = module(100, 0.5);
    for n in [1usize, 7, 64, 100, 150, 250] {
        let chunk = vec![0.25f32; n];
        let out = delay_process(&mut m, &chunk);
        assert_eq!(out.len(), n);
    }
}

#[test]
fn silence_in_silence_out() {
    let mut m = module(128, 0.7);
    for n in [1usize, 33, 128, 200] {
        for _ in 0..50 {
            let out = delay_process(&mut m, &vec![0.0f32; n]);
            assert_eq!(out.len(), n);
            for s in out {
                assert_eq!(s, 0.0);
            }
        }
    }
}

#[test]
fn impulse_echoes_with_allpass_amplitudes() {
    // Delay of one whole chunk, amplitude one half: every value below is
    // a power of two, so the outputs are exact.
    let mut m = module(4, 0.5);
    let out1 = delay_process(&mut m, &[1.0, 0.0, 0.0, 0.0]);
    assert_eq!(out1, vec![-0.5, 0.0, 0.0, 0.0]);
    let out2 = delay_process(&mut m, &[0.0, 0.0, 0.0, 0.0]);
    assert_eq!(out2, vec![0.75, 0.0, 0.0, 0.0]);
    let out3 = delay_process(&mut m, &[0.0, 0.0, 0.0, 0.0]);
    assert_eq!(out3, vec![0.375, 0.0, 0.0, 0.0]);
    let out4 = delay_process(&mut m, &[0.0, 0.0, 0.0, 0.0]);
    assert_eq!(out4, vec![0.1875, 0.0, 0.0, 0.0]);
}

#[test]
fn bounded_output_under_feedback() {
    // |input| <= 1 and amplitude 1/2 keep every output within
    // (1 + a) / (1 - a) = 3 in magnitude, however many blocks run.
    let mut m = module(37, 0.5);
    let mut worst = 0.0f32;
    for block in 0..400 {
        let chunk: Vec<f32> = (0..64)
            .map(|i| if (i + block) % 2 == 0 { 1.0 } else { -1.0 })
            .collect();
        for s in delay_process(&mut m, &chunk) {
            worst = worst.max(s.abs());
            assert!(s.abs() <= 3.0);
        }
    }
    // The loop really did accumulate feedback energy.
    assert!(worst > 1.0);
}
