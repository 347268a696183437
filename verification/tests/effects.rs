use aviabot::audio::effects::{
    Lcg, NoiseStep, RadioNoise, SidetoneGenerator, SidetoneSound, SoftClip, MAX_BURST_DRIVE,
    MIN_BURST_DRIVE, REST_DRIVE,
};

#[test]
fn generator_steps_modulo_the_word() {
    let mut lcg = Lcg::new(0);
    assert_eq!(lcg.next_u32(), 1013904223);
    assert_eq!(lcg.next_u32(), 1196435762);
    let mut state: u32 = 54321;
    let mut lcg = Lcg::new(54321);
    for _ in 0..1000 {
        state = state.wrapping_mul(1664525).wrapping_add(1013904223);
        assert_eq!(lcg.next_u32(), state);
        assert_eq!(lcg.state, state);
    }
}

#[test]
fn overdrive_follows_its_draws() {
    let mut clip = SoftClip::default();
    assert_eq!(clip.rng, Lcg::new(12345));
    assert_eq!(clip.burst_remaining, 0);
    assert_eq!(clip.drive_target, REST_DRIVE);
    let mut lcg = Lcg::new(12345);
    let mut lengths = [0usize; 7];
    let mut bursts = 0;
    let mut rolls = 0;
    while rolls < 20000 {
        rolls += 1;
        let roll = lcg.next_u32() as u64;
        let target = clip.process();
        if roll * 50 >= u32::MAX as u64 {
            assert_eq!(target, REST_DRIVE);
            assert_eq!(clip.burst_remaining, 0);
            continue;
        }
        bursts += 1;
        let drive = lcg.next_u32() as f64 / u32::MAX as f64;
        assert!((target as f64 / 1e6 - (1.3 + drive * 2.7)).abs() < 2e-6);
        assert!(target >= MIN_BURST_DRIVE && target <= MAX_BURST_DRIVE);
        let length = 2 + (lcg.next_u32() as u64 * 5 >> 32) as usize;
        lengths[length] += 1;
        for left in (0..length).rev() {
            assert_eq!(clip.process(), target);
            assert_eq!(clip.burst_remaining, left);
            assert_eq!(clip.rng, lcg);
        }
    }
    assert!(bursts > 300 && bursts < 500);
    assert!(lengths[2..=6].iter().all(|n| *n > 0));
}

#[test]
fn drive_of_a_burst_spans_its_range() {
    // Seeds from which the first draw starts a burst.
    let mut least = u32::MAX;
    let mut greatest = 0;
    for seed in 0..200000u32 {
        let mut clip = SoftClip { rng: Lcg::new(seed), burst_remaining: 0, drive_target: 0 };
        let target = clip.process();
        if clip.burst_remaining > 0 {
            least = least.min(target);
            greatest = greatest.max(target);
        } else {
            assert_eq!(target, REST_DRIVE);
        }
    }
    assert!(least >= 1_300_000 && least < 1_310_000);
    assert!(greatest <= 4_000_000 && greatest > 3_990_000);
}

#[test]
fn noise_starts_out_silent() {
    let mut noise = RadioNoise::new();
    assert!(!noise.is_active());
    assert_eq!(noise.process(false), NoiseStep::Silent);
    assert_eq!(noise, RadioNoise::new());
}

#[test]
fn voices_leave_one_squelch_tail() {
    let mut noise = RadioNoise::new();
    assert_eq!(noise.process(true), NoiseStep::Noise);
    assert!(noise.is_active());
    assert_eq!(noise.process(true), NoiseStep::Noise);
    let mut lcg = Lcg::new(54321);
    assert_eq!(noise.process(false), NoiseStep::StartTail(lcg.next_u32()));
    assert!(noise.is_active());
    assert_eq!(noise.draw(), lcg.next_u32());
    assert_eq!(noise.process(false), NoiseStep::Noise);
    noise.end_tail();
    assert!(!noise.is_active());
    assert_eq!(noise.process(false), NoiseStep::Silent);
}

#[test]
fn voices_cut_a_tail_off() {
    let mut noise = RadioNoise::new();
    let draw = noise.force_tail();
    assert_eq!(draw, Lcg::new(54321).next_u32());
    assert!(noise.is_active());
    assert_eq!(noise.process(true), NoiseStep::Noise);
    assert!(!noise.tail);
    assert!(noise.active);
}

#[test]
fn click_comes_before_the_tail() {
    let mut track = SidetoneGenerator::new();
    assert_eq!(track.next_sound(), None);
    track.trigger_click();
    assert_eq!(track.next_sound(), Some(SidetoneSound::Click));
    assert_eq!(track.draw_click(), Lcg::new(99911).next_u32());
    let draw = track.trigger_tail();
    assert_eq!(draw, Lcg::new(54321).next_u32());
    assert_eq!(track.next_sound(), Some(SidetoneSound::Click));
    track.end_click();
    assert_eq!(track.next_sound(), Some(SidetoneSound::Tail));
    track.tail_noise.end_tail();
    assert_eq!(track.next_sound(), None);
}

#[test]
fn every_tail_starts_from_the_same_draw() {
    let mut track = SidetoneGenerator::new();
    let first = track.trigger_tail();
    track.tail_noise.draw();
    assert_eq!(track.trigger_tail(), first);
}
