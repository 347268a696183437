use aviabot::audio::queue::{SpeakerQueue, MAX_SPEAKER_QUEUE};
use aviabot::audio::{decoder, encoder, mix, FRAME_SAMPLES};

fn frame(value: i16) -> [i16; FRAME_SAMPLES] {
    [value; FRAME_SAMPLES]
}

#[test]
fn queue_hands_frames_out_in_order() {
    let mut queue = SpeakerQueue::new();
    assert!(queue.pop().is_none());
    for value in 1..=3 {
        queue.push(&frame(value));
    }
    for value in 1..=3 {
        assert_eq!(queue.pop(), Some(frame(value)));
    }
    assert!(queue.pop().is_none());
}

#[test]
fn full_queue_loses_the_oldest_frame() {
    assert_eq!(MAX_SPEAKER_QUEUE, 8);
    let mut queue = SpeakerQueue::new();
    for value in 1..=11 {
        queue.push(&frame(value));
    }
    for value in 4..=11 {
        assert_eq!(queue.pop(), Some(frame(value)));
    }
    assert!(queue.pop().is_none());
}

#[test]
fn sums_saturate() {
    for a in [i16::MIN, -20000, -1, 0, 1, 20000, i16::MAX] {
        for b in [i16::MIN, -20000, -1, 0, 1, 20000, i16::MAX] {
            assert_eq!(mix::saturating_sum(a, b), a.saturating_add(b));
        }
    }
    assert_eq!(mix::saturating_sum(30000, 10000), 32767);
    assert_eq!(mix::saturating_sum(-30000, -10000), -32768);
}

#[test]
fn frames_are_added_sample_by_sample() {
    let mut sum = mix::silent_frame();
    assert_eq!(sum, frame(0));
    let mut voice = frame(0);
    for (i, sample) in voice.iter_mut().enumerate() {
        *sample = i as i16 - 480;
    }
    mix::add_frame(&mut sum, &voice);
    assert_eq!(sum, voice);
    mix::add_frame(&mut sum, &frame(32767));
    for i in 0..FRAME_SAMPLES {
        assert_eq!(sum[i], voice[i].saturating_add(32767));
    }
}

#[test]
fn empty_packets_carry_no_voice() {
    assert!(!decoder::carries_voice(&Vec::new()));
    assert!(decoder::carries_voice(&vec![0]));
}

#[test]
fn full_frames_are_kept() {
    let mut scratch: Vec<i16> = (0..FRAME_SAMPLES as i16).collect();
    let before = scratch.clone();
    assert!(decoder::complete_frame(Some(FRAME_SAMPLES), &mut scratch));
    assert_eq!(scratch, before);
}

#[test]
fn short_frames_are_filled_up_with_silence() {
    let mut scratch = vec![7i16; FRAME_SAMPLES];
    assert!(decoder::complete_frame(Some(480), &mut scratch));
    assert_eq!(scratch.len(), FRAME_SAMPLES);
    assert!(scratch[..480].iter().all(|s| *s == 7));
    assert!(scratch[480..].iter().all(|s| *s == 0));
}

#[test]
fn failed_and_empty_packets_give_no_frame() {
    let mut scratch = vec![7i16; FRAME_SAMPLES];
    assert!(!decoder::complete_frame(None, &mut scratch));
    assert!(!decoder::complete_frame(Some(0), &mut scratch));
    assert_eq!(scratch, vec![7i16; FRAME_SAMPLES]);
}

#[test]
fn packet_is_what_the_encoder_wrote() {
    let mut scratch = vec![0u8; encoder::MAX_PACKET];
    scratch[..3].copy_from_slice(&[1, 2, 3]);
    assert_eq!(encoder::packet(&scratch, Some(3)), Some(vec![1, 2, 3]));
    assert_eq!(encoder::packet(&scratch, Some(0)), Some(vec![]));
    assert_eq!(encoder::packet(&scratch, Some(1275)), Some(scratch.clone()));
    assert_eq!(encoder::packet(&scratch, None), None);
}
