use whispr::audio::{samples_for_ms, ChunkBuffer, TARGET_SAMPLE_RATE};
use whispr::vad::{VadEvent, VadState};

#[test]
fn chunk_sizes() {
    assert_eq!(TARGET_SAMPLE_RATE, 16_000);
    assert_eq!(samples_for_ms(100), 1600);
    assert_eq!(samples_for_ms(20), 320);
}

#[test]
fn chunks_come_out_whole_and_in_order() {
    let mut b = ChunkBuffer::new(1); // 16 samples
    let input: Vec<i16> = (0..100).collect();
    let mut out: Vec<Vec<i16>> = Vec::new();
    for piece in input.chunks(7) {
        out.extend(b.push(piece));
    }
    assert_eq!(out.len(), 6);
    assert!(out.iter().all(|c| c.len() == 16));
    let joined: Vec<i16> = out.concat();
    assert_eq!(joined, (0..96).collect::<Vec<i16>>());
    let rest = b.push(&(100..112).collect::<Vec<i16>>());
    assert_eq!(rest.len(), 1);
    assert_eq!(rest[0], (96..112).collect::<Vec<i16>>());
}

fn tone(ms: u32, amplitude: f32) -> Vec<i16> {
    let n = (TARGET_SAMPLE_RATE * ms / 1000) as usize;
    (0..n)
        .map(|i| {
            let t = i as f32 / TARGET_SAMPLE_RATE as f32;
            ((t * 440.0 * std::f32::consts::TAU).sin() * amplitude * i16::MAX as f32) as i16
        })
        .collect()
}

fn silence(ms: u32) -> Vec<i16> {
    vec![0i16; (TARGET_SAMPLE_RATE * ms / 1000) as usize]
}

/// Default detector: 20 ms frames, RMS threshold 0.015, 120 ms to start,
/// 800 ms hangover.
struct Vad(VadState);

impl Vad {
    fn new() -> Self {
        Vad(VadState::new(20, 120, 800))
    }
    fn push(&mut self, samples: &[i16]) -> Option<VadEvent> {
        let frames = self.0.take_frames(samples);
        let voicing: Vec<bool> = frames
            .iter()
            .map(|f| {
                let sum: f32 = f
                    .iter()
                    .map(|s| {
                        let x = *s as f32 / i16::MAX as f32;
                        x * x
                    })
                    .sum();
                (sum / f.len().max(1) as f32).sqrt() >= 0.015
            })
            .collect();
        self.0.push_voicing(&voicing)
    }
    fn is_speaking(&self) -> bool {
        self.0.is_speaking()
    }
}

#[test]
fn detects_speech_start_and_end() {
    let mut vad = Vad::new();
    assert_eq!(vad.push(&silence(200)), None);
    assert_eq!(vad.push(&tone(300, 0.3)), Some(VadEvent::SpeechStart));
    assert!(vad.is_speaking());
    assert_eq!(vad.push(&silence(1000)), Some(VadEvent::SpeechEnd));
    assert!(!vad.is_speaking());
}

#[test]
fn short_blip_does_not_trigger() {
    let mut vad = Vad::new();
    assert_eq!(vad.push(&tone(40, 0.3)), None);
    assert_eq!(vad.push(&silence(500)), None);
}

#[test]
fn short_pause_does_not_end_speech() {
    let mut vad = Vad::new();
    assert_eq!(vad.push(&tone(300, 0.3)), Some(VadEvent::SpeechStart));
    assert_eq!(vad.push(&silence(300)), None);
    assert!(vad.is_speaking());
    assert_eq!(vad.push(&tone(300, 0.3)), None);
}

#[test]
fn hysteresis_on_voicing() {
    let mut v = VadState::new(20, 120, 800);
    assert_eq!(v.push_voicing(&[true; 5]), None);
    assert_eq!(v.push_voicing(&[true]), Some(VadEvent::SpeechStart));
    assert_eq!(v.push_voicing(&[false; 39]), None);
    assert!(v.is_speaking());
    assert_eq!(v.push_voicing(&[false]), Some(VadEvent::SpeechEnd));
    // A batch reports its last transition only.
    let mut v = VadState::new(20, 20, 20);
    assert_eq!(v.push_voicing(&[true, false]), Some(VadEvent::SpeechEnd));
    assert!(!v.is_speaking());
    // A partial frame waits for more samples.
    let mut v = VadState::new(20, 120, 800);
    assert!(v.take_frames(&[0; 319]).is_empty());
    assert_eq!(v.take_frames(&[0; 1]).len(), 1);
}

use whispr::audio::chunk_ms_ok;

#[test]
fn capture_accepts_ten_to_a_thousand_ms() {
    assert!(!chunk_ms_ok(0));
    assert!(!chunk_ms_ok(9));
    assert!(chunk_ms_ok(10));
    assert!(chunk_ms_ok(100));
    assert!(chunk_ms_ok(1000));
    assert!(!chunk_ms_ok(1001));
    assert!(!chunk_ms_ok(u32::MAX));
}

#[test]
fn splitting_pushes_gives_the_same_chunks() {
    let input: Vec<i16> = (0..157).collect();
    let mut one = ChunkBuffer::new(1);
    let all = one.push(&input);
    assert_eq!(all.len(), 157 / 16);
    let mut two = ChunkBuffer::new(1);
    let mut parts = two.push(&input[..37]);
    assert_eq!(parts.len(), 2);
    parts.extend(two.push(&input[37..]));
    assert_eq!(parts, all);
    // The leftover is the same: one more sample completes a chunk in both.
    assert_eq!(one.push(&[0; 3]), two.push(&[0; 3]));
}

#[test]
fn splitting_a_vad_push_gives_the_same_events() {
    let mut audio = silence(130);
    audio.extend(tone(333, 0.3));
    audio.extend(silence(1010));
    for cut in [1usize, 17, 319, 4000, audio.len() - 5] {
        let mut whole = Vad::new();
        let e_whole = whole.push(&audio);
        let mut split = Vad::new();
        let ea = split.push(&audio[..cut]);
        let eb = split.push(&audio[cut..]);
        assert_eq!(eb.or(ea), e_whole);
        assert_eq!(split.is_speaking(), whole.is_speaking());
        assert_eq!(split.push(&tone(200, 0.3)), whole.push(&tone(200, 0.3)));
    }
}
