//! The decisions inside the radio effects. The signal itself is floating point and is shaped
//! outside; what is kept here is when each effect starts, goes on and ends, and the generators
//! that its randomness is drawn from.
use vstd::prelude::*;

verus! {

/// A linear congruential generator: fast, and good enough for noise.
#[derive(Debug, Clone, Copy, PartialEq, Eq, Structural)]
pub struct Lcg {
    pub state: u32,
}

impl Lcg {
    /// The generator one step further.
    pub open spec fn next(self) -> Lcg {
        Lcg { state: ((self.state * 1664525 + 1013904223) % 0x1_0000_0000) as u32 }
    }

    /// Starts from a seed.
    pub fn new(seed: u32) -> (lcg: Self)
        ensures
            lcg == (Lcg { state: seed }),
    {
        Lcg { state: seed }
    }

    /// Steps the generator and hands out the new state.
    pub fn next_u32(&mut self) -> (value: u32)
        ensures
            *final(self) == old(self).next(),
            value == final(self).state,
    {
        let product: u32 = self.state.wrapping_mul(1664525);
        self.state = product.wrapping_add(1013904223);
        proof {
            let full: int = old(self).state * 1664525;
            assert(product == full % 0x1_0000_0000);
            assert((product + 1013904223) % 0x1_0000_0000 == (full + 1013904223) % 0x1_0000_0000)
                by (nonlinear_arith)
                requires
                    product == full % 0x1_0000_0000,
            ;
        }
        self.state
    }
}

/// Radio overdrive in random bursts.
#[derive(Debug, Clone, Copy, PartialEq, Eq, Structural)]
pub struct SoftClip {
    pub rng: Lcg,
    /// How many ticks a burst goes on.
    pub burst_remaining: usize,
    /// The drive that the overdrive moves to, in millionths.
    pub drive_target: u32,
}

/// The drive without a burst, in millionths: one.
pub const REST_DRIVE: u32 = 1_000_000;

/// The least drive of a burst, in millionths.
pub const MIN_BURST_DRIVE: u32 = 1_300_000;

/// The greatest drive of a burst, in millionths.
pub const MAX_BURST_DRIVE: u32 = 4_000_000;

impl Default for SoftClip {
    fn default() -> (clip: Self)
        ensures
            clip == SoftClip::initial(),
    {
        SoftClip { rng: Lcg::new(12345), burst_remaining: 0, drive_target: REST_DRIVE }
    }
}

impl SoftClip {
    /// The overdrive as it starts out.
    pub open spec fn initial() -> SoftClip {
        SoftClip { rng: Lcg { state: 12345 }, burst_remaining: 0, drive_target: REST_DRIVE }
    }

    /// A draw starts a burst: one in fifty does.
    pub open spec fn starts_burst(draw: u32) -> bool {
        draw * 50 < u32::MAX
    }

    /// The drive of a burst: a draw spreads over the range from the least to the greatest.
    pub open spec fn burst_drive(draw: u32) -> int {
        MIN_BURST_DRIVE + draw * (MAX_BURST_DRIVE - MIN_BURST_DRIVE) / (u32::MAX as int)
    }

    /// How many ticks a burst lasts after the one on which it starts: two to six, in equal parts
    /// of the range of a draw.
    pub open spec fn burst_length(draw: u32) -> int {
        2 + draw * 5 / 0x1_0000_0000
    }

    /// The next tick starts a burst.
    pub open spec fn about_to_burst(self) -> bool {
        self.burst_remaining == 0 && Self::starts_burst(self.rng.next().state)
    }

    /// The overdrive after a tick: a running burst is counted down; without one, draws decide
    /// whether a burst starts, how strong it is and how long it lasts.
    pub open spec fn ticked(self) -> SoftClip {
        let roll = self.rng.next();
        if self.burst_remaining > 0 {
            SoftClip { burst_remaining: (self.burst_remaining - 1) as usize, ..self }
        } else if Self::starts_burst(roll.state) {
            SoftClip {
                rng: roll.next().next(),
                burst_remaining: Self::burst_length(roll.next().next().state) as usize,
                drive_target: Self::burst_drive(roll.next().state) as u32,
            }
        } else {
            SoftClip { rng: roll, burst_remaining: 0, drive_target: REST_DRIVE }
        }
    }

    /// The overdrive after several ticks.
    pub open spec fn ticked_times(self, ticks: nat) -> SoftClip
        decreases ticks,
    {
        if ticks == 0 {
            self
        } else {
            self.ticked_times((ticks - 1) as nat).ticked()
        }
    }

    /// Begins a tick, and hands out the drive that the overdrive moves to, in millionths.
    pub fn process(&mut self) -> (drive_target: u32)
        ensures
            *final(self) == old(self).ticked(),
            drive_target == final(self).drive_target,
    {
        if self.burst_remaining > 0 {
            self.burst_remaining = self.burst_remaining - 1;
        } else {
            let roll: u32 = self.rng.next_u32();
            if (roll as u64) * 50 < 0xffff_ffff {
                let drive: u32 = self.rng.next_u32();
                let length: u32 = self.rng.next_u32();
                let above: u64 = (drive as u64) * 2_700_000 / 0xffff_ffff;
                let extra: u64 = (length as u64) * 5 / 0x1_0000_0000;
                self.drive_target = MIN_BURST_DRIVE + above as u32;
                self.burst_remaining = 2 + extra as usize;
            } else {
                self.drive_target = REST_DRIVE;
            }
        }
        self.drive_target
    }
}

/// A burst has a drive between 1.3 and 4.0, and goes on for two to six ticks after the one on
/// which it starts.
pub proof fn law_burst(clip: SoftClip)
    requires
        clip.about_to_burst(),
    ensures
        MIN_BURST_DRIVE <= clip.ticked().drive_target <= MAX_BURST_DRIVE,
        2 <= clip.ticked().burst_remaining <= 6,
{
    lemma_burst_drive(clip.rng.next().next().state);
}

proof fn lemma_burst_drive(draw: u32)
    ensures
        MIN_BURST_DRIVE <= SoftClip::burst_drive(draw) <= MAX_BURST_DRIVE,
{
    let above: int = draw * 2_700_000 / (u32::MAX as int);
    assert(0 <= above <= 2_700_000);
}

/// While a burst goes on its drive is kept and nothing is drawn; it is over after as many ticks as
/// it lasts.
pub proof fn law_burst_goes_on(clip: SoftClip, ticks: nat)
    requires
        clip.about_to_burst(),
        ticks <= clip.ticked().burst_remaining,
    ensures
        clip.ticked().ticked_times(ticks) == (SoftClip {
            burst_remaining: (clip.ticked().burst_remaining - ticks) as usize,
            ..clip.ticked()
        }),
    decreases ticks,
{
    if ticks > 0 {
        law_burst_goes_on(clip, (ticks - 1) as nat);
    }
}

/// The drive is always that of a burst, or one; and one whenever a tick has started no burst and
/// none was running.
pub proof fn law_drive_bounded(ticks: nat)
    ensures
        ({
            let clip = SoftClip::initial().ticked_times(ticks);
            &&& clip.drive_target == REST_DRIVE || MIN_BURST_DRIVE <= clip.drive_target
                <= MAX_BURST_DRIVE
            &&& clip.burst_remaining == 0 && !clip.about_to_burst() ==> clip.ticked().drive_target
                == REST_DRIVE
        }),
    decreases ticks,
{
    if ticks > 0 {
        law_drive_bounded((ticks - 1) as nat);
        let before = SoftClip::initial().ticked_times((ticks - 1) as nat);
        lemma_burst_drive(before.rng.next().next().state);
    }
}

/// What the radio noise does to a frame.
#[derive(Debug, Clone, Copy, PartialEq, Eq, Structural)]
pub enum NoiseStep {
    /// Nothing.
    Silent,
    /// Noise, and what is left of a squelch tail.
    Noise,
    /// Noise, and a new squelch tail whose level follows from this draw.
    StartTail(u32),
}

/// Noise under the voices, with a squelch tail once they fall silent.
#[derive(Debug, Clone, Copy, PartialEq, Eq, Structural)]
pub struct RadioNoise {
    pub lcg: Lcg,
    /// There were voices in the last frame.
    pub active: bool,
    /// A squelch tail is sounding.
    pub tail: bool,
}

impl RadioNoise {
    /// The noise as it starts out.
    pub open spec fn initial() -> RadioNoise {
        RadioNoise { lcg: Lcg { state: 54321 }, active: false, tail: false }
    }

    /// Whether there is anything to be heard.
    pub open spec fn sounding(self) -> bool {
        self.active || self.tail
    }

    /// What happens to a frame, with or without voices in it: once the voices drop, a squelch tail
    /// starts.
    pub open spec fn step(self, had_speakers: bool) -> NoiseStep {
        if had_speakers {
            NoiseStep::Noise
        } else if self.active {
            NoiseStep::StartTail(self.lcg.next().state)
        } else if self.tail {
            NoiseStep::Noise
        } else {
            NoiseStep::Silent
        }
    }

    /// The noise after a frame was begun, with or without voices in it.
    pub open spec fn after(self, had_speakers: bool) -> RadioNoise {
        if had_speakers {
            RadioNoise { active: true, tail: false, ..self }
        } else if self.active {
            RadioNoise { lcg: self.lcg.next(), active: false, tail: true }
        } else {
            self
        }
    }

    /// Starts out silent.
    pub fn new() -> (noise: Self)
        ensures
            noise == RadioNoise::initial(),
    {
        RadioNoise { lcg: Lcg::new(54321), active: false, tail: false }
    }

    /// Whether there is anything to be heard.
    pub fn is_active(&self) -> (active: bool)
        ensures
            active == self.sounding(),
    {
        self.active || self.tail
    }

    /// Forces a squelch tail; its level follows from the draw that is handed out.
    pub fn force_tail(&mut self) -> (draw: u32)
        ensures
            *final(self) == (RadioNoise { lcg: old(self).lcg.next(), active: false, tail: true }),
            draw == final(self).lcg.state,
    {
        self.active = false;
        self.tail = true;
        self.lcg.next_u32()
    }

    /// Begins a frame, with or without voices in it.
    pub fn process(&mut self, had_speakers: bool) -> (step: NoiseStep)
        ensures
            step == old(self).step(had_speakers),
            *final(self) == old(self).after(had_speakers),
    {
        if had_speakers {
            self.active = true;
            self.tail = false;
            NoiseStep::Noise
        } else if self.active {
            NoiseStep::StartTail(self.force_tail())
        } else if self.tail {
            NoiseStep::Noise
        } else {
            NoiseStep::Silent
        }
    }

    /// Draws for one sample of noise.
    pub fn draw(&mut self) -> (value: u32)
        ensures
            *final(self) == (RadioNoise { lcg: old(self).lcg.next(), ..*old(self) }),
            value == final(self).lcg.state,
    {
        self.lcg.next_u32()
    }

    /// The squelch tail has died away.
    pub fn end_tail(&mut self)
        ensures
            *final(self) == (RadioNoise { tail: false, ..*old(self) }),
    {
        self.tail = false;
    }
}

/// The sound of a sidetone frame.
#[derive(Debug, Clone, Copy, PartialEq, Eq, Structural)]
pub enum SidetoneSound {
    Click,
    Tail,
}

/// The push-to-talk click and the squelch tail that a speaker hears of themselves.
#[derive(Debug, Clone, Copy, PartialEq, Eq, Structural)]
pub struct SidetoneGenerator {
    pub click_lcg: Lcg,
    /// A click is sounding.
    pub click: bool,
    pub tail_noise: RadioNoise,
}

impl SidetoneGenerator {
    /// The generator as it starts out.
    pub open spec fn initial() -> SidetoneGenerator {
        SidetoneGenerator {
            click_lcg: Lcg { state: 99911 },
            click: false,
            tail_noise: RadioNoise::initial(),
        }
    }

    /// The generator with a click.
    pub open spec fn clicking(self) -> SidetoneGenerator {
        SidetoneGenerator { click: true, ..self }
    }

    /// The generator with a squelch tail.
    pub open spec fn trailing(self) -> SidetoneGenerator {
        let start = RadioNoise::initial();
        SidetoneGenerator {
            tail_noise: RadioNoise { lcg: start.lcg.next(), active: false, tail: true },
            ..self
        }
    }

    /// What is to be heard next: a click before a tail.
    pub open spec fn sound(self) -> Option<SidetoneSound> {
        if self.click {
            Some(SidetoneSound::Click)
        } else if self.tail_noise.sounding() {
            Some(SidetoneSound::Tail)
        } else {
            None
        }
    }

    /// Starts out silent.
    pub fn new() -> (generator: Self)
        ensures
            generator == SidetoneGenerator::initial(),
    {
        SidetoneGenerator {
            click_lcg: Lcg::new(99911),
            click: false,
            tail_noise: RadioNoise::new(),
        }
    }

    /// The speaker has pressed the key.
    pub fn trigger_click(&mut self)
        ensures
            *final(self) == old(self).clicking(),
    {
        self.click = true;
    }

    /// The speaker has released the key; the level of the tail follows from the draw.
    pub fn trigger_tail(&mut self) -> (draw: u32)
        ensures
            *final(self) == old(self).trailing(),
            draw == RadioNoise::initial().lcg.next().state,
    {
        let mut noise = RadioNoise::new();
        let draw: u32 = noise.force_tail();
        self.tail_noise = noise;
        draw
    }

    /// What is to be heard next.
    pub fn next_sound(&self) -> (sound: Option<SidetoneSound>)
        ensures
            sound == self.sound(),
    {
        if self.click {
            Some(SidetoneSound::Click)
        } else if self.tail_noise.is_active() {
            Some(SidetoneSound::Tail)
        } else {
            None
        }
    }

    /// Draws for one sample of a click.
    pub fn draw_click(&mut self) -> (value: u32)
        ensures
            *final(self) == (SidetoneGenerator { click_lcg: old(self).click_lcg.next(), ..*old(self)
            }),
            value == final(self).click_lcg.state,
    {
        self.click_lcg.next_u32()
    }

    /// The click has died away.
    pub fn end_click(&mut self)
        ensures
            *final(self) == (SidetoneGenerator { click: false, ..*old(self) }),
    {
        self.click = false;
    }
}

/// When the voices drop, a squelch tail starts, and the next silent frame starts no other.
pub proof fn law_one_tail_per_drop(noise: RadioNoise)
    ensures
        noise.after(true).step(false) is StartTail,
        noise.after(true).after(false).sounding(),
        !(noise.after(true).after(false).step(false) is StartTail),
{
}

/// Noise that nobody has spoken over, and whose tail is over, stays silent.
pub proof fn law_silence_stays(noise: RadioNoise)
    requires
        !noise.sounding(),
    ensures
        noise.step(false) == NoiseStep::Silent,
        noise.after(false) == noise,
{
}

/// A generator that has just been triggered is to be heard.
pub proof fn law_triggered_sounds(generator: SidetoneGenerator)
    ensures
        generator.clicking().sound() == Some(SidetoneSound::Click),
        generator.trailing().sound() is Some,
        !generator.click ==> generator.trailing().sound() == Some(SidetoneSound::Tail),
{
}

/// A step of a generator: the state times 1664525 and 1013904223 more, in 32 bits.
pub proof fn law_generator_step(lcg: Lcg)
    ensures
        (lcg.state * 1664525 + 1013904223 - lcg.next().state) % 0x1_0000_0000 == 0,
{
}

/// A draw starts a burst exactly if it lies in the lowest fiftieth of its range.
pub proof fn law_burst_chance(draw: u32)
    ensures
        SoftClip::starts_burst(draw) <==> draw <= 0xffff_ffff_u32 / 50,
{
}

/// The drive of a burst spreads evenly over its range: the least draw gives 1.3, the greatest 4.0,
/// and of any draw the drive is the exact share, rounded down to a millionth.
pub proof fn law_burst_drive_spread(draw: u32)
    ensures
        SoftClip::burst_drive(0) == 1_300_000,
        SoftClip::burst_drive(0xffff_ffff) == 4_000_000,
        0 <= draw * 2_700_000 - (SoftClip::burst_drive(draw) - 1_300_000) * 0xffff_ffff
            < 0xffff_ffff,
{
    let above: int = draw * 2_700_000 / 0xffff_ffff;
    assert(above * 0xffff_ffff <= draw * 2_700_000 < above * 0xffff_ffff + 0xffff_ffff);
}

/// The length of a burst takes each of the five values from two to six on an equal part of the range
/// of a draw.
pub proof fn law_burst_length_spread(draw: u32)
    ensures
        2 <= SoftClip::burst_length(draw) <= 6,
        (SoftClip::burst_length(draw) - 2) * 0x1_0000_0000 <= draw * 5 < (SoftClip::burst_length(
            draw,
        ) - 1) * 0x1_0000_0000,
{
}

/// What a tick does to the overdrive, part by part. A running burst is counted down, and nothing is
/// drawn. Without one a draw decides: it rests at one, or two more draws give drive and length.
pub proof fn law_tick_of_overdrive(clip: SoftClip)
    ensures
        clip.burst_remaining > 0 ==> {
            &&& clip.ticked().burst_remaining == clip.burst_remaining - 1
            &&& clip.ticked().drive_target == clip.drive_target
            &&& clip.ticked().rng == clip.rng
        },
        clip.burst_remaining == 0 && clip.rng.next().state > 0xffff_ffff_u32 / 50 ==> {
            &&& clip.ticked().burst_remaining == 0
            &&& clip.ticked().drive_target == 1_000_000
            &&& clip.ticked().rng == clip.rng.next()
        },
        clip.burst_remaining == 0 && clip.rng.next().state <= 0xffff_ffff_u32 / 50 ==> {
            &&& 2 <= clip.ticked().burst_remaining <= 6
            &&& 1_300_000 <= clip.ticked().drive_target <= 4_000_000
            &&& clip.ticked().rng == clip.rng.next().next().next()
            &&& clip.ticked().burst_remaining == SoftClip::burst_length(
                clip.rng.next().next().next().state,
            )
            &&& clip.ticked().drive_target == SoftClip::burst_drive(clip.rng.next().next().state)
        },
{
    lemma_burst_drive(clip.rng.next().next().state);
}

/// What a frame does to the noise, part by part. Voices make it active and end a tail; without them
/// an active noise starts a tail with one draw, and any other stays as it is.
pub proof fn law_frame_of_noise(noise: RadioNoise)
    ensures
        noise.step(true) == NoiseStep::Noise,
        noise.after(true).active,
        !noise.after(true).tail,
        noise.after(true).lcg == noise.lcg,
        noise.active ==> {
            &&& noise.step(false) == NoiseStep::StartTail(noise.lcg.next().state)
            &&& !noise.after(false).active
            &&& noise.after(false).tail
            &&& noise.after(false).lcg == noise.lcg.next()
        },
        !noise.active ==> {
            &&& noise.after(false) == noise
            &&& noise.step(false) == (if noise.tail {
                NoiseStep::Noise
            } else {
                NoiseStep::Silent
            })
        },
        noise.sounding() <==> noise.active || noise.tail,
{
}

/// How everything starts out: at rest, and from the seeds 12345, 54321 and 99911.
pub proof fn law_initial_states()
    ensures
        SoftClip::initial().rng.state == 12345,
        SoftClip::initial().burst_remaining == 0,
        SoftClip::initial().drive_target == 1_000_000,
        RadioNoise::initial().lcg.state == 54321,
        !RadioNoise::initial().active,
        !RadioNoise::initial().tail,
        SidetoneGenerator::initial().click_lcg.state == 99911,
        !SidetoneGenerator::initial().click,
        SidetoneGenerator::initial().tail_noise == RadioNoise::initial(),
{
}

/// What is to be heard of a sidetone: a click while there is one, then noise or its tail, then
/// nothing.
pub proof fn law_sound_of_sidetone(generator: SidetoneGenerator)
    ensures
        generator.sound() == Some(SidetoneSound::Click) <==> generator.click,
        generator.sound() == Some(SidetoneSound::Tail) <==> !generator.click && (
        generator.tail_noise.active || generator.tail_noise.tail),
        generator.sound() is None <==> !generator.click && !generator.tail_noise.active
            && !generator.tail_noise.tail,
{
}

} // verus!
