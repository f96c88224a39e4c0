use castaway_pipeline::mixer::input::{Convert, MixInput, Offered, Part};
use castaway_pipeline::mixer::run::{Action, AudioMixer, Sink};
use castaway_pipeline::mixer::{
    frames_in, plan, to_stereo, Backpressure, Gain, MixerCounters, Pass, Supply, CHANNELS,
    DEVICE_FLOOR, DEVICE_LEAD, IDLE_CLOSE, LEAD, LIVE_BUDGET, QUANTUM, RATE, REOPEN_AFTER,
    REPORT_EVERY, STALE_AFTER, UNITY_BITS, WRITE_DEADLINE,
};
use castaway_pipeline::span::Span;

const EPOCH: u128 = 100_000_000_000;

fn at(nanos: u128) -> Span {
    Span { nanos }
}

fn frames(nanos: u128) -> u64 {
    frames_in(at(nanos))
}

/// An input that was fed these samples at a time.
fn filled(samples: Vec<f32>, fed: u128) -> MixInput<f32> {
    let mut input = MixInput::new(Backpressure::Live);
    let mut totals = MixerCounters::default();
    assert_eq!(
        input.offer(&samples, 0, at(fed), false, &mut totals),
        Offered::Taken
    );
    input
}

/// The parts of a pass, summed and scaled the way the speakers get them.
fn speak(parts: &[Part<f32>], frames: u64, gain: &Gain) -> Vec<f32> {
    let mut mixed = vec![0.0f32; frames as usize * CHANNELS as usize];
    for part in parts {
        for (slot, sample) in mixed[part.offset..].iter_mut().zip(&part.samples) {
            *slot += sample;
        }
    }
    let factor = f32::from_bits(gain.factor_bits());
    for sample in &mut mixed {
        *sample = (*sample * factor).clamp(-1.0, 1.0);
    }
    mixed
}

/// One pass over inputs, and what it counted.
fn pass(inputs: &mut [MixInput<f32>], frames: u64, now: u128) -> (Vec<f32>, MixerCounters) {
    let mut totals = MixerCounters::default();
    let mut parts = Vec::new();
    for input in inputs {
        if let Some(part) = input.pull(frames, at(now), &mut totals) {
            parts.push(part);
        }
    }
    (speak(&parts, frames, &Gain::default()), totals)
}

#[test]
fn an_input_is_what_its_ring_says_it_is() {
    let now = EPOCH;
    // Never fed: a surface, wherever the clock stands.
    assert_eq!(
        MixInput::<f32>::new(Backpressure::Pull).supply(at(now)),
        Supply::Surface
    );
    // Fed and holding audio: flowing, however old the last write is.
    let stale = now - STALE_AFTER * 4;
    assert_eq!(
        filled(vec![0.5; 8], stale).supply(at(now)),
        Supply::Flowing { frames: 4 }
    );
    // Fed, empty, but fresh: between packets, still flowing — with nothing to give.
    let mut between = filled(vec![0.5; 8], now);
    between.flush(&mut MixerCounters::default());
    assert_eq!(between.supply(at(now)), Supply::Flowing { frames: 0 });
    // Fed, empty, and quiet past the line: gone quiet, not starving.
    let mut quiet = filled(vec![0.5; 8], stale);
    quiet.flush(&mut MixerCounters::default());
    assert_eq!(quiet.supply(at(now)), Supply::Quiescent);
    // A stray sample is no frame, and holds nothing up.
    assert_eq!(filled(vec![0.5; 1], stale).supply(at(now)), Supply::Quiescent);
    // Closed: a tail, whatever else is true.
    let mut tail = filled(vec![0.5; 4], stale);
    tail.close();
    assert_eq!(tail.supply(at(now)), Supply::Tail { frames: 2 });
}

#[test]
fn a_pass_never_asks_for_more_than_the_scarcest_input_has() {
    let comfortable = frames(DEVICE_FLOOR) + 100;
    assert_eq!(
        plan(
            &[
                Supply::Flowing { frames: 100 },
                Supply::Flowing { frames: 700 }
            ],
            comfortable
        ),
        Pass::Take { frames: 100 }
    );
    assert_eq!(
        plan(
            &[Supply::Tail { frames: 3 }, Supply::Flowing { frames: 700 }],
            comfortable
        ),
        Pass::Take { frames: 3 }
    );
    assert_eq!(
        plan(
            &[
                Supply::Flowing { frames: 0 },
                Supply::Flowing { frames: 700 }
            ],
            comfortable
        ),
        Pass::Sleep
    );
}

#[test]
fn surfaces_and_quiet_inputs_constrain_nothing() {
    let comfortable = frames(DEVICE_FLOOR) + 100;
    assert_eq!(
        plan(
            &[Supply::Surface, Supply::Flowing { frames: 700 }],
            comfortable
        ),
        Pass::Take {
            frames: frames(QUANTUM)
        }
    );
    assert_eq!(
        plan(
            &[Supply::Quiescent, Supply::Flowing { frames: 700 }],
            comfortable
        ),
        Pass::Take {
            frames: frames(QUANTUM)
        }
    );
    assert_eq!(plan(&[Supply::Surface], comfortable), Pass::Sleep);
}

#[test]
fn silence_is_invented_only_at_the_floor() {
    assert_eq!(
        plan(&[Supply::Flowing { frames: 0 }], frames(DEVICE_FLOOR) + 1),
        Pass::Sleep
    );
    assert_eq!(
        plan(&[Supply::Flowing { frames: 0 }], frames(DEVICE_FLOOR)),
        Pass::Backstop
    );
    assert_eq!(plan(&[Supply::Surface], 0), Pass::Backstop);
    assert_eq!(plan(&[], 0), Pass::Backstop);
}

#[test]
fn the_device_ceiling_caps_the_take() {
    let full = frames(DEVICE_LEAD);
    assert_eq!(plan(&[Supply::Flowing { frames: 9600 }], full), Pass::Sleep);
    assert_eq!(
        plan(&[Supply::Flowing { frames: 9600 }], full - 7),
        Pass::Take { frames: 7 }
    );
}

#[test]
fn mono_is_duplicated_and_anything_wider_keeps_its_front_pair() {
    assert_eq!(to_stereo(&[0.5, 0.25], 1), vec![0.5, 0.5, 0.25, 0.25]);
    assert_eq!(to_stereo(&[0.5, 0.25], 2), vec![0.5, 0.25]);
    // 5.1 in the usual order: L R C LFE Ls Rs.
    let surround = [1.0, 2.0, 3.0, 4.0, 5.0, 6.0];
    assert_eq!(to_stereo(&surround, 6), vec![1.0, 2.0]);
}

#[test]
fn an_incomplete_frame_of_a_wide_source_is_left_out() {
    assert_eq!(to_stereo(&[1, 2, 3, 4, 5], 3), vec![1, 2]);
    assert_eq!(to_stereo(&[9, 8], 0), vec![9, 9, 8, 8]);
}

#[test]
fn muting_silences_the_mix_without_disturbing_the_level() {
    let mut gain = Gain::default();
    gain.set_bits(0.75f32.to_bits());
    gain.set_muted(true);
    let mut input = filled(vec![1.0; 4], EPOCH);
    let mut totals = MixerCounters::default();
    let part = input.pull(2, at(EPOCH), &mut totals).unwrap();
    assert_eq!(speak(&[part], 2, &gain), vec![0.0; 4]);
    assert!(gain.muted());
    assert!(
        (f32::from_bits(gain.level_bits()) - 0.75).abs() < 1e-4,
        "the level survives a mute"
    );
    gain.set_muted(false);
    assert_eq!(f32::from_bits(gain.factor_bits()), 0.75);
    assert_eq!(f32::from_bits(UNITY_BITS), 1.0);
    assert_eq!(Gain::default().factor_bits(), UNITY_BITS);
}

#[test]
fn a_shortfall_is_padded_in_front_so_a_late_source_defers_rather_than_stutters() {
    let (mixed, totals) = pass(&mut [filled(vec![1.0; 4], EPOCH)], 4, EPOCH);
    assert_eq!(mixed, vec![0.0, 0.0, 0.0, 0.0, 1.0, 1.0, 1.0, 1.0]);
    assert_eq!(
        totals.starved, 2,
        "half the pass was invented and has to say so"
    );
    assert_eq!(totals.drained, 2);
}

#[test]
fn an_input_that_went_quiet_is_idle_not_starved() {
    let mut quiet = filled(vec![0.5; 2], EPOCH - STALE_AFTER * 4);
    quiet.flush(&mut MixerCounters::default());
    let playing = filled(vec![0.5; 960], EPOCH);
    let (mixed, totals) = pass(&mut [quiet, playing], 480, EPOCH);
    assert_eq!(mixed, vec![0.5; 960], "the playing source is untouched");
    assert_eq!(
        totals.starved, 0,
        "a source with nothing to say is not being starved of anything"
    );
    assert_eq!(totals.idle, 480, "counted, as idle");
    assert_eq!(totals.drained, 480);
}

#[test]
fn a_tails_runout_is_the_end_of_a_session_not_a_fault() {
    let mut tail = filled(vec![1.0; 8], EPOCH);
    tail.close();
    let (mixed, totals) = pass(&mut [tail], 8, EPOCH);
    // The tail plays out — at the end of the pass, deferred like any shortfall.
    assert_eq!(
        &mixed[8..],
        vec![1.0; 8],
        "the last moment reaches the speakers"
    );
    assert_eq!(
        totals.starved, 0,
        "running out past the end is not starvation"
    );
    assert_eq!(totals.idle, 4);
}

#[test]
fn a_closed_input_is_retired_only_after_what_it_left_has_played_out() {
    let mut mixer: AudioMixer<f32> = AudioMixer::new(at(EPOCH));
    let id = mixer.input(Backpressure::Pull).unwrap();
    assert_eq!(
        mixer.offer(id, &vec![0.5; 960], at(EPOCH), false),
        Some(Offered::Taken)
    );
    mixer.close(id);
    mixer.begin(at(EPOCH), 0);
    assert!(
        mixer.supply(id, at(EPOCH)).is_some(),
        "closed, but it still has audio in it"
    );
    // Drain it the way the mixer does.
    assert!(matches!(mixer.wake(at(EPOCH), None), Action::OpenDevice));
    match mixer.opened(None, None) {
        Action::Write { frames, parts } => {
            assert_eq!(frames, 480);
            assert_eq!(parts.len(), 1);
        }
        other => panic!("{other:?}"),
    }
    mixer.written(true, at(EPOCH), None);
    mixer.begin(at(EPOCH), 0);
    assert!(
        mixer.supply(id, at(EPOCH)).is_none(),
        "closed and drained, so it should be gone"
    );
    assert!(mixer.parks(false));
    assert!(!mixer.parks(true));
}

#[test]
fn what_was_written_is_what_was_drained_plus_what_is_left() {
    let mut totals = MixerCounters::default();
    let mut input = MixInput::new(Backpressure::Pull);
    for _ in 0..4 {
        assert_eq!(
            input.offer(&[0.5f32; 960], 0, at(EPOCH), false, &mut totals),
            Offered::Taken
        );
    }
    assert_eq!(totals.written, 4 * 480, "the writer's own count, not a deduction");
    let _ = input.pull(500, at(EPOCH), &mut totals);
    let left = input.queued_frames();
    assert_eq!(totals.written, totals.drained + totals.shed + left);
    assert_eq!(totals.drained, 500);
}

#[test]
fn the_report_reads_the_counters_rather_than_taking_them() {
    let first = MixerCounters {
        written: 1000,
        drained: 990,
        starved: 10,
        emitted: 1000,
        ..MixerCounters::default()
    };
    let later = MixerCounters {
        written: 1500,
        emitted: 1500,
        ..first
    };
    let window = later.since(&first);
    assert_eq!(window.written, 500, "the window is a difference");
    assert_eq!(window.starved, 0, "and nothing starved in it");
    let (starved, emitted) = later.invented().expect("something was emitted");
    let invented = starved as f64 / emitted as f64;
    assert!((invented - 10.0 / 1500.0).abs() < 1e-9);
    assert_eq!(
        MixerCounters::default().invented(),
        None,
        "a mixer that never emitted has not starved; it has not run"
    );
    // A counter that went backwards reads as no progress.
    assert_eq!(first.since(&later).written, 0);

    // And through the mixer's own report.
    let mut mixer: AudioMixer<f32> = AudioMixer::new(at(EPOCH));
    let id = mixer.input(Backpressure::Pull).unwrap();
    mixer.offer(id, &vec![0.5; 960], at(EPOCH), false);
    mixer.measured(0.25f32.to_bits());
    mixer.measured(0.125f32.to_bits());
    assert_eq!(mixer.begin(at(EPOCH + REPORT_EVERY - 1), 3), None);
    let report = mixer.begin(at(EPOCH + REPORT_EVERY), 3).expect("a session wrote");
    assert_eq!(report.counters.written, 480);
    assert_eq!(report.dry, 3);
    assert_eq!(report.inputs, 1);
    assert_eq!(report.window, at(REPORT_EVERY));
    assert_eq!(f32::from_bits(report.peak), 0.25);
    assert_eq!(
        mixer.counters().written,
        480,
        "the reporter did not consume the total it printed"
    );
    // Nothing moved in the next window, so there is nothing to say.
    assert_eq!(mixer.begin(at(EPOCH + REPORT_EVERY * 2), 9), None);
    // The underruns of the window that went unsaid are not folded into the next.
    mixer.offer(id, &vec![0.5; 960], at(EPOCH + REPORT_EVERY * 2), false);
    let report = mixer.begin(at(EPOCH + REPORT_EVERY * 3), 10).unwrap();
    assert_eq!(report.dry, 1);
    assert_eq!(report.peak, 0);
}

/// A mixer, a device that plays in real time, and a clock that only this moves.
struct Bench {
    mixer: AudioMixer<f32>,
    now: u128,
    opens_at: u128,
    attempts: u64,
    open: bool,
    heard: f32,
}

impl Bench {
    fn new(opens_at: u128) -> Bench {
        Bench {
            mixer: AudioMixer::new(at(EPOCH)),
            now: EPOCH,
            opens_at,
            attempts: 0,
            open: false,
            heard: 0.0,
        }
    }

    /// One turn of the mixer's loop, a few milliseconds long.
    fn turn(&mut self) {
        let _ = self.mixer.begin(at(self.now), 0);
        let mut action = self.mixer.wake(at(self.now), None);
        if matches!(action, Action::OpenDevice) {
            self.attempts += 1;
            self.open = self.now >= self.opens_at;
            action = self
                .mixer
                .opened(self.open.then_some(at(self.now)), None);
        }
        match action {
            Action::Write { frames, parts } => {
                let mixed = speak(&parts, frames, &Gain::default());
                if self.open {
                    self.heard = mixed.iter().fold(self.heard, |p, s| p.max(s.abs()));
                }
                self.mixer.written(true, at(self.now), None);
                self.now += 1_000_000;
            }
            _ => self.now += 5_000_000,
        }
    }

    /// Write a block, turning the mixer while there is no room.
    fn write(&mut self, id: u64, samples: &[f32]) -> Offered {
        let deadline = self.now + WRITE_DEADLINE;
        let mut rest = samples;
        loop {
            match self
                .mixer
                .offer(id, rest, at(self.now), self.now >= deadline)
                .expect("the input is there")
            {
                Offered::Wait { taken } => {
                    rest = &rest[taken..];
                    self.turn();
                }
                done => return done,
            }
        }
    }
}

#[test]
fn a_source_cannot_run_further_than_the_lead_ahead_of_the_speakers() {
    let mut bench = Bench::new(0);
    let id = bench.mixer.input(Backpressure::Pull).unwrap();
    let start = bench.now;
    // 1 s in 50 ms blocks.
    for _ in 0..20 {
        assert_eq!(bench.write(id, &[0.5; 4800]), Offered::Taken);
    }
    let elapsed = bench.now - start;
    assert!(
        elapsed >= 400_000_000,
        "a second of audio went in in {elapsed} ns; nothing is pacing the source"
    );
    assert!(
        elapsed < 1_500_000_000,
        "a second of audio took {elapsed} ns; the pacing is not letting it run at all"
    );
}

#[test]
fn a_live_source_is_never_made_to_wait() {
    let mut bench = Bench::new(0);
    let id = bench.mixer.input(Backpressure::Live).unwrap();
    let start = bench.now;
    // 100 blocks of 50 ms: five seconds of audio, more than twice the budget.
    for _ in 0..100 {
        assert_eq!(bench.write(id, &[0.5; 4800]), Offered::Taken);
    }
    assert_eq!(bench.now, start, "a live source was parked");
    for _ in 0..20 {
        bench.turn();
    }
    assert!((bench.heard - 0.5).abs() < 1e-3, "and it is still audible");
    let totals = bench.mixer.counters();
    assert_eq!(totals.written, 240_000);
    assert_eq!(totals.shed, 240_000 - frames(LIVE_BUDGET));
}

#[test]
fn a_box_with_no_device_still_drains_its_sources_in_real_time() {
    let mut bench = Bench::new(u128::MAX);
    let id = bench.mixer.input(Backpressure::Pull).unwrap();
    let start = bench.now;
    for _ in 0..10 {
        assert_eq!(
            bench.write(id, &[0.5; 4800]),
            Offered::Taken,
            "nothing should have hit the write deadline"
        );
    }
    let elapsed = bench.now - start;
    assert!(
        elapsed < 1_200_000_000,
        "the source stalled behind a device that will not open: {elapsed} ns"
    );
    assert!(!bench.mixer.is_real());
}

#[test]
fn a_device_that_comes_back_is_reopened_and_heard() {
    // Asleep for two whole retry intervals, so the loop has to come back more than once.
    let opens_at = EPOCH + REOPEN_AFTER * 2;
    let mut bench = Bench::new(opens_at);
    let id = bench.mixer.input(Backpressure::Pull).unwrap();
    let deadline = opens_at + REOPEN_AFTER + 500_000_000;
    while bench.now < deadline {
        assert_eq!(
            bench.write(id, &[0.5; 480]),
            Offered::Taken,
            "a source was made to wait on a device that was not there"
        );
        bench.turn();
    }
    assert!(bench.heard > 0.4, "the device came back and nothing was heard");
    assert!(bench.mixer.is_real());
    assert!(
        (2..=4).contains(&bench.attempts),
        "the retries were not paced: {}",
        bench.attempts
    );
}

#[test]
fn a_flush_drops_what_was_queued_before_a_seek() {
    let mut mixer: AudioMixer<f32> = AudioMixer::new(at(EPOCH));
    let id = mixer.input(Backpressure::Pull).unwrap();
    mixer.offer(id, &vec![0.5; 9600], at(EPOCH), false);
    assert_eq!(
        mixer.supply(id, at(EPOCH)),
        Some(Supply::Flowing { frames: 4800 })
    );
    assert_eq!(mixer.flush(id), None, "nothing resamples, so nothing is rebuilt");
    assert_eq!(
        mixer.supply(id, at(EPOCH)),
        Some(Supply::Flowing { frames: 0 }),
        "pre-seek audio survived the flush"
    );
    let totals = mixer.counters();
    assert_eq!(totals.written, 4800);
    assert_eq!(totals.shed, 4800, "what was flushed is accounted for");
    assert_eq!(totals.drained, 0);
}

#[test]
fn a_shape_is_declared_once_and_rebuilt_when_it_resamples() {
    let mut mixer: AudioMixer<f32> = AudioMixer::new(at(EPOCH));
    let id = mixer.input(Backpressure::Live).unwrap();
    let convert = mixer.format(id, 44_100, 0).expect("a new shape");
    assert_eq!(
        convert,
        Convert {
            channels: 1,
            resample: Some(44_100)
        }
    );
    mixer.formatted(id, 44_100, 0);
    assert_eq!(mixer.format(id, 44_100, 0), None);
    assert_eq!(mixer.flush(id), Some(convert));
    assert_eq!(
        mixer.format(id, RATE, 2),
        Some(Convert {
            channels: 2,
            resample: None
        })
    );
    assert_eq!(mixer.format(id + 1, RATE, 2), None, "nobody goes by that name");
    assert_eq!(mixer.offer(id + 1, &[0.0], at(EPOCH), false), None);
}

#[test]
fn a_pull_source_over_its_lead_waits_and_then_loses_the_block() {
    let mut totals = MixerCounters::default();
    let mut input = MixInput::new(Backpressure::Pull);
    let lead = frames(LEAD);
    assert_eq!(lead, 12_000);
    let block = vec![0.0f32; 4];
    assert_eq!(
        input.offer(&block, lead, at(EPOCH), false, &mut totals),
        Offered::Wait { taken: 0 }
    );
    assert_eq!(
        input.offer(&block, lead, at(EPOCH), true, &mut totals),
        Offered::Dropped
    );
    assert_eq!(input.dropped(), 1);
    assert_eq!(totals.written, 0);
    // One frame fits: it goes in, and the other waits.
    assert_eq!(
        input.offer(&block, lead - 1, at(EPOCH), false, &mut totals),
        Offered::Wait { taken: 2 }
    );
    assert_eq!(input.queued_frames() + (lead - 1), lead);
    assert_eq!(totals.written, 1);
    assert_eq!(
        input.offer(&block[2..], lead - 1, at(EPOCH), true, &mut totals),
        Offered::Dropped
    );
    assert_eq!(input.dropped(), 2);
    assert_eq!(
        input.offer(&block, lead - 3, at(EPOCH), true, &mut totals),
        Offered::Taken
    );
    // Nobody holds a closed input to a budget.
    input.close();
    assert_eq!(
        input.offer(&block, lead, at(EPOCH), true, &mut totals),
        Offered::Taken
    );
    assert_eq!(totals.written, 5);
}

#[test]
fn a_block_longer_than_the_lead_goes_in_piece_by_piece() {
    let mut totals = MixerCounters::default();
    let mut input = MixInput::new(Backpressure::Pull);
    let lead = frames(LEAD);
    let block: Vec<f32> = (0..lead * 4).map(|at| at as f32).collect();
    let Offered::Wait { taken } = input.offer(&block, 0, at(EPOCH), false, &mut totals) else {
        panic!("twice the lead does not fit");
    };
    assert_eq!(taken as u64, lead * 2);
    assert_eq!(input.queued_frames(), lead);
    input.flush(&mut totals);
    assert_eq!(
        input.offer(&block[taken..], 0, at(EPOCH), false, &mut totals),
        Offered::Taken
    );
    assert_eq!(input.queued_frames(), lead);
    assert_eq!(totals.written, 2 * lead);
    assert_eq!(totals.shed, lead, "the flush let the first half go");
}

#[test]
fn a_live_source_sheds_its_oldest() {
    let mut totals = MixerCounters::default();
    let mut input = MixInput::new(Backpressure::Live);
    let budget = frames(LIVE_BUDGET) as usize;
    let old: Vec<u32> = (0..budget as u32 * 2).collect();
    input.offer(&old, 0, at(EPOCH), false, &mut totals);
    assert_eq!(
        input.offer(&[7, 7, 8, 8], 10, at(EPOCH), false, &mut totals),
        Offered::Taken
    );
    // Two frames came in and the device holds ten: twelve of the oldest went.
    assert_eq!(input.shed(), 12);
    assert_eq!(totals.shed, 12);
    let part = input.pull(1, at(EPOCH), &mut totals).unwrap();
    assert_eq!(part.samples, vec![24, 25]);
    let rest = input
        .pull(input.queued_frames(), at(EPOCH), &mut totals)
        .unwrap();
    assert_eq!(&rest.samples[rest.samples.len() - 4..], &[7, 7, 8, 8]);
}

#[test]
fn a_live_source_never_holds_more_than_its_budget() {
    let mut totals = MixerCounters::default();
    let mut input = MixInput::new(Backpressure::Live);
    let budget = frames(LIVE_BUDGET);
    let nearly: Vec<u32> = (0..(budget as u32 - 1) * 2).collect();
    input.offer(&nearly, 0, at(EPOCH), false, &mut totals);
    assert_eq!(totals.shed, 0);
    // One frame of room, and three come in: the two oldest go.
    input.offer(&[1, 1, 2, 2, 3, 3], 0, at(EPOCH), false, &mut totals);
    assert_eq!(input.queued_frames(), budget);
    assert_eq!(totals.shed, 2);
    // A block longer than the whole budget keeps its own newest.
    let long: Vec<u32> = (0..(budget as u32 + 5) * 2).collect();
    assert_eq!(
        input.offer(&long, 0, at(EPOCH), false, &mut totals),
        Offered::Taken
    );
    assert_eq!(input.queued_frames(), budget);
    assert_eq!(input.shed(), 2 + budget + 5);
    assert_eq!(totals.written, totals.shed + input.queued_frames());
    let part = input.pull(1, at(EPOCH), &mut totals).unwrap();
    assert_eq!(part.samples, vec![10, 11]);
}

#[test]
fn a_closed_input_with_half_a_frame_is_done() {
    let mut totals = MixerCounters::default();
    let mut input = MixInput::new(Backpressure::Live);
    input.offer(&[1, 2, 3], 0, at(EPOCH), false, &mut totals);
    input.close();
    assert!(input.live());
    let part = input.pull(1, at(EPOCH), &mut totals).unwrap();
    assert_eq!(part.samples, vec![1, 2]);
    assert!(!input.live());
}

#[test]
fn a_sink_that_cannot_count_plays_at_the_wall() {
    let sink = Sink {
        real: true,
        submitted: 4800,
        started: at(EPOCH),
    };
    assert_eq!(sink.inflight(at(EPOCH + 50_000_000), None), 2400);
    assert_eq!(sink.inflight(at(EPOCH + 50_000_000), Some(4000)), 800);
    assert_eq!(sink.inflight(at(EPOCH + 500_000_000), None), 0);
    assert_eq!(sink.inflight(at(0), None), 4800);
}

#[test]
fn a_device_is_let_go_only_after_a_quiet_spell() {
    let mut mixer: AudioMixer<f32> = AudioMixer::new(at(EPOCH));
    let id = mixer.input(Backpressure::Pull).unwrap();
    assert!(matches!(mixer.wake(at(EPOCH), None), Action::OpenDevice));
    let _ = mixer.opened(Some(at(EPOCH)), Some(0));
    mixer.written(true, at(EPOCH), Some(0));
    assert!(mixer.is_real());
    mixer.close(id);
    mixer.begin(at(EPOCH), 0);
    for (after, release) in [(0, false), (IDLE_CLOSE - 1, false), (IDLE_CLOSE, true)] {
        match mixer.wake(at(EPOCH + after), Some(0)) {
            Action::Park { release: told } => assert_eq!(told, release),
            other => panic!("{other:?}"),
        }
    }
    assert!(!mixer.is_real());
}

#[test]
fn a_device_that_fails_is_not_tried_again_at_once() {
    let mut mixer: AudioMixer<f32> = AudioMixer::new(at(EPOCH));
    let _ = mixer.input(Backpressure::Pull).unwrap();
    assert!(matches!(mixer.wake(at(EPOCH), None), Action::OpenDevice));
    assert!(matches!(
        mixer.opened(Some(at(EPOCH)), Some(0)),
        Action::Write { .. }
    ));
    mixer.written(false, at(EPOCH), None);
    assert!(!mixer.is_real());
    let soon = EPOCH + REOPEN_AFTER - 1;
    assert!(!matches!(mixer.wake(at(soon), None), Action::OpenDevice));
}

#[test]
fn frames_are_counted_down_and_stop_at_the_most() {
    assert_eq!(frames(QUANTUM), 480);
    assert_eq!(frames(20_833), 0);
    assert_eq!(frames(20_834), 1);
    assert_eq!(frames(u128::MAX), u64::MAX);
}
