use acoustic_coupler::bytes::encode_u8;
use acoustic_coupler::coupler::{ACCBuilder, AcousticCoupler, AcousticCouplerConfig};
use acoustic_coupler::datalink::frame;
use acoustic_coupler::error::CouplerError;
use acoustic_coupler::hamming::encode;
use acoustic_coupler::modem::modulator::{bfsk, cpfsk, modulate, qfsk, ModulationConfig, ModulationFormat};
use acoustic_coupler::session::SessionEvent::{
    Discarded, FrameDecoded, FrameFailed, PreambleDetected, Stop, TimedOut, TonesExchanged,
};
use acoustic_coupler::session::{read_frame, transition, ChannelSession, SessionEvent};
use acoustic_coupler::{ModulationMethod, Status};

fn config(scheme: ModulationMethod) -> ModulationConfig {
    ModulationConfig::new(44100, 300, 1000, 500, i16::MAX, scheme).unwrap()
}

#[test]
fn cpfsk_sums_the_held_frequencies() {
    assert_eq!(cpfsk(vec![3, 5], 10, 2), vec![3, 6, 1, 6]);
    assert_eq!(cpfsk(vec![3, 5], 100, 2), vec![3, 6, 11, 16]);
    assert_eq!(cpfsk(vec![7], 5, 3), vec![2, 4, 1]);
    assert_eq!(cpfsk(vec![3, 5], 10, 0), Vec::<u32>::new());
    assert_eq!(cpfsk(Vec::new(), 10, 4), Vec::<u32>::new());
    assert_eq!(cpfsk(vec![u32::MAX, u32::MAX], u32::MAX, 1), vec![0, 0]);
}

#[test]
fn bfsk_keys_two_tones() {
    assert_eq!(bfsk(&vec![false, true], 100, 20, 1000, 2), vec![100, 200, 320, 440]);
    assert_eq!(bfsk(&vec![true, true, true], 400, 100, 1000, 1), vec![500, 0, 500]);
}

#[test]
fn qfsk_keys_four_tones_in_binary_order() {
    let bin = [false, false, false, true, true, false, true, true];
    assert_eq!(qfsk(&bin, 100, 10, 100000, 1), vec![100, 210, 330, 460]);
    assert_eq!(qfsk(&bin[2..6], 100, 10, 1000, 2), vec![110, 220, 340, 460]);
    assert_eq!(qfsk(&[], 100, 10, 1000, 2), Vec::<u32>::new());
}

#[test]
fn phase_steps_by_the_held_frequency() {
    let sample_rate: u32 = 44100;
    for scheme in [ModulationMethod::BFSK, ModulationMethod::QFSK] {
        let c = config(scheme);
        let bits = vec![true, false, false, true, true, true, false, false];
        let phases = modulate(&bits, &c).unwrap();
        let per_symbol: usize = 147;
        for i in 1..phases.len() {
            let step = (phases[i] + sample_rate - phases[i - 1]) % sample_rate;
            let symbol = i / per_symbol;
            let expected = match scheme {
                ModulationMethod::BFSK => 1000 + 500 * (bits[symbol] as u32),
                ModulationMethod::QFSK => {
                    1000 + 500 * (2 * (bits[2 * symbol] as u32) + bits[2 * symbol + 1] as u32)
                }
            };
            assert_eq!(step, expected);
            assert!(step <= 2500);
        }
        assert_eq!(phases[0], 1000 + 500 * if scheme == ModulationMethod::BFSK { 1 } else { 2 });
    }
}

#[test]
fn configuration_is_validated() {
    let ok = ModulationConfig::new(44100, 300, 3000, 3000, i16::MAX, ModulationMethod::BFSK);
    assert!(ok.is_ok());
    let c = ok.unwrap();
    assert_eq!(c.samples_per_symbol(), 147);
    assert_eq!(c.samples_left_over(), 0);
    assert!(c.is_valid());
    let uneven = ModulationConfig::new(44100, 1000, 3000, 3000, 1, ModulationMethod::BFSK).unwrap();
    assert_eq!(uneven.samples_per_symbol(), 44);
    assert_eq!(uneven.samples_left_over(), 100);
    let bad = [
        ModulationConfig::new(0, 300, 3000, 3000, 1, ModulationMethod::BFSK),
        ModulationConfig::new(44100, 0, 3000, 3000, 1, ModulationMethod::BFSK),
        ModulationConfig::new(100, 300, 10, 10, 1, ModulationMethod::BFSK),
        ModulationConfig::new(44100, 300, 3000, 3000, 0, ModulationMethod::BFSK),
        ModulationConfig::new(44100, 300, 3000, 3000, -5, ModulationMethod::BFSK),
        ModulationConfig::new(44100, 300, 3000, 0, 1, ModulationMethod::BFSK),
        ModulationConfig::new(44100, 300, 3000, 19050, 1, ModulationMethod::BFSK),
        ModulationConfig::new(44100, 300, 3000, 6350, 1, ModulationMethod::QFSK),
        ModulationConfig::new(44100, 300, u32::MAX, u32::MAX, 1, ModulationMethod::QFSK),
    ];
    for r in bad {
        assert_eq!(r.err(), Some(CouplerError::InvalidConfig));
    }
    assert!(ModulationConfig::new(44100, 300, 3000, 19049, 1, ModulationMethod::BFSK).is_ok());
    assert!(ModulationConfig::new(44100, 300, 3000, 6349, 1, ModulationMethod::QFSK).is_ok());
    assert!(ModulationConfig::new(44100, 44100, 3000, 1, 1, ModulationMethod::QFSK).is_ok());
}

#[test]
fn modulate_refuses_what_it_cannot_send() {
    let odd = vec![true, false, true];
    assert_eq!(modulate(&odd, &config(ModulationMethod::QFSK)), Err(CouplerError::InvalidLength));
    assert_eq!(modulate(&odd, &config(ModulationMethod::BFSK)).unwrap().len(), 3 * 147);
    let mut broken = config(ModulationMethod::BFSK);
    broken.baud_rate = 0;
    assert_eq!(modulate(&odd, &broken), Err(CouplerError::InvalidConfig));
}

#[test]
fn text_to_signal_end_to_end() {
    let bits = encode_u8("hi");
    assert_eq!(bits.len(), 16);
    let coded = encode(&bits).unwrap();
    assert_eq!(coded.len(), 32);
    let line = frame(&coded);
    assert_eq!(line.len(), 8 + 8 + 8 + 32 + 8);
    let c = ModulationConfig::new(44100, 300, 3000, 3000, i16::MAX, ModulationMethod::BFSK).unwrap();
    assert_eq!(c.samples_per_symbol(), 147);
    let phases = modulate(&line, &c).unwrap();
    assert_eq!(phases.len(), line.len() * 147);
    assert!(phases.iter().all(|p| *p < 44100));
    let four = ModulationConfig::new(44100, 300, 3000, 3000, i16::MAX, ModulationMethod::QFSK).unwrap();
    assert_eq!(modulate(&line, &four).unwrap().len(), line.len() / 2 * 147);
}

#[test]
fn builder_collects_parameters() {
    let d = AcousticCouplerConfig::default();
    assert_eq!(
        (d.sample_rate, d.baud_rate, d.period, d.zero_freq, d.one_freq, d.amplitude),
        (44100, 100, 441, 220, 440, i16::MAX)
    );
    assert!(d.is_valid());
    let b = ACCBuilder::new();
    assert_eq!(b.config.baud_rate, 100);
    let ac = AcousticCoupler::builder()
        .sample_rate(44100)
        .baud_rate(300)
        .amplitude(i16::MAX)
        .freqs(3000, 6000)
        .build()
        .unwrap();
    assert_eq!(ac.config.period, 147);
    assert_eq!(ac.config.sample_rate, 44100);
    assert_eq!(ac.config.baud_rate, 300);
    assert_eq!(ac.config.zero_freq, 3000);
    assert_eq!(ac.config.one_freq, 6000);
    assert_eq!(ac.config.amplitude, i16::MAX);
    assert_eq!(ac.one_or_zero(false), 3000);
    assert_eq!(ac.one_or_zero(true), 6000);
}

#[test]
fn builder_refuses_bad_parameters() {
    assert_eq!(ACCBuilder::new().baud_rate(0).build().err(), Some(CouplerError::InvalidConfig));
    assert_eq!(ACCBuilder::new().sample_rate(0).build().err(), Some(CouplerError::InvalidConfig));
    assert_eq!(ACCBuilder::new().sample_rate(50).build().err(), Some(CouplerError::InvalidConfig));
    assert_eq!(ACCBuilder::new().amplitude(0).build().err(), Some(CouplerError::InvalidConfig));
    assert_eq!(ACCBuilder::new().freqs(440, 440).build().err(), Some(CouplerError::InvalidConfig));
    assert_eq!(
        ACCBuilder::new().freqs(220, 22050).build().err(),
        Some(CouplerError::InvalidConfig)
    );
    assert!(ACCBuilder::new().freqs(220, 22049).build().is_ok());
}

#[test]
fn coupler_signal_of_a_text() {
    let ac = AcousticCoupler::builder().baud_rate(300).freqs(3000, 6000).build().unwrap();
    let line = AcousticCoupler::line_bits("casc");
    assert_eq!(line.len(), 32 + 16 * 4);
    assert_eq!(line, frame(&encode(&encode_u8("casc")).unwrap()));
    let phases = ac.signal("casc");
    assert_eq!(phases.len(), 96 * 147);
    assert_eq!(phases, bfsk(&line, 3000, 3000, 44100, 147));
    assert_eq!(phases[0], 6000);
    assert_eq!(phases[1], 12000);
    assert_eq!(phases[146], (6000u64 * 147 % 44100) as u32);
    assert_eq!(phases[147], ((6000u64 * 147 + 3000) % 44100) as u32);
}

#[test]
fn modulation_formats_are_named() {
    let names: Vec<String> = [ModulationFormat::BFSK, ModulationFormat::QFSK, ModulationFormat::BPSK]
        .iter()
        .map(|f| format!("{:?}", f))
        .collect();
    assert_eq!(names, vec!["BFSK", "QFSK", "BPSK"]);
}

#[test]
fn transitions_of_the_session() {
    assert_eq!(transition(Status::LISTENING, TonesExchanged), Ok(Status::ANSWER));
    assert_eq!(transition(Status::ANSWER, PreambleDetected), Ok(Status::RECEIVING));
    assert_eq!(transition(Status::RECEIVING, FrameDecoded), Ok(Status::LISTENING));
    assert_eq!(transition(Status::RECEIVING, FrameFailed), Ok(Status::RESET));
    assert_eq!(transition(Status::RECEIVING, TimedOut), Ok(Status::RESET));
    assert_eq!(transition(Status::RESET, Discarded), Ok(Status::LISTENING));
    for s in [Status::LISTENING, Status::ANSWER, Status::RECEIVING, Status::RESET] {
        assert_eq!(transition(s, Stop), Ok(Status::RESET));
    }
    assert_eq!(transition(Status::LISTENING, PreambleDetected), Err(CouplerError::InvalidTransition));
    assert_eq!(transition(Status::LISTENING, FrameDecoded), Err(CouplerError::InvalidTransition));
    assert_eq!(transition(Status::LISTENING, Discarded), Err(CouplerError::InvalidTransition));
    assert_eq!(transition(Status::ANSWER, TonesExchanged), Err(CouplerError::InvalidTransition));
    assert_eq!(transition(Status::ANSWER, TimedOut), Err(CouplerError::InvalidTransition));
    assert_eq!(transition(Status::RECEIVING, PreambleDetected), Err(CouplerError::InvalidTransition));
    assert_eq!(transition(Status::RESET, TonesExchanged), Err(CouplerError::InvalidTransition));
    assert_eq!(transition(Status::RESET, FrameFailed), Err(CouplerError::InvalidTransition));
}

#[test]
fn session_receives_a_frame() {
    let line = AcousticCoupler::line_bits("hi");
    let mut s = ChannelSession::new();
    assert!(s.status() == Status::LISTENING);
    assert!(!s.hear_tone(440));
    assert!(s.status() == Status::LISTENING);
    assert!(!s.detect_preamble(&line));
    assert!(s.hear_tone(800));
    assert!(s.status() == Status::ANSWER);
    assert!(!s.hear_tone(200));
    assert_eq!(s.feed(&line), Err(CouplerError::InvalidTransition));
    assert!(!s.detect_preamble(&vec![true, true, false, false, true, true, false, false, true]));
    assert!(s.status() == Status::ANSWER);
    assert!(s.detect_preamble(&line));
    assert!(s.status() == Status::RECEIVING);
    assert_eq!(s.feed(&line[..40].to_vec()), Ok(()));
    assert_eq!(s.feed(&line[40..].to_vec()), Ok(()));
    assert_eq!(s.pending_len(), line.len());
    assert_eq!(s.finish(64), Ok((b"hi".to_vec(), 0)));
    assert!(s.status() == Status::LISTENING);
    assert_eq!(s.pending_len(), 0);
    assert_eq!(s.finish(64), Err(CouplerError::InvalidTransition));
}

#[test]
fn session_answers_the_answer_tone_too() {
    let mut s = ChannelSession::new();
    assert!(s.hear_tone(200));
    assert!(s.status() == Status::ANSWER);
}

#[test]
fn session_repairs_and_reports() {
    let mut line = AcousticCoupler::line_bits("ok");
    line[30] = !line[30];
    assert_eq!(read_frame(&line, 24), Ok((b"ok".to_vec(), 1)));
    let mut s = ChannelSession::new();
    assert!(s.hear_tone(800));
    assert!(s.detect_preamble(&line));
    assert_eq!(s.feed(&line), Ok(()));
    assert_eq!(s.finish(100), Ok((b"ok".to_vec(), 1)));
    assert!(s.status() == Status::LISTENING);
}

#[test]
fn session_resets_on_failure() {
    let mut line = AcousticCoupler::line_bits("ok");
    line[32] = !line[32];
    line[33] = !line[33];
    let mut s = ChannelSession::new();
    assert!(s.hear_tone(800));
    assert!(s.detect_preamble(&line));
    assert_eq!(s.feed(&line), Ok(()));
    assert_eq!(s.finish(100), Err(CouplerError::Uncorrectable { group: 1 }));
    assert!(s.status() == Status::RESET);
    assert_eq!(s.pending_len(), 0);
    assert!(!s.hear_tone(800));
    s.recover();
    assert!(s.status() == Status::LISTENING);
    s.recover();
    assert!(s.status() == Status::LISTENING);

    assert!(s.hear_tone(800));
    assert!(s.detect_preamble(&line));
    assert_eq!(s.feed(&line[..30].to_vec()), Ok(()));
    assert_eq!(s.finish(100), Err(CouplerError::TruncatedFrame));
    assert!(s.status() == Status::RESET);
    assert_eq!(s.handle(SessionEvent::Discarded), Ok(Status::LISTENING));

    assert!(s.hear_tone(800));
    assert!(s.detect_preamble(&line));
    assert_eq!(s.feed(&line), Ok(()));
    assert_eq!(s.finish(10), Err(CouplerError::SyncNotFound));
    assert!(s.status() == Status::RESET);
}

#[test]
fn session_handles_events() {
    let mut s = ChannelSession::new();
    assert_eq!(s.handle(SessionEvent::FrameDecoded), Err(CouplerError::InvalidTransition));
    assert!(s.status() == Status::LISTENING);
    assert_eq!(s.handle(SessionEvent::TonesExchanged), Ok(Status::ANSWER));
    assert_eq!(s.handle(SessionEvent::PreambleDetected), Ok(Status::RECEIVING));
    assert_eq!(s.feed(&vec![true, false]), Ok(()));
    assert_eq!(s.pending_len(), 2);
    assert_eq!(s.handle(SessionEvent::Stop), Ok(Status::RESET));
    assert_eq!(s.pending_len(), 0);
    assert_eq!(s.handle(SessionEvent::Discarded), Ok(Status::LISTENING));
}

#[test]
fn a_payload_of_ragged_bits_is_a_framing_error() {
    let coded = encode(&vec![true, false, true, true]).unwrap();
    assert_eq!(read_frame(&frame(&coded), 24), Err(CouplerError::Framing));
    assert_eq!(read_frame(&frame(&vec![true; 5]), 24), Err(CouplerError::InvalidLength));
}
