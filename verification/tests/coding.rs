use acoustic_coupler::bytes::{bits_of, bytes_of, encode_u8};
use acoustic_coupler::datalink::{
    find_first, find_last, frame, preamble_bits, stands_at, start_flag_bits, unframe,
    FRAME_HEADER_LEN,
};
use acoustic_coupler::error::CouplerError;
use acoustic_coupler::hamming::{calc_parity, decode, decode_word, encode};
use acoustic_coupler::utils::repeat;

fn bits(text: &str) -> Vec<bool> {
    text.chars().filter(|c| *c == '0' || *c == '1').map(|c| c == '1').collect()
}

fn group(value: usize) -> Vec<bool> {
    vec![value & 8 != 0, value & 4 != 0, value & 2 != 0, value & 1 != 0]
}

#[test]
fn text_expands_most_significant_bit_first() {
    assert_eq!(encode_u8("hi"), bits("01101000 01101001"));
    assert_eq!(bits_of(&[0x80, 0x01, 0xff, 0x00]), bits("10000000 00000001 11111111 00000000"));
    assert_eq!(encode_u8(""), Vec::<bool>::new());
}

#[test]
fn bits_pack_into_bytes() {
    assert_eq!(bytes_of(&bits("01101000 01101001")), Ok(vec![0x68, 0x69]));
    assert_eq!(bytes_of(&Vec::new()), Ok(Vec::new()));
}

#[test]
fn bytes_survive_expansion_and_packing() {
    let all: Vec<u8> = (0..=255).collect();
    assert_eq!(bytes_of(&bits_of(&all)), Ok(all));
}

#[test]
fn ragged_bits_are_a_framing_error() {
    assert_eq!(bytes_of(&bits("0110100")), Err(CouplerError::Framing));
    assert_eq!(bytes_of(&bits("011010000")), Err(CouplerError::Framing));
}

#[test]
fn parity_of_known_groups() {
    assert_eq!(calc_parity(bits("0000")), bits("00000000"));
    assert_eq!(calc_parity(bits("1000")), bits("10001101"));
    assert_eq!(calc_parity(bits("0100")), bits("01001011"));
    assert_eq!(calc_parity(bits("0010")), bits("00100111"));
    assert_eq!(calc_parity(bits("0001")), bits("00011110"));
    assert_eq!(calc_parity(bits("1011")), bits("10110100"));
    assert_eq!(calc_parity(bits("1111")), bits("11111111"));
}

#[test]
fn every_code_word_has_even_parity() {
    for v in 0..16 {
        let w = calc_parity(group(v));
        assert_eq!(w.len(), 8);
        assert_eq!(w.iter().filter(|b| **b).count() % 2, 0);
        assert_eq!(w[..4].to_vec(), group(v));
    }
}

#[test]
fn encode_codes_group_by_group() {
    assert_eq!(encode(&bits("1000 0001")), Ok(bits("10001101 00011110")));
    assert_eq!(encode(&Vec::new()), Ok(Vec::new()));
    let coded = encode(&encode_u8("hi")).unwrap();
    assert_eq!(coded.len(), 32);
    assert_eq!(coded, bits("01101100 10001101 01101100 10010011"));
}

#[test]
fn encode_refuses_ragged_input() {
    assert_eq!(encode(&bits("101")), Err(CouplerError::InvalidLength));
    assert_eq!(encode(&bits("10110")), Err(CouplerError::InvalidLength));
}

#[test]
fn decode_refuses_ragged_input() {
    assert_eq!(decode(&bits("1000110")), Err(CouplerError::InvalidLength));
    assert_eq!(decode(&bits("1000")), Err(CouplerError::InvalidLength));
}

#[test]
fn decode_inverts_encode() {
    for a in 0..16 {
        for b in 0..16 {
            let mut data = group(a);
            data.extend(group(b));
            let coded = encode(&data).unwrap();
            assert_eq!(decode(&coded), Ok((data, 0)));
        }
    }
    assert_eq!(decode(&Vec::new()), Ok((Vec::new(), 0)));
}

#[test]
fn single_flip_is_repaired_and_counted() {
    for v in 0..16 {
        for p in 0..8 {
            let mut w = calc_parity(group(v));
            w[p] = !w[p];
            assert_eq!(decode(&w), Ok((group(v), 1)));
            assert_eq!(decode_word(&w), Some((group(v), true)));
        }
    }
}

#[test]
fn flips_in_several_words_are_all_counted() {
    let data = bits("1011 0010 1111");
    let mut coded = encode(&data).unwrap();
    coded[3] = !coded[3];
    coded[23] = !coded[23];
    assert_eq!(decode(&coded), Ok((data, 2)));
}

#[test]
fn double_flip_is_reported_with_its_group() {
    for v in 0..16 {
        for p in 0..8 {
            for q in (p + 1)..8 {
                let mut w = calc_parity(group(v));
                w[p] = !w[p];
                w[q] = !w[q];
                assert_eq!(decode(&w), Err(CouplerError::Uncorrectable { group: 0 }));
                assert_eq!(decode_word(&w), None);
            }
        }
    }
    let mut coded = encode(&bits("1011 0010 1111")).unwrap();
    coded[9] = !coded[9];
    coded[14] = !coded[14];
    coded[16] = !coded[16];
    coded[17] = !coded[17];
    assert_eq!(decode(&coded), Err(CouplerError::Uncorrectable { group: 1 }));
}

#[test]
fn clean_word_needs_no_repair() {
    assert_eq!(decode_word(&bits("10110100")), Some((bits("1011"), false)));
}

#[test]
fn channel_constants() {
    assert_eq!(preamble_bits(), bits("10101010"));
    assert_eq!(start_flag_bits(), bits("00010110"));
    assert_eq!(FRAME_HEADER_LEN, 24);
    assert_eq!(acoustic_coupler::DIAL_TONE, 800);
    assert_eq!(acoustic_coupler::ANSWER_TONE, 200);
}

#[test]
fn frame_wraps_payload() {
    assert_eq!(
        frame(&bits("1100")),
        bits("10101010 10101010 00010110 1100 00010110")
    );
    assert_eq!(frame(&Vec::new()), bits("10101010 10101010 00010110 00010110"));
}

#[test]
fn unframe_inverts_frame() {
    for text in ["", "1", "1100", "0110011010001101", "00010110", "0001011000010110", "10101010"] {
        let payload = bits(text);
        assert_eq!(unframe(&frame(&payload), 24), Ok(payload.clone()));
        assert_eq!(unframe(&frame(&payload), usize::MAX), Ok(payload));
    }
}

#[test]
fn unframe_skips_noise_before_the_preamble() {
    let mut stream = bits("0011");
    stream.extend(frame(&bits("11110000")));
    assert_eq!(unframe(&stream, 28), Ok(bits("11110000")));
    assert_eq!(unframe(&stream, 27), Err(CouplerError::SyncNotFound));
}

#[test]
fn unframe_without_sync() {
    assert_eq!(unframe(&Vec::new(), 100), Err(CouplerError::SyncNotFound));
    assert_eq!(unframe(&bits("00010110 1100 00010110"), 100), Err(CouplerError::SyncNotFound));
    assert_eq!(unframe(&bits("10101010 10101010 1111"), 100), Err(CouplerError::SyncNotFound));
    assert_eq!(unframe(&frame(&bits("1100")), 23), Err(CouplerError::SyncNotFound));
    assert_eq!(unframe(&frame(&bits("1100")), 0), Err(CouplerError::SyncNotFound));
}

#[test]
fn unframe_without_closing_marker() {
    assert_eq!(
        unframe(&bits("10101010 10101010 00010110 1100"), 100),
        Err(CouplerError::TruncatedFrame)
    );
    assert_eq!(
        unframe(&bits("10101010 00010110 1100 0001011"), 100),
        Err(CouplerError::TruncatedFrame)
    );
    assert_eq!(unframe(&bits("10101010 00010110"), 100), Err(CouplerError::TruncatedFrame));
}

#[test]
fn searching_patterns() {
    let s = bits("0110110");
    let pat = bits("11");
    assert!(stands_at(&s, &pat, 1));
    assert!(!stands_at(&s, &pat, 2));
    assert!(!stands_at(&s, &pat, 6));
    assert!(!stands_at(&s, &pat, 100));
    assert_eq!(find_first(&s, &pat, 0, 7), Some(1));
    assert_eq!(find_first(&s, &pat, 2, 7), Some(4));
    assert_eq!(find_first(&s, &pat, 2, 5), None);
    assert_eq!(find_first(&s, &pat, 5, 7), None);
    assert_eq!(find_last(&s, &pat, 0, 7), Some(4));
    assert_eq!(find_last(&s, &pat, 0, 5), Some(1));
    assert_eq!(find_last(&s, &pat, 2, 5), None);
    assert_eq!(find_last(&s, &pat, 5, 7), None);
}

#[test]
fn repeat_holds_each_item() {
    assert_eq!(repeat(vec![7u32, 9], 3), vec![7, 7, 7, 9, 9, 9]);
    assert_eq!(repeat(vec![7u32, 9], 0), Vec::<u32>::new());
    assert_eq!(repeat(Vec::<u32>::new(), 5), Vec::<u32>::new());
    assert_eq!(repeat(vec![true, false], 1), vec![true, false]);
}
