use radix_encode::encode::block::BlockEncoder;
use radix_encode::encode::block::IntoBlockEncoder;
use radix_encode::encode::block::ScalarBlockEncoder;
use radix_encode::CustomConfig;

fn standard_table() -> [u8; 64] {
    let symbols = b"ABCDEFGHIJKLMNOPQRSTUVWXYZabcdefghijklmnopqrstuvwxyz0123456789+/";
    let mut table = [0u8; 64];
    table.copy_from_slice(symbols);
    table
}

fn url_safe_table() -> [u8; 64] {
    let mut table = standard_table();
    table[62] = b'-';
    table[63] = b'_';
    table
}

/// Three bytes to four symbols, written the slow and obvious way.
fn reference_encode(table: &[u8; 64], input: &[u8]) -> Vec<u8> {
    let mut out = Vec::new();
    for triple in input.chunks_exact(3) {
        let n = (u32::from(triple[0]) << 16) | (u32::from(triple[1]) << 8) | u32::from(triple[2]);
        for k in 0..4 {
            let v = (n >> (18 - 6 * k)) & 0x3f;
            out.push(table[v as usize]);
        }
    }
    out
}

fn sample_input(len: usize) -> Vec<u8> {
    let mut bytes = Vec::with_capacity(len);
    let mut state: u32 = 0x1234_5678;
    for _ in 0..len {
        state = state.wrapping_mul(1_664_525).wrapping_add(1_013_904_223);
        bytes.push((state >> 24) as u8);
    }
    bytes
}

#[test]
fn zero_bytes_encode_to_the_first_symbol() {
    let config = CustomConfig::from_table(standard_table());
    let encoder = (&config).into_block_encoder();
    let mut input = vec![0u8; 24];
    input.extend_from_slice(&[0xff, 0xff]);
    let mut output = [b'?'; 32];
    let (input_rest, output_rest) = encoder.encode_blocks(&input, &mut output);
    assert_eq!(input_rest, &[0xff, 0xff]);
    assert!(output_rest.is_empty());
    assert_eq!(output, [b'A'; 32]);
}

#[test]
fn all_zero_window_encodes_to_the_first_symbol() {
    let config = CustomConfig::from_table(standard_table());
    let encoder = ScalarBlockEncoder::new(&config);
    let input = [0u8; 26];
    let mut output = [0u8; 32];
    encoder.encode_block(&input, &mut output);
    assert_eq!(output, [b'A'; 32]);
}

#[test]
fn man_encodes_to_twfu_in_a_chunk() {
    let config = CustomConfig::from_table(standard_table());
    let encoder = ScalarBlockEncoder::new(&config);
    let word = u64::from_be_bytes([0x4d, 0x61, 0x6e, 0, 0, 0, 0, 0]);
    let mut output = [0u8; 8];
    encoder.encode_chunk(word, &mut output);
    assert_eq!(&output[..4], b"TWFu");
    assert_eq!(&output, b"TWFuAAAA");
}

#[test]
fn man_encodes_to_twfu_at_the_head_of_a_block() {
    let config = CustomConfig::from_table(standard_table());
    let encoder = (&config).into_block_encoder();
    let mut input = [0u8; 26];
    input[..3].copy_from_slice(b"Man");
    let mut output = [0u8; 32];
    let (input_rest, output_rest) = encoder.encode_blocks(&input, &mut output);
    assert_eq!(input_rest.len(), 2);
    assert_eq!(output_rest.len(), 0);
    assert_eq!(&output[..4], b"TWFu");
    assert_eq!(&output[4..], &[b'A'; 28]);
}

#[test]
fn chunk_uses_only_the_leading_forty_eight_bits() {
    let config = CustomConfig::from_table(standard_table());
    let encoder = ScalarBlockEncoder::new(&config);
    let mut low_bits_set = [0u8; 8];
    encoder.encode_chunk(0x0000_0000_0000_ffff, &mut low_bits_set);
    assert_eq!(&low_bits_set, b"AAAAAAAA");
    let mut high_bits_set = [0u8; 8];
    encoder.encode_chunk(0xffff_ffff_ffff_0000, &mut high_bits_set);
    assert_eq!(&high_bits_set, b"////////");
}

#[test]
fn chunk_emits_the_most_significant_group_first() {
    let config = CustomConfig::from_table(standard_table());
    let encoder = ScalarBlockEncoder::new(&config);
    // groups 0, 1, 2, .., 7 packed from the top of the word down
    let mut word: u64 = 0;
    for group in 0..8u64 {
        word |= group << (58 - 6 * group);
    }
    let mut output = [0u8; 8];
    encoder.encode_chunk(word, &mut output);
    assert_eq!(&output, b"ABCDEFGH");
}

#[test]
fn short_input_is_handed_back_untouched() {
    let config = CustomConfig::from_table(standard_table());
    let encoder = (&config).into_block_encoder();
    for len in [0usize, 1, 3, 24, 25] {
        let input = sample_input(len);
        let mut output = [b'#'; 64];
        let (input_rest, output_rest) = encoder.encode_blocks(&input, &mut output);
        assert_eq!(input_rest, &input[..]);
        assert_eq!(output_rest.len(), 64);
        assert_eq!(output, [b'#'; 64]);
    }
}

#[test]
fn short_output_is_handed_back_untouched() {
    let config = CustomConfig::from_table(standard_table());
    let encoder = (&config).into_block_encoder();
    let input = sample_input(100);
    let mut output = [b'#'; 31];
    let (input_rest, output_rest) = encoder.encode_blocks(&input, &mut output);
    assert_eq!(input_rest, &input[..]);
    assert_eq!(output_rest.len(), 31);
    assert_eq!(output, [b'#'; 31]);
}

#[test]
fn output_is_four_thirds_of_what_is_consumed() {
    let config = CustomConfig::from_table(standard_table());
    let encoder = (&config).into_block_encoder();
    for len in [0usize, 25, 26, 49, 50, 73, 74, 97, 98, 200, 1000] {
        let input = sample_input(len);
        let mut output = vec![0u8; 2048];
        let (input_rest, output_rest) = encoder.encode_blocks(&input, &mut output);
        let consumed = len - input_rest.len();
        let produced = 2048 - output_rest.len();
        assert_eq!(consumed % 24, 0);
        assert_eq!(produced % 32, 0);
        assert_eq!(3 * produced, 4 * consumed);
    }
}

#[test]
fn block_counts_follow_the_window_and_the_stride() {
    let config = CustomConfig::from_table(standard_table());
    let encoder = (&config).into_block_encoder();
    let expected = [(25usize, 0usize), (26, 1), (49, 1), (50, 2), (73, 2), (74, 3), (98, 4)];
    for (len, blocks) in expected {
        let input = sample_input(len);
        let mut output = vec![0u8; 1024];
        let (input_rest, output_rest) = encoder.encode_blocks(&input, &mut output);
        assert_eq!(input_rest.len(), len - 24 * blocks);
        assert_eq!(output_rest.len(), 1024 - 32 * blocks);
    }
}

#[test]
fn a_small_output_limits_the_blocks() {
    let config = CustomConfig::from_table(standard_table());
    let encoder = (&config).into_block_encoder();
    let input = sample_input(200);
    let mut output = vec![b'#'; 70];
    let (input_rest, output_rest) = encoder.encode_blocks(&input, &mut output);
    assert_eq!(input_rest, &input[48..]);
    assert_eq!(output_rest, &[b'#'; 6]);
    assert_eq!(&output[..64], &reference_encode(&standard_table(), &input[..48])[..]);
    assert_eq!(&output[64..], &[b'#'; 6]);
}

#[test]
fn blocks_agree_with_the_plain_definition() {
    let table = standard_table();
    let config = CustomConfig::from_table(table);
    let encoder = (&config).into_block_encoder();
    for len in [26usize, 50, 51, 99, 255, 770] {
        let input = sample_input(len);
        let mut output = vec![b'#'; 1100];
        let (input_rest, output_rest) = encoder.encode_blocks(&input, &mut output);
        let consumed = len - input_rest.len();
        let left = output_rest.len();
        assert_eq!(input_rest, &input[consumed..]);
        assert!(output_rest.iter().all(|b| *b == b'#'));
        let produced = 1100 - left;
        assert_eq!(&output[..produced], &reference_encode(&table, &input[..consumed])[..]);
    }
}

#[test]
fn the_remainder_can_be_written_afterwards() {
    let config = CustomConfig::from_table(standard_table());
    let encoder = (&config).into_block_encoder();
    let input = sample_input(30);
    let mut output = [0u8; 40];
    let (_, output_rest) = encoder.encode_blocks(&input, &mut output);
    assert_eq!(output_rest.len(), 8);
    output_rest.copy_from_slice(b"trailing");
    assert_eq!(&output[..32], &reference_encode(&standard_table(), &input[..24])[..]);
    assert_eq!(&output[32..], b"trailing");
}

#[test]
fn picked_and_scalar_encoders_write_the_same() {
    let config = CustomConfig::from_table(url_safe_table());
    let picked = (&config).into_block_encoder();
    let scalar = ScalarBlockEncoder::new(&config);
    for len in [0usize, 26, 77, 500] {
        let input = sample_input(len);
        let mut by_picked = vec![0u8; 700];
        let mut by_scalar = vec![0u8; 700];
        let picked_rest = {
            let (i, o) = picked.encode_blocks(&input, &mut by_picked);
            (i.len(), o.len())
        };
        let scalar_rest = {
            let (i, o) = scalar.encode_blocks(&input, &mut by_scalar);
            (i.len(), o.len())
        };
        assert_eq!(picked_rest, scalar_rest);
        assert_eq!(by_picked, by_scalar);
    }
}

#[test]
fn the_alphabet_decides_the_symbols() {
    let config = CustomConfig::from_table(url_safe_table());
    let encoder = (&config).into_block_encoder();
    let input = [0xffu8; 26];
    let mut output = [0u8; 32];
    encoder.encode_blocks(&input, &mut output);
    assert_eq!(output, [b'_'; 32]);
    let input = [0xfbu8, 0xef, 0xbe].repeat(9);
    let mut output = [0u8; 32];
    encoder.encode_blocks(&input, &mut output);
    assert_eq!(output, [b'-'; 32]);
}

#[test]
fn an_encoder_is_copied_freely() {
    let config = CustomConfig::from_table(standard_table());
    let encoder = ScalarBlockEncoder::new(&config);
    let copy = encoder;
    let clone = encoder.clone();
    let input = sample_input(26);
    let mut first = [0u8; 32];
    let mut second = [0u8; 32];
    let mut third = [0u8; 32];
    encoder.encode_blocks(&input, &mut first);
    copy.encode_blocks(&input, &mut second);
    clone.encode_blocks(&input, &mut third);
    assert_eq!(first, second);
    assert_eq!(first, third);
}
