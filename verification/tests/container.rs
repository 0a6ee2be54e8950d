use base64::engine::general_purpose::STANDARD;
use base64::Engine;
use ncmdump::cipher::{CORE_KEY, META_KEY};
use ncmdump::{
    dump_file, read_crc32, read_image_data, read_key_data, read_ncm, seek_to_music, DumpError,
    Reader,
};
use openssl::symm::{encrypt, Cipher};

const MAGIC: &[u8; 8] = b"CTENFDAM";

fn block(body: &[u8], mask: u8) -> Vec<u8> {
    let mut out = (body.len() as u32).to_le_bytes().to_vec();
    out.extend(body.iter().map(|byte| byte ^ mask));
    out
}

fn key_block(seed: &[u8]) -> Vec<u8> {
    let mut plaintext = b"neteasecloudmusic".to_vec();
    plaintext.extend_from_slice(seed);
    block(&encrypt(Cipher::aes_128_ecb(), &CORE_KEY, None, &plaintext).unwrap(), 0x64)
}

fn meta_block(json: &str) -> Vec<u8> {
    let mut plaintext = b"music:".to_vec();
    plaintext.extend_from_slice(json.as_bytes());
    let ciphertext = encrypt(Cipher::aes_128_ecb(), &META_KEY, None, &plaintext).unwrap();
    let mut body = b"163 key(Don't modify):".to_vec();
    body.extend_from_slice(STANDARD.encode(ciphertext).as_bytes());
    block(&body, 0x63)
}

fn expected_table(seed: &[u8]) -> Vec<u8> {
    let mut table: Vec<u8> = (0..=255u8).collect();
    let mut last: usize = 0;
    for i in 0..256usize {
        let swap = table[i];
        let c = (swap as usize + last + seed[i % seed.len()] as usize) % 256;
        table[i] = table[c];
        table[c] = swap;
        last = c;
    }
    table
}

fn scrambled(table: &[u8], audio: &[u8]) -> Vec<u8> {
    let mut out = Vec::new();
    for (i, byte) in audio.iter().enumerate() {
        let j = (i + 1) & 0xff;
        let k = (table[j] as usize + j) & 0xff;
        let l = (table[j] as usize + table[k] as usize) & 0xff;
        out.push(byte ^ table[l]);
    }
    out
}

fn container(seed: &[u8], json: &str, cover: &[u8], payload: &[u8]) -> Vec<u8> {
    let mut data = MAGIC.to_vec();
    data.extend_from_slice(&[1, 112]);
    data.extend_from_slice(&key_block(seed));
    data.extend_from_slice(&meta_block(json));
    data.extend_from_slice(&[0xde, 0xad, 0xbe, 0xef, 0, 0, 0, 0, 1]);
    data.extend_from_slice(&block(cover, 0));
    data.extend_from_slice(payload);
    data
}

fn audio(len: usize) -> Vec<u8> {
    (0..len).map(|i| (i * 7 + i / 251) as u8).collect()
}

#[test]
fn container_with_a_sixteen_byte_seed_gives_its_audio_as_mp3() {
    let seed = b"0123456789abcdef";
    let clear = audio(1000);
    let payload = scrambled(&expected_table(seed), &clear);
    let data = container(seed, "{\"format\":\"mp3\"}", b"cover image", &payload);
    let dump = dump_file(&data).unwrap();
    assert_eq!(dump.extension, "mp3");
    assert_eq!(dump.audio, clear);
}

#[test]
fn container_with_a_long_payload_and_no_cover_gives_its_audio_as_flac() {
    let seed = [200u8, 3, 77];
    let clear = audio(70_000);
    let payload = scrambled(&expected_table(&seed), &clear);
    let data = container(&seed, "{\"musicName\":\"n\",\"format\":\"flac\"}", b"", &payload);
    let dump = dump_file(&data).unwrap();
    assert_eq!(dump.extension, "flac");
    assert_eq!(dump.audio, clear);
}

#[test]
fn container_without_payload_gives_no_audio() {
    let data = container(&[1], "{\"format\":\"mp3\"}", &[5; 40], &[]);
    let dump = dump_file(&data).unwrap();
    assert_eq!(dump.extension, "mp3");
    assert!(dump.audio.is_empty());
}

#[test]
fn known_payload_bytes_come_out_descrambled() {
    let data = container(&[1, 2, 3], "{\"format\":\"mp3\"}", b"", &[0, 1, 2, 3, 4, 5, 6, 7]);
    assert_eq!(dump_file(&data).unwrap().audio, vec![171, 68, 162, 54, 161, 140, 9, 126]);
}

#[test]
fn wrong_signature_is_invalid_format() {
    let mut data = container(&[1, 2, 3], "{\"format\":\"mp3\"}", b"", &[1, 2, 3]);
    data[7] ^= 1;
    assert_eq!(dump_file(&data).unwrap_err(), DumpError::InvalidFormat);
    data[7] ^= 1;
    data[0] = b'c';
    assert_eq!(dump_file(&data).unwrap_err(), DumpError::InvalidFormat);
    assert_eq!(read_ncm(&data).unwrap_err(), DumpError::InvalidFormat);
    assert_eq!(dump_file(b"ID3\x03\x00\x00\x00\x00\x00\x00").unwrap_err(), DumpError::InvalidFormat);
    assert_eq!(dump_file(b"12345678").unwrap_err(), DumpError::InvalidFormat);
}

#[test]
fn file_shorter_than_the_signature_is_truncated_input() {
    assert_eq!(dump_file(&[]).unwrap_err(), DumpError::TruncatedInput);
    assert_eq!(dump_file(b"CTENFDA").unwrap_err(), DumpError::TruncatedInput);
    assert_eq!(read_ncm(b"CTENFDA").unwrap_err(), DumpError::TruncatedInput);
}

#[test]
fn file_that_ends_after_the_signature_is_truncated_input() {
    assert_eq!(dump_file(b"CTENFDAM").unwrap_err(), DumpError::TruncatedInput);
    assert_eq!(dump_file(b"CTENFDAM\x01").unwrap_err(), DumpError::TruncatedInput);
    assert_eq!(dump_file(b"CTENFDAM\x01\x70").unwrap_err(), DumpError::TruncatedInput);
}

#[test]
fn read_ncm_stands_at_the_key_block() {
    let data = container(&[1, 2, 3], "{\"format\":\"mp3\"}", b"", &[]);
    let reader = read_ncm(&data).unwrap();
    assert_eq!(reader.position(), 10);
    assert_eq!(reader.remaining(), data.len() - 10);
}

#[test]
fn truncated_key_block_is_truncated_input() {
    let mut data = MAGIC.to_vec();
    data.extend_from_slice(&[1, 112]);
    let key = key_block(b"0123456789abcdef");
    data.extend_from_slice(&key[..key.len() - 5]);
    assert_eq!(dump_file(&data).unwrap_err(), DumpError::TruncatedInput);
    let mut reader = read_ncm(&data).unwrap();
    assert_eq!(read_key_data(&mut reader).unwrap_err(), DumpError::TruncatedInput);
    assert_eq!(reader.position(), 10);
}

#[test]
fn key_block_that_declares_more_than_the_file_holds_is_truncated_input() {
    let mut data = MAGIC.to_vec();
    data.extend_from_slice(&[1, 112]);
    data.extend_from_slice(&[0xff, 0xff, 0xff, 0xff]);
    data.extend_from_slice(&[0; 64]);
    assert_eq!(dump_file(&data).unwrap_err(), DumpError::TruncatedInput);
}

#[test]
fn key_block_gives_the_table_of_its_seed() {
    let seed = b"0123456789abcdef";
    let mut data = key_block(seed);
    let len = data.len();
    data.push(0);
    let mut reader = Reader::new(&data);
    let table = read_key_data(&mut reader).unwrap();
    assert_eq!(table.as_slice(), &expected_table(seed)[..]);
    assert_eq!(&table.as_slice()[..8], &[136, 98, 150, 204, 121, 133, 122, 33]);
    assert_eq!(reader.position(), len);
}

#[test]
fn key_block_whose_ciphertext_is_ragged_is_decryption_failed() {
    let data = block(&[9; 21], 0x64);
    let mut reader = Reader::new(&data);
    assert_eq!(read_key_data(&mut reader).unwrap_err(), DumpError::DecryptionFailed);
    assert_eq!(reader.position(), data.len());
    let mut whole = MAGIC.to_vec();
    whole.extend_from_slice(&[0, 0]);
    whole.extend_from_slice(&data);
    assert_eq!(dump_file(&whole).unwrap_err(), DumpError::DecryptionFailed);
}

#[test]
fn key_block_without_seed_is_invalid_key_material() {
    let mut data = key_block(b"");
    let block_len = data.len();
    data.extend_from_slice(&[1, 2]);
    let mut reader = Reader::new(&data);
    assert_eq!(read_key_data(&mut reader).unwrap_err(), DumpError::InvalidKeyMaterial);
    assert_eq!(reader.position(), block_len);
    let whole = container(b"", "{\"format\":\"mp3\"}", b"", &[1, 2, 3]);
    assert_eq!(dump_file(&whole).unwrap_err(), DumpError::InvalidKeyMaterial);
}

#[test]
fn container_with_malformed_metadata_is_refused() {
    let data = container(&[1], "{\"format\":", b"", &[1, 2, 3]);
    assert_eq!(dump_file(&data).unwrap_err(), DumpError::MalformedMetadata);
}

#[test]
fn container_without_format_is_missing_field() {
    let data = container(&[1], "{\"bitrate\":320000}", b"", &[1, 2, 3]);
    assert_eq!(dump_file(&data).unwrap_err(), DumpError::MissingField);
}

#[test]
fn container_cut_inside_the_cover_is_truncated_input() {
    let data = container(&[1], "{\"format\":\"mp3\"}", &[5; 40], &[]);
    for cut in [1, 20, 40, 41, 44, 50, 53] {
        let short = &data[..data.len() - cut];
        assert_eq!(dump_file(short).unwrap_err(), DumpError::TruncatedInput);
    }
}

#[test]
fn seek_to_music_skips_the_checksum_and_the_cover() {
    let mut data = vec![0xaa; 9];
    data.extend_from_slice(&[3, 0, 0, 0, 7, 8, 9]);
    data.extend_from_slice(&[1, 2]);
    let mut reader = Reader::new(&data);
    assert_eq!(seek_to_music(&mut reader), Ok(()));
    assert_eq!(reader.position(), 16);
    assert_eq!(reader.read_rest(), vec![1, 2]);
}

#[test]
fn seek_to_music_past_the_end_stays_behind_what_was_there() {
    let mut data = vec![0xaa; 9];
    data.extend_from_slice(&[4, 0, 0, 0, 7, 8, 9]);
    let mut reader = Reader::new(&data);
    assert_eq!(seek_to_music(&mut reader), Err(DumpError::TruncatedInput));
    assert_eq!(reader.position(), 13);
    let mut reader = Reader::new(&data[..8]);
    assert_eq!(seek_to_music(&mut reader), Err(DumpError::TruncatedInput));
    assert_eq!(reader.position(), 0);
    let mut reader = Reader::new(&data[..9]);
    assert_eq!(seek_to_music(&mut reader), Err(DumpError::TruncatedInput));
    assert_eq!(reader.position(), 9);
    let mut reader = Reader::new(&data[..12]);
    assert_eq!(seek_to_music(&mut reader), Err(DumpError::TruncatedInput));
    assert_eq!(reader.position(), 9);
}

#[test]
fn read_crc32_reads_four_bytes_and_skips_five() {
    let data = [0xef, 0xbe, 0xad, 0xde, 1, 2, 3, 4, 5, 6];
    let mut reader = Reader::new(&data);
    assert_eq!(read_crc32(&mut reader), Ok(0xdead_beef));
    assert_eq!(reader.position(), 9);
    assert_eq!(read_crc32(&mut reader), Err(DumpError::TruncatedInput));
    assert_eq!(reader.position(), 9);
    let mut reader = Reader::new(&data[..8]);
    assert_eq!(read_crc32(&mut reader), Err(DumpError::TruncatedInput));
    assert_eq!(reader.position(), 4);
    let mut reader = Reader::new(&data[..3]);
    assert_eq!(read_crc32(&mut reader), Err(DumpError::TruncatedInput));
    assert_eq!(reader.position(), 0);
}

#[test]
fn read_image_data_returns_the_cover() {
    let data = [2, 0, 0, 0, 0x89, 0x50, 9];
    let mut reader = Reader::new(&data);
    assert_eq!(read_image_data(&mut reader), Ok(vec![0x89, 0x50]));
    assert_eq!(reader.position(), 6);
    assert_eq!(read_image_data(&mut reader), Err(DumpError::TruncatedInput));
    assert_eq!(reader.position(), 6);
}

#[test]
fn checksum_and_cover_can_be_read_where_seek_to_music_skips() {
    let data = container(&[1, 2, 3], "{\"format\":\"mp3\"}", b"cover", &[9, 9]);
    let mut skipping = read_ncm(&data).unwrap();
    read_key_data(&mut skipping).unwrap();
    ncmdump::read_meta_data(&mut skipping).unwrap();
    let mut reading = skipping;
    assert_eq!(seek_to_music(&mut skipping), Ok(()));
    assert_eq!(read_crc32(&mut reading), Ok(0xefbe_adde));
    assert_eq!(read_image_data(&mut reading), Ok(b"cover".to_vec()));
    assert_eq!(reading.position(), skipping.position());
    assert_eq!(skipping.remaining(), 2);
}
