use std::io::Write;

use douglang::dougterface::font::{
    align4, blend_pixel, decode_woff, try_decode_woff, read_u16, read_u32, sfnt_from_tables, split_lines, split_words,
    write_u16, write_u32, LineWrapper, SfntTable, LINE_HEIGHT, OUTLINE,
};

fn be32(v: u32) -> [u8; 4] {
    v.to_be_bytes()
}

#[test]
fn big_endian_reads_and_writes() {
    let data = [0x12u8, 0x34, 0x56, 0x78, 0x9a];
    assert_eq!(read_u16(&data, 0), Some(0x1234));
    assert_eq!(read_u16(&data, 3), Some(0x789a));
    assert_eq!(read_u16(&data, 4), None);
    assert_eq!(read_u32(&data, 1), Some(0x3456789a));
    assert_eq!(read_u32(&data, 2), None);
    let mut out = vec![0u8; 6];
    write_u16(&mut out, 0, 0xbeef);
    write_u32(&mut out, 2, 0x01020304);
    assert_eq!(out, vec![0xbe, 0xef, 1, 2, 3, 4]);
}

#[test]
fn align4_rounds_up() {
    assert_eq!(align4(0), 0);
    assert_eq!(align4(1), 4);
    assert_eq!(align4(4), 4);
    assert_eq!(align4(13), 16);
}

#[test]
fn blending_weights_the_two_colors() {
    assert_eq!(blend_pixel(0xff000000, 255, 255, 255, 255), 0xffffffff);
    assert_eq!(blend_pixel(0xff102030, 0, 0, 0, 0), 0xff102030);
    assert_eq!(blend_pixel(0x00ffffff, 0, 0, 0, 255), 0xff000000);
    assert_eq!(blend_pixel(0xff000000, 255, 0, 0, 51), 0xff330000);
    assert_eq!(OUTLINE.len(), 8);
    assert_eq!(LINE_HEIGHT, 38);
}

fn woff(tables: &[(u32, u32, &[u8], u32)], total: u32) -> Vec<u8> {
    let n = tables.len();
    let mut d = Vec::new();
    d.extend_from_slice(b"wOFF");
    d.extend_from_slice(&be32(0x00010000));
    d.extend_from_slice(&be32(0));
    d.extend_from_slice(&(n as u16).to_be_bytes());
    d.extend_from_slice(&[0, 0]);
    d.extend_from_slice(&be32(total));
    while d.len() < 44 {
        d.push(0);
    }
    let mut offset = 44 + 20 * n;
    let mut entries = Vec::new();
    for (tag, checksum, bytes, orig) in tables {
        entries.push((*tag, offset as u32, bytes.len() as u32, *orig, *checksum));
        offset += bytes.len();
    }
    for (tag, off, comp, orig, sum) in &entries {
        d.extend_from_slice(&be32(*tag));
        d.extend_from_slice(&be32(*off));
        d.extend_from_slice(&be32(*comp));
        d.extend_from_slice(&be32(*orig));
        d.extend_from_slice(&be32(*sum));
    }
    for (_, _, bytes, _) in tables {
        d.extend_from_slice(bytes);
    }
    d
}

#[test]
fn woff_with_a_stored_table_unpacks() {
    let data = woff(&[(0x6865_6164, 7, b"abc", 3)], 0);
    let out = decode_woff(&data).unwrap();
    assert_eq!(out.len(), 32);
    assert_eq!(&out[0..4], &[0, 1, 0, 0]);
    assert_eq!(&out[4..6], &[0, 1]);
    assert_eq!(&out[6..8], &[0, 16]);
    assert_eq!(&out[8..10], &[0, 0]);
    assert_eq!(&out[10..12], &[0, 0]);
    assert_eq!(&out[12..16], &be32(0x6865_6164));
    assert_eq!(&out[16..20], &be32(7));
    assert_eq!(&out[20..24], &be32(28));
    assert_eq!(&out[24..28], &be32(3));
    assert_eq!(&out[28..31], b"abc");
    assert_eq!(out[31], 0);
}

#[test]
fn woff_with_a_compressed_table_inflates_it() {
    let plain = b"hello hello hello hello hello hello";
    let mut enc = flate2::write::ZlibEncoder::new(Vec::new(), flate2::Compression::best());
    enc.write_all(plain).unwrap();
    let packed = enc.finish().unwrap();
    assert!(packed.len() < plain.len());
    let data = woff(&[(1, 2, &packed, plain.len() as u32)], 100);
    let out = decode_woff(&data).unwrap();
    assert_eq!(out.len(), 100);
    assert_eq!(&out[28..28 + plain.len()], &plain[..]);
    assert_eq!(&out[24..28], &be32(plain.len() as u32));
}

#[test]
fn broken_woff_is_refused() {
    assert_eq!(decode_woff(b"OTTO and more bytes here"), None);
    let mut data = woff(&[(1, 2, b"xyz", 3)], 0);
    data.truncate(60);
    assert_eq!(decode_woff(&data), None);
    let bad = woff(&[(1, 2, b"not zlib", 50)], 0);
    assert_eq!(decode_woff(&bad), None);
}

#[test]
fn tables_are_laid_out_four_byte_aligned() {
    let tables = vec![
        SfntTable { tag: 1, checksum: 2, orig_len: 3, data: vec![9, 9, 9] },
        SfntTable { tag: 3, checksum: 4, orig_len: 1, data: vec![8] },
    ];
    let out = sfnt_from_tables(0x74727565, 0, &tables);
    assert_eq!(out.len(), 52);
    assert_eq!(&out[6..12], &[0, 32, 0, 1, 0, 0]);
    assert_eq!(out[48], 8);
    assert_eq!(&out[20..24], &be32(44));
    assert_eq!(&out[36..40], &be32(48));
    assert_eq!(&out[44..47], &[9, 9, 9]);
    assert_eq!(out[47], 0);
}

#[test]
fn words_and_lines_split_like_std() {
    let text = "  one two\tthree  ";
    let chars: Vec<char> = text.chars().collect();
    let words: Vec<String> = split_words(&chars).into_iter().map(|w| w.into_iter().collect()).collect();
    assert_eq!(words, text.split_whitespace().map(|w| w.to_string()).collect::<Vec<_>>());
    let t = "a\r\nb\n\nc\r";
    let lines: Vec<String> = split_lines(t).into_iter().map(|l| l.into_iter().collect()).collect();
    assert_eq!(lines, t.lines().map(|l| l.to_string()).collect::<Vec<_>>());
}

#[test]
fn wrapper_breaks_lines_where_told() {
    let mut w = LineWrapper::new();
    let words: Vec<Vec<char>> = ["hello", "big", "world"].iter().map(|s| s.chars().collect()).collect();
    let c = w.candidate(&words[0]);
    assert_eq!(c.iter().collect::<String>(), "hello");
    w.place(&words[0], true);
    let c = w.candidate(&words[1]);
    assert_eq!(c.iter().collect::<String>(), "hello big");
    w.place(&words[1], false);
    w.place(&words[2], true);
    w.end_line();
    w.end_line();
    assert_eq!(w.finish(), vec!["hello big".to_string(), "world".to_string(), String::new()]);
    assert_eq!(LineWrapper::new().finish(), vec![String::new()]);
}

#[test]
fn checked_unpacking_agrees_where_a_font_can_be_laid_out() {
    let data = woff(&[(0x6865_6164, 7, b"abc", 3)], 0);
    assert_eq!(try_decode_woff(&data), decode_woff(&data));
    assert_eq!(try_decode_woff(&data).unwrap().len(), 32);
    assert_eq!(try_decode_woff(b"OTTO and more bytes here"), None);
}

#[test]
fn checked_unpacking_refuses_a_font_without_tables() {
    let data = woff(&[], 0);
    assert_eq!(try_decode_woff(&data), None);
}

#[test]
fn wrapping_keeps_the_words_in_order() {
    let text = ["one", "two", "three", "four", "five", "six"];
    let answers = [true, true, false, true, false, true];
    let mut w = LineWrapper::new();
    for (word, wide) in text.iter().zip(answers.iter()) {
        let chars: Vec<char> = word.chars().collect();
        w.place(&chars, *wide);
    }
    w.end_line();
    let lines = w.finish();
    assert_eq!(lines, vec!["one".to_string(), "two three".to_string(), "four five".to_string(), "six".to_string()]);
    assert_eq!(lines.join(" "), text.join(" "));
}
