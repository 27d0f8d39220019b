use ranami_wallpapers::video_info::{
    extract_resolution, format_file_size, parse_resolution_token, resolution_from_ffprobe_output,
};

fn float_label(byte_count: u64) -> String {
    const KIBIBYTE: u64 = 1024;
    const MEBIBYTE: u64 = KIBIBYTE * 1024;
    const GIBIBYTE: u64 = MEBIBYTE * 1024;
    if byte_count >= GIBIBYTE {
        return format!("{:.1} GB", byte_count as f64 / GIBIBYTE as f64);
    }
    if byte_count >= MEBIBYTE {
        return format!("{:.1} MB", byte_count as f64 / MEBIBYTE as f64);
    }
    if byte_count >= KIBIBYTE {
        return format!("{:.1} KB", byte_count as f64 / KIBIBYTE as f64);
    }
    format!("{byte_count} B")
}

#[test]
fn format_file_size_matches_float_formatting() {
    let mut samples: Vec<u64> = Vec::new();
    for n in 0..5000u64 {
        samples.push(n);
    }
    // every byte count whose tenths land exactly on a half, around each unit
    for base in [1024u64, 1024 * 1024, 1024 * 1024 * 1024] {
        for k in 0..20000u64 {
            samples.push(base + k * 51);
            samples.push(base * (k + 1) + base / 20);
            samples.push(base * (k + 1) + base / 20 * 3);
        }
    }
    samples.push(u64::MAX);
    samples.push(u64::MAX - 1);
    samples.push((1u64 << 53) + 1);
    samples.push((1u64 << 53) + 3);
    samples.push((1u64 << 60) + 12345);
    samples.push(96_888_422);
    let mut x: u64 = 0x9e37_79b9_7f4a_7c15;
    for _ in 0..200000 {
        x ^= x << 13;
        x ^= x >> 7;
        x ^= x << 17;
        samples.push(x);
        samples.push(x >> 20);
        samples.push(x >> 40);
    }
    for n in samples {
        assert_eq!(format_file_size(n), float_label(n), "byte count {n}");
    }
}

#[test]
fn format_file_size_examples() {
    assert_eq!(format_file_size(0), "0 B");
    assert_eq!(format_file_size(1023), "1023 B");
    assert_eq!(format_file_size(1024), "1.0 KB");
    assert_eq!(format_file_size(1536), "1.5 KB");
    assert_eq!(format_file_size(1048575), "1024.0 KB");
    assert_eq!(format_file_size(96_888_422), "92.4 MB");
    assert_eq!(format_file_size(1073741824), "1.0 GB");
}

#[test]
fn resolution_tokens() {
    assert_eq!(parse_resolution_token("3840x2160"), Some("3840x2160".to_string()));
    assert_eq!(parse_resolution_token("0640x0480"), Some("640x480".to_string()));
    assert_eq!(parse_resolution_token("1x1"), None);
    assert_eq!(parse_resolution_token("99x100"), None);
    assert_eq!(parse_resolution_token("x100"), None);
    assert_eq!(parse_resolution_token("100x"), None);
    assert_eq!(parse_resolution_token("100x200x3"), None);
    assert_eq!(parse_resolution_token("+100x200"), None);
    assert_eq!(parse_resolution_token("4294967295x100"), Some("4294967295x100".to_string()));
    assert_eq!(parse_resolution_token("4294967296x100"), None);
    assert_eq!(parse_resolution_token("hevc"), None);
}

#[test]
fn resolution_from_tools() {
    assert_eq!(resolution_from_ffprobe_output("1920x1080\r\n"), Some("1920x1080".to_string()));
    assert_eq!(resolution_from_ffprobe_output("  \n"), None);
    let banner = "Input #0, mov,mp4,m4a,3gp,3g2,mj2, from 'a.mp4':\n  Stream #0:0[0x1](und): Video: h264 (High) (avc1 / 0x31637661), yuv420p(tv, bt709, progressive), 3840x2160 [SAR 1:1 DAR 16:9], 29.97 fps";
    assert_eq!(extract_resolution(banner), Some("3840x2160".to_string()));
    assert_eq!(extract_resolution("no video here"), None);
    assert_eq!(extract_resolution("1280x720"), Some("1280x720".to_string()));
}

#[test]
fn resolution_labels_read_back() {
    for (w, h) in [(100u32, 100u32), (1920, 1080), (3840, 2160), (u32::MAX, 100)] {
        let label = format!("{w}x{h}");
        assert_eq!(parse_resolution_token(&label), Some(label.clone()));
        let again = parse_resolution_token(&label).unwrap();
        assert_eq!(parse_resolution_token(&again), Some(label));
    }
}
