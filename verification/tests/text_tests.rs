use net_helper::frame::write_prefixed;
use net_helper::text::{parse_u16, size_fmt};

fn float_size(n: usize) -> String {
    if n < 1024 {
        format!("{}b", n)
    } else if n < 1048576 {
        format!("{:.1}KB", n as f64 / 1024.0)
    } else {
        format!("{:.2}MB", n as f64 / 1048576.0)
    }
}

#[test]
fn size_fmt_exact_values() {
    assert_eq!(size_fmt(0), "0b");
    assert_eq!(size_fmt(1023), "1023b");
    assert_eq!(size_fmt(1024), "1.0KB");
    assert_eq!(size_fmt(1536), "1.5KB");
    assert_eq!(size_fmt(1048575), "1024.0KB");
    assert_eq!(size_fmt(1048576), "1.00MB");
    assert_eq!(size_fmt(65536), "64.0KB");
}

#[test]
fn size_fmt_matches_float_formatting_below_two_mebibytes() {
    for n in 0..(2usize << 20) {
        assert_eq!(size_fmt(n), float_size(n), "n = {}", n);
    }
}

#[test]
fn size_fmt_matches_float_formatting_on_large_values() {
    let mut n: usize = 2 << 20;
    let mut step: usize = 7;
    while n < usize::MAX / 3 {
        assert_eq!(size_fmt(n), float_size(n), "n = {}", n);
        n += step;
        step = step * 3 / 2 + 1;
    }
    for n in [
        usize::MAX,
        usize::MAX - 1,
        1usize << 53,
        (1usize << 53) + 1,
        (1usize << 63) + 1024,
        (1usize << 63) + 2048,
        (1usize << 63) + 3072,
        (1usize << 54) + 2,
        (1usize << 54) + 6,
    ] {
        assert_eq!(size_fmt(n), float_size(n), "n = {}", n);
    }
}

#[test]
fn size_fmt_ties_round_to_even() {
    // 1280 / 1024 = 1.25, a tie between 1.2 and 1.3
    assert_eq!(size_fmt(1280), float_size(1280));
    assert_eq!(size_fmt(1280), "1.2KB");
}

#[test]
fn parse_u16_matches_std() {
    let cases = [
        "", "+", "-", "0", "00080", "+80", "-0", "65535", "65536", "99999", "1a", " 1", "1 ",
        "+-1", "٣", "443", "0000000000000000000065535", "70000000000",
    ];
    for c in cases {
        assert_eq!(parse_u16(c), c.parse::<u16>().ok(), "case {:?}", c);
    }
    for v in 0..70000u32 {
        let s = v.to_string();
        assert_eq!(parse_u16(&s), s.parse::<u16>().ok());
    }
}

#[test]
fn write_prefixed_frames_each_line() {
    assert_eq!(write_prefixed(b"a\nbc\n", b"-> ", b"\n"), b"-> a\n-> bc\n".to_vec());
    assert_eq!(write_prefixed(b"a\nbc", b"<- ", b"\r\n"), b"<- a\r\n<- bc\r\n".to_vec());
    assert_eq!(write_prefixed(b"", b"<- ", b"\n"), Vec::<u8>::new());
    assert_eq!(write_prefixed(b"\n\n", b"> ", b"\n"), b"> \n> \n".to_vec());
}

#[test]
fn framing_with_no_prefix_keeps_payload() {
    for data in [&b"abc"[..], b"abc\n", b"a\n\nb", b"", b"\n"] {
        let out = write_prefixed(data, b"", b"\n");
        let mut expect = data.to_vec();
        if !data.is_empty() && *data.last().unwrap() != b'\n' {
            expect.push(b'\n');
        }
        assert_eq!(out, expect);
    }
}
