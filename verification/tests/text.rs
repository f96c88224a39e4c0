use castaway_pipeline::error::PipelineError;
use castaway_pipeline::span::Span;
use castaway_pipeline::text::{
    blank, chars_of, decimal, hex, joined, same, same_caseless, signed, trim,
};

#[test]
fn numbers_are_written_out() {
    assert_eq!(decimal(0), "0");
    assert_eq!(decimal(u64::MAX), "18446744073709551615");
    assert_eq!(signed(-40), "-40");
    assert_eq!(signed(i64::MIN), "-9223372036854775808");
    assert_eq!(signed(7), "7");
    assert_eq!(hex(0x8007_000e, 8), "8007000e");
    assert_eq!(hex(0xf, 2), "0f");
}

#[test]
fn texts_compare_with_and_without_case() {
    assert!(same("naïve", "naïve"));
    assert!(!same("naïve", "naive"));
    assert!(same_caseless("HTTP", "http"));
    assert!(!same_caseless("HTTP", "https"));
    // Only ASCII letters fold.
    assert!(!same_caseless("Ä", "ä"));
    assert_eq!(joined("a", "b"), "ab");
    assert_eq!(chars_of("né"), vec!['n', 'é']);
}

#[test]
fn white_space_is_what_the_standard_library_says_it_is() {
    for code in 0..0x3100u32 {
        if let Some(c) = char::from_u32(code) {
            assert_eq!(blank(&c.to_string()), c.is_whitespace(), "{code:#x}");
        }
    }
    assert!(blank(""));
    assert_eq!(trim("\u{3000} a b \u{2029}"), "a b");
    assert_eq!(trim(" "), "");
}

#[test]
fn spans_stop_at_both_ends() {
    assert_eq!(Span::zero().nanos, 0);
    assert_eq!(Span::new(2, 5).nanos, 2_000_000_005);
    assert_eq!(Span::from_secs(3), Span::from_millis(3_000));
    assert_eq!(Span::from_millis(3), Span::from_micros(3_000));
    assert_eq!(Span::from_micros(3), Span::from_nanos(3_000));
    assert_eq!(Span::from_nanos(3_999).as_micros(), 3);
    let longest = Span { nanos: u128::MAX };
    assert_eq!(longest.saturating_add(&Span::from_secs(1)), longest);
    assert_eq!(Span::zero().saturating_sub(&longest), Span::zero());
    assert_eq!(Span::zero().checked_since(&Span::from_secs(1)), None);
    assert_eq!(
        Span::from_secs(3).checked_since(&Span::from_secs(1)),
        Some(Span::from_secs(2))
    );
    assert_eq!(
        Span::from_secs(3).shorter_of(Span::from_secs(1)),
        Span::from_secs(1)
    );
}

#[test]
fn every_failure_is_introduced_by_what_it_is() {
    let why = || "x".to_string();
    let lines = [
        (PipelineError::GpuInit(why()), "gpu init failed: x"),
        (PipelineError::Surface(why()), "surface error: x"),
        (PipelineError::Remote(why()), "remote: x"),
        (PipelineError::Decode(why()), "decode error: x"),
        (PipelineError::Fetch(why()), "fetch error: x"),
        (
            PipelineError::Scriptlets(why()),
            "scriptlet conversion failed: x",
        ),
        (PipelineError::Audio(why()), "audio: x"),
        (PipelineError::InvalidFrame("x"), "invalid frame: x"),
        (
            PipelineError::HwDecode(why()),
            "hardware decode unavailable: x",
        ),
        (
            PipelineError::GpuImport(why()),
            "gpu surface import failed: x",
        ),
        (PipelineError::Stream(why()), "stream: x"),
        (PipelineError::Encode(why()), "encode: x"),
        (PipelineError::Widevine(why()), "widevine: x"),
    ];
    for (error, line) in &lines {
        assert_eq!(error.message(), *line);
    }
}
