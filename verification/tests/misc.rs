use base64::Engine;
use jcode_desktop_core::clipboard::{
    clipboard_image_png_base64, clipboard_png_payload, ClipboardImageError,
};
use jcode_desktop_core::bench::{
    benchmark_typing_char, real_transcript_benchmark_selection, DesktopStreamEndToEndBenchmark,
};
use jcode_desktop_core::clipboard::normalize_clipboard_text;
use jcode_desktop_core::hero::{hero_alpha_bounds, hero_reveal_worker_count, HeroMaskPixelBounds};
use jcode_desktop_core::jobs::{
    job_slot_outcome, next_job_count, release_desktop_async_job_slot,
    try_acquire_desktop_async_job_slot, DesktopAsyncJobLimitReached,
};
use std::sync::atomic::{AtomicUsize, Ordering};

#[test]
fn clipboard_text_uses_unix_newlines() {
    assert_eq!(normalize_clipboard_text("a\r\nb\rc\n"), "a\nb\nc\n");
    assert_eq!(normalize_clipboard_text("\r\r\n"), "\n\n");
    assert_eq!(normalize_clipboard_text("plain"), "plain");
    assert_eq!(normalize_clipboard_text(""), "");
}

#[test]
fn alpha_bounds_cover_inked_pixels() {
    let width = 4u32;
    let height = 3u32;
    let mut rgba = vec![0u8; (width * height * 4) as usize];
    rgba[((1 * width + 1) * 4) as usize] = 200;
    rgba[((2 * width + 2) * 4) as usize] = 3;
    rgba[((0 * width + 3) * 4) as usize] = 2;
    assert_eq!(
        hero_alpha_bounds(&rgba, width, height),
        Some(HeroMaskPixelBounds {
            min_x: 1,
            min_y: 1,
            max_x: 3,
            max_y: 3
        })
    );
    let blank = vec![2u8; 16];
    assert_eq!(hero_alpha_bounds(&blank, 2, 2), None);
}

#[test]
fn job_slots_are_bounded() {
    let counter = AtomicUsize::new(0);
    assert!(try_acquire_desktop_async_job_slot(&counter, 2).is_ok());
    assert!(try_acquire_desktop_async_job_slot(&counter, 2).is_ok());
    let refused = try_acquire_desktop_async_job_slot(&counter, 2).unwrap_err();
    assert_eq!(refused, DesktopAsyncJobLimitReached { limit: 2 });
    assert_eq!(refused.message(), "desktop async job limit reached (2)");
    release_desktop_async_job_slot(&counter);
    assert_eq!(counter.load(Ordering::Relaxed), 1);
    assert!(try_acquire_desktop_async_job_slot(&counter, 2).is_ok());
    assert!(try_acquire_desktop_async_job_slot(&AtomicUsize::new(0), 0).is_err());
    assert_eq!(next_job_count(3, 4), Some(4));
    assert_eq!(next_job_count(4, 4), None);
    assert_eq!(job_slot_outcome(Err(4), 4), Err(DesktopAsyncJobLimitReached { limit: 4 }));
}

#[test]
fn typing_benchmark_cycles_its_characters() {
    assert_eq!(benchmark_typing_char(0), 'a');
    assert_eq!(benchmark_typing_char(25), 'z');
    assert_eq!(benchmark_typing_char(26), ' ');
    assert_eq!(benchmark_typing_char(33), ';');
    assert_eq!(benchmark_typing_char(34), 'a');
}

#[test]
fn stream_benchmark_budgets() {
    let run = DesktopStreamEndToEndBenchmark {
        raw_events: 10,
        batches: 2,
        coalesced_events: 8,
        paints: 3,
        max_batch_raw_events: 6,
        max_batch_payload_bytes: 100,
        total_wall_ns: 1_000_000,
        max_forwarder_accumulated_ns: 5_000_000,
        max_apply_ns: 2_000_000,
        max_no_paint_gap_ns: 40_000_000,
        max_batch_to_paint_ns: 9_000_000,
        stream_left_queued_after_first_batch: false,
    };
    assert!(run.passes_no_paint_budget(40_000_000));
    assert!(!run.passes_no_paint_budget(39_999_999));
    assert!(run.passes_interaction_budget(8_333_333, 10_000_000));
    assert!(!run.passes_interaction_budget(1_000_000, 10_000_000));
    assert!(!run.passes_interaction_budget(8_333_333, 8_000_000));
}

#[test]
fn clipboard_image_becomes_base64_png() {
    let pixels: Vec<u8> = vec![255, 0, 0, 255, 0, 255, 0, 128];
    let encoded = clipboard_image_png_base64(2, 1, pixels.clone()).expect("png");
    assert_eq!(encoded.media_type, "image/png");
    assert_eq!(encoded.base64_data.len() % 4, 0);
    let png = base64::engine::general_purpose::STANDARD
        .decode(&encoded.base64_data)
        .expect("base64");
    assert_eq!(&png[..8], b"\x89PNG\r\n\x1a\n");
    let decoded = image::load_from_memory_with_format(&png, image::ImageFormat::Png)
        .expect("decodes")
        .to_rgba8();
    assert_eq!(decoded.dimensions(), (2, 1));
    assert_eq!(decoded.into_raw(), pixels);

    assert_eq!(
        clipboard_image_png_base64(2, 2, vec![0; 8]).unwrap_err(),
        ClipboardImageError::UnexpectedDimensions
    );
    assert_eq!(
        clipboard_image_png_base64(u32::MAX as usize + 1, 1, Vec::new()).unwrap_err(),
        ClipboardImageError::TooWide
    );
    assert_eq!(
        clipboard_image_png_base64(1, u32::MAX as usize + 1, Vec::new()).unwrap_err(),
        ClipboardImageError::TooTall
    );
    assert_eq!(
        ClipboardImageError::TooTall.message(),
        "clipboard image is too tall"
    );
}

#[test]
fn clipboard_payload_is_standard_padded_base64() {
    assert_eq!(clipboard_png_payload(b"Man").base64_data, "TWFu");
    assert_eq!(clipboard_png_payload(b"Ma").base64_data, "TWE=");
    assert_eq!(clipboard_png_payload(b"M").base64_data, "TQ==");
    assert_eq!(clipboard_png_payload(&[0xfb, 0xff]).base64_data, "+/8=");
    assert_eq!(clipboard_png_payload(b"").base64_data, "");
}

#[test]
fn hero_reveal_threads_follow_work_and_parallelism() {
    assert_eq!(hero_reveal_worker_count(65_535, 16), 1);
    assert_eq!(hero_reveal_worker_count(65_536, 16), 2);
    assert_eq!(hero_reveal_worker_count(32 * 1024 * 10, 4), 4);
    assert_eq!(hero_reveal_worker_count(32 * 1024 * 10, 0), 1);
    assert_eq!(hero_reveal_worker_count(32 * 1024 * 3 + 5, 64), 3);
}

#[test]
fn real_transcript_selection_reads_its_settings() {
    assert_eq!(real_transcript_benchmark_selection(None, None), (8, 24));
    assert_eq!(real_transcript_benchmark_selection(Some(" 3 "), Some("+7")), (3, 7));
    assert_eq!(real_transcript_benchmark_selection(Some("0"), Some("0")), (8, 0));
    assert_eq!(real_transcript_benchmark_selection(Some("x"), Some("-1")), (8, 24));
}
