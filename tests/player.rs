use termvideo::commands::{decoder_args, decoder_filter_text, find_program, first_found, probe_args};
use termvideo::dims::{frame_size, render_width, resolve_dimensions, target_height};
use termvideo::frame::{FillStep, FrameFill};
use termvideo::pacing::{frame_interval_nanos, sleep_nanos};
use termvideo::probe::parse_probe_output;
use termvideo::registry::{ExitPath, ProcessRegistry};
use termvideo::render::{luminance_index, pixel_at, render_ascii_frame, render_color_frame, render_frame};

#[test]
fn frame_size_is_three_bytes_per_pixel() {
    assert_eq!(frame_size(40, 23), Some(2760));
    assert_eq!(frame_size(1, 1), Some(3));
    assert_eq!(frame_size(0, 5), Some(0));
}

#[test]
fn frame_size_too_large_is_none() {
    if usize::BITS == 64 {
        assert_eq!(frame_size(u32::MAX, u32::MAX), None);
        assert_eq!(frame_size(u32::MAX, 1), Some(3 * u32::MAX as usize));
    }
}

#[test]
fn frame_fill_completes_only_when_full() {
    let mut fill = FrameFill::new(6);
    assert_eq!(fill.size(), 6);
    assert_eq!(fill.on_read(Some(4)), FillStep::NeedMore);
    assert_eq!(fill.filled(), 4);
    assert_eq!(fill.on_read(Some(2)), FillStep::Complete);
    assert_eq!(fill.filled(), 0);
    assert_eq!(fill.on_read(Some(6)), FillStep::Complete);
    assert_eq!(fill.on_read(Some(5)), FillStep::NeedMore);
    assert_eq!(fill.on_read(Some(0)), FillStep::EndOfStream);
    assert_eq!(fill.filled(), 5);
}

#[test]
fn frame_fill_failed_read_ends_stream() {
    let mut fill = FrameFill::new(3);
    assert_eq!(fill.on_read(Some(1)), FillStep::NeedMore);
    assert_eq!(fill.on_read(None), FillStep::EndOfStream);
}

#[test]
fn luminance_index_extremes() {
    assert_eq!(luminance_index(0, 0, 0), 0);
    assert_eq!(luminance_index(255, 255, 255), 9);
    // 0.2126 * 255 = 54.2 -> 54.2 / 255 * 9 = 1.9
    assert_eq!(luminance_index(255, 0, 0), 1);
    // 0.7152 * 255 -> 6.4
    assert_eq!(luminance_index(0, 255, 0), 6);
    assert_eq!(luminance_index(0, 0, 255), 0);
}

#[test]
fn luminance_index_is_monotonic_on_greys() {
    let mut last = 0usize;
    for v in 0..=255u8 {
        let i = luminance_index(v, v, v);
        assert!(i >= last);
        assert!(i < 10);
        last = i;
    }
    assert_eq!(last, 9);
}

#[test]
fn pixel_at_reads_row_major_rgb() {
    let buf = [1u8, 2, 3, 4, 5, 6, 7, 8, 9];
    assert_eq!(pixel_at(&buf, 2, 1, 0), Some((4, 5, 6)));
    assert_eq!(pixel_at(&buf, 2, 0, 1), Some((7, 8, 9)));
    assert_eq!(pixel_at(&buf, 2, 1, 1), None);
}

#[test]
fn ascii_frame_black_and_white() {
    let buf = [0u8, 0, 0, 255, 255, 255, 255, 255, 255, 0, 0, 0];
    assert_eq!(render_ascii_frame(&buf, 2, 2), "@ \n @");
}

#[test]
fn ascii_frame_truncated_buffer_renders_blanks() {
    let buf = [0u8, 0, 0, 0, 0];
    assert_eq!(render_ascii_frame(&buf, 2, 2), "@ \n  ");
}

#[test]
fn ascii_frame_empty() {
    assert_eq!(render_ascii_frame(&[], 3, 0), "");
    assert_eq!(render_ascii_frame(&[], 0, 2), "\n");
}

#[test]
fn color_frame_carries_exact_rgb() {
    let buf = [255u8, 0, 128];
    assert_eq!(render_color_frame(&buf, 1, 1), "\x1b[48;2;255;0;128m  \x1b[0m");
}

#[test]
fn color_frame_rows_and_truncation() {
    let buf = [1u8, 2, 3, 40, 50, 60, 7, 8, 9];
    let expected = "\x1b[48;2;1;2;3m  \x1b[48;2;40;50;60m  \x1b[0m\n\x1b[48;2;7;8;9m   \x1b[0m";
    assert_eq!(render_color_frame(&buf, 2, 2), expected);
}

#[test]
fn render_frame_picks_mode() {
    let buf = [255u8, 255, 255];
    assert_eq!(render_frame(&buf, 1, 1, false), " ");
    assert_eq!(render_frame(&buf, 1, 1, true), "\x1b[48;2;255;255;255m  \x1b[0m");
}

#[test]
fn frame_interval_at_24_fps() {
    assert_eq!(frame_interval_nanos(24), 41_666_666);
    assert_eq!(frame_interval_nanos(1), 1_000_000_000);
}

#[test]
fn sleep_is_rest_of_interval() {
    let interval = frame_interval_nanos(24);
    assert_eq!(sleep_nanos(10_000_000, interval), 31_666_666);
    assert_eq!(sleep_nanos(0, interval), interval);
}

#[test]
fn no_sleep_after_overrun() {
    let interval = frame_interval_nanos(24);
    assert_eq!(sleep_nanos(interval as u128, interval), 0);
    assert_eq!(sleep_nanos(50_000_000, interval), 0);
    assert_eq!(sleep_nanos(u128::MAX, interval), 0);
}

#[test]
fn render_width_by_mode() {
    assert_eq!(render_width(80, false), 80);
    assert_eq!(render_width(80, true), 40);
    assert_eq!(render_width(81, true), 40);
    assert_eq!(render_width(1, true), 1);
    assert_eq!(render_width(0, true), 1);
    assert_eq!(render_width(0, false), 1);
}

#[test]
fn height_override_wins_over_probe() {
    assert_eq!(target_height(40, 30, Some((1920, 1080))), 30);
    assert_eq!(target_height(40, 30, None), 30);
    assert_eq!(target_height(40, 70, Some((10, 10000))), 70);
}

#[test]
fn probed_height_full_hd() {
    assert_eq!(target_height(40, 0, Some((1920, 1080))), 12);
    assert_eq!(target_height(40, -5, Some((1920, 1080))), 12);
}

#[test]
fn probed_height_clamps_to_one() {
    assert_eq!(target_height(1, 0, Some((1920, 1))), 1);
    assert_eq!(target_height(1, 0, Some((1920, 0))), 1);
}

#[test]
fn fallback_height_without_probe() {
    assert_eq!(target_height(40, 0, None), 23);
    assert_eq!(target_height(1, 0, None), 1);
    assert_eq!(target_height(16, 0, None), 9);
}

#[test]
fn zero_width_probe_falls_back() {
    assert_eq!(target_height(40, 0, Some((0, 1080))), 23);
}

#[test]
fn probed_height_saturates() {
    assert_eq!(target_height(u32::MAX, 0, Some((1, u32::MAX))), u32::MAX);
}

#[test]
fn resolve_dimensions_color_mode() {
    assert_eq!(resolve_dimensions(80, 0, true, Some((1920, 1080))), (40, 12));
    assert_eq!(resolve_dimensions(80, 0, false, None), (80, 45));
    assert_eq!(resolve_dimensions(80, 70, true, None), (40, 70));
}

#[test]
fn registry_teardown_targets_every_pid() {
    let mut reg = ProcessRegistry::new();
    assert_eq!(reg.len(), 0);
    reg.register(101);
    reg.register(202);
    reg.register(303);
    assert_eq!(reg.len(), 3);
    assert!(reg.contains(202));
    assert!(!reg.contains(404));
    let first = reg.teardown(ExitPath::Finished);
    assert_eq!(first.kill, vec![101, 202, 303]);
    assert_eq!(first.exit_code, 0);
    let second = reg.teardown(ExitPath::Interrupted);
    assert_eq!(second.kill, first.kill);
    assert_eq!(second.exit_code, 0);
    assert_eq!(reg.len(), 3);
}

#[test]
fn registry_startup_failure_exit_code() {
    let mut reg = ProcessRegistry::new();
    let empty = reg.teardown(ExitPath::StartupFailed);
    assert!(empty.kill.is_empty());
    assert_eq!(empty.exit_code, 1);
    reg.register(7);
    let plan = reg.teardown(ExitPath::StartupFailed);
    assert_eq!(plan.kill, vec![7]);
    assert_eq!(plan.exit_code, 1);
}

#[test]
fn probe_output_parses() {
    assert_eq!(parse_probe_output("1920x1080\n"), Some((1920, 1080)));
    assert_eq!(parse_probe_output("  \t640x480\r\n"), Some((640, 480)));
    assert_eq!(parse_probe_output("+640x+480x3"), Some((640, 480)));
    assert_eq!(parse_probe_output("4294967295x0"), Some((u32::MAX, 0)));
}

#[test]
fn probe_output_rejects_malformed() {
    assert_eq!(parse_probe_output(""), None);
    assert_eq!(parse_probe_output("1920"), None);
    assert_eq!(parse_probe_output("1920x"), None);
    assert_eq!(parse_probe_output("x1080"), None);
    assert_eq!(parse_probe_output("4294967296x1"), None);
    assert_eq!(parse_probe_output("19a0x1080"), None);
    assert_eq!(parse_probe_output("+x1080"), None);
    assert_eq!(parse_probe_output("1920 x1080"), None);
    assert_eq!(parse_probe_output("-1x5"), None);
}

#[test]
fn decimal_strings() {
    assert_eq!(decoder_filter_text(0, 7, 10), "fps=0,scale=7:10");
    assert_eq!(decoder_filter_text(4294967295, 100, 9), "fps=4294967295,scale=100:9");
}

#[test]
fn decoder_command_line() {
    assert_eq!(decoder_filter_text(24, 40, 12), "fps=24,scale=40:12");
    let args = decoder_args("movie.mp4", 24, 40, 12);
    let expected = [
        "-hide_banner", "-loglevel", "error", "-nostdin", "-i", "movie.mp4", "-an", "-vf",
        "fps=24,scale=40:12", "-f", "rawvideo", "-pix_fmt", "rgb24", "pipe:1",
    ];
    assert_eq!(args, expected);
}

#[test]
fn probe_command_line() {
    let args = probe_args("clip.mov");
    let expected = [
        "-v", "error", "-select_streams", "v:0", "-show_entries", "stream=width,height", "-of",
        "csv=p=0:s=x", "clip.mov",
    ];
    assert_eq!(args, expected);
}

#[test]
fn find_program_without_candidates() {
    assert_eq!(find_program(&[]), None);
    assert_eq!(find_program(&["no-such-program-for-this-test"]), None);
}

#[test]
fn probe_output_trims_unicode_whitespace() {
    assert_eq!(parse_probe_output("\u{a0}1x2"), Some((1, 2)));
    assert_eq!(parse_probe_output("1x2\u{a0}"), Some((1, 2)));
    assert_eq!(parse_probe_output("\u{3000}\u{85}640x480\u{2029}\u{202f}"), Some((640, 480)));
    assert_eq!(parse_probe_output("\u{2000}\u{200a}\u{1680}\u{205f}\u{2028}1920x1080\n"), Some((1920, 1080)));
    assert_eq!(parse_probe_output("\u{200b}1x2"), None);
    assert_eq!(parse_probe_output("1x\u{a0}2"), None);
    assert_eq!(parse_probe_output("\u{ff11}x2"), None);
}

#[test]
fn first_found_picks_earliest() {
    assert_eq!(first_found(&[]), None);
    assert_eq!(first_found(&[false, false]), None);
    assert_eq!(first_found(&[false, true, true]), Some(1));
    assert_eq!(first_found(&[true, false]), Some(0));
}
