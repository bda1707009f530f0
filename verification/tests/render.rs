use iv2c::frames::Frame;
use iv2c::frames::FrameIterator;
use iv2c::maps::CharMap;
use iv2c::pipeline::ImagePipeline;
use iv2c::pipeline::Resolution;
use iv2c::render::RenderFrame;
use iv2c::render::RenderOptions;
use iv2c::render::Renderer;

fn gray_frame(v: u8) -> Frame {
    Frame::new(1, 1, vec![v, v, v]).unwrap()
}

fn renderer(media: FrameIterator, duration_ns: u64, loop_playback: bool) -> Renderer {
    let pipeline = ImagePipeline::new(Resolution::Fixed(1, 1), CharMap::custom("abcd"), false);
    Renderer::new(
        pipeline,
        media,
        RenderOptions { frame_duration_ns: duration_ns, w_mod: 1, loop_playback },
    )
}

#[test]
fn render_frame_from_tuple_keeps_parts() {
    let rf = RenderFrame::from((String::from("hi"), vec![1, 2, 3]));
    assert_eq!(rf.text, "hi");
    assert_eq!(rf.colors, vec![1, 2, 3]);
}

#[test]
fn target_frame_duration_reports_the_configured_pace() {
    let r = renderer(FrameIterator::Image(None), 40_000_000, false);
    assert_eq!(r.target_frame_duration(), 40_000_000);
}

#[test]
fn pacing_waits_until_a_frame_is_due() {
    let r = renderer(FrameIterator::Image(None), 10, false);
    assert_eq!(r.time_to_send_next_frame(7), (false, 0, 0));
    assert_eq!(r.time_to_send_next_frame(10), (true, 0, 10));
}

#[test]
fn pacing_skips_behind_frames_and_advances_whole_periods() {
    // elapsed = 3 * duration + 5: two frames are dropped and the anchor
    // advances by exactly three periods.
    let r = renderer(FrameIterator::Image(None), 10, false);
    assert_eq!(r.time_to_send_next_frame(35), (true, 2, 30));
    assert_eq!(r.time_to_send_next_frame(20), (true, 1, 20));
}

#[test]
fn pacing_zero_duration_renders_every_tick() {
    let r = renderer(FrameIterator::Image(None), 0, false);
    assert_eq!(r.time_to_send_next_frame(0), (true, 0, 0));
    assert_eq!(r.time_to_send_next_frame(123), (true, 0, 123));
}

#[test]
fn render_frame_text_and_colors_for_one_pixel() {
    let r = renderer(FrameIterator::Image(None), 0, false);
    let out = r.render_frame(&gray_frame(250)).unwrap();
    assert_eq!(out.text, "d");
    assert_eq!(out.colors, vec![250, 250, 250]);
}

#[test]
fn render_frame_luminance_is_not_the_red_channel() {
    // A pure red pixel is dark: its luminance (about 54) picks the first
    // glyph of a two-glyph table, where the raw red byte would pick the last.
    let pipeline = ImagePipeline::new(Resolution::Fixed(1, 1), CharMap::custom("ab"), false);
    let r = Renderer::new(
        pipeline,
        FrameIterator::Image(None),
        RenderOptions { frame_duration_ns: 0, w_mod: 1, loop_playback: false },
    );
    let red = Frame::new(1, 1, vec![255, 0, 0]).unwrap();
    assert_eq!(r.render_frame(&red).unwrap().text, "a");
    let white = Frame::new(1, 1, vec![255, 255, 255]).unwrap();
    assert_eq!(r.render_frame(&white).unwrap().text, "b");
}

#[test]
fn render_frame_color_text_alignment_without_line_breaks() {
    // A 2x1 output: exactly 2 characters and 6 color bytes.
    let pipeline = ImagePipeline::new(Resolution::Fixed(2, 1), CharMap::custom("ab"), false);
    let r = Renderer::new(
        pipeline,
        FrameIterator::Image(None),
        RenderOptions { frame_duration_ns: 0, w_mod: 1, loop_playback: false },
    );
    let src = Frame::new(2, 1, vec![0, 0, 0, 255, 255, 255]).unwrap();
    let out = r.render_frame(&src).unwrap();
    assert_eq!(out.text.chars().count(), 2);
    assert_eq!(out.text, "ab");
    assert_eq!(out.colors.len(), 6);
    assert_eq!(out.colors, vec![0, 0, 0, 255, 255, 255]);
}

#[test]
fn render_frame_color_text_alignment_with_line_breaks() {
    // A 2x2 output with line terminators: one embedded pair in the text and
    // 2*(2*3) + 6 = 18 color bytes, the 6-byte pad after the first row only.
    let pipeline = ImagePipeline::new(Resolution::Fixed(2, 2), CharMap::custom("ab"), true);
    let r = Renderer::new(
        pipeline,
        FrameIterator::Image(None),
        RenderOptions { frame_duration_ns: 0, w_mod: 1, loop_playback: false },
    );
    let src = Frame::new(
        2,
        2,
        vec![0, 0, 0, 255, 255, 255, 255, 255, 255, 0, 0, 0],
    )
    .unwrap();
    let out = r.render_frame(&src).unwrap();
    assert_eq!(out.text, "ab\r\nba");
    assert_eq!(out.text.matches("\r\n").count(), 1);
    assert_eq!(out.colors.len(), 18);
    assert_eq!(
        out.colors,
        vec![0, 0, 0, 255, 255, 255, 0, 0, 0, 0, 0, 0, 255, 255, 255, 0, 0, 0]
    );
}

#[test]
fn tick_skips_rendering_when_no_frame_is_due() {
    let mut r = renderer(
        FrameIterator::AnimatedImage { frames: vec![gray_frame(0)], current_frame: 0 },
        100,
        false,
    );
    let (state, advance) = r.tick(40, false);
    assert!(!state.should_render);
    assert!(state.frame.is_none());
    assert_eq!(advance, 0);
}

#[test]
fn tick_skips_frames_to_catch_up_when_permitted() {
    let frames = vec![gray_frame(0), gray_frame(120), gray_frame(250)];
    let mut r = renderer(FrameIterator::AnimatedImage { frames, current_frame: 0 }, 10, false);
    // elapsed = 2 * duration: one frame is dropped before the pull.
    let (state, advance) = r.tick(20, true);
    assert!(state.should_render);
    assert_eq!(advance, 20);
    assert_eq!(state.frame.unwrap().text, "b");
}

#[test]
fn tick_without_skip_permission_drops_nothing() {
    let frames = vec![gray_frame(0), gray_frame(120), gray_frame(250)];
    let mut r = renderer(FrameIterator::AnimatedImage { frames, current_frame: 0 }, 10, false);
    let (state, _) = r.tick(20, false);
    assert_eq!(state.frame.unwrap().text, "a");
}

#[test]
fn tick_loop_replay_wraps_to_the_first_frame() {
    // A 3-frame list with looping on and frame skip off: four due ticks show
    // frames 0, 1, 2 and then frame 0 again, without an extra full wait.
    let frames = vec![gray_frame(0), gray_frame(120), gray_frame(250)];
    let mut r = renderer(FrameIterator::AnimatedImage { frames, current_frame: 0 }, 10, true);
    let mut seen = Vec::new();
    for _ in 0..4 {
        let (state, _) = r.tick(10, false);
        assert!(state.should_render);
        seen.push(state.frame.unwrap().text);
    }
    assert_eq!(seen, vec!["a", "b", "d", "a"]);
}

#[test]
fn tick_loop_replay_rewinds_the_time_anchor() {
    let frames = vec![gray_frame(0)];
    let mut r = renderer(FrameIterator::AnimatedImage { frames, current_frame: 0 }, 10, true);
    let (_, advance) = r.tick(10, false);
    assert_eq!(advance, 10);
    // The list is exhausted now: the replay tick advances one period less,
    // so the replayed first frame shows immediately.
    let (state, advance) = r.tick(10, false);
    assert_eq!(advance, 0);
    assert_eq!(state.frame.unwrap().text, "a");
}

#[test]
fn tick_without_looping_repeats_the_last_frame_on_exhaustion() {
    let frames = vec![gray_frame(250)];
    let mut r = renderer(FrameIterator::AnimatedImage { frames, current_frame: 0 }, 10, false);
    let (state, _) = r.tick(10, false);
    assert_eq!(state.frame.unwrap().text, "d");
    let (state, _) = r.tick(10, false);
    assert!(state.should_render);
    assert_eq!(state.frame.unwrap().text, "d");
}

#[test]
fn tick_exhausted_single_image_without_history_renders_nothing() {
    let mut r = renderer(FrameIterator::Image(None), 10, false);
    let (state, advance) = r.tick(25, false);
    assert!(state.should_render);
    assert!(state.frame.is_none());
    assert_eq!(advance, 20);
}
