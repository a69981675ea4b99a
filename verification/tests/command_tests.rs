use screen_recorder::build_recording_command;
use screen_recorder::Platform;
use screen_recorder::RecordingConfig;
use screen_recorder::RecordingMode;

fn region_config(mode: RecordingMode, format: &str) -> RecordingConfig {
    RecordingConfig {
        output_path: "out.mp4".to_string(),
        width: 1280,
        height: 720,
        x: 100,
        y: 50,
        mode,
        camera_device: "/dev/video0".to_string(),
        audio_enabled: false,
        audio_device: "default".to_string(),
        container_format: format.to_string(),
        encoder_path: "ffmpeg".to_string(),
    }
}

#[test]
fn screen_mp4_command_selects_region_capture_exactly() {
    let args = build_recording_command(&region_config(RecordingMode::Screen, "mp4"), Platform::Unix);
    let expected = vec![
        "-f",
        "x11grab",
        "-video_size",
        "1280x720",
        "-framerate",
        "30",
        "-i",
        ":0.0+100,50",
        "-c:v",
        "libx264",
        "-preset",
        "ultrafast",
        "-crf",
        "23",
        "-pix_fmt",
        "yuv420p",
        "-y",
        "out.mp4",
    ];
    assert_eq!(args, expected);
}

#[test]
fn screen_mp4_command_on_windows_uses_desktop_capture_with_offsets() {
    let args = build_recording_command(
        &region_config(RecordingMode::Screen, "mp4"),
        Platform::Windows,
    );
    let expected = vec![
        "-f",
        "gdigrab",
        "-framerate",
        "30",
        "-offset_x",
        "100",
        "-offset_y",
        "50",
        "-video_size",
        "1280x720",
        "-i",
        "desktop",
        "-c:v",
        "libx264",
        "-preset",
        "ultrafast",
        "-crf",
        "23",
        "-pix_fmt",
        "yuv420p",
        "-y",
        "out.mp4",
    ];
    assert_eq!(args, expected);
}

#[test]
fn command_includes_compatibility_pixel_format_and_ends_with_overwrite_and_path() {
    let args = build_recording_command(&region_config(RecordingMode::Screen, "mp4"), Platform::Unix);
    assert!(args.contains(&"-pix_fmt".to_string()));
    assert!(args.contains(&"yuv420p".to_string()));
    assert_eq!(args[args.len() - 2], "-y");
    assert_eq!(args[args.len() - 1], "out.mp4");
}

#[test]
fn pip_command_has_two_video_inputs_and_one_compositing_directive() {
    let args = build_recording_command(&region_config(RecordingMode::PiP, "mp4"), Platform::Unix);
    let inputs: Vec<usize> = args
        .iter()
        .enumerate()
        .filter(|(_, a)| a.as_str() == "-i")
        .map(|(i, _)| i)
        .collect();
    assert_eq!(inputs.len(), 2);
    assert_eq!(args[inputs[0] + 1], ":0.0+100,50");
    assert_eq!(args[inputs[1] + 1], "/dev/video0");
    let directives: Vec<usize> = args
        .iter()
        .enumerate()
        .filter(|(_, a)| a.as_str() == "-filter_complex")
        .map(|(i, _)| i)
        .collect();
    assert_eq!(directives.len(), 1);
    assert_eq!(
        args[directives[0] + 1],
        "[0:v][1:v] overlay=main_w-overlay_w-10:10"
    );
}

#[test]
fn pip_overlay_input_uses_fixed_small_frame() {
    let args = build_recording_command(&region_config(RecordingMode::PiP, "mp4"), Platform::Unix);
    assert!(args.contains(&"320x240".to_string()));
    let args = build_recording_command(
        &region_config(RecordingMode::PiP, "mp4"),
        Platform::Windows,
    );
    assert!(args.contains(&"320x240".to_string()));
    assert!(args.contains(&"video=/dev/video0".to_string()));
}

#[test]
fn camera_mode_binds_the_camera_as_primary_input() {
    let args = build_recording_command(&region_config(RecordingMode::Camera, "mp4"), Platform::Unix);
    let expected_head = vec![
        "-f",
        "v4l2",
        "-framerate",
        "30",
        "-video_size",
        "640x480",
        "-i",
        "/dev/video0",
    ];
    assert_eq!(&args[..8], &expected_head[..]);
    assert!(!args.contains(&"-filter_complex".to_string()));
}

#[test]
fn webm_format_selects_throughput_codec_with_fixed_bitrate() {
    let args = build_recording_command(&region_config(RecordingMode::Screen, "webm"), Platform::Unix);
    let expected_tail = vec!["-c:v", "libvpx-vp9", "-b:v", "2M", "-y", "out.mp4"];
    assert_eq!(&args[args.len() - 6..], &expected_tail[..]);
    assert!(!args.contains(&"-pix_fmt".to_string()));
}

#[test]
fn unknown_format_falls_back_to_mp4_encoding() {
    let args = build_recording_command(&region_config(RecordingMode::Screen, "mkv"), Platform::Unix);
    assert!(args.contains(&"libx264".to_string()));
    assert!(args.contains(&"yuv420p".to_string()));
}

#[test]
fn enabled_audio_adds_input_and_stereo_downmix() {
    let mut config = region_config(RecordingMode::Screen, "mp4");
    config.audio_enabled = true;
    config.audio_device = "hw:1,0".to_string();
    let args = build_recording_command(&config, Platform::Unix);
    let pos = args.iter().position(|a| a == "alsa").expect("alsa input");
    assert_eq!(args[pos - 1], "-f");
    assert_eq!(args[pos + 1], "-i");
    assert_eq!(args[pos + 2], "hw:1,0");
    assert_eq!(args[pos + 3], "-ac");
    assert_eq!(args[pos + 4], "2");

    let args = build_recording_command(&config, Platform::Windows);
    assert!(args.contains(&"audio=hw:1,0".to_string()));
    assert!(args.contains(&"-ac".to_string()));
}

#[test]
fn the_builder_is_a_pure_mapping() {
    let config = region_config(RecordingMode::PiP, "webm");
    let a = build_recording_command(&config, Platform::Unix);
    let b = build_recording_command(&config, Platform::Unix);
    assert_eq!(a, b);
}

#[test]
fn negative_region_origin_is_rendered_with_its_sign() {
    let mut config = region_config(RecordingMode::Screen, "mp4");
    config.x = -5;
    config.y = -40;
    let args = build_recording_command(&config, Platform::Unix);
    assert!(args.contains(&":0.0+-5,-40".to_string()));
    let args = build_recording_command(&config, Platform::Windows);
    assert!(args.contains(&"-5".to_string()));
    assert!(args.contains(&"-40".to_string()));
}
