//! The command builder: a pure mapping from a [`RecordingConfig`] to the
//! ordered argument list of the external encoder process.
//!
//! The capture backends differ by platform, so the caller names its platform
//! and the builder selects the matching backend; everything else is decided
//! by the configuration alone. The builder does no I/O and no validation: a
//! bad device identifier or an unwritable path surfaces only when the process
//! is spawned.

use vstd::prelude::*;

use crate::config::RecordingConfig;
use crate::config::RecordingMode;
use crate::text::spec_idec;
use crate::text::spec_udec;
use crate::text::i64_to_string;
use crate::text::u64_to_string;

verus! {

/// Which family of capture backends the encoder offers on the running
/// platform: `Windows` selects the desktop-duplication and DirectShow
/// backends, `Unix` the X11 and video4linux/ALSA backends.
#[derive(Clone, Copy, Debug, PartialEq, Eq, Structural)]
pub enum Platform {
    Windows,
    Unix,
}

/// The `WIDTHxHEIGHT` size argument.
pub open spec fn spec_size_arg(width: u32, height: u32) -> Seq<char> {
    spec_udec(width as nat) + "x"@ + spec_udec(height as nat)
}

/// The X11 input argument naming the display and the capture origin:
/// `:0.0+X,Y`.
pub open spec fn spec_display_origin_arg(x: i32, y: i32) -> Seq<char> {
    ":0.0+"@ + spec_idec(x as int) + ","@ + spec_idec(y as int)
}

/// The arguments of the primary video input: the desktop-capture backend with
/// the configured rectangle when the screen is recorded, the device-capture
/// backend bound to the camera otherwise.
pub open spec fn spec_primary_input_args(c: RecordingConfig, p: Platform) -> Seq<Seq<char>> {
    if c.mode is Camera {
        match p {
            Platform::Windows => seq!["-f"@, "dshow"@, "-i"@, "video="@ + c.camera_device@],
            Platform::Unix => seq![
                "-f"@,
                "v4l2"@,
                "-framerate"@,
                "30"@,
                "-video_size"@,
                "640x480"@,
                "-i"@,
                c.camera_device@,
            ],
        }
    } else {
        match p {
            Platform::Windows => seq![
                "-f"@,
                "gdigrab"@,
                "-framerate"@,
                "30"@,
                "-offset_x"@,
                spec_idec(c.x as int),
                "-offset_y"@,
                spec_idec(c.y as int),
                "-video_size"@,
                spec_size_arg(c.width, c.height),
                "-i"@,
                "desktop"@,
            ],
            Platform::Unix => seq![
                "-f"@,
                "x11grab"@,
                "-video_size"@,
                spec_size_arg(c.width, c.height),
                "-framerate"@,
                "30"@,
                "-i"@,
                spec_display_origin_arg(c.x, c.y),
            ],
        }
    }
}

/// The arguments of the secondary video input: the camera at the fixed,
/// smaller picture-in-picture frame size. Empty unless the mode composites
/// the camera over the screen.
pub open spec fn spec_overlay_input_args(c: RecordingConfig, p: Platform) -> Seq<Seq<char>> {
    if c.mode is PiP {
        match p {
            Platform::Windows => seq![
                "-f"@,
                "dshow"@,
                "-video_size"@,
                "320x240"@,
                "-i"@,
                "video="@ + c.camera_device@,
            ],
            Platform::Unix => seq![
                "-f"@,
                "v4l2"@,
                "-framerate"@,
                "30"@,
                "-video_size"@,
                "320x240"@,
                "-i"@,
                c.camera_device@,
            ],
        }
    } else {
        seq![]
    }
}

/// The arguments of the audio input, forced to a stereo downmix/upmix for
/// consistency across devices. Empty when audio is disabled.
pub open spec fn spec_audio_input_args(c: RecordingConfig, p: Platform) -> Seq<Seq<char>> {
    if c.audio_enabled {
        (match p {
            Platform::Windows => seq!["-f"@, "dshow"@, "-i"@, "audio="@ + c.audio_device@],
            Platform::Unix => seq!["-f"@, "alsa"@, "-i"@, c.audio_device@],
        }) + seq!["-ac"@, "2"@]
    } else {
        seq![]
    }
}

/// The compositing directive that overlays the second video input onto the
/// first at a fixed inset from the primary frame's top-right corner. Present
/// exactly when the mode composites the camera over the screen.
pub open spec fn spec_filter_args(c: RecordingConfig) -> Seq<Seq<char>> {
    if c.mode is PiP {
        seq!["-filter_complex"@, "[0:v][1:v] overlay=main_w-overlay_w-10:10"@]
    } else {
        seq![]
    }
}

/// The encoder parameters chosen by the container format: `webm` selects the
/// throughput-oriented codec with a fixed target bitrate; anything else is
/// the `mp4` default, a latency-optimized preset with a fixed quality target
/// and the pixel format with the widest player compatibility.
pub open spec fn spec_encoding_args(c: RecordingConfig) -> Seq<Seq<char>> {
    if c.container_format@ == "webm"@ {
        seq!["-c:v"@, "libvpx-vp9"@, "-b:v"@, "2M"@]
    } else {
        seq!["-c:v"@, "libx264"@, "-preset"@, "ultrafast"@, "-crf"@, "23"@, "-pix_fmt"@, "yuv420p"@]
    }
}

/// The closing arguments: overwrite the destination without prompting, then
/// the destination path, always last.
pub open spec fn spec_output_args(c: RecordingConfig) -> Seq<Seq<char>> {
    seq!["-y"@, c.output_path@]
}

/// The full argument list rendered from a configuration: primary video
/// input, optional overlay input, optional audio input, optional compositing
/// directive, encoder parameters, and the destination.
pub open spec fn spec_command_args(c: RecordingConfig, p: Platform) -> Seq<Seq<char>> {
    spec_primary_input_args(c, p) + spec_overlay_input_args(c, p) + spec_audio_input_args(c, p)
        + spec_filter_args(c) + spec_encoding_args(c) + spec_output_args(c)
}

/// The `WIDTHxHEIGHT` size argument.
fn size_arg(width: u32, height: u32) -> (r: String)
    ensures
        r@ == spec_size_arg(width, height),
{
    let mut s = u64_to_string(width as u64);
    s.append("x");
    s.append(u64_to_string(height as u64).as_str());
    s
}

/// The `:0.0+X,Y` X11 input argument.
fn display_origin_arg(x: i32, y: i32) -> (r: String)
    ensures
        r@ == spec_display_origin_arg(x, y),
{
    let mut s = ":0.0+".to_owned();
    s.append(i64_to_string(x as i64).as_str());
    s.append(",");
    s.append(i64_to_string(y as i64).as_str());
    s
}

/// A `PREFIXname` argument, as in `video=NAME` or `audio=NAME`.
fn prefixed_arg(prefix: &str, name: &String) -> (r: String)
    ensures
        r@ == prefix@ + name@,
{
    let mut s = prefix.to_owned();
    s.append(name.as_str());
    s
}

fn push_primary_input(args: &mut Vec<String>, config: &RecordingConfig, platform: Platform)
    ensures
        final(args).deep_view() == old(args).deep_view() + spec_primary_input_args(*config, platform),
{
    if matches!(config.mode, RecordingMode::Camera) {
        match platform {
            Platform::Windows => {
                args.push("-f".to_owned());
                args.push("dshow".to_owned());
                args.push("-i".to_owned());
                args.push(prefixed_arg("video=", &config.camera_device));
            },
            Platform::Unix => {
                args.push("-f".to_owned());
                args.push("v4l2".to_owned());
                args.push("-framerate".to_owned());
                args.push("30".to_owned());
                args.push("-video_size".to_owned());
                args.push("640x480".to_owned());
                args.push("-i".to_owned());
                args.push(config.camera_device.clone());
            },
        }
    } else {
        match platform {
            Platform::Windows => {
                args.push("-f".to_owned());
                args.push("gdigrab".to_owned());
                args.push("-framerate".to_owned());
                args.push("30".to_owned());
                args.push("-offset_x".to_owned());
                args.push(i64_to_string(config.x as i64));
                args.push("-offset_y".to_owned());
                args.push(i64_to_string(config.y as i64));
                args.push("-video_size".to_owned());
                args.push(size_arg(config.width, config.height));
                args.push("-i".to_owned());
                args.push("desktop".to_owned());
            },
            Platform::Unix => {
                args.push("-f".to_owned());
                args.push("x11grab".to_owned());
                args.push("-video_size".to_owned());
                args.push(size_arg(config.width, config.height));
                args.push("-framerate".to_owned());
                args.push("30".to_owned());
                args.push("-i".to_owned());
                args.push(display_origin_arg(config.x, config.y));
            },
        }
    }
    proof {
        assert(args.deep_view() =~= old(args).deep_view() + spec_primary_input_args(
            *config,
            platform,
        ));
    }
}

fn push_overlay_input(args: &mut Vec<String>, config: &RecordingConfig, platform: Platform)
    ensures
        final(args).deep_view() == old(args).deep_view() + spec_overlay_input_args(*config, platform),
{
    if matches!(config.mode, RecordingMode::PiP) {
        match platform {
            Platform::Windows => {
                args.push("-f".to_owned());
                args.push("dshow".to_owned());
                args.push("-video_size".to_owned());
                args.push("320x240".to_owned());
                args.push("-i".to_owned());
                args.push(prefixed_arg("video=", &config.camera_device));
            },
            Platform::Unix => {
                args.push("-f".to_owned());
                args.push("v4l2".to_owned());
                args.push("-framerate".to_owned());
                args.push("30".to_owned());
                args.push("-video_size".to_owned());
                args.push("320x240".to_owned());
                args.push("-i".to_owned());
                args.push(config.camera_device.clone());
            },
        }
    }
    proof {
        assert(args.deep_view() =~= old(args).deep_view() + spec_overlay_input_args(
            *config,
            platform,
        ));
    }
}

fn push_audio_input(args: &mut Vec<String>, config: &RecordingConfig, platform: Platform)
    ensures
        final(args).deep_view() == old(args).deep_view() + spec_audio_input_args(*config, platform),
{
    if config.audio_enabled {
        match platform {
            Platform::Windows => {
                args.push("-f".to_owned());
                args.push("dshow".to_owned());
                args.push("-i".to_owned());
                args.push(prefixed_arg("audio=", &config.audio_device));
            },
            Platform::Unix => {
                args.push("-f".to_owned());
                args.push("alsa".to_owned());
                args.push("-i".to_owned());
                args.push(config.audio_device.clone());
            },
        }
        args.push("-ac".to_owned());
        args.push("2".to_owned());
    }
    proof {
        assert(args.deep_view() =~= old(args).deep_view() + spec_audio_input_args(
            *config,
            platform,
        ));
    }
}

fn push_filter(args: &mut Vec<String>, config: &RecordingConfig)
    ensures
        final(args).deep_view() == old(args).deep_view() + spec_filter_args(*config),
{
    if matches!(config.mode, RecordingMode::PiP) {
        args.push("-filter_complex".to_owned());
        args.push("[0:v][1:v] overlay=main_w-overlay_w-10:10".to_owned());
    }
    proof {
        assert(args.deep_view() =~= old(args).deep_view() + spec_filter_args(*config));
    }
}

fn push_encoding(args: &mut Vec<String>, config: &RecordingConfig)
    ensures
        final(args).deep_view() == old(args).deep_view() + spec_encoding_args(*config),
{
    if config.container_format == "webm".to_owned() {
        args.push("-c:v".to_owned());
        args.push("libvpx-vp9".to_owned());
        args.push("-b:v".to_owned());
        args.push("2M".to_owned());
    } else {
        args.push("-c:v".to_owned());
        args.push("libx264".to_owned());
        args.push("-preset".to_owned());
        args.push("ultrafast".to_owned());
        args.push("-crf".to_owned());
        args.push("23".to_owned());
        args.push("-pix_fmt".to_owned());
        args.push("yuv420p".to_owned());
    }
    proof {
        assert(args.deep_view() =~= old(args).deep_view() + spec_encoding_args(*config));
    }
}

fn push_output(args: &mut Vec<String>, config: &RecordingConfig)
    ensures
        final(args).deep_view() == old(args).deep_view() + spec_output_args(*config),
{
    args.push("-y".to_owned());
    args.push(config.output_path.clone());
    proof {
        assert(args.deep_view() =~= old(args).deep_view() + spec_output_args(*config));
    }
}

/// Renders a configuration into the exact argument sequence of the encoder
/// invocation for the given platform.
///
/// A pure mapping: the same configuration and platform always give the same
/// argument sequence, spelled out by [`spec_command_args`]. The overwrite
/// flag and the destination path always come last.
pub fn build_recording_command(config: &RecordingConfig, platform: Platform) -> (r: Vec<String>)
    ensures
        r.deep_view() == spec_command_args(*config, platform),
{
    let mut args: Vec<String> = Vec::new();
    push_primary_input(&mut args, config, platform);
    push_overlay_input(&mut args, config, platform);
    push_audio_input(&mut args, config, platform);
    push_filter(&mut args, config);
    push_encoding(&mut args, config);
    push_output(&mut args, config);
    proof {
        assert(args.deep_view() =~= spec_command_args(*config, platform));
    }
    args
}

/// How many arguments of `args` are exactly `x`.
pub open spec fn count_arg(args: Seq<Seq<char>>, x: Seq<char>) -> nat
    decreases args.len(),
{
    if args.len() == 0 {
        0
    } else {
        (if args[0] == x {
            1nat
        } else {
            0nat
        }) + count_arg(args.drop_first(), x)
    }
}

/// An argument list none of whose elements is `x` counts no occurrence of it.
pub proof fn lemma_count_arg_zero(args: Seq<Seq<char>>, x: Seq<char>)
    requires
        forall|i: int| 0 <= i < args.len() ==> args[i] != x,
    ensures
        count_arg(args, x) == 0,
    decreases args.len(),
{
    if args.len() > 0 {
        lemma_count_arg_zero(args.drop_first(), x);
    }
}

/// Counting distributes over concatenation.
pub proof fn lemma_count_arg_concat(a: Seq<Seq<char>>, b: Seq<Seq<char>>, x: Seq<char>)
    ensures
        count_arg(a + b, x) == count_arg(a, x) + count_arg(b, x),
    decreases a.len(),
{
    if a.len() == 0 {
        assert(a + b =~= b);
    } else {
        assert((a + b).drop_first() =~= a.drop_first() + b);
        lemma_count_arg_concat(a.drop_first(), b, x);
    }
}

/// A signed decimal rendering never spells the compositing flag: it begins
/// with a digit, or with a sign followed by a digit.
proof fn lemma_idec_is_not_filter_flag(x: int)
    ensures
        spec_idec(x) != "-filter_complex"@,
{
    reveal_strlit("-filter_complex");
    if x < 0 {
        crate::text::lemma_udec_starts_with_digit((-x) as nat);
        if spec_idec(x) == "-filter_complex"@ {
            assert(spec_idec(x)[1] == spec_udec((-x) as nat)[0]);
            assert(false);
        }
    } else {
        crate::text::lemma_udec_starts_with_digit(x as nat);
        if spec_idec(x) == "-filter_complex"@ {
            assert(spec_idec(x)[0] == spec_udec(x as nat)[0]);
            assert(false);
        }
    }
}

/// None of the composed arguments spells the compositing flag: they begin
/// with a digit, a colon, or the name of their input kind.
proof fn lemma_composed_args_are_not_filter_flag(c: RecordingConfig)
    ensures
        spec_size_arg(c.width, c.height) != "-filter_complex"@,
        spec_display_origin_arg(c.x, c.y) != "-filter_complex"@,
        "video="@ + c.camera_device@ != "-filter_complex"@,
        "audio="@ + c.audio_device@ != "-filter_complex"@,
        spec_idec(c.x as int) != "-filter_complex"@,
        spec_idec(c.y as int) != "-filter_complex"@,
{
    reveal_strlit("-filter_complex");
    reveal_strlit(":0.0+");
    reveal_strlit("video=");
    reveal_strlit("audio=");
    crate::text::lemma_udec_starts_with_digit(c.width as nat);
    lemma_idec_is_not_filter_flag(c.x as int);
    lemma_idec_is_not_filter_flag(c.y as int);
    if spec_size_arg(c.width, c.height) == "-filter_complex"@ {
        assert(spec_size_arg(c.width, c.height)[0] == spec_udec(c.width as nat)[0]);
        assert(false);
    }
    if spec_display_origin_arg(c.x, c.y) == "-filter_complex"@ {
        assert(spec_display_origin_arg(c.x, c.y)[0] == ':');
        assert(false);
    }
    if "video="@ + c.camera_device@ == "-filter_complex"@ {
        assert(("video="@ + c.camera_device@)[0] == 'v');
        assert(false);
    }
    if "audio="@ + c.audio_device@ == "-filter_complex"@ {
        assert(("audio="@ + c.audio_device@)[0] == 'a');
        assert(false);
    }
}

/// Law: a picture-in-picture command holds two distinct video inputs and
/// exactly one compositing directive, which stands right before the overlay
/// expression referencing both inputs.
///
/// The device and path strings must not themselves spell the compositing
/// flag; a device so named would appear as a second, accidental occurrence.
pub proof fn lemma_pip_exactly_one_compositing_directive(c: RecordingConfig, p: Platform)
    requires
        c.mode is PiP,
        c.camera_device@ != "-filter_complex"@,
        c.audio_device@ != "-filter_complex"@,
        c.output_path@ != "-filter_complex"@,
    ensures
        ({
            let args = spec_command_args(c, p);
            let k = spec_primary_input_args(c, p).len() + spec_overlay_input_args(c, p).len()
                + spec_audio_input_args(c, p).len();
            &&& count_arg(args, "-filter_complex"@) == 1
            &&& args[k as int] == "-filter_complex"@
            &&& args[k as int + 1] == "[0:v][1:v] overlay=main_w-overlay_w-10:10"@
            &&& spec_primary_input_args(c, p) != spec_overlay_input_args(c, p)
        }),
{
    let flag = "-filter_complex"@;
    let primary = spec_primary_input_args(c, p);
    let overlay = spec_overlay_input_args(c, p);
    let audio = spec_audio_input_args(c, p);
    let filter = spec_filter_args(c);
    let encoding = spec_encoding_args(c);
    let output = spec_output_args(c);
    reveal_strlit("-filter_complex");
    assert("-filter_complex"@.len() == 15);
    reveal_strlit("-f");
    assert("-f"@.len() == 2);
    reveal_strlit("-framerate");
    assert("-framerate"@.len() == 10);
    reveal_strlit("-offset_x");
    assert("-offset_x"@.len() == 9);
    reveal_strlit("-offset_y");
    assert("-offset_y"@.len() == 9);
    reveal_strlit("-video_size");
    assert("-video_size"@.len() == 11);
    reveal_strlit("-i");
    assert("-i"@.len() == 2);
    reveal_strlit("-ac");
    assert("-ac"@.len() == 3);
    reveal_strlit("-c:v");
    assert("-c:v"@.len() == 4);
    reveal_strlit("-b:v");
    assert("-b:v"@.len() == 4);
    reveal_strlit("-preset");
    assert("-preset"@.len() == 7);
    reveal_strlit("-crf");
    assert("-crf"@.len() == 4);
    reveal_strlit("-pix_fmt");
    assert("-pix_fmt"@.len() == 8);
    reveal_strlit("-y");
    assert("-y"@.len() == 2);
    reveal_strlit("gdigrab");
    assert("gdigrab"@.len() == 7);
    reveal_strlit("x11grab");
    assert("x11grab"@.len() == 7);
    reveal_strlit("dshow");
    assert("dshow"@.len() == 5);
    reveal_strlit("v4l2");
    assert("v4l2"@.len() == 4);
    reveal_strlit("alsa");
    assert("alsa"@.len() == 4);
    reveal_strlit("30");
    assert("30"@.len() == 2);
    reveal_strlit("2");
    assert("2"@.len() == 1);
    reveal_strlit("desktop");
    assert("desktop"@.len() == 7);
    reveal_strlit("640x480");
    assert("640x480"@.len() == 7);
    reveal_strlit("320x240");
    assert("320x240"@.len() == 7);
    reveal_strlit("libvpx-vp9");
    assert("libvpx-vp9"@.len() == 10);
    reveal_strlit("libx264");
    assert("libx264"@.len() == 7);
    reveal_strlit("ultrafast");
    assert("ultrafast"@.len() == 9);
    reveal_strlit("23");
    assert("23"@.len() == 2);
    reveal_strlit("2M");
    assert("2M"@.len() == 2);
    reveal_strlit("yuv420p");
    assert("yuv420p"@.len() == 7);
    reveal_strlit("[0:v][1:v] overlay=main_w-overlay_w-10:10");
    assert("[0:v][1:v] overlay=main_w-overlay_w-10:10"@.len() == 41);
    lemma_composed_args_are_not_filter_flag(c);
    reveal_with_fuel(count_arg, 4);
    assert(forall|i: int| 0 <= i < primary.len() ==> primary[i] != flag);
    lemma_count_arg_zero(primary, flag);
    assert(forall|i: int| 0 <= i < overlay.len() ==> overlay[i] != flag);
    lemma_count_arg_zero(overlay, flag);
    assert(forall|i: int| 0 <= i < audio.len() ==> audio[i] != flag);
    lemma_count_arg_zero(audio, flag);
    assert(count_arg(filter, flag) == 1);
    assert(forall|i: int| 0 <= i < encoding.len() ==> encoding[i] != flag);
    lemma_count_arg_zero(encoding, flag);
    assert(forall|i: int| 0 <= i < output.len() ==> output[i] != flag);
    lemma_count_arg_zero(output, flag);
    lemma_count_arg_concat(primary, overlay, flag);
    lemma_count_arg_concat(primary + overlay, audio, flag);
    lemma_count_arg_concat(primary + overlay + audio, filter, flag);
    lemma_count_arg_concat(primary + overlay + audio + filter, encoding, flag);
    lemma_count_arg_concat(primary + overlay + audio + filter + encoding, output, flag);
    assert(primary[1] != overlay[1]);
}

/// Law: whatever the configuration and platform, the rendered command ends
/// with the overwrite flag followed by the destination path.
pub proof fn lemma_command_ends_with_destination(c: RecordingConfig, p: Platform)
    ensures
        ({
            let args = spec_command_args(c, p);
            &&& args.len() >= 2
            &&& args[args.len() - 2] == "-y"@
            &&& args[args.len() - 1] == c.output_path@
        }),
{
}

} // verus!




