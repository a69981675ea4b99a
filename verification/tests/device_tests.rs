use screen_recorder::device_list;
use screen_recorder::monitors;
use screen_recorder::recorder;
use screen_recorder::DisplayBounds;

const DSHOW_LISTING: &str = "[dshow @ 0x1] DirectShow video devices (some may be both video and audio devices)\r\n[dshow @ 0x1]  \"Integrated Camera\"\r\n[dshow @ 0x1]     Alternative name \"@device_pnp_cam\"\r\n[dshow @ 0x1] DirectShow audio devices\r\n[dshow @ 0x1]  \"Microphone (Realtek Audio)\"\r\n[dshow @ 0x1]     Alternative name \"@device_cm_mic\"\r\n[dshow @ 0x1]  \"Stereo Mix\"\r\n";

#[test]
fn dshow_video_section_yields_the_cameras() {
    let devices = device_list::get_video_devices(DSHOW_LISTING);
    // The alternative-name line also carries a quoted name, and the device
    // directory keeps it, as a second way to address the same camera.
    assert_eq!(devices.len(), 2);
    assert_eq!(devices[0].name, "Integrated Camera");
    assert_eq!(devices[0].id, "Integrated Camera");
    assert_eq!(devices[1].name, "@device_pnp_cam");
}

#[test]
fn dshow_audio_section_yields_the_microphones() {
    let devices = device_list::get_audio_devices(DSHOW_LISTING);
    assert_eq!(devices.len(), 3);
    assert_eq!(devices[0].name, "Microphone (Realtek Audio)");
    assert_eq!(devices[1].name, "@device_cm_mic");
    assert_eq!(devices[2].name, "Stereo Mix");
}

#[test]
fn dshow_parse_of_unrelated_text_yields_nothing() {
    assert_eq!(device_list::get_video_devices("nothing here").len(), 0);
    assert_eq!(device_list::get_audio_devices("").len(), 0);
}

#[test]
fn audio_names_skip_alternative_names_and_other_sections() {
    let names = recorder::get_audio_devices(DSHOW_LISTING);
    assert_eq!(
        names,
        vec!["Microphone (Realtek Audio)".to_string(), "Stereo Mix".to_string()]
    );
}

#[test]
fn audio_names_fall_back_to_default_on_an_empty_listing() {
    assert_eq!(recorder::get_audio_devices(""), vec!["default".to_string()]);
    assert_eq!(
        recorder::get_audio_devices("no quoted devices anywhere"),
        vec!["default".to_string()]
    );
}

#[test]
fn default_audio_devices_offer_default_and_first_hardware_input() {
    assert_eq!(
        recorder::default_audio_devices(),
        vec!["default".to_string(), "hw:0,0".to_string()]
    );
}

#[test]
fn selection_is_kept_while_the_list_offers_it() {
    let devices = vec!["default".to_string(), "hw:0,0".to_string()];
    let kept = recorder::select_audio_device(&devices, &"hw:0,0".to_string());
    assert_eq!(kept, "hw:0,0");
}

#[test]
fn selection_moves_to_the_first_device_when_it_disappears() {
    let devices = vec!["default".to_string(), "hw:0,0".to_string()];
    let moved = recorder::select_audio_device(&devices, &"hw:9,9".to_string());
    assert_eq!(moved, "default");
    let none: Vec<String> = vec![];
    let kept = recorder::select_audio_device(&none, &"hw:9,9".to_string());
    assert_eq!(kept, "hw:9,9");
}

const V4L2_LISTING: &str = "Integrated Camera: Integrated C (usb-0000:00:14.0-8):\n\t/dev/video1\n\t/dev/video2\n\nUSB Capture (usb-0000:00:14.0-1):\n\t/dev/video0\n";

#[test]
fn v4l2_listing_yields_named_capture_nodes_sorted_by_path() {
    let fallback: Vec<String> = vec![];
    let devices = device_list::v4l2_video_devices(V4L2_LISTING, &fallback);
    assert_eq!(devices.len(), 3);
    assert_eq!(devices[0].id, "/dev/video0");
    assert_eq!(devices[0].name, "USB Capture (usb-0000:00:14.0-1) (/dev/video0)");
    assert_eq!(devices[1].id, "/dev/video1");
    assert_eq!(
        devices[1].name,
        "Integrated Camera: Integrated C (usb-0000:00:14.0-8) (/dev/video1)"
    );
    // The card name is spent on its first node; the second shows bare.
    assert_eq!(devices[2].id, "/dev/video2");
    assert_eq!(devices[2].name, " (/dev/video2)");
}

#[test]
fn v4l2_falls_back_to_device_directory_entries() {
    let entries = vec![
        "video1".to_string(),
        "null".to_string(),
        "video0".to_string(),
        "tty".to_string(),
    ];
    let devices = device_list::v4l2_video_devices("", &entries);
    assert_eq!(devices.len(), 2);
    assert_eq!(devices[0].id, "/dev/video0");
    assert_eq!(devices[0].name, "/dev/video0");
    assert_eq!(devices[1].id, "/dev/video1");
}

#[test]
fn v4l2_ignores_the_fallback_when_the_listing_names_a_node() {
    let entries = vec!["video9".to_string()];
    let devices = device_list::v4l2_video_devices(V4L2_LISTING, &entries);
    assert_eq!(devices.len(), 3);
    assert_eq!(devices[0].id, "/dev/video0");
}

const ARECORD_LISTING: &str = "null\n    Discard all samples\ndefault\n    Default ALSA Output\nhw:CARD=PCH,DEV=0\n    Direct hardware device\n";

#[test]
fn arecord_listing_yields_default_then_each_capture_device() {
    let devices = device_list::alsa_audio_devices(ARECORD_LISTING);
    assert_eq!(devices.len(), 3);
    assert_eq!(devices[0].name, "Default");
    assert_eq!(devices[0].id, "default");
    assert_eq!(devices[1].name, "default");
    assert_eq!(devices[1].id, "default");
    assert_eq!(devices[2].id, "hw:CARD=PCH,DEV=0");
}

#[test]
fn arecord_default_entry_is_always_offered() {
    let devices = device_list::alsa_audio_devices("");
    assert_eq!(devices.len(), 1);
    assert_eq!(devices[0].name, "Default");
    assert_eq!(devices[0].id, "default");
}

#[test]
fn monitors_are_labelled_and_the_primary_is_marked() {
    let displays = vec![
        DisplayBounds { width: 2560, height: 1440, x: 0, y: 0, is_primary: true },
        DisplayBounds { width: 1920, height: 1080, x: 2560, y: 0, is_primary: false },
    ];
    let monitors = monitors::get_monitors(&displays);
    assert_eq!(monitors.len(), 2);
    assert_eq!(monitors[0].name, "Monitor 1 (Primary)");
    assert_eq!(monitors[0].width, 2560);
    assert_eq!(monitors[1].name, "Monitor 2");
    assert_eq!(monitors[1].x, 2560);
}

#[test]
fn an_empty_display_report_yields_the_synthetic_default_monitor() {
    let monitors = monitors::get_monitors(&vec![]);
    assert_eq!(monitors.len(), 1);
    assert_eq!(monitors[0].name, "Default (Full Screen)");
    assert_eq!(monitors[0].width, 1920);
    assert_eq!(monitors[0].height, 1080);
    assert_eq!(monitors[0].x, 0);
    assert_eq!(monitors[0].y, 0);
}
