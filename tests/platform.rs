use clipforge::platform::{self, macos, windows};

#[test]
fn macos_test_list_screens() {
    let result = macos::list_screens(true);
    assert!(result.is_ok() || result.is_err());
    assert_eq!(result.unwrap()[0].id, "Capture screen 0");
    assert_eq!(macos::list_screens(false).unwrap_err(), "Failed to get display information");
}

#[test]
fn macos_test_request_permissions() {
    let permissions = vec!["screen".to_string(), "camera".to_string()];
    let result = macos::request_permissions(permissions);
    assert!(result.is_ok());
    let status = result.unwrap();
    assert!(status.granted.screen);
    assert!(status.granted.camera);
}

#[test]
fn windows_test_request_permissions() {
    let permissions = vec!["screen".to_string(), "camera".to_string()];
    let result = windows::request_permissions(permissions);
    assert!(result.is_ok());
    let status = result.unwrap();
    assert!(status.granted.screen);
    assert!(status.granted.camera);
}

#[test]
fn windows_test_list_screens() {
    let result = windows::list_screens();
    assert!(result.is_ok());
    let screens = result.unwrap();
    assert!(!screens.is_empty());
}

#[test]
fn unknown_permission_is_rejected() {
    let result = windows::request_permissions(vec!["microphone".to_string(), "gps".to_string(), "x".to_string()]);
    assert_eq!(result.unwrap_err(), "Unknown permission: gps");
    let ok = macos::request_permissions(vec!["microphone".to_string()]).unwrap();
    assert!(ok.granted.microphone && !ok.granted.screen && !ok.granted.camera);
}

#[test]
fn unsupported_platform_refuses_recording() {
    assert_eq!(platform::list_sources().unwrap_err(), "Recording not supported on this platform");
    assert!(platform::request_permissions(vec![]).is_err());
    assert!(platform::stop_recording("s".to_string()).is_err());
    assert!(platform::start_recording("s".to_string(), "/o".to_string(), None, None, vec![], "source".to_string(), 30).is_err());
}

#[test]
fn macos_camera_listing() {
    let cams = macos::list_cameras(true, "FaceTime HD Camera (Built-in)").unwrap();
    assert_eq!(cams.len(), 1);
    assert_eq!(cams[0].name, "FaceTime HD Camera");
    assert!(macos::list_cameras(true, "nothing here").unwrap().is_empty());
    assert!(macos::list_cameras(false, "Camera").unwrap().is_empty());
    let sources = macos::list_sources(true, true, "Camera", vec![]).unwrap();
    assert_eq!(sources.screens.len(), 1);
    assert_eq!(sources.cameras.len(), 1);
    assert!(macos::list_windows().unwrap().is_empty());
}

#[test]
fn windows_sources() {
    let s = windows::list_sources(vec![]).unwrap();
    assert_eq!(s.screens[0].id, "desktop");
    assert!(s.windows.is_empty());
    assert!(windows::list_windows().unwrap().is_empty());
}

#[test]
fn dshow_camera_listing() {
    let listing = "[dshow @ 0x1] DirectShow video devices\r\n[dshow @ 0x1]  \"HD Webcam\" (video)\r\n[dshow @ 0x1] \"Mic\" (audio)\n[dshow @ 0x1] \"Capture \"Card\" (video)\n(video) no quotes\n";
    let cams = windows::list_cameras(listing);
    assert_eq!(cams.len(), 2);
    assert_eq!(cams[0].id, "HD Webcam");
    assert_eq!(cams[0].name, "HD Webcam");
    assert_eq!(cams[1].name, "Capture ");
    assert!(windows::list_cameras("").is_empty());
}

#[test]
fn avfoundation_microphone_listing() {
    let listing = "[AVFoundation indev @ 0x1] AVFoundation video devices:\n[AVFoundation indev @ 0x1] [0] FaceTime HD Camera\n[AVFoundation indev @ 0x1] AVFoundation audio devices:\n[AVFoundation indev @ 0x1] [0] MacBook Pro Microphone \n[AVFoundation indev @ 0x1] [1] USB Mic\n\n[AVFoundation indev @ 0x1] [2] after blank\n";
    let mics = macos::list_microphones(listing);
    assert_eq!(mics.len(), 2);
    assert_eq!(mics[0].id, "0");
    assert_eq!(mics[0].name, "MacBook Pro Microphone");
    assert_eq!(mics[1].id, "1");
    assert_eq!(mics[1].name, "USB Mic");
    let none = macos::list_microphones("nothing");
    assert_eq!(none.len(), 1);
    assert_eq!(none[0].name, "Default Microphone");
    let stop = macos::list_microphones("AVFoundation audio devices:\nError opening input\n[x] [3] late\n");
    assert_eq!(stop[0].id, "0");
    assert_eq!(stop.len(), 1);
}
