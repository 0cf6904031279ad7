use p2p_signaling::capture::{CaptureError, CaptureLoop, CaptureStep};
use p2p_signaling::frames::{
    ApplyError, EncodeError, FrameDecoder, FrameEncoder, FrameFault, RawFrame,
};
use p2p_signaling::remote_desktop::{RemoteDesktopConfig, RemoteDesktopFrame};
use p2p_signaling::screen::{
    absolute_pointer, available_displays, bgra_rows_to_rgba, copy_acquired_frame,
    draw_pointer_marker, find_output, is_supported, macos_display, wide_name, Bounds,
    DisplayOutput, ScreenPicture, VirtualScreen,
};
use p2p_signaling::tiles::{copy_patch_into_canvas, extract_tile, tile_matches, Rect};
use serde_json::Value;

#[test]
fn keyframe_and_delta_round_trip() {
    let mut encoder = FrameEncoder::new("desktop-1".into());
    let mut decoder = FrameDecoder::new("desktop-1".into());
    let mut raw = RawFrame {
        width: 160,
        height: 90,
        rgba: vec![10; 160 * 90 * 4],
    };
    let first = encoder.encode(&raw).unwrap().unwrap();
    assert!(first.header.keyframe);
    assert_eq!(decoder.apply(first).unwrap().rgba, raw.rgba);

    raw.rgba[0] = 20;
    let second = encoder.encode(&raw).unwrap().unwrap();
    assert!(!second.header.keyframe);
    assert_eq!(second.header.patches.len(), 1);
    assert_eq!(decoder.apply(second).unwrap().rgba, raw.rgba);
    assert!(encoder.encode(&raw).unwrap().is_none());
}

fn header_json(frame: &RemoteDesktopFrame) -> Value {
    let mut header = serde_json::Map::new();
    header.insert("streamType".into(), Value::from(frame.header.stream_type.clone()));
    header.insert("sessionId".into(), Value::from(frame.header.session_id.clone()));
    header.insert("frameId".into(), Value::from(frame.header.frame_id));
    header.insert("width".into(), Value::from(frame.header.width));
    header.insert("height".into(), Value::from(frame.header.height));
    header.insert("keyframe".into(), Value::from(frame.header.keyframe));
    let patches: Vec<Value> = frame
        .header
        .patches
        .iter()
        .map(|patch| {
            let mut json = serde_json::Map::new();
            json.insert("x".into(), Value::from(patch.x));
            json.insert("y".into(), Value::from(patch.y));
            json.insert("width".into(), Value::from(patch.width));
            json.insert("height".into(), Value::from(patch.height));
            json.insert("encodedLen".into(), Value::from(patch.encoded_len));
            Value::Object(json)
        })
        .collect();
    header.insert("patches".into(), Value::Array(patches));
    Value::Object(header)
}

#[test]
fn maximum_keyframe_header_fits_stream_limit() {
    let mut encoder = FrameEncoder::new("desktop-1".into());
    let raw = RawFrame {
        width: 1280,
        height: 720,
        rgba: vec![0; 1280 * 720 * 4],
    };
    let frame = encoder.encode(&raw).unwrap().unwrap();
    assert_eq!(frame.header.patches.len(), 60);
    assert!(serde_json::to_vec(&header_json(&frame)).unwrap().len() <= 4 * 1024);
}

#[test]
fn converts_padded_bgra_rows() {
    let source = [
        1, 2, 3, 4, 5, 6, 7, 8, 0, 0, 9, 10, 11, 12, 13, 14, 15, 16, 0, 0,
    ];
    assert_eq!(
        bgra_rows_to_rgba(2, 2, 10, &source).unwrap(),
        [3, 2, 1, 4, 7, 6, 5, 8, 11, 10, 9, 12, 15, 14, 13, 16]
    );
}

#[test]
fn rows_that_are_too_short_are_refused() {
    assert_eq!(bgra_rows_to_rgba(2, 1, 7, &[0; 8]).unwrap_err(), "屏幕像素缓冲尺寸无效");
    assert_eq!(bgra_rows_to_rgba(2, 2, 8, &[0; 15]).unwrap_err(), "屏幕像素缓冲尺寸无效");
    assert_eq!(
        bgra_rows_to_rgba(usize::MAX, 1, usize::MAX, &[]).unwrap_err(),
        "屏幕行长度溢出"
    );
    assert!(bgra_rows_to_rgba(3, 0, 12, &[]).unwrap().is_empty());
}

fn picture(width: u32, height: u32, shade: u8) -> RawFrame {
    RawFrame {
        width,
        height,
        rgba: vec![shade; (width * height * 4) as usize],
    }
}

#[test]
fn a_picture_of_many_tiles_is_shown_whole() {
    let mut encoder = FrameEncoder::new("s".into());
    let mut decoder = FrameDecoder::new("s".into());
    let mut raw = picture(300, 200, 3);
    for (i, byte) in raw.rgba.iter_mut().enumerate() {
        *byte = (i % 253) as u8;
    }
    let first = encoder.encode(&raw).unwrap().unwrap();
    assert_eq!(first.header.patches.len(), 6);
    assert_eq!(decoder.apply(first).unwrap().rgba, raw.rgba);
    let last = raw.rgba.len() - 1;
    raw.rgba[0] = 254;
    raw.rgba[last] = 254;
    let second = encoder.encode(&raw).unwrap().unwrap();
    assert_eq!(second.header.patches.len(), 2);
    assert_eq!(decoder.apply(second).unwrap().rgba, raw.rgba);
    let smaller = picture(64, 64, 9);
    let third = encoder.encode(&smaller).unwrap().unwrap();
    assert!(third.header.keyframe);
    let shown = decoder.apply(third).unwrap();
    assert_eq!((shown.width, shown.height), (64, 64));
    assert_eq!(shown.rgba, smaller.rgba);
}

#[test]
fn the_squares_of_a_keyframe_come_in_order() {
    let mut encoder = FrameEncoder::new("desktop-1".into());
    let mut raw = picture(160, 90, 10);
    let first = encoder.encode(&raw).unwrap().unwrap();
    let squares: Vec<_> = first
        .header
        .patches
        .iter()
        .map(|patch| (patch.x, patch.y, patch.width, patch.height))
        .collect();
    assert_eq!(squares, vec![(0, 0, 128, 90), (128, 0, 32, 90)]);
    assert!(encoder.encode(&raw).unwrap().is_none());
    raw.rgba[4 * 130] = 11;
    let second = encoder.encode(&raw).unwrap().unwrap();
    assert_eq!(second.header.patches.len(), 1);
    assert_eq!(second.header.patches[0].x, 128);
    encoder.force_keyframe();
    let third = encoder.encode(&raw).unwrap().unwrap();
    assert!(third.header.keyframe);
    assert_eq!(third.header.patches.len(), 2);
}

#[test]
fn a_picture_of_noise_still_makes_a_frame() {
    let mut encoder = FrameEncoder::new("desktop-1".into());
    let mut decoder = FrameDecoder::new("desktop-1".into());
    let mut raw = picture(1280, 720, 0);
    let mut state: u64 = 88172645463325252;
    for byte in raw.rgba.iter_mut() {
        state ^= state << 13;
        state ^= state >> 7;
        state ^= state << 17;
        *byte = (state >> 24) as u8;
    }
    let frame = encoder.encode(&raw).unwrap().unwrap();
    assert_eq!(frame.header.patches.len(), 60);
    for patch in &frame.header.patches {
        assert!(patch.encoded_len <= 2 * 4 * patch.width * patch.height + 1024);
    }
    assert_eq!(decoder.apply(frame).unwrap().rgba, raw.rgba);
}

#[test]
fn frames_that_do_not_fit_are_refused() {
    let mut encoder = FrameEncoder::new("s".into());
    let mut decoder = FrameDecoder::new("s".into());
    let mut raw = picture(64, 64, 1);
    let first = encoder.encode(&raw).unwrap().unwrap();
    raw.rgba[0] = 9;
    let second = encoder.encode(&raw).unwrap().unwrap();
    assert!(matches!(
        decoder.apply(second.clone()),
        Err(ApplyError::Fault(FrameFault::SizeWithoutKeyframe))
    ));
    let mut foreign = FrameDecoder::new("t".into());
    assert!(matches!(
        foreign.apply(first.clone()),
        Err(ApplyError::Fault(FrameFault::OtherSession))
    ));
    decoder.apply(first.clone()).unwrap();
    assert!(matches!(
        decoder.apply(first.clone()),
        Err(ApplyError::Fault(FrameFault::NotIncreasing))
    ));
    let mut garbled = second.clone();
    for byte in garbled.payload.iter_mut() {
        *byte = 0;
    }
    assert!(matches!(decoder.apply(garbled), Err(ApplyError::Picture(_))));
    let mut short = second.clone();
    short.payload.pop();
    assert!(matches!(
        decoder.apply(short),
        Err(ApplyError::Fault(FrameFault::Invalid(_)))
    ));
    let mut narrow = second.clone();
    narrow.header.patches[0].width = 63;
    assert!(matches!(
        decoder.apply(narrow),
        Err(ApplyError::Fault(FrameFault::PatchSize))
    ));
    let wrong = RawFrame { width: 2, height: 2, rgba: vec![0; 15] };
    assert!(matches!(encoder.encode(&wrong), Err(EncodeError::PixelCount)));
    assert_eq!(EncodeError::PixelCount.message(), "屏幕帧像素长度不匹配");
    assert_eq!(FrameFault::NoKeyframe.message(), "尚未收到远程桌面关键帧");
    let wide = picture(1281, 4, 0);
    assert!(matches!(
        FrameEncoder::new("s".into()).encode(&wide),
        Err(EncodeError::Invalid(_))
    ));
    let mut broken = FrameDecoder::new("s".into());
    let mut bad_start = first.clone();
    for byte in bad_start.payload.iter_mut() {
        *byte = 0;
    }
    assert!(broken.apply(bad_start).is_err());
    let mut delta = second;
    delta.header.frame_id = 5;
    assert!(matches!(
        broken.apply(delta),
        Err(ApplyError::Fault(FrameFault::NoKeyframe))
    ));
}

#[test]
fn the_capture_is_given_up_after_three_failures() {
    let mut capture = CaptureLoop::new("s".into());
    assert!(matches!(capture.captured(true, Ok(None)), Ok(CaptureStep::Wait)));
    assert!(matches!(
        capture.captured(false, Ok(Some(picture(64, 64, 1)))),
        Ok(CaptureStep::Send(frame)) if frame.header.keyframe
    ));
    assert!(matches!(
        capture.captured(false, Ok(Some(picture(64, 64, 1)))),
        Ok(CaptureStep::Wait)
    ));
    capture.offered(false);
    assert!(matches!(
        capture.captured(false, Ok(Some(picture(64, 64, 1)))),
        Ok(CaptureStep::Send(frame)) if frame.header.keyframe
    ));
    assert_eq!(capture.frame_count(), 2);
    assert!(matches!(capture.captured(false, Err("a".into())), Ok(CaptureStep::Reopen)));
    assert!(matches!(
        capture.captured(false, Ok(Some(picture(64, 64, 1)))),
        Ok(CaptureStep::Send(frame)) if frame.header.keyframe
    ));
    assert!(matches!(capture.captured(false, Err("a".into())), Ok(CaptureStep::Reopen)));
    assert!(matches!(capture.captured(false, Err("b".into())), Ok(CaptureStep::Reopen)));
    assert!(!capture.has_given_up());
    assert!(matches!(
        capture.captured(false, Err("c".into())),
        Err(CaptureError::GivenUp(words)) if words == "连续三次恢复屏幕采集失败: c"
    ));
    assert!(capture.has_given_up());
}

#[test]
fn tiles_are_cut_out_and_pasted() {
    let mut canvas: Vec<u8> = (0..4 * 4 * 3).map(|i| i as u8).collect();
    let rect = Rect { x: 1, y: 1, width: 2, height: 2 };
    let tile = extract_tile(&canvas, 4, 3, rect);
    assert_eq!(
        tile,
        [20, 21, 22, 23, 24, 25, 26, 27, 36, 37, 38, 39, 40, 41, 42, 43]
    );
    let other = canvas.clone();
    copy_patch_into_canvas(&mut canvas, 4, 3, rect, &[0; 16]);
    assert!(!tile_matches(&canvas, &other, 4, 3, rect));
    assert!(tile_matches(&canvas, &other, 4, 3, Rect { x: 0, y: 0, width: 4, height: 1 }));
    copy_patch_into_canvas(&mut canvas, 4, 3, rect, &tile);
    assert_eq!(canvas, other);
}

#[test]
fn a_captured_screen_is_scaled_and_its_pointer_marked() {
    let config = RemoteDesktopConfig { width: 4, height: 4, max_fps: 15 };
    let same = ScreenPicture {
        width: 4,
        height: 4,
        row_bytes: 20,
        bytes: [[1_u8, 2, 3, 0].repeat(4), vec![0; 4]].concat().repeat(4),
        pointer: None,
    };
    let frame = copy_acquired_frame(&same, config).unwrap();
    assert_eq!(frame.rgba, [3, 2, 1, 255].repeat(16));

    let double = ScreenPicture {
        width: 8,
        height: 8,
        row_bytes: 32,
        bytes: [10_u8, 20, 30, 0].repeat(64),
        pointer: Some((7, 6)),
    };
    let frame = copy_acquired_frame(&double, config).unwrap();
    assert_eq!((frame.width, frame.height), (4, 4));
    let pixel = |x: usize, y: usize| frame.rgba[(y * 4 + x) * 4..(y * 4 + x) * 4 + 4].to_vec();
    assert_eq!(pixel(0, 0), [30, 20, 10, 255]);
    assert_eq!(pixel(3, 3), [255, 255, 255, 255]);
    assert_eq!(pixel(2, 3), [30, 20, 10, 255]);

    let outside = ScreenPicture { pointer: Some((-1, 0)), ..double };
    let frame = copy_acquired_frame(&outside, config).unwrap();
    assert_eq!(frame.rgba, [30, 20, 10, 255].repeat(16));

    let torn = ScreenPicture { bytes: vec![0; 10], ..outside };
    assert_eq!(copy_acquired_frame(&torn, config).unwrap_err(), "屏幕像素缓冲尺寸无效");
}

#[test]
fn the_pointer_is_a_cross_of_white() {
    let mut rgba = vec![0; 3 * 3 * 4];
    draw_pointer_marker(&mut rgba, 3, 3, 1, 1);
    let white: Vec<usize> = (0..9).filter(|i| rgba[i * 4] == 255).collect();
    assert_eq!(white, [4, 5, 7]);
    let mut rgba = vec![0; 3 * 3 * 4];
    draw_pointer_marker(&mut rgba, 3, 3, 9, 2);
    let white: Vec<usize> = (0..9).filter(|i| rgba[i * 4] == 255).collect();
    assert_eq!(white, [8]);
}

#[test]
fn displays_are_listed_and_found() {
    let name: Vec<u16> = "DISPLAY1".encode_utf16().chain([0, 65]).collect();
    assert_eq!(wide_name(&name), "DISPLAY1");
    assert_eq!(wide_name(&[0xd83d, 0xde00]), "😀");
    let outputs = vec![
        DisplayOutput {
            adapter: 0,
            output: 0,
            name: name.clone(),
            bounds: Bounds { left: 0, top: 0, right: 1920, bottom: 1080 },
        },
        DisplayOutput {
            adapter: 1,
            output: 2,
            name,
            bounds: Bounds { left: 10, top: 0, right: 0, bottom: 5 },
        },
    ];
    let displays = available_displays(&outputs);
    assert_eq!(displays[0].id, "0:0");
    assert_eq!((displays[0].width, displays[0].height), (1920, 1080));
    assert_eq!(displays[1].id, "1:2");
    assert_eq!((displays[1].width, displays[1].height), (0, 5));
    assert_eq!(find_output(&outputs, "1:2", "找不到显示器："), Ok(1));
    assert_eq!(
        find_output(&outputs, "3:0", "找不到显示器：").unwrap_err(),
        "找不到显示器：3:0"
    );
    let main = macos_display(7, 7, 1, 2560, 1440);
    assert_eq!((main.id.as_str(), main.name.as_str()), ("7", "主显示器"));
    let second = macos_display(9, 7, 1, u64::MAX, 1);
    assert_eq!((second.name.as_str(), second.width), ("显示器 2", u32::MAX));
    assert!(is_supported("windows"));
    assert!(!is_supported("macos"));
}

#[test]
fn the_pointer_spans_the_display() {
    let bounds = Bounds { left: -1920, top: 100, right: 0, bottom: 1180 };
    let desktop = VirtualScreen { left: -1920, top: 0, width: 3840, height: 1180 };
    assert_eq!(absolute_pointer(bounds, desktop, 0, 0), (0, 100 * 65535 / 1179));
    assert_eq!(
        absolute_pointer(bounds, desktop, 65535, 65535),
        (1919 * 65535 / 3839, 65535)
    );
    let above = VirtualScreen { left: 0, top: 200, width: 1, height: 0 };
    assert_eq!(absolute_pointer(bounds, above, 0, 0), (-1920 * 65535, -100 * 65535));
}
