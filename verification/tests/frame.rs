//! Fixed frames, crops, surface pools and capture sources.

use turbo_capture::capture::{CropBox, SourceBox};
use turbo_capture::config::CropRect;
use turbo_capture::frame::{
    FixedFrame, FrameDraw, FrameError, Nv12Pool, PoolState, SourceRegion, SURFACE_COUNT,
};
use turbo_capture::geometry::Size;
use turbo_capture::source::{
    parse_hwnd, resolve_source, CaptureSource, SourceArgs, SourceError, DEFAULT_HEIGHT,
    DEFAULT_WIDTH,
};
use turbo_capture::youtube_music::encoder_output_size;

/// Arguments that name nothing.
fn no_source() -> SourceArgs {
    SourceArgs {
        config: None,
        hwnd: None,
        crop_min_x: None,
        crop_min_y: None,
        crop_max_x: None,
        crop_max_y: None,
        width: DEFAULT_WIDTH,
        height: DEFAULT_HEIGHT,
        no_preview: false,
        shared_output: false,
    }
}

/// Arguments of a managed crop.
fn managed_crop() -> SourceArgs {
    SourceArgs {
        hwnd: Some(parse_hwnd("0x1234").unwrap()),
        crop_min_x: Some(2),
        crop_min_y: Some(682),
        crop_max_x: Some(1262),
        crop_max_y: Some(750),
        width: 1264,
        height: 80,
        no_preview: true,
        shared_output: true,
        ..no_source()
    }
}

#[test]
fn source_crop_should_clamp_and_reject_empty_resize_overlap() {
    let crop = CropRect { min_x: 100, min_y: 50, max_x: 300, max_y: 200 };
    assert_eq!(
        SourceRegion::clamped(Size::new(250, 125), Some(crop)),
        Some(SourceRegion { min_x: 100, min_y: 50, max_x: 250, max_y: 125 })
    );
    assert_eq!(SourceRegion::clamped(Size::new(50, 50), Some(crop)), None);
}

#[test]
fn pool_should_not_reissue_a_retained_surface() {
    let mut pool = PoolState::new(2);
    assert_eq!(pool.acquire(), Some(0));
    assert_eq!(pool.acquire(), Some(1));
    assert_eq!(pool.acquire(), None);
    pool.release(0).unwrap();
    assert_eq!(pool.acquire(), Some(0));
}

#[test]
fn pool_should_reject_double_and_unknown_releases() {
    let mut pool = PoolState::new(1);
    assert!(pool.release(0).unwrap_err().message().contains("more than once"));
    assert!(pool.release(2).unwrap_err().message().contains("out of range"));
}

#[test]
fn surfaces_should_be_converted_once_per_revision() {
    let mut pool = Nv12Pool::new(Size::new(1280, 720)).unwrap();
    assert_eq!(pool.surface_count(), SURFACE_COUNT);
    let slot = pool.acquire().unwrap();
    assert_eq!(pool.prepare(slot, 1), Ok(true));
    // The conversion failed: it is still due.
    assert_eq!(pool.prepare(slot, 1), Ok(true));
    assert_eq!(pool.converted(slot, 1), Ok(()));
    assert_eq!(pool.prepare(slot, 1), Ok(false));
    assert_eq!(pool.prepare(slot, 2), Ok(true));
    assert_eq!(pool.converted(SURFACE_COUNT, 2), Err(FrameError::SlotOutOfRange));
    assert_eq!(pool.prepare(SURFACE_COUNT, 2), Err(FrameError::SlotOutOfRange));
    assert_eq!(pool.release(SURFACE_COUNT), Err(FrameError::ReleasedOutOfRange));
    assert_eq!(pool.release(slot), Ok(()));
    assert_eq!(pool.release(slot), Err(FrameError::ReleasedTwice { slot }));
}

#[test]
fn surfaces_need_even_dimensions() {
    assert_eq!(Nv12Pool::new(Size::new(1281, 720)).err(), Some(FrameError::OddDimensions));
    assert_eq!(Nv12Pool::new(Size::new(1280, 721)).err(), Some(FrameError::OddDimensions));
}

#[test]
fn frames_should_be_cleared_once() {
    assert_eq!(FixedFrame::new(Size::new(0, 720)).err(), Some(FrameError::EmptyFrame));
    let mut frame = FixedFrame::new(Size::new(1280, 720)).unwrap();
    assert_eq!(
        frame.update(Size::new(100, 50), None),
        Ok(FrameDraw::Source(SourceRegion { min_x: 0, min_y: 0, max_x: 100, max_y: 50 }))
    );
    let before = frame.revision;
    assert_eq!(frame.clear(), Ok(FrameDraw::Clear));
    assert_eq!(frame.revision, before + 1);
    assert_eq!(frame.clear(), Ok(FrameDraw::Nothing));
    assert_eq!(frame.revision, before + 1);
}

#[test]
fn frames_should_not_reuse_revisions() {
    let mut frame = FixedFrame::new(Size::new(1280, 720)).unwrap();
    frame.revision = u64::MAX;
    assert_eq!(frame.update(Size::new(4, 4), None), Err(FrameError::RevisionExhausted));
}

#[test]
fn crop_output_size_rounds_up_for_nv12_and_h264() {
    let crop = CropBox { min_x: 2, min_y: 682, max_x: 1262, max_y: 750 };
    assert_eq!(crop.output_size(), Size::new(1264, 80));
}

#[test]
fn crop_clamps_to_resized_frame_and_rejects_empty_overlap() {
    let crop = CropBox { min_x: 100, min_y: 50, max_x: 300, max_y: 200 };
    let clamped = crop.clamped_d3d11_box(Size::new(250, 125)).unwrap();
    assert_eq!((clamped.left, clamped.top), (100, 50));
    assert_eq!((clamped.right, clamped.bottom), (250, 125));
    assert!(crop.clamped_d3d11_box(Size::new(50, 50)).is_none());
}

#[test]
fn clamped_boxes_never_reach_outside_the_frame() {
    let crop = CropBox { min_x: 100, min_y: 50, max_x: 300, max_y: 200 };
    assert_eq!(
        crop.to_d3d11_box(Size::new(250, 125)),
        SourceBox { left: 100, top: 50, front: 0, right: 250, bottom: 125, back: 1 }
    );
    assert_eq!(
        crop.to_d3d11_box(Size::new(50, 40)),
        SourceBox { left: 50, top: 40, front: 0, right: 50, bottom: 40, back: 1 }
    );
}

#[test]
fn crop_copies_one_layer() {
    let crop = CropBox { min_x: 1, min_y: 2, max_x: 3, max_y: 4 };
    assert_eq!(
        crop.clamped_d3d11_box(Size::new(10, 10)),
        Some(SourceBox { left: 1, top: 2, front: 0, right: 3, bottom: 4, back: 1 })
    );
}

#[test]
fn crop_output_is_padded_for_the_shared_encoder_contract() {
    let crop = CropBox { min_x: 2, min_y: 682, max_x: 1262, max_y: 750 };
    assert_eq!(encoder_output_size(crop), Size::new(1264, 80));
}

#[test]
fn profile_source_is_the_primary_public_interface() {
    let args = SourceArgs { config: Some("profiles.toml".to_owned()), ..no_source() };
    let CaptureSource::Profiles(path) = resolve_source(&args).unwrap() else {
        panic!("expected profile source");
    };
    assert_eq!(path, "profiles.toml");
    assert_eq!((args.width, args.height), (DEFAULT_WIDTH, DEFAULT_HEIGHT));
}

#[test]
fn managed_crop_requires_exact_padded_output_dimensions() {
    let args = managed_crop();
    let CaptureSource::Crop { hwnd, crop } = resolve_source(&args).unwrap() else {
        panic!("expected crop source");
    };
    assert_eq!(hwnd, 0x1234);
    assert_eq!(crop.output_size(), Size::new(1264, 80));

    let args = SourceArgs { width: 1280, ..managed_crop() };
    assert_eq!(
        resolve_source(&args).unwrap_err(),
        SourceError::SizeMismatch { crop: Size::new(1264, 80), output: Size::new(1280, 80) }
    );
}

#[test]
fn sources_report_each_refusal() {
    assert_eq!(resolve_source(&no_source()).unwrap_err(), SourceError::Ambiguous);
    let hidden = SourceArgs { shared_output: false, ..managed_crop() };
    assert_eq!(resolve_source(&hidden).unwrap_err(), SourceError::NoSharedOutput);
    let shown = SourceArgs { no_preview: false, ..managed_crop() };
    assert_eq!(resolve_source(&shown).unwrap_err(), SourceError::Preview);
    let flat = SourceArgs { crop_max_x: Some(2), ..managed_crop() };
    assert_eq!(resolve_source(&flat).unwrap_err(), SourceError::EmptyWidth);
    let low = SourceArgs { crop_max_y: Some(1), ..managed_crop() };
    assert_eq!(resolve_source(&low).unwrap_err(), SourceError::EmptyHeight);
}

#[test]
fn window_handles_are_hexadecimal_or_decimal() {
    assert_eq!(parse_hwnd("0x1234"), Ok(0x1234));
    assert_eq!(parse_hwnd("4660"), Ok(0x1234));
    assert!(parse_hwnd("window").is_err());
}
