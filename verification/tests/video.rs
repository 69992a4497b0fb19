//! Recording.

use wlr_capture::image::CapturedImage;
use wlr_capture::video::{
    copy_rgba_into, resolve_backend, Backend, Encoders, Mode, Options, Pixel, Step, VideoEncoder,
    VideoError,
};

const ALL: Encoders = Encoders { nvenc: true, vaapi: true, software: true };
const NONE: Encoders = Encoders { nvenc: false, vaapi: false, software: false };

#[test]
fn hardware_is_preferred() {
    assert_eq!(resolve_backend(Backend::Auto, ALL), Ok(Backend::Nvenc));
    let soft = Encoders { software: true, ..NONE };
    assert_eq!(resolve_backend(Backend::Auto, soft), Ok(Backend::Software));
    assert_eq!(resolve_backend(Backend::Auto, NONE), Err(VideoError::NoEncoder));
    assert_eq!(
        resolve_backend(Backend::Vaapi, soft).unwrap_err().to_string(),
        "encoder 'h264_vaapi' is not available in this FFmpeg build"
    );
    assert_eq!(
        VideoError::NoEncoder.to_string(),
        "no H.264 encoder available (need NVENC, VAAPI or libx264)"
    );
    assert_eq!(Backend::Nvenc.codec_name(), "h264_nvenc");
    assert_eq!(Backend::Software.codec_name(), "libx264");
}

fn opened(opts: Options, w: u32, h: u32) -> VideoEncoder {
    let mut e = VideoEncoder::new(opts);
    match e.step(ALL, w, h) {
        Ok(Step::Open(plan)) => e.opened(plan, w, h),
        _ => panic!("not opened"),
    }
    e
}

#[test]
fn the_first_frame_opens_the_pipeline_at_an_even_size() {
    let e = VideoEncoder::new(Options { backend: Backend::Vaapi, ..Options::default() });
    assert_eq!(e.resolved_backend(ALL), Ok(Backend::Vaapi));
    match e.step(ALL, 321, 240).unwrap() {
        Step::Open(p) => {
            assert_eq!((p.width, p.height), (320, 240));
            assert_eq!((p.enc_format, p.target_format), (Pixel::Vaapi, Pixel::Nv12));
            assert_eq!((p.ticks, p.frame_rate), (1000, 30));
        }
        _ => panic!("not opened"),
    }
    assert_eq!(
        e.step(ALL, 1, 240).unwrap_err().to_string(),
        "source too small to encode (1x240)"
    );
}

#[test]
fn the_scaler_follows_the_source() {
    let mut e = opened(Options::default(), 320, 240);
    assert_eq!(e.step(NONE, 320, 240), Ok(Step::Encode));
    assert_eq!(e.step(NONE, 0, 240), Ok(Step::Skip));
    assert_eq!(e.step(NONE, 640, 240), Ok(Step::Rescale(640, 240)));
    e.rescaled(640, 240);
    assert_eq!(e.step(NONE, 640, 240), Ok(Step::Encode));
    assert!(e.finish());
    assert!(!e.finish());
}

#[test]
fn timestamps_increase_or_count() {
    let mut e = opened(Options::default(), 2, 2);
    let stamps: Vec<i64> = [0, 33, 33, 20, 100].iter().map(|t| e.stamp(*t).unwrap()).collect();
    assert_eq!(stamps, [0, 33, 34, 35, 100]);
    let mut e = opened(Options { mode: Mode::Timelapse, fps: 25, ..Options::default() }, 2, 2);
    assert_eq!(e.pipeline.as_ref().unwrap().plan.ticks, 25);
    let stamps: Vec<i64> = [500, 900, 100].iter().map(|t| e.stamp(*t).unwrap()).collect();
    assert_eq!(stamps, [0, 1, 2]);
    assert_eq!(VideoEncoder::new(Options::default()).stamp(1), None);
}

#[test]
fn rows_land_where_the_stride_says() {
    let img = CapturedImage { width: 1, height: 2, rgba: vec![1, 2, 3, 4, 5, 6, 7, 8] };
    let mut dst = vec![9; 12];
    copy_rgba_into(&mut dst, 6, &img);
    assert_eq!(dst, vec![1, 2, 3, 4, 9, 9, 5, 6, 7, 8, 9, 9]);
}
