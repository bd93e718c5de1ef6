use image_tool::encode::{
    encode_rgb_jpeg, encode_rgba_for_path, output_format, report_encoding, write_failure_message,
    OutputFormat,
};
use image_tool::decode::{load_input, read_failure_message};
use image_tool::font::FontSearch;
use image_tool::jobs::{
    check_watermark_text, display_name_of, plan_compress_jobs, plan_watermark_jobs,
    CompressOptions, CompressTarget,
};
use image_tool::layout::watermark_positions;
use image_tool::paths::{output_file_name, output_path};

fn red_rgba(w: u32, h: u32) -> Vec<u8> {
    let mut v = Vec::new();
    for _ in 0..(w * h) {
        v.extend_from_slice(&[255, 0, 0, 255]);
    }
    v
}

fn red_rgb(w: u32, h: u32) -> Vec<u8> {
    let mut v = Vec::new();
    for _ in 0..(w * h) {
        v.extend_from_slice(&[255, 0, 0]);
    }
    v
}

#[test]
fn output_names() {
    assert_eq!(
        output_file_name("/tmp/a/source.png", "watermark", "png"),
        "source_watermark.png"
    );
    assert_eq!(output_file_name("", "compressed", "jpg"), "image_compressed.jpg");
    assert_eq!(
        output_path("/tmp/a/source.png", "/out", "watermark", "png"),
        "/out/source_watermark.png"
    );
    assert_eq!(
        output_path("/tmp/a/source.png", "  ", "compressed", "jpg"),
        "/tmp/a/source_compressed.jpg"
    );
    assert_eq!(output_path("photo", "", "compressed", "jpg"), "photo_compressed.jpg");
    assert_eq!(output_path("", "", "watermark", "png"), "./image_watermark.png");
}

#[test]
fn formats_follow_the_extension() {
    assert_eq!(output_format("a/b.JPG"), OutputFormat::Jpeg);
    assert_eq!(output_format("a/b.jpeg"), OutputFormat::Jpeg);
    assert_eq!(output_format("a/b.WebP"), OutputFormat::WebP);
    assert_eq!(output_format("a/b.bmp"), OutputFormat::Bmp);
    assert_eq!(output_format("a/b.gif"), OutputFormat::Png);
    assert_eq!(output_format("a/b"), OutputFormat::Png);
}

#[test]
fn png_webp_bmp_round_trip() {
    let pixels = red_rgba(200, 150);
    for path in ["o/x.png", "o/x.webp", "o/x.bmp", "o/x"] {
        let bytes = encode_rgba_for_path(&pixels, 200, 150, path, 95).unwrap();
        let img = image::load_from_memory(&bytes).unwrap().to_rgba8();
        assert_eq!(img.dimensions(), (200, 150));
        assert_eq!(img.get_pixel(10, 10).0, [255, 0, 0, 255]);
    }
}

#[test]
fn rgba_cannot_be_written_as_jpeg() {
    let pixels = red_rgba(4, 4);
    let err = encode_rgba_for_path(&pixels, 4, 4, "o/x.jpg", 90).unwrap_err();
    assert!(err.starts_with("JPEG 编码失败："));
}

#[test]
fn rgb_jpeg_encodes() {
    let pixels = red_rgb(200, 150);
    let bytes = encode_rgb_jpeg(&pixels, 200, 150, 80).unwrap();
    let img = image::load_from_memory(&bytes).unwrap();
    assert_eq!(img.width(), 200);
    assert_eq!(img.height(), 150);
}

#[test]
fn empty_jpeg_is_refused() {
    let err = encode_rgb_jpeg(&[], 0, 0, 80).unwrap_err();
    assert!(err.starts_with("JPEG 编码失败："));
}

#[test]
fn blank_watermark_text_is_refused() {
    assert_eq!(check_watermark_text(" \t"), Err("请先输入水印文字".to_string()));
    assert_eq!(check_watermark_text("测试水印"), Ok(()));
}

#[test]
fn names_of_inputs() {
    assert_eq!(display_name_of("/tmp/a/source.png"), "source.png");
    assert_eq!(display_name_of("/"), "/");
}

#[test]
fn watermark_jobs_keep_order_and_count_progress() {
    let files = vec!["/d/a.PNG".to_string(), "/e/b.jpg".to_string(), "c".to_string()];
    let jobs = plan_watermark_jobs(&files, "/out");
    assert_eq!(jobs.len(), 3);
    assert_eq!(jobs[0].output, "/out/a_watermark.png");
    assert_eq!(jobs[1].output, "/out/b_watermark.jpg");
    assert_eq!(jobs[2].output, "/out/c_watermark.png");
    for (k, job) in jobs.iter().enumerate() {
        assert_eq!(job.input, files[k]);
        assert_eq!(job.progress.done, k + 1);
        assert_eq!(job.progress.total, 3);
        assert_eq!(job.progress.current, job.name);
    }
    assert_eq!(jobs[1].name, "b.jpg");
}

#[test]
fn compress_jobs_to_jpeg() {
    let opts = CompressOptions {
        files: vec!["/d/source.png".to_string()],
        output_dir: "/d".to_string(),
        quality: 80,
        format: "JPEG".to_string(),
    };
    let jobs = plan_compress_jobs(&opts);
    assert_eq!(jobs.len(), 1);
    assert_eq!(jobs[0].output, "/d/source_compressed.jpg");
    assert_eq!(jobs[0].target, CompressTarget::JpegOnWhite { quality: 80 });
}

#[test]
fn compress_quality_is_clamped() {
    let mut opts = CompressOptions {
        files: vec!["a.png".to_string()],
        output_dir: String::new(),
        quality: 0,
        format: "jpeg".to_string(),
    };
    assert_eq!(plan_compress_jobs(&opts)[0].target, CompressTarget::JpegOnWhite { quality: 1 });
    opts.quality = 200;
    assert_eq!(plan_compress_jobs(&opts)[0].target, CompressTarget::JpegOnWhite { quality: 100 });
}

#[test]
fn compress_jobs_keep_the_source_format() {
    let opts = CompressOptions {
        files: vec![
            "/d/a.JPG".to_string(),
            "/d/b.webp".to_string(),
            "/d/c.bmp".to_string(),
            "/d/d.gif".to_string(),
        ],
        output_dir: "/o".to_string(),
        quality: 70,
        format: "keep".to_string(),
    };
    let jobs = plan_compress_jobs(&opts);
    assert_eq!(jobs[0].output, "/o/a_compressed.jpg");
    assert_eq!(jobs[0].target, CompressTarget::Rgba { quality: 70 });
    assert_eq!(jobs[1].output, "/o/b_compressed.webp");
    assert_eq!(jobs[1].target, CompressTarget::Rgba { quality: 70 });
    assert_eq!(jobs[2].output, "/o/c_compressed.bmp");
    assert_eq!(jobs[2].target, CompressTarget::Rgba { quality: 95 });
    assert_eq!(jobs[3].output, "/o/d_compressed.png");
    assert_eq!(jobs[3].target, CompressTarget::Rgba { quality: 0 });
}

/// Watermarking in memory: a 200x150 red
/// image watermarked at the south-east corner keeps its size.
#[test]
fn watermark_in_memory_keeps_the_size() {
    let files = vec!["/tmp/t/source.png".to_string()];
    let jobs = plan_watermark_jobs(&files, "/tmp/t");
    assert_eq!(jobs.len(), 1);
    assert_eq!(jobs[0].progress.done, 1);
    let mut canvas = image::RgbaImage::from_pixel(200, 150, image::Rgba([255, 0, 0, 255]));
    let ps = watermark_positions(200, 150, 120, 30, 10, 0, "se", false);
    assert_eq!(ps, vec![(70, 110)]);
    for (x, y) in ps {
        canvas.put_pixel(x as u32, y as u32, image::Rgba([255, 255, 255, 204]));
    }
    let bytes = encode_rgba_for_path(canvas.as_raw(), 200, 150, &jobs[0].output, 95).unwrap();
    let saved = image::load_from_memory(&bytes).unwrap().to_rgba8();
    assert_eq!(saved.dimensions(), (200, 150));
}

#[test]
fn tiled_positions_stay_on_the_canvas() {
    let ps = watermark_positions(200, 150, 40, 20, 0, 30, "c", true);
    assert!(!ps.is_empty());
    for (x, y) in ps {
        assert!(x + 40 <= 200 && y + 20 <= 150);
    }
}

#[test]
fn jpeg_batch_gives_a_jpg_of_the_same_width() {
    let opts = CompressOptions {
        files: vec!["/tmp/t/source.png".to_string()],
        output_dir: "/tmp/t".to_string(),
        quality: 80,
        format: "jpeg".to_string(),
    };
    let jobs = plan_compress_jobs(&opts);
    assert_eq!(jobs.len(), 1);
    assert_eq!(
        std::path::Path::new(&jobs[0].output).extension().unwrap(),
        "jpg"
    );
    let q = match jobs[0].target {
        CompressTarget::JpegOnWhite { quality } => quality,
        CompressTarget::Rgba { .. } => panic!("expected a JPEG target"),
    };
    let bytes = encode_rgb_jpeg(&red_rgb(200, 150), 200, 150, q).unwrap();
    let saved = image::load_from_memory(&bytes).unwrap();
    assert_eq!(saved.width(), 200);
}

#[test]
fn encoder_errors_are_reported_with_the_format() {
    assert_eq!(
        report_encoding(OutputFormat::Png, Err("disk".to_string())),
        Err("PNG 编码失败：disk".to_string())
    );
    assert_eq!(report_encoding(OutputFormat::Bmp, Ok(vec![1, 2])), Ok(vec![1, 2]));
}

#[test]
fn one_pixel_bmp_is_written_as_bmp() {
    let pixels = vec![0u8; 4];
    let bytes = encode_rgba_for_path(&pixels, 1, 1, "out.BMP", 95).unwrap();
    assert_eq!(&bytes[..2], b"BM");
}

#[test]
fn extensionless_output_is_png() {
    let pixels = vec![0u8; 4];
    let bytes = encode_rgba_for_path(&pixels, 1, 1, "out", 0).unwrap();
    assert_eq!(&bytes[..8], &[0x89, 0x50, 0x4E, 0x47, 0x0D, 0x0A, 0x1A, 0x0A]);
}

#[test]
fn quality_does_not_change_non_jpeg_files() {
    let pixels = red_rgba(7, 5);
    for path in ["q.png", "q.webp", "q.bmp"] {
        let a = encode_rgba_for_path(&pixels, 7, 5, path, 1).unwrap();
        let b = encode_rgba_for_path(&pixels, 7, 5, path, 100).unwrap();
        assert_eq!(a, b);
    }
}

#[test]
fn extension_case_does_not_matter() {
    let pixels = red_rgba(3, 2);
    assert_eq!(
        encode_rgba_for_path(&pixels, 3, 2, "b.WebP", 50),
        encode_rgba_for_path(&pixels, 3, 2, "b.webp", 50)
    );
    assert_eq!(
        encode_rgba_for_path(&pixels, 3, 2, "a.JPG", 50).is_err(),
        encode_rgba_for_path(&pixels, 3, 2, "a.jpg", 50).is_err()
    );
}

#[test]
fn sizes_each_format_refuses() {
    assert!(encode_rgba_for_path(&[], 0, 0, "z.png", 0).is_err());
    assert!(encode_rgba_for_path(&[], 0, 5, "z.webp", 0).is_err());
    assert!(encode_rgba_for_path(&[], 0, 0, "z.bmp", 0).is_ok());
    let wide = vec![0u8; 16385 * 4];
    let err = encode_rgba_for_path(&wide, 16385, 1, "z.webp", 0).unwrap_err();
    assert!(err.starts_with("WebP 编码失败："));
    assert!(encode_rgba_for_path(&wide, 16385, 1, "z.png", 0).is_ok());
}

#[test]
fn write_failures_name_the_format() {
    assert_eq!(
        write_failure_message(OutputFormat::Bmp, "disk full"),
        "BMP 编码失败：disk full"
    );
}

#[test]
fn font_search_turns_down_unreadable_and_invalid_files() {
    let mut search = FontSearch::new();
    assert!(search.offer(None).is_none());
    assert!(search.offer(Some(vec![1, 2, 3, 4])).is_none());
    assert_eq!(search.give_up(), "未找到可用的系统字体，无法绘制文字水印");
}

#[test]
fn encoder_error_text_follows_the_prefix() {
    let err = encode_rgba_for_path(&[], 0, 0, "z.png", 0).unwrap_err();
    assert!(err.starts_with("PNG 编码失败："));
    assert!(err.len() > "PNG 编码失败：".len());
    let pixels = red_rgba(2, 2);
    let a = encode_rgba_for_path(&pixels, 2, 2, "z.jpg", 10).unwrap_err();
    let b = encode_rgba_for_path(&pixels, 2, 2, "z.JPEG", 10).unwrap_err();
    assert_eq!(a, b);
}

#[test]
fn inputs_decode_in_the_format_of_their_extension() {
    let png = encode_rgba_for_path(&red_rgba(5, 3), 5, 3, "a.png", 0).unwrap();
    let img = load_input("/in/a.png", &png).unwrap();
    assert_eq!((img.width, img.height), (5, 3));
    assert_eq!(img.pixels, red_rgba(5, 3));
    let upper = load_input("/in/a.PNG", &png).unwrap();
    assert_eq!(upper.pixels.len(), 60);
}

#[test]
fn inputs_that_cannot_be_decoded_are_reported() {
    let png = encode_rgba_for_path(&red_rgba(2, 2), 2, 2, "a.png", 0).unwrap();
    let no_ext = load_input("/in/photo", &png).err().unwrap();
    assert!(no_ext.starts_with("无法读取图片 photo："));
    let unknown = load_input("/in/photo.xyz", &png).err().unwrap();
    assert!(unknown.starts_with("无法读取图片 photo.xyz："));
    assert!(unknown.contains("xyz"));
    let wrong = load_input("/in/photo.bmp", &png).err().unwrap();
    assert!(wrong.starts_with("无法读取图片 photo.bmp："));
}

#[test]
fn read_failures_name_the_file() {
    assert_eq!(
        read_failure_message("/a/b.png", "No such file"),
        "无法读取图片 b.png：No such file"
    );
}
