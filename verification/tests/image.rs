use dodeca::image::{
    add_width_suffix, change_extension, get_dimensions, get_image_metadata, image_srcset, plan_widths,
    image_output_files, process_image, variant_file_path, variant_url, DecodedImage, ImageVariant,
    InputFormat, OutputFormat, ProcessedImageSet, VariantOutcome,
};
use dodeca::db::OutputFile;

#[test]
fn test_format_detection() {
    assert_eq!(InputFormat::from_extension("image.png"), Some(InputFormat::Png));
    assert_eq!(InputFormat::from_extension("image.PNG"), Some(InputFormat::Png));
    assert_eq!(InputFormat::from_extension("image.jpg"), Some(InputFormat::Jpg));
    assert_eq!(InputFormat::from_extension("image.jpeg"), Some(InputFormat::Jpg));
    assert_eq!(InputFormat::from_extension("image.gif"), Some(InputFormat::Gif));
    assert_eq!(InputFormat::from_extension("image.webp"), Some(InputFormat::WebP));
    assert_eq!(InputFormat::from_extension("image.jxl"), Some(InputFormat::Jxl));
    assert_eq!(InputFormat::from_extension("image.svg"), None);
    assert_eq!(InputFormat::from_extension("image.txt"), None);
}

#[test]
fn test_change_extension() {
    assert_eq!(change_extension("images/photo.png", "webp"), "images/photo.webp");
    assert_eq!(change_extension("images/photo.jpg", "jxl"), "images/photo.jxl");
    assert_eq!(change_extension("no_ext", "webp"), "no_ext.webp");
}

#[test]
fn test_add_width_suffix() {
    assert_eq!(add_width_suffix("images/photo.png", 640), "images/photo-640w.png");
    assert_eq!(add_width_suffix("photo.jpg", 1280), "photo-1280w.jpg");
    assert_eq!(add_width_suffix("no_ext", 320), "no_ext-320w");
}

#[test]
fn test_output_format() {
    assert_eq!(OutputFormat::Jxl.extension(), "jxl");
    assert_eq!(OutputFormat::WebP.extension(), "webp");
}

#[test]
fn processable_paths() {
    assert!(InputFormat::is_processable("a/B.JPEG"));
    assert!(!InputFormat::is_processable("a/b.svg"));
}

#[test]
fn widths_are_the_narrower_breakpoints_then_the_original() {
    assert_eq!(plan_widths(1000), vec![320, 640, 960, 1000]);
    assert_eq!(plan_widths(320), vec![320]);
    assert_eq!(plan_widths(100), vec![100]);
    assert_eq!(plan_widths(4000), vec![320, 640, 960, 1280, 1920, 4000]);
}

#[test]
fn metadata_needs_decoding_and_placeholder() {
    let img = DecodedImage {
        pixels: vec![0; 4],
        width: 700,
        height: 350,
        channels: 4,
    };
    let m = get_image_metadata(Some(&img), Some("data:x".to_string())).unwrap();
    assert_eq!((m.width, m.height), (700, 350));
    assert_eq!(m.variant_widths, vec![320, 640, 700]);
    assert_eq!(m.thumbhash_data_url, "data:x");
    assert!(get_image_metadata(Some(&img), None).is_none());
    assert!(get_image_metadata(None, Some("x".to_string())).is_none());
}

#[test]
fn variants_follow_the_encoder_outcomes() {
    let outcomes = vec![
        VariantOutcome {
            height: Some(160),
            jxl: Some(vec![1]),
            webp: None,
        },
        VariantOutcome {
            height: Some(250),
            jxl: Some(vec![2]),
            webp: Some(vec![3]),
        },
    ];
    let set = process_image(500, 250, Some("t".to_string()), outcomes.clone()).unwrap();
    let jxl: Vec<(u32, u32)> = set.jxl_variants.iter().map(|v| (v.width, v.height)).collect();
    let webp: Vec<(u32, u32)> = set.webp_variants.iter().map(|v| (v.width, v.height)).collect();
    assert_eq!(jxl, vec![(320, 160), (500, 250)]);
    assert_eq!(webp, vec![(500, 250)]);
    assert_eq!(set.webp_variants[0].data, vec![3]);

    let mut failed = outcomes.clone();
    failed[0].height = None;
    assert!(process_image(500, 250, Some("t".to_string()), failed).is_none());

    let mut no_webp = outcomes.clone();
    no_webp[1].webp = None;
    assert!(process_image(500, 250, Some("t".to_string()), no_webp).is_none());

    assert!(process_image(500, 250, None, outcomes).is_none());
}

#[test]
fn dimensions_of_decoded_images() {
    let img = DecodedImage {
        pixels: vec![],
        width: 3,
        height: 2,
        channels: 3,
    };
    assert_eq!(get_dimensions(Some(&img)), Some((3, 2)));
    assert_eq!(get_dimensions(None), None);
}

#[test]
fn variant_urls_carry_hash_before_extension() {
    assert_eq!(
        variant_url("photos/cat.png", OutputFormat::Jxl, 640, 1920, "abc123"),
        "/photos/cat-640w.abc123.jxl"
    );
    assert_eq!(
        variant_url("photos/cat.png", OutputFormat::WebP, 1920, 1920, "ff00"),
        "/photos/cat.ff00.webp"
    );
    // a path already named like the output format keeps a single extension
    assert_eq!(variant_url("a.jxl.png", OutputFormat::Jxl, 10, 10, "h"), "/a.h.jxl");
}

#[test]
fn srcset_lists_each_width() {
    let widths = vec![320, 640, 800];
    let hashes = vec!["a".to_string(), "b".to_string(), "c".to_string()];
    let set = image_srcset("img/p.jpg", OutputFormat::WebP, &widths, 800, &hashes);
    assert_eq!(
        set,
        vec![
            ("/img/p-320w.a.webp".to_string(), 320),
            ("/img/p-640w.b.webp".to_string(), 640),
            ("/img/p.c.webp".to_string(), 800),
        ]
    );
}

#[test]
fn processed_image_output_files() {
    let set = ProcessedImageSet {
        original_width: 800,
        original_height: 600,
        thumbhash_data_url: String::new(),
        jxl_variants: vec![
            ImageVariant { data: vec![1, 2], width: 320, height: 240 },
            ImageVariant { data: vec![3], width: 800, height: 600 },
        ],
        webp_variants: vec![ImageVariant { data: vec![9], width: 800, height: 600 }],
    };
    let files = image_output_files(
        "img/p.png",
        &set,
        &vec!["h1".to_string(), "h2".to_string()],
        &vec!["h3".to_string()],
    );
    let got: Vec<(String, Vec<u8>)> = files
        .iter()
        .map(|f| match f {
            OutputFile::Static { path, content } => (path.0.clone(), content.clone()),
            other => panic!("unexpected {:?}", other),
        })
        .collect();
    assert_eq!(
        got,
        vec![
            ("img/p-320w.h1.jxl".to_string(), vec![1, 2]),
            ("img/p.h2.jxl".to_string(), vec![3]),
            ("img/p.h3.webp".to_string(), vec![9]),
        ]
    );
    assert_eq!(variant_file_path("img/p.png", OutputFormat::WebP, 640, 800, "ab"), "img/p-640w.ab.webp");
}

#[test]
fn full_width_variant_needs_no_resize() {
    let outcomes = vec![
        VariantOutcome { height: Some(160), jxl: Some(vec![1]), webp: Some(vec![4]) },
        VariantOutcome { height: None, jxl: Some(vec![2]), webp: Some(vec![3]) },
    ];
    let set = process_image(500, 250, Some("t".to_string()), outcomes).unwrap();
    let jxl: Vec<(u32, u32)> = set.jxl_variants.iter().map(|v| (v.width, v.height)).collect();
    assert_eq!(jxl, vec![(320, 160), (500, 250)]);
}

#[test]
fn extension_is_taken_from_the_file_name() {
    assert_eq!(change_extension("v1.2/photo", "webp"), "v1.2/photo.webp");
    assert_eq!(change_extension("v1.2/photo.png", "webp"), "v1.2/photo.webp");
    assert_eq!(add_width_suffix("v1.2/photo", 320), "v1.2/photo-320w");
    assert_eq!(add_width_suffix("v1.2/photo.png", 320), "v1.2/photo-320w.png");
}
