use process_image::convert::{edges_from_gradient, narrow_from_rgba, widen_to_rgba};
use process_image::ops::{BoxBlur, EdgeDetect, Invert, ProcessImage};
use process_image::pixel::{validate, Image, ImageError, ImageType, PixelBuffer};
use process_image::service::{
    dispatch, operations, ImageParameters, ImageProcessingService, Operation, ThumbnailImage,
};

fn rgba_buffer(width: u32, height: u32, data: Vec<u8>) -> PixelBuffer {
    PixelBuffer { width, height, format: ImageType::Rgba, data }
}

fn two_pixels() -> Vec<u8> {
    vec![25, 89, 199, 255, 0, 255, 39, 255]
}

fn params(data: Vec<u8>) -> ImageParameters {
    ImageParameters {
        image: Image { width: 2, height: 1, image_type: 0, data },
        invert: None,
        edge_detect: None,
        box_blur: None,
    }
}

#[test]
fn test_invert() {
    let raw_image = vec![25, 89, 199, 255, 0, 255, 39, 255];
    let manual_invert_image = vec![230, 166, 56, 255, 255, 0, 216, 255];
    let mut image = rgba_buffer(2, 1, raw_image);
    let invert_obj = Invert {};
    invert_obj.invert(&mut image).unwrap();
    let inverted_image = image.data;

    for (inverted, manually_inverted) in inverted_image.iter().zip(manual_invert_image.iter()) {
        assert_eq!(
            manually_inverted, inverted,
            "source truth: {}, output of invert: {}",
            manually_inverted, inverted,
        );
    }
}

#[test]
fn basic_test_box_blur() {
    let raw_image = vec![25, 89, 199, 255, 0, 255, 39, 255];
    let mut image = rgba_buffer(2, 1, raw_image);
    let box_blur_obj = BoxBlur { kernel_width: 3 };
    box_blur_obj.box_blur(&mut image).unwrap();

    let manual_blurred_image = vec![17, 144, 146, 255, 8, 200, 92, 255];
    let blurred_image = image.data;

    for (blurred, manually_blurred) in blurred_image.iter().zip(manual_blurred_image.iter()) {
        assert_eq!(
            manually_blurred, blurred,
            "source truth: {}, output of box blur: {}",
            manually_blurred, blurred,
        );
    }
}

#[test]
fn format_codes_decode() {
    assert_eq!(ImageType::try_from(0), Ok(ImageType::Rgba));
    assert_eq!(ImageType::try_from(1), Ok(ImageType::Rgb));
    assert_eq!(ImageType::try_from(2), Ok(ImageType::Gray));
    assert_eq!(ImageType::try_from(3), Ok(ImageType::Grayalpha));
    assert_eq!(ImageType::try_from(4), Err(ImageError::InvalidFormat { code: 4 }));
    assert_eq!(ImageType::try_from(-1), Err(ImageError::InvalidFormat { code: -1 }));
    assert_eq!(ImageType::Grayalpha.channel_count(), 2);
}

#[test]
fn consistent_envelope_is_accepted() {
    let buffer = validate(Image { width: 3, height: 2, image_type: 1, data: vec![7; 18] }).unwrap();
    assert_eq!(buffer.width, 3);
    assert_eq!(buffer.height, 2);
    assert_eq!(buffer.format, ImageType::Rgb);
    assert_eq!(buffer.data.len(), 18);
}

#[test]
fn inconsistent_envelope_is_refused() {
    let r = validate(Image { width: 2, height: 2, image_type: 0, data: vec![1; 15] });
    assert_eq!(
        r.err(),
        Some(ImageError::GeometryMismatch { width: 2, height: 2, channel_count: 4, actual_len: 15 })
    );
}

#[test]
fn huge_geometry_is_refused_without_overflow() {
    let r = validate(Image { width: u32::MAX, height: u32::MAX, image_type: 0, data: vec![1; 4] });
    assert!(matches!(r, Err(ImageError::GeometryMismatch { .. })));
}

#[test]
fn empty_data_is_refused() {
    let service = ImageProcessingService;
    let mut request = params(vec![]);
    request.invert = Some(Invert {});
    assert_eq!(service.process_image(request).err(), Some(ImageError::EmptyData));
}

#[test]
fn unknown_format_is_refused() {
    let mut request = params(two_pixels());
    request.image.image_type = 9;
    let r = ImageProcessingService.process_image(request);
    assert_eq!(r.err(), Some(ImageError::InvalidFormat { code: 9 }));
}

#[test]
fn process_with_invert() {
    let mut request = params(two_pixels());
    request.invert = Some(Invert {});
    let out = ImageProcessingService.process_image(request).unwrap();
    assert_eq!(out.width, 2);
    assert_eq!(out.height, 1);
    assert_eq!(out.image_type, 0);
    assert_eq!(out.data, vec![230, 166, 56, 255, 255, 0, 216, 255]);
}

#[test]
fn process_with_box_blur() {
    let mut request = params(two_pixels());
    request.box_blur = Some(BoxBlur { kernel_width: 3 });
    let out = ImageProcessingService.process_image(request).unwrap();
    assert_eq!(out.data, vec![17, 144, 146, 255, 8, 200, 92, 255]);
}

#[test]
fn process_without_operations_returns_the_image() {
    let out = ImageProcessingService.process_image(params(two_pixels())).unwrap();
    assert_eq!(out.data, two_pixels());
}

#[test]
fn invert_twice_restores_the_buffer() {
    let mut image = rgba_buffer(2, 1, two_pixels());
    Invert {}.invert(&mut image).unwrap();
    Invert {}.invert(&mut image).unwrap();
    assert_eq!(image.data, two_pixels());
}

#[test]
fn invert_keeps_gray_alpha() {
    let mut image = PixelBuffer { width: 2, height: 1, format: ImageType::Grayalpha, data: vec![10, 20, 0, 255] };
    Invert {}.process_image(&mut image).unwrap();
    assert_eq!(image.data, vec![245, 20, 255, 255]);
}

#[test]
fn even_kernel_width_is_refused() {
    for kernel_width in [0u32, 2, 4, 100] {
        let mut image = rgba_buffer(2, 1, two_pixels());
        let r = BoxBlur { kernel_width }.box_blur(&mut image);
        assert_eq!(r, Err(ImageError::EvenKernelWidth { kernel_width }));
        assert_eq!(image.data, two_pixels());
    }
}

#[test]
fn odd_kernel_widths_are_accepted() {
    for kernel_width in [1u32, 3, 5, 9] {
        let mut image = rgba_buffer(2, 1, two_pixels());
        assert_eq!(BoxBlur { kernel_width }.box_blur(&mut image), Ok(()));
    }
    let mut image = rgba_buffer(2, 1, two_pixels());
    BoxBlur { kernel_width: 1 }.box_blur(&mut image).unwrap();
    assert_eq!(image.data, two_pixels());
}

#[test]
fn box_blur_of_a_gray_row() {
    let mut image = PixelBuffer { width: 3, height: 1, format: ImageType::Gray, data: vec![0, 90, 255] };
    BoxBlur { kernel_width: 3 }.box_blur(&mut image).unwrap();
    assert_eq!(image.data, vec![30, 115, 200]);
}

#[test]
fn box_blur_of_a_gray_column() {
    let mut image = PixelBuffer { width: 1, height: 3, format: ImageType::Gray, data: vec![0, 90, 255] };
    BoxBlur { kernel_width: 3 }.box_blur(&mut image).unwrap();
    assert_eq!(image.data, vec![30, 115, 200]);
}

#[test]
fn threshold_above_a_byte_is_refused() {
    let mut image = rgba_buffer(2, 1, two_pixels());
    let r = EdgeDetect { threshold: 256 }.edge_detect(&mut image);
    assert_eq!(r, Err(ImageError::ThresholdOutOfRange { threshold: 256 }));
    assert_eq!(image.data, two_pixels());
}

#[test]
fn thresholds_up_to_a_byte_are_accepted() {
    for threshold in [0u32, 100, 255] {
        let mut image = rgba_buffer(2, 1, two_pixels());
        assert_eq!(EdgeDetect { threshold }.edge_detect(&mut image), Ok(()));
        assert_eq!(image.data.len(), 8);
    }
}

fn vertical_edge() -> Vec<u8> {
    let mut data = Vec::new();
    for _ in 0..3 {
        for v in [0u8, 50, 255] {
            data.extend_from_slice(&[v, v, v, 255]);
        }
    }
    data
}

#[test]
fn edge_detect_marks_a_vertical_edge() {
    let mut image = rgba_buffer(3, 3, vertical_edge());
    EdgeDetect { threshold: 100 }.edge_detect(&mut image).unwrap();
    let mut expected = Vec::new();
    for i in 0..9 {
        let v = if i == 4 { 255 } else { 0 };
        expected.extend_from_slice(&[v, v, v, 255]);
    }
    assert_eq!(image.data, expected);
}

#[test]
fn edge_detect_on_gray_keeps_the_layout() {
    let gray: Vec<u8> = vec![0, 50, 255, 0, 50, 255, 0, 50, 255];
    let mut image = PixelBuffer { width: 3, height: 3, format: ImageType::Gray, data: gray };
    EdgeDetect { threshold: 100 }.edge_detect(&mut image).unwrap();
    assert_eq!(image.data, vec![0, 0, 0, 0, 255, 0, 0, 0, 0]);
}

#[test]
fn edges_follow_the_gradient() {
    let gradient = vec![10, 10, 10, 0, 200, 200, 200, 255];
    assert_eq!(edges_from_gradient(&gradient, 4, 100, 2), vec![0, 0, 0, 255, 255, 255, 255, 255]);
    assert_eq!(edges_from_gradient(&gradient, 2, 9, 2), vec![255, 255, 255, 255]);
    assert_eq!(edges_from_gradient(&gradient, 1, 200, 2), vec![0, 0]);
}

#[test]
fn layouts_widen_and_narrow() {
    assert_eq!(widen_to_rgba(&vec![7, 9], 1, 2), vec![7, 7, 7, 255, 9, 9, 9, 255]);
    assert_eq!(widen_to_rgba(&vec![7, 30], 2, 1), vec![7, 7, 7, 30]);
    assert_eq!(widen_to_rgba(&vec![1, 2, 3], 3, 1), vec![1, 2, 3, 255]);
    let rgba = vec![1, 2, 3, 4, 5, 6, 7, 8];
    assert_eq!(narrow_from_rgba(&rgba, 4, 2), rgba);
    assert_eq!(narrow_from_rgba(&rgba, 3, 2), vec![1, 2, 3, 5, 6, 7]);
    assert_eq!(narrow_from_rgba(&rgba, 2, 2), vec![1, 4, 5, 8]);
    assert_eq!(narrow_from_rgba(&rgba, 1, 2), vec![1, 5]);
}

#[test]
fn operations_run_in_fixed_order() {
    let mut request = params(two_pixels());
    request.edge_detect = Some(EdgeDetect { threshold: 3 });
    request.box_blur = Some(BoxBlur { kernel_width: 3 });
    request.invert = Some(Invert {});
    assert_eq!(
        operations(&request),
        vec![
            Operation::Invert(Invert {}),
            Operation::BoxBlur(BoxBlur { kernel_width: 3 }),
            Operation::EdgeDetect(EdgeDetect { threshold: 3 }),
        ]
    );
}

#[test]
fn blur_then_edges_snapshot() {
    let mut request = params(two_pixels());
    request.edge_detect = Some(EdgeDetect { threshold: 100 });
    request.box_blur = Some(BoxBlur { kernel_width: 3 });
    let out = ImageProcessingService.process_image(request).unwrap();
    assert_eq!(out.data, vec![0, 0, 0, 255, 0, 0, 0, 255]);

    let mut image = rgba_buffer(2, 1, two_pixels());
    BoxBlur { kernel_width: 3 }.box_blur(&mut image).unwrap();
    EdgeDetect { threshold: 100 }.edge_detect(&mut image).unwrap();
    assert_eq!(out.data, image.data);
}

#[test]
fn dispatch_stops_at_the_first_failure() {
    let mut image = rgba_buffer(2, 1, two_pixels());
    let ops = vec![
        Operation::Invert(Invert {}),
        Operation::BoxBlur(BoxBlur { kernel_width: 2 }),
        Operation::Invert(Invert {}),
    ];
    assert_eq!(dispatch(&mut image, &ops), Err(ImageError::EvenKernelWidth { kernel_width: 2 }));
    assert_eq!(image.data, vec![230, 166, 56, 255, 255, 0, 216, 255]);
}

fn thumbnail_request(new_width: u32, new_height: u32) -> ThumbnailImage {
    let mut data = Vec::new();
    for _ in 0..4 {
        data.extend_from_slice(&[40, 80, 120, 255]);
    }
    ThumbnailImage { image: Image { width: 2, height: 2, image_type: 0, data }, new_width, new_height }
}

#[test]
fn thumbnail_wider_than_source_is_refused() {
    let r = ImageProcessingService.create_thumbnail(thumbnail_request(3, 2));
    assert_eq!(
        r.err(),
        Some(ImageError::ThumbnailTooLarge { new_width: 3, new_height: 2, width: 2, height: 2 })
    );
    let r = ImageProcessingService.create_thumbnail(thumbnail_request(1, 3));
    assert!(matches!(r, Err(ImageError::ThumbnailTooLarge { .. })));
}

#[test]
fn thumbnail_shrinks_the_image() {
    let out = ImageProcessingService.create_thumbnail(thumbnail_request(1, 1)).unwrap();
    assert_eq!(out.width, 1);
    assert_eq!(out.height, 1);
    assert_eq!(out.image_type, 0);
    assert_eq!(out.data, vec![40, 80, 120, 255]);
}

#[test]
fn thumbnail_of_gray_keeps_the_layout() {
    let request = ThumbnailImage {
        image: Image { width: 2, height: 2, image_type: 2, data: vec![60, 60, 60, 60] },
        new_width: 1,
        new_height: 1,
    };
    let out = ImageProcessingService.create_thumbnail(request).unwrap();
    assert_eq!(out.image_type, 2);
    assert_eq!(out.data, vec![60]);
}

#[test]
fn thumbnail_of_empty_source_is_refused() {
    let request = ThumbnailImage {
        image: Image { width: 2, height: 2, image_type: 0, data: vec![] },
        new_width: 1,
        new_height: 1,
    };
    assert_eq!(ImageProcessingService.create_thumbnail(request).err(), Some(ImageError::EmptyData));
}

#[test]
fn widest_kernel_repeats_the_edges() {
    let mut image = rgba_buffer(2, 1, two_pixels());
    BoxBlur { kernel_width: u32::MAX }.box_blur(&mut image).unwrap();
    assert_eq!(image.data[0], 13);
    assert_eq!(image.data[4], 12);
    assert_eq!(image.data[3], 255);
    assert_eq!(image.data[7], 255);
}

#[test]
fn thumbnail_of_zero_size_is_refused() {
    let r = ImageProcessingService.create_thumbnail(thumbnail_request(0, 1));
    assert_eq!(r.err(), Some(ImageError::ThumbnailEmpty { new_width: 0, new_height: 1 }));
    let r = ImageProcessingService.create_thumbnail(thumbnail_request(1, 0));
    assert_eq!(r.err(), Some(ImageError::ThumbnailEmpty { new_width: 1, new_height: 0 }));
}

#[test]
fn thumbnail_of_large_source_is_made_in_stages() {
    let request = ThumbnailImage {
        image: Image { width: 4200, height: 4200, image_type: 2, data: vec![255; 4200 * 4200] },
        new_width: 1,
        new_height: 1,
    };
    let out = ImageProcessingService.create_thumbnail(request).unwrap();
    assert_eq!(out.width, 1);
    assert_eq!(out.height, 1);
    assert_eq!(out.image_type, 2);
    assert_eq!(out.data, vec![255]);
}

#[test]
fn thumbnail_of_large_source_to_mid_size() {
    let request = ThumbnailImage {
        image: Image { width: 4200, height: 4200, image_type: 2, data: vec![90; 4200 * 4200] },
        new_width: 420,
        new_height: 420,
    };
    let out = ImageProcessingService.create_thumbnail(request).unwrap();
    assert_eq!(out.data.len(), 420 * 420);
    assert!(out.data.iter().all(|&v| v == 90));
}

#[test]
fn edge_detect_works_band_by_band() {
    let mut data = Vec::new();
    for _ in 0..5 {
        for v in [0u8, 50, 255] {
            data.extend_from_slice(&[v, v, v, 255]);
        }
    }
    let mut image = rgba_buffer(3, 5, data);
    EdgeDetect { threshold: 100 }.edge_detect(&mut image).unwrap();
    let mut expected = Vec::new();
    for y in 0..5 {
        for x in 0..3 {
            let v = if x == 1 && y > 0 && y < 4 { 255 } else { 0 };
            expected.extend_from_slice(&[v, v, v, 255]);
        }
    }
    assert_eq!(image.data, expected);
}

#[test]
fn all_operations_run_in_canonical_order() {
    let request = ImageParameters {
        image: Image { width: 3, height: 3, image_type: 0, data: vertical_edge() },
        edge_detect: Some(EdgeDetect { threshold: 40 }),
        box_blur: Some(BoxBlur { kernel_width: 3 }),
        invert: Some(Invert {}),
    };
    let out = ImageProcessingService.process_image(request).unwrap();

    let mut image = rgba_buffer(3, 3, vertical_edge());
    Invert {}.invert(&mut image).unwrap();
    BoxBlur { kernel_width: 3 }.box_blur(&mut image).unwrap();
    EdgeDetect { threshold: 40 }.edge_detect(&mut image).unwrap();
    assert_eq!(out.width, 3);
    assert_eq!(out.height, 3);
    assert_eq!(out.data, image.data);
}
