use soma_media::error::MediaError;
use soma_media::gpu::{median_filter_row, GpuProcessor};

#[test]
fn test_gpu_processor_creation() {
    let gpu = GpuProcessor::new();
    let backend = gpu.backend_info();

    assert!(!backend.is_empty());
    assert!(
        backend.contains("CUDA")
            || backend.contains("Vulkan")
            || backend.contains("Metal")
            || backend.contains("CPU")
    );
}

#[test]
fn test_gpu_backend_info() {
    let gpu = GpuProcessor::new();
    assert!(!gpu.backend_info().is_empty());
}

#[test]
fn processor_starts_on_the_cpu() {
    let gpu = GpuProcessor::new();
    assert!(!gpu.has_gpu());
    assert_eq!(gpu.backend_info(), "CPU (SIMD via rayon)");
    assert!(!GpuProcessor::default().has_gpu());
}

fn sample_image() -> Vec<u8> {
    (0..27u32).map(|i| ((i * 37) % 251) as u8).collect()
}

#[test]
fn median_filter_of_a_three_by_three_image() {
    let gpu = GpuProcessor::new();
    let img = sample_image();
    let once = gpu.median_filter(&img, 3, 3, 1).unwrap();
    assert_eq!(
        once,
        vec![
            82, 119, 74, 111, 90, 74, 193, 90, 45, 82, 119, 156, 111, 119, 127, 135, 90, 127, 164, 201, 156, 135,
            172, 156, 135, 172, 127
        ]
    );
    let twice = gpu.median_filter(&img, 3, 3, 2).unwrap();
    assert_eq!(
        twice,
        vec![
            82, 119, 74, 111, 90, 74, 135, 90, 74, 111, 119, 156, 135, 119, 127, 135, 90, 127, 135, 172, 156, 135,
            172, 156, 135, 172, 127
        ]
    );
    assert_eq!(gpu.median_filter(&img, 3, 3, 0).unwrap(), img);
    assert_eq!(gpu.median_filter_pass(&once, 3, 3).unwrap(), twice);
}

#[test]
fn median_filter_repeats_the_border() {
    let gpu = GpuProcessor::new();
    let img: Vec<u8> = vec![10, 20, 30, 200, 100, 0, 50, 60, 70, 90, 80, 255];
    assert_eq!(gpu.median_filter(&img, 2, 2, 1).unwrap(), vec![50, 60, 30, 90, 80, 30, 50, 60, 70, 90, 80, 70]);
    let one: Vec<u8> = vec![1, 2, 3];
    assert_eq!(gpu.median_filter(&one, 1, 1, 5).unwrap(), one);
    assert_eq!(gpu.median_filter(&[], 4, 0, 3).unwrap(), Vec::<u8>::new());
}

#[test]
fn median_filter_removes_a_single_outlier() {
    let gpu = GpuProcessor::new();
    let mut img = vec![100u8; 5 * 5 * 3];
    img[(2 * 5 + 2) * 3 + 1] = 255;
    let out = gpu.median_filter(&img, 5, 5, 1).unwrap();
    assert_eq!(out, vec![100u8; 75]);
}

#[test]
fn rows_are_filtered_one_by_one() {
    let gpu = GpuProcessor::new();
    let img = sample_image();
    let whole = gpu.median_filter_pass(&img, 3, 3).unwrap();
    for y in 0..3usize {
        assert_eq!(median_filter_row(&img, 3, 3, y), whole[y * 9..(y + 1) * 9].to_vec());
    }
}

#[test]
fn resize_gives_three_bytes_for_each_pixel() {
    let gpu = GpuProcessor::new();
    let img = vec![128u8; 2 * 2 * 3];
    let out = gpu.resize(&img, 2, 2, 4, 4).unwrap();
    assert_eq!(out.len(), 48);
    assert!(out.iter().all(|b| (127..=129).contains(b)));
    let out = gpu.resize(&img, 2, 2, 1, 3).unwrap();
    assert_eq!(out.len(), 9);
    let same = gpu.resize(&sample_image(), 3, 3, 3, 3).unwrap();
    assert_eq!(same, sample_image());
}

#[test]
fn resize_refuses_a_short_image() {
    let gpu = GpuProcessor::new();
    let img = vec![128u8; 11];
    let r = gpu.resize(&img, 2, 2, 4, 4);
    assert!(matches!(r, Err(MediaError::ProcessingError(_))));
    if let Err(e) = r {
        assert!(e.message().starts_with("Processing failed: Failed to create source image"));
    }
}

#[test]
fn every_image_of_a_list_is_scaled() {
    let gpu = GpuProcessor::new();
    let images = vec![(vec![10u8; 2 * 2 * 3], 2, 2), (vec![200u8; 3 * 1 * 3], 3, 1), (vec![0u8; 5 * 4 * 3], 5, 4)];
    let out = gpu.batch_resize(images, 4, 2).unwrap();
    assert_eq!(out.len(), 3);
    for image in &out {
        assert_eq!(image.len(), 4 * 2 * 3);
    }
    assert!(out[0].iter().all(|b| (9..=11).contains(b)));
    assert!(out[1].iter().all(|b| (199..=201).contains(b)));
    assert!(out[2].iter().all(|b| *b <= 1));
    assert_eq!(gpu.batch_resize(Vec::new(), 4, 2).unwrap().len(), 0);
}

#[test]
fn list_with_a_short_image_is_refused() {
    let gpu = GpuProcessor::new();
    let images = vec![(vec![10u8; 12], 2, 2), (vec![200u8; 8], 3, 1)];
    assert!(matches!(gpu.batch_resize(images, 4, 2), Err(MediaError::ProcessingError(_))));
}

#[test]
fn image_of_the_right_length_is_always_scaled() {
    let gpu = GpuProcessor::new();
    for (w, h) in [(1u32, 1u32), (2, 3), (7, 5), (0, 4), (4, 0)] {
        let img = vec![77u8; (w * h * 3) as usize];
        for (dw, dh) in [(1u32, 1u32), (5, 2), (0, 3), (16, 16)] {
            let out = gpu.resize(&img, w, h, dw, dh).unwrap();
            assert_eq!(out.len(), (dw * dh * 3) as usize);
        }
        let mut longer = img.clone();
        longer.push(1);
        assert!(gpu.resize(&longer, w, h, 2, 2).is_ok());
        if w * h > 0 {
            assert!(gpu.resize(&img[1..], w, h, 2, 2).is_err());
        }
    }
}

#[test]
fn without_a_pass_the_bytes_come_back_whatever_the_size() {
    let gpu = GpuProcessor::new();
    let bytes: Vec<u8> = vec![1, 2, 3, 4, 5];
    assert_eq!(gpu.median_filter(&bytes, 0, 0, 0).unwrap(), bytes);
    assert_eq!(gpu.median_filter(&bytes, 7, 9, 0).unwrap(), bytes);
}
