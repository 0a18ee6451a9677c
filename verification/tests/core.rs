use imageprep::apply_mask;
use imageprep::get_cdf;
use imageprep::get_histogram;
use imageprep::match_histograms;
use imageprep::Mask;
use imageprep::PixelBuffer;

/// Builds a buffer from per-pixel RGBA tuples.
fn buffer(width: u32, height: u32, pixels: &[(u8, u8, u8, u8)]) -> PixelBuffer {
    assert_eq!(pixels.len(), (width * height) as usize);
    let mut data = Vec::new();
    for &(r, g, b, a) in pixels {
        data.push(r);
        data.push(g);
        data.push(b);
        data.push(a);
    }
    PixelBuffer::new(width, height, data).unwrap()
}

/// Builds a buffer whose pixels are (v, v, v, 255) for the given intensities.
fn gray_buffer(width: u32, height: u32, values: &[u8]) -> PixelBuffer {
    let pixels: Vec<(u8, u8, u8, u8)> = values.iter().map(|&v| (v, v, v, 255)).collect();
    buffer(width, height, &pixels)
}

#[test]
fn mask_offsets() {
    assert_eq!(Mask::R.offset(), 0);
    assert_eq!(Mask::G.offset(), 1);
    assert_eq!(Mask::B.offset(), 2);
    assert_eq!(Mask::A.offset(), 3);
}

#[test]
fn pixel_buffer_new_checks_length() {
    assert!(PixelBuffer::new(2, 2, vec![0; 16]).is_some());
    assert!(PixelBuffer::new(2, 2, vec![0; 15]).is_none());
    assert!(PixelBuffer::new(0, 0, vec![]).is_some());
}

#[test]
fn histogram_counts_first_channel() {
    let img = buffer(
        2,
        2,
        &[(10, 1, 2, 3), (10, 200, 0, 0), (20, 10, 10, 10), (30, 0, 0, 255)],
    );
    let hist = get_histogram(&img);
    assert_eq!(hist.len(), 256);
    assert_eq!(hist[10], 2);
    assert_eq!(hist[20], 1);
    assert_eq!(hist[30], 1);
    assert_eq!(hist[1], 0);
    let sum: u64 = hist.iter().sum();
    assert_eq!(sum, 4);
}

#[test]
fn histogram_sum_is_pixel_count() {
    let values: Vec<u8> = (0..12).map(|i| (i * 37) as u8).collect();
    let img = gray_buffer(4, 3, &values);
    let hist = get_histogram(&img);
    let sum: u64 = hist.iter().sum();
    assert_eq!(sum, 12);
}

#[test]
fn cdf_running_sums() {
    let img = buffer(
        2,
        2,
        &[(10, 0, 0, 255), (10, 0, 0, 255), (20, 0, 0, 255), (30, 0, 0, 255)],
    );
    let hist = get_histogram(&img);
    let cdf = get_cdf(&hist);
    assert_eq!(cdf.cum.len(), 256);
    assert_eq!(cdf.cum[9], 0);
    assert_eq!(cdf.cum[10], 2);
    assert_eq!(cdf.cum[19], 2);
    assert_eq!(cdf.cum[20], 3);
    assert_eq!(cdf.cum[29], 3);
    assert_eq!(cdf.cum[30], 4);
    assert_eq!(cdf.cum[255], 4);
    assert_eq!(cdf.total, 4);
}

#[test]
fn cdf_is_monotone_and_ends_at_total() {
    let values: Vec<u8> = (0..16).map(|i| (255 - i * 5) as u8).collect();
    let img = gray_buffer(4, 4, &values);
    let hist = get_histogram(&img);
    let cdf = get_cdf(&hist);
    for i in 0..255 {
        assert!(cdf.cum[i] <= cdf.cum[i + 1]);
    }
    // The normalized value cum[255] / total is exactly 1 for a non-empty image.
    assert_eq!(cdf.cum[255], cdf.total);
    assert_eq!(cdf.total, 16);
}

#[test]
fn cdf_of_hand_built_histogram() {
    let mut hist = vec![0u64; 256];
    hist[0] = 1;
    hist[255] = 3;
    let cdf = get_cdf(&hist);
    assert_eq!(cdf.cum[0], 1);
    assert_eq!(cdf.cum[100], 1);
    assert_eq!(cdf.cum[254], 1);
    assert_eq!(cdf.cum[255], 4);
    assert_eq!(cdf.total, 4);
}

#[test]
fn apply_mask_green_broadcasts_channel() {
    let img = buffer(2, 1, &[(1, 2, 3, 4), (5, 6, 7, 8)]);
    let out = apply_mask(&img, &Mask::G);
    assert_eq!(out.width, 2);
    assert_eq!(out.height, 1);
    assert_eq!(out.data, vec![2, 2, 2, 255, 6, 6, 6, 255]);
}

#[test]
fn apply_mask_red_is_idempotent() {
    let img = buffer(2, 1, &[(9, 2, 3, 4), (90, 6, 7, 8)]);
    let once = apply_mask(&img, &Mask::R);
    let twice = apply_mask(&once, &Mask::R);
    assert_eq!(once.data, twice.data);
}

#[test]
fn apply_mask_alpha_twice_saturates() {
    let img = buffer(1, 1, &[(9, 2, 3, 4)]);
    let once = apply_mask(&img, &Mask::A);
    assert_eq!(once.data, vec![4, 4, 4, 255]);
    let twice = apply_mask(&once, &Mask::A);
    // A second alpha mask reads the forced alpha, not the original channel.
    assert_eq!(twice.data, vec![255, 255, 255, 255]);
}

#[test]
fn match_uniform_image_to_itself_is_identity() {
    let img = gray_buffer(2, 2, &[100, 100, 100, 100]);
    let mut source = img.clone();
    let r = match_histograms(&mut source, &img);
    assert!(r.is_ok());
    assert_eq!(source.data, img.data);
}

#[test]
fn match_black_to_white_pins_fallback() {
    // All-black source: its CDF is 1 from index 0 on. All-white target: its
    // CDF is 0 below 255 and 1 at 255. No target entry strictly exceeds 1,
    // so the fallback candidate v + 1 applies and the result is v = 0.
    let mut source = gray_buffer(2, 2, &[0, 0, 0, 0]);
    let target = gray_buffer(2, 2, &[255, 255, 255, 255]);
    let r = match_histograms(&mut source, &target);
    assert!(r.is_ok());
    let expected: Vec<u8> = std::iter::repeat([0u8, 0, 0, 255]).take(4).flatten().collect();
    assert_eq!(source.data, expected);
}

#[test]
fn match_exact_remap_values() {
    // Source intensities 0, 64, 128, 255: cumulative counts 1, 2, 3, 4 of 4.
    // Target intensities 10, 10, 200, 200: cumulative counts are 0 below 10,
    // 2 from 10 to 199, 4 from 200 on.
    let mut source = gray_buffer(2, 2, &[0, 64, 128, 255]);
    let target = gray_buffer(2, 2, &[10, 10, 200, 200]);
    let r = match_histograms(&mut source, &target);
    assert!(r.is_ok());
    // 1/4: first target entry above it is at 10 -> 9.
    // 2/4 and 3/4: first above is at 200 -> 199.
    // 4/4: nothing above -> falls back to 255.
    let expected: Vec<u8> = [9u8, 199, 199, 255]
        .iter()
        .flat_map(|&v| vec![v, v, v, 255])
        .collect();
    assert_eq!(source.data, expected);
}

#[test]
fn match_crossing_at_zero_saturates() {
    // The darkest source pixel has cumulative probability 1/4; an all-black
    // target crosses it already at index 0, and the result saturates to 0.
    let mut source = gray_buffer(2, 2, &[0, 255, 255, 255]);
    let target = gray_buffer(2, 2, &[0, 0, 0, 0]);
    let r = match_histograms(&mut source, &target);
    assert!(r.is_ok());
    let expected: Vec<u8> = [0u8, 255, 255, 255]
        .iter()
        .flat_map(|&v| vec![v, v, v, 255])
        .collect();
    assert_eq!(source.data, expected);
}

#[test]
fn match_output_is_gray_and_opaque() {
    let mut source = gray_buffer(2, 2, &[3, 17, 99, 200]);
    // Give the source colorful channels besides the first.
    source.data[1] = 77;
    source.data[6] = 13;
    let target = gray_buffer(1, 2, &[50, 60]);
    let r = match_histograms(&mut source, &target);
    assert!(r.is_ok());
    for px in source.data.chunks(4) {
        assert_eq!(px[0], px[1]);
        assert_eq!(px[1], px[2]);
        assert_eq!(px[3], 255);
    }
}

#[test]
fn match_empty_source_is_rejected() {
    let mut source = PixelBuffer::new(0, 3, vec![]).unwrap();
    let target = gray_buffer(1, 1, &[7]);
    let r = match_histograms(&mut source, &target);
    assert!(r.err().unwrap().is_degenerate_input());
    assert_eq!(source.data.len(), 0);
}

#[test]
fn match_empty_target_is_rejected() {
    let mut source = gray_buffer(1, 1, &[7]);
    let target = PixelBuffer::new(2, 0, vec![]).unwrap();
    let r = match_histograms(&mut source, &target);
    assert!(r.err().unwrap().is_degenerate_input());
    // The source is untouched on failure.
    assert_eq!(source.data, vec![7, 7, 7, 255]);
}
