use imspect::color::ColorSpaceChange;
use imspect::image::ImageKind;
use imspect::registry::ImspectApp;
use imspect::transfer::{
    check_array, collect_images, encode_array, encode_arrays, has_npy_payload, image_from_npy,
    is_npy_path, npy_header_is_shallow, ArrayInput, TransferError,
};
use ndarray::Array3;
use ndarray_npy::WriteNpyExt;

fn input(shape: Vec<usize>, data: Vec<u8>) -> ArrayInput {
    ArrayInput { shape, is_u8: true, data }
}

fn npy_of(shape: (usize, usize, usize), data: Vec<u8>) -> Vec<u8> {
    let arr = Array3::from_shape_vec(shape, data).unwrap();
    let mut out = Vec::new();
    arr.write_npy(&mut out).unwrap();
    out
}

/// A version 1.0 `.npy` file with this header text, padded as the format
/// asks, followed by `data`.
fn raw_npy(header: &str, data: &[u8]) -> Vec<u8> {
    let mut text = header.as_bytes().to_vec();
    while (10 + text.len() + 1) % 64 != 0 {
        text.push(b' ');
    }
    text.push(b'\n');
    let mut out = b"\x93NUMPY\x01\x00".to_vec();
    out.push((text.len() % 256) as u8);
    out.push((text.len() / 256) as u8);
    out.extend_from_slice(&text);
    out.extend_from_slice(data);
    out
}

fn pixels(img: &ImageKind) -> Vec<u8> {
    match img {
        ImageKind::OneChannel(d) => d.pixels.clone(),
        ImageKind::ThreeChannel(d) => d.pixels.clone(),
    }
}

#[test]
fn check_array_accepts_one_or_three_channels() {
    assert_eq!(check_array(&vec![2, 3, 1], true, 6), Ok((2, 3, 1)));
    assert_eq!(check_array(&vec![2, 3, 3], true, 18), Ok((2, 3, 3)));
    assert_eq!(check_array(&vec![2, 3], true, 6), Ok((2, 3, 1)));
}

#[test]
fn check_array_rejects_bad_shapes_and_types() {
    for c in [0usize, 2, 4] {
        assert_eq!(check_array(&vec![2, 2, c], true, 4 * c), Err(TransferError::WrongChannels));
    }
    assert_eq!(check_array(&vec![2, 2, 1], false, 4), Err(TransferError::WrongElementType));
    assert_eq!(check_array(&vec![4], true, 4), Err(TransferError::WrongDimensions));
    assert_eq!(check_array(&vec![], true, 1), Err(TransferError::WrongDimensions));
    assert_eq!(check_array(&vec![1, 2, 2, 1], true, 4), Err(TransferError::WrongDimensions));
    assert_eq!(check_array(&vec![0, 2, 1], true, 0), Err(TransferError::EmptyImage));
    assert_eq!(check_array(&vec![2, 2, 1], true, 5), Err(TransferError::LengthMismatch));
    assert!(TransferError::WrongChannels.is_invalid_input());
    assert!(!TransferError::ResourceUnavailable.is_invalid_input());
    assert!(!TransferError::LaunchFailed.is_invalid_input());
}

#[test]
fn encode_array_writes_npy_bytes() {
    let data: Vec<u8> = (0..6).collect();
    let bytes = encode_array(&input(vec![2, 3, 1], data.clone())).unwrap();
    assert_eq!(bytes, npy_of((2, 3, 1), data.clone()));
    assert_ne!(bytes, data);
    let two_d = encode_array(&input(vec![2, 3], data.clone())).unwrap();
    assert_eq!(two_d, bytes);
}

#[test]
fn encode_arrays_rejects_before_encoding_any() {
    let ok = input(vec![1, 1, 1], vec![0]);
    let bad = input(vec![1, 1, 2], vec![0, 0]);
    assert_eq!(encode_arrays(&vec![ok, bad]), Err(TransferError::WrongChannels));
    let not_u8 = ArrayInput { shape: vec![1, 1, 1], is_u8: false, data: vec![0] };
    assert_eq!(encode_arrays(&vec![not_u8]), Err(TransferError::WrongElementType));
    assert_eq!(encode_arrays(&vec![]), Ok(vec![]));
}

#[test]
fn npy_round_trip_one_channel() {
    let data: Vec<u8> = vec![3, 1, 4, 1, 5, 9];
    let bytes = encode_array(&input(vec![3, 2, 1], data.clone())).unwrap();
    let img = image_from_npy(&bytes).unwrap();
    assert!(matches!(img, ImageKind::OneChannel(_)));
    assert_eq!(img.height(), 3);
    assert_eq!(img.width(), 2);
    assert_eq!(pixels(&img), data);
}

#[test]
fn npy_round_trip_three_channels() {
    let data: Vec<u8> = (100..124).collect();
    let bytes = encode_array(&input(vec![2, 4, 3], data.clone())).unwrap();
    let img = image_from_npy(&bytes).unwrap();
    assert!(matches!(img, ImageKind::ThreeChannel(_)));
    assert_eq!(img.height(), 2);
    assert_eq!(img.width(), 4);
    assert_eq!(pixels(&img), data);
}

#[test]
fn image_from_npy_refuses_other_arrays() {
    assert_eq!(
        image_from_npy(&npy_of((2, 2, 4), vec![0; 16])).err(),
        Some(TransferError::WrongChannels)
    );
    assert_eq!(image_from_npy(&npy_of((0, 2, 1), vec![])).err(), Some(TransferError::EmptyImage));
    assert_eq!(image_from_npy(&vec![1, 2, 3]).err(), Some(TransferError::Undecodable));
    let mut wide = Vec::new();
    Array3::<u16>::zeros((1, 1, 1)).write_npy(&mut wide).unwrap();
    assert_eq!(image_from_npy(&wide).err(), Some(TransferError::Undecodable));
}

#[test]
fn npy_paths_are_recognised_by_extension() {
    assert!(is_npy_path(&b"/tmp/x/imspect_img_0.npy".to_vec()));
    assert!(is_npy_path(&b"a.npy".to_vec()));
    assert!(!is_npy_path(&b".npy".to_vec()));
    assert!(!is_npy_path(&b"/tmp/.npy".to_vec()));
    assert!(!is_npy_path(&b"photo.png".to_vec()));
    assert!(!is_npy_path(&b"data.npz".to_vec()));
    assert!(!is_npy_path(&b"npy".to_vec()));
}

#[test]
fn collect_images_fails_fast() {
    let a = ImageKind::one_channel(1, 1, vec![0]).unwrap();
    let b = ImageKind::one_channel(1, 1, vec![1]).unwrap();
    let all = collect_images(vec![Ok(a), Ok(b)]).unwrap();
    assert_eq!(all.len(), 2);
    let c = ImageKind::one_channel(1, 1, vec![2]).unwrap();
    let r = collect_images(vec![
        Ok(c),
        Err(TransferError::Undecodable),
        Err(TransferError::WrongChannels),
    ]);
    assert_eq!(r.err(), Some((1, TransferError::Undecodable)));
}

#[test]
fn end_to_end_two_arrays() {
    let zeros = input(vec![4, 4, 1], vec![0; 16]);
    let whites = input(vec![4, 4, 3], vec![255; 48]);
    let files = encode_arrays(&vec![zeros, whites]).unwrap();
    assert_eq!(files.len(), 2);
    let images = collect_images(files.iter().map(image_from_npy).collect()).unwrap();
    assert!(matches!(images[0], ImageKind::OneChannel(_)));
    assert_eq!(pixels(&images[0]), vec![0; 16]);
    assert!(matches!(images[1], ImageKind::ThreeChannel(_)));
    assert_eq!(pixels(&images[1]), vec![255; 48]);

    let mut app = ImspectApp::new(images);
    let new_id = app
        .apply_color_conversion(0, ColorSpaceChange::GRAY2RGB, None)
        .unwrap();
    assert!(new_id != 0 && new_id != 1);
    let added = app.get(new_id).unwrap();
    assert_eq!(added.image.num_channels(), 3);
    assert_eq!(pixels(&added.image), vec![0; 48]);
    assert_eq!(app.len(), 3);
    assert_eq!(app.apply_color_conversion(1, ColorSpaceChange::GRAY2RGB, None), None);
    assert_eq!(app.len(), 3);
}

#[test]
fn npy_payload_guard() {
    let full = npy_of((1, 1, 1), vec![7]);
    assert!(has_npy_payload(&full));
    assert!(!has_npy_payload(&npy_of((0, 1, 1), vec![])));
    assert!(has_npy_payload(&vec![1, 2, 3]));
    let header = "{'descr': '|u1', 'fortran_order': False, 'shape': (1, 1, 1)}";
    assert_eq!(raw_npy(header, &[7]), full);
}

#[test]
fn zero_axis_beside_huge_axes_is_refused() {
    let header = "{'descr': '|u1', 'fortran_order': False, \
                  'shape': (0, 9223372036854775807, 9223372036854775807), }";
    assert_eq!(image_from_npy(&raw_npy(header, &[])).err(), Some(TransferError::EmptyImage));
    assert_eq!(image_from_npy(&raw_npy(header, &[1])).err(), Some(TransferError::Undecodable));
}

#[test]
fn fortran_order_file_is_read_in_row_major_order() {
    let header = "{'descr': '|u1', 'fortran_order': True, 'shape': (2, 1, 3), }";
    let img = image_from_npy(&raw_npy(header, &[1, 2, 3, 4, 5, 6])).unwrap();
    assert_eq!(img.height(), 2);
    assert_eq!(img.width(), 1);
    assert_eq!(pixels(&img), vec![1, 3, 5, 2, 4, 6]);
}

#[test]
fn deeply_nested_header_is_refused() {
    let deep = format!(
        "{{'descr': '|u1', 'fortran_order': False, 'shape': (1, 1, 1), 'x': {}{}}}",
        "[".repeat(30000),
        "]".repeat(30000)
    );
    let bytes = raw_npy(&deep, &[7]);
    assert!(!npy_header_is_shallow(&bytes));
    assert_eq!(image_from_npy(&bytes).err(), Some(TransferError::Undecodable));
    let nine = "{'descr': '|u1', 'fortran_order': False, 'shape': (1, 1, 1), 'x': [[[[[[[]]]]]]]}";
    assert!(!npy_header_is_shallow(&raw_npy(nine, &[7])));
    let eight = "{'descr': '|u1', 'fortran_order': False, 'shape': (1, 1, 1), 'x': [[[[[[]]]]]]}";
    assert!(npy_header_is_shallow(&raw_npy(eight, &[7])));
    assert!(npy_header_is_shallow(&npy_of((2, 2, 3), vec![0; 12])));
    assert!(npy_header_is_shallow(&vec![1, 2, 3]));
}
