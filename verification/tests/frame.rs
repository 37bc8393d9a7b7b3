use ssimulacra2::frame::{
    check_candidate_size, check_reference_size, FrameError, ReferenceFrame, MIN_SIZE,
};

#[test]
fn too_small_reference_is_rejected() {
    assert_eq!(check_reference_size(4, 4), Err(FrameError::InvalidImageSize));
    assert_eq!(check_reference_size(8, 7), Err(FrameError::InvalidImageSize));
    assert_eq!(check_reference_size(MIN_SIZE, MIN_SIZE), Ok(()));
}

#[test]
fn dimension_mismatch_is_rejected() {
    assert_eq!(
        check_candidate_size(1448, 1080, 1447, 1079),
        Err(FrameError::NonMatchingImageDimensions)
    );
    assert_eq!(
        check_candidate_size(1448, 1080, 1448, 1079),
        Err(FrameError::NonMatchingImageDimensions)
    );
    assert_eq!(check_candidate_size(1448, 1080, 1448, 1080), Ok(()));
}

#[test]
fn reference_frame_keeps_its_dimensions() {
    let f = ReferenceFrame::new(1448, 1080, vec![1u8, 2, 3]).unwrap();
    assert_eq!((f.width(), f.height()), (1448, 1080));
    assert_eq!(f.scales(), &vec![1u8, 2, 3]);
    assert_eq!(f.check_candidate(1448, 1080), Ok(()));
    assert_eq!(f.check_candidate(1080, 1448), Err(FrameError::NonMatchingImageDimensions));
    assert!(matches!(ReferenceFrame::new(7, 100, ()), Err(FrameError::InvalidImageSize)));
    assert!(matches!(ReferenceFrame::new(8, 8, ()), Ok(_)));
}
