use zero_copy_analyzer::umem::{PacketRef, UMem, UMemError, UMemLayout};

#[test]
fn test_umem_creation() {
    let umem = UMem::new(1 << 20, 2048).unwrap();
    assert_eq!(umem.size(), 1 << 20);
    assert_eq!(umem.frame_size(), 2048);
    assert_eq!(umem.num_frames(), 512);
}

#[test]
fn test_invalid_size() {
    let result = UMem::new(1000, 2048);
    assert!(result.is_err());
}

#[test]
fn test_get_packet() {
    let umem = UMem::new(1 << 20, 2048).unwrap();
    let packet = umem.get_packet(0, 100);
    assert_eq!(packet.len(), 100);
}

#[test]
fn test_get_frame() {
    let umem = UMem::new(1 << 20, 2048).unwrap();
    let packet = umem.get_frame(5, 1500);
    assert_eq!(packet.len(), 1500);
}

#[test]
fn test_write_and_read_frame() {
    let mut umem = UMem::new(1 << 20, 2048).unwrap();
    let data = b"Hello, World!";
    umem.write_frame(0, data);

    let packet = umem.get_frame(0, data.len());
    assert_eq!(packet.as_slice(), data);
}

#[test]
fn errors_name_what_is_wrong() {
    match UMem::new(1000, 2048) {
        Err(UMemError::InvalidSize(text)) => assert_eq!(text, "Size must be a power of 2"),
        _ => panic!("expected an invalid size"),
    }
    match UMem::new(0, 2048) {
        Err(UMemError::InvalidSize(text)) => assert_eq!(text, "Size must be a power of 2"),
        _ => panic!("expected an invalid size"),
    }
    match UMem::new(1 << 19, 2048) {
        Err(UMemError::InvalidSize(text)) => assert_eq!(text, "Size must be at least 1 MB"),
        _ => panic!("expected an invalid size"),
    }
    for frame_size in [0, 63, 65537] {
        match UMem::new(1 << 20, frame_size) {
            Err(UMemError::InvalidFrameSize(text)) => {
                assert_eq!(text, "Frame size must be between 64 and 65536 bytes")
            }
            _ => panic!("expected an invalid frame size"),
        }
    }
    assert!(UMem::new(1 << 20, 64).is_ok());
    assert!(UMem::new(1 << 20, 65536).is_ok());
}

#[test]
fn memory_that_is_not_to_be_had() {
    let size = 1usize << (usize::BITS - 1);
    assert!(matches!(UMem::new(size, 2048), Err(UMemError::MmapFailed(12))));
}

#[test]
fn new_memory_is_zero() {
    let umem = UMem::new(1 << 20, 4096).unwrap();
    assert!(umem.as_slice().iter().all(|b| *b == 0));
}

#[test]
fn writing_one_frame_leaves_the_others() {
    let mut umem = UMem::new(1 << 20, 64).unwrap();
    umem.write_frame(1, &[1; 64]);
    umem.write_frame(3, &[3; 64]);
    assert_eq!(umem.write_frame(2, &[2; 100]), 64);
    assert_eq!(umem.get_frame(1, 64).as_slice(), &[1; 64]);
    assert_eq!(umem.get_frame(2, 64).as_slice(), &[2; 64]);
    assert_eq!(umem.get_frame(3, 64).as_slice(), &[3; 64]);
    umem.clear_frame(2);
    assert_eq!(umem.get_frame(2, 64).as_slice(), &[0; 64]);
    assert_eq!(umem.get_frame(3, 64).as_slice(), &[3; 64]);
}

#[test]
fn frames_that_do_not_exist_take_nothing() {
    let mut umem = UMem::new(1 << 20, 65536).unwrap();
    assert_eq!(umem.num_frames(), 16);
    assert_eq!(umem.write_frame(16, b"data"), 0);
    umem.clear_frame(usize::MAX);
    assert!(umem.as_slice().iter().all(|b| *b == 0));
}

#[test]
fn memory_that_exists_already() {
    let umem = UMem::from_memory(vec![7; 100], 30);
    assert_eq!(umem.size(), 100);
    assert_eq!(umem.num_frames(), 3);
    assert_eq!(umem.get_packet(90, 10).as_slice(), &[7; 10]);
}

#[test]
fn layout_of_a_region() {
    let layout = UMemLayout::of_region(1000, 64);
    assert_eq!(layout.num_frames(), 15);
    assert_eq!(layout.frame_offset(14), 896);
    assert_eq!(UMemLayout::new(1 << 21, 2048).unwrap().num_frames(), 1024);
}

#[test]
fn parts_of_a_packet() {
    let packet = PacketRef::from_slice(b"abcdef");
    assert_eq!(packet.get_bytes(2), Some(&b"ab"[..]));
    assert_eq!(packet.get_bytes(6), Some(&b"abcdef"[..]));
    assert_eq!(packet.get_bytes(7), None);
    assert_eq!(packet.split_at(4), (&b"abcd"[..], &b"ef"[..]));
    assert!(!packet.is_empty());
    assert!(PacketRef::from_slice(&[]).is_empty());
}

#[test]
fn messages_of_memory_errors() {
    assert_eq!(
        UMem::new(3 << 20, 2048).err().unwrap().to_string(),
        "Invalid UMEM size: Size must be a power of 2"
    );
    assert_eq!(
        UMemError::InvalidFrameSize("odd".to_string()).to_string(),
        "Invalid frame size: odd"
    );
    assert_eq!(
        UMemError::OutOfBounds(4, 10, 8).to_string(),
        "Access out of bounds: offset=4, len=10, umem_size=8"
    );
    assert_eq!(UMemError::MmapFailed(12).message_with_cause("none"), "Failed to map memory: none");
    assert!(UMemError::MmapFailed(12).to_string().ends_with("(os error 12)"));
}
