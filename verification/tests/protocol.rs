use aura::aura_error::AuraError;
use aura::protocol::{
    classify_identifier, colour_base_register, colour_upload_ops, mb_signature, swizzle_frame,
    translate_register, BusOp, ControllerKind, LedTopology, ASSERT_UPLOAD_REGISTER,
    ASSERT_UPLOAD_VALUE,
};

#[test]
fn translate_register_is_swapped_select_word() {
    // byteswap(0x8000 | reg), for every register the driver selects
    assert_eq!(translate_register(0x0000), 0x0080);
    assert_eq!(translate_register(0x00C1), 0xC180);
    assert_eq!(translate_register(0x00C8), 0xC880);
    assert_eq!(translate_register(0x0100), 0x0081);
    assert_eq!(translate_register(0x00A0), 0xA080);
    assert_eq!(translate_register(0x7FFF), 0xFFFF);
}

#[test]
fn swizzle_swaps_g_and_b_in_each_triplet() {
    let frame = vec![1u8, 2, 3, 4, 5, 6];
    let wire = swizzle_frame(&frame);
    assert_eq!(wire, vec![1, 3, 2, 4, 6, 5]);
}

#[test]
fn swizzle_twice_restores_the_frame() {
    let frame: Vec<u8> = (0u8..30).collect();
    let wire = swizzle_frame(&frame);
    let back = swizzle_frame(&wire);
    assert_eq!(back, frame);
}

#[test]
fn swizzle_of_empty_frame_is_empty() {
    let frame: Vec<u8> = vec![];
    assert_eq!(swizzle_frame(&frame), Vec::<u8>::new());
}

#[test]
fn motherboard_signature_classifies_as_motherboard_integrated() {
    let id = b"AUMA0-E6K5932.0072".to_vec();
    assert_eq!(classify_identifier(&id), ControllerKind::MotherboardIntegrated);
    // the bare signature is enough
    assert_eq!(classify_identifier(&mb_signature()), ControllerKind::MotherboardIntegrated);
}

#[test]
fn other_identifiers_classify_as_generic() {
    assert_eq!(classify_identifier(&b"LED-0104".to_vec()), ControllerKind::Generic);
    // a proper prefix of the signature does not match
    assert_eq!(classify_identifier(&b"AUMA0-E6K".to_vec()), ControllerKind::Generic);
    assert_eq!(classify_identifier(&b"".to_vec()), ControllerKind::Generic);
}

#[test]
fn colour_base_register_is_selected_by_kind() {
    assert_eq!(colour_base_register(ControllerKind::Generic), 0x0);
    assert_eq!(colour_base_register(ControllerKind::MotherboardIntegrated), 0x100);
}

#[test]
fn topology_total_is_sum_of_low_nibbles() {
    let t = LedTopology::from_zone_bytes(&vec![0x04, 0x03]);
    assert_eq!(t.total(), 7);
    assert_eq!(t.counts().clone(), vec![0x04, 0x03]);
}

#[test]
fn topology_masks_each_zone_byte() {
    let t = LedTopology::from_zone_bytes(&vec![0xFF, 0x12, 0x20]);
    assert_eq!(t.counts().clone(), vec![0x0F, 0x02, 0x00]);
    assert_eq!(t.total(), 17);
}

#[test]
fn topology_of_no_zones_is_empty() {
    let t = LedTopology::from_zone_bytes(&vec![]);
    assert_eq!(t.total(), 0);
    assert!(t.counts().is_empty());
    assert_eq!(LedTopology::empty().total(), 0);
}

#[test]
fn upload_plan_for_seven_led_white_frame() {
    // a 7-LED controller accepts a 21-byte frame: select colour base,
    // block-write the frame, select the assert register, write the trigger
    let frame = vec![0xFFu8; 21];
    let ops = match colour_upload_ops(ControllerKind::MotherboardIntegrated, 7, &frame) {
        Ok(ops) => ops,
        Err(_) => panic!("a 21-byte frame must be accepted"),
    };
    assert_eq!(ops.len(), 4);
    match &ops[0] {
        BusOp::WriteWord { offset, value } => {
            assert_eq!(*offset, 0x00);
            assert_eq!(*value, translate_register(0x100));
        }
        _ => panic!("expected the colour-base select"),
    }
    match &ops[1] {
        BusOp::WriteBlock { offset, data } => {
            assert_eq!(*offset, 0x03);
            // white swaps to white, but byte-for-byte the frame is all there
            assert_eq!(data.clone(), vec![0xFFu8; 21]);
        }
        _ => panic!("expected the frame block-write"),
    }
    match &ops[2] {
        BusOp::WriteWord { offset, value } => {
            assert_eq!(*offset, 0x00);
            assert_eq!(*value, translate_register(ASSERT_UPLOAD_REGISTER));
        }
        _ => panic!("expected the upload-assert select"),
    }
    match &ops[3] {
        BusOp::WriteByte { offset, value } => {
            assert_eq!(*offset, 0x01);
            assert_eq!(*value, ASSERT_UPLOAD_VALUE);
        }
        _ => panic!("expected the upload-assert trigger byte"),
    }
}

#[test]
fn upload_plan_carries_the_swizzled_frame() {
    let mut frame = Vec::new();
    for _ in 0..7 {
        frame.extend_from_slice(&[10u8, 20, 30]);
    }
    let ops = colour_upload_ops(ControllerKind::Generic, 7, &frame).unwrap_or_else(|_| {
        panic!("a 21-byte frame must be accepted")
    });
    match &ops[0] {
        BusOp::WriteWord { value, .. } => assert_eq!(*value, translate_register(0x0)),
        _ => panic!("expected the colour-base select"),
    }
    match &ops[1] {
        BusOp::WriteBlock { data, .. } => {
            let mut expected = Vec::new();
            for _ in 0..7 {
                expected.extend_from_slice(&[10u8, 30, 20]);
            }
            assert_eq!(data.clone(), expected);
        }
        _ => panic!("expected the frame block-write"),
    }
}

#[test]
fn upload_rejects_wrong_length_with_no_transaction() {
    // a 20-byte frame on a 7-LED controller: length mismatch, zero bus ops
    let frame = vec![0xFFu8; 20];
    match colour_upload_ops(ControllerKind::MotherboardIntegrated, 7, &frame) {
        Ok(_) => panic!("a 20-byte frame must be rejected"),
        Err(AuraError::Other(msg)) => {
            assert_eq!(msg, "invalid number of LEDs passed in!");
        }
        Err(_) => panic!("the rejection must be a length-mismatch error"),
    }
}

#[test]
fn upload_plan_hands_the_transport_the_whole_frame() {
    // an 11-LED frame is 33 bytes: the planner passes all of it to the
    // transport, which cuts a block transaction to the SMBus maximum of 32
    let frame = vec![0x55u8; 33];
    let ops = colour_upload_ops(ControllerKind::Generic, 11, &frame).unwrap_or_else(|_| {
        panic!("a 33-byte frame on an 11-LED controller must be accepted")
    });
    match &ops[1] {
        BusOp::WriteBlock { data, .. } => assert_eq!(data.len(), 33),
        _ => panic!("expected the frame block-write"),
    }
}

#[test]
fn library_errors_describe_themselves() {
    let err = AuraError::other("invalid number of LEDs passed in!");
    assert_eq!(err.message(), "aura error: invalid number of LEDs passed in!");
}

#[test]
fn upload_of_empty_frame_on_zero_led_controller() {
    let ops = colour_upload_ops(ControllerKind::Generic, 0, &[]).unwrap_or_else(|_| {
        panic!("an empty frame on a zero-LED controller must be accepted")
    });
    assert_eq!(ops.len(), 4);
    match &ops[1] {
        BusOp::WriteBlock { data, .. } => assert!(data.is_empty()),
        _ => panic!("expected the frame block-write"),
    }
}
