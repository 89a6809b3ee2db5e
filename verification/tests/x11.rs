use sophia_engine::x11::{
    pad_x11, padded_x11_len, push_x11_u64, read_x11_u16, read_x11_u32, x11_change_property_request,
    x11_get_property_reply_len, x11_intern_atom_reply_atom, x11_record_counts, x11_reply_body_len,
    x11_setup_reply_body_len, X11RecordCounts,
    x11_create_window_request, x11_get_property_request, x11_intern_atom_request, x11_query_extension_request,
    x11_resource_request, x11_setup_request, x11_sophia_present_pixmap_request, XByteOrder,
};

#[test]
fn x11_setup_request_announces_protocol_eleven() {
    assert_eq!(
        x11_setup_request(XByteOrder::LittleEndian),
        vec![0x6c, 0, 11, 0, 0, 0, 0, 0, 0, 0, 0, 0]
    );
    assert_eq!(
        x11_setup_request(XByteOrder::BigEndian),
        vec![0x42, 0, 0, 11, 0, 0, 0, 0, 0, 0, 0, 0]
    );
}

#[test]
fn x11_resource_request_names_one_resource() {
    assert_eq!(
        x11_resource_request(XByteOrder::LittleEndian, 8, 0x0020_0001),
        vec![8, 0, 2, 0, 1, 0, 0x20, 0]
    );
    assert_eq!(
        x11_resource_request(XByteOrder::BigEndian, 8, 0x0020_0001),
        vec![8, 0, 0, 2, 0, 0x20, 0, 1]
    );
}

#[test]
fn x11_create_window_request_is_eight_units() {
    let request = x11_create_window_request(XByteOrder::LittleEndian, 0x0020_0001, -1, 2, 640, 480);
    assert_eq!(
        request,
        vec![
            1, 24, 8, 0, 1, 0, 0x20, 0, 0x20, 0, 0, 0, 0xff, 0xff, 2, 0, 0x80, 2, 0xe0, 1, 0, 0, 1, 0, 0, 0,
            0, 0, 0, 0, 0, 0,
        ]
    );
}

#[test]
fn x11_intern_atom_request_pads_the_name() {
    let request = x11_intern_atom_request(XByteOrder::LittleEndian, false, "WM_NAME");
    assert_eq!(request, vec![16, 0, 4, 0, 7, 0, 0, 0, b'W', b'M', b'_', b'N', b'A', b'M', b'E', 0]);
    let only = x11_intern_atom_request(XByteOrder::BigEndian, true, "ABCD");
    assert_eq!(only, vec![16, 1, 0, 3, 0, 4, 0, 0, b'A', b'B', b'C', b'D']);
}

#[test]
fn x11_query_extension_request_uses_opcode_98() {
    let request = x11_query_extension_request(XByteOrder::LittleEndian, "SYNC");
    assert_eq!(request, vec![98, 0, 3, 0, 4, 0, 0, 0, b'S', b'Y', b'N', b'C']);
}

#[test]
fn x11_change_property_request_carries_padded_bytes() {
    let request = x11_change_property_request(XByteOrder::LittleEndian, 0x0020_0001, 39, 31, b"hello");
    assert_eq!(
        request,
        vec![
            18, 0, 8, 0, 1, 0, 0x20, 0, 39, 0, 0, 0, 31, 0, 0, 0, 8, 0, 0, 0, 5, 0, 0, 0, b'h', b'e', b'l',
            b'l', b'o', 0, 0, 0,
        ]
    );
}

#[test]
fn x11_get_property_request_is_six_units() {
    let request = x11_get_property_request(XByteOrder::BigEndian, 1, 2, 3, 4, 5);
    assert_eq!(
        request,
        vec![20, 0, 0, 6, 0, 0, 0, 1, 0, 0, 0, 2, 0, 0, 0, 3, 0, 0, 0, 4, 0, 0, 0, 5]
    );
}

#[test]
fn x11_present_pixmap_request_encodes_generation_and_timeout() {
    let request = x11_sophia_present_pixmap_request(
        XByteOrder::LittleEndian,
        130,
        1,
        0x0020_0001,
        0x0020_0002,
        (0, 0, 64, 32),
        0x0102_0304_0506_0708,
        250,
    );
    assert_eq!(
        request,
        vec![
            130, 1, 8, 0, 1, 0, 0x20, 0, 2, 0, 0x20, 0, 0, 0, 0, 0, 64, 0, 32, 0, 8, 7, 6, 5, 4, 3, 2, 1, 250,
            0, 0, 0,
        ]
    );
}

#[test]
fn x11_integers_read_back_in_both_orders() {
    assert_eq!(read_x11_u16(XByteOrder::LittleEndian, &[0x34, 0x12]), 0x1234);
    assert_eq!(read_x11_u16(XByteOrder::BigEndian, &[0x12, 0x34]), 0x1234);
    assert_eq!(read_x11_u32(XByteOrder::LittleEndian, &[4, 3, 2, 1]), 0x0102_0304);
    assert_eq!(read_x11_u32(XByteOrder::BigEndian, &[1, 2, 3, 4]), 0x0102_0304);

    let mut out = Vec::new();
    push_x11_u64(&mut out, XByteOrder::BigEndian, 0x0102_0304_0506_0708);
    assert_eq!(out, vec![1, 2, 3, 4, 5, 6, 7, 8]);
}

#[test]
fn x11_padding_reaches_the_next_unit() {
    assert_eq!(padded_x11_len(0), 0);
    assert_eq!(padded_x11_len(5), 8);
    assert_eq!(padded_x11_len(8), 8);
    let mut out = vec![1, 2, 3, 4, 5];
    pad_x11(&mut out);
    assert_eq!(out, vec![1, 2, 3, 4, 5, 0, 0, 0]);
}

#[test]
fn x11_setup_reply_announces_its_body_or_refusal() {
    assert_eq!(x11_setup_reply_body_len(XByteOrder::LittleEndian, &[1, 0, 11, 0, 0, 0, 3, 0]), Ok(12));
    assert_eq!(x11_setup_reply_body_len(XByteOrder::BigEndian, &[1, 0, 0, 11, 0, 0, 0, 3]), Ok(12));
    assert_eq!(x11_setup_reply_body_len(XByteOrder::LittleEndian, &[0, 5, 11, 0, 0, 0, 3, 0]), Err(0));
    assert_eq!(x11_setup_reply_body_len(XByteOrder::LittleEndian, &[2, 0, 11, 0, 0, 0, 3, 0]), Err(2));
}

#[test]
fn x11_replies_carry_their_length_and_atom() {
    let mut reply = [0u8; 32];
    reply[0] = 1;
    reply[4..8].copy_from_slice(&[2, 0, 0, 0]);
    reply[8..12].copy_from_slice(&[0x27, 0x01, 0, 0]);
    assert_eq!(x11_reply_body_len(XByteOrder::LittleEndian, &reply), Some(8));
    assert_eq!(x11_intern_atom_reply_atom(XByteOrder::LittleEndian, &reply), 0x127);
    assert_eq!(x11_reply_body_len(XByteOrder::BigEndian, &reply), Some(0x0200_0000 * 4));
}

#[test]
fn x11_records_are_counted_by_event_code() {
    assert_eq!(
        x11_record_counts(&[22, 19, 28, 0, 22]),
        X11RecordCounts { configure_notify: 2, map_notify: 1, errors: 1 }
    );
    assert_eq!(x11_record_counts(&[]), X11RecordCounts { configure_notify: 0, map_notify: 0, errors: 0 });
    let mut reply = [0u8; 32];
    reply[16..20].copy_from_slice(&[13, 0, 0, 0]);
    assert_eq!(x11_get_property_reply_len(XByteOrder::LittleEndian, &reply), 13);
}
