use breadx::codec::{additional_bytes, decode_u16, decode_u32, ByteOrder};
use breadx::lvl2::Type as Lvl2Type;
use breadx::sequence::promote_sequence;
use breadx::ty::Type;

#[test]
fn u16_decoding_follows_the_negotiated_order() {
    assert_eq!(decode_u16(0x34, 0x12, ByteOrder::Little), 0x1234);
    assert_eq!(decode_u16(0x12, 0x34, ByteOrder::Big), 0x1234);
}

#[test]
fn u32_decoding_follows_the_negotiated_order() {
    assert_eq!(decode_u32(0x78, 0x56, 0x34, 0x12, ByteOrder::Little), 0x12345678);
    assert_eq!(decode_u32(0x12, 0x34, 0x56, 0x78, ByteOrder::Big), 0x12345678);
}

#[test]
fn additional_bytes_reads_the_reply_length_field() {
    let mut header = vec![1u8, 0, 0, 0, 3, 0, 0, 0];
    assert_eq!(additional_bytes(&header, ByteOrder::Little), Some(3));
    header[4] = 0;
    header[7] = 3;
    assert_eq!(additional_bytes(&header, ByteOrder::Big), Some(3));
}

#[test]
fn additional_bytes_is_none_for_fixed_size_packets() {
    let error_header = vec![0u8, 0, 0, 0, 9, 9, 9, 9];
    assert_eq!(additional_bytes(&error_header, ByteOrder::Little), None);
    let event_header = vec![33u8, 0, 0, 0, 9, 9, 9, 9];
    assert_eq!(additional_bytes(&event_header, ByteOrder::Little), None);
}

#[test]
fn additional_bytes_masks_the_generated_bit() {
    let header = vec![0x81u8, 0, 0, 0, 2, 0, 0, 0];
    assert_eq!(additional_bytes(&header, ByteOrder::Little), Some(2));
}

#[test]
fn promotion_is_identity_without_wraparound() {
    assert_eq!(promote_sequence(100, 100), 100);
    assert_eq!(promote_sequence(100, 250), 250);
}

#[test]
fn promotion_crosses_a_wraparound_boundary() {
    assert_eq!(promote_sequence(65534, 2), 65538);
}

#[test]
fn promotion_keeps_the_current_block_when_not_behind() {
    assert_eq!(promote_sequence(65538, 2), 65538);
    assert_eq!(promote_sequence(65538, 10), 65546);
}

#[test]
fn plain_names_parse_as_basic_types() {
    match Type::from_name(String::from("u32")) {
        Type::Basic(s) => assert_eq!(s, "u32"),
        other => panic!("expected a basic type, got {:?}", other),
    }
}

#[test]
fn qualified_names_split_at_the_first_colon_and_fold_the_owner() {
    match Type::from_name(String::from("Xproto:Rectangle")) {
        Type::Path { owner, name } => {
            assert_eq!(owner, "xproto");
            assert_eq!(name, "Rectangle");
        }
        other => panic!("expected a path type, got {:?}", other),
    }
}

#[test]
fn only_the_first_colon_splits() {
    match Type::from_name(String::from("a:b:c")) {
        Type::Path { owner, name } => {
            assert_eq!(owner, "a");
            assert_eq!(name, "b:c");
        }
        other => panic!("expected a path type, got {:?}", other),
    }
}

#[test]
fn lvl2_basic_types_are_parsed_names() {
    match Type::from_lvl2(Lvl2Type::BasicType(String::from("card16"))) {
        Type::Basic(s) => assert_eq!(s, "card16"),
        other => panic!("expected a basic type, got {:?}", other),
    }
}

#[test]
fn lvl2_arrays_keep_their_element_name_and_size() {
    match Type::from_lvl2(Lvl2Type::Array(String::from("card8"), 16)) {
        Type::Array(inner, 16) => match *inner {
            Type::Basic(s) => assert_eq!(s, "card8"),
            other => panic!("expected a basic element, got {:?}", other),
        },
        other => panic!("expected an array type, got {:?}", other),
    }
}
