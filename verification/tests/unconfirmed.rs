use bacnet_parse::nsdu::apdu::unconfirmed_request_pdu::{
    IAmData, ObjectId, Segmentation, UnconfirmedServiceChoice, WhoIsLimits,
};
use bacnet_parse::nsdu::apdu::{parse_apdu, PduType, APDU};
use bacnet_parse::nsdu::object_type::ObjectType;
use bacnet_parse::Error;

fn apdu(bytes: &[u8]) -> APDU<'_> {
    APDU { bytes, pdu_type: PduType::UnconfirmedRequest }
}

/// An I-Am of device 1: longest message 480 bytes, no segmentation, vendor 8.
const I_AM: [u8; 14] = [
    0x10, 0x00, 0xC4, 0x02, 0x00, 0x00, 0x01, 0x22, 0x01, 0xE0, 0x91, 0x03, 0x21, 0x08,
];

fn i_am_data() -> IAmData {
    IAmData {
        device_id: ObjectId { object_type: ObjectType::Device, instance: 1 },
        max_apdu: 480,
        segmentation: Segmentation::NoSegmentation,
        vendor_id: 8,
    }
}

#[test]
fn parse_apdu_reads_the_kind() {
    let bytes = [0x10u8, 0x08];
    let message = parse_apdu(&bytes).unwrap();
    assert_eq!(message.pdu_type, PduType::UnconfirmedRequest);
    assert_eq!(message.bytes, &bytes[..]);
    assert_eq!(parse_apdu(&[0x00]).unwrap().pdu_type, PduType::ConfirmedRequest);
    assert_eq!(parse_apdu(&[0x2F]).unwrap().pdu_type, PduType::SimpleAck);
    assert_eq!(parse_apdu(&[0x30]).unwrap().pdu_type, PduType::ComplexAck);
    assert_eq!(parse_apdu(&[0x40]).unwrap().pdu_type, PduType::SegmentAck);
    assert_eq!(parse_apdu(&[0x50]).unwrap().pdu_type, PduType::Error);
    assert_eq!(parse_apdu(&[0x60]).unwrap().pdu_type, PduType::Reject);
    assert_eq!(parse_apdu(&[0x70]).unwrap().pdu_type, PduType::Abort);
    assert_eq!(parse_apdu(&[0x80]).unwrap().pdu_type, PduType::Reserved(8));
    assert_eq!(parse_apdu(&[0xFF]).unwrap().pdu_type, PduType::Reserved(15));
}

#[test]
fn parse_apdu_refuses_an_empty_buffer() {
    assert!(matches!(parse_apdu(&[]), Err(Error::Length)));
}

#[test]
fn who_is_without_limits() {
    let bytes = [0x10u8, 0x08];
    assert_eq!(
        UnconfirmedServiceChoice::parse(&apdu(&bytes)),
        Ok(UnconfirmedServiceChoice::WhoIs(None))
    );
}

#[test]
fn who_is_with_limits() {
    let bytes = [0x10u8, 0x08, 0x09, 0x05, 0x19, 0x0A];
    assert_eq!(
        UnconfirmedServiceChoice::parse(&apdu(&bytes)),
        Ok(UnconfirmedServiceChoice::WhoIs(Some(WhoIsLimits { low_limit: 5, high_limit: 10 })))
    );
}

#[test]
fn who_is_with_a_length_byte_behind_each_tag() {
    // 0x09 declares a value of one byte, so 0x01 is the lower limit and 0x05
    // is the next tag. Its extended length, 0x19, is wider than any unsigned
    // integer that is decoded here.
    let bytes = [0x10u8, 0x08, 0x09, 0x01, 0x05, 0x19, 0x01, 0x0A];
    assert_eq!(UnconfirmedServiceChoice::parse(&apdu(&bytes)), Err(Error::InvalidValue));
    assert_eq!(WhoIsLimits::parse(&apdu(&bytes)), Err(Error::InvalidValue));
}

#[test]
fn who_is_through_parse_apdu() {
    let bytes = [0x10u8, 0x08, 0x09, 0x05, 0x19, 0x0A];
    let message = parse_apdu(&bytes).unwrap();
    assert_eq!(
        UnconfirmedServiceChoice::parse(&message),
        Ok(UnconfirmedServiceChoice::WhoIs(Some(WhoIsLimits { low_limit: 5, high_limit: 10 })))
    );
}

#[test]
fn who_is_with_wide_limits() {
    let bytes = [0x10u8, 0x08, 0x0A, 0x01, 0x00, 0x1B, 0x3F, 0xFF, 0xFF];
    assert_eq!(
        WhoIsLimits::parse(&apdu(&bytes)),
        Ok(Some(WhoIsLimits { low_limit: 256, high_limit: 0x3F_FFFF }))
    );
    let bytes = [0x10u8, 0x08, 0x0C, 0x00, 0x00, 0x00, 0x00, 0x1C, 0xFF, 0xFF, 0xFF, 0xFF];
    assert_eq!(
        WhoIsLimits::parse(&apdu(&bytes)),
        Ok(Some(WhoIsLimits { low_limit: 0, high_limit: u32::MAX }))
    );
}

#[test]
fn who_is_with_an_extended_length() {
    let bytes = [0x10u8, 0x08, 0x0D, 0x02, 0x12, 0x34, 0x1D, 0xFE, 0x00, 0x01, 0x56];
    assert_eq!(
        WhoIsLimits::parse(&apdu(&bytes)),
        Ok(Some(WhoIsLimits { low_limit: 0x1234, high_limit: 0x56 }))
    );
}

#[test]
fn who_is_ignores_trailing_bytes() {
    let bytes = [0x10u8, 0x08, 0x09, 0x05, 0x19, 0x0A, 0xDE, 0xAD];
    assert_eq!(
        WhoIsLimits::parse(&apdu(&bytes)),
        Ok(Some(WhoIsLimits { low_limit: 5, high_limit: 10 }))
    );
}

#[test]
fn who_is_refuses_a_first_tag_that_is_not_context_zero() {
    // context-specific, number 1
    let bytes = [0x10u8, 0x08, 0x19, 0x05, 0x19, 0x0A];
    assert_eq!(WhoIsLimits::parse(&apdu(&bytes)), Err(Error::InvalidValue));
    // application, number 0
    let bytes = [0x10u8, 0x08, 0x01, 0x05, 0x19, 0x0A];
    assert_eq!(WhoIsLimits::parse(&apdu(&bytes)), Err(Error::InvalidValue));
    // context-specific, number 0 in an extension byte
    let bytes = [0x10u8, 0x08, 0xF9, 0x00, 0x05, 0x19, 0x0A];
    assert_eq!(
        WhoIsLimits::parse(&apdu(&bytes)),
        Ok(Some(WhoIsLimits { low_limit: 5, high_limit: 10 }))
    );
}

#[test]
fn who_is_does_not_check_the_second_tag() {
    let bytes = [0x10u8, 0x08, 0x09, 0x05, 0x29, 0x0A];
    assert_eq!(
        WhoIsLimits::parse(&apdu(&bytes)),
        Ok(Some(WhoIsLimits { low_limit: 5, high_limit: 10 }))
    );
    let bytes = [0x10u8, 0x08, 0x09, 0x05, 0x21, 0x0A];
    assert_eq!(
        WhoIsLimits::parse(&apdu(&bytes)),
        Ok(Some(WhoIsLimits { low_limit: 5, high_limit: 10 }))
    );
}

#[test]
fn who_is_truncated() {
    assert_eq!(WhoIsLimits::parse(&apdu(&[0x10, 0x08, 0x09])), Err(Error::Length));
    assert_eq!(WhoIsLimits::parse(&apdu(&[0x10, 0x08, 0x09, 0x05])), Err(Error::Length));
    assert_eq!(WhoIsLimits::parse(&apdu(&[0x10, 0x08, 0x09, 0x05, 0x19])), Err(Error::Length));
    assert_eq!(WhoIsLimits::parse(&apdu(&[0x10, 0x08, 0x0A, 0x01])), Err(Error::Length));
    assert_eq!(WhoIsLimits::parse(&apdu(&[0x10, 0x08, 0xF9])), Err(Error::Length));
    assert_eq!(
        WhoIsLimits::parse(&apdu(&[0x10, 0x08, 0x09, 0x05, 0x1A, 0x0A])),
        Err(Error::Length)
    );
}

#[test]
fn who_is_refuses_a_limit_of_no_or_too_many_bytes() {
    assert_eq!(
        WhoIsLimits::parse(&apdu(&[0x10, 0x08, 0x08, 0x19, 0x0A])),
        Err(Error::InvalidValue)
    );
    assert_eq!(
        WhoIsLimits::parse(&apdu(&[0x10, 0x08, 0x0D, 0x05, 1, 2, 3, 4, 5, 0x19, 0x0A])),
        Err(Error::InvalidValue)
    );
    assert_eq!(
        WhoIsLimits::parse(&apdu(&[0x10, 0x08, 0x09, 0x05, 0x18])),
        Err(Error::InvalidValue)
    );
    // an opening tag declares no length
    assert_eq!(
        WhoIsLimits::parse(&apdu(&[0x10, 0x08, 0x0E, 0x19, 0x0A])),
        Err(Error::InvalidValue)
    );
}

#[test]
fn who_is_on_a_short_buffer() {
    assert_eq!(WhoIsLimits::parse(&apdu(&[])), Err(Error::Length));
    assert_eq!(WhoIsLimits::parse(&apdu(&[0x10])), Err(Error::Length));
    assert_eq!(WhoIsLimits::parse(&apdu(&[0x10, 0x08])), Ok(None));
}

#[test]
fn i_am_header_without_payload() {
    let bytes = [0x10u8, 0x00];
    assert_eq!(UnconfirmedServiceChoice::parse(&apdu(&bytes)), Err(Error::Length));
    assert_eq!(IAmData::parse(&apdu(&bytes)), Err(Error::Length));
}

#[test]
fn i_am_on_a_short_buffer() {
    assert_eq!(IAmData::parse(&apdu(&[])), Err(Error::Length));
    assert_eq!(IAmData::parse(&apdu(&[0x10])), Err(Error::Length));
}

#[test]
fn i_am_complete() {
    assert_eq!(IAmData::parse(&apdu(&I_AM)), Ok(i_am_data()));
    assert_eq!(
        UnconfirmedServiceChoice::parse(&apdu(&I_AM)),
        Ok(UnconfirmedServiceChoice::IAm(i_am_data()))
    );
}

#[test]
fn i_am_ignores_trailing_bytes() {
    let mut bytes = I_AM.to_vec();
    bytes.push(0xFF);
    bytes.push(0x00);
    assert_eq!(IAmData::parse(&apdu(&bytes)), Ok(i_am_data()));
}

#[test]
fn i_am_truncated_at_every_length() {
    for end in 2..I_AM.len() {
        assert_eq!(IAmData::parse(&apdu(&I_AM[..end])), Err(Error::Length), "{}", end);
    }
}

#[test]
fn i_am_of_an_object_that_is_no_device() {
    // analog input 1, then fields that are in order
    let bytes = [
        0x10u8, 0x00, 0xC4, 0x00, 0x00, 0x00, 0x01, 0x22, 0x01, 0xE0, 0x91, 0x03, 0x21, 0x08,
    ];
    assert_eq!(IAmData::parse(&apdu(&bytes)), Err(Error::InvalidValue));
    assert_eq!(UnconfirmedServiceChoice::parse(&apdu(&bytes)), Err(Error::InvalidValue));
    // the same with nothing behind the identifier
    assert_eq!(IAmData::parse(&apdu(&bytes[..7])), Err(Error::InvalidValue));
    // a vendor's own object type
    let bytes = [
        0x10u8, 0x00, 0xC4, 0xFF, 0xC0, 0x00, 0x01, 0x22, 0x01, 0xE0, 0x91, 0x03, 0x21, 0x08,
    ];
    assert_eq!(IAmData::parse(&apdu(&bytes)), Err(Error::InvalidValue));
}

#[test]
fn i_am_with_a_wrong_first_tag() {
    let mut bytes = I_AM;
    bytes[2] = 0x24; // unsigned in place of object identifier
    assert_eq!(IAmData::parse(&apdu(&bytes)), Err(Error::InvalidValue));
    bytes[2] = 0xCC; // context-specific 12
    assert_eq!(IAmData::parse(&apdu(&bytes)), Err(Error::InvalidValue));
}

#[test]
fn i_am_with_a_wrong_second_tag() {
    let mut bytes = I_AM;
    bytes[7] = 0x92; // enumerated in place of unsigned
    assert_eq!(IAmData::parse(&apdu(&bytes)), Err(Error::InvalidValue));
}

#[test]
fn i_am_with_a_wrong_third_tag() {
    let mut bytes = I_AM;
    bytes[10] = 0x21; // unsigned in place of enumerated
    assert_eq!(IAmData::parse(&apdu(&bytes)), Err(Error::InvalidValue));
}

#[test]
fn i_am_with_a_wrong_fourth_tag() {
    let mut bytes = I_AM;
    bytes[12] = 0x91; // enumerated in place of unsigned
    assert_eq!(IAmData::parse(&apdu(&bytes)), Err(Error::InvalidValue));
}

#[test]
fn i_am_with_every_segmentation() {
    let expected = [
        Segmentation::Both,
        Segmentation::Transmit,
        Segmentation::Receive,
        Segmentation::NoSegmentation,
    ];
    for (code, segmentation) in expected.iter().enumerate() {
        let mut bytes = I_AM;
        bytes[11] = code as u8;
        let data = IAmData::parse(&apdu(&bytes)).unwrap();
        assert_eq!(data.segmentation, *segmentation);
    }
}

#[test]
fn i_am_with_segmentation_out_of_range() {
    let mut bytes = I_AM;
    bytes[11] = 4;
    assert_eq!(IAmData::parse(&apdu(&bytes)), Err(Error::InvalidValue));
    bytes[11] = 0xFF;
    assert_eq!(IAmData::parse(&apdu(&bytes)), Err(Error::InvalidValue));
}

#[test]
fn i_am_with_the_largest_vendor_id() {
    let bytes = [
        0x10u8, 0x00, 0xC4, 0x02, 0x3F, 0xFF, 0xFF, 0x22, 0x05, 0xC4, 0x91, 0x00, 0x22, 0xFF, 0xFF,
    ];
    assert_eq!(
        IAmData::parse(&apdu(&bytes)),
        Ok(IAmData {
            device_id: ObjectId { object_type: ObjectType::Device, instance: 0x3F_FFFF },
            max_apdu: 1476,
            segmentation: Segmentation::Both,
            vendor_id: 65535,
        })
    );
}

#[test]
fn i_am_with_a_vendor_id_out_of_range() {
    let bytes = [
        0x10u8, 0x00, 0xC4, 0x02, 0x00, 0x00, 0x01, 0x22, 0x01, 0xE0, 0x91, 0x03, 0x23, 0x01,
        0x00, 0x00,
    ];
    assert_eq!(IAmData::parse(&apdu(&bytes)), Err(Error::InvalidValue));
}

#[test]
fn one_byte_buffer_is_length_error() {
    assert_eq!(UnconfirmedServiceChoice::parse(&apdu(&[0x10])), Err(Error::Length));
}

#[test]
fn empty_buffer_is_length_error() {
    assert_eq!(UnconfirmedServiceChoice::parse(&apdu(&[])), Err(Error::Length));
}

#[test]
fn unknown_service_choice_is_kept() {
    let bytes = [0x10u8, 0xFE];
    assert_eq!(
        UnconfirmedServiceChoice::parse(&apdu(&bytes)),
        Ok(UnconfirmedServiceChoice::Unknown(0xFE))
    );
    let bytes = [0x10u8, 0x02, 0x01, 0x02];
    assert_eq!(
        UnconfirmedServiceChoice::parse(&apdu(&bytes)),
        Ok(UnconfirmedServiceChoice::Unknown(0x02))
    );
}

#[test]
fn i_have_and_who_has_read_no_payload() {
    assert_eq!(
        UnconfirmedServiceChoice::parse(&apdu(&[0x10, 0x01])),
        Ok(UnconfirmedServiceChoice::IHave)
    );
    assert_eq!(
        UnconfirmedServiceChoice::parse(&apdu(&[0x10, 0x07])),
        Ok(UnconfirmedServiceChoice::WhoHas)
    );
    assert_eq!(
        UnconfirmedServiceChoice::parse(&apdu(&[0x10, 0x01, 0xFF, 0xFF])),
        Ok(UnconfirmedServiceChoice::IHave)
    );
    assert_eq!(
        UnconfirmedServiceChoice::parse(&apdu(&[0x10, 0x07, 0xF5])),
        Ok(UnconfirmedServiceChoice::WhoHas)
    );
}

#[test]
fn the_kind_of_message_does_not_decide() {
    let bytes = [0x00u8, 0x08];
    assert_eq!(
        UnconfirmedServiceChoice::parse(&parse_apdu(&bytes).unwrap()),
        Ok(UnconfirmedServiceChoice::WhoIs(None))
    );
}

/// A field as a writer would lay it out: a lead byte that holds the tag
/// number and the width, then the value in `width` bytes.
fn field(number: u8, context: bool, width: usize, value: u32) -> Vec<u8> {
    let class = if context { 8u8 } else { 0u8 };
    let mut bytes = vec![(number << 4) | class | width as u8];
    bytes.extend_from_slice(&value.to_be_bytes()[4 - width..]);
    bytes
}

#[test]
fn who_is_reads_what_a_writer_writes() {
    let limits = [(0u32, 0u32), (5, 10), (255, 256), (65_535, 65_536), (0x3F_FFFF, 0x00FF_FFFF)];
    for (low, high) in limits {
        for low_width in 1usize..=4 {
            for high_width in 1usize..=4 {
                if (low as u64) >= 1u64 << (8 * low_width)
                    || (high as u64) >= 1u64 << (8 * high_width)
                {
                    continue;
                }
                let mut bytes = vec![0x10u8, 0x08];
                bytes.extend(field(0, true, low_width, low));
                bytes.extend(field(1, true, high_width, high));
                assert_eq!(
                    WhoIsLimits::parse(&apdu(&bytes)),
                    Ok(Some(WhoIsLimits { low_limit: low, high_limit: high }))
                );
            }
        }
    }
}

#[test]
fn i_am_reads_what_a_writer_writes() {
    let segmentations = [
        Segmentation::Both,
        Segmentation::Transmit,
        Segmentation::Receive,
        Segmentation::NoSegmentation,
    ];
    for (instance, max_apdu, vendor_id) in [(0u32, 50u32, 0u16), (1, 480, 8), (0x3F_FFFF, 1476, 65_535)] {
        for segmentation in segmentations {
            for width in 2usize..=4 {
                let mut bytes = vec![0x10u8, 0x00];
                bytes.extend(field(12, false, 4, (8 << 22) | instance));
                bytes.extend(field(2, false, width, max_apdu));
                bytes.extend(field(9, false, 1, segmentation.code()));
                bytes.extend(field(2, false, width, vendor_id as u32));
                assert_eq!(
                    IAmData::parse(&apdu(&bytes)),
                    Ok(IAmData {
                        device_id: ObjectId { object_type: ObjectType::Device, instance },
                        max_apdu: max_apdu as usize,
                        segmentation,
                        vendor_id,
                    })
                );
            }
        }
    }
}
