use h264_reader::Context;
use h264_reader::nal::NalHeader;
use h264_reader::nal::NalHeaderError;
use h264_reader::nal::UnitType;
use h264_reader::nal::pps::ParamSetId;
use h264_reader::nal::sps::SeqParameterSetNalHandler;
use h264_reader::nal::sps::SeqParameterSet;

fn sps_bytes() -> Vec<u8> {
    vec![0x64, 0x00, 0x0A, 0xAC, 0x72, 0x84, 0x44, 0x26, 0x84, 0x00, 0x00, 0x00, 0x04, 0x00, 0x00, 0x00, 0xCA, 0x3C, 0x48, 0x96, 0x11, 0x80]
}

#[test]
fn nal_headers() {
    let h = NalHeader::new(0x67).unwrap();
    assert_eq!(UnitType::SeqParameterSet, h.nal_unit_type());
    assert_eq!(UnitType::PicParameterSet, NalHeader::new(0x68).unwrap().nal_unit_type());
    assert_eq!(UnitType::SliceLayerWithoutPartitioningIdr, NalHeader::new(0x65).unwrap().nal_unit_type());
    assert_eq!(UnitType::Reserved(17), NalHeader::new(0x11).unwrap().nal_unit_type());
    assert_eq!(UnitType::Unspecified(24), NalHeader::new(0x18).unwrap().nal_unit_type());
    assert_eq!(Err(NalHeaderError::ForbiddenZeroBitNonZero), NalHeader::new(0xe7).map(|_| ()));
    assert_eq!(Err(h264_reader::nal::UnitTypeError::ValueOutOfRange(32)), UnitType::for_id(32));
}

#[test]
fn context_stores_by_id() {
    let mut ctx = Context::new(7u32);
    let id = ParamSetId::from_u32(0).unwrap();
    assert!(ctx.sps_by_id(id).is_none());
    let sps = SeqParameterSet::from_bytes(&sps_bytes()).unwrap();
    ctx.put_seq_param_set(sps);
    assert_eq!(100, u8::from(ctx.sps_by_id(id).unwrap().profile_idc));
    assert!(ctx.sps_by_id(ParamSetId::from_u32(1).unwrap()).is_none());
    assert_eq!(7, ctx.user_context);
}

#[test]
fn handler_stores_a_parsed_sps() {
    let mut ctx = Context::new(());
    let mut handler: SeqParameterSetNalHandler<()> = SeqParameterSetNalHandler::new();
    handler.start(&mut ctx, NalHeader::new(0x67).unwrap());
    let data = sps_bytes();
    handler.push(&mut ctx, &data[..5]);
    handler.push(&mut ctx, &data[5..]);
    handler.end(&mut ctx);
    let sps = ctx.sps_by_id(ParamSetId::from_u32(0).unwrap()).unwrap();
    assert_eq!(10, sps.level_idc);
}

#[test]
fn handler_ignores_a_bad_sps() {
    let mut ctx = Context::new(());
    let mut handler: SeqParameterSetNalHandler<()> = SeqParameterSetNalHandler::new();
    handler.start(&mut ctx, NalHeader::new(0x67).unwrap());
    handler.push(&mut ctx, &[0x64, 0x00]);
    handler.end(&mut ctx);
    for i in 0..32 {
        assert!(ctx.sps_by_id(ParamSetId::from_u32(i).unwrap()).is_none());
    }
    // the buffer was cleared: a good SPS after it parses
    handler.start(&mut ctx, NalHeader::new(0x67).unwrap());
    handler.push(&mut ctx, &sps_bytes());
    handler.end(&mut ctx);
    assert!(ctx.sps_by_id(ParamSetId::from_u32(0).unwrap()).is_some());
}

#[test]
fn second_end_stores_nothing() {
    let mut ctx = Context::new(());
    let mut handler: SeqParameterSetNalHandler<()> = SeqParameterSetNalHandler::new();
    handler.start(&mut ctx, NalHeader::new(0x67).unwrap());
    handler.push(&mut ctx, &sps_bytes());
    handler.end(&mut ctx);
    let mut other = SeqParameterSet::from_bytes(&sps_bytes()).unwrap();
    other.level_idc = 99;
    ctx.put_seq_param_set(other);
    handler.end(&mut ctx);
    assert_eq!(99, ctx.sps_by_id(ParamSetId::from_u32(0).unwrap()).unwrap().level_idc);
}
