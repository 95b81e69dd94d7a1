use screenshare::capture::{Frame, RawImage};
use screenshare::codec::{
    error_answer, Answer, CodecError, CodecPacket, Conversion, DecodeAction, DecodeEvent, Decoder,
    DecoderStep, EncodeOutcome, EncodedFrame, Encoder, EncoderStep, PixelFormat,
};

fn frame() -> Frame {
    Frame { data: vec![0; 32], width: 4, height: 2 }
}

fn decode(decoder: &mut Decoder, event: DecodeEvent) -> DecodeAction {
    assert!(decoder.expects(&event));
    decoder.decode(event)
}

fn converted(width: usize) -> DecodeEvent {
    let data = vec![7; 2 * (width * 4 + 8)];
    DecodeEvent::Converted(Some(RawImage { width, height: 2, bytes_per_row: width * 4 + 8, data }))
}

#[test]
fn encoder_is_set_up_for_low_latency() {
    let (_, settings) = Encoder::new(1920, 1080);
    assert_eq!((settings.width, settings.height), (1920, 1080));
    assert_eq!(settings.format, PixelFormat::Yuv420p);
    assert_eq!(settings.ticks_per_second, 1000);
    assert_eq!(settings.gop, 60);
    assert_eq!(settings.max_b_frames, 0);
    assert_eq!(
        settings.options,
        vec![
            ("preset".to_string(), "ultrafast".to_string()),
            ("tune".to_string(), "zerolatency".to_string())
        ]
    );
    assert_eq!(
        settings.conversion,
        Conversion { from: PixelFormat::Bgra, to: PixelFormat::Yuv420p, width: 1920, height: 1080 }
    );
}

#[test]
fn frames_are_timed_in_order() {
    let (mut encoder, _) = Encoder::new(4, 2);
    for pts in 0..5 {
        assert!(encoder.can_encode(&frame(), 16, 32));
        let job = encoder.encode(&frame(), 16, 32);
        assert_eq!((job.pts, job.width, job.height), (pts, 4, 2));
    }
    assert!(!encoder.can_encode(&frame(), 15, 32));
    assert!(!encoder.can_encode(&frame(), 16, 31));
    assert!(!encoder.can_encode(&Frame { data: vec![0; 31], width: 4, height: 2 }, 16, 32));
}

#[test]
fn rows_are_laid_out_for_the_codec() {
    let picture = || Frame { data: vec![1, 2, 3, 4, 5, 6, 7, 8], width: 1, height: 2 };
    let (mut encoder, _) = Encoder::new(1, 2);
    assert!(encoder.can_encode(&picture(), 6, 12));
    assert_eq!(encoder.encode(&picture(), 6, 12).plane, vec![1, 2, 3, 4, 0, 0, 5, 6, 7, 8, 0, 0]);
    assert!(encoder.can_encode(&picture(), 6, 10));
    assert_eq!(encoder.encode(&picture(), 6, 10).plane, vec![1, 2, 3, 4, 0, 0, 5, 6, 7, 8]);
    assert_eq!(encoder.encode(&picture(), 4, 8).plane, picture().data);
}

#[test]
fn encoder_answers_are_told_apart() {
    let (mut encoder, _) = Encoder::new(4, 2);
    let mut finish = |outcome: EncodeOutcome| encoder.encode(&frame(), 16, 32).finish(outcome);
    for keyframe in [true, false] {
        let packet = CodecPacket { data: Some(vec![1, 2]), keyframe };
        assert_eq!(
            finish(EncodeOutcome::Answered(Answer::Ready(packet))),
            Ok(Some(EncodedFrame { payload: vec![1, 2], keyframe }))
        );
        let packet = CodecPacket { data: None, keyframe };
        assert_eq!(
            finish(EncodeOutcome::Answered(Answer::Ready(packet))),
            Ok(Some(EncodedFrame { payload: vec![], keyframe }))
        );
    }
    assert_eq!(finish(EncodeOutcome::Answered(Answer::Again)), Ok(None));
    assert_eq!(finish(EncodeOutcome::Answered(Answer::EndOfStream)), Ok(None));
    assert_eq!(finish(EncodeOutcome::Answered(Answer::Failed)), Err(CodecError::ReceivePacket));
    assert_eq!(finish(EncodeOutcome::ScaleFailed), Err(CodecError::EncodeScale));
    assert_eq!(finish(EncodeOutcome::SendFailed), Err(CodecError::SendFrame));
}

#[test]
fn try_again_is_no_failure() {
    assert!(matches!(error_answer::<u8>(11, 11), Answer::Again));
    assert!(matches!(error_answer::<u8>(12, 11), Answer::Failed));
}

#[test]
fn decoder_gives_frames_without_padding() {
    let mut decoder = Decoder::new();
    assert!(matches!(decode(&mut decoder, DecodeEvent::Submitted(true)), DecodeAction::Fetch));
    match decode(&mut decoder, DecodeEvent::Fetched(Answer::Ready((3, 2)))) {
        DecodeAction::Open(conversion) => assert_eq!(
            conversion,
            Conversion { from: PixelFormat::Yuv420p, to: PixelFormat::Bgra, width: 3, height: 2 }
        ),
        _ => panic!("no conversion"),
    }
    assert!(matches!(decode(&mut decoder, DecodeEvent::Opened(true)), DecodeAction::Convert));
    match decode(&mut decoder, converted(3)) {
        DecodeAction::Finish(Ok(Some(frame))) => {
            assert_eq!((frame.width, frame.height, frame.data), (3, 2, vec![7; 24]));
        }
        _ => panic!("no frame"),
    }
    // The conversion is there already.
    decode(&mut decoder, DecodeEvent::Submitted(true));
    assert!(matches!(
        decode(&mut decoder, DecodeEvent::Fetched(Answer::Ready((3, 2)))),
        DecodeAction::Convert
    ));
    assert!(!decoder.expects(&converted(5)));
    assert!(matches!(
        decode(&mut decoder, DecodeEvent::Converted(None)),
        DecodeAction::Finish(Err(CodecError::DecodeScale))
    ));
    // A picture of another size is refused, and the size stays.
    for size in [(5, 2), (3, 3)] {
        decode(&mut decoder, DecodeEvent::Submitted(true));
        assert!(matches!(
            decode(&mut decoder, DecodeEvent::Fetched(Answer::Ready(size))),
            DecodeAction::Finish(Err(CodecError::DecodeScale))
        ));
    }
    decode(&mut decoder, DecodeEvent::Submitted(true));
    decode(&mut decoder, DecodeEvent::Fetched(Answer::Ready((3, 2))));
    assert!(matches!(decode(&mut decoder, converted(3)), DecodeAction::Finish(Ok(Some(_)))));
}

#[test]
fn decoder_answers_are_told_apart() {
    let mut decoder = Decoder::new();
    assert!(matches!(
        decode(&mut decoder, DecodeEvent::Submitted(false)),
        DecodeAction::Finish(Err(CodecError::SendPacket))
    ));
    decode(&mut decoder, DecodeEvent::Submitted(true));
    assert!(matches!(
        decode(&mut decoder, DecodeEvent::Fetched(Answer::Again)),
        DecodeAction::Finish(Ok(None))
    ));
    decode(&mut decoder, DecodeEvent::Submitted(true));
    assert!(matches!(
        decode(&mut decoder, DecodeEvent::Fetched(Answer::EndOfStream)),
        DecodeAction::Finish(Ok(None))
    ));
    decode(&mut decoder, DecodeEvent::Submitted(true));
    assert!(matches!(
        decode(&mut decoder, DecodeEvent::Fetched(Answer::Failed)),
        DecodeAction::Finish(Err(CodecError::ReceiveFrame))
    ));
    decode(&mut decoder, DecodeEvent::Submitted(true));
    decode(&mut decoder, DecodeEvent::Fetched(Answer::Ready((1, 1))));
    assert!(matches!(
        decode(&mut decoder, DecodeEvent::Opened(false)),
        DecodeAction::Finish(Err(CodecError::OpenDecodeScaler))
    ));
    assert!(!decoder.expects(&DecodeEvent::Opened(true)));
}

#[test]
fn codec_errors_have_their_texts() {
    let texts = [
        (CodecError::Init, "ffmpeg::init()"),
        (CodecError::FindEncoder, "libx264 nao encontrado — ffmpeg compilado com --enable-libx264?"),
        (CodecError::MakeEncoder, "encoder::video()"),
        (CodecError::OpenEncoder, "abrir encoder H264"),
        (CodecError::OpenEncodeScaler, "sws BGRA->YUV420P"),
        (CodecError::EncodeScale, "sws_scale BGRA->YUV420P"),
        (CodecError::SendFrame, "send_frame"),
        (CodecError::ReceivePacket, "receive_packet"),
        (CodecError::FindDecoder, "decoder H264 nao encontrado"),
        (CodecError::MakeDecoder, "decoder.video()"),
        (CodecError::SendPacket, "send_packet"),
        (CodecError::ReceiveFrame, "receive_frame"),
        (CodecError::OpenDecodeScaler, "sws YUV420P->BGRA"),
        (CodecError::DecodeScale, "sws_scale YUV420P->BGRA"),
    ];
    for (error, text) in texts {
        assert_eq!(error.message(), text);
    }
}

#[test]
fn encoder_is_set_up_step_by_step() {
    let mut step = EncoderStep::Init;
    let mut failures = Vec::new();
    loop {
        failures.push(step.after(false).err().unwrap());
        match step.after(true).unwrap() {
            Some(next) => step = next,
            None => break,
        }
    }
    assert_eq!(
        failures,
        vec![
            CodecError::Init,
            CodecError::FindEncoder,
            CodecError::MakeEncoder,
            CodecError::OpenEncoder,
            CodecError::OpenEncodeScaler
        ]
    );
}

#[test]
fn decoder_is_set_up_step_by_step() {
    assert_eq!(DecoderStep::Init.after(true), Ok(Some(DecoderStep::Find)));
    assert_eq!(DecoderStep::Find.after(true), Ok(Some(DecoderStep::Make)));
    assert_eq!(DecoderStep::Make.after(true), Ok(None));
    assert_eq!(DecoderStep::Init.after(false), Err(CodecError::Init));
    assert_eq!(DecoderStep::Find.after(false), Err(CodecError::FindDecoder));
    assert_eq!(DecoderStep::Make.after(false), Err(CodecError::MakeDecoder));
}
