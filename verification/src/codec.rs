//! Encoding frames to H.264 and decoding them again: what the codec is set up
//! with, and what is made of its answers.

use vstd::prelude::*;

use crate::capture::{
    frame_of, lemma_frame_size, lemma_pixels_kept, lemma_whole_rows_readable, Frame, RawImage,
};

verus! {

/// An encoder of frames.
pub trait Codec {
    /// Sets up an encoder for frames of this size.
    fn new(width: u32, height: u32) -> Result<Self, CodecError> where Self: Sized;

    /// Encodes a frame to NAL units.  There is none as long as the encoder holds
    /// back its first frames.
    fn encode(&mut self, frame: &Frame) -> Result<Option<EncodedFrame>, CodecError>;
}

/// A frame in its encoded form.
#[derive(Debug, PartialEq, Eq)]
pub struct EncodedFrame {
    /// NAL units.
    pub payload: Vec<u8>,
    /// Whether a decoder can start here.
    pub keyframe: bool,
}

impl View for EncodedFrame {
    type V = (Seq<u8>, bool);

    open spec fn view(&self) -> (Seq<u8>, bool) {
        (self.payload@, self.keyframe)
    }
}

/// What the codec library failed at.
#[derive(Clone, Copy, Debug, PartialEq, Eq, Structural)]
pub enum CodecError {
    /// Starting the library.
    Init,
    /// Finding an H.264 encoder.
    FindEncoder,
    /// Making an encoder.
    MakeEncoder,
    /// Opening the encoder.
    OpenEncoder,
    /// Setting up the conversion before encoding.
    OpenEncodeScaler,
    /// Converting a frame for the encoder.
    EncodeScale,
    /// Handing a frame to the encoder.
    SendFrame,
    /// Taking a packet from the encoder.
    ReceivePacket,
    /// Finding an H.264 decoder.
    FindDecoder,
    /// Making a decoder.
    MakeDecoder,
    /// Handing a packet to the decoder.
    SendPacket,
    /// Taking a frame from the decoder.
    ReceiveFrame,
    /// Setting up the conversion after decoding.
    OpenDecodeScaler,
    /// Converting a frame from the decoder.
    DecodeScale,
}

impl CodecError {
    /// The text shown to the user.
    pub open spec fn text(self) -> Seq<char> {
        match self {
            CodecError::Init => "ffmpeg::init()"@,
            CodecError::FindEncoder =>
                "libx264 nao encontrado — ffmpeg compilado com --enable-libx264?"@,
            CodecError::MakeEncoder => "encoder::video()"@,
            CodecError::OpenEncoder => "abrir encoder H264"@,
            CodecError::OpenEncodeScaler => "sws BGRA->YUV420P"@,
            CodecError::EncodeScale => "sws_scale BGRA->YUV420P"@,
            CodecError::SendFrame => "send_frame"@,
            CodecError::ReceivePacket => "receive_packet"@,
            CodecError::FindDecoder => "decoder H264 nao encontrado"@,
            CodecError::MakeDecoder => "decoder.video()"@,
            CodecError::SendPacket => "send_packet"@,
            CodecError::ReceiveFrame => "receive_frame"@,
            CodecError::OpenDecodeScaler => "sws YUV420P->BGRA"@,
            CodecError::DecodeScale => "sws_scale YUV420P->BGRA"@,
        }
    }

    /// The text shown to the user.
    pub fn message(&self) -> (text: String)
        ensures
            text@ == self.text(),
    {
        match *self {
            CodecError::Init => "ffmpeg::init()".to_owned(),
            CodecError::FindEncoder =>
                "libx264 nao encontrado — ffmpeg compilado com --enable-libx264?".to_owned(),
            CodecError::MakeEncoder => "encoder::video()".to_owned(),
            CodecError::OpenEncoder => "abrir encoder H264".to_owned(),
            CodecError::OpenEncodeScaler => "sws BGRA->YUV420P".to_owned(),
            CodecError::EncodeScale => "sws_scale BGRA->YUV420P".to_owned(),
            CodecError::SendFrame => "send_frame".to_owned(),
            CodecError::ReceivePacket => "receive_packet".to_owned(),
            CodecError::FindDecoder => "decoder H264 nao encontrado".to_owned(),
            CodecError::MakeDecoder => "decoder.video()".to_owned(),
            CodecError::SendPacket => "send_packet".to_owned(),
            CodecError::ReceiveFrame => "receive_frame".to_owned(),
            CodecError::OpenDecodeScaler => "sws YUV420P->BGRA".to_owned(),
            CodecError::DecodeScale => "sws_scale YUV420P->BGRA".to_owned(),
        }
    }
}

/// A step of setting up an encoder.
#[derive(Clone, Copy, Debug, PartialEq, Eq, Structural)]
pub enum EncoderStep {
    /// Start the library.
    Init,
    /// Find an H.264 encoder.
    Find,
    /// Make an encoder.
    Make,
    /// Open the encoder with its settings.
    Open,
    /// Set up the conversion of frames.
    OpenScaler,
}

impl EncoderStep {
    /// What a failure of this step is.
    pub open spec fn failure(self) -> CodecError {
        match self {
            EncoderStep::Init => CodecError::Init,
            EncoderStep::Find => CodecError::FindEncoder,
            EncoderStep::Make => CodecError::MakeEncoder,
            EncoderStep::Open => CodecError::OpenEncoder,
            EncoderStep::OpenScaler => CodecError::OpenEncodeScaler,
        }
    }

    /// The step after this one, if there is one.
    pub open spec fn following(self) -> Option<EncoderStep> {
        match self {
            EncoderStep::Init => Some(EncoderStep::Find),
            EncoderStep::Find => Some(EncoderStep::Make),
            EncoderStep::Make => Some(EncoderStep::Open),
            EncoderStep::Open => Some(EncoderStep::OpenScaler),
            EncoderStep::OpenScaler => None,
        }
    }

    /// Whether this step was done decides what comes next: another step, none if
    /// the encoder is set up, or the end with an error.
    pub fn after(self, done: bool) -> (next: Result<Option<EncoderStep>, CodecError>)
        ensures
            next == if done {
                Ok::<Option<EncoderStep>, CodecError>(self.following())
            } else {
                Err(self.failure())
            },
    {
        if done {
            match self {
                EncoderStep::Init => Ok(Some(EncoderStep::Find)),
                EncoderStep::Find => Ok(Some(EncoderStep::Make)),
                EncoderStep::Make => Ok(Some(EncoderStep::Open)),
                EncoderStep::Open => Ok(Some(EncoderStep::OpenScaler)),
                EncoderStep::OpenScaler => Ok(None),
            }
        } else {
            match self {
                EncoderStep::Init => Err(CodecError::Init),
                EncoderStep::Find => Err(CodecError::FindEncoder),
                EncoderStep::Make => Err(CodecError::MakeEncoder),
                EncoderStep::Open => Err(CodecError::OpenEncoder),
                EncoderStep::OpenScaler => Err(CodecError::OpenEncodeScaler),
            }
        }
    }
}

/// A step of setting up a decoder.
#[derive(Clone, Copy, Debug, PartialEq, Eq, Structural)]
pub enum DecoderStep {
    /// Start the library.
    Init,
    /// Find an H.264 decoder.
    Find,
    /// Make a decoder.
    Make,
}

impl DecoderStep {
    /// What a failure of this step is.
    pub open spec fn failure(self) -> CodecError {
        match self {
            DecoderStep::Init => CodecError::Init,
            DecoderStep::Find => CodecError::FindDecoder,
            DecoderStep::Make => CodecError::MakeDecoder,
        }
    }

    /// The step after this one, if there is one.
    pub open spec fn following(self) -> Option<DecoderStep> {
        match self {
            DecoderStep::Init => Some(DecoderStep::Find),
            DecoderStep::Find => Some(DecoderStep::Make),
            DecoderStep::Make => None,
        }
    }

    /// Whether this step was done decides what comes next: another step, none if
    /// the decoder is set up, or the end with an error.
    pub fn after(self, done: bool) -> (next: Result<Option<DecoderStep>, CodecError>)
        ensures
            next == if done {
                Ok::<Option<DecoderStep>, CodecError>(self.following())
            } else {
                Err(self.failure())
            },
    {
        if done {
            match self {
                DecoderStep::Init => Ok(Some(DecoderStep::Find)),
                DecoderStep::Find => Ok(Some(DecoderStep::Make)),
                DecoderStep::Make => Ok(None),
            }
        } else {
            match self {
                DecoderStep::Init => Err(CodecError::Init),
                DecoderStep::Find => Err(CodecError::FindDecoder),
                DecoderStep::Make => Err(CodecError::MakeDecoder),
            }
        }
    }
}

/// How the pixels of a picture are laid out.
#[derive(Clone, Copy, Debug, PartialEq, Eq, Structural)]
pub enum PixelFormat {
    /// Four bytes a pixel: blue, green, red, alpha.
    Bgra,
    /// Three planes: brightness, and colour at half the resolution.
    Yuv420p,
}

/// A conversion between two layouts at one size.  It interpolates linearly.
#[derive(Clone, Copy, Debug, PartialEq, Eq, Structural)]
pub struct Conversion {
    pub from: PixelFormat,
    pub to: PixelFormat,
    pub width: u32,
    pub height: u32,
}

/// The most frames from one keyframe to the next.
pub const KEYFRAME_DISTANCE: u32 = 60;

/// What an encoder is set up with.
pub struct EncoderSettings {
    pub width: u32,
    pub height: u32,
    pub format: PixelFormat,
    /// Presentation times count seconds divided by this.
    pub ticks_per_second: i32,
    /// The most frames from one keyframe to the next.
    pub gop: u32,
    /// The most frames in a row that depend on later ones.
    pub max_b_frames: usize,
    /// The options that the encoder is opened with, as names and values.
    pub options: Vec<(String, String)>,
    /// The conversion of each frame before it is encoded.
    pub conversion: Conversion,
}

/// The conversion of captured frames for the encoder.
pub open spec fn encode_conversion(width: u32, height: u32) -> Conversion {
    Conversion { from: PixelFormat::Bgra, to: PixelFormat::Yuv420p, width, height }
}

/// The conversion of decoded frames for display.
pub open spec fn decode_conversion(width: u32, height: u32) -> Conversion {
    Conversion { from: PixelFormat::Yuv420p, to: PixelFormat::Bgra, width, height }
}

/// What an answer of the codec library comes to.
pub enum Answer<T> {
    /// This.
    Ready(T),
    /// Nothing yet.
    Again,
    /// Nothing any more.
    EndOfStream,
    /// A failure.
    Failed,
}

/// Tells "nothing yet" from a failure, by the system's error number and the number
/// that stands for "try again".
pub fn error_answer<T>(errno: i32, try_again: i32) -> (answer: Answer<T>)
    ensures
        answer == if errno == try_again {
            Answer::<T>::Again
        } else {
            Answer::<T>::Failed
        },
{
    if errno == try_again {
        Answer::Again
    } else {
        Answer::Failed
    }
}

/// An encoder's own state: the time of the next frame.
pub struct Encoder {
    pts: i64,
}

/// A frame on its way through the encoder.
pub struct EncodeJob {
    /// The presentation time of the frame, before and after conversion.
    pub pts: i64,
    /// The size of the frame, before and after conversion.
    pub width: u32,
    pub height: u32,
    /// What to fill the codec library's buffer with.
    pub plane: Vec<u8>,
}

/// A packet as the codec library gives it.
pub struct CodecPacket {
    /// Its bytes; it may have none.
    pub data: Option<Vec<u8>>,
    /// Whether a decoder can start here.
    pub keyframe: bool,
}

/// How far a frame came in the encoder.
pub enum EncodeOutcome {
    /// It could not be converted.
    ScaleFailed,
    /// The encoder did not take it.
    SendFailed,
    /// The encoder took it, and answered this.
    Answered(Answer<CodecPacket>),
}

impl Encoder {
    /// The presentation time of the next frame.
    pub closed spec fn next_pts(&self) -> i64 {
        self.pts
    }

    /// An encoder for frames of this size that has encoded none, and what to set
    /// up the codec library with: as fast as possible, no frame held back for
    /// later ones, and a keyframe at least every sixty frames.
    pub fn new(width: u32, height: u32) -> (made: (Encoder, EncoderSettings))
        ensures
            made.0.next_pts() == 0,
            made.1.width == width,
            made.1.height == height,
            made.1.format == PixelFormat::Yuv420p,
            made.1.ticks_per_second == 1000,
            made.1.gop == 60,
            made.1.max_b_frames == 0,
            made.1.options@.len() == 2,
            made.1.options@[0].0@ == "preset"@,
            made.1.options@[0].1@ == "ultrafast"@,
            made.1.options@[1].0@ == "tune"@,
            made.1.options@[1].1@ == "zerolatency"@,
            made.1.conversion == encode_conversion(width, height),
            made.1.conversion.from == PixelFormat::Bgra,
            made.1.conversion.to == PixelFormat::Yuv420p,
            made.1.conversion.width == width,
            made.1.conversion.height == height,
    {
        let settings = EncoderSettings {
            width,
            height,
            format: PixelFormat::Yuv420p,
            ticks_per_second: 1000,
            gop: KEYFRAME_DISTANCE,
            max_b_frames: 0,
            options: vec![
                ("preset".to_owned(), "ultrafast".to_owned()),
                ("tune".to_owned(), "zerolatency".to_owned()),
            ],
            conversion: Conversion {
                from: PixelFormat::Bgra,
                to: PixelFormat::Yuv420p,
                width,
                height,
            },
        };
        (Encoder { pts: 0 }, settings)
    }

    /// Whether a frame can be encoded: its rows, one stride apart, fit the codec
    /// library's buffer of `plane_len` bytes, and there is a presentation time left
    /// for it.
    pub fn can_encode(&self, frame: &Frame, stride: usize, plane_len: usize) -> (possible: bool)
        ensures
            possible == (frame.well_formed() && frame.fits(stride, plane_len) && self.next_pts()
                < i64::MAX),
    {
        frame.can_be_placed(stride, plane_len) && self.pts < i64::MAX
    }

    /// Starts encoding a frame: gives it the next presentation time, and lays out
    /// its rows for the codec library's buffer, which has `plane_len` bytes and keeps
    /// the starts of two rows `stride` bytes apart.
    pub fn encode(&mut self, frame: &Frame, stride: usize, plane_len: usize) -> (job: EncodeJob)
        requires
            frame.well_formed(),
            frame.fits(stride, plane_len),
            old(self).next_pts() < i64::MAX,
        ensures
            job.pts == old(self).next_pts(),
            job.width == frame.width,
            job.height == frame.height,
            job.plane@ == frame.placed(stride, plane_len),
            job.plane@.len() == plane_len,
            final(self).next_pts() == old(self).next_pts() + 1,
    {
        let pts: i64 = self.pts;
        self.pts = self.pts + 1;
        let plane = frame.place(stride, plane_len);
        EncodeJob { pts, width: frame.width, height: frame.height, plane }
    }
}

/// What comes of a frame: NAL units, nothing as long as the encoder has none to
/// give, or what failed.
pub open spec fn encode_result(
    outcome: EncodeOutcome,
    encoded: Result<Option<EncodedFrame>, CodecError>,
) -> bool {
    match outcome {
        EncodeOutcome::ScaleFailed => encoded == Err::<Option<EncodedFrame>, CodecError>(
            CodecError::EncodeScale,
        ),
        EncodeOutcome::SendFailed => encoded == Err::<Option<EncodedFrame>, CodecError>(
            CodecError::SendFrame,
        ),
        EncodeOutcome::Answered(Answer::Ready(packet)) => {
            &&& encoded matches Ok(Some(frame))
            &&& frame.keyframe == packet.keyframe
            &&& match packet.data {
                Some(bytes) => frame.payload == bytes,
                None => frame.payload@.len() == 0,
            }
        },
        EncodeOutcome::Answered(Answer::Failed) => encoded == Err::<
            Option<EncodedFrame>,
            CodecError,
        >(CodecError::ReceivePacket),
        EncodeOutcome::Answered(_) => encoded == Ok::<Option<EncodedFrame>, CodecError>(None),
    }
}

impl EncodeJob {
    /// What comes of a frame: NAL units, nothing as long as the encoder has none to
    /// give, or what failed.
    pub fn finish(self, outcome: EncodeOutcome) -> (encoded: Result<
        Option<EncodedFrame>,
        CodecError,
    >)
        ensures
            encode_result(outcome, encoded),
            outcome matches EncodeOutcome::Answered(Answer::Ready(packet)) ==> (
            encoded matches Ok(Some(frame)) && frame.keyframe == packet.keyframe && (
            packet.data matches Some(bytes) ==> frame.payload@ == bytes@)),
    {
        match outcome {
            EncodeOutcome::ScaleFailed => Err(CodecError::EncodeScale),
            EncodeOutcome::SendFailed => Err(CodecError::SendFrame),
            EncodeOutcome::Answered(answer) => match answer {
                Answer::Ready(packet) => {
                    let payload = match packet.data {
                        Some(bytes) => bytes,
                        None => Vec::new(),
                    };
                    Ok(Some(EncodedFrame { payload, keyframe: packet.keyframe }))
                },
                Answer::Again => Ok(None),
                Answer::EndOfStream => Ok(None),
                Answer::Failed => Err(CodecError::ReceivePacket),
            },
        }
    }
}

/// How far a packet has come in the decoder.
#[derive(Clone, Copy, Debug, PartialEq, Eq, Structural)]
pub enum DecodeStage {
    /// No packet is being decoded; the next one is handed over.
    Submitting,
    /// A frame is taken from the decoder.
    Fetching,
    /// The conversion for frames of this size is set up.
    Opening { width: u32, height: u32 },
    /// A frame of this size is converted.
    Converting { width: u32, height: u32 },
}

/// What happened to a packet in the decoder.
pub enum DecodeEvent {
    /// It was handed over, or not taken.
    Submitted(bool),
    /// The decoder answered this: the size of a frame.
    Fetched(Answer<(u32, u32)>),
    /// The conversion was set up, or not.
    Opened(bool),
    /// The frame was converted, or not.
    Converted(Option<RawImage>),
}

/// What to do next with a packet in the decoder.
pub enum DecodeAction {
    /// Take a frame from the decoder.
    Fetch,
    /// Set up this conversion.
    Open(Conversion),
    /// Convert the frame, with the conversion that is set up.
    Convert,
    /// Nothing more: this came of the packet.
    Finish(Result<Option<Frame>, CodecError>),
}

/// A decoder's own state.
pub struct DecoderState {
    /// How far the packet at hand has come.
    pub stage: DecodeStage,
    /// The size for which a conversion is set up.
    pub scaler: Option<(u32, u32)>,
}

/// Whether an event is one that a decoder waits for.  A converted frame has the
/// size that was asked for, and holds all its rows.
pub open spec fn decoder_expects(stage: DecodeStage, event: DecodeEvent) -> bool {
    match (stage, event) {
        (DecodeStage::Submitting, DecodeEvent::Submitted(_)) => true,
        (DecodeStage::Fetching, DecodeEvent::Fetched(_)) => true,
        (DecodeStage::Opening { .. }, DecodeEvent::Opened(_)) => true,
        (DecodeStage::Converting { width, height }, DecodeEvent::Converted(image)) =>
            image matches Some(raw) ==> raw.width == width && raw.height == height
                && raw.readable(),
        _ => false,
    }
}

/// A decoder for which nothing more is to be done with the packet at hand.
pub open spec fn idle(scaler: Option<(u32, u32)>) -> DecoderState {
    DecoderState { stage: DecodeStage::Submitting, scaler }
}

/// What an event leads to: the decoder's state after it, and what to do next.
pub open spec fn decoder_next(
    before: DecoderState,
    event: DecodeEvent,
    after: DecoderState,
    action: DecodeAction,
) -> bool {
    match (before.stage, event) {
        (DecodeStage::Submitting, DecodeEvent::Submitted(true)) => {
            &&& after == (DecoderState { stage: DecodeStage::Fetching, scaler: before.scaler })
            &&& action is Fetch
        },
        (DecodeStage::Submitting, _) => {
            &&& after == idle(before.scaler)
            &&& action == DecodeAction::Finish(Err(CodecError::SendPacket))
        },
        (DecodeStage::Fetching, DecodeEvent::Fetched(Answer::Ready(size))) =>
            if before.scaler is None {
                &&& after == (DecoderState {
                    stage: DecodeStage::Opening { width: size.0, height: size.1 },
                    scaler: None,
                })
                &&& action == DecodeAction::Open(decode_conversion(size.0, size.1))
            } else if before.scaler == Some(size) {
                &&& after == (DecoderState {
                    stage: DecodeStage::Converting { width: size.0, height: size.1 },
                    scaler: before.scaler,
                })
                &&& action is Convert
            } else {
                &&& after == idle(before.scaler)
                &&& action == DecodeAction::Finish(Err(CodecError::DecodeScale))
            },
        (DecodeStage::Fetching, DecodeEvent::Fetched(Answer::Failed)) => {
            &&& after == idle(before.scaler)
            &&& action == DecodeAction::Finish(Err(CodecError::ReceiveFrame))
        },
        (DecodeStage::Fetching, _) => {
            &&& after == idle(before.scaler)
            &&& action == DecodeAction::Finish(Ok(None))
        },
        (DecodeStage::Opening { width, height }, DecodeEvent::Opened(true)) => {
            &&& after == (DecoderState {
                stage: DecodeStage::Converting { width, height },
                scaler: Some((width, height)),
            })
            &&& action is Convert
        },
        (DecodeStage::Opening { .. }, _) => {
            &&& after == idle(None)
            &&& action == DecodeAction::Finish(Err(CodecError::OpenDecodeScaler))
        },
        (DecodeStage::Converting { width, height }, DecodeEvent::Converted(Some(raw))) => {
            &&& after == idle(before.scaler)
            &&& action matches DecodeAction::Finish(Ok(Some(frame)))
            &&& frame_of(frame, raw)
            &&& frame.width == width
            &&& frame.height == height
        },
        (DecodeStage::Converting { .. }, _) => {
            &&& after == idle(before.scaler)
            &&& action == DecodeAction::Finish(Err(CodecError::DecodeScale))
        },
    }
}

/// The decoder of packets.
pub struct Decoder {
    stage: DecodeStage,
    scaler: Option<(u32, u32)>,
}

impl View for Decoder {
    type V = DecoderState;

    closed spec fn view(&self) -> DecoderState {
        DecoderState { stage: self.stage, scaler: self.scaler }
    }
}

impl DecoderState {
    /// A conversion is being set up only where there is none, and a frame is
    /// converted only where there is one for its size.
    pub open spec fn well_formed(&self) -> bool {
        match self.stage {
            DecodeStage::Opening { .. } => self.scaler is None,
            DecodeStage::Converting { width, height } => self.scaler == Some((width, height)),
            _ => true,
        }
    }
}

impl Decoder {
    /// A decoder that has decoded nothing.
    pub fn new() -> (decoder: Decoder)
        ensures
            decoder@ == idle(None),
            decoder@.well_formed(),
    {
        Decoder { stage: DecodeStage::Submitting, scaler: None }
    }

    /// Whether the decoder waits for this event.
    pub fn expects(&self, event: &DecodeEvent) -> (expected: bool)
        ensures
            expected == decoder_expects(self@.stage, *event),
    {
        match self.stage {
            DecodeStage::Submitting => matches!(event, DecodeEvent::Submitted(_)),
            DecodeStage::Fetching => matches!(event, DecodeEvent::Fetched(_)),
            DecodeStage::Opening { width: _, height: _ } => matches!(event, DecodeEvent::Opened(_)),
            DecodeStage::Converting { width, height } => match event {
                DecodeEvent::Converted(Some(raw)) => raw.width == width as usize && raw.height
                    == height as usize && raw.is_readable(),
                DecodeEvent::Converted(None) => true,
                _ => false,
            },
        }
    }

    /// Takes what happened to the packet at hand, and says what to do next.  A frame
    /// that comes of it has the decoder's size and no padding after its rows; there
    /// is none as long as the decoder has none to give.  A frame of another size than
    /// the first one is refused.
    pub fn decode(&mut self, event: DecodeEvent) -> (action: DecodeAction)
        requires
            old(self)@.well_formed(),
            decoder_expects(old(self)@.stage, event),
        ensures
            final(self)@.well_formed(),
            decoder_next(old(self)@, event, final(self)@, action),
    {
        let stage = self.stage;
        self.stage = DecodeStage::Submitting;
        match event {
            DecodeEvent::Submitted(taken) => if taken {
                self.stage = DecodeStage::Fetching;
                DecodeAction::Fetch
            } else {
                DecodeAction::Finish(Err(CodecError::SendPacket))
            },
            DecodeEvent::Fetched(answer) => match answer {
                Answer::Ready((width, height)) => match self.scaler {
                    None => {
                        self.stage = DecodeStage::Opening { width, height };
                        DecodeAction::Open(
                            Conversion {
                                from: PixelFormat::Yuv420p,
                                to: PixelFormat::Bgra,
                                width,
                                height,
                            },
                        )
                    },
                    Some((known_width, known_height)) => if width == known_width && height
                        == known_height {
                        self.stage = DecodeStage::Converting { width, height };
                        DecodeAction::Convert
                    } else {
                        DecodeAction::Finish(Err(CodecError::DecodeScale))
                    },
                },
                Answer::Again => DecodeAction::Finish(Ok(None)),
                Answer::EndOfStream => DecodeAction::Finish(Ok(None)),
                Answer::Failed => DecodeAction::Finish(Err(CodecError::ReceiveFrame)),
            },
            DecodeEvent::Opened(opened) => {
                if opened {
                    if let DecodeStage::Opening { width, height } = stage {
                        self.scaler = Some((width, height));
                        self.stage = DecodeStage::Converting { width, height };
                    }
                    DecodeAction::Convert
                } else {
                    DecodeAction::Finish(Err(CodecError::OpenDecodeScaler))
                }
            },
            DecodeEvent::Converted(image) => match image {
                Some(raw) => DecodeAction::Finish(Ok(Some(raw.into_frame()))),
                None => DecodeAction::Finish(Err(CodecError::DecodeScale)),
            },
        }
    }
}

/// The conversion is set up once, for the size of the first frame, and kept.
pub proof fn lemma_conversion_kept(
    before: DecoderState,
    event: DecodeEvent,
    after: DecoderState,
    action: DecodeAction,
)
    requires
        before.well_formed(),
        decoder_next(before, event, after, action),
        before.scaler is Some,
    ensures
        after.scaler == before.scaler,
        !(action is Open),
{
}

/// A packet is finished exactly when the decoder is idle again: no frame is left
/// over from it, and none is given twice.
pub proof fn lemma_finished_when_idle(
    before: DecoderState,
    event: DecodeEvent,
    after: DecoderState,
    action: DecodeAction,
)
    requires
        decoder_next(before, event, after, action),
    ensures
        action is Finish <==> after.stage == DecodeStage::Submitting,
{
}

/// Whether `states` is what one decoder is from event to event, fresh at first, and
/// `actions` what it answers.
pub open spec fn decodes_in_turn(
    states: Seq<DecoderState>,
    events: Seq<DecodeEvent>,
    actions: Seq<DecodeAction>,
) -> bool {
    &&& states.len() == events.len() + 1
    &&& actions.len() == events.len()
    &&& states[0] == idle(None)
    &&& forall|i: int|
        #![trigger events[i]]
        0 <= i < events.len() ==> decoder_expects(states[i].stage, events[i]) && decoder_next(
            states[i],
            events[i],
            states[i + 1],
            actions[i],
        )
}

/// A decoder is well-formed throughout, keeps the size it once has, and has given
/// frames of no other size.
proof fn lemma_size_kept(
    states: Seq<DecoderState>,
    events: Seq<DecodeEvent>,
    actions: Seq<DecodeAction>,
    i: int,
    end: int,
)
    requires
        decodes_in_turn(states, events, actions),
        0 <= i <= end <= events.len(),
    ensures
        states[end].well_formed(),
        states[i].scaler is Some ==> states[end].scaler == states[i].scaler,
        i < end ==> (actions[i] matches DecodeAction::Finish(Ok(Some(frame))) ==> states[end].scaler
            == Some((frame.width, frame.height))),
    decreases end,
{
    if end > 0 {
        if i < end {
            lemma_size_kept(states, events, actions, i, end - 1);
        } else {
            lemma_size_kept(states, events, actions, i - 1, end - 1);
        }
        let event = events[end - 1];
        assert(decoder_next(states[end - 1], event, states[end], actions[end - 1]));
    }
}

/// All frames that one decoder ever gives have the same size.
pub proof fn lemma_frames_have_one_size(
    states: Seq<DecoderState>,
    events: Seq<DecodeEvent>,
    actions: Seq<DecodeAction>,
    i: int,
    j: int,
    first: Frame,
    second: Frame,
)
    requires
        decodes_in_turn(states, events, actions),
        0 <= i < actions.len(),
        0 <= j < actions.len(),
        actions[i] == DecodeAction::Finish(Ok(Some(first))),
        actions[j] == DecodeAction::Finish(Ok(Some(second))),
    ensures
        first.width == second.width,
        first.height == second.height,
{
    let end = events.len() as int;
    lemma_size_kept(states, events, actions, i, end);
    lemma_size_kept(states, events, actions, j, end);
}

/// After a decoder has its size, a picture of another size gives an error and no
/// frame.
pub proof fn lemma_other_size_refused(
    before: DecoderState,
    width: u32,
    height: u32,
    after: DecoderState,
    action: DecodeAction,
)
    requires
        before.stage == DecodeStage::Fetching,
        before.scaler is Some,
        before.scaler != Some((width, height)),
        decoder_next(
            before,
            DecodeEvent::Fetched(Answer::Ready((width, height))),
            after,
            action,
        ),
    ensures
        action == DecodeAction::Finish(Err(CodecError::DecodeScale)),
        after == idle(before.scaler),
{
}

/// When the codec library gives a packet with bytes, the encoded frame carries exactly
/// those bytes, all of them and in their order, and the packet's own flag.
pub proof fn lemma_packet_becomes_payload(
    packet: CodecPacket,
    bytes: Vec<u8>,
    encoded: Result<Option<EncodedFrame>, CodecError>,
)
    requires
        packet.data == Some(bytes),
        encode_result(EncodeOutcome::Answered(Answer::Ready(packet)), encoded),
    ensures
        encoded matches Ok(Some(frame)) && {
            &&& frame.payload@.len() == bytes@.len()
            &&& forall|i: int| 0 <= i < bytes@.len() ==> frame.payload@[i] == bytes@[i]
            &&& frame.keyframe == packet.keyframe
        },
{
}

/// A packet without bytes makes an encoded frame without bytes, with the packet's own
/// flag; without a packet there is no frame, and a failure is no frame either.
pub proof fn lemma_no_packet_no_payload(
    outcome: EncodeOutcome,
    encoded: Result<Option<EncodedFrame>, CodecError>,
)
    requires
        encode_result(outcome, encoded),
    ensures
        outcome matches EncodeOutcome::Answered(Answer::Ready(packet)) ==> packet.data is None
            ==> (encoded matches Ok(Some(frame)) && frame.payload@ == Seq::<u8>::empty()
            && frame.keyframe == packet.keyframe),
        encoded is Err <==> (outcome is ScaleFailed || outcome is SendFailed || outcome
            == EncodeOutcome::Answered(Answer::Failed)),
        encoded == Ok::<Option<EncodedFrame>, CodecError>(None) <==> (outcome
            == EncodeOutcome::Answered(Answer::Again) || outcome == EncodeOutcome::Answered(
            Answer::EndOfStream,
        )),
{
    if let EncodeOutcome::Answered(Answer::Ready(packet)) = outcome {
        if packet.data is None {
            assert(encoded->Ok_0->Some_0.payload@ =~= Seq::<u8>::empty());
        }
    }
}

/// The frame that a decoder finishes with shows the converted picture: it has the size
/// that was decoded, and the byte at each row and column of it is the byte at that row
/// and column of the picture.
pub proof fn lemma_decoded_pixels(
    before: DecoderState,
    width: u32,
    height: u32,
    raw: RawImage,
    after: DecoderState,
    action: DecodeAction,
)
    requires
        before.stage == (DecodeStage::Converting { width, height }),
        decoder_expects(before.stage, DecodeEvent::Converted(Some(raw))),
        decoder_next(before, DecodeEvent::Converted(Some(raw)), after, action),
    ensures
        action matches DecodeAction::Finish(Ok(Some(frame))) && {
            &&& frame.width == width
            &&& frame.height == height
            &&& frame.data@.len() == width * 4 * height
            &&& forall|row: int, column: int|
                #![trigger raw.data@[row * raw.bytes_per_row + column]]
                0 <= row < height && 0 <= column < width * 4 ==> frame.data@[row * (width * 4)
                    + column] == raw.data@[row * raw.bytes_per_row + column]
        },
{
    let frame = action->Finish_0->Ok_0->Some_0;
    lemma_frame_size(frame, raw);
    assert forall|row: int, column: int|
        #![trigger raw.data@[row * raw.bytes_per_row + column]]
        0 <= row < height && 0 <= column < width * 4 implies frame.data@[row * (width * 4) + column]
        == raw.data@[row * raw.bytes_per_row + column] by {
        lemma_pixels_kept(frame, raw, row, column);
    }
}

/// Every picture of the right size that holds its rows is taken from the converter.
pub proof fn lemma_picture_taken(width: u32, height: u32, raw: RawImage)
    requires
        raw.width == width,
        raw.height == height,
        width * 4 <= u32::MAX,
        width * 4 * height <= isize::MAX,
        width * 4 <= raw.bytes_per_row,
        raw.bytes_per_row * height <= raw.data@.len(),
    ensures
        decoder_expects(
            DecodeStage::Converting { width, height },
            DecodeEvent::Converted(Some(raw)),
        ),
{
    lemma_whole_rows_readable(raw);
}

/// The first picture has a conversion set up at its own size, from what the decoder
/// gives to what is shown; it and every later picture of that size are converted.
pub proof fn lemma_picture_converted(
    before: DecoderState,
    width: u32,
    height: u32,
    after: DecoderState,
    action: DecodeAction,
)
    ensures
        before == (DecoderState { stage: DecodeStage::Fetching, scaler: None }) && decoder_next(
            before,
            DecodeEvent::Fetched(Answer::Ready((width, height))),
            after,
            action,
        ) ==> action == DecodeAction::Open(
            Conversion {
                from: PixelFormat::Yuv420p,
                to: PixelFormat::Bgra,
                width: width,
                height: height,
            },
        ) && after.stage == (DecodeStage::Opening { width, height }),
        before.stage == (DecodeStage::Opening { width, height }) && decoder_next(
            before,
            DecodeEvent::Opened(true),
            after,
            action,
        ) ==> action is Convert && after.stage == (DecodeStage::Converting { width, height })
            && after.scaler == Some((width, height)),
        before == (DecoderState { stage: DecodeStage::Fetching, scaler: Some((width, height)) })
            && decoder_next(
            before,
            DecodeEvent::Fetched(Answer::Ready((width, height))),
            after,
            action,
        ) ==> action is Convert && after.stage == (DecodeStage::Converting { width, height }),
{
}

/// A decoder that has nothing to give gives no frame and no error, and one that fails
/// says at what.
pub proof fn lemma_decoder_failures(
    before: DecoderState,
    event: DecodeEvent,
    after: DecoderState,
    action: DecodeAction,
)
    requires
        decoder_expects(before.stage, event),
        decoder_next(before, event, after, action),
    ensures
        event == DecodeEvent::Submitted(true) ==> action is Fetch && after.stage
            == DecodeStage::Fetching,
        event == DecodeEvent::Submitted(false) ==> action == DecodeAction::Finish(
            Err(CodecError::SendPacket),
        ),
        event == DecodeEvent::Fetched(Answer::Again) || event == DecodeEvent::Fetched(
            Answer::EndOfStream,
        ) ==> action == DecodeAction::Finish(Ok(None)),
        event == DecodeEvent::Fetched(Answer::Failed) ==> action == DecodeAction::Finish(
            Err(CodecError::ReceiveFrame),
        ),
        event == DecodeEvent::Opened(false) ==> action == DecodeAction::Finish(
            Err(CodecError::OpenDecodeScaler),
        ),
        event == DecodeEvent::Converted(None) ==> action == DecodeAction::Finish(
            Err(CodecError::DecodeScale),
        ),
{
}

/// What is converted for the encoder is what the decoder's side converts back: the same
/// two layouts the other way round, both at the size of the frame.
pub proof fn lemma_conversions_are_inverse(width: u32, height: u32)
    ensures
        encode_conversion(width, height).from == decode_conversion(width, height).to,
        encode_conversion(width, height).to == decode_conversion(width, height).from,
        encode_conversion(width, height).from == PixelFormat::Bgra,
        encode_conversion(width, height).to == PixelFormat::Yuv420p,
        encode_conversion(width, height).width == width == decode_conversion(width, height).width,
        encode_conversion(width, height).height == height == decode_conversion(
            width,
            height,
        ).height,
{
}

} // verus!
