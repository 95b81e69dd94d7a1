//! Frames of the screen.

use vstd::arithmetic::div_mod::{lemma_fundamental_div_mod, lemma_fundamental_div_mod_converse};
use vstd::prelude::*;
use vstd::slice::slice_subrange;

verus! {

/// A picture of the screen.
pub struct Frame {
    /// Pixels row by row, four bytes each (blue, green, red, alpha), with nothing
    /// between the rows.
    pub data: Vec<u8>,
    /// Pixels in a row.
    pub width: u32,
    /// Rows.
    pub height: u32,
}

impl Frame {
    /// The data has exactly four bytes for each pixel.
    pub open spec fn well_formed(&self) -> bool {
        self.data@.len() == self.width * 4 * self.height
    }
}

/// An image as the operating system hands it out: its rows may be followed by
/// padding.
pub struct RawImage {
    /// Pixels in a row.
    pub width: usize,
    /// Rows.
    pub height: usize,
    /// Bytes from the start of one row to the start of the next.
    pub bytes_per_row: usize,
    /// The rows.
    pub data: Vec<u8>,
}

/// Why there is no frame.
#[derive(Clone, Copy, Debug, PartialEq, Eq, Structural)]
pub enum CaptureError {
    /// The system gave no image of the display.
    NoImage,
    /// There is no screen capture for this system.
    UnsupportedPlatform,
}

impl CaptureError {
    /// The text shown to the user.
    pub open spec fn text(self) -> Seq<char> {
        match self {
            CaptureError::NoImage =>
                "CGDisplay::image() retornou None — permissao de Screen Recording concedida?"@,
            CaptureError::UnsupportedPlatform => "plataforma nao suportada"@,
        }
    }

    /// The text shown to the user.
    pub fn message(&self) -> (text: String)
        ensures
            text@ == self.text(),
    {
        match *self {
            CaptureError::NoImage =>
                "CGDisplay::image() retornou None — permissao de Screen Recording concedida?".to_owned(),
            CaptureError::UnsupportedPlatform => "plataforma nao suportada".to_owned(),
        }
    }
}

/// `rows` rows of `row_bytes` bytes, the start of each `stride` bytes after the
/// start of the one before in `raw`, put together without gaps.
pub open spec fn packed_rows(raw: Seq<u8>, stride: nat, row_bytes: nat, rows: nat) -> Seq<u8> {
    Seq::new(
        row_bytes * rows,
        |i: int| raw[(i / row_bytes as int) * stride + i % row_bytes as int],
    )
}

/// Whether `raw` holds that many rows.
pub open spec fn holds_rows(raw: Seq<u8>, stride: nat, row_bytes: nat, rows: nat) -> bool {
    rows == 0 || (rows - 1) * stride + row_bytes <= raw.len()
}

impl RawImage {
    /// The width of the frame that is made of the image: its low 32 bits.
    pub open spec fn frame_width(&self) -> u32 {
        self.width as u32
    }

    /// The height of the frame that is made of the image: its low 32 bits.
    pub open spec fn frame_height(&self) -> u32 {
        self.height as u32
    }

    /// A row of pixels and the frame as a whole can be measured in bytes, and the
    /// image holds all the rows.
    pub open spec fn readable(&self) -> bool {
        &&& self.frame_width() * 4 <= u32::MAX
        &&& self.frame_width() * 4 * self.frame_height() <= isize::MAX
        &&& holds_rows(
            self.data@,
            self.bytes_per_row as nat,
            self.frame_width() as nat * 4,
            self.frame_height() as nat,
        )
    }

    /// Checks that a frame can be made of the image.
    pub fn is_readable(&self) -> (readable: bool)
        ensures
            readable == self.readable(),
    {
        let width: u32 = #[verifier::truncate]
        (self.width as u32);
        let height: u32 = #[verifier::truncate]
        (self.height as u32);
        let row_bytes: u128 = width as u128 * 4;
        if row_bytes > u32::MAX as u128 {
            return false;
        }
        assert(row_bytes * height <= u32::MAX * u32::MAX) by (nonlinear_arith)
            requires
                0 <= row_bytes <= u32::MAX,
                0 <= height <= u32::MAX,
        ;
        if row_bytes * (height as u128) > isize::MAX as u128 {
            return false;
        }
        if height == 0 {
            return true;
        }
        let skipped: u128 = height as u128 - 1;
        assert(skipped * self.bytes_per_row <= u32::MAX * u64::MAX) by (nonlinear_arith)
            requires
                0 <= skipped <= u32::MAX,
                0 <= self.bytes_per_row <= u64::MAX,
        ;
        skipped * (self.bytes_per_row as u128) + row_bytes <= self.data.len() as u128
    }
}

/// Where a byte of a row ends up, and which byte stands at a place.
proof fn lemma_packed_place(raw: Seq<u8>, stride: nat, row_bytes: nat, rows: nat, row: int, column: int)
    requires
        0 <= row < rows,
        0 <= column < row_bytes,
    ensures
        0 <= row * row_bytes + column < row_bytes * rows,
        packed_rows(raw, stride, row_bytes, rows)[row * row_bytes + column] == raw[row * stride
            + column],
{
    let i = row * row_bytes + column;
    assert(0 <= i < row_bytes * rows) by (nonlinear_arith)
        requires
            0 <= row < rows,
            0 <= column < row_bytes,
            i == row * row_bytes + column,
    ;
    lemma_fundamental_div_mod_converse(i, row_bytes as int, row, column);
}

/// One row more.
proof fn lemma_packed_push(raw: Seq<u8>, stride: nat, row_bytes: nat, rows: nat)
    requires
        holds_rows(raw, stride, row_bytes, rows + 1),
    ensures
        0 <= rows * stride,
        rows * stride + row_bytes <= raw.len(),
        packed_rows(raw, stride, row_bytes, rows + 1) == packed_rows(raw, stride, row_bytes, rows)
            + raw.subrange((rows * stride) as int, (rows * stride + row_bytes) as int),
{
    assert(0 <= rows * stride) by (nonlinear_arith);
    let longer = packed_rows(raw, stride, row_bytes, rows + 1);
    let shorter = packed_rows(raw, stride, row_bytes, rows);
    let last = raw.subrange((rows * stride) as int, (rows * stride + row_bytes) as int);
    assert(row_bytes * (rows + 1) == row_bytes * rows + row_bytes) by (nonlinear_arith);
    assert forall|i: int| 0 <= i < longer.len() implies longer[i] == (shorter + last)[i] by {
        if i >= row_bytes * rows {
            assert(row_bytes * rows == rows * row_bytes) by (nonlinear_arith);
            lemma_packed_place(
                raw,
                stride,
                row_bytes,
                rows + 1,
                rows as int,
                i - row_bytes * rows,
            );
        }
    }
    assert(longer =~= shorter + last);
}

/// An image that holds some rows holds fewer of them too.
proof fn lemma_holds_fewer(raw: Seq<u8>, stride: nat, row_bytes: nat, rows: nat, fewer: nat)
    requires
        holds_rows(raw, stride, row_bytes, rows),
        fewer <= rows,
    ensures
        holds_rows(raw, stride, row_bytes, fewer),
{
    if fewer > 0 {
        assert((fewer - 1) * stride <= (rows - 1) * stride) by (nonlinear_arith)
            requires
                fewer <= rows,
        ;
    }
}

/// Puts the rows of an image together, leaving out what is between them.
pub fn pack_rows(raw: &[u8], stride: usize, row_bytes: usize, rows: usize) -> (data: Vec<u8>)
    requires
        row_bytes * rows <= isize::MAX,
        holds_rows(raw@, stride as nat, row_bytes as nat, rows as nat),
    ensures
        data@ == packed_rows(raw@, stride as nat, row_bytes as nat, rows as nat),
{
    let mut data: Vec<u8> = Vec::with_capacity(row_bytes * rows);
    let mut row: usize = 0;
    assert(packed_rows(raw@, stride as nat, row_bytes as nat, 0) =~= Seq::<u8>::empty());
    while row < rows
        invariant
            row <= rows,
            holds_rows(raw@, stride as nat, row_bytes as nat, rows as nat),
            data@ == packed_rows(raw@, stride as nat, row_bytes as nat, row as nat),
        decreases rows - row,
    {
        proof {
            lemma_holds_fewer(
                raw@,
                stride as nat,
                row_bytes as nat,
                rows as nat,
                (row + 1) as nat,
            );
            lemma_packed_push(raw@, stride as nat, row_bytes as nat, row as nat);
            assert(raw@.len() == raw.len());
        }
        let start: usize = row * stride;
        let line = slice_subrange(raw, start, start + row_bytes);
        let ghost before = data@;
        data.extend_from_slice(line);
        assert(data@ =~= before + line@);
        row = row + 1;
    }
    data
}

/// A buffer of `len` bytes that holds `rows` rows of `row_bytes` bytes each, taken
/// from `data` in order, the start of each `stride` bytes after the start of the one
/// before.  What is between the rows is zero.
pub open spec fn spread_rows(
    data: Seq<u8>,
    stride: nat,
    row_bytes: nat,
    rows: nat,
    len: nat,
) -> Seq<u8> {
    Seq::new(
        len,
        |i: int|
            if stride > 0 && (i / stride as int) < rows && (i % stride as int) < row_bytes {
                data[(i / stride as int) * row_bytes + i % stride as int]
            } else {
                0
            },
    )
}

/// Which byte stands at a place of a row in a buffer of spread rows.
proof fn lemma_spread_place(
    data: Seq<u8>,
    stride: nat,
    row_bytes: nat,
    rows: nat,
    len: nat,
    row: int,
    column: int,
)
    requires
        row_bytes <= stride,
        rows == 0 || (rows - 1) * stride + row_bytes <= len,
        0 <= row < rows,
        0 <= column < row_bytes,
    ensures
        0 <= row * stride + column < len,
        spread_rows(data, stride, row_bytes, rows, len)[row * stride + column] == data[row
            * row_bytes + column],
{
    let i = row * stride + column;
    assert(0 <= row * stride <= (rows - 1) * stride) by (nonlinear_arith)
        requires
            0 <= row < rows,
    ;
    lemma_fundamental_div_mod_converse(i, stride as int, row, column);
}

/// What stands after a row, and after all rows, is zero.
proof fn lemma_spread_gap(
    data: Seq<u8>,
    stride: nat,
    row_bytes: nat,
    rows: nat,
    len: nat,
    row: int,
    i: int,
)
    requires
        row_bytes <= stride,
        0 <= row <= rows,
        row == 0 ==> 0 <= i,
        row > 0 ==> (row - 1) * stride + row_bytes <= i,
        row < rows ==> i < row * stride,
        i < len,
    ensures
        spread_rows(data, stride, row_bytes, rows, len)[i] == 0,
{
    if stride > 0 {
        let y = i / stride as int;
        let x = i % stride as int;
        lemma_fundamental_div_mod(i, stride as int);
        assert(stride * y == y * stride) by (nonlinear_arith);
        if y < rows && x < row_bytes {
            if y < row {
                assert(y * stride <= (row - 1) * stride) by (nonlinear_arith)
                    requires
                        y <= row - 1,
                        0 <= stride,
                ;
            } else {
                assert(row * stride <= y * stride) by (nonlinear_arith)
                    requires
                        row <= y,
                        0 <= stride,
                ;
            }
        }
    }
}

/// Adds zeros at the end of a buffer until it has `len` bytes.
fn pad_to(buffer: &mut Vec<u8>, len: usize)
    requires
        old(buffer)@.len() <= len,
    ensures
        final(buffer)@ == old(buffer)@ + Seq::new(
            (len - old(buffer)@.len()) as nat,
            |i: int| 0u8,
        ),
{
    let ghost before = buffer@;
    while buffer.len() < len
        invariant
            before.len() <= buffer@.len() <= len,
            buffer@ == before + Seq::new((buffer@.len() - before.len()) as nat, |i: int| 0u8),
        decreases len - buffer@.len(),
    {
        buffer.push(0);
        assert(buffer@ =~= before + Seq::new(
            (buffer@.len() - before.len()) as nat,
            |i: int| 0u8,
        ));
    }
}

/// Puts packed rows into a buffer of `len` bytes, one stride apart.
pub fn place_rows(data: &[u8], stride: usize, row_bytes: usize, rows: usize, len: usize) -> (buffer:
    Vec<u8>)
    requires
        data@.len() == row_bytes * rows,
        row_bytes <= stride,
        rows == 0 || (rows - 1) * stride + row_bytes <= len,
    ensures
        buffer@ == spread_rows(data@, stride as nat, row_bytes as nat, rows as nat, len as nat),
{
    let ghost whole = spread_rows(data@, stride as nat, row_bytes as nat, rows as nat, len as nat);
    let mut buffer: Vec<u8> = Vec::new();
    let mut row: usize = 0;
    assert(buffer@ =~= whole.take(0));
    while row < rows
        invariant
            data@.len() == row_bytes * rows,
            row_bytes <= stride,
            rows == 0 || (rows - 1) * stride + row_bytes <= len,
            whole == spread_rows(
                data@,
                stride as nat,
                row_bytes as nat,
                rows as nat,
                len as nat,
            ),
            row <= rows,
            buffer@.len() == if row == 0 {
                0
            } else {
                (row - 1) * stride + row_bytes
            },
            buffer@.len() <= len,
            buffer@ == whole.take(buffer@.len() as int),
        decreases rows - row,
    {
        let ghost done = buffer@;
        proof {
            assert(data@.len() == data.len());
            lemma_row_bounds(stride as int, row_bytes as int, rows as int, row as int);
            assert(row_bytes * rows == rows * row_bytes) by (nonlinear_arith);
        }
        pad_to(&mut buffer, row * stride);
        let ghost gap = buffer@;
        proof {
            assert forall|i: int| done.len() <= i < gap.len() implies gap[i] == whole[i] by {
                lemma_spread_gap(
                    data@,
                    stride as nat,
                    row_bytes as nat,
                    rows as nat,
                    len as nat,
                    row as int,
                    i,
                );
            }
            assert forall|i: int| 0 <= i < done.len() implies gap[i] == whole[i] by {
                assert(done[i] == whole.take(done.len() as int)[i]);
            }
        }
        let start: usize = row * row_bytes;
        let line = slice_subrange(data, start, start + row_bytes);
        buffer.extend_from_slice(line);
        proof {
            assert(buffer@ =~= gap + line@);
            assert forall|i: int| gap.len() <= i < buffer@.len() implies buffer@[i]
                == whole[i] by {
                lemma_spread_place(
                    data@,
                    stride as nat,
                    row_bytes as nat,
                    rows as nat,
                    len as nat,
                    row as int,
                    i - gap.len(),
                );
            }
            assert(buffer@ =~= whole.take(buffer@.len() as int));
        }
        row = row + 1;
    }
    let ghost done = buffer@;
    pad_to(&mut buffer, len);
    proof {
        assert forall|i: int| done.len() <= i < len implies buffer@[i] == whole[i] by {
            lemma_spread_gap(
                data@,
                stride as nat,
                row_bytes as nat,
                rows as nat,
                len as nat,
                rows as int,
                i,
            );
        }
        assert forall|i: int| 0 <= i < done.len() implies buffer@[i] == whole[i] by {
            assert(done[i] == whole.take(done.len() as int)[i]);
        }
        assert(buffer@ =~= whole);
    }
    buffer
}

/// Where the rows of a packed picture and of one with gaps start and end.
proof fn lemma_row_bounds(stride: int, row_bytes: int, rows: int, row: int)
    requires
        0 <= row_bytes <= stride,
        0 <= row < rows,
    ensures
        0 <= row * stride <= (rows - 1) * stride,
        row > 0 ==> (row - 1) * stride + row_bytes <= row * stride,
        0 <= row * row_bytes,
        row * row_bytes + row_bytes <= rows * row_bytes,
{
    assert(0 <= row * stride <= (rows - 1) * stride) by (nonlinear_arith)
        requires
            0 <= stride,
            0 <= row < rows,
    ;
    assert((row - 1) * stride + stride == row * stride) by (nonlinear_arith);
    assert(0 <= row * row_bytes) by (nonlinear_arith)
        requires
            0 <= row_bytes,
            0 <= row,
    ;
    assert(row * row_bytes + row_bytes <= rows * row_bytes) by (nonlinear_arith)
        requires
            0 <= row_bytes,
            row < rows,
    ;
}

impl Frame {
    /// Whether the frame's rows, one stride apart, fit a buffer of `len` bytes.
    pub open spec fn fits(&self, stride: usize, len: usize) -> bool {
        &&& self.width * 4 <= stride
        &&& self.height == 0 || (self.height - 1) * stride + self.width * 4 <= len
    }

    /// Checks that the frame has exactly four bytes for each pixel, and that its
    /// rows, one stride apart, fit a buffer of `len` bytes.
    pub fn can_be_placed(&self, stride: usize, len: usize) -> (possible: bool)
        ensures
            possible == (self.well_formed() && self.fits(stride, len)),
    {
        let row_bytes: u128 = self.width as u128 * 4;
        let skipped: u128 = if self.height == 0 {
            0
        } else {
            self.height as u128 - 1
        };
        assert(row_bytes * self.height <= (4 * u32::MAX) * u32::MAX) by (nonlinear_arith)
            requires
                0 <= row_bytes <= 4 * u32::MAX,
                0 <= self.height <= u32::MAX,
        ;
        assert(skipped * stride <= u32::MAX * u64::MAX) by (nonlinear_arith)
            requires
                0 <= skipped <= u32::MAX,
                0 <= stride <= u64::MAX,
        ;
        self.data.len() as u128 == row_bytes * (self.height as u128) && row_bytes
            <= stride as u128 && (self.height == 0 || skipped * (stride as u128) + row_bytes
            <= len as u128)
    }

    /// The frame's rows in a buffer of `len` bytes, one stride apart.
    pub open spec fn placed(&self, stride: usize, len: usize) -> Seq<u8> {
        spread_rows(
            self.data@,
            stride as nat,
            self.width as nat * 4,
            self.height as nat,
            len as nat,
        )
    }

    /// Puts the frame's rows into a buffer of `len` bytes, one stride apart.
    pub fn place(&self, stride: usize, len: usize) -> (buffer: Vec<u8>)
        requires
            self.well_formed(),
            self.fits(stride, len),
        ensures
            buffer@ == self.placed(stride, len),
    {
        let row_bytes: usize = self.width as usize * 4;
        place_rows(self.data.as_slice(), stride, row_bytes, self.height as usize, len)
    }
}

impl RawImage {
    /// The frame in an image, without the padding after its rows.
    pub fn into_frame(self) -> (frame: Frame)
        requires
            self.readable(),
        ensures
            frame_of(frame, self),
    {
        let width: u32 = #[verifier::truncate]
        (self.width as u32);
        let height: u32 = #[verifier::truncate]
        (self.height as u32);
        let row_bytes: usize = (width * 4) as usize;
        let data = pack_rows(
            self.data.as_slice(),
            self.bytes_per_row,
            row_bytes,
            height as usize,
        );
        Frame { data, width, height }
    }
}

/// The frame in an image of the display, without the padding after its rows.
///
/// Without an image there is no frame.
pub fn capture_frame(image: Option<RawImage>) -> (captured: Result<Frame, CaptureError>)
    requires
        image matches Some(raw) ==> raw.readable(),
    ensures
        match image {
            None => captured == Err::<Frame, CaptureError>(CaptureError::NoImage),
            Some(raw) => captured matches Ok(frame) && frame_of(frame, raw),
        },
{
    match image {
        None => Err(CaptureError::NoImage),
        Some(raw) => Ok(raw.into_frame()),
    }
}

/// Whether `frame` shows what `raw` shows.
pub open spec fn frame_of(frame: Frame, raw: RawImage) -> bool {
    &&& frame.width == raw.frame_width()
    &&& frame.height == raw.frame_height()
    &&& frame.data@ == packed_rows(
        raw.data@,
        raw.bytes_per_row as nat,
        frame.width as nat * 4,
        frame.height as nat,
    )
    &&& frame.well_formed()
}

/// What this system's screen capture came to.
pub enum Grab {
    /// On macOS: the image of the main display, if there is one.
    MacOs(Option<RawImage>),
    /// On Windows: a finished frame, or why there is none.
    Windows(Result<Frame, CaptureError>),
    /// There is no screen capture for this system.
    Unsupported,
}

/// Captures the screen: makes a frame of what the system gave.
pub fn capture(grab: Grab) -> (captured: Result<Frame, CaptureError>)
    requires
        grab matches Grab::MacOs(Some(raw)) ==> raw.readable(),
    ensures
        match grab {
            Grab::MacOs(None) => captured == Err::<Frame, CaptureError>(CaptureError::NoImage),
            Grab::MacOs(Some(raw)) => captured matches Ok(frame) && frame_of(frame, raw),
            Grab::Windows(frame) => captured == frame,
            Grab::Unsupported => captured == Err::<Frame, CaptureError>(
                CaptureError::UnsupportedPlatform,
            ),
        },
{
    match grab {
        Grab::MacOs(image) => capture_frame(image),
        Grab::Windows(frame) => frame,
        Grab::Unsupported => Err(CaptureError::UnsupportedPlatform),
    }
}

/// Removing the padding moves no pixel: each byte of a row stands in the frame at
/// the same row and column.
pub proof fn lemma_pixels_kept(frame: Frame, raw: RawImage, row: int, column: int)
    requires
        raw.readable(),
        frame_of(frame, raw),
        0 <= row < frame.height,
        0 <= column < frame.width * 4,
    ensures
        0 <= row * (frame.width * 4) + column < frame.data@.len(),
        frame.data@[row * (frame.width * 4) + column] == raw.data@[row * raw.bytes_per_row
            + column],
{
    lemma_packed_place(
        raw.data@,
        raw.bytes_per_row as nat,
        frame.width as nat * 4,
        frame.height as nat,
        row,
        column,
    );
}

/// An image without padding is taken as it is.
pub proof fn lemma_unpadded_kept(frame: Frame, raw: RawImage)
    requires
        raw.readable(),
        frame_of(frame, raw),
        raw.bytes_per_row == frame.width * 4,
        raw.data@.len() == frame.width * 4 * frame.height,
    ensures
        frame.data@ == raw.data@,
{
    let row_bytes = frame.width as int * 4;
    assert forall|i: int| 0 <= i < raw.data@.len() implies frame.data@[i] == raw.data@[i] by {
        if row_bytes > 0 {
            lemma_fundamental_div_mod(i, row_bytes);
            assert(row_bytes * (i / row_bytes) == (i / row_bytes) * row_bytes) by (nonlinear_arith);
        }
    }
    assert(frame.data@ =~= raw.data@);
}

/// Placing rows one stride apart moves no pixel: row `row` starts at `row * stride`
/// and holds what it holds in the frame.
pub proof fn lemma_pixels_placed(frame: Frame, stride: usize, len: usize, row: int, column: int)
    requires
        frame.fits(stride, len),
        0 <= row < frame.height,
        0 <= column < frame.width * 4,
    ensures
        0 <= row * stride + column < len,
        frame.placed(stride, len)[row * stride + column] == frame.data@[row * (frame.width * 4)
            + column],
{
    lemma_spread_place(
        frame.data@,
        stride as nat,
        frame.width as nat * 4,
        frame.height as nat,
        len as nat,
        row,
        column,
    );
}

/// Rows that were placed one stride apart are packed to the frame again.
pub proof fn lemma_placed_rows_packed(frame: Frame, stride: usize, len: usize)
    requires
        frame.well_formed(),
        frame.fits(stride, len),
    ensures
        packed_rows(
            frame.placed(stride, len),
            stride as nat,
            frame.width as nat * 4,
            frame.height as nat,
        ) == frame.data@,
{
    let row_bytes = frame.width as int * 4;
    let packed = packed_rows(
        frame.placed(stride, len),
        stride as nat,
        row_bytes as nat,
        frame.height as nat,
    );
    assert(packed.len() == frame.data@.len());
    assert forall|i: int| 0 <= i < packed.len() implies packed[i] == frame.data@[i] by {
        assert(row_bytes > 0) by (nonlinear_arith)
            requires
                0 <= i < row_bytes * frame.height,
                0 <= row_bytes,
        ;
        let row = i / row_bytes;
        let column = i % row_bytes;
        lemma_fundamental_div_mod(i, row_bytes);
        assert(row_bytes * row == row * row_bytes) by (nonlinear_arith);
        assert(0 <= row < frame.height) by (nonlinear_arith)
            requires
                0 <= i < row_bytes * frame.height,
                row_bytes > 0,
                i == row_bytes * row + column,
                0 <= column < row_bytes,
        ;
        lemma_pixels_placed(frame, stride, len, row, column);
    }
    assert(packed =~= frame.data@);
}

/// Without padding a frame is placed as it is.
pub proof fn lemma_unpadded_placed(frame: Frame, stride: usize, len: usize)
    requires
        frame.well_formed(),
        stride == frame.width * 4,
        len == frame.data@.len(),
    ensures
        frame.placed(stride, len) == frame.data@,
{
    let row_bytes = frame.width as int * 4;
    let placed = frame.placed(stride, len);
    assert forall|i: int| 0 <= i < placed.len() implies placed[i] == frame.data@[i] by {
        assert(row_bytes > 0) by (nonlinear_arith)
            requires
                0 <= i < row_bytes * frame.height,
                0 <= row_bytes,
        ;
        lemma_fundamental_div_mod(i, row_bytes);
        let row = i / row_bytes;
        assert(row_bytes * row == row * row_bytes) by (nonlinear_arith);
        assert(0 <= row < frame.height) by (nonlinear_arith)
            requires
                0 <= i < row_bytes * frame.height,
                row_bytes > 0,
                i == row_bytes * row + i % row_bytes,
                0 <= i % row_bytes < row_bytes,
        ;
    }
    assert(placed =~= frame.data@);
}

/// A frame has the size of the image it is made of, and four bytes for each pixel.
pub proof fn lemma_frame_size(frame: Frame, raw: RawImage)
    requires
        frame_of(frame, raw),
        raw.width <= u32::MAX,
        raw.height <= u32::MAX,
    ensures
        frame.width == raw.width,
        frame.height == raw.height,
        frame.data@.len() == raw.width * 4 * raw.height,
{
}

/// A frame can be made of every image that holds its rows in full, padding and all, as
/// long as its row and the whole of it can be measured.
pub proof fn lemma_whole_rows_readable(raw: RawImage)
    requires
        raw.width * 4 <= u32::MAX,
        raw.height <= u32::MAX,
        raw.width * 4 * raw.height <= isize::MAX,
        raw.width * 4 <= raw.bytes_per_row,
        raw.bytes_per_row * raw.height <= raw.data@.len(),
    ensures
        raw.readable(),
{
    let stride = raw.bytes_per_row as int;
    let rows = raw.height as int;
    assert((rows - 1) * stride + stride == stride * rows) by (nonlinear_arith);
}

/// An image of which a frame can be made holds every byte of every row.
pub proof fn lemma_readable_rows_held(raw: RawImage, row: int, column: int)
    requires
        raw.readable(),
        raw.width <= u32::MAX,
        raw.height <= u32::MAX,
        0 <= row < raw.height,
        0 <= column < raw.width * 4,
    ensures
        0 <= row * raw.bytes_per_row + column < raw.data@.len(),
{
    let stride = raw.bytes_per_row as int;
    let rows = raw.height as int;
    assert(0 <= row * stride <= (rows - 1) * stride) by (nonlinear_arith)
        requires
            0 <= stride,
            0 <= row < rows,
    ;
}

/// Packed rows are as long as the rows together, and every byte of a row stands right
/// after the one before it.
pub proof fn lemma_rows_packed(
    raw: Seq<u8>,
    stride: nat,
    row_bytes: nat,
    rows: nat,
    row: int,
    column: int,
)
    requires
        0 <= row < rows,
        0 <= column < row_bytes,
    ensures
        packed_rows(raw, stride, row_bytes, rows).len() == row_bytes * rows,
        0 <= row * row_bytes + column < row_bytes * rows,
        packed_rows(raw, stride, row_bytes, rows)[row * row_bytes + column] == raw[row * stride
            + column],
{
    lemma_packed_place(raw, stride, row_bytes, rows, row, column);
}

/// Every frame fits a buffer that has one stride for each of its rows.
pub proof fn lemma_whole_strides_fit(frame: Frame, stride: usize, len: usize)
    requires
        frame.width * 4 <= stride,
        stride * frame.height <= len,
    ensures
        frame.fits(stride, len),
{
    let rows = frame.height as int;
    assert((rows - 1) * stride + stride == stride * rows) by (nonlinear_arith);
}

/// Placed rows fill the buffer, with zeros after each row and after the last.
pub proof fn lemma_padding_is_zero(frame: Frame, stride: usize, len: usize, row: int, column: int)
    requires
        frame.fits(stride, len),
        0 <= row,
        0 <= column < stride,
        row >= frame.height || column >= frame.width * 4,
        row * stride + column < len,
    ensures
        frame.placed(stride, len).len() == len,
        frame.placed(stride, len)[row * stride + column] == 0,
{
    let i = row * stride + column;
    assert(0 <= row * stride) by (nonlinear_arith)
        requires
            0 <= row,
            0 <= stride,
    ;
    lemma_fundamental_div_mod_converse(i, stride as int, row, column);
}

} // verus!
