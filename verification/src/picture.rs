//! Pictures: taking them apart and drawing them in cells.
//!
//! A cell of the terminal is drawn as its upper half: the sign has one colour and the
//! ground another, so one line holds two rows of dots. It works wherever there are
//! colours.
use vstd::prelude::*;
use vstd::string::*;

verus! {

/// A picture: three bytes for each dot, row by row.
#[derive(Debug, PartialEq, Eq)]
pub struct Picture {
    pub width: u32,
    pub height: u32,
    pub pixels: Vec<u8>,
}

#[verifier::ext_equal]
pub struct PictureView {
    pub width: u32,
    pub height: u32,
    pub pixels: Seq<u8>,
}

impl DeepView for Picture {
    type V = PictureView;

    open spec fn deep_view(&self) -> PictureView {
        PictureView { width: self.width, height: self.height, pixels: self.pixels@ }
    }
}

impl PictureView {
    /// There are as many dots as the sides say.
    pub open spec fn wf(self) -> bool {
        self.pixels.len() == 3 * (self.width * self.height)
    }
}

impl Clone for Picture {
    fn clone(&self) -> (r: Self)
        ensures
            r.deep_view() == self.deep_view(),
    {
        let pixels = self.pixels.clone();
        assert(pixels@ =~= self.pixels@);
        Picture { width: self.width, height: self.height, pixels }
    }
}

/// The longest side of a picture. A photograph of any phone fits.
pub const MAX_SIDE: u32 = 12000;

/// The memory that one picture may take while it is taken apart.
pub const MAX_DECODED_BYTES: u64 = 268435456;

/// What came of some bytes.
pub enum Decoded {
    Picture(Picture),
    /// The format was not found out, and why.
    Unknown(String),
    /// The picture was not taken apart, and why.
    Broken(String),
}

pub enum DecodedView {
    Picture(PictureView),
    Unknown(Seq<char>),
    Broken(Seq<char>),
}

impl DeepView for Decoded {
    type V = DecodedView;

    open spec fn deep_view(&self) -> DecodedView {
        match self {
            Decoded::Picture(picture) => DecodedView::Picture(picture.deep_view()),
            Decoded::Unknown(reason) => DecodedView::Unknown(reason@),
            Decoded::Broken(reason) => DecodedView::Broken(reason@),
        }
    }
}

/// What `ImageReader::decode` of the crate image makes of some bytes, with a limit on
/// the sides and on the memory.
pub uninterp spec fn decoded(bytes: Seq<u8>, side: u32, memory: u64) -> DecodedView;

/// Calls `ImageReader::decode` of the crate image, after its format was guessed and
/// its limits were set, and turns the picture into dots of three bytes. Claimed: the
/// result depends on the bytes and the limits alone; a picture that comes back is not
/// wider or higher than allowed and has all its dots. Which bytes give a picture is
/// not said, nor that no decoder ever panics on broken ones: whoever runs it catches
/// that.
#[verifier::external_body]
fn read_picture(bytes: &Vec<u8>, side: u32, memory: u64) -> (r: Decoded)
    ensures
        r.deep_view() == decoded(bytes@, side, memory),
        r.deep_view() matches DecodedView::Picture(picture) ==> {
            &&& picture.wf()
            &&& picture.width <= side
            &&& picture.height <= side
        },
{
    let mut limits = image::Limits::default();
    limits.max_image_width = Some(side);
    limits.max_image_height = Some(side);
    limits.max_alloc = Some(memory);
    let source = image::ImageReader::new(std::io::Cursor::new(bytes.as_slice()));
    let mut reader = match source.with_guessed_format() {
        Ok(reader) => reader,
        Err(err) => return Decoded::Unknown(err.to_string()),
    };
    reader.limits(limits);
    match reader.decode().map(|image| image.to_rgb8()) {
        Ok(image) => Decoded::Picture(Picture { width: image.width(), height: image.height(), pixels: image.into_raw() }),
        Err(err) => Decoded::Broken(err.to_string()),
    }
}

/// What a person is told of some bytes, or the picture that they hold.
pub open spec fn picture_or_words(found: DecodedView) -> Result<PictureView, Seq<char>> {
    match found {
        DecodedView::Picture(picture) => Ok(picture),
        DecodedView::Unknown(reason) => Err("не удалось определить формат: "@ + reason),
        DecodedView::Broken(reason) => Err("не удалось разобрать картинку: "@ + reason),
    }
}

/// A result in the terms of its picture and its words.
pub open spec fn picture_view(r: Result<Picture, String>) -> Result<PictureView, Seq<char>> {
    match r {
        Ok(picture) => Ok(picture.deep_view()),
        Err(words) => Err(words@),
    }
}

/// What a person is told of some bytes, or the picture that they hold.
pub fn tell(found: Decoded) -> (r: Result<Picture, String>)
    ensures
        picture_view(r) == picture_or_words(found.deep_view()),
{
    match found {
        Decoded::Picture(picture) => Ok(picture),
        Decoded::Unknown(reason) => {
            let mut words = "не удалось определить формат: ".to_owned();
            words.append(reason.as_str());
            Err(words)
        },
        Decoded::Broken(reason) => {
            let mut words = "не удалось разобрать картинку: ".to_owned();
            words.append(reason.as_str());
            Err(words)
        },
    }
}

/// Takes a picture apart, within the given limits.
pub fn decode_within(bytes: &Vec<u8>, side: u32, memory: u64) -> (r: Result<Picture, String>)
    ensures
        picture_view(r) == picture_or_words(decoded(bytes@, side, memory)),
        picture_view(r) matches Ok(picture) ==> {
            &&& picture.wf()
            &&& picture.width <= side
            &&& picture.height <= side
        },
{
    tell(read_picture(bytes, side, memory))
}

/// Takes a picture apart.
///
/// A few megabytes of a file can unfold into gigabytes of dots: without limits one
/// such file would kill the client.
pub fn decode(bytes: &Vec<u8>) -> (r: Result<Picture, String>)
    ensures
        picture_view(r) == picture_or_words(decoded(bytes@, MAX_SIDE, MAX_DECODED_BYTES)),
        picture_view(r) matches Ok(picture) ==> {
            &&& picture.wf()
            &&& picture.width <= MAX_SIDE
            &&& picture.height <= MAX_SIDE
        },
{
    decode_within(bytes, MAX_SIDE, MAX_DECODED_BYTES)
}

/// The dots that `imageops::resize` of the crate image, with the triangle filter, makes
/// out of other dots.
pub uninterp spec fn resized_dots(
    pixels: Seq<u8>,
    width: u32,
    height: u32,
    to_width: u32,
    to_height: u32,
) -> Seq<u8>;

/// The longest side of a drawing, in dots: the rows of the highest terminal, twice.
pub const MAX_DRAWN: u32 = 131070;

/// Whether the dots of a drawing, and those between the picture and it, fit into memory:
/// there are four numbers of four bytes to each of the latter.
pub open spec fn drawable(picture: PictureView, width: u32, height: u32) -> bool {
    &&& width <= MAX_DRAWN
    &&& height <= MAX_DRAWN
    &&& 16 * picture.width * height <= isize::MAX
    &&& 16 * width * height <= isize::MAX
}

/// Calls `imageops::resize` of the crate image with the triangle filter, which panics
/// where the dots do not fit into memory. Claimed: the dots depend on the picture and
/// the new sides alone, and there are as many as the new sides say. Which colours they
/// have is not said.
#[verifier::external_body]
fn resize(picture: &Picture, width: u32, height: u32) -> (r: Picture)
    requires
        picture.deep_view().wf(),
        picture.width > 0,
        picture.height > 0,
        width > 0,
        height > 0,
        drawable(picture.deep_view(), width, height),
    ensures
        r.width == width,
        r.height == height,
        r.deep_view().wf(),
        r.pixels@ == resized_dots(picture.pixels@, picture.width, picture.height, width, height),
{
    let source = image::RgbImage::from_raw(picture.width, picture.height, picture.pixels.clone());
    let source = source.unwrap_or_default();
    let filter = image::imageops::FilterType::Triangle;
    let target = image::imageops::resize(&source, width, height, filter);
    Picture { width, height, pixels: target.into_raw() }
}

/// A cell: its upper and its lower half.
#[derive(Debug, Clone, Copy, PartialEq, Eq)]
pub struct HalfBlock {
    pub top: (u8, u8, u8),
    pub bottom: (u8, u8, u8),
}

impl DeepView for HalfBlock {
    type V = HalfBlock;

    open spec fn deep_view(&self) -> HalfBlock {
        *self
    }
}

/// The colour of a dot.
pub open spec fn dot(picture: PictureView, x: int, y: int) -> (u8, u8, u8) {
    let at = 3 * (y * picture.width + x);
    (picture.pixels[at], picture.pixels[at + 1], picture.pixels[at + 2])
}

/// The row under another one; the last row once more where there is none.
pub open spec fn row_below(picture: PictureView, y: int) -> int {
    if y + 1 < picture.height {
        y + 1
    } else {
        y
    }
}

/// One line of cells.
pub open spec fn cell_line(picture: PictureView, y: int) -> Seq<HalfBlock> {
    Seq::new(
        picture.width as nat,
        |x: int|
            HalfBlock {
                top: dot(picture, x, y),
                bottom: dot(picture, x, row_below(picture, y)),
            },
    )
}

/// All lines of cells: each holds two rows of dots.
pub open spec fn cell_lines(picture: PictureView) -> Seq<Seq<HalfBlock>> {
    Seq::new(((picture.height + 1) / 2) as nat, |i: int| cell_line(picture, 2 * i))
}

proof fn lemma_dot_inside(width: int, height: int, x: int, y: int)
    requires
        0 <= x < width,
        0 <= y < height,
    ensures
        0 <= y * width,
        0 <= y * width + x < width * height,
{
    assert(0 <= y * width && y * width + x < width * height) by (nonlinear_arith)
        requires
            0 <= x < width,
            0 <= y < height,
    ;
}

fn pixel(picture: &Picture, x: u32, y: u32) -> (r: (u8, u8, u8))
    requires
        picture.deep_view().wf(),
        x < picture.width,
        y < picture.height,
    ensures
        r == dot(picture.deep_view(), x as int, y as int),
{
    proof {
        lemma_dot_inside(picture.width as int, picture.height as int, x as int, y as int);
    }
    let all: usize = picture.pixels.len();
    let at: u64 = y as u64 * picture.width as u64 + x as u64;
    let at: usize = 3 * at as usize;
    (picture.pixels[at], picture.pixels[at + 1], picture.pixels[at + 2])
}

/// Turns a picture into lines of cells.
///
/// A picture of odd height has no lower half in its last line: the upper one is
/// repeated, so that there is no black stripe.
#[verifier::loop_isolation(false)]
pub fn half_blocks(picture: &Picture) -> (lines: Vec<Vec<HalfBlock>>)
    requires
        picture.deep_view().wf(),
    ensures
        lines.deep_view() == cell_lines(picture.deep_view()),
{
    let ghost view = picture.deep_view();
    let mut lines: Vec<Vec<HalfBlock>> = Vec::new();
    let mut y: u32 = 0;
    let mut left: u32 = picture.height;
    while left > 0
        invariant
            y + left == picture.height,
            y == 2 * lines@.len() || left == 0,
            lines@.len() == (y + 1) / 2,
            forall|i: int|
                0 <= i < lines@.len() ==> (#[trigger] lines@[i])@ == cell_line(view, 2 * i),
        decreases left,
    {
        let below: u32 = if left > 1 {
            y + 1
        } else {
            y
        };
        let mut line: Vec<HalfBlock> = Vec::new();
        let mut x: u32 = 0;
        while x < picture.width
            invariant
                x <= picture.width,
                line@ == cell_line(view, y as int).take(x as int),
            decreases picture.width - x,
        {
            line.push(HalfBlock { top: pixel(picture, x, y), bottom: pixel(picture, x, below) });
            x = x + 1;
            assert(line@ =~= cell_line(view, y as int).take(x as int));
        }
        assert(line@ =~= cell_line(view, y as int));
        lines.push(line);
        if left > 1 {
            y = y + 2;
            left = left - 2;
        } else {
            y = y + 1;
            left = 0;
        }
    }
    assert forall|i: int| 0 <= i < lines@.len() implies lines.deep_view()[i] == cell_lines(
        view,
    )[i] by {
        assert(lines@[i].deep_view() =~= lines@[i]@);
    }
    assert(lines.deep_view() =~= cell_lines(view));
    lines
}

/// What is drawn of a picture in the given number of dots.
pub open spec fn drawing(picture: PictureView, width: u32, height: u32) -> Seq<Seq<HalfBlock>> {
    if picture.width == 0 || picture.height == 0 || width == 0 || height == 0 {
        Seq::empty()
    } else {
        cell_lines(
            PictureView {
                width,
                height,
                pixels: resized_dots(
                    picture.pixels,
                    picture.width,
                    picture.height,
                    width,
                    height,
                ),
            },
        )
    }
}

/// Draws a picture in the given number of dots.
pub fn to_lines(picture: &Picture, width: u32, height: u32) -> (lines: Vec<Vec<HalfBlock>>)
    requires
        picture.deep_view().wf(),
        drawable(picture.deep_view(), width, height),
    ensures
        lines.deep_view() == drawing(picture.deep_view(), width, height),
{
    if picture.width == 0 || picture.height == 0 || width == 0 || height == 0 {
        let lines: Vec<Vec<HalfBlock>> = Vec::new();
        assert(lines.deep_view() =~= Seq::<Seq<HalfBlock>>::empty());
        return lines;
    }
    half_blocks(&resize(picture, width, height))
}

} // verus!
