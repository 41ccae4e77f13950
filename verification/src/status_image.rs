//! The picture of a card: its lines, its size, its pixels and its file.

use vstd::prelude::*;
use vstd::string::*;

use crate::text;
use crate::text::{chars_of, lines_of, text_of};

verus! {

/// The space left and right of the text, in pixels.
pub const HORIZONTAL_PADDING: u32 = 24;

/// The space above and below the text, in pixels.
pub const VERTICAL_PADDING: u32 = 20;

/// A colour: its red, green and blue.
#[derive(Debug, Clone, Copy, PartialEq, Eq, Structural)]
pub struct Colour {
    pub red: u8,
    pub green: u8,
    pub blue: u8,
}

/// The colour of the picture where there is no text.
pub open spec fn background() -> Colour {
    Colour { red: 13, green: 17, blue: 23 }
}

/// The byte at place `i` of a picture without text.
pub open spec fn blank_byte(i: int) -> u8 {
    if i % 4 == 0 {
        background().red
    } else if i % 4 == 1 {
        background().green
    } else if i % 4 == 2 {
        background().blue
    } else {
        255
    }
}

/// The colour of the text.
pub fn text_colour() -> (r: Colour)
    ensures
        r == (Colour { red: 224, green: 230, blue: 237 }),
{
    Colour { red: 224, green: 230, blue: 237 }
}

/// The lines of a card, or why it cannot be drawn: it has none.
pub fn card_lines(status: &str) -> (r: Result<Vec<String>, String>)
    ensures
        match r {
            Ok(rows) => text::lines(status@).len() > 0 && text::texts(rows@) == text::lines(
                status@,
            ),
            Err(error) => text::lines(status@).len() == 0 && error@
                == "cannot render an empty status card"@,
        },
{
    let rows = lines_of(chars_of(status).as_slice());
    if rows.len() == 0 {
        return Err("cannot render an empty status card".to_owned());
    }
    let mut out: Vec<String> = Vec::new();
    let mut i: usize = 0;
    while i < rows.len()
        invariant
            i <= rows.len(),
            out@.len() == i,
            forall|j: int| 0 <= j < i ==> (#[trigger] out@[j])@ == rows@[j]@,
        decreases rows.len() - i,
    {
        out.push(text_of(rows[i].as_slice()));
        i = i + 1;
    }
    assert(text::texts(out@) =~= text::views(rows@));
    Ok(out)
}

/// The width and the height of the picture of a text, both in pixels.
pub fn canvas_size(text_width: u32, text_height: u32) -> (r: (u32, u32))
    requires
        text_width + 48 <= u32::MAX,
        text_height + 40 <= u32::MAX,
    ensures
        r.0 == text_width + 2 * HORIZONTAL_PADDING,
        r.1 == text_height + 2 * VERTICAL_PADDING,
{
    (text_width + HORIZONTAL_PADDING * 2, text_height + VERTICAL_PADDING * 2)
}

/// A picture: for each pixel, row by row, its red, green, blue and opacity.
#[derive(Debug)]
pub struct Canvas {
    pub width: u32,
    pub height: u32,
    pub pixels: Vec<u8>,
}

impl Canvas {
    pub open spec fn wf(self) -> bool {
        &&& self.width > 0
        &&& self.height > 0
        &&& self.pixels@.len() == self.width * self.height * 4
    }

    /// The place of a pixel among the bytes of the picture.
    pub open spec fn place(self, x: int, y: int) -> int {
        (y * self.width + x) * 4
    }

    /// The colour of the pixel that stands at `place`.
    pub open spec fn colour_at(self, place: int) -> Colour {
        Colour {
            red: self.pixels@[place],
            green: self.pixels@[place + 1],
            blue: self.pixels@[place + 2],
        }
    }

    /// A picture without text.
    pub fn new(width: u32, height: u32) -> (r: Canvas)
        requires
            width > 0,
            height > 0,
            width * height * 4 <= usize::MAX,
        ensures
            r.wf(),
            r.width == width,
            r.height == height,
            forall|i: int| 0 <= i < r.pixels@.len() ==> #[trigger] r.pixels@[i] == blank_byte(i),
    {
        let mut pixels: Vec<u8> = Vec::new();
        let count: u64 = width as u64 * height as u64;
        assert(count == width * height);
        let mut i: u64 = 0;
        while i < count
            invariant
                i <= count,
                pixels@.len() == 4 * i,
                forall|j: int| 0 <= j < pixels@.len() ==> #[trigger] pixels@[j] == blank_byte(j),
            decreases count - i,
        {
            pixels.push(13);
            pixels.push(17);
            pixels.push(23);
            pixels.push(255);
            i = i + 1;
        }
        Canvas { width, height, pixels }
    }

    /// The place of the pixel that lies `right` and `down` from a corner, where it lies in the
    /// picture.
    pub fn locate(&self, corner_x: i32, corner_y: i32, right: u32, down: u32) -> (r: Option<usize>)
        requires
            self.wf(),
        ensures
            match r {
                Some(place) => 0 <= corner_x + right < self.width && 0 <= corner_y + down
                    < self.height && place == self.place(corner_x + right, corner_y + down) && place
                    + 3 < self.pixels@.len(),
                None => !(0 <= corner_x + right < self.width && 0 <= corner_y + down < self.height),
            },
    {
        let x: i64 = corner_x as i64 + right as i64;
        let y: i64 = corner_y as i64 + down as i64;
        if x < 0 || y < 0 || x >= self.width as i64 || y >= self.height as i64 {
            return None;
        }
        assert(self.pixels.len() <= usize::MAX);
        let width: usize = self.width as usize;
        let column: usize = x as usize;
        let row: usize = y as usize;
        proof {
            assert((row * width + column) * 4 + 4 <= self.width * self.height * 4) by (nonlinear_arith)
                requires
                    row + 1 <= self.height,
                    column + 1 <= width,
                    width == self.width,
            ;
            assert(0 <= row * width) by (nonlinear_arith);
        }
        Some((row * width + column) * 4)
    }

    /// The colour of the pixel that stands at `place`.
    pub fn colour(&self, place: usize) -> (r: Colour)
        requires
            place + 3 < self.pixels@.len(),
        ensures
            r == self.colour_at(place as int),
    {
        assert(self.pixels.len() <= usize::MAX);
        Colour {
            red: self.pixels[place],
            green: self.pixels[place + 1],
            blue: self.pixels[place + 2],
        }
    }

    /// Gives the pixel that stands at `place` another colour.
    pub fn paint(&mut self, place: usize, colour: Colour)
        requires
            old(self).wf(),
            place + 3 < old(self).pixels@.len(),
        ensures
            final(self).wf(),
            final(self).width == old(self).width,
            final(self).height == old(self).height,
            final(self).pixels@ == old(self).pixels@.update(place as int, colour.red).update(
                place + 1,
                colour.green,
            ).update(place + 2, colour.blue),
    {
        assert(self.pixels.len() <= usize::MAX);
        self.pixels.set(place, colour.red);
        self.pixels.set(place + 1, colour.green);
        self.pixels.set(place + 2, colour.blue);
    }

    /// The picture as a PNG file, or why it cannot be one.
    pub fn encode(self) -> (r: Result<Vec<u8>, String>)
        requires
            self.wf(),
        ensures
            match png_file(self.width, self.height, self.pixels@) {
                Ok(file) => r matches Ok(bytes) && bytes@ == file,
                Err(cause) => r matches Err(error) && error@ == "failed to encode status PNG: "@
                    + cause,
            },
    {
        match write_png(self.width, self.height, self.pixels) {
            Ok(bytes) => Ok(bytes),
            Err(cause) => {
                let mut error = "failed to encode status PNG: ".to_owned();
                error.append(cause.as_str());
                Err(error)
            },
        }
    }
}

/// What `image::DynamicImage::write_to` writes in the format PNG for pixels of four bytes each,
/// or the text of its error and, behind a colon each, of the causes of that error.
pub uninterp spec fn png_file(width: u32, height: u32, pixels: Seq<u8>) -> Result<
    Seq<u8>,
    Seq<char>,
>;

/// `image::DynamicImage::write_to` writes the file of a picture, in the format PNG. The text of an
/// error is told with its causes, as `anyhow::Error` writes them out in one line.
#[verifier::external_body]
fn write_png(width: u32, height: u32, pixels: Vec<u8>) -> (r: Result<Vec<u8>, String>)
    requires
        width > 0,
        height > 0,
        pixels@.len() == width * height * 4,
    ensures
        match r {
            Ok(file) => png_file(width, height, pixels@) == Ok::<Seq<u8>, Seq<char>>(file@),
            Err(error) => png_file(width, height, pixels@) == Err::<Seq<u8>, Seq<char>>(error@),
        },
{
    let picture = image::RgbaImage::from_raw(width, height, pixels).unwrap();
    let mut file = std::io::Cursor::new(Vec::new());
    match image::DynamicImage::ImageRgba8(picture).write_to(&mut file, image::ImageFormat::Png) {
        Ok(()) => Ok(file.into_inner()),
        Err(error) => Err(format!("{:#}", anyhow::Error::new(error))),
    }
}

/// No two pixels of a picture share any of its bytes.
pub proof fn law_pixels_are_apart(canvas: Canvas, x: int, y: int, other_x: int, other_y: int)
    requires
        canvas.wf(),
        0 <= x < canvas.width,
        0 <= y < canvas.height,
        0 <= other_x < canvas.width,
        0 <= other_y < canvas.height,
        canvas.place(x, y) <= canvas.place(other_x, other_y) < canvas.place(x, y) + 4,
    ensures
        x == other_x && y == other_y,
{
    let w = canvas.width as int;
    assert(y * w + x == other_y * w + other_x);
    if y < other_y {
        assert((y + 1) * w <= other_y * w) by (nonlinear_arith)
            requires
                y + 1 <= other_y,
                w > 0,
        ;
        assert((y + 1) * w == y * w + w) by (nonlinear_arith);
    } else if other_y < y {
        assert((other_y + 1) * w <= y * w) by (nonlinear_arith)
            requires
                other_y + 1 <= y,
                w > 0,
        ;
        assert((other_y + 1) * w == other_y * w + w) by (nonlinear_arith);
    }
}

/// A new picture is dark everywhere, and nowhere transparent.
pub proof fn law_new_pictures_are_dark(width: u32, height: u32, canvas: Canvas, pixel: int)
    requires
        call_ensures(Canvas::new, (width, height), canvas),
        0 <= pixel < width * height,
    ensures
        canvas.width == width,
        canvas.height == height,
        canvas.pixels@.len() == width * height * 4,
        canvas.pixels@[4 * pixel] == 13,
        canvas.pixels@[4 * pixel + 1] == 17,
        canvas.pixels@[4 * pixel + 2] == 23,
        canvas.pixels@[4 * pixel + 3] == 255,
{
}

/// The pixels of a picture stand row by row, four bytes each, and there are none outside of it.
pub proof fn law_pixels_stand_row_by_row(
    canvas: Canvas,
    corner_x: i32,
    corner_y: i32,
    right: u32,
    down: u32,
    found: Option<usize>,
)
    requires
        call_ensures(Canvas::locate, (&canvas, corner_x, corner_y, right, down), found),
    ensures
        ({
            let x = corner_x + right;
            let y = corner_y + down;
            &&& found is Some <==> 0 <= x < canvas.width && 0 <= y < canvas.height
            &&& found matches Some(place) ==> place == 4 * (y * canvas.width + x)
        }),
{
}

/// The colour of a pixel is that of its first three bytes.
pub proof fn law_colour_of_a_pixel(canvas: Canvas, place: usize, colour: Colour)
    requires
        call_ensures(Canvas::colour, (&canvas, place), colour),
    ensures
        colour.red == canvas.pixels@[place as int],
        colour.green == canvas.pixels@[place + 1],
        colour.blue == canvas.pixels@[place + 2],
{
}

/// The text of a picture has 24 pixels at its left and right, and 20 above and below.
pub proof fn law_size_of_a_picture(text_width: u32, text_height: u32, size: (u32, u32))
    requires
        call_ensures(canvas_size, (text_width, text_height), size),
    ensures
        size.0 == 24 + text_width + 24,
        size.1 == 20 + text_height + 20,
{
}

/// Each line of a card is drawn, and a card without lines is not.
pub proof fn law_lines_of_a_picture(status: &str, drawn: Result<Vec<String>, String>)
    requires
        call_ensures(card_lines, (status,), drawn),
    ensures
        text::lines(status@).len() > 0 ==> (drawn matches Ok(rows) && rows@.len() == text::lines(
            status@,
        ).len() && forall|i: int|
            0 <= i < rows@.len() ==> (#[trigger] rows@[i])@ == text::lines(status@)[i]),
        text::lines(status@).len() == 0 ==> (drawn matches Err(error) && error@
            == "cannot render an empty status card"@),
{
    if let Ok(rows) = drawn {
        let all = text::texts(rows@);
        assert(all.len() == rows@.len());
        assert forall|i: int| 0 <= i < rows@.len() implies (#[trigger] rows@[i])@ == text::lines(
            status@,
        )[i] by {
            assert(all[i] == rows@[i]@);
        }
    }
}

/// The file of a picture is what `image` writes for its pixels.
pub proof fn law_file_of_a_picture(canvas: Canvas, file: Result<Vec<u8>, String>)
    requires
        call_ensures(Canvas::encode, (canvas,), file),
    ensures
        file matches Ok(bytes) ==> png_file(canvas.width, canvas.height, canvas.pixels@) == Ok::<
            Seq<u8>,
            Seq<char>,
        >(bytes@),
        file matches Err(error) ==> (png_file(
            canvas.width,
            canvas.height,
            canvas.pixels@,
        ) matches Err(cause) && error@ == "failed to encode status PNG: "@ + cause),
{
}

/// A picture has four bytes for each of its pixels, and at least one pixel.
pub proof fn law_bytes_of_a_picture(canvas: Canvas)
    ensures
        canvas.wf() <==> canvas.width >= 1 && canvas.height >= 1 && canvas.pixels@.len() == 4 * (
        canvas.width * canvas.height),
{
}

/// The text is light.
pub proof fn law_text_is_light(colour: Colour)
    requires
        call_ensures(text_colour, (), colour),
    ensures
        colour.red == 224,
        colour.green == 230,
        colour.blue == 237,
{
}

/// Painting a pixel gives it the colour, and changes no other byte of the picture.
pub proof fn law_painting_a_pixel(canvas: &mut Canvas, place: usize, colour: Colour, i: int)
    requires
        call_ensures(Canvas::paint, (canvas, place, colour), ()),
        place + 3 < old(canvas).pixels@.len(),
        0 <= i < old(canvas).pixels@.len(),
    ensures
        final(canvas).width == old(canvas).width,
        final(canvas).height == old(canvas).height,
        final(canvas).pixels@.len() == old(canvas).pixels@.len(),
        i == place ==> final(canvas).pixels@[i] == colour.red,
        i == place + 1 ==> final(canvas).pixels@[i] == colour.green,
        i == place + 2 ==> final(canvas).pixels@[i] == colour.blue,
        i < place || i > place + 2 ==> final(canvas).pixels@[i] == old(canvas).pixels@[i],
{
}

} // verus!
