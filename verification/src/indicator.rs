use vstd::prelude::*;
use crate::input_mode::{mode_of_code, InputMode};

verus! {

/// A 32-bit-per-pixel picture of the tray's IME mode button, as the
/// screen-capture calls hand it over: `width` by `height` pixels, row `y`
/// starting at byte `y * width_bytes`, four bytes per pixel.
pub struct Bitmap {
    width: usize,
    height: usize,
    width_bytes: usize,
    pixels: Vec<u8>,
}

/// The plain content of a [`Bitmap`].
pub struct BitmapView {
    pub width: nat,
    pub height: nat,
    pub width_bytes: nat,
    pub pixels: Seq<u8>,
}

impl BitmapView {
    /// Every pixel's four bytes lie inside its row, and every row inside the buffer.
    pub open spec fn layout_ok(self) -> bool {
        &&& 4 * self.width <= self.width_bytes
        &&& self.width_bytes * self.height <= self.pixels.len()
    }

    /// The first byte of pixel (`x`, `y`) is not zero: the pixel is drawn.
    pub open spec fn lit(self, x: int, y: int) -> bool {
        self.pixels[y * self.width_bytes + 4 * x] != 0
    }

    /// Row `y` holds no drawn pixel.
    pub open spec fn row_blank(self, y: int) -> bool {
        forall|x: int| 0 <= x < self.width ==> !#[trigger] self.lit(x, y)
    }

    /// The drawn pixels of row `y` do not form one unbroken run: an undrawn
    /// pixel stands between two drawn ones.
    pub open spec fn row_broken(self, y: int) -> bool {
        exists|a: int, b: int, c: int|
            #![trigger self.lit(a, y), self.lit(b, y), self.lit(c, y)]
            0 <= a < b < c < self.width && self.lit(a, y) && !self.lit(b, y) && self.lit(c, y)
    }

    /// Row `y` is the lowest row (the largest `y`) that holds a drawn pixel.
    pub open spec fn bottom_marked_row(self, y: int) -> bool {
        &&& 0 <= y < self.height
        &&& !self.row_blank(y)
        &&& forall|z: int| y < z < self.height ==> #[trigger] self.row_blank(z)
    }

    /// The mode that the picture shows: English when the lowest drawn row is
    /// broken (the glyph "英" or "A" leaves gaps there), Chinese otherwise,
    /// an empty picture included.
    pub open spec fn shown_mode(self) -> InputMode {
        if exists|y: int| #[trigger] self.bottom_marked_row(y) && self.row_broken(y) {
            InputMode::En
        } else {
            InputMode::Zh
        }
    }
}

impl View for Bitmap {
    type V = BitmapView;

    closed spec fn view(&self) -> BitmapView {
        BitmapView {
            width: self.width as nat,
            height: self.height as nat,
            width_bytes: self.width_bytes as nat,
            pixels: self.pixels@,
        }
    }
}

/// How the drawn pixels of one row lie.
enum RowShape {
    Blank,
    Solid,
    Broken,
}

proof fn lemma_pixel_in_buffer(x: int, y: int, width: int, height: int, width_bytes: int, len: int)
    requires
        0 <= x < width,
        0 <= y < height,
        4 * width <= width_bytes,
        width_bytes * height <= len,
    ensures
        0 <= y * width_bytes,
        y * width_bytes + 4 * x < len,
        y * width_bytes + width_bytes <= len,
{
    assert(0 <= y * width_bytes) by (nonlinear_arith)
        requires
            0 <= y,
            0 <= width_bytes,
    ;
    assert(y * width_bytes + width_bytes <= width_bytes * height) by (nonlinear_arith)
        requires
            0 <= y < height,
            0 <= width_bytes,
    ;
}

impl Bitmap {
    #[verifier::type_invariant]
    spec fn inv(self) -> bool {
        self@.layout_ok()
    }

    /// A picture of `width` by `height` pixels with rows of `width_bytes`
    /// bytes; `None` when a row cannot hold four bytes per pixel or the
    /// buffer cannot hold all rows.
    pub fn new(width: usize, height: usize, width_bytes: usize, pixels: Vec<u8>) -> (r: Option<Bitmap>)
        ensures
            r is Some <==> (BitmapView {
                width: width as nat,
                height: height as nat,
                width_bytes: width_bytes as nat,
                pixels: pixels@,
            }).layout_ok(),
            r is Some <==> (4 * width <= width_bytes && width_bytes * height <= pixels@.len()),
            r matches Some(b) ==> b@ == (BitmapView {
                width: width as nat,
                height: height as nat,
                width_bytes: width_bytes as nat,
                pixels: pixels@,
            }),
    {
        let len = pixels.len();
        let row_need = match width.checked_mul(4) {
            Some(n) => n,
            None => {
                return None;
            },
        };
        if row_need > width_bytes {
            return None;
        }
        let all_need = match width_bytes.checked_mul(height) {
            Some(n) => n,
            None => {
                return None;
            },
        };
        if all_need > len {
            return None;
        }
        Some(Bitmap { width, height, width_bytes, pixels })
    }

    /// How the drawn pixels of row `y` lie, scanning from the right.
    fn row_shape(&self, y: usize) -> (s: RowShape)
        requires
            y < self@.height,
        ensures
            (s is Blank) == self@.row_blank(y as int),
            (s is Broken) == self@.row_broken(y as int),
    {
        proof {
            use_type_invariant(self);
        }
        let ghost v = self@;
        let ghost yi = y as int;
        // the column of the drawn pixel met last (the leftmost one so far)
        let mut prev: Option<usize> = None;
        let mut x = self.width;
        while x > 0
            invariant
                v == self@,
                v.layout_ok(),
                yi == y,
                y < v.height,
                x <= v.width,
                prev is None ==> forall|i: int| x <= i < v.width ==> !#[trigger] v.lit(i, yi),
                prev matches Some(p) ==> {
                    &&& x <= p < v.width
                    &&& v.lit(p as int, yi)
                    &&& forall|i: int| x <= i < p ==> !#[trigger] v.lit(i, yi)
                    &&& forall|a: int, b: int, c: int|
                        #![trigger v.lit(a, yi), v.lit(b, yi), v.lit(c, yi)]
                        p <= a < b < c < v.width && v.lit(a, yi) && v.lit(c, yi) ==> v.lit(b, yi)
                },
            decreases x,
        {
            x = x - 1;
            proof {
                lemma_pixel_in_buffer(
                    x as int,
                    y as int,
                    v.width as int,
                    v.height as int,
                    v.width_bytes as int,
                    v.pixels.len() as int,
                );
            }
            assert((y as int) * (self.width_bytes as int) + 4 * (x as int) < self.pixels.len());
            let r = self.pixels[y * self.width_bytes + 4 * x];
            assert(v.lit(x as int, yi) == (r != 0));
            if r != 0 {
                if let Some(p) = prev {
                    if x + 1 != p {
                        assert(!v.lit(x + 1, yi));
                        assert(v.row_broken(yi)) by {
                            assert(v.lit(x as int, yi) && !v.lit(x + 1, yi) && v.lit(p as int, yi));
                        }
                        return RowShape::Broken;
                    }
                }
                prev = Some(x);
            }
        }
        match prev {
            None => RowShape::Blank,
            Some(p) => {
                assert(!v.row_blank(yi)) by {
                    assert(v.lit(p as int, yi));
                }
                RowShape::Solid
            },
        }
    }

    /// The input mode that the picture shows: rows are scanned from the
    /// bottom; the first row with a drawn pixel decides, English when its
    /// drawn pixels are broken by a gap, Chinese otherwise.
    pub fn input_mode(&self) -> (m: InputMode)
        ensures
            m == self@.shown_mode(),
    {
        let ghost v = self@;
        let mut mode: u8 = 2;
        let mut found = false;
        let mut y = self.height;
        while y > 0 && !found
            invariant
                v == self@,
                y <= v.height,
                !found ==> mode == 2 && forall|z: int| y <= z < v.height ==> #[trigger] v.row_blank(z),
                found ==> {
                    &&& v.bottom_marked_row(y as int)
                    &&& (mode == 1) == v.row_broken(y as int)
                    &&& (mode == 1 || mode == 2)
                },
            decreases y,
        {
            y = y - 1;
            match self.row_shape(y) {
                RowShape::Blank => {},
                RowShape::Solid => {
                    found = true;
                },
                RowShape::Broken => {
                    mode = 1;
                    found = true;
                },
            }
        }
        proof {
            if found {
                assert(forall|z: int| #[trigger] v.bottom_marked_row(z) ==> z == y) by {
                    assert forall|z: int| #[trigger] v.bottom_marked_row(z) implies z == y by {
                        if z < y {
                            assert(v.row_blank(y as int));
                        } else if z > y {
                            assert(v.row_blank(z));
                        }
                    }
                }
            } else {
                assert forall|z: int| !#[trigger] v.bottom_marked_row(z) by {
                    if 0 <= z < v.height {
                        assert(v.row_blank(z));
                    }
                }
            }
        }
        assert(mode_of_code(mode) == Ok::<InputMode, crate::input_mode::ParseInputModeError>(v.shown_mode()));
        InputMode::try_from(mode).unwrap()
    }
}

/// A picture without any drawn pixel reads as Chinese mode: when the first
/// byte of every pixel is zero, the mode read is `Zh`.
pub proof fn lemma_blank_picture_is_zh(v: BitmapView)
    requires
        forall|y: int, x: int|
            0 <= y < v.height && 0 <= x < v.width ==> #[trigger] v.pixels[y * v.width_bytes + 4 * x] == 0,
    ensures
        v.shown_mode() == InputMode::Zh,
{
    assert forall|y: int| !#[trigger] v.bottom_marked_row(y) by {
        if 0 <= y < v.height && !v.row_blank(y) {
            let x = choose|x: int| 0 <= x < v.width && #[trigger] v.lit(x, y);
            assert(v.pixels[y * v.width_bytes + 4 * x] == 0);
        }
    }
}

/// A gap in the lowest drawn row means English: when row `y` has pixels
/// `a < b < c` with `a` and `c` drawn (first byte not zero) and `b` not, and
/// no row below `y` has a drawn pixel, the mode read is `En`, whatever `y`
/// and however far apart `a` and `c` are.
pub proof fn lemma_gap_in_lowest_row_is_en(v: BitmapView, y: int, a: int, b: int, c: int)
    requires
        0 <= y < v.height,
        0 <= a < b < c < v.width,
        v.pixels[y * v.width_bytes + 4 * a] != 0,
        v.pixels[y * v.width_bytes + 4 * b] == 0,
        v.pixels[y * v.width_bytes + 4 * c] != 0,
        forall|z: int, x: int|
            y < z < v.height && 0 <= x < v.width ==> #[trigger] v.pixels[z * v.width_bytes + 4 * x] == 0,
    ensures
        v.shown_mode() == InputMode::En,
{
    assert(v.lit(a, y) && !v.lit(b, y) && v.lit(c, y));
    assert(v.row_broken(y));
    assert(!v.row_blank(y));
    assert forall|z: int| y < z < v.height implies #[trigger] v.row_blank(z) by {
        assert forall|x: int| 0 <= x < v.width implies !#[trigger] v.lit(x, z) by {
            assert(v.pixels[z * v.width_bytes + 4 * x] == 0);
        }
    }
    assert(v.bottom_marked_row(y));
}

/// An unbroken lowest drawn row means Chinese: when row `y` has a drawn
/// pixel `x0`, every pixel between two drawn pixels of row `y` is drawn,
/// and no row below `y` has a drawn pixel, the mode read is `Zh`.
pub proof fn lemma_unbroken_lowest_row_is_zh(v: BitmapView, y: int, x0: int)
    requires
        0 <= y < v.height,
        0 <= x0 < v.width,
        v.pixels[y * v.width_bytes + 4 * x0] != 0,
        forall|a: int, b: int, c: int|
            0 <= a < b < c < v.width && #[trigger] v.pixels[y * v.width_bytes + 4 * a] != 0
                && #[trigger] v.pixels[y * v.width_bytes + 4 * c] != 0
                ==> #[trigger] v.pixels[y * v.width_bytes + 4 * b] != 0,
        forall|z: int, x: int|
            y < z < v.height && 0 <= x < v.width ==> #[trigger] v.pixels[z * v.width_bytes + 4 * x] == 0,
    ensures
        v.shown_mode() == InputMode::Zh,
{
    assert(v.lit(x0, y));
    assert forall|z: int| y < z < v.height implies #[trigger] v.row_blank(z) by {
        assert forall|x: int| 0 <= x < v.width implies !#[trigger] v.lit(x, z) by {
            assert(v.pixels[z * v.width_bytes + 4 * x] == 0);
        }
    }
    assert(v.bottom_marked_row(y));
    assert forall|z: int| #[trigger] v.bottom_marked_row(z) implies z == y by {
        if z < y {
            assert(v.row_blank(y));
        } else if z > y {
            assert(v.row_blank(z));
        }
    }
    assert(!v.row_broken(y)) by {
        if v.row_broken(y) {
            let (p, q, r) = choose|p: int, q: int, r: int|
                #![trigger v.lit(p, y), v.lit(q, y), v.lit(r, y)]
                0 <= p < q < r < v.width && v.lit(p, y) && !v.lit(q, y) && v.lit(r, y);
            assert(v.pixels[y * v.width_bytes + 4 * p] != 0);
            assert(v.pixels[y * v.width_bytes + 4 * r] != 0);
            assert(v.pixels[y * v.width_bytes + 4 * q] != 0);
        }
    }
}

/// Blank rows above do not count: a picture `b` made of `k` blank rows on
/// top of a picture `a` of the same width (row `z` of `a` drawn as row
/// `z + k` of `b`) reads as the same mode as `a`, so moving a drawing down
/// never changes the mode read.
pub proof fn lemma_blank_rows_above_keep_mode(a: BitmapView, b: BitmapView, k: int)
    requires
        0 <= k,
        a.width == b.width,
        b.height == a.height + k,
        forall|z: int, x: int|
            0 <= z < k && 0 <= x < b.width ==> #[trigger] b.pixels[z * b.width_bytes + 4 * x] == 0,
        forall|z: int, x: int|
            0 <= z < a.height && 0 <= x < a.width ==> (#[trigger] b.pixels[(z + k) * b.width_bytes + 4 * x]
                != 0) == (a.pixels[z * a.width_bytes + 4 * x] != 0),
    ensures
        a.shown_mode() == b.shown_mode(),
{
    assert forall|z: int, x: int| 0 <= z < a.height && 0 <= x < a.width implies
        #[trigger] a.lit(x, z) == b.lit(x, z + k) by {
        assert((b.pixels[(z + k) * b.width_bytes + 4 * x] != 0) == (a.pixels[z * a.width_bytes + 4 * x] != 0));
    }
    assert forall|z: int| 0 <= z < k implies #[trigger] b.row_blank(z) by {
        assert forall|x: int| 0 <= x < b.width implies !#[trigger] b.lit(x, z) by {
            assert(b.pixels[z * b.width_bytes + 4 * x] == 0);
        }
    }
    assert forall|z: int| 0 <= z < a.height implies #[trigger] a.row_blank(z) == b.row_blank(z + k) by {
        if a.row_blank(z) {
            assert forall|x: int| 0 <= x < b.width implies !#[trigger] b.lit(x, z + k) by {
                assert(a.lit(x, z) == b.lit(x, z + k));
            }
        }
        if b.row_blank(z + k) {
            assert forall|x: int| 0 <= x < a.width implies !#[trigger] a.lit(x, z) by {
                assert(a.lit(x, z) == b.lit(x, z + k));
            }
        }
    }
    assert forall|z: int| 0 <= z < a.height implies #[trigger] a.row_broken(z) == b.row_broken(z + k) by {
        if a.row_broken(z) {
            let (p, q, r) = choose|p: int, q: int, r: int|
                #![trigger a.lit(p, z), a.lit(q, z), a.lit(r, z)]
                0 <= p < q < r < a.width && a.lit(p, z) && !a.lit(q, z) && a.lit(r, z);
            assert(b.lit(p, z + k) && !b.lit(q, z + k) && b.lit(r, z + k));
        }
        if b.row_broken(z + k) {
            let (p, q, r) = choose|p: int, q: int, r: int|
                #![trigger b.lit(p, z + k), b.lit(q, z + k), b.lit(r, z + k)]
                0 <= p < q < r < b.width && b.lit(p, z + k) && !b.lit(q, z + k) && b.lit(r, z + k);
            assert(a.lit(p, z) && !a.lit(q, z) && a.lit(r, z));
        }
    }
    assert forall|y: int| #[trigger] a.bottom_marked_row(y) implies b.bottom_marked_row(y + k) by {
        assert(a.row_blank(y) == b.row_blank(y + k));
        assert forall|z: int| y + k < z < b.height implies #[trigger] b.row_blank(z) by {
            assert(a.row_blank(z - k) == b.row_blank((z - k) + k));
            assert(a.row_blank(z - k));
        }
    }
    assert forall|y: int| #[trigger] b.bottom_marked_row(y) implies a.bottom_marked_row(y - k) by {
        if y < k {
            assert(b.row_blank(y));
        }
        assert(a.row_blank(y - k) == b.row_blank((y - k) + k));
        assert forall|z: int| y - k < z < a.height implies #[trigger] a.row_blank(z) by {
            assert(a.row_blank(z) == b.row_blank(z + k));
            assert(b.row_blank(z + k));
        }
    }
    if exists|y: int| #[trigger] a.bottom_marked_row(y) && a.row_broken(y) {
        let y = choose|y: int| #[trigger] a.bottom_marked_row(y) && a.row_broken(y);
        assert(b.bottom_marked_row(y + k) && b.row_broken(y + k));
    }
    if exists|y: int| #[trigger] b.bottom_marked_row(y) && b.row_broken(y) {
        let y = choose|y: int| #[trigger] b.bottom_marked_row(y) && b.row_broken(y);
        assert(a.bottom_marked_row(y - k));
        assert(a.row_broken(y - k) == b.row_broken((y - k) + k));
        assert(a.bottom_marked_row(y - k) && a.row_broken(y - k));
    }
}

/// The layout check in exact terms: a picture's layout is accepted exactly
/// when each row holds four bytes per pixel and the buffer holds all rows,
/// whatever the width and height.
pub proof fn lemma_layout_ok_exactly(v: BitmapView)
    ensures
        v.layout_ok() <==> (4 * v.width <= v.width_bytes && v.width_bytes * v.height <= v.pixels.len()),
{
}

/// Only the lowest drawn row counts: two pictures of one width whose lowest
/// drawn row is the same row `y`, drawn alike, read as the same mode,
/// whatever the rows above it hold.
pub proof fn lemma_only_bottom_row_counts(a: BitmapView, b: BitmapView, y: int)
    requires
        a.width == b.width,
        a.bottom_marked_row(y),
        b.bottom_marked_row(y),
        forall|x: int| 0 <= x < a.width ==> a.lit(x, y) == b.lit(x, y),
    ensures
        a.shown_mode() == b.shown_mode(),
{
    assert forall|z: int| #[trigger] a.bottom_marked_row(z) implies z == y by {
        if z < y {
            assert(a.row_blank(y));
        } else if z > y {
            assert(a.row_blank(z));
        }
    }
    assert forall|z: int| #[trigger] b.bottom_marked_row(z) implies z == y by {
        if z < y {
            assert(b.row_blank(y));
        } else if z > y {
            assert(b.row_blank(z));
        }
    }
    if a.row_broken(y) {
        let (p, q, r) = choose|p: int, q: int, r: int|
            #![trigger a.lit(p, y), a.lit(q, y), a.lit(r, y)]
            0 <= p < q < r < a.width && a.lit(p, y) && !a.lit(q, y) && a.lit(r, y);
        assert(b.lit(p, y) && !b.lit(q, y) && b.lit(r, y));
        assert(b.row_broken(y));
    }
    if b.row_broken(y) {
        let (p, q, r) = choose|p: int, q: int, r: int|
            #![trigger b.lit(p, y), b.lit(q, y), b.lit(r, y)]
            0 <= p < q < r < b.width && b.lit(p, y) && !b.lit(q, y) && b.lit(r, y);
        assert(a.lit(p, y) && !a.lit(q, y) && a.lit(r, y));
        assert(a.row_broken(y));
    }
}

} // verus!
