//! Font atlas: fonts, custom rectangles and the texture that holds them.
use vstd::prelude::*;

verus! {

/// Identifier of a font in the atlas: its position in the atlas' list.
#[derive(Clone, Copy, PartialEq, Eq, Structural, Debug, Hash, PartialOrd, Ord)]
pub struct FontId(pub usize);

impl Default for FontId {
    /// The first font of the atlas.
    fn default() -> (r: FontId)
        ensures
            r == FontId(0),
    {
        FontId(0)
    }
}

/// Index of a custom rectangle in the atlas.
#[derive(Clone, Copy, PartialEq, Eq, Structural, Debug, Hash, PartialOrd, Ord)]
pub struct CustomRectIndex(pub i32);

impl Default for CustomRectIndex {
    /// An index that is always invalid.
    fn default() -> (r: CustomRectIndex)
        ensures
            r == CustomRectIndex(-1i32),
    {
        CustomRectIndex(-1)
    }
}

/// Identifier of a texture, as the renderer knows it.
pub type TextureId = u64;

/// The data of a font atlas that its users read: the texture it was
/// uploaded to, the texture's size, and the custom rectangles (of record
/// type `R`) packed in it.
#[derive(Debug)]
pub struct FontAtlasPtr<R> {
    pub tex_id: TextureId,
    pub tex_width: i32,
    pub tex_height: i32,
    pub custom_rects: Vec<R>,
}

impl<R: Copy> FontAtlasPtr<R> {
    /// The texture of the atlas.
    pub fn texture_id(&self) -> (r: TextureId)
        ensures
            r == self.tex_id,
    {
        self.tex_id
    }

    /// The size of the texture, width first.
    pub fn texture_size(&self) -> (r: [i32; 2])
        ensures
            r@ == seq![self.tex_width, self.tex_height],
    {
        let r = [self.tex_width, self.tex_height];
        assert(r@ =~= seq![self.tex_width, self.tex_height]);
        r
    }

    /// The custom rectangle with the given index, which must be valid.
    pub fn get_custom_rect(&self, index: CustomRectIndex) -> (r: R)
        requires
            0 <= index.0 < self.custom_rects@.len(),
        ensures
            r == self.custom_rects@[index.0 as int],
    {
        self.custom_rects[index.0 as usize]
    }
}

/// Read access to the font atlas of a context.
#[derive(Debug)]
pub struct FontAtlas<R> {
    pub ptr: FontAtlasPtr<R>,
}

impl<R> FontAtlas<R> {
    /// The atlas data.
    pub fn atlas(&self) -> (r: &FontAtlasPtr<R>)
        ensures
            *r == self.ptr,
    {
        &self.ptr
    }
}

/// Registers `f` as the drawer of custom rectangle `idx`, growing the list
/// with empty slots as needed.
pub fn add_custom_rect_at<F>(custom_rects: &mut Vec<Option<F>>, idx: usize, f: F)
    requires
        idx < usize::MAX,
    ensures
        final(custom_rects)@.len() == if idx < old(custom_rects)@.len() {
            old(custom_rects)@.len() as int
        } else {
            idx + 1
        },
        final(custom_rects)@[idx as int] == Some(f),
        forall|k: int|
            0 <= k < final(custom_rects)@.len() && k != idx ==> #[trigger] final(custom_rects)@[k]
                == if k < old(custom_rects)@.len() {
                old(custom_rects)@[k]
            } else {
                None
            },
{
    while custom_rects.len() <= idx
        invariant
            idx < usize::MAX,
            custom_rects@.len() >= old(custom_rects)@.len(),
            custom_rects@.len() <= idx + 1 || custom_rects@.len() == old(custom_rects)@.len(),
            forall|k: int|
                0 <= k < custom_rects@.len() ==> #[trigger] custom_rects@[k] == if k < old(
                    custom_rects,
                )@.len() {
                    old(custom_rects)@[k]
                } else {
                    None
                },
        decreases idx + 1 - custom_rects.len(),
    {
        custom_rects.push(None);
    }
    custom_rects.set(idx, Some(f));
}

/// A rectangle of pixels in the atlas texture, as the atlas packed it.
#[derive(Clone, Copy, PartialEq, Eq, Structural, Debug)]
pub struct PixelRect {
    pub x: u16,
    pub y: u16,
    pub width: u16,
    pub height: u16,
}

/// The rectangle lies inside a texture of `tex_len` pixels, `tex_width` to
/// a row.
pub open spec fn rect_fits(tex_width: int, tex_len: int, rect: PixelRect) -> bool {
    rect.x + rect.width <= tex_width && (rect.y + rect.height) * tex_width <= tex_len
}

/// Position in the texture of the pixel at `row`, `col` of the rectangle.
pub open spec fn rect_index(tex_width: int, rect: PixelRect, row: int, col: int) -> int {
    (rect.y + row) * tex_width + rect.x + col
}

/// The texture position `p` is a pixel of the rectangle.
pub open spec fn in_rect(tex_width: int, rect: PixelRect, p: int) -> bool {
    exists|row: int, col: int|
        0 <= row < rect.height && 0 <= col < rect.width && p == #[trigger] rect_index(tex_width, rect, row, col)
}

/// The texture position `p` is a pixel of one of the first rows of the
/// rectangle, or of the first columns of the row after them.
spec fn in_rect_upto(tex_width: int, rect: PixelRect, p: int, rows: int, cols: int) -> bool {
    exists|row: int, col: int|
        0 <= row && 0 <= col < rect.width && (row < rows || (row == rows && col < cols)) && p
            == #[trigger] rect_index(tex_width, rect, row, col)
}

proof fn lemma_rect_index_bounds(w: int, rect: PixelRect, row: int, col: int)
    by (nonlinear_arith)
    requires
        rect.x + rect.width <= w,
        0 <= row < rect.height,
        0 <= col < rect.width,
    ensures
        (rect.y + row) * w <= rect_index(w, rect, row, col) < (rect.y + row + 1) * w,
        (rect.y + row + 1) * w <= (rect.y + rect.height) * w,
{
}

proof fn lemma_rect_index_injective(w: int, rect: PixelRect, r1: int, c1: int, r2: int, c2: int)
    requires
        rect.x + rect.width <= w,
        0 <= r1 < rect.height,
        0 <= c1 < rect.width,
        0 <= r2 < rect.height,
        0 <= c2 < rect.width,
        rect_index(w, rect, r1, c1) == rect_index(w, rect, r2, c2),
    ensures
        r1 == r2 && c1 == c2,
{
    lemma_rect_index_bounds(w, rect, r1, c1);
    lemma_rect_index_bounds(w, rect, r2, c2);
    if r1 < r2 {
        assert((rect.y + r1 + 1) * w <= (rect.y + r2) * w) by (nonlinear_arith)
            requires
                r1 + 1 <= r2,
                w >= 0,
        ;
    } else if r2 < r1 {
        assert((rect.y + r2 + 1) * w <= (rect.y + r1) * w) by (nonlinear_arith)
            requires
                r2 + 1 <= r1,
                w >= 0,
        ;
    }
}

/// Copies the pixels of the rectangle `rect` out of the texture `tex`, row
/// by row, for a drawer to fill.
pub fn rect_rows(tex: &Vec<[u8; 4]>, tex_width: usize, rect: PixelRect) -> (rows: Vec<Vec<[u8; 4]>>)
    requires
        rect_fits(tex_width as int, tex@.len() as int, rect),
    ensures
        rows@.len() == rect.height,
        forall|r: int| 0 <= r < rect.height ==> (#[trigger] rows@[r])@.len() == rect.width,
        forall|r: int, c: int|
            0 <= r < rect.height && 0 <= c < rect.width ==> #[trigger] rows@[r]@[c] == tex@[rect_index(
                tex_width as int,
                rect,
                r,
                c,
            )],
{
    let ghost w = tex_width as int;
    let mut rows: Vec<Vec<[u8; 4]>> = Vec::new();
    let mut r: usize = 0;
    while r < rect.height as usize
        invariant
            w == tex_width,
            rect_fits(w, tex@.len() as int, rect),
            r <= rect.height,
            rows@.len() == r,
            forall|i: int| 0 <= i < r ==> (#[trigger] rows@[i])@.len() == rect.width,
            forall|i: int, c: int|
                0 <= i < r && 0 <= c < rect.width ==> #[trigger] rows@[i]@[c] == tex@[rect_index(
                    w,
                    rect,
                    i,
                    c,
                )],
        decreases rect.height - r,
    {
        let mut row: Vec<[u8; 4]> = Vec::new();
        let mut c: usize = 0;
        while c < rect.width as usize
            invariant
                w == tex_width,
                rect_fits(w, tex@.len() as int, rect),
                r < rect.height,
                c <= rect.width,
                row@.len() == c,
                forall|k: int| 0 <= k < c ==> row@[k] == tex@[rect_index(w, rect, r as int, k)],
            decreases rect.width - c,
        {
            proof {
                lemma_rect_index_bounds(w, rect, r as int, c as int);
            }
            let n = tex.len();
            assert(rect_index(w, rect, r as int, c as int) < n);
            let p = (rect.y as usize + r) * tex_width + rect.x as usize + c;
            row.push(tex[p]);
            c = c + 1;
        }
        rows.push(row);
        r = r + 1;
    }
    rows
}

/// Writes the pixels `rows` back into the rectangle `rect` of the texture
/// `tex`; the pixels outside the rectangle stay as they were.
pub fn store_rect_rows(tex: &mut Vec<[u8; 4]>, tex_width: usize, rect: PixelRect, rows: &Vec<Vec<[u8; 4]>>)
    requires
        rect_fits(tex_width as int, old(tex)@.len() as int, rect),
        rows@.len() == rect.height,
        forall|r: int| 0 <= r < rect.height ==> (#[trigger] rows@[r])@.len() == rect.width,
    ensures
        final(tex)@.len() == old(tex)@.len(),
        forall|r: int, c: int|
            0 <= r < rect.height && 0 <= c < rect.width ==> final(tex)@[#[trigger] rect_index(
                tex_width as int,
                rect,
                r,
                c,
            )] == rows@[r]@[c],
        forall|p: int|
            0 <= p < old(tex)@.len() && !in_rect(tex_width as int, rect, p) ==> #[trigger] final(tex)@[p]
                == old(tex)@[p],
{
    let ghost w = tex_width as int;
    let mut r: usize = 0;
    while r < rect.height as usize
        invariant
            w == tex_width,
            rect_fits(w, tex@.len() as int, rect),
            tex@.len() == old(tex)@.len(),
            rows@.len() == rect.height,
            forall|i: int| 0 <= i < rect.height ==> (#[trigger] rows@[i])@.len() == rect.width,
            r <= rect.height,
            forall|i: int, c: int|
                0 <= i < r && 0 <= c < rect.width ==> tex@[#[trigger] rect_index(w, rect, i, c)]
                    == rows@[i]@[c],
            forall|p: int|
                0 <= p < tex@.len() && !in_rect_upto(w, rect, p, r as int, 0) ==> #[trigger] tex@[p]
                    == old(tex)@[p],
        decreases rect.height - r,
    {
        let mut c: usize = 0;
        while c < rect.width as usize
            invariant
                w == tex_width,
                rect_fits(w, tex@.len() as int, rect),
                tex@.len() == old(tex)@.len(),
                rows@.len() == rect.height,
                forall|i: int| 0 <= i < rect.height ==> (#[trigger] rows@[i])@.len() == rect.width,
                r < rect.height,
                c <= rect.width,
                forall|i: int, k: int|
                    0 <= k < rect.width && (0 <= i < r || (i == r && k < c)) ==> tex@[#[trigger] rect_index(
                        w,
                        rect,
                        i,
                        k,
                    )] == rows@[i]@[k],
                forall|p: int|
                    0 <= p < tex@.len() && !in_rect_upto(w, rect, p, r as int, c as int) ==> #[trigger] tex@[p]
                        == old(tex)@[p],
            decreases rect.width - c,
        {
            proof {
                lemma_rect_index_bounds(w, rect, r as int, c as int);
            }
            let ghost before = tex@;
            let n = tex.len();
            assert(rect_index(w, rect, r as int, c as int) < n);
            let p = (rect.y as usize + r) * tex_width + rect.x as usize + c;
            let v = rows[r][c];
            tex.set(p, v);
            proof {
                assert forall|i: int, k: int|
                    0 <= k < rect.width && (0 <= i < r || (i == r && k < c + 1)) implies tex@[#[trigger] rect_index(
                    w,
                    rect,
                    i,
                    k,
                )] == rows@[i]@[k] by {
                    lemma_rect_index_bounds(w, rect, i, k);
                    if i != r || k != c {
                        if rect_index(w, rect, i, k) == p {
                            lemma_rect_index_injective(w, rect, i, k, r as int, c as int);
                        }
                        assert(tex@[rect_index(w, rect, i, k)] == before[rect_index(w, rect, i, k)]);
                    }
                }
                assert forall|q: int|
                    0 <= q < tex@.len() && !in_rect_upto(w, rect, q, r as int, c + 1) implies #[trigger] tex@[q]
                    == old(tex)@[q] by {
                    if q == p {
                        assert(in_rect_upto(w, rect, q, r as int, c + 1)) by {
                            assert(q == rect_index(w, rect, r as int, c as int));
                        }
                    }
                    if in_rect_upto(w, rect, q, r as int, c as int) {
                        let (i, k) = choose|i: int, k: int|
                            0 <= i && 0 <= k < rect.width && (i < r || (i == r && k < c)) && q
                                == #[trigger] rect_index(w, rect, i, k);
                        assert(in_rect_upto(w, rect, q, r as int, c + 1)) by {
                            assert(q == rect_index(w, rect, i, k));
                        }
                    }
                }
            }
            c = c + 1;
        }
        proof {
            assert forall|q: int|
                0 <= q < tex@.len() && !in_rect_upto(w, rect, q, r + 1, 0) implies #[trigger] tex@[q]
                == old(tex)@[q] by {
                if in_rect_upto(w, rect, q, r as int, rect.width as int) {
                    let (i, k) = choose|i: int, k: int|
                        0 <= i && 0 <= k < rect.width && (i < r || (i == r && k < rect.width)) && q
                            == #[trigger] rect_index(w, rect, i, k);
                    assert(in_rect_upto(w, rect, q, r + 1, 0)) by {
                        assert(q == rect_index(w, rect, i, k));
                    }
                }
            }
        }
        r = r + 1;
    }
    proof {
        assert forall|q: int| 0 <= q < tex@.len() && !in_rect(w, rect, q) implies #[trigger] tex@[q]
            == old(tex)@[q] by {
            if in_rect_upto(w, rect, q, rect.height as int, 0) {
                let (i, k) = choose|i: int, k: int|
                    0 <= i && 0 <= k < rect.width && (i < rect.height || (i == rect.height && k < 0)) && q
                        == #[trigger] rect_index(w, rect, i, k);
                assert(in_rect(w, rect, q)) by {
                    assert(q == rect_index(w, rect, i, k));
                }
            }
        }
    }
}

/// Writing back the pixels just copied out of a rectangle leaves the
/// texture as it was.
pub proof fn lemma_store_copied_rows(
    tex: Seq<[u8; 4]>,
    w: int,
    rect: PixelRect,
    rows: Seq<Seq<[u8; 4]>>,
    stored: Seq<[u8; 4]>,
)
    requires
        rect_fits(w, tex.len() as int, rect),
        rows.len() == rect.height,
        forall|r: int, c: int|
            0 <= r < rect.height && 0 <= c < rect.width ==> #[trigger] rows[r][c] == tex[rect_index(w, rect, r, c)],
        stored.len() == tex.len(),
        forall|r: int, c: int|
            0 <= r < rect.height && 0 <= c < rect.width ==> stored[#[trigger] rect_index(w, rect, r, c)] == rows[r][c],
        forall|p: int| 0 <= p < tex.len() && !in_rect(w, rect, p) ==> #[trigger] stored[p] == tex[p],
    ensures
        stored == tex,
{
    assert forall|p: int| 0 <= p < tex.len() implies stored[p] == tex[p] by {
        if in_rect(w, rect, p) {
            let (r, c) = choose|r: int, c: int|
                0 <= r < rect.height && 0 <= c < rect.width && p == #[trigger] rect_index(w, rect, r, c);
            assert(stored[rect_index(w, rect, r, c)] == rows[r][c]);
        }
    }
    assert(stored =~= tex);
}

/// Copying a rectangle out of a texture gives back the pixels last written
/// into it.
pub proof fn lemma_copy_after_store(
    stored: Seq<[u8; 4]>,
    w: int,
    rect: PixelRect,
    rows: Seq<Seq<[u8; 4]>>,
    copied: Seq<Seq<[u8; 4]>>,
)
    requires
        rows.len() == rect.height,
        forall|r: int| 0 <= r < rect.height ==> (#[trigger] rows[r]).len() == rect.width,
        forall|r: int, c: int|
            0 <= r < rect.height && 0 <= c < rect.width ==> stored[#[trigger] rect_index(w, rect, r, c)] == rows[r][c],
        copied.len() == rect.height,
        forall|r: int| 0 <= r < rect.height ==> (#[trigger] copied[r]).len() == rect.width,
        forall|r: int, c: int|
            0 <= r < rect.height && 0 <= c < rect.width ==> #[trigger] copied[r][c] == stored[rect_index(w, rect, r, c)],
    ensures
        copied == rows,
{
    assert forall|r: int| 0 <= r < rect.height implies copied[r] == rows[r] by {
        assert forall|c: int| 0 <= c < rect.width implies copied[r][c] == rows[r][c] by {
            assert(stored[rect_index(w, rect, r, c)] == rows[r][c]);
        }
        assert(copied[r] =~= rows[r]);
    }
    assert(copied =~= rows);
}

/// The glyph ranges handed to the atlas for a font that asks for `ranges`
/// (pairs of first and last character): none when it asks for none, which
/// means the default ranges, else its ranges closed by the `[0, 0]` marker
/// that ends such a list.
pub fn glyph_ranges(ranges: Vec<[u32; 2]>) -> (r: Option<Vec<[u32; 2]>>)
    ensures
        match r {
            None => ranges@.len() == 0,
            Some(v) => ranges@.len() > 0 && v@ == ranges@.push([0u32, 0u32]),
        },
{
    if ranges.len() == 0 {
        None
    } else {
        let mut v = ranges;
        v.push([0, 0]);
        Some(v)
    }
}

/// Whether the font atlas of a context has to be built again before the
/// next frame: so at first, and again whenever it is invalidated (as when
/// the display scale changes).
pub struct PendingAtlas {
    pending: bool,
}

impl View for PendingAtlas {
    type V = bool;

    closed spec fn view(&self) -> bool {
        self.pending
    }
}

impl PendingAtlas {
    /// A new context: its atlas is to be built.
    pub fn new() -> (r: PendingAtlas)
        ensures
            r@,
    {
        PendingAtlas { pending: true }
    }

    /// The atlas is to be built again.
    pub fn invalidate_font_atlas(&mut self)
        ensures
            final(self)@,
    {
        self.pending = true;
    }

    /// Whether the atlas is to be built now; it is then no longer pending.
    pub fn take_pending(&mut self) -> (r: bool)
        ensures
            r == old(self)@,
            !final(self)@,
    {
        let r = self.pending;
        self.pending = false;
        r
    }
}

} // verus!
