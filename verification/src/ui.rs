//! Plain values read and written through the UI context: style colors,
//! viewports, size constraints, number formats and packed colors.
use vstd::prelude::*;
use vstd::string::*;

verus! {

/// A color stored as `[r, g, b, a]`.
pub type Color = [u8; 4];

/// Identifier of a style color: its position in the style's color table.
#[derive(Clone, Copy, PartialEq, Eq, Structural, Debug)]
pub struct ColorId(pub i32);

impl ColorId {
    /// The raw value of the identifier.
    pub fn bits(&self) -> (r: i32)
        ensures
            r == self.0,
    {
        self.0
    }
}

/// The color table of a style, with colors of type `C`.
#[derive(Debug)]
pub struct StylePtr<C> {
    pub colors: Vec<C>,
}

impl<C: Copy> StylePtr<C> {
    /// The color with the given identifier, which must be in the table.
    pub fn color(&self, id: ColorId) -> (r: C)
        requires
            0 <= id.0 < self.colors@.len(),
        ensures
            r == self.colors@[id.0 as int],
    {
        self.colors[id.bits() as usize]
    }

    /// Changes the color with the given identifier, which must be in the
    /// table.
    pub fn set_color(&mut self, id: ColorId, color: C)
        requires
            0 <= id.0 < old(self).colors@.len(),
        ensures
            final(self).colors@ == old(self).colors@.update(id.0 as int, color),
    {
        let i = id.bits() as usize;
        self.colors.set(i, color);
    }
}

/// Reading a color just set gives it back, and setting a color leaves the
/// others as they were.
pub proof fn lemma_style_color_set_get<C>(colors: Seq<C>, i: int, j: int, c: C)
    requires
        0 <= i < colors.len(),
        0 <= j < colors.len(),
    ensures
        colors.update(i, c)[i] == c,
        i != j ==> colors.update(i, c)[j] == colors[j],
        colors.update(i, c).len() == colors.len(),
{
}

/// Read access to the style of the current frame.
#[derive(Debug)]
pub struct Style<C>(pub StylePtr<C>);

/// Write access to the style of a context.
#[derive(Debug)]
pub struct StyleMut<C>(pub StylePtr<C>);

/// The data that a window size constraint callback receives, with vectors of
/// type `V`.
#[derive(Debug)]
pub struct SizeCallbackData<V> {
    pub pos: V,
    pub current_size: V,
    pub desired_size: V,
}

impl<V: Copy> SizeCallbackData<V> {
    /// Position of the window.
    pub fn pos(&self) -> (r: V)
        ensures
            r == self.pos,
    {
        self.pos
    }

    /// Current size of the window.
    pub fn current_size(&self) -> (r: V)
        ensures
            r == self.current_size,
    {
        self.current_size
    }

    /// Size that the window is about to get.
    pub fn desired_size(&self) -> (r: V)
        ensures
            r == self.desired_size,
    {
        self.desired_size
    }

    /// Changes the size that the window is about to get.
    pub fn set_desired_size(&mut self, sz: V)
        ensures
            final(self).desired_size == sz,
            final(self).pos == old(self).pos,
            final(self).current_size == old(self).current_size,
    {
        self.desired_size = sz;
    }
}

/// Flags of a viewport.
#[derive(Clone, Copy, PartialEq, Eq, Structural, Debug)]
pub struct ViewportFlags {
    pub bits: i32,
}

impl ViewportFlags {
    /// Every known flag, one bit each, from the lowest: platform window,
    /// platform monitor, owned by the application, no decoration, no task
    /// bar icon, no focus on appearing, no focus on click, no inputs, no
    /// renderer clear, no auto merge, top most, can host other windows, is
    /// minimized, is focused.
    pub open spec fn all_bits() -> i32 {
        0x3fff
    }

    /// Keeps only the known flags of `bits`.
    pub fn from_bits_truncate(bits: i32) -> (r: ViewportFlags)
        ensures
            r.bits == bits & Self::all_bits(),
    {
        ViewportFlags { bits: bits & 0x3fff }
    }

    /// Whether every flag of `other` is set in `self`.
    pub fn contains(&self, other: ViewportFlags) -> (r: bool)
        ensures
            r == (self.bits & other.bits == other.bits),
    {
        self.bits & other.bits == other.bits
    }
}

/// A viewport: a rectangle of the platform where windows are placed, with
/// vectors of type `V`.
#[derive(Debug)]
pub struct Viewport<V> {
    pub raw_flags: i32,
    pub pos: V,
    pub size: V,
    pub work_pos: V,
    pub work_size: V,
}

impl<V: Copy> Viewport<V> {
    /// The known flags of the viewport.
    pub fn flags(&self) -> (r: ViewportFlags)
        ensures
            r.bits == self.raw_flags & ViewportFlags::all_bits(),
    {
        ViewportFlags::from_bits_truncate(self.raw_flags)
    }

    /// Position of the viewport.
    pub fn pos(&self) -> (r: V)
        ensures
            r == self.pos,
    {
        self.pos
    }

    /// Size of the viewport.
    pub fn size(&self) -> (r: V)
        ensures
            r == self.size,
    {
        self.size
    }

    /// Position of the work area (the viewport minus menu bars and such).
    pub fn work_pos(&self) -> (r: V)
        ensures
            r == self.work_pos,
    {
        self.work_pos
    }

    /// Size of the work area.
    pub fn work_size(&self) -> (r: V)
        ensures
            r == self.work_size,
    {
        self.work_size
    }
}

/// Values that identify an item of the interface: they are hashed into an
/// identifier, or pushed onto the identifier stack.
pub trait Hashable {
    /// The identifier that the value hashes to in the current scope.
    fn get_id(&self) -> u32;
    /// Pushes the value onto the identifier stack.
    fn push(&self);
}

/// Values that are pushed onto one of the stacks of the interface (style,
/// font, item state...) for a while, and popped back.
pub trait Pushable {
    /// Pushes the value.
    fn push(&self);
    /// Pops what `push` pushed.
    fn pop(&self);
}

impl Pushable for () {
    fn push(&self) {
    }

    fn pop(&self) {
    }
}

impl<A: Pushable, B: Pushable> Pushable for (A, B) {
    /// Pushes the first value, then the second.
    fn push(&self) {
        self.0.push();
        self.1.push();
    }

    /// Pops in the reverse order.
    fn pop(&self) {
        self.1.pop();
        self.0.pop();
    }
}

impl<A: Pushable, B: Pushable, C: Pushable> Pushable for (A, B, C) {
    fn push(&self) {
        self.0.push();
        self.1.push();
        self.2.push();
    }

    fn pop(&self) {
        self.2.pop();
        self.1.pop();
        self.0.pop();
    }
}

impl<A: Pushable, B: Pushable, C: Pushable, D: Pushable> Pushable for (A, B, C, D) {
    fn push(&self) {
        self.0.push();
        self.1.push();
        self.2.push();
        self.3.push();
    }

    fn pop(&self) {
        self.3.pop();
        self.2.pop();
        self.1.pop();
        self.0.pop();
    }
}

impl<T: Pushable> Pushable for Option<T> {
    /// Pushes the value, if there is one.
    fn push(&self) {
        if let Some(s) = self {
            s.push();
        }
    }

    fn pop(&self) {
        if let Some(s) = self {
            s.pop();
        }
    }
}

impl<T: Pushable> Pushable for Vec<T> {
    /// Pushes the values in order.
    fn push(&self) {
        let mut i: usize = 0;
        while i < self.len()
            invariant
                i <= self.len(),
            decreases self.len() - i,
        {
            self[i].push();
            i = i + 1;
        }
    }

    /// Pops the values in the reverse order.
    fn pop(&self) {
        let mut i: usize = self.len();
        while i > 0
            invariant
                i <= self.len(),
            decreases i,
        {
            i = i - 1;
            self[i].pop();
        }
    }
}

/// Pushes the tab-stop state of items.
#[derive(Clone, Copy, Debug)]
pub struct TabStop(pub bool);

/// Pushes the repeat state of buttons.
#[derive(Clone, Copy, Debug)]
pub struct ButtonRepeat(pub bool);

/// Pushes an item identifier.
#[derive(Clone, Copy, Debug)]
pub struct ItemId<H>(pub H);

/// How a float value is shown.
#[derive(Clone, Copy, PartialEq, Eq, Structural, Debug)]
pub enum FloatFormat {
    /// Fixed point, with that many decimals.
    F(u32),
    /// The shortest of fixed point and exponent notation.
    G,
}

/// The decimal digit of `d`.
pub open spec fn digit_char(d: int) -> char {
    if d == 0 {
        '0'
    } else if d == 1 {
        '1'
    } else if d == 2 {
        '2'
    } else if d == 3 {
        '3'
    } else if d == 4 {
        '4'
    } else if d == 5 {
        '5'
    } else if d == 6 {
        '6'
    } else if d == 7 {
        '7'
    } else if d == 8 {
        '8'
    } else {
        '9'
    }
}

/// The decimal notation of `n`, without leading zeros.
pub open spec fn decimal(n: nat) -> Seq<char>
    decreases n,
{
    if n < 10 {
        seq![digit_char(n as int)]
    } else {
        decimal(n / 10).push(digit_char((n % 10) as int))
    }
}

/// The printf-style format of a float display format.
pub open spec fn spec_format_text(f: FloatFormat) -> Seq<char> {
    match f {
        FloatFormat::G => seq!['%', 'g'],
        FloatFormat::F(n) => seq!['%', '.'] + decimal(n as nat) + seq!['f'],
    }
}

fn append_digit(s: &mut String, d: u32)
    requires
        d < 10,
    ensures
        final(s)@ == old(s)@.push(digit_char(d as int)),
{
    let t = if d == 0 {
        "0"
    } else if d == 1 {
        "1"
    } else if d == 2 {
        "2"
    } else if d == 3 {
        "3"
    } else if d == 4 {
        "4"
    } else if d == 5 {
        "5"
    } else if d == 6 {
        "6"
    } else if d == 7 {
        "7"
    } else if d == 8 {
        "8"
    } else {
        "9"
    };
    proof {
        reveal_strlit("0");
        reveal_strlit("1");
        reveal_strlit("2");
        reveal_strlit("3");
        reveal_strlit("4");
        reveal_strlit("5");
        reveal_strlit("6");
        reveal_strlit("7");
        reveal_strlit("8");
        reveal_strlit("9");
    }
    assert(t@ =~= seq![digit_char(d as int)]);
    s.append(t);
}

fn append_decimal(s: &mut String, n: u32)
    ensures
        final(s)@ == old(s)@ + decimal(n as nat),
    decreases n,
{
    if n >= 10 {
        append_decimal(s, n / 10);
    }
    append_digit(s, n % 10);
    assert(final(s)@ =~= old(s)@ + decimal(n as nat));
}

impl FloatFormat {
    /// The printf-style format that shows a float in this format:
    /// `"%g"`, or `"%.Nf"` with `N` the number of decimals.
    pub fn format_text(&self) -> (r: String)
        ensures
            r@ == spec_format_text(*self),
    {
        proof {
            reveal_strlit("%g");
            reveal_strlit("%.");
            reveal_strlit("f");
        }
        match self {
            FloatFormat::G => {
                let r = String::from_str("%g");
                assert(r@ =~= seq!['%', 'g']);
                r
            },
            FloatFormat::F(n) => {
                let mut r = String::from_str("%.");
                append_decimal(&mut r, *n);
                r.append("f");
                assert(r@ =~= seq!['%', '.'] + decimal(*n as nat) + seq!['f']);
                r
            },
        }
    }
}

/// The value of four bytes read as a little-endian number.
pub open spec fn le_u32(b: Seq<u8>) -> int {
    b[0] + 256 * b[1] + 65536 * b[2] + 16777216 * b[3]
}

/// The value of four bytes read as a big-endian number.
pub open spec fn be_u32(b: Seq<u8>) -> int {
    b[3] + 256 * b[2] + 65536 * b[1] + 16777216 * b[0]
}

/// Calls `u32::from_ne_bytes`.
///
/// Trusted: the byte order is that of the machine, so only that the result is
/// the bytes read in one of the two byte orders is claimed.
#[verifier::external_body]
fn u32_from_ne_bytes(b: [u8; 4]) -> (r: u32)
    ensures
        r == le_u32(b@) || r == be_u32(b@),
{
    u32::from_ne_bytes(b)
}

/// Values that can be turned into a packed color.
pub trait IntoColor: Sized {
    /// The color packed in an `u32`, with the bytes in memory order.
    fn color(self) -> u32;
}

impl IntoColor for Color {
    fn color(self) -> (r: u32)
        ensures
            r == le_u32(self@) || r == be_u32(self@),
    {
        u32_from_ne_bytes(self)
    }
}

} // verus!
