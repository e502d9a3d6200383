//! The picture on the LED matrix.
use vstd::prelude::*;

verus! {

pub const LED_MATRIX_WIDTH: usize = 3;

pub const LED_MATRIX_HEIGHT: usize = 3;

pub const LED_MATRIX_SIZE: usize = LED_MATRIX_WIDTH * LED_MATRIX_HEIGHT;

/// One value for each LED, row after row.
#[derive(Clone, Copy, Debug)]
pub struct RawFramebuffer<T> where T: Default + Copy {
    pub framebuffer: [T; LED_MATRIX_SIZE],
}

/// Whether the matrix has an LED in column `x` of row `y`.
pub open spec fn on_matrix(x: int, y: int) -> bool {
    0 <= x < LED_MATRIX_WIDTH && 0 <= y < LED_MATRIX_HEIGHT
}

/// The place of column `x` of row `y` in the row-by-row order.
pub open spec fn position(x: int, y: int) -> int {
    y * LED_MATRIX_WIDTH + x
}

/// A picture after `colour` has been written to column `x` of row `y`: nothing
/// happens outside of the matrix.
pub open spec fn with_pixel<T>(picture: Seq<T>, x: int, y: int, colour: T) -> Seq<T> {
    if on_matrix(x, y) {
        picture.update(position(x, y), colour)
    } else {
        picture
    }
}

/// The picture that shows `colour` everywhere.
pub open spec fn uniform<T>(colour: T) -> Seq<T> {
    Seq::new(LED_MATRIX_SIZE as nat, |i: int| colour)
}

impl<T> View for RawFramebuffer<T> where T: Default + Copy {
    type V = Seq<T>;

    open spec fn view(&self) -> Seq<T> {
        self.framebuffer@
    }
}

impl<T> RawFramebuffer<T> where T: Default + Copy {
    /// A picture that shows the default value everywhere.
    pub fn new() -> (fb: Self)
        ensures
            exists|d: T| #[trigger] call_ensures(T::default, (), d) && fb@ == uniform(d),
    {
        let d = T::default();
        let fb = Self { framebuffer: [d; LED_MATRIX_SIZE] };
        assert(fb@ == uniform(d));
        fb
    }

    /// Writes the value of one LED; a place outside of the matrix is ignored.
    pub fn set_pixel(&mut self, x: usize, y: usize, colour: T)
        ensures
            final(self)@ == with_pixel(old(self)@, x as int, y as int, colour),
    {
        if x < LED_MATRIX_WIDTH && y < LED_MATRIX_HEIGHT {
            self.framebuffer[y * LED_MATRIX_WIDTH + x] = colour;
        }
    }

    /// Reads the value of one LED; outside of the matrix it is the default value.
    pub fn get_pixel(&self, x: usize, y: usize) -> (colour: T)
        ensures
            on_matrix(x as int, y as int) ==> colour == self@[position(x as int, y as int)],
            !on_matrix(x as int, y as int) ==> call_ensures(T::default, (), colour),
    {
        if x < LED_MATRIX_WIDTH && y < LED_MATRIX_HEIGHT {
            self.framebuffer[y * LED_MATRIX_WIDTH + x]
        } else {
            T::default()
        }
    }

    /// Writes the same value to every LED.
    pub fn set_all(&mut self, rgb: T)
        ensures
            final(self)@ == uniform(rgb),
    {
        for i in 0..LED_MATRIX_SIZE
            invariant
                forall|j: int| 0 <= j < i ==> self.framebuffer@[j] == rgb,
        {
            self.framebuffer[i] = rgb;
        }
        assert(self@ == uniform(rgb));
    }

    /// The values of all LEDs, row after row.
    pub fn get_raw(&self) -> (raw: &[T; LED_MATRIX_SIZE])
        ensures
            raw@ == self@,
    {
        &self.framebuffer
    }
}

impl<T> Default for RawFramebuffer<T> where T: Default + Copy {
    /// A picture that shows a default value in each place.
    fn default() -> (fb: Self)
        ensures
            forall|i: int|
                0 <= i < LED_MATRIX_SIZE ==> call_ensures(T::default, (), #[trigger] fb@[i]),
    {
        let framebuffer = [
            T::default(),
            T::default(),
            T::default(),
            T::default(),
            T::default(),
            T::default(),
            T::default(),
            T::default(),
            T::default(),
        ];
        Self { framebuffer }
    }
}

/// What is read back from a place on the matrix is what was written there last,
/// and a write changes no other place.
pub proof fn law_read_gives_back_write<T>(
    picture: Seq<T>,
    x: int,
    y: int,
    colour: T,
    u: int,
    v: int,
)
    requires
        picture.len() == LED_MATRIX_SIZE,
        on_matrix(u, v),
    ensures
        with_pixel(picture, x, y, colour).len() == LED_MATRIX_SIZE,
        with_pixel(picture, x, y, colour)[position(u, v)] == if u == x && v == y {
            colour
        } else {
            picture[position(u, v)]
        },
{
}

/// Each place on the matrix has an LED of its own.
pub proof fn law_positions_are_distinct(x: int, y: int, u: int, v: int)
    requires
        on_matrix(x, y),
        on_matrix(u, v),
    ensures
        0 <= position(x, y) < LED_MATRIX_SIZE,
        position(x, y) == position(u, v) <==> x == u && y == v,
{
}

/// After every LED got the same value, each place on the matrix has it.
pub proof fn law_uniform_everywhere<T>(colour: T, x: int, y: int)
    requires
        on_matrix(x, y),
    ensures
        uniform(colour)[position(x, y)] == colour,
{
}

/// The matrix has three columns and three rows, and its places are counted from the top
/// left: one step to the right is one place on, and one step down is three.
pub proof fn law_places_are_counted_row_by_row(x: int, y: int)
    ensures
        on_matrix(x, y) <==> 0 <= x <= 2 && 0 <= y <= 2,
        position(0, 0) == 0,
        position(x + 1, y) == position(x, y) + 1,
        position(x, y + 1) == position(x, y) + 3,
        LED_MATRIX_SIZE == 9,
{
}

/// A picture is the list of its nine entries.
pub proof fn law_picture_is_its_entries<T: Default + Copy>(fb: RawFramebuffer<T>, i: int)
    requires
        0 <= i < 9,
    ensures
        fb@.len() == 9,
        fb@[i] == fb.framebuffer@[i],
{
}

/// A write to a place on the matrix changes the entry that is three times the row plus the
/// column, and no other; a write elsewhere changes none.
pub proof fn law_write_changes_one_entry<T>(picture: Seq<T>, x: int, y: int, colour: T, i: int)
    requires
        picture.len() == 9,
        0 <= i < 9,
    ensures
        with_pixel(picture, x, y, colour).len() == 9,
        with_pixel(picture, x, y, colour)[i] == if 0 <= x < 3 && 0 <= y < 3 && i == 3 * y + x {
            colour
        } else {
            picture[i]
        },
{
}

/// The same value everywhere is that value in each of nine entries.
pub proof fn law_uniform_is_the_same_in_each_entry<T>(colour: T, i: int)
    requires
        0 <= i < 9,
    ensures
        uniform(colour).len() == 9,
        uniform(colour)[i] == colour,
{
}

} // verus!
