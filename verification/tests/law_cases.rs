//! Concrete instances of the laws proved in the library's `laws` module, and
//! of the sampling and narrowing behavior, run on real machines.

use pixel_machine::data::{Color, Data};
use pixel_machine::error::Error;
use pixel_machine::machine::PixelMachine;
use pixel_machine::op::Op;
use pixel_machine::texture::Texture;

const W: u32 = 640;
const H: u32 = 480;

fn machine() -> PixelMachine {
    let pixels = vec![Color { r: 0, g: 0, b: 0, a: 0 }; (W * H) as usize];
    let texture = Texture::new(W, H, pixels).unwrap();
    PixelMachine::new(320, 240, W, H, vec![texture])
}

#[test]
fn add_then_subtract_round_trips_at_zero() {
    let mut m = machine();
    m.push(Data::U32(0)).unwrap();
    m.push(Data::U32(7)).unwrap();
    m.execute(Op::Add).unwrap();
    m.push(Data::U32(7)).unwrap();
    m.execute(Op::Subtract).unwrap();
    assert_eq!(Ok(0), m.pop_u32());
}

#[test]
fn add_then_subtract_round_trips_at_half_range() {
    let mut m = machine();
    m.push(Data::U32(0x8000_0000)).unwrap();
    m.push(Data::U32(3)).unwrap();
    m.execute(Op::Add).unwrap();
    m.push(Data::U32(3)).unwrap();
    m.execute(Op::Subtract).unwrap();
    assert_eq!(Ok(0x8000_0000), m.pop_u32());
}

#[test]
fn dup_then_drop_keeps_depth_and_top() {
    let mut m = machine();
    m.push(Data::U32(42)).unwrap();
    m.execute(Op::Dup).unwrap();
    m.execute(Op::Drop).unwrap();
    assert_eq!(Ok(42), m.pop_u32());
    assert_eq!(Err(Error::StackUnderflow), m.pop());
}

#[test]
fn rot_n_zero_keeps_stack() {
    let mut m = machine();
    m.push(Data::U8(1)).unwrap();
    m.push(Data::U8(2)).unwrap();
    m.push(Data::U32(0)).unwrap();
    m.execute(Op::RotN).unwrap();
    assert_eq!(Ok(2), m.pop_u8());
    assert_eq!(Ok(1), m.pop_u8());
}

#[test]
fn make_then_split_round_trips() {
    let mut m = machine();
    m.push(Data::U8(10)).unwrap();
    m.push(Data::U8(20)).unwrap();
    m.push(Data::U8(30)).unwrap();
    m.push(Data::U8(40)).unwrap();
    m.execute(Op::MakeColor).unwrap();
    m.execute(Op::SplitColor).unwrap();
    assert_eq!(Ok(40), m.pop_u8());
    assert_eq!(Ok(30), m.pop_u8());
    assert_eq!(Ok(20), m.pop_u8());
    assert_eq!(Ok(10), m.pop_u8());
}

#[test]
fn texture_pixel_without_textures_is_opaque_white() {
    let mut m = PixelMachine::new(320, 240, W, H, vec![]);
    m.push(Data::U32(123)).unwrap();
    m.push(Data::U32(456)).unwrap();
    m.push(Data::U32(789)).unwrap();
    m.execute(Op::TexturePixel).unwrap();
    let expected: Color = (255, 255, 255, 255).into();
    assert_eq!(Ok(expected), m.pop_color());
}

#[test]
fn divide_by_zero_leaves_no_color_on_the_stack() {
    let mut m = machine();
    m.push(Data::Bool(true)).unwrap();
    m.push(Data::U32(0)).unwrap();
    m.push(Data::U32(8)).unwrap();
    assert_eq!(Err(Error::DivideByZero), m.execute(Op::Divide));
    // Both operands were consumed and nothing was pushed back.
    assert_eq!(Ok(Data::Bool(true)), m.pop());
    assert_eq!(Err(Error::StackUnderflow), m.pop());
}

#[test]
fn modulo_by_zero_leaves_no_color_on_the_stack() {
    let mut m = machine();
    m.push(Data::Bool(true)).unwrap();
    m.push(Data::U32(0)).unwrap();
    m.push(Data::U32(8)).unwrap();
    assert_eq!(Err(Error::DivideByZero), m.execute(Op::Modulo));
    assert_eq!(Ok(Data::Bool(true)), m.pop());
    assert_eq!(Err(Error::StackUnderflow), m.pop());
}

#[test]
fn texture_sampling_wraps_index_and_coordinates() {
    // A 2x2 texture with four distinct colors, row by row.
    let pixels = vec![
        Color { r: 1, g: 0, b: 0, a: 255 },
        Color { r: 2, g: 0, b: 0, a: 255 },
        Color { r: 3, g: 0, b: 0, a: 255 },
        Color { r: 4, g: 0, b: 0, a: 255 },
    ];
    let texture = Texture::new(2, 2, pixels).unwrap();
    let m = PixelMachine::new(0, 0, W, H, vec![texture]);
    // In-range coordinates read the buffer directly.
    assert_eq!(1, m.get_color(0, 0, 0).r);
    assert_eq!(2, m.get_color(0, 1, 0).r);
    assert_eq!(3, m.get_color(0, 0, 1).r);
    assert_eq!(4, m.get_color(0, 1, 1).r);
    // Coordinates wrap around the texture's own size.
    assert_eq!(1, m.get_color(0, 2, 2).r);
    assert_eq!(4, m.get_color(0, 3, 3).r);
    // The texture index wraps around the number of textures.
    assert_eq!(1, m.get_color(7, 0, 0).r);
}

#[test]
fn rot_n_rotates_a_window() {
    // Five elements, rotate the top four: the top sinks below the window and
    // the anchor becomes the new top.
    let mut m = machine();
    for v in [1u8, 2, 3, 4, 5] {
        m.push(Data::U8(v)).unwrap();
    }
    m.push(Data::U32(4)).unwrap();
    m.execute(Op::RotN).unwrap();
    assert_eq!(Ok(1), m.pop_u8());
    assert_eq!(Ok(4), m.pop_u8());
    assert_eq!(Ok(3), m.pop_u8());
    assert_eq!(Ok(2), m.pop_u8());
    assert_eq!(Ok(5), m.pop_u8());
    assert_eq!(Err(Error::StackUnderflow), m.pop());
}

#[test]
fn rot_n_underflows_when_window_is_short() {
    let mut m = machine();
    m.push(Data::U8(1)).unwrap();
    m.push(Data::U8(2)).unwrap();
    m.push(Data::U32(2)).unwrap();
    assert_eq!(Err(Error::StackUnderflow), m.execute(Op::RotN));
}
