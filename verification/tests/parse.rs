use pixel_machine::data::{Color, Data};
use pixel_machine::error::Error;
use pixel_machine::machine::PixelMachine;
use pixel_machine::op::Op;
use pixel_machine::texture::Texture;

const W: u32 = 640;
const H: u32 = 480;

fn machine() -> PixelMachine {
    let pixels = vec![Color { r: 0, g: 0, b: 0, a: 0 }; (W * H) as usize];
    let texture = Texture::new(W, H, pixels).unwrap();
    PixelMachine::new(320, 240, W, H, vec![texture])
}

#[test]
fn mod_add() {
    let token = "+";
    assert_eq!(Ok(Op::Add), machine().parse(token));
}

#[test]
fn bool_true() {
    let token = "true";
    assert_eq!(Ok(Op::Data(Data::Bool(true))), machine().parse(token));
}

#[test]
fn bool_false() {
    let token = "false";
    assert_eq!(Ok(Op::Data(Data::Bool(false))), machine().parse(token));
}

#[test]
fn mod_dimensions() {
    let token = "dim";
    assert_eq!(Ok(Op::Dimensions), machine().parse(token));
}

#[test]
fn mod_divide() {
    let token = "/";
    assert_eq!(Ok(Op::Divide), machine().parse(token));
}

#[test]
fn mod_drop() {
    let token = "drop";
    assert_eq!(Ok(Op::Drop), machine().parse(token));
}

#[test]
fn dup() {
    let token = "dup";
    assert_eq!(Ok(Op::Dup), machine().parse(token));
}

#[test]
fn eq() {
    let token = "==";
    assert_eq!(Ok(Op::Equal), machine().parse(token));
}

#[test]
fn mod_frag_pos() {
    let token = "fragPos";
    assert_eq!(Ok(Op::FragPos), machine().parse(token));
}

#[test]
fn invalid_token() {
    let token = "garbageDay!!!";
    assert_eq!(
        Err(Error::UnhandledToken {
            got: "garbageDay!!!".into()
        }),
        machine().parse(token)
    );
}

#[test]
fn greater_than() {
    let token = ">";
    assert_eq!(Ok(Op::GreaterThan), machine().parse(token));
}

#[test]
fn greater_than_equal() {
    let token = ">=";
    assert_eq!(Ok(Op::GreaterThanEqual), machine().parse(token));
}

#[test]
fn less_than() {
    let token = "<";
    assert_eq!(Ok(Op::LessThan), machine().parse(token));
}

#[test]
fn less_than_equal() {
    let token = "<=";
    assert_eq!(Ok(Op::LessThanEqual), machine().parse(token));
}

#[test]
fn mod_make_color() {
    let token = "makeColor";
    assert_eq!(Ok(Op::MakeColor), machine().parse(token));
}

#[test]
fn mod_modulo() {
    let token = "%";
    assert_eq!(Ok(Op::Modulo), machine().parse(token));
}

#[test]
fn mod_multiply() {
    let token = "*";
    assert_eq!(Ok(Op::Multiply), machine().parse(token));
}

#[test]
fn mod_rot() {
    let token = "rot";
    assert_eq!(Ok(Op::Rot), machine().parse(token));
}

#[test]
fn mod_rot_n() {
    let token = "rotN";
    assert_eq!(Ok(Op::RotN), machine().parse(token));
}

#[test]
fn mod_subtract() {
    let token = "-";
    assert_eq!(Ok(Op::Subtract), machine().parse(token));
}

#[test]
fn texture_pixel() {
    let token = "texturePixel";
    assert_eq!(Ok(Op::TexturePixel), machine().parse(token));
}

#[test]
fn mod_split_color() {
    let token = "splitColor";
    assert_eq!(Ok(Op::SplitColor), machine().parse(token));
}

#[test]
fn u8_valid() {
    let token = "0123";
    assert_eq!(Ok(Op::Data(Data::U8(123))), machine().parse(token));
}

#[test]
fn u32_valid() {
    let token = "266";
    assert_eq!(Ok(Op::Data(Data::U32(266))), machine().parse(token));
}

#[test]
fn u32_invalid() {
    let token = "-0123";
    assert_eq!(
        Err(Error::UnhandledToken {
            got: "-0123".into()
        }),
        machine().parse(token)
    );
}

#[test]
fn parse() {
    let m = machine();
    assert_eq!(Ok(Op::Add), m.parse("+"));
    assert_eq!(Ok(Op::Data(Data::U8(7))), m.parse("7"));
    assert_eq!(
        Err(Error::UnhandledToken { got: "wut".into() }),
        m.parse("wut")
    );
}

#[test]
fn plus_signed_literal() {
    assert_eq!(Ok(Op::Data(Data::U8(42))), machine().parse("+42"));
    // A bare sign is the Add keyword, never a number.
    assert_eq!(Ok(Op::Add), machine().parse("+"));
    assert_eq!(
        Err(Error::UnhandledToken { got: "++1".into() }),
        machine().parse("++1")
    );
}

#[test]
fn numeric_overflow_is_unhandled() {
    assert_eq!(
        Ok(Op::Data(Data::U32(4294967295))),
        machine().parse("4294967295")
    );
    assert_eq!(
        Err(Error::UnhandledToken {
            got: "4294967296".into()
        }),
        machine().parse("4294967296")
    );
}
