//! The machine: one isolated evaluation context owning one stack, evaluating
//! one program for one fragment.
//!
//! The meaning of every operation is pinned down by the specification
//! function [`step`], and of a whole program by [`interp`]; the executable
//! code is proved to match them exactly.

use vstd::prelude::*;

use crate::data::{data_eq, Color, Data};
use crate::error::Error;
use crate::op::Op;
use crate::parser::{clean, clean_text, parse_ok, parse_token, split_tokens, str_to_chars,
    tokenize, views_of};
use crate::texture::Texture;

verus! {

/// The read-only surroundings of one machine: the loaded textures, the canvas
/// size, and the fragment coordinate.
pub struct Env {
    pub textures: Seq<Texture>,
    pub width: u32,
    pub height: u32,
    pub x: u32,
    pub y: u32,
}

/// The numeric reading of a value: both integer widths count as numbers, and
/// an 8-bit value reads as its 32-bit value.
pub open spec fn num_of(d: Data) -> Option<u32> {
    match d {
        Data::U8(u) => Some(u as u32),
        Data::U32(u) => Some(u),
        _ => None,
    }
}

/// The 8-bit narrowing of a 32-bit number: a value above 255 is taken modulo
/// 255, not 256. The odd modulus is deliberate; programs rely on the exact
/// values it produces.
pub open spec fn narrow_u8(u: u32) -> u8 {
    if u <= 255 {
        u as u8
    } else {
        (u % 255) as u8
    }
}

/// Pops any value: the stack after the pop, and the value or the error.
pub open spec fn take_any(s: Seq<Data>) -> (Seq<Data>, Result<Data, Error>) {
    if s.len() == 0 {
        (s, Err(Error::StackUnderflow))
    } else {
        (s.drop_last(), Ok(s.last()))
    }
}

/// Pops a number, consuming the popped value even when it is no number.
pub open spec fn take_num(s: Seq<Data>) -> (Seq<Data>, Result<u32, Error>) {
    let (s1, r) = take_any(s);
    match r {
        Err(e) => (s1, Err(e)),
        Ok(d) => match num_of(d) {
            Some(v) => (s1, Ok(v)),
            None => (s1, Err(Error::InvalidType { got: d })),
        },
    }
}

/// Pops two numbers; the pair holds them in pop order.
pub open spec fn take_two_nums(s: Seq<Data>) -> (Seq<Data>, Result<(u32, u32), Error>) {
    let (s1, r1) = take_num(s);
    match r1 {
        Err(e) => (s1, Err(e)),
        Ok(a) => {
            let (s2, r2) = take_num(s1);
            match r2 {
                Err(e) => (s2, Err(e)),
                Ok(b) => (s2, Ok((a, b))),
            }
        },
    }
}

/// Pops an 8-bit number, narrowing a 32-bit value.
pub open spec fn take_u8(s: Seq<Data>) -> (Seq<Data>, Result<u8, Error>) {
    let (s1, r) = take_any(s);
    match r {
        Err(e) => (s1, Err(e)),
        Ok(d) => match d {
            Data::U8(u) => (s1, Ok(u)),
            Data::U32(u) => (s1, Ok(narrow_u8(u))),
            _ => (s1, Err(Error::InvalidType { got: d })),
        },
    }
}

/// Pops a boolean.
pub open spec fn take_bool(s: Seq<Data>) -> (Seq<Data>, Result<bool, Error>) {
    let (s1, r) = take_any(s);
    match r {
        Err(e) => (s1, Err(e)),
        Ok(d) => match d {
            Data::Bool(v) => (s1, Ok(v)),
            _ => (s1, Err(Error::InvalidType { got: d })),
        },
    }
}

/// Pops a color.
pub open spec fn take_color(s: Seq<Data>) -> (Seq<Data>, Result<Color, Error>) {
    let (s1, r) = take_any(s);
    match r {
        Err(e) => (s1, Err(e)),
        Ok(d) => match d {
            Data::Color(c) => (s1, Ok(c)),
            _ => (s1, Err(Error::InvalidType { got: d })),
        },
    }
}

/// Pops a string.
pub open spec fn take_string(s: Seq<Data>) -> (Seq<Data>, Result<String, Error>) {
    let (s1, r) = take_any(s);
    match r {
        Err(e) => (s1, Err(e)),
        Ok(d) => match d {
            Data::String(v) => (s1, Ok(v)),
            _ => (s1, Err(Error::InvalidType { got: d })),
        },
    }
}

/// The color sampled for a texture index and a coordinate: opaque white when
/// no textures are loaded, else the wrapped pixel of the wrapped texture.
pub open spec fn sample_env(env: Env, idx: u32, x: u32, y: u32) -> Color {
    if env.textures.len() == 0 {
        Color { r: 255, g: 255, b: 255, a: 255 }
    } else {
        env.textures[idx as int % env.textures.len() as int].spec_sample(x, y)
    }
}

/// Whether two values read as equal under `Equal`: structurally, or both as
/// numbers of the same value.
pub open spec fn values_equal(a: Data, b: Data) -> bool {
    data_eq(a, b) || (num_of(a) is Some && num_of(b) is Some && num_of(a) == num_of(b))
}

/// The effect of one operation on the stack: the stack after the operation,
/// and the error, if any. A popped value is consumed even when the operation
/// then fails on it.
pub open spec fn step(op: Op, s: Seq<Data>, env: Env) -> (Seq<Data>, Option<Error>) {
    match op {
        Op::Add => {
            let (s2, r) = take_two_nums(s);
            match r {
                Err(e) => (s2, Some(e)),
                Ok((a, b)) => (s2.push(Data::U32(a.wrapping_add(b))), None),
            }
        },
        Op::Data(d) => (s.push(d), None),
        Op::Dimensions => (s.push(Data::U32(env.width)).push(Data::U32(env.height)), None),
        Op::Divide => {
            let (s2, r) = take_two_nums(s);
            match r {
                Err(e) => (s2, Some(e)),
                Ok((n, divisor)) => if divisor == 0 {
                    (s2, Some(Error::DivideByZero))
                } else {
                    (s2.push(Data::U32(n / divisor)), None)
                },
            }
        },
        Op::Drop => {
            let (s1, r) = take_any(s);
            match r {
                Err(e) => (s1, Some(e)),
                Ok(_) => (s1, None),
            }
        },
        Op::Dup => {
            let (s1, r) = take_any(s);
            match r {
                Err(e) => (s1, Some(e)),
                Ok(d) => (s1.push(d).push(d), None),
            }
        },
        Op::Equal => {
            let (s1, r1) = take_any(s);
            match r1 {
                Err(e) => (s1, Some(e)),
                Ok(a) => {
                    let (s2, r2) = take_any(s1);
                    match r2 {
                        Err(e) => (s2, Some(e)),
                        Ok(b) => (s2.push(Data::Bool(values_equal(a, b))), None),
                    }
                },
            }
        },
        Op::FragPos => (s.push(Data::U32(env.x)).push(Data::U32(env.y)), None),
        Op::GreaterThan => {
            let (s2, r) = take_two_nums(s);
            match r {
                Err(e) => (s2, Some(e)),
                Ok((a, b)) => (s2.push(Data::Bool(b > a)), None),
            }
        },
        Op::GreaterThanEqual => {
            let (s2, r) = take_two_nums(s);
            match r {
                Err(e) => (s2, Some(e)),
                Ok((a, b)) => (s2.push(Data::Bool(b >= a)), None),
            }
        },
        Op::LessThan => {
            let (s2, r) = take_two_nums(s);
            match r {
                Err(e) => (s2, Some(e)),
                Ok((a, b)) => (s2.push(Data::Bool(b < a)), None),
            }
        },
        Op::LessThanEqual => {
            let (s2, r) = take_two_nums(s);
            match r {
                Err(e) => (s2, Some(e)),
                Ok((a, b)) => (s2.push(Data::Bool(b <= a)), None),
            }
        },
        Op::MakeColor => {
            let (s1, ra) = take_u8(s);
            match ra {
                Err(e) => (s1, Some(e)),
                Ok(a) => {
                    let (s2, rb) = take_u8(s1);
                    match rb {
                        Err(e) => (s2, Some(e)),
                        Ok(b) => {
                            let (s3, rg) = take_u8(s2);
                            match rg {
                                Err(e) => (s3, Some(e)),
                                Ok(g) => {
                                    let (s4, rr) = take_u8(s3);
                                    match rr {
                                        Err(e) => (s4, Some(e)),
                                        Ok(r) => (s4.push(Data::Color(Color { r, g, b, a })), None),
                                    }
                                },
                            }
                        },
                    }
                },
            }
        },
        Op::Modulo => {
            let (s2, r) = take_two_nums(s);
            match r {
                Err(e) => (s2, Some(e)),
                Ok((n, modulus)) => if modulus == 0 {
                    (s2, Some(Error::DivideByZero))
                } else {
                    (s2.push(Data::U32(n % modulus)), None)
                },
            }
        },
        Op::Multiply => {
            let (s2, r) = take_two_nums(s);
            match r {
                Err(e) => (s2, Some(e)),
                Ok((multiplier, n)) => (s2.push(Data::U32(n.wrapping_mul(multiplier))), None),
            }
        },
        Op::Rot => {
            let (s1, r1) = take_any(s);
            match r1 {
                Err(e) => (s1, Some(e)),
                Ok(a) => {
                    let (s2, r2) = take_any(s1);
                    match r2 {
                        Err(e) => (s2, Some(e)),
                        Ok(b) => (s2.push(a).push(b), None),
                    }
                },
            }
        },
        Op::RotN => {
            let (s1, r) = take_num(s);
            match r {
                Err(e) => (s1, Some(e)),
                Ok(n) => if n == 0 {
                    (s1, None)
                } else if s1.len() < n + 1 {
                    (Seq::empty(), Some(Error::StackUnderflow))
                } else {
                    let k = s1.len() as int;
                    (
                        s1.take(k - n - 1) + seq![s1.last()] + s1.subrange(k - n, k - 1) + seq![
                            s1[k - n - 1],
                        ],
                        None,
                    )
                },
            }
        },
        Op::SplitColor => {
            let (s1, r) = take_color(s);
            match r {
                Err(e) => (s1, Some(e)),
                Ok(c) => (
                    s1.push(Data::U8(c.r)).push(Data::U8(c.g)).push(Data::U8(c.b)).push(
                        Data::U8(c.a),
                    ),
                    None,
                ),
            }
        },
        Op::Subtract => {
            let (s2, r) = take_two_nums(s);
            match r {
                Err(e) => (s2, Some(e)),
                Ok((n, subtractor)) => (s2.push(Data::U32(n.wrapping_sub(subtractor))), None),
            }
        },
        Op::TexturePixel => {
            let (s1, r1) = take_num(s);
            match r1 {
                Err(e) => (s1, Some(e)),
                Ok(idx) => {
                    let (s2, r2) = take_num(s1);
                    match r2 {
                        Err(e) => (s2, Some(e)),
                        Ok(y) => {
                            let (s3, r3) = take_num(s2);
                            match r3 {
                                Err(e) => (s3, Some(e)),
                                Ok(x) => (
                                    s3.push(Data::Color(sample_env(env, idx, x, y))),
                                    None,
                                ),
                            }
                        },
                    }
                },
            }
        },
    }
}

/// Runs a sequence of operations in order, stopping at the first error.
/// Yields the stack it ends with, and the error, if any.
pub open spec fn run_ops(env: Env, s: Seq<Data>, ops: Seq<Op>) -> (Seq<Data>, Option<Error>)
    decreases ops.len(),
{
    if ops.len() == 0 {
        (s, None)
    } else {
        let (s2, oe) = step(ops[0], s, env);
        match oe {
            Some(e) => (s2, Some(e)),
            None => run_ops(env, s2, ops.drop_first()),
        }
    }
}

/// Why a program run stopped early: an operation failed, or a token matched
/// no rule.
pub enum Fault {
    /// An operation failed with this error.
    Exec(Error),
    /// This token matched neither the keyword table nor a literal.
    Parse(Seq<char>),
}

/// Whether a returned error reports the given fault.
pub open spec fn fault_matches(e: Error, f: Fault) -> bool {
    match f {
        Fault::Exec(e2) => e == e2,
        Fault::Parse(t) => match e {
            Error::UnhandledToken { got } => got@ == t,
            _ => false,
        },
    }
}

/// Runs a token sequence: parse then execute each token in order, stopping at
/// the first fault. Yields the stack it ends with, and the fault, if any.
pub open spec fn run(env: Env, s: Seq<Data>, toks: Seq<Seq<char>>) -> (Seq<Data>, Option<Fault>)
    decreases toks.len(),
{
    if toks.len() == 0 {
        (s, None)
    } else {
        match parse_ok(toks[0]) {
            None => (s, Some(Fault::Parse(toks[0]))),
            Some(op) => {
                let (s2, oe) = step(op, s, env);
                match oe {
                    Some(e) => (s2, Some(Fault::Exec(e))),
                    None => run(env, s2, toks.drop_first()),
                }
            },
        }
    }
}

/// The meaning of a whole program run on a machine: clean the text, tokenize,
/// run every token, then demand a single color as the final stack value.
/// Yields the stack the machine ends with, and the color or the fault.
pub open spec fn interp(env: Env, s: Seq<Data>, prog: Seq<char>) -> (Seq<Data>, Result<
    Color,
    Fault,
>) {
    let toks = tokenize(clean(prog));
    let (s1, of) = run(env, s, toks);
    match of {
        Some(f) => (s1, Err(f)),
        None => {
            let (s2, rc) = take_color(s1);
            match rc {
                Ok(c) => (s2, Ok(c)),
                Err(e) => (s2, Err(Fault::Exec(e))),
            }
        },
    }
}

/// A virtual machine that operates on a pixel.
pub struct PixelMachine {
    stack: Vec<Data>,
    textures: Vec<Texture>,
    width: u32,
    height: u32,
    x: u32,
    y: u32,
}

impl PixelMachine {
    /// The values on the stack, bottom first.
    pub closed spec fn stack_view(self) -> Seq<Data> {
        self.stack@
    }

    /// The machine's read-only surroundings.
    pub closed spec fn env(self) -> Env {
        Env {
            textures: self.textures@,
            width: self.width,
            height: self.height,
            x: self.x,
            y: self.y,
        }
    }

    /// Creates a new pixel machine with an empty stack.
    pub fn new(x: u32, y: u32, width: u32, height: u32, textures: Vec<Texture>) -> (m: PixelMachine)
        ensures
            m.stack_view() == Seq::<Data>::empty(),
            m.env() == (Env { textures: textures@, width, height, x, y }),
    {
        let stack: Vec<Data> = Vec::new();
        proof {
            assert(stack@ =~= Seq::<Data>::empty());
        }
        PixelMachine { stack, textures, width, height, x, y }
    }

    /// Pushes a value onto the stack.
    pub fn push(&mut self, data: Data) -> (r: Result<(), Error>)
        ensures
            r == Ok::<(), Error>(()),
            final(self).stack_view() == old(self).stack_view().push(data),
            final(self).env() == old(self).env(),
    {
        self.stack.push(data);
        Ok(())
    }

    /// Pops a value off the stack.
    pub fn pop(&mut self) -> (r: Result<Data, Error>)
        ensures
            ({
                let (s2, tr) = take_any(old(self).stack_view());
                &&& final(self).stack_view() == s2
                &&& final(self).env() == old(self).env()
                &&& r == tr
            }),
    {
        match self.stack.pop() {
            Some(data) => Ok(data),
            None => Err(Error::StackUnderflow),
        }
    }

    /// Pops a bool off the stack.
    pub fn pop_bool(&mut self) -> (r: Result<bool, Error>)
        ensures
            ({
                let (s2, tr) = take_bool(old(self).stack_view());
                &&& final(self).stack_view() == s2
                &&& final(self).env() == old(self).env()
                &&& r == tr
            }),
    {
        match self.pop()? {
            Data::Bool(value) => Ok(value),
            data => Err(Error::InvalidType { got: data }),
        }
    }

    /// Pops a color off the stack.
    pub fn pop_color(&mut self) -> (r: Result<Color, Error>)
        ensures
            ({
                let (s2, tr) = take_color(old(self).stack_view());
                &&& final(self).stack_view() == s2
                &&& final(self).env() == old(self).env()
                &&& r == tr
            }),
    {
        match self.pop()? {
            Data::Color(value) => Ok(value),
            data => Err(Error::InvalidType { got: data }),
        }
    }

    /// Pops a string off the stack.
    pub fn pop_string(&mut self) -> (r: Result<String, Error>)
        ensures
            ({
                let (s2, tr) = take_string(old(self).stack_view());
                &&& final(self).stack_view() == s2
                &&& final(self).env() == old(self).env()
                &&& r == tr
            }),
    {
        match self.pop()? {
            Data::String(value) => Ok(value),
            data => Err(Error::InvalidType { got: data }),
        }
    }

    /// Pops a u32 off the stack; an 8-bit value widens.
    pub fn pop_u32(&mut self) -> (r: Result<u32, Error>)
        ensures
            ({
                let (s2, tr) = take_num(old(self).stack_view());
                &&& final(self).stack_view() == s2
                &&& final(self).env() == old(self).env()
                &&& r == tr
            }),
    {
        match self.pop()? {
            Data::U8(u) => Ok(u as u32),
            Data::U32(u) => Ok(u),
            data => Err(Error::InvalidType { got: data }),
        }
    }

    /// Pops a u8 off the stack; a 32-bit value above 255 narrows by taking it
    /// modulo 255.
    pub fn pop_u8(&mut self) -> (r: Result<u8, Error>)
        ensures
            ({
                let (s2, tr) = take_u8(old(self).stack_view());
                &&& final(self).stack_view() == s2
                &&& final(self).env() == old(self).env()
                &&& r == tr
            }),
    {
        match self.pop()? {
            Data::U32(u) => {
                let u = {
                    if u <= 255 {
                        u as u8
                    } else {
                        (u % 255) as u8
                    }
                };
                Ok(u)
            },
            Data::U8(u) => Ok(u),
            data => Err(Error::InvalidType { got: data }),
        }
    }

    /// Executes the given op against the stack, exactly as [`step`] says.
    pub fn execute(&mut self, op: Op) -> (r: Result<(), Error>)
        ensures
            ({
                let (s2, oe) = step(op, old(self).stack_view(), old(self).env());
                &&& final(self).stack_view() == s2
                &&& final(self).env() == old(self).env()
                &&& r == (match oe {
                    None => Ok::<(), Error>(()),
                    Some(e) => Err::<(), Error>(e),
                })
            }),
    {
        match op {
            Op::Add => {
                let a = self.pop_u32()?;
                let b = self.pop_u32()?;
                self.push(Data::U32(a.wrapping_add(b)))?;
                Ok(())
            },
            Op::Data(data) => {
                self.push(data)?;
                Ok(())
            },
            Op::Dimensions => {
                self.push(Data::U32(self.width))?;
                self.push(Data::U32(self.height))?;
                Ok(())
            },
            Op::Divide => {
                let n = self.pop_u32()?;
                let divisor = self.pop_u32()?;
                if divisor == 0 {
                    return Err(Error::DivideByZero);
                }
                let divided = n / divisor;
                self.push(Data::U32(divided))?;
                Ok(())
            },
            Op::Drop => {
                self.pop()?;
                Ok(())
            },
            Op::Dup => {
                let data = self.pop()?;
                self.push(data.clone())?;
                self.push(data)?;
                Ok(())
            },
            Op::Equal => {
                let a = self.pop()?;
                let b = self.pop()?;
                if a == b {
                    self.push(Data::Bool(true))?;
                } else {
                    // If there are two numbers, convert to u32 and try those.
                    self.push(a)?;
                    self.push(b)?;
                    let a = self.pop_u32();
                    let b = self.pop_u32();
                    if let Ok(a) = a {
                        if let Ok(b) = b {
                            if a == b {
                                self.push(Data::Bool(true))?;
                                return Ok(());
                            }
                        }
                    }
                    self.push(Data::Bool(false))?;
                }
                Ok(())
            },
            Op::FragPos => {
                self.push(Data::U32(self.x))?;
                self.push(Data::U32(self.y))?;
                Ok(())
            },
            Op::GreaterThan => {
                let a = self.pop_u32()?;
                let b = self.pop_u32()?;
                self.push(Data::Bool(b > a))?;
                Ok(())
            },
            Op::GreaterThanEqual => {
                let a = self.pop_u32()?;
                let b = self.pop_u32()?;
                self.push(Data::Bool(b >= a))?;
                Ok(())
            },
            Op::LessThan => {
                let a = self.pop_u32()?;
                let b = self.pop_u32()?;
                self.push(Data::Bool(b < a))?;
                Ok(())
            },
            Op::LessThanEqual => {
                let a = self.pop_u32()?;
                let b = self.pop_u32()?;
                self.push(Data::Bool(b <= a))?;
                Ok(())
            },
            Op::MakeColor => {
                let a = self.pop_u8()?;
                let b = self.pop_u8()?;
                let g = self.pop_u8()?;
                let r = self.pop_u8()?;
                let color: Color = Color { r, g, b, a };
                self.push(Data::Color(color))?;
                Ok(())
            },
            Op::Modulo => {
                let n = self.pop_u32()?;
                let modulus = self.pop_u32()?;
                if modulus == 0 {
                    return Err(Error::DivideByZero);
                }
                let modded = n % modulus;
                self.push(Data::U32(modded))?;
                Ok(())
            },
            Op::Multiply => {
                let multiplier = self.pop_u32()?;
                let n = self.pop_u32()?;
                self.push(Data::U32(n.wrapping_mul(multiplier)))?;
                Ok(())
            },
            Op::Rot => {
                let a = self.pop()?;
                let b = self.pop()?;
                self.push(a)?;
                self.push(b)?;
                Ok(())
            },
            Op::RotN => self.rot_n(),
            Op::SplitColor => {
                let color = self.pop_color()?;
                self.push(Data::U8(color.r))?;
                self.push(Data::U8(color.g))?;
                self.push(Data::U8(color.b))?;
                self.push(Data::U8(color.a))?;
                Ok(())
            },
            Op::Subtract => {
                let n = self.pop_u32()?;
                let subtractor = self.pop_u32()?;
                self.push(Data::U32(n.wrapping_sub(subtractor)))?;
                Ok(())
            },
            Op::TexturePixel => {
                let texture_id = self.pop_u32()?;
                let y = self.pop_u32()?;
                let x = self.pop_u32()?;
                let color = self.get_color(texture_id, x, y);
                self.push(Data::Color(color))?;
                Ok(())
            },
        }
    }

    /// Rotates the window of the stack that the popped count names: the
    /// former top sinks below the window, the window's anchor becomes the new
    /// top, and the elements between keep their order.
    fn rot_n(&mut self) -> (r: Result<(), Error>)
        ensures
            ({
                let (s2, oe) = step(Op::RotN, old(self).stack_view(), old(self).env());
                &&& final(self).stack_view() == s2
                &&& final(self).env() == old(self).env()
                &&& r == (match oe {
                    None => Ok::<(), Error>(()),
                    Some(e) => Err::<(), Error>(e),
                })
            }),
    {
        let n = self.pop_u32()?;
        if n == 0 {
            return Ok(());
        }
        let ghost s1 = self.stack_view();
        let ghost l = s1.len() as int;
        let ghost env0 = self.env();

        let a = match self.pop() {
            Ok(v) => v,
            Err(e) => {
                proof {
                    assert(self.stack_view() =~= Seq::<Data>::empty());
                }
                return Err(e);
            },
        };
        let mut working_stack: Vec<Data> = Vec::new();
        let mut i: u32 = 0;
        while i < n - 1
            invariant
                1 <= n,
                i <= n - 1,
                l == s1.len(),
                i + 1 <= l,
                take_num(old(self).stack_view()) == (s1, Ok::<u32, Error>(n)),
                env0 == old(self).env(),
                self.stack_view() == s1.take(l - 1 - i),
                working_stack@.len() == i,
                forall|j: int| 0 <= j < i ==> working_stack@[j] == s1[l - 2 - j],
                self.env() == env0,
            decreases n - 1 - i,
        {
            let v = match self.pop() {
                Ok(v) => v,
                Err(e) => {
                    proof {
                        assert(s1.len() < n + 1);
                        assert(self.stack_view() =~= Seq::<Data>::empty());
                    }
                    return Err(e);
                },
            };
            working_stack.push(v);
            i += 1;
            proof {
                assert(self.stack_view() =~= s1.take(l - 1 - i));
            }
        }
        let b = match self.pop() {
            Ok(v) => v,
            Err(e) => {
                proof {
                    assert(s1.len() < n + 1);
                    assert(self.stack_view() =~= Seq::<Data>::empty());
                }
                return Err(e);
            },
        };
        proof {
            assert(l >= n + 1);
            assert(b == s1[l - n - 1]);
            assert(self.stack_view() =~= s1.take(l - n - 1));
        }
        self.push(a)?;
        proof {
            assert(self.stack_view() =~= s1.take(l - n - 1) + seq![s1.last()] + s1.subrange(
                l - n,
                l - 1 - (n - 1),
            ));
        }
        while working_stack.len() > 0
            invariant
                1 <= n,
                l == s1.len(),
                l >= n + 1,
                working_stack@.len() <= n - 1,
                self.stack_view() == s1.take(l - n - 1) + seq![s1.last()] + s1.subrange(
                    l - n,
                    l - 1 - working_stack@.len(),
                ),
                forall|j: int|
                    0 <= j < working_stack@.len() ==> working_stack@[j] == s1[l - 2 - j],
                self.env() == env0,
            decreases working_stack@.len(),
        {
            let ghost m = working_stack@.len() as int;
            let value = working_stack.pop().unwrap();
            self.push(value)?;
            proof {
                assert(value == s1[l - 1 - m]);
                assert(self.stack_view() =~= s1.take(l - n - 1) + seq![s1.last()] + s1.subrange(
                    l - n,
                    l - 1 - working_stack@.len(),
                ));
            }
        }
        self.push(b)?;
        proof {
            assert(self.stack_view() =~= s1.take(l - n - 1) + seq![s1.last()] + s1.subrange(
                l - n,
                l - 1,
            ) + seq![s1[l - n - 1]]);
        }
        Ok(())
    }

    /// The color sampled for a texture index and a coordinate. With no
    /// textures loaded this is always opaque white, whatever the arguments;
    /// otherwise index and coordinates wrap, so sampling never goes out of
    /// range.
    pub fn get_color(&self, texture_id: u32, x: u32, y: u32) -> (c: Color)
        ensures
            c == sample_env(self.env(), texture_id, x, y),
            self.env().textures.len() == 0 ==> c == (Color { r: 255, g: 255, b: 255, a: 255 }),
    {
        if self.textures.is_empty() {
            return Color { r: 255, g: 255, b: 255, a: 255 };
        }
        let texture = (texture_id as usize) % self.textures.len();
        self.textures[texture].sample(x, y)
    }

    /// Attempts to parse the given token.
    pub fn parse(&self, token: &str) -> (r: Result<Op, Error>)
        ensures
            match parse_ok(token@) {
                Some(op) => r == Ok::<Op, Error>(op),
                None => match r {
                    Err(Error::UnhandledToken { got }) => got@ == token@,
                    _ => false,
                },
            },
    {
        let chars = str_to_chars(token);
        parse_token(&chars)
    }

    /// Interprets a whole program: strips comments, tokenizes, parses and
    /// executes every token in source order stopping at the first error, and
    /// finally demands a single color as the stack's top value. Whatever is
    /// left below that color is ignored.
    pub fn interpret(&mut self, program: &str) -> (r: Result<Color, Error>)
        ensures
            ({
                let (s2, res) = interp(old(self).env(), old(self).stack_view(), program@);
                &&& final(self).stack_view() == s2
                &&& final(self).env() == old(self).env()
                &&& match (res, r) {
                    (Ok(c), Ok(c2)) => c2 == c,
                    (Err(f), Err(e)) => fault_matches(e, f),
                    _ => false,
                }
            }),
    {
        let ghost env0 = self.env();
        let ghost s0 = self.stack_view();

        // Replace all comments, then split into tokens.
        let raw = str_to_chars(program);
        let cleaned = clean_text(&raw);
        let toks = split_tokens(&cleaned);
        let ghost tokens = views_of(toks@);

        // Interpret the program.
        proof {
            assert(tokens.skip(0) =~= tokens);
        }
        let mut idx: usize = 0;
        while idx < toks.len()
            invariant
                idx <= toks@.len(),
                tokens == views_of(toks@),
                tokens == tokenize(clean(program@)),
                env0 == old(self).env(),
                s0 == old(self).stack_view(),
                self.env() == env0,
                run(env0, s0, tokens) == run(env0, self.stack_view(), tokens.skip(idx as int)),
            decreases toks@.len() - idx,
        {
            proof {
                assert(tokens.skip(idx as int)[0] == tokens[idx as int]);
            }
            let op = match parse_token(&toks[idx]) {
                Ok(op) => op,
                Err(e) => {
                    return Err(e);
                },
            };
            match self.execute(op) {
                Ok(()) => {},
                Err(e) => {
                    return Err(e);
                },
            }
            idx += 1;
            proof {
                assert(tokens.skip(idx - 1).drop_first() =~= tokens.skip(idx as int));
            }
        }
        proof {
            assert(tokens.skip(toks@.len() as int) =~= Seq::<Seq<char>>::empty());
        }
        // Return the final color.
        self.pop_color()
    }

    /// The top of the stack, if any, without removing it.
    pub fn peek(&self) -> (r: Option<&Data>)
        ensures
            match r {
                None => self.stack_view().len() == 0,
                Some(d) => self.stack_view().len() > 0 && *d == self.stack_view().last(),
            },
    {
        if self.stack.len() == 0 {
            None
        } else {
            Some(&self.stack[self.stack.len() - 1])
        }
    }
}

} // verus!
