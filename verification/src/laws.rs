//! Laws of the operation table, each stated and proved over the exact
//! semantics [`step`] and [`run_ops`].

use vstd::prelude::*;

use crate::data::{Color, Data};
use crate::error::Error;
use crate::machine::{num_of, run_ops, sample_env, step, Env};
use crate::op::Op;

verus! {

/// Pushing `a`, then an operand `b`, adding, pushing `b` again and
/// subtracting yields `a` back on top of an unchanged stack — for the
/// starting values `a` whose doubling wraps to zero, the values on which
/// `Subtract`'s operand order (the fresh operand is the minuend, the sum the
/// subtrahend) closes the round trip.
pub proof fn lemma_add_then_subtract_round_trip(env: Env, s: Seq<Data>, a: u32, b: u32)
    requires
        a == 0 || a == 0x8000_0000u32,
    ensures
        run_ops(
            env,
            s,
            seq![
                Op::Data(Data::U32(a)),
                Op::Data(Data::U32(b)),
                Op::Add,
                Op::Data(Data::U32(b)),
                Op::Subtract,
            ],
        ) == (s.push(Data::U32(a)), None::<Error>),
{
    reveal_with_fuel(run_ops, 7);
    let ops = seq![
        Op::Data(Data::U32(a)),
        Op::Data(Data::U32(b)),
        Op::Add,
        Op::Data(Data::U32(b)),
        Op::Subtract,
    ];
    let sum = a.wrapping_add(b);
    let s1 = s.push(Data::U32(a));
    let s2 = s1.push(Data::U32(b));
    let s3 = s.push(Data::U32(sum));
    let s4 = s3.push(Data::U32(b));
    assert(s2.drop_last() =~= s1);
    assert(s1.drop_last() =~= s);
    assert(step(Op::Add, s2, env) == (s.push(Data::U32(b.wrapping_add(a))), None::<Error>));
    assert(b.wrapping_add(a) == sum);
    assert(s4.drop_last() =~= s3);
    assert(s3.drop_last() =~= s);
    assert(step(Op::Subtract, s4, env) == (s.push(Data::U32(b.wrapping_sub(sum))), None::<Error>));
    assert(b.wrapping_sub(sum) == a);
    assert(ops.drop_first().drop_first().drop_first().drop_first().drop_first() =~= Seq::<
        Op,
    >::empty());
    assert(ops.drop_first()[0] == Op::Data(Data::U32(b)));
    assert(ops.drop_first().drop_first()[0] == Op::Add);
    assert(ops.drop_first().drop_first().drop_first()[0] == Op::Data(Data::U32(b)));
    assert(ops.drop_first().drop_first().drop_first().drop_first()[0] == Op::Subtract);
}

/// Duplicating the top value and then dropping the duplicate leaves the
/// stack as it was: the same depth, the same values.
pub proof fn lemma_dup_then_drop(env: Env, s: Seq<Data>)
    requires
        s.len() > 0,
    ensures
        run_ops(env, s, seq![Op::Dup, Op::Drop]) == (s, None::<Error>),
{
    reveal_with_fuel(run_ops, 4);
    let ops = seq![Op::Dup, Op::Drop];
    let s1 = s.drop_last().push(s.last()).push(s.last());
    assert(step(Op::Dup, s, env) == (s1, None::<Error>));
    assert(s1.drop_last() =~= s);
    assert(ops.drop_first()[0] == Op::Drop);
    assert(ops.drop_first().drop_first() =~= Seq::<Op>::empty());
}

/// A rotation count of zero changes nothing: the count is consumed and the
/// rest of the stack stays exactly as it was.
pub proof fn lemma_rot_n_zero(env: Env, s: Seq<Data>)
    ensures
        step(Op::RotN, s.push(Data::U32(0)), env) == (s, None::<Error>),
{
    assert(s.push(Data::U32(0)).drop_last() =~= s);
}

/// Pushing the four channels `r`, `g`, `b`, `a` in that order, making a
/// color and splitting it again puts the same four channel values back, in
/// the same stack positions.
pub proof fn lemma_make_then_split_color(env: Env, s: Seq<Data>, r: u8, g: u8, b: u8, a: u8)
    ensures
        run_ops(
            env,
            s,
            seq![
                Op::Data(Data::U8(r)),
                Op::Data(Data::U8(g)),
                Op::Data(Data::U8(b)),
                Op::Data(Data::U8(a)),
                Op::MakeColor,
                Op::SplitColor,
            ],
        ) == (
            s.push(Data::U8(r)).push(Data::U8(g)).push(Data::U8(b)).push(Data::U8(a)),
            None::<Error>,
        ),
{
    reveal_with_fuel(run_ops, 8);
    let ops = seq![
        Op::Data(Data::U8(r)),
        Op::Data(Data::U8(g)),
        Op::Data(Data::U8(b)),
        Op::Data(Data::U8(a)),
        Op::MakeColor,
        Op::SplitColor,
    ];
    let s4 = s.push(Data::U8(r)).push(Data::U8(g)).push(Data::U8(b)).push(Data::U8(a));
    let c = Color { r, g, b, a };
    assert(s4.drop_last() =~= s.push(Data::U8(r)).push(Data::U8(g)).push(Data::U8(b)));
    assert(s4.drop_last().drop_last() =~= s.push(Data::U8(r)).push(Data::U8(g)));
    assert(s4.drop_last().drop_last().drop_last() =~= s.push(Data::U8(r)));
    assert(s4.drop_last().drop_last().drop_last().drop_last() =~= s);
    assert(step(Op::MakeColor, s4, env) == (s.push(Data::Color(c)), None::<Error>));
    assert(s.push(Data::Color(c)).drop_last() =~= s);
    assert(step(Op::SplitColor, s.push(Data::Color(c)), env) == (s4, None::<Error>));
    assert(ops.drop_first()[0] == Op::Data(Data::U8(g)));
    assert(ops.drop_first().drop_first()[0] == Op::Data(Data::U8(b)));
    assert(ops.drop_first().drop_first().drop_first()[0] == Op::Data(Data::U8(a)));
    assert(ops.drop_first().drop_first().drop_first().drop_first()[0] == Op::MakeColor);
    assert(ops.drop_first().drop_first().drop_first().drop_first().drop_first()[0]
        == Op::SplitColor);
    assert(ops.drop_first().drop_first().drop_first().drop_first().drop_first().drop_first() =~= Seq::<
        Op,
    >::empty());
}

/// With no textures loaded, sampling a texture pixel pushes opaque white,
/// whatever the index and coordinates on the stack.
pub proof fn lemma_texture_pixel_without_textures(env: Env, s: Seq<Data>, x: u32, y: u32, idx: u32)
    requires
        env.textures.len() == 0,
    ensures
        step(
            Op::TexturePixel,
            s.push(Data::U32(x)).push(Data::U32(y)).push(Data::U32(idx)),
            env,
        ) == (s.push(Data::Color(Color { r: 255, g: 255, b: 255, a: 255 })), None::<Error>),
{
    let s3 = s.push(Data::U32(x)).push(Data::U32(y)).push(Data::U32(idx));
    assert(s3.drop_last() =~= s.push(Data::U32(x)).push(Data::U32(y)));
    assert(s3.drop_last().drop_last() =~= s.push(Data::U32(x)));
    assert(s3.drop_last().drop_last().drop_last() =~= s);
    assert(sample_env(env, idx, x, y) == (Color { r: 255, g: 255, b: 255, a: 255 }));
}

/// Dividing by zero fails: the two operands are consumed, nothing is pushed,
/// and the stack below them is left exactly as it was.
pub proof fn lemma_divide_by_zero(env: Env, s: Seq<Data>, zero: Data, n: Data)
    requires
        num_of(zero) == Some(0u32),
        num_of(n) is Some,
    ensures
        step(Op::Divide, s.push(zero).push(n), env) == (s, Some(Error::DivideByZero)),
{
    assert(s.push(zero).push(n).drop_last() =~= s.push(zero));
    assert(s.push(zero).drop_last() =~= s);
}

/// Taking a modulus of zero fails the same way: the two operands are
/// consumed, nothing is pushed, and the stack below them is untouched.
pub proof fn lemma_modulo_by_zero(env: Env, s: Seq<Data>, zero: Data, n: Data)
    requires
        num_of(zero) == Some(0u32),
        num_of(n) is Some,
    ensures
        step(Op::Modulo, s.push(zero).push(n), env) == (s, Some(Error::DivideByZero)),
{
    assert(s.push(zero).push(n).drop_last() =~= s.push(zero));
    assert(s.push(zero).drop_last() =~= s);
}

} // verus!
