//! Numeric semantics of the emitted rewrites.
//!
//! Evaluation is defined for the fragment the conversion pass emits:
//! numerals, parentheses, the native bitwise operators and complement, on
//! 64-bit integers with the shift behaviour of the target dialect (a shift
//! by 64 or more yields zero).  The laws at the end show that a rewritten
//! call evaluates, for every pair of operands in 32-bit range, to exactly
//! the legacy 32-bit operation's result.
use vstd::prelude::*;

use crate::ast::{BinOp, SpecExpr, UnOp};
use crate::bit32::{
    Bit32Method, spec_arity, spec_binop_of, spec_mask32, spec_mask_text, spec_rewrite,
    spec_rewrite_binary, spec_rewrite_not,
};

verus! {

pub open spec fn spec_hex_digit(c: char) -> Option<u64> {
    if '0' <= c <= '9' {
        Option::Some((c as u64 - '0' as u64) as u64)
    } else if 'a' <= c <= 'f' {
        Option::Some((10 + c as u64 - 'a' as u64) as u64)
    } else if 'A' <= c <= 'F' {
        Option::Some((10 + c as u64 - 'A' as u64) as u64)
    } else {
        Option::None
    }
}

pub open spec fn spec_dec_digit(c: char) -> Option<u64> {
    if '0' <= c <= '9' {
        Option::Some((c as u64 - '0' as u64) as u64)
    } else {
        Option::None
    }
}

/// The value of a hexadecimal digit string, as an unbounded natural.
pub open spec fn spec_hex_nat(s: Seq<char>) -> Option<nat>
    decreases s.len(),
{
    if s.len() == 0 {
        Option::None
    } else {
        match spec_hex_digit(s.last()) {
            Option::Some(d) => {
                if s.len() == 1 {
                    Option::Some(d as nat)
                } else {
                    match spec_hex_nat(s.drop_last()) {
                        Option::Some(rest) => Option::Some((rest * 16 + d) as nat),
                        Option::None => Option::None,
                    }
                }
            },
            Option::None => Option::None,
        }
    }
}

/// The value of a decimal digit string, as an unbounded natural.
pub open spec fn spec_dec_nat(s: Seq<char>) -> Option<nat>
    decreases s.len(),
{
    if s.len() == 0 {
        Option::None
    } else {
        match spec_dec_digit(s.last()) {
            Option::Some(d) => {
                if s.len() == 1 {
                    Option::Some(d as nat)
                } else {
                    match spec_dec_nat(s.drop_last()) {
                        Option::Some(rest) => Option::Some((rest * 10 + d) as nat),
                        Option::None => Option::None,
                    }
                }
            },
            Option::None => Option::None,
        }
    }
}

/// The value of a numeral's text: `0x...` is hexadecimal, anything else is
/// read as decimal; a value beyond 64 bits or a malformed digit gives none.
pub open spec fn spec_numeral_value(s: Seq<char>) -> Option<u64> {
    let n = if s.len() >= 2 && s[0] == '0' && (s[1] == 'x' || s[1] == 'X') {
        spec_hex_nat(s.subrange(2, s.len() as int))
    } else {
        spec_dec_nat(s)
    };
    match n {
        Option::Some(v) => {
            if v <= u64::MAX {
                Option::Some(v as u64)
            } else {
                Option::None
            }
        },
        Option::None => Option::None,
    }
}

/// A native binary operator on 64-bit integers; shifts by 64 or more give 0.
pub open spec fn spec_apply_binop(op: BinOp, a: u64, b: u64) -> u64 {
    match op {
        BinOp::Ampersand => a & b,
        BinOp::Pipe => a | b,
        BinOp::Tilde => a ^ b,
        BinOp::DoubleLessThan => if b >= 64 {
            0
        } else {
            a << b
        },
        BinOp::DoubleGreaterThan => if b >= 64 {
            0
        } else {
            a >> b
        },
    }
}

/// Evaluation of the numeric fragment; anything else has no value here.
pub open spec fn spec_eval(e: SpecExpr) -> Option<u64>
    decreases e,
{
    match e {
        SpecExpr::Number(t) => spec_numeral_value(t),
        SpecExpr::Parentheses(x) => spec_eval(*x),
        SpecExpr::BinaryOperator(l, op, r) => match (spec_eval(*l), spec_eval(*r)) {
            (Option::Some(a), Option::Some(b)) => Option::Some(spec_apply_binop(op, a, b)),
            _ => Option::None,
        },
        SpecExpr::UnaryOperator(UnOp::Tilde, x) => match spec_eval(*x) {
            Option::Some(a) => Option::Some(!a),
            Option::None => Option::None,
        },
        _ => Option::None,
    }
}

/// The legacy library's 32-bit operations, on operands below 2^32.
/// The second operand is ignored by the complement.
pub open spec fn spec_bit32_sem(m: Bit32Method, a: u64, b: u64) -> u64 {
    match m {
        Bit32Method::And => a & b,
        Bit32Method::Or => a | b,
        Bit32Method::Xor => a ^ b,
        Bit32Method::RightShift => if b >= 32 {
            0
        } else {
            (a >> b) & 0xFFFFFFFF
        },
        Bit32Method::LeftShift => if b >= 32 {
            0
        } else {
            (a << b) & 0xFFFFFFFF
        },
        Bit32Method::Not => (!a) & 0xFFFFFFFF,
    }
}

/// The masking constant's text reads back as the 32-bit all-ones value.
pub proof fn lemma_mask_value()
    ensures
        spec_numeral_value(spec_mask_text()) == Option::Some(0xFFFFFFFFu64),
{
    reveal_strlit("0xFFFFFFFF");
    let s = spec_mask_text();
    assert(s.len() == 10);
    assert(s[0] == '0' && s[1] == 'x');
    let h = s.subrange(2, 10);
    assert(h.len() == 8);
    assert(forall|i: int| 0 <= i < 8 ==> h[i] == 'F') by {
        assert(h[0] == s[2] && h[1] == s[3] && h[2] == s[4] && h[3] == s[5] && h[4] == s[6] && h[5]
            == s[7] && h[6] == s[8] && h[7] == s[9]);
    }
    assert(spec_hex_digit('F') == Option::Some(15u64));
    assert(h.subrange(0, 1).len() == 1 && h.subrange(0, 1).last() == 'F');
    assert(spec_hex_nat(h.subrange(0, 1)) == Option::Some(15nat));
    assert(h.subrange(0, 2).drop_last() =~= h.subrange(0, 1));
    assert(spec_hex_nat(h.subrange(0, 2)) == Option::Some(0xFFnat));
    assert(h.subrange(0, 3).drop_last() =~= h.subrange(0, 2));
    assert(spec_hex_nat(h.subrange(0, 3)) == Option::Some(0xFFFnat));
    assert(h.subrange(0, 4).drop_last() =~= h.subrange(0, 3));
    assert(spec_hex_nat(h.subrange(0, 4)) == Option::Some(0xFFFFnat));
    assert(h.subrange(0, 5).drop_last() =~= h.subrange(0, 4));
    assert(spec_hex_nat(h.subrange(0, 5)) == Option::Some(0xFFFFFnat));
    assert(h.subrange(0, 6).drop_last() =~= h.subrange(0, 5));
    assert(spec_hex_nat(h.subrange(0, 6)) == Option::Some(0xFFFFFFnat));
    assert(h.subrange(0, 7).drop_last() =~= h.subrange(0, 6));
    assert(spec_hex_nat(h.subrange(0, 7)) == Option::Some(0xFFFFFFFnat));
    assert(h.subrange(0, 8).drop_last() =~= h.subrange(0, 7));
    assert(h.subrange(0, 8) =~= h);
    assert(spec_hex_nat(h) == Option::Some(0xFFFFFFFFnat));
}

/// `x & 0xFFFFFFFF` evaluates as expected once the operand does.
pub proof fn lemma_eval_mask32(e: SpecExpr, v: u64)
    requires
        spec_eval(e) == Option::Some(v),
    ensures
        spec_eval(spec_mask32(e)) == Option::Some(v & 0xFFFFFFFFu64),
{
    lemma_mask_value();
    assert(spec_eval(SpecExpr::Number(spec_mask_text())) == Option::Some(0xFFFFFFFFu64));
}

/// The rewrite of an arity-two operation evaluates, for operands in 32-bit
/// range, to the legacy operation's result, itself in 32-bit range.
pub proof fn lemma_rewrite_binary_eval(
    m: Bit32Method,
    ea: SpecExpr,
    eb: SpecExpr,
    a: u64,
    b: u64,
)
    requires
        !(m is Not),
        spec_eval(ea) == Option::Some(a),
        spec_eval(eb) == Option::Some(b),
        a < 0x100000000,
        b < 0x100000000,
    ensures
        spec_eval(spec_rewrite_binary(m, ea, eb)) == Option::Some(spec_bit32_sem(m, a, b)),
        spec_bit32_sem(m, a, b) < 0x100000000,
{
    let op = spec_binop_of(m);
    let raw = spec_apply_binop(op, a, b);
    let bin = SpecExpr::BinaryOperator(Box::new(ea), op, Box::new(eb));
    let paren = SpecExpr::Parentheses(Box::new(bin));
    assert(spec_eval(bin) == Option::Some(raw));
    assert(spec_eval(paren) == Option::Some(raw));
    lemma_eval_mask32(paren, raw);
    assert(spec_eval(spec_rewrite_binary(m, ea, eb)) == Option::Some(raw & 0xFFFFFFFFu64));
    match m {
        Bit32Method::And => {
            assert((a & b) & 0xFFFFFFFFu64 == a & b && a & b < 0x100000000) by (bit_vector)
                requires
                    a < 0x100000000u64,
                    b < 0x100000000u64,
            ;
        },
        Bit32Method::Or => {
            assert((a | b) & 0xFFFFFFFFu64 == a | b && a | b < 0x100000000) by (bit_vector)
                requires
                    a < 0x100000000u64,
                    b < 0x100000000u64,
            ;
        },
        Bit32Method::Xor => {
            assert((a ^ b) & 0xFFFFFFFFu64 == a ^ b && a ^ b < 0x100000000) by (bit_vector)
                requires
                    a < 0x100000000u64,
                    b < 0x100000000u64,
            ;
        },
        Bit32Method::RightShift => {
            assert((if b >= 64 {
                0u64
            } else {
                a >> b
            }) & 0xFFFFFFFFu64 == (if b >= 32 {
                0u64
            } else {
                (a >> b) & 0xFFFFFFFFu64
            }) && (if b >= 32 {
                0u64
            } else {
                (a >> b) & 0xFFFFFFFFu64
            }) < 0x100000000) by (bit_vector)
                requires
                    a < 0x100000000u64,
            ;
        },
        Bit32Method::LeftShift => {
            assert((if b >= 64 {
                0u64
            } else {
                a << b
            }) & 0xFFFFFFFFu64 == (if b >= 32 {
                0u64
            } else {
                (a << b) & 0xFFFFFFFFu64
            }) && (if b >= 32 {
                0u64
            } else {
                (a << b) & 0xFFFFFFFFu64
            }) < 0x100000000) by (bit_vector)
                requires
                    a < 0x100000000u64,
            ;
        },
        Bit32Method::Not => {},
    }
}

/// The rewrite of the complement evaluates, for an operand in 32-bit range,
/// to the legacy 32-bit complement, itself in 32-bit range.
pub proof fn lemma_rewrite_not_eval(ea: SpecExpr, a: u64)
    requires
        spec_eval(ea) == Option::Some(a),
        a < 0x100000000,
    ensures
        spec_eval(spec_rewrite_not(ea)) == Option::Some(spec_bit32_sem(Bit32Method::Not, a, 0)),
        spec_bit32_sem(Bit32Method::Not, a, 0) < 0x100000000,
{
    lemma_eval_mask32(ea, a);
    let inner = spec_mask32(ea);
    let paren = SpecExpr::Parentheses(Box::new(inner));
    assert(spec_eval(paren) == Option::Some(a & 0xFFFFFFFFu64));
    let bnot = SpecExpr::UnaryOperator(UnOp::Tilde, Box::new(paren));
    assert(spec_eval(bnot) == Option::Some(!(a & 0xFFFFFFFFu64)));
    let bnot_paren = SpecExpr::Parentheses(Box::new(bnot));
    assert(spec_eval(bnot_paren) == Option::Some(!(a & 0xFFFFFFFFu64)));
    lemma_eval_mask32(bnot_paren, !(a & 0xFFFFFFFFu64));
    assert((!(a & 0xFFFFFFFFu64)) & 0xFFFFFFFFu64 == (!a) & 0xFFFFFFFFu64 && (!a) & 0xFFFFFFFFu64
        < 0x100000000) by (bit_vector);
}

/// For every call the pass rewrites, with all needed operands evaluating to
/// values in 32-bit range, the rewritten expression evaluates to the legacy
/// operation's result.
pub proof fn lemma_rewrite_preserves_value(m: Bit32Method, args: Seq<SpecExpr>, a: u64, b: u64)
    requires
        args.len() >= spec_arity(m),
        spec_eval(args[0]) == Option::Some(a),
        !(m is Not) ==> spec_eval(args[1]) == Option::Some(b),
        m is Not ==> b == 0,
        a < 0x100000000,
        b < 0x100000000,
    ensures
        spec_rewrite(m, args) is Some,
        spec_eval(spec_rewrite(m, args)->Some_0) == Option::Some(spec_bit32_sem(m, a, b)),
        spec_bit32_sem(m, a, b) < 0x100000000,
{
    if m is Not {
        lemma_rewrite_not_eval(args[0], a);
    } else {
        lemma_rewrite_binary_eval(m, args[0], args[1], a, b);
    }
}

} // verus!
