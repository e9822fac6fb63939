//! Per-parameter acceptors: one for each parameter shape — scalar,
//! sequence, two-dimensional sequence — each carrying the extraction
//! discipline of the corresponding [`Lines`] consumer.

use core::marker::PhantomData;

use vstd::prelude::*;

use crate::lines::spec_consume;
use crate::lines::spec_consume_to_vec;
use crate::lines::spec_consume_two_d;
use crate::lines::views2_of;
use crate::lines::Lines;
use crate::text::views_of;
use crate::token::TokenValue;

verus! {

/// Accepts one scalar parameter, exactly as [`Lines::consume`] takes it:
/// the front line's next token when it parses, spilling over to later lines
/// when the front line is exhausted or its token fails to parse; absence
/// only once the buffer is empty.
pub struct FromStrArgument<T: TokenValue> {
    _marker: PhantomData<T>,
}

impl<T: TokenValue> FromStrArgument<T> {
    pub fn new() -> (r: Self) {
        FromStrArgument { _marker: PhantomData }
    }

    /// Consumes one scalar of type `T` from the buffer, discarding front
    /// lines that are exhausted or whose next token fails to parse until a
    /// token parses or the buffer is empty.
    pub fn consume(&self, lines: &mut Lines) -> (r: Option<T>)
        ensures
            ({
                let (v, rest) = spec_consume::<T>(old(lines)@);
                final(lines)@ == rest && ((r is Some) <==> (v is Some)) && (r matches Some(x)
                    ==> v == Some(x@))
            }),
    {
        lines.consume()
    }
}

/// Accepts one sequence parameter, exactly as [`Lines::consume_to_vec`]
/// takes it: front lines are popped and drained until one yields a
/// non-empty typed row, blank lines silently discarded.
pub struct VecArgument<T: TokenValue> {
    _marker: PhantomData<T>,
}

impl<T: TokenValue> VecArgument<T> {
    pub fn new() -> (r: Self) {
        VecArgument { _marker: PhantomData }
    }

    /// Consumes one line as a typed row, skipping and discarding lines that
    /// drain empty; absence once the buffer is exhausted without a row.
    pub fn consume(&self, lines: &mut Lines) -> (r: Option<Vec<T>>)
        ensures
            ({
                let (v, rest) = spec_consume_to_vec::<T>(old(lines)@);
                final(lines)@ == rest && ((r is Some) <==> (v is Some)) && (r matches Some(x)
                    ==> v == Some(views_of(x@)))
            }),
    {
        lines.consume_to_vec()
    }
}

/// Accepts one two-dimensional sequence parameter: the whole remaining
/// buffer, exactly as [`Lines::consume_to_two_d_vec`] takes it.
pub struct TwoDVecArgument<T: TokenValue> {
    _marker: PhantomData<T>,
}

impl<T: TokenValue> TwoDVecArgument<T> {
    pub fn new() -> (r: Self) {
        TwoDVecArgument { _marker: PhantomData }
    }

    /// Drains every remaining line as a typed row, dropping blank rows;
    /// absence on an already-empty buffer.
    pub fn consume(&self, lines: &mut Lines) -> (r: Option<Vec<Vec<T>>>)
        ensures
            ({
                let (v, rest) = spec_consume_two_d::<T>(old(lines)@);
                final(lines)@ == rest && ((r is Some) <==> (v is Some)) && (r matches Some(x)
                    ==> v == Some(views2_of(x@)))
            }),
    {
        lines.consume_to_two_d_vec()
    }
}

} // verus!
