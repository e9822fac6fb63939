//! Laws of the consumption protocol, proved once and for all: exhaustive
//! tokenization yields every token in order and then absence forever, and
//! no consumer ever grows the buffer.

use vstd::prelude::*;

use crate::line::line_step;
use crate::line::line_yield;
use crate::lines::spec_consume;
use crate::lines::spec_consume_to_vec;
use crate::lines::spec_consume_two_d;
use crate::lines::spec_next_data;
use crate::text::split_seq;
use crate::token::TokenValue;

verus! {

/// A line's remaining tokens after `k` calls of `Line::next_data` on a line
/// that started with the tokens `toks`.
pub open spec fn tokens_after(toks: Seq<Seq<char>>, k: int) -> Seq<Seq<char>>
    decreases k,
{
    if k <= 0 {
        toks
    } else {
        line_step(tokens_after(toks, k - 1))
    }
}

/// Law: on a line built from text `t`, `next_data` called exhaustively
/// yields the tokens of `t` between single spaces, in order — the `k`-th
/// call yields token `k` while one remains — and yields absence forever
/// after the last.
pub proof fn lemma_next_token_exhaustive(t: Seq<char>, k: int)
    requires
        0 <= k,
    ensures
        ({
            let toks = split_seq(t, ' ');
            (k < toks.len() ==> tokens_after(toks, k) == toks.skip(k) && line_yield(
                tokens_after(toks, k),
            ) == Some(toks[k])) && (k >= toks.len() ==> tokens_after(toks, k).len() == 0
                && line_yield(tokens_after(toks, k)) is None)
        }),
    decreases k,
{
    let toks = split_seq(t, ' ');
    if k == 0 {
        assert(toks.skip(0) =~= toks);
    } else {
        lemma_next_token_exhaustive(t, k - 1);
        if k - 1 < toks.len() {
            assert(toks.skip(k - 1).skip(1) =~= toks.skip(k));
        }
    }
}

/// Size of a buffer: its remaining lines together with all their remaining
/// tokens; the measure that no consumer may increase.
pub open spec fn buffer_size(buf: Seq<Seq<Seq<char>>>) -> nat
    decreases buf.len(),
{
    if buf.len() == 0 {
        0
    } else {
        1 + buf[0].len() + buffer_size(buf.skip(1))
    }
}

proof fn lemma_buffer_size_update_front(buf: Seq<Seq<Seq<char>>>)
    requires
        buf.len() > 0,
        buf[0].len() > 0,
    ensures
        buffer_size(buf.update(0, buf[0].skip(1))) < buffer_size(buf),
{
    let upd = buf.update(0, buf[0].skip(1));
    assert(upd.skip(1) =~= buf.skip(1));
}

/// Law: pulling one token never grows the buffer.
pub proof fn lemma_next_data_monotone(buf: Seq<Seq<Seq<char>>>)
    ensures
        buffer_size(spec_next_data(buf).1) <= buffer_size(buf),
{
    if buf.len() > 0 && buf[0].len() > 0 {
        lemma_buffer_size_update_front(buf);
    }
}

/// Law: consuming one scalar never grows the buffer.
pub proof fn lemma_consume_monotone<T: TokenValue>(buf: Seq<Seq<Seq<char>>>)
    ensures
        buffer_size(spec_consume::<T>(buf).1) <= buffer_size(buf),
    decreases buf.len(),
{
    if buf.len() == 0 {
    } else if buf[0].len() > 0 {
        match T::spec_parse(buf[0][0]) {
            Some(_) => {
                lemma_buffer_size_update_front(buf);
            },
            None => {
                lemma_consume_monotone::<T>(buf.skip(1));
            },
        }
    } else {
        lemma_consume_monotone::<T>(buf.skip(1));
    }
}

/// Law: consuming one line as a sequence never grows the buffer.
pub proof fn lemma_consume_to_vec_monotone<T: TokenValue>(buf: Seq<Seq<Seq<char>>>)
    ensures
        buffer_size(spec_consume_to_vec::<T>(buf).1) <= buffer_size(buf),
    decreases buf.len(),
{
    if buf.len() > 0 {
        lemma_consume_to_vec_monotone::<T>(buf.skip(1));
    }
}

/// Law: the two-dimensional consumer empties or keeps the buffer, never
/// grows it.
pub proof fn lemma_consume_two_d_monotone<T: TokenValue>(buf: Seq<Seq<Seq<char>>>)
    ensures
        buffer_size(spec_consume_two_d::<T>(buf).1) <= buffer_size(buf),
{
}

/// Law: extending the buffer adds exactly the size of what is appended, so
/// `extend` is the only operation that can increase the measure.
pub proof fn lemma_extend_adds(a: Seq<Seq<Seq<char>>>, b: Seq<Seq<Seq<char>>>)
    ensures
        buffer_size(a + b) == buffer_size(a) + buffer_size(b),
    decreases a.len(),
{
    if a.len() == 0 {
        assert(a + b =~= b);
    } else {
        assert((a + b).skip(1) =~= a.skip(1) + b);
        assert((a + b)[0] == a[0]);
        lemma_extend_adds(a.skip(1), b);
    }
}

} // verus!
