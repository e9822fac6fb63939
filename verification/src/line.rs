//! One line of input: its tokens, handed out one at a time or drained in
//! bulk into a typed sequence.

use vstd::prelude::*;

use crate::text::split_seq;
use crate::text::split_str;
use crate::text::views_of;
use crate::token::TokenValue;

verus! {

/// An ordered sequence of tokens produced from one line of raw text by
/// splitting on the single-space separator. Extracting a token advances
/// past it, irreversibly. Its view is the sequence of remaining tokens.
pub struct Line {
    tokens: Vec<String>,
}

impl View for Line {
    type V = Seq<Seq<char>>;

    closed spec fn view(&self) -> Seq<Seq<char>> {
        views_of(self.tokens@)
    }
}

/// The tokens of `toks` that parse as `T`, in order; tokens that fail to
/// parse are silently dropped.
pub open spec fn filter_parsed<T: TokenValue>(toks: Seq<Seq<char>>) -> Seq<<T as View>::V>
    decreases toks.len(),
{
    if toks.len() == 0 {
        Seq::empty()
    } else {
        match T::spec_parse(toks[0]) {
            Some(v) => seq![v] + filter_parsed::<T>(toks.skip(1)),
            None => filter_parsed::<T>(toks.skip(1)),
        }
    }
}

/// A line's remaining tokens after one `next_data` call: unchanged when
/// exhausted, else advanced past the first token.
pub open spec fn line_step(l: Seq<Seq<char>>) -> Seq<Seq<char>> {
    if l.len() == 0 {
        l
    } else {
        l.skip(1)
    }
}

/// What one `next_data` call yields: absence when the line is exhausted,
/// else the first remaining token.
pub open spec fn line_yield(l: Seq<Seq<char>>) -> Option<Seq<char>> {
    if l.len() == 0 {
        None
    } else {
        Some(l[0])
    }
}

impl Line {
    /// Tokenizes one line of text: the pieces of `value` between single
    /// spaces, so consecutive spaces yield empty tokens.
    pub fn new(value: &str) -> (l: Line)
        ensures
            l@ == split_seq(value@, ' '),
    {
        Line { tokens: split_str(value, ' ') }
    }

    /// Returns the next unconsumed token and advances past it, or reports
    /// absence once the line is exhausted.
    pub fn next_data(&mut self) -> (r: Option<String>)
        ensures
            final(self)@ == line_step(old(self)@),
            (r is Some) <==> (line_yield(old(self)@) is Some),
            r matches Some(s) ==> line_yield(old(self)@) == Some(s@),
    {
        if self.tokens.len() == 0 {
            None
        } else {
            let s = self.tokens.remove(0);
            proof {
                assert(old(self).tokens@.remove(0) =~= old(self).tokens@.skip(1));
                assert(views_of(old(self).tokens@.skip(1)) =~= views_of(old(self).tokens@).skip(
                    1,
                ));
            }
            Some(s)
        }
    }

    /// Consumes the whole remaining line, parsing each token as `T` and
    /// silently discarding tokens that fail to parse; the result is empty,
    /// not an error, if no token parses.
    pub fn to_vec<T: TokenValue>(self) -> (r: Vec<T>)
        ensures
            views_of(r@) == filter_parsed::<T>(self@),
    {
        let ghost toks = self@;
        let mut r: Vec<T> = Vec::new();
        let mut i: usize = 0;
        let n = self.tokens.len();
        proof {
            assert(toks.skip(0) =~= toks);
            assert(views_of(r@) + filter_parsed::<T>(toks) =~= filter_parsed::<T>(toks));
        }
        while i < n
            invariant
                n == self.tokens.len(),
                i <= n,
                toks == self@,
                filter_parsed::<T>(toks) == views_of(r@) + filter_parsed::<T>(
                    toks.skip(i as int),
                ),
            decreases n - i,
        {
            proof {
                assert(toks.skip(i as int)[0] == toks[i as int]);
                assert(toks.skip(i as int).skip(1) =~= toks.skip(i as int + 1));
                assert(toks[i as int] == self.tokens@[i as int]@);
            }
            match T::parse_token(self.tokens[i].as_str()) {
                Some(v) => {
                    proof {
                        assert(views_of(r@.push(v)) =~= views_of(r@).push(v@));
                        assert(views_of(r@).push(v@) =~= views_of(r@) + seq![v@]);
                        assert((views_of(r@) + seq![v@]) + filter_parsed::<T>(
                            toks.skip(i as int + 1),
                        ) =~= views_of(r@) + (seq![v@] + filter_parsed::<T>(
                            toks.skip(i as int + 1),
                        )));
                    }
                    r.push(v);
                },
                None => {},
            }
            i += 1;
        }
        proof {
            assert(filter_parsed::<T>(toks.skip(n as int)) =~= Seq::<<T as View>::V>::empty());
            assert(views_of(r@) + Seq::<<T as View>::V>::empty() =~= views_of(r@));
        }
        r
    }
}

} // verus!
