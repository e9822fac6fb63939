//! The line buffer: a front-discard queue of [`Line`] values and the three
//! extraction disciplines over it.

use vstd::prelude::*;

use crate::line::filter_parsed;
use crate::line::Line;
use crate::text::lines_of;
use crate::text::views_of;
use crate::token::TokenValue;

verus! {

/// The sequence of views of the rows of `s`.
pub open spec fn views2_of<T: View>(s: Seq<Vec<T>>) -> Seq<Seq<<T as View>::V>> {
    s.map_values(|v: Vec<T>| views_of(v@))
}

/// One token pulled from the front line without popping it: absence if the
/// buffer is empty or the front line is exhausted, else the front line's
/// first token, with the cursor advanced past it.
pub open spec fn spec_next_data(buf: Seq<Seq<Seq<char>>>) -> (Option<Seq<char>>, Seq<
    Seq<Seq<char>>,
>) {
    if buf.len() == 0 {
        (None, buf)
    } else if buf[0].len() == 0 {
        (None, buf)
    } else {
        (Some(buf[0][0]), buf.update(0, buf[0].skip(1)))
    }
}

/// One scalar of type `T` consumed from the buffer: the front line's next
/// token if it parses; otherwise the front line is discarded (together with
/// the failing token) and the search goes on with the next line; absence
/// only once the buffer is empty.
pub open spec fn spec_consume<T: TokenValue>(buf: Seq<Seq<Seq<char>>>) -> (Option<
    <T as View>::V,
>, Seq<Seq<Seq<char>>>)
    decreases buf.len(),
{
    if buf.len() == 0 {
        (None, buf)
    } else if buf[0].len() > 0 {
        match T::spec_parse(buf[0][0]) {
            Some(v) => (Some(v), buf.update(0, buf[0].skip(1))),
            None => spec_consume::<T>(buf.skip(1)),
        }
    } else {
        spec_consume::<T>(buf.skip(1))
    }
}

/// One line consumed as a typed sequence: front lines are popped and
/// drained until one yields a non-empty row, which is the result; absence
/// once the buffer is exhausted without such a line.
pub open spec fn spec_consume_to_vec<T: TokenValue>(buf: Seq<Seq<Seq<char>>>) -> (Option<
    Seq<<T as View>::V>,
>, Seq<Seq<Seq<char>>>)
    decreases buf.len(),
{
    if buf.len() == 0 {
        (None, buf)
    } else {
        let row = filter_parsed::<T>(buf[0]);
        if row.len() > 0 {
            (Some(row), buf.skip(1))
        } else {
            spec_consume_to_vec::<T>(buf.skip(1))
        }
    }
}

/// All remaining lines drained as typed rows, with lines that yield an
/// empty row dropped from the result.
pub open spec fn two_d_rows<T: TokenValue>(buf: Seq<Seq<Seq<char>>>) -> Seq<Seq<<T as View>::V>>
    decreases buf.len(),
{
    if buf.len() == 0 {
        Seq::empty()
    } else {
        let row = filter_parsed::<T>(buf[0]);
        if row.len() > 0 {
            seq![row] + two_d_rows::<T>(buf.skip(1))
        } else {
            two_d_rows::<T>(buf.skip(1))
        }
    }
}

/// The whole remaining buffer consumed as a two-dimensional typed sequence:
/// absence on an already-empty buffer, else every line is popped and the
/// non-blank rows are returned in order.
pub open spec fn spec_consume_two_d<T: TokenValue>(buf: Seq<Seq<Seq<char>>>) -> (Option<
    Seq<Seq<<T as View>::V>>,
>, Seq<Seq<Seq<char>>>) {
    if buf.len() == 0 {
        (None, buf)
    } else {
        (Some(two_d_rows::<T>(buf)), Seq::<Seq<Seq<char>>>::empty())
    }
}

/// An ordered, front-discard buffer of [`Line`] values for one parsing
/// session; consumed destructively, extended at the back. Its view is the
/// sequence of remaining lines, each the sequence of its remaining tokens.
pub struct Lines {
    lines: Vec<Line>,
}

impl View for Lines {
    type V = Seq<Seq<Seq<char>>>;

    closed spec fn view(&self) -> Seq<Seq<Seq<char>>> {
        views_of(self.lines@)
    }
}

/// Parses `s` into lines and appends them to `dst`, preserving order.
fn push_lines(dst: &mut Vec<Line>, s: &str)
    ensures
        views_of(final(dst)@) == views_of(old(dst)@) + lines_of(s@),
{
    let raw = crate::text::split_str(s, '\n');
    let ghost pieces = views_of(raw@);
    let mut i: usize = 0;
    let n = raw.len();
    proof {
        assert(views_of(dst@) + lines_of(s@).take(0) =~= views_of(dst@));
    }
    while i < n
        invariant
            n == raw.len(),
            i <= n,
            pieces == views_of(raw@),
            pieces == crate::text::split_seq(s@, '\n'),
            views_of(dst@) == views_of(old(dst)@) + lines_of(s@).take(i as int),
        decreases n - i,
    {
        let line = Line::new(raw[i].as_str());
        proof {
            assert(raw@[i as int]@ == pieces[i as int]);
            assert(lines_of(s@)[i as int] == crate::text::split_seq(pieces[i as int], ' '));
            assert(views_of(dst@.push(line)) =~= views_of(dst@).push(line@));
            assert(views_of(old(dst)@) + lines_of(s@).take(i as int + 1) =~= (views_of(old(dst)@)
                + lines_of(s@).take(i as int)).push(lines_of(s@)[i as int]));
        }
        dst.push(line);
        i += 1;
    }
    proof {
        assert(lines_of(s@).take(n as int) =~= lines_of(s@));
    }
}

impl Lines {
    /// Builds a buffer from raw text, one line per `'\n'`-delimited piece.
    pub fn new(s: &str) -> (r: Lines)
        ensures
            r@ == lines_of(s@),
    {
        let mut lines: Vec<Line> = Vec::new();
        push_lines(&mut lines, s);
        proof {
            assert(views_of(Seq::<Line>::empty()) + lines_of(s@) =~= lines_of(s@));
        }
        Lines { lines }
    }

    /// Parses `s` into additional lines and appends them at the back,
    /// preserving the existing order; the only operation that grows the
    /// buffer.
    pub fn extend(&mut self, s: &str)
        ensures
            final(self)@ == old(self)@ + lines_of(s@),
    {
        push_lines(&mut self.lines, s);
    }

    /// True exactly when no lines are left, whether or not the front line
    /// of a non-empty buffer still has tokens.
    pub fn is_empty(&self) -> (r: bool)
        ensures
            r == (self@.len() == 0),
    {
        self.lines.len() == 0
    }

    /// Removes and returns the first line, or absence on an empty buffer.
    pub fn next_line(&mut self) -> (r: Option<Line>)
        ensures
            old(self)@.len() == 0 ==> r is None && final(self)@ == old(self)@,
            old(self)@.len() > 0 ==> final(self)@ == old(self)@.skip(1) && (r matches Some(l)
                && l@ == old(self)@[0]),
    {
        if self.lines.len() == 0 {
            None
        } else {
            let l = self.lines.remove(0);
            proof {
                assert(old(self).lines@.remove(0) =~= old(self).lines@.skip(1));
                assert(views_of(old(self).lines@.skip(1)) =~= views_of(old(self).lines@).skip(1));
            }
            Some(l)
        }
    }

    /// Pulls the next unconsumed token from the front line without popping
    /// it; a buffer whose front line is exhausted yields absence but keeps
    /// the line.
    pub fn next_data(&mut self) -> (r: Option<String>)
        ensures
            ({
                let (tok, rest) = spec_next_data(old(self)@);
                final(self)@ == rest && ((r is Some) <==> (tok is Some)) && (r matches Some(s)
                    ==> tok == Some(s@))
            }),
    {
        if self.lines.len() == 0 {
            return None;
        }
        let mut front = self.lines.remove(0);
        let r = front.next_data();
        proof {
            assert(old(self)@[0] == old(self).lines@[0]@);
        }
        self.lines.insert(0, front);
        proof {
            assert(self.lines@ == old(self).lines@.remove(0).insert(0, front));
            if old(self)@[0].len() == 0 {
                assert(views_of(old(self).lines@.remove(0).insert(0, front)) =~= views_of(
                    old(self).lines@,
                ));
            } else {
                assert(views_of(old(self).lines@.remove(0).insert(0, front)) =~= old(
                    self,
                )@.update(0, old(self)@[0].skip(1)));
            }
        }
        r
    }

    /// Consumes one scalar of type `T`: the front line's next token when it
    /// parses; a front line that is exhausted, or whose next token fails to
    /// parse, is discarded together with that token, and the search goes on
    /// with the next line; absence only once the buffer is empty.
    pub fn consume<T: TokenValue>(&mut self) -> (r: Option<T>)
        ensures
            ({
                let (v, rest) = spec_consume::<T>(old(self)@);
                final(self)@ == rest && ((r is Some) <==> (v is Some)) && (r matches Some(x)
                    ==> v == Some(x@))
            }),
    {
        let ghost orig = self@;
        loop
            invariant
                orig == old(self)@,
                spec_consume::<T>(orig) == spec_consume::<T>(self@),
            decreases self@.len(),
        {
            if self.lines.len() == 0 {
                return None;
            }
            let ghost prev = self@;
            let mut front = self.lines.remove(0);
            proof {
                assert(front@ == prev[0]);
                assert(views_of(self.lines@) =~= prev.skip(1));
            }
            match front.next_data() {
                None => {
                    proof {
                        assert(prev[0].len() == 0);
                    }
                },
                Some(s) => {
                    match T::parse_token(s.as_str()) {
                        Some(x) => {
                            self.lines.insert(0, front);
                            proof {
                                assert(s@ == prev[0][0]);
                                assert(T::spec_parse(prev[0][0]) == Some(x@));
                                assert(views_of(self.lines@) =~= prev.update(
                                    0,
                                    prev[0].skip(1),
                                ));
                            }
                            return Some(x);
                        },
                        None => {
                            proof {
                                assert(s@ == prev[0][0]);
                                assert(T::spec_parse(prev[0][0]) is None);
                            }
                        },
                    }
                },
            }
        }
    }

    /// Consumes one line as a typed sequence: front lines are popped and
    /// drained until one yields a non-empty row, which is returned; blank
    /// lines, and lines none of whose tokens parse as `T`, are silently
    /// discarded; absence once the buffer is exhausted without a row.
    pub fn consume_to_vec<T: TokenValue>(&mut self) -> (r: Option<Vec<T>>)
        ensures
            ({
                let (v, rest) = spec_consume_to_vec::<T>(old(self)@);
                final(self)@ == rest && ((r is Some) <==> (v is Some)) && (r matches Some(x)
                    ==> v == Some(views_of(x@)))
            }),
    {
        let ghost orig = self@;
        loop
            invariant
                orig == old(self)@,
                spec_consume_to_vec::<T>(orig) == spec_consume_to_vec::<T>(self@),
            decreases self@.len(),
        {
            if self.lines.len() == 0 {
                return None;
            }
            let ghost prev = self@;
            let front = self.lines.remove(0);
            proof {
                assert(front@ == prev[0]);
                assert(views_of(self.lines@) =~= prev.skip(1));
            }
            let v = front.to_vec::<T>();
            if v.len() > 0 {
                return Some(v);
            }
        }
    }

    /// Consumes the whole remaining buffer as a two-dimensional typed
    /// sequence: absence on an already-empty buffer (as opposed to zero
    /// rows); otherwise every remaining line is popped, rows that drain
    /// empty are dropped, and the buffer is left empty.
    pub fn consume_to_two_d_vec<T: TokenValue>(&mut self) -> (r: Option<Vec<Vec<T>>>)
        ensures
            ({
                let (v, rest) = spec_consume_two_d::<T>(old(self)@);
                final(self)@ == rest && ((r is Some) <==> (v is Some)) && (r matches Some(x)
                    ==> v == Some(views2_of(x@)))
            }),
    {
        if self.lines.len() == 0 {
            return None;
        }
        let ghost orig = self@;
        let mut result: Vec<Vec<T>> = Vec::new();
        proof {
            assert(views2_of(result@) + two_d_rows::<T>(orig) =~= two_d_rows::<T>(orig));
        }
        while self.lines.len() > 0
            invariant
                orig == old(self)@,
                two_d_rows::<T>(orig) == views2_of(result@) + two_d_rows::<T>(self@),
            decreases self@.len(),
        {
            let ghost prev = self@;
            let front = self.lines.remove(0);
            proof {
                assert(front@ == prev[0]);
                assert(views_of(self.lines@) =~= prev.skip(1));
            }
            let v = front.to_vec::<T>();
            if v.len() > 0 {
                proof {
                    assert(views2_of(result@.push(v)) =~= views2_of(result@).push(views_of(v@)));
                    assert(views2_of(result@).push(views_of(v@)) =~= views2_of(result@) + seq![
                        views_of(v@),
                    ]);
                    assert((views2_of(result@) + seq![views_of(v@)]) + two_d_rows::<T>(
                        prev.skip(1),
                    ) =~= views2_of(result@) + (seq![views_of(v@)] + two_d_rows::<T>(
                        prev.skip(1),
                    )));
                }
                result.push(v);
            }
        }
        proof {
            assert(self@ =~= Seq::<Seq<Seq<char>>>::empty());
            assert(two_d_rows::<T>(self@) =~= Seq::<Seq<<T as View>::V>>::empty());
            assert(views2_of(result@) + two_d_rows::<T>(self@) =~= views2_of(result@));
        }
        Some(result)
    }
}

} // verus!
