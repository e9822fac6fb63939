//! The attribute text of a generated entry point: it says where the row
//! count comes from — a literal number, a token position of the first
//! input line (an `inNUMBER` value), or the name of an earlier parameter.

use vstd::prelude::*;

use crate::text::contains_seq;
use crate::text::contains_str;
use crate::text::split_seq;
use crate::text::split_str;
use crate::text::trim_seq;
use crate::text::trim_str;
use crate::text::views_of;
use crate::token::digit_val;
use crate::token::is_digit;
use crate::token::parse_isize;
use crate::token::parse_isize_token;

verus! {

/// The first piece that contains `p`, or the empty sequence if none does.
pub open spec fn first_containing(parts: Seq<Seq<char>>, p: Seq<char>) -> Seq<char>
    decreases parts.len(),
{
    if parts.len() == 0 {
        Seq::empty()
    } else if contains_seq(parts[0], p) {
        parts[0]
    } else {
        first_containing(parts.skip(1), p)
    }
}

proof fn lemma_first_containing_at(parts: Seq<Seq<char>>, p: Seq<char>, i: int)
    requires
        0 <= i < parts.len(),
        forall|k: int| 0 <= k < i ==> !contains_seq(#[trigger] parts[k], p),
        contains_seq(parts[i], p),
    ensures
        first_containing(parts, p) == parts[i],
    decreases i,
{
    if i > 0 {
        assert forall|k: int| 0 <= k < i - 1 implies !contains_seq(
            #[trigger] parts.skip(1)[k],
            p,
        ) by {
            assert(parts.skip(1)[k] == parts[k + 1]);
        }
        assert(parts.skip(1)[i - 1] == parts[i]);
        lemma_first_containing_at(parts.skip(1), p, i - 1);
    }
}

proof fn lemma_first_containing_none(parts: Seq<Seq<char>>, p: Seq<char>)
    requires
        forall|k: int| 0 <= k < parts.len() ==> !contains_seq(#[trigger] parts[k], p),
    ensures
        first_containing(parts, p) == Seq::<char>::empty(),
    decreases parts.len(),
{
    if parts.len() > 0 {
        assert forall|k: int| 0 <= k < parts.len() - 1 implies !contains_seq(
            #[trigger] parts.skip(1)[k],
            p,
        ) by {
            assert(parts.skip(1)[k] == parts[k + 1]);
        }
        lemma_first_containing_none(parts.skip(1), p);
    }
}

/// The trimmed text after the last `'='` of the first comma-separated part
/// that mentions the row key, or empty when the attribute does not mention
/// the key at all.
pub open spec fn row_attr_value_of(attr: Seq<char>) -> Seq<char> {
    if attr.len() == 0 || !contains_seq(attr, "row"@) {
        Seq::empty()
    } else {
        let part = first_containing(split_seq(attr, ','), "row"@);
        let segs = split_seq(part, '=');
        trim_seq(segs[segs.len() - 1])
    }
}

/// The row count stands in the first input line: the row value starts `in`.
pub open spec fn row_at_input(attr: Seq<char>) -> bool {
    contains_seq(attr, "row"@) && {
        let v = row_attr_value_of(attr);
        v.len() >= 2 && v[0] == 'i' && v[1] == 'n'
    }
}

/// The literal row count the attribute carries: the default of one when the
/// row key is absent, else the row value read as a number, absent when that
/// value is not a number.
pub open spec fn row_num_of(attr: Seq<char>) -> Option<isize> {
    if attr.len() == 0 || !contains_seq(attr, "row"@) {
        Some(1 as isize)
    } else {
        parse_isize(row_attr_value_of(attr))
    }
}

/// The row count is the value of a named parameter: the row key is there,
/// but its value is neither an input-line reference nor a number.
pub open spec fn row_at_var_name(attr: Seq<char>) -> bool {
    contains_seq(attr, "row"@) && !(row_at_input(attr) || row_num_of(attr) is Some)
}

/// Reads the attribute text of a generated entry point, deciding where the
/// row count comes from and extracting it.
pub struct PteAttrParser<'a> {
    attr: &'a str,
}

impl<'a> View for PteAttrParser<'a> {
    type V = Seq<char>;

    closed spec fn view(&self) -> Seq<char> {
        self.attr@
    }
}

impl<'a> PteAttrParser<'a> {
    pub fn new(attr: &'a str) -> (r: PteAttrParser<'a>)
        ensures
            r@ == attr@,
    {
        PteAttrParser { attr }
    }

    /// The value of the row attribute: the trimmed text after the last
    /// `'='` of the first comma-separated part that mentions the row key,
    /// or empty when no part does.
    pub fn get_row_attr_value(&self) -> (r: String)
        ensures
            r@ == row_attr_value_of(self@),
    {
        if self.attr.unicode_len() == 0 || !contains_str(self.attr, "row") {
            return String::new();
        }
        let parts = split_str(self.attr, ',');
        let ghost pviews = views_of(parts@);
        let n = parts.len();
        let mut i: usize = 0;
        while i < n
            invariant
                n == parts.len(),
                i <= n,
                pviews == views_of(parts@),
                pviews == split_seq(self@, ','),
                self@.len() > 0 && contains_seq(self@, "row"@),
                forall|k: int| 0 <= k < i ==> !contains_seq(#[trigger] pviews[k], "row"@),
            decreases n - i,
        {
            if contains_str(parts[i].as_str(), "row") {
                proof {
                    assert(parts@[i as int]@ == pviews[i as int]);
                    lemma_first_containing_at(pviews, "row"@, i as int);
                }
                let segs = split_str(parts[i].as_str(), '=');
                let ghost sviews = views_of(segs@);
                proof {
                    assert(sviews == split_seq(pviews[i as int], '='));
                    assert(sviews.len() >= 1);
                }
                let t = trim_str(segs[segs.len() - 1].as_str());
                proof {
                    assert(segs@[segs@.len() - 1]@ == sviews[sviews.len() - 1]);
                }
                return String::from_str(t);
            }
            i += 1;
        }
        proof {
            lemma_first_containing_none(pviews, "row"@);
            let segs = split_seq(Seq::<char>::empty(), '=');
            assert(segs == seq![Seq::<char>::empty()]);
            assert(trim_seq(Seq::<char>::empty()) == Seq::<char>::empty());
        }
        String::new()
    }

    /// The row value names a token position of the first input line: it
    /// starts with `in`.
    pub fn exist_row_num_at_input(&self) -> (r: bool)
        ensures
            r == row_at_input(self@),
    {
        if !contains_str(self.attr, "row") {
            return false;
        }
        let v = self.get_row_attr_value();
        if v.as_str().unicode_len() < 2 {
            return false;
        }
        let c0 = v.as_str().get_char(0);
        let c1 = v.as_str().get_char(1);
        c0 == 'i' && c1 == 'n'
    }

    /// The attribute carries a literal row count, counting the default of
    /// one when the row key is absent.
    pub fn exist_row_num(&self) -> (r: bool)
        ensures
            r == (row_num_of(self@) is Some),
    {
        match self.get_row_num() {
            Ok(_) => true,
            Err(_) => false,
        }
    }

    /// The row count is the value of a named parameter: the row key is
    /// there, but its value is neither an input-line reference nor a
    /// number.
    pub fn exist_row_num_at_var_name(&self) -> (r: bool)
        ensures
            r == row_at_var_name(self@),
    {
        if !contains_str(self.attr, "row") {
            return false;
        }
        !(self.exist_row_num_at_input() || self.exist_row_num())
    }

    /// The parameter name the row count is bound to, exactly when the row
    /// value is such a name.
    pub fn get_var_name(&self) -> (r: Result<String, String>)
        ensures
            (r is Ok) <==> row_at_var_name(self@),
            r matches Ok(v) ==> v@ == row_attr_value_of(self@),
    {
        if !self.exist_row_num_at_var_name() {
            return Err(String::from_str("row number var name not found"));
        }
        Ok(self.get_row_attr_value())
    }

    /// The literal row count: the default of one when the row key is
    /// absent, else the row value read as a number, an error exactly when
    /// that value is not a number.
    pub fn get_row_num(&self) -> (r: Result<isize, String>)
        ensures
            (r is Ok) <==> (row_num_of(self@) is Some),
            r matches Ok(v) ==> row_num_of(self@) == Some(v),
    {
        if self.attr.unicode_len() == 0 || !contains_str(self.attr, "row") {
            return Ok(self.default_row_num());
        }
        let v = self.get_row_attr_value();
        match parse_isize_token(v.as_str()) {
            Some(x) => Ok(x),
            None => Err(String::from_str("invalid row number")),
        }
    }

    /// The token position referenced by an `inNUMBER` row value, an error
    /// exactly when the character after `in` is not a digit. The row value
    /// must be an input-line reference of at least three characters; a bare
    /// `in` carries no position to read.
    pub fn parse_input_ref(&self) -> (r: Result<usize, String>)
        requires
            row_at_input(self@),
            row_attr_value_of(self@).len() >= 3,
        ensures
            (r is Ok) <==> is_digit(row_attr_value_of(self@)[2]),
            r matches Ok(d) ==> d == digit_val(row_attr_value_of(self@)[2]),
    {
        let v = self.get_row_attr_value();
        let c = v.as_str().get_char(2);
        if c >= '0' && c <= '9' {
            Ok((c as u32 - '0' as u32) as usize)
        } else {
            Err(String::from_str("invalid input reference, format is \"inNUMBER\""))
        }
    }

    /// The token position referenced by the row value: an error when the
    /// attribute has no row key, else as `parse_input_ref`.
    pub fn get_input_ref(&self) -> (r: Result<usize, String>)
        requires
            contains_seq(self@, "row"@) ==> row_at_input(self@) && row_attr_value_of(
                self@,
            ).len() >= 3,
        ensures
            (self@.len() == 0 || !contains_seq(self@, "row"@)) ==> r is Err,
            self@.len() > 0 && contains_seq(self@, "row"@) ==> ((r is Ok) <==> is_digit(
                row_attr_value_of(self@)[2],
            )) && (r matches Ok(d) ==> d == digit_val(row_attr_value_of(self@)[2])),
    {
        if self.attr.unicode_len() == 0 || !contains_str(self.attr, "row") {
            return Err(String::from_str("input reference not found"));
        }
        self.parse_input_ref()
    }

    /// The row count assumed when the attribute does not give one.
    pub fn default_row_num(&self) -> (r: isize)
        ensures
            r == 1,
    {
        1
    }
}

} // verus!
