//! Lines of the report.
use vstd::prelude::*;

use crate::text::{concat, concat3, decimal, decimal_text};

verus! {

/// What each line begins with.
pub const LINE_PREFIX: &'static str = "BUILDSTORM_DIAG ";

/// Names with numbers, as they are written behind one another.
pub open spec fn fields_text(fields: Seq<(Seq<char>, usize)>) -> Seq<char>
    decreases fields.len(),
{
    if fields.len() == 0 {
        Seq::empty()
    } else {
        let (name, value) = fields.last();
        fields_text(fields.drop_last()) + " "@ + name + "="@ + decimal(value as nat)
    }
}

/// A line of the report: what it is about, and names with numbers.
pub open spec fn line_text(head: Seq<char>, fields: Seq<(Seq<char>, usize)>) -> Seq<char> {
    LINE_PREFIX@ + head + fields_text(fields)
}

/// Names with numbers, as mathematical values.
pub open spec fn field_views(fields: Seq<(&'static str, usize)>) -> Seq<(Seq<char>, usize)> {
    fields.map_values(|f: (&'static str, usize)| (f.0@, f.1))
}

/// A line of the report.
pub fn write_line(head: &str, fields: &Vec<(&'static str, usize)>) -> (r: String)
    ensures
        r@ == line_text(head@, field_views(fields@)),
{
    let ghost all = field_views(fields@);
    let start = concat(LINE_PREFIX, head);
    let mut text = String::new();
    let mut i: usize = 0;
    assert(all.take(0) =~= Seq::empty());
    while i < fields.len()
        invariant
            0 <= i <= fields@.len(),
            all == field_views(fields@),
            text@ == fields_text(all.take(i as int)),
        decreases fields@.len() - i,
    {
        proof {
            assert(all.take(i + 1).drop_last() =~= all.take(i as int));
            assert(all.take(i + 1).last() == all[i as int]);
        }
        let (name, value) = fields[i];
        let number = decimal_text(value);
        let named = concat3(text.as_str(), " ", name);
        text = concat3(named.as_str(), "=", number.as_str());
        i = i + 1;
    }
    assert(all.take(i as int) =~= all);
    concat(start.as_str(), text.as_str())
}

/// A name with a number in front of a line.
pub open spec fn numbered(name: Seq<char>, n: nat) -> Seq<char> {
    name + "="@ + decimal(n)
}

/// A name with a number in front of a line.
pub fn numbered_head(name: &str, n: usize) -> (r: String)
    ensures
        r@ == numbered(name@, n as nat),
{
    let number = decimal_text(n);
    concat3(name, "=", number.as_str())
}

} // verus!
