//! The lines that an input contributes to the comparison.

use vstd::prelude::*;

verus! {

/// The lowercase form of a text, as the standard library's
/// `str::to_lowercase` defines it.
pub uninterp spec fn lowercase(text: Seq<char>) -> Seq<char>;

/// The standard library's `str::to_lowercase`: the result is the lowercase
/// form of the argument, which depends on the argument's text alone. Nothing
/// more is claimed of it.
#[verifier::external_body]
fn to_lowercase(text: &str) -> (lower: String)
    ensures
        lower@ == lowercase(text@),
{
    text.to_lowercase()
}

/// The text by which a line is compared and printed: its lowercase form when
/// case is disregarded, the line itself otherwise.
pub open spec fn folded(text: Seq<char>, insensitive: bool) -> Seq<char> {
    if insensitive {
        lowercase(text)
    } else {
        text
    }
}

/// The lines that a sequence of records yields. A record is a line's text,
/// or `None` where the bytes read were not valid text; such a record is
/// passed over, and every other line is folded.
pub open spec fn lines_of(records: Seq<Option<Seq<char>>>, insensitive: bool) -> Seq<Seq<char>>
    decreases records.len(),
{
    if records.len() == 0 {
        Seq::empty()
    } else {
        let rest = lines_of(records.drop_first(), insensitive);
        match records[0] {
            Some(text) => seq![folded(text, insensitive)] + rest,
            None => rest,
        }
    }
}

/// Prepares one line for comparison: lowercased when case is disregarded,
/// unchanged otherwise.
pub fn fold_line(line: String, insensitive: bool) -> (text: String)
    ensures
        text@ == folded(line@, insensitive),
{
    if insensitive {
        to_lowercase(line.as_str())
    } else {
        line
    }
}

/// The texts of a sequence of records.
spec fn record_texts(records: Seq<Option<String>>) -> Seq<Option<Seq<char>>> {
    Seq::new(records.len(), |i: int| records[i].deep_view())
}

/// Turns the records read from an input into the lines to compare: records
/// that are not valid text are dropped, the others folded, order kept.
pub fn line_source(records: Vec<Option<String>>, insensitive: bool) -> (lines: Vec<String>)
    ensures
        lines.deep_view() == lines_of(records.deep_view(), insensitive),
{
    let ghost all = records.deep_view();
    let mut lines: Vec<String> = Vec::new();
    proof {
        assert(all.skip(0) =~= all);
        assert(lines.deep_view() =~= Seq::<Seq<char>>::empty());
    }
    for record in rest: records
        invariant
            record_texts(rest.seq()) == all,
            lines.deep_view() + lines_of(all.skip(rest.index()), insensitive) == lines_of(
                all,
                insensitive,
            ),
    {
        let ghost kept = lines.deep_view();
        let ghost tail = lines_of(all.skip(rest.index() + 1), insensitive);
        proof {
            assert(all.skip(rest.index()).drop_first() =~= all.skip(rest.index() + 1));
            assert(all.skip(rest.index())[0] == record.deep_view());
        }
        match record {
            Some(line) => {
                let text = fold_line(line, insensitive);
                lines.push(text);
                proof {
                    assert(lines.deep_view() =~= kept + seq![text@]);
                    assert(lines.deep_view() + tail =~= kept + (seq![text@] + tail));
                }
            },
            None => {},
        }
    }
    proof {
        assert(all.skip(all.len() as int) =~= Seq::<Option<Seq<char>>>::empty());
        assert(lines.deep_view() + Seq::<Seq<char>>::empty() =~= lines.deep_view());
    }
    lines
}

} // verus!
