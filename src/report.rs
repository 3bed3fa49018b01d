//! Summaries of a list of comparison outcomes: the messages of the failed
//! ones, one per line.
use vstd::prelude::*;

verus! {

/// The messages of the failed outcomes, in order.
pub open spec fn error_messages(list: Seq<Result<(), String>>) -> Seq<Seq<char>>
    decreases list.len(),
{
    if list.len() == 0 {
        Seq::empty()
    } else {
        let earlier = error_messages(list.drop_last());
        match list.last() {
            Ok(()) => earlier,
            Err(message) => earlier.push(message@),
        }
    }
}

/// The given lines joined by line breaks.
pub open spec fn joined_lines(lines: Seq<Seq<char>>) -> Seq<char>
    decreases lines.len(),
{
    if lines.len() == 0 {
        Seq::empty()
    } else if lines.len() == 1 {
        lines[0]
    } else {
        joined_lines(lines.drop_last()) + seq!['\n'] + lines.last()
    }
}

/// `None` when every outcome succeeded; otherwise the messages of the
/// failed ones, in order, joined by line breaks.
pub fn error_summary(list: &Vec<Result<(), String>>) -> (r: Option<String>)
    ensures
        match r {
            None => error_messages(list@).len() == 0,
            Some(s) => error_messages(list@).len() > 0 && s@ == joined_lines(
                error_messages(list@),
            ),
        },
{
    let mut summary = String::new();
    let mut failed: usize = 0;
    for i in 0..list.len()
        invariant
            failed <= i,
            failed == error_messages(list@.take(i as int)).len(),
            summary@ == joined_lines(error_messages(list@.take(i as int))),
    {
        let ghost earlier = error_messages(list@.take(i as int));
        assert(list@.take(i + 1).drop_last() =~= list@.take(i as int));
        assert(list@.take(i + 1).last() == list@[i as int]);
        match &list[i] {
            Ok(()) => {},
            Err(message) => {
                assert(earlier.push(message@).drop_last() =~= earlier);
                if failed > 0 {
                    summary.push('\n');
                }
                summary.append(message.as_str());
                failed = failed + 1;
            },
        }
    }
    assert(list@.take(list@.len() as int) =~= list@);
    if failed == 0 {
        None
    } else {
        Some(summary)
    }
}

} // verus!
