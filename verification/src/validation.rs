//! The validation bridge: what a validation run reports, and how a report is
//! read back by field path.

use vstd::prelude::*;
use crate::text::same_text;

verus! {

/// One violated rule: the dotted path of the field and the message to show.
#[derive(Debug, PartialEq, Eq)]
pub struct Violation {
    pub path: String,
    pub message: String,
}

impl View for Violation {
    type V = (Seq<char>, Seq<char>);

    open spec fn view(&self) -> (Seq<char>, Seq<char>) {
        (self.path@, self.message@)
    }
}

/// A report as pairs of path and message, in the order of the report.
pub open spec fn report_view(report: Seq<Violation>) -> Seq<(Seq<char>, Seq<char>)> {
    report.map_values(|violation: Violation| violation@)
}

/// The message of the earliest violation reported for `path`, if there is one.
/// A path without a violation is currently valid.
pub open spec fn first_message(report: Seq<(Seq<char>, Seq<char>)>, path: Seq<char>) -> Option<
    Seq<char>,
>
    decreases report.len(),
{
    if report.len() == 0 {
        None
    } else if report[0].0 == path {
        Some(report[0].1)
    } else {
        first_message(report.drop_first(), path)
    }
}

/// A violation is reported for `path` exactly when some entry names it.
pub proof fn lemma_first_message_some(report: Seq<(Seq<char>, Seq<char>)>, path: Seq<char>)
    ensures
        first_message(report, path) is Some <==> exists|i: int|
            0 <= i < report.len() && (#[trigger] report[i]).0 == path,
    decreases report.len(),
{
    if report.len() == 0 {
    } else if report[0].0 == path {
    } else {
        let rest = report.drop_first();
        lemma_first_message_some(rest, path);
        if first_message(rest, path) is Some {
            let i = choose|i: int| 0 <= i < rest.len() && (#[trigger] rest[i]).0 == path;
            assert(report[i + 1].0 == path);
        }
        if exists|i: int| 0 <= i < report.len() && (#[trigger] report[i]).0 == path {
            let i = choose|i: int| 0 <= i < report.len() && (#[trigger] report[i]).0 == path;
            assert(rest[i - 1].0 == path);
        }
    }
}

impl Clone for Violation {
    fn clone(&self) -> (copy: Violation)
        ensures
            copy == *self,
    {
        Violation { path: self.path.clone(), message: self.message.clone() }
    }
}

impl Violation {
    /// A violation of the field at `path`, with the message to show for it.
    pub fn new(path: &str, message: &str) -> (violation: Violation)
        ensures
            violation@ == (path@, message@),
    {
        Violation { path: path.to_owned(), message: message.to_owned() }
    }
}

/// Looks up what a report says of one path: the message of the earliest
/// violation that names it.
pub fn find_message(report: &Vec<Violation>, path: &str) -> (found: Option<String>)
    ensures
        match found {
            Some(message) => first_message(report_view(report@), path@) == Some(message@),
            None => first_message(report_view(report@), path@) is None,
        },
{
    let ghost all = report_view(report@);
    let mut i: usize = 0;
    assert(all.skip(0) =~= all);
    while i < report.len()
        invariant
            i <= report.len(),
            all == report_view(report@),
            first_message(all, path@) == first_message(all.skip(i as int), path@),
        decreases report.len() - i,
    {
        proof {
            assert(all.skip(i as int)[0] == report@[i as int]@);
            assert(all.skip(i as int).drop_first() =~= all.skip(i + 1));
        }
        if same_text(report[i].path.as_str(), path) {
            return Some(report[i].message.clone());
        }
        i = i + 1;
    }
    assert(all.skip(i as int).len() == 0);
    None
}

} // verus!
