//! The per-field tracking record and the table that holds one record for
//! every declared field path.

use vstd::prelude::*;
use crate::error::FieldError;
use crate::text::{same_text, texts};
use crate::validation::{
    find_message,
    first_message,
    lemma_first_message_some,
    report_view,
    Violation,
};

verus! {

/// What the form remembers of one field. It holds no model data.
#[derive(Debug, PartialEq, Eq)]
pub struct FieldState {
    /// The field has received at least one user edit.
    pub dirty: bool,
    /// Outcome of the latest edit or validation that touched the field.
    pub valid: bool,
    /// The message to show while the field is invalid.
    pub message: String,
}

/// A field's tracking record as a mathematical value.
pub struct FieldStateView {
    pub dirty: bool,
    pub valid: bool,
    pub message: Seq<char>,
}

impl FieldStateView {
    /// The record of a field that nobody has edited or validated yet.
    pub open spec fn pristine() -> FieldStateView {
        FieldStateView { dirty: false, valid: true, message: Seq::empty() }
    }

    /// The record after an edit that the model accepted.
    pub open spec fn edited(self) -> FieldStateView {
        FieldStateView { dirty: true, valid: self.valid, message: self.message }
    }

    /// The record after an edit whose text the model could not parse.
    pub open spec fn refused(self, message: Seq<char>) -> FieldStateView {
        FieldStateView { dirty: true, valid: false, message }
    }

    /// The record after a validation run that found `verdict` for the field:
    /// no message means valid.
    pub open spec fn judged(self, verdict: Option<Seq<char>>) -> FieldStateView {
        match verdict {
            None => FieldStateView { dirty: self.dirty, valid: true, message: Seq::empty() },
            Some(message) => FieldStateView { dirty: self.dirty, valid: false, message },
        }
    }

    /// The message to show: nothing while the field is valid.
    pub open spec fn shown_message(self) -> Seq<char> {
        if self.valid {
            Seq::empty()
        } else {
            self.message
        }
    }
}

impl View for FieldState {
    type V = FieldStateView;

    open spec fn view(&self) -> FieldStateView {
        FieldStateView { dirty: self.dirty, valid: self.valid, message: self.message@ }
    }
}

impl Clone for FieldState {
    fn clone(&self) -> (copy: FieldState)
        ensures
            copy == *self,
    {
        FieldState { dirty: self.dirty, valid: self.valid, message: self.message.clone() }
    }
}

impl FieldState {
    /// The record every field starts with.
    pub fn new() -> (state: FieldState)
        ensures
            state@ == FieldStateView::pristine(),
    {
        FieldState { dirty: false, valid: true, message: String::new() }
    }

    /// The message to show for the field: empty while it is valid.
    pub fn shown_message(&self) -> (text: String)
        ensures
            text@ == self@.shown_message(),
    {
        if self.valid {
            String::new()
        } else {
            self.message.clone()
        }
    }
}

/// What became of an edit that named a declared field.
#[derive(Debug, Clone, Copy, PartialEq, Eq)]
pub enum Edit {
    /// The model took the new value.
    Stored,
    /// The model could not parse the text; the field is now marked invalid.
    Refused,
}

/// The states of all fields as a mapping from path to record.
pub type TableView = Map<Seq<char>, FieldStateView>;

/// The paths of `paths` in order, each kept where it first occurs.
pub open spec fn without_repeats(paths: Seq<Seq<char>>) -> Seq<Seq<char>>
    decreases paths.len(),
{
    if paths.len() == 0 {
        Seq::empty()
    } else {
        let before = without_repeats(paths.drop_last());
        if before.contains(paths.last()) {
            before
        } else {
            before.push(paths.last())
        }
    }
}

/// The table after an edit of `path`: the model either accepted the text or
/// refused it with the message `refusal`. Other entries keep their records.
pub open spec fn after_edit(
    table: TableView,
    path: Seq<char>,
    accepted: bool,
    refusal: Seq<char>,
) -> TableView {
    if !table.dom().contains(path) {
        table
    } else if accepted {
        table.insert(path, table[path].edited())
    } else {
        table.insert(path, table[path].refused(refusal))
    }
}

/// The table after a validation run whose report is applied to `path` alone.
pub open spec fn after_field_validation(
    table: TableView,
    path: Seq<char>,
    report: Seq<(Seq<char>, Seq<char>)>,
) -> TableView {
    if table.dom().contains(path) {
        table.insert(path, table[path].judged(first_message(report, path)))
    } else {
        table
    }
}

/// The table after a validation run whose report is applied to every field.
pub open spec fn after_validation(table: TableView, report: Seq<(Seq<char>, Seq<char>)>) -> TableView {
    Map::new(
        |path: Seq<char>| table.dom().contains(path),
        |path: Seq<char>| table[path].judged(first_message(report, path)),
    )
}

/// Whether no field of the table is invalid.
pub open spec fn all_valid(table: TableView) -> bool {
    forall|path: Seq<char>| table.dom().contains(path) ==> (#[trigger] table[path]).valid
}

/// Dirty is kept: no edit and no validation makes a dirty field clean.
pub proof fn law_dirty_is_kept(
    table: TableView,
    path: Seq<char>,
    accepted: bool,
    refusal: Seq<char>,
    report: Seq<(Seq<char>, Seq<char>)>,
    field: Seq<char>,
)
    requires
        table.dom().contains(field),
        table[field].dirty,
    ensures
        after_edit(table, path, accepted, refusal)[field].dirty,
        after_field_validation(table, path, report)[field].dirty,
        after_validation(table, report)[field].dirty,
{
}

/// An edit makes its field dirty, whether the model took the text or not,
/// and no later edit or validation undoes that.
pub proof fn law_edit_makes_dirty(
    table: TableView,
    path: Seq<char>,
    accepted: bool,
    refusal: Seq<char>,
)
    requires
        table.dom().contains(path),
    ensures
        after_edit(table, path, accepted, refusal)[path].dirty,
        after_edit(table, path, accepted, refusal).dom() == table.dom(),
{
    assert(after_edit(table, path, accepted, refusal).dom() =~= table.dom());
}

/// Validation of one field is local: the record of every other field stays
/// as it was, whatever the report says of it, and no path is added or lost.
pub proof fn law_field_validation_is_local(
    table: TableView,
    path: Seq<char>,
    report: Seq<(Seq<char>, Seq<char>)>,
    other: Seq<char>,
)
    requires
        other != path,
    ensures
        after_field_validation(table, path, report).dom() == table.dom(),
        table.dom().contains(other) ==> after_field_validation(table, path, report)[other]
            == table[other],
{
    assert(after_field_validation(table, path, report).dom() =~= table.dom());
}

/// Validation of the whole form is complete: every field's record is set
/// from the report, a field that the report does not name becomes valid with
/// an empty message, and the form is valid exactly if the report names no
/// field of the table.
pub proof fn law_validation_is_complete(table: TableView, report: Seq<(Seq<char>, Seq<char>)>)
    ensures
        after_validation(table, report).dom() == table.dom(),
        forall|path: Seq<char>| #[trigger]
            table.dom().contains(path) ==> {
                &&& after_validation(table, report)[path].valid == (first_message(report, path)
                    is None)
                &&& after_validation(table, report)[path].shown_message() == match first_message(
                    report,
                    path,
                ) {
                    Some(message) => message,
                    None => Seq::empty(),
                }
            },
        all_valid(after_validation(table, report)) <==> forall|i: int|
            0 <= i < report.len() ==> !table.dom().contains((#[trigger] report[i]).0),
{
    let judged = after_validation(table, report);
    assert(judged.dom() =~= table.dom());
    if all_valid(judged) {
        assert forall|i: int| 0 <= i < report.len() implies !table.dom().contains(
            (#[trigger] report[i]).0,
        ) by {
            let path = report[i].0;
            if table.dom().contains(path) {
                lemma_first_message_some(report, path);
                assert(judged[path].valid);
            }
        }
    }
    if forall|i: int| 0 <= i < report.len() ==> !table.dom().contains((#[trigger] report[i]).0) {
        assert forall|path: Seq<char>| judged.dom().contains(path) implies (
        #[trigger] judged[path]).valid by {
            lemma_first_message_some(report, path);
        }
    }
}

fn find_path(paths: &Vec<String>, path: &str) -> (found: Option<usize>)
    ensures
        match found {
            Some(i) => i < paths@.len() && paths@[i as int]@ == path@,
            None => !texts(paths@).contains(path@),
        },
{
    let mut i: usize = 0;
    while i < paths.len()
        invariant
            i <= paths@.len(),
            forall|j: int| 0 <= j < i ==> paths@[j]@ != path@,
        decreases paths@.len() - i,
    {
        if same_text(paths[i].as_str(), path) {
            return Some(i);
        }
        i = i + 1;
    }
    proof {
        let all = texts(paths@);
        if all.contains(path@) {
            let j = all.index_of(path@);
            assert(paths@[j]@ == path@);
        }
    }
    None
}

/// One tracking record per declared field path. The paths are fixed when the
/// table is built; no operation adds or removes one.
pub struct FieldTable {
    paths: Vec<String>,
    states: Vec<FieldState>,
}

impl View for FieldTable {
    type V = TableView;

    closed spec fn view(&self) -> TableView {
        Map::new(
            |path: Seq<char>| self.paths().contains(path),
            |path: Seq<char>| self.states@[self.paths().index_of(path)]@,
        )
    }
}

impl FieldTable {
    /// The paths of the table, in the order in which they were declared.
    pub closed spec fn paths(&self) -> Seq<Seq<char>> {
        texts(self.paths@)
    }

    /// Every path has one record, and no path occurs twice.
    #[verifier::type_invariant]
    pub closed spec fn well_formed(&self) -> bool {
        &&& self.paths().no_duplicates()
        &&& self.states@.len() == self.paths@.len()
    }

    /// A table that code can hold has distinct paths and a record for
    /// exactly those paths.
    pub proof fn lemma_well_formed(&self)
        requires
            self.well_formed(),
        ensures
            self.paths().no_duplicates(),
            self@.dom() =~= self.paths().to_set(),
    {
    }

    proof fn lemma_entry(&self, i: int)
        requires
            self.well_formed(),
            0 <= i < self.paths@.len(),
        ensures
            self@.dom().contains(self.paths@[i]@),
            self@[self.paths@[i]@] == self.states@[i]@,
    {
        let paths = self.paths();
        assert(paths[i] == self.paths@[i]@);
        assert(paths.contains(paths[i]));
        let j = paths.index_of(paths[i]);
        assert(0 <= j < paths.len() && paths[j] == paths[i]);
    }

    fn position(&self, path: &str) -> (found: Option<usize>)
        ensures
            match found {
                Some(i) => i < self.paths@.len() && self.paths@[i as int]@ == path@,
                None => !self@.dom().contains(path@),
            },
    {
        find_path(&self.paths, path)
    }

    fn put(&mut self, i: usize, state: FieldState)
        requires
            i < old(self).paths@.len(),
        ensures
            final(self).paths@ == old(self).paths@,
            final(self).states@ == old(self).states@.update(i as int, state),
            final(self).paths() == old(self).paths(),
            final(self)@ == old(self)@.insert(old(self).paths@[i as int]@, state@),
    {
        proof {
            use_type_invariant(&*self);
        }
        let ghost before = *self;
        self.states[i] = state;
        proof {
            before.lemma_entry(i as int);
            assert forall|path: Seq<char>| #[trigger] self@.dom().contains(path) implies self@[path]
                == before@.insert(before.paths@[i as int]@, state@)[path] by {
                let j = self.paths().index_of(path);
                assert(self.paths()[j] == path);
                before.lemma_entry(j);
                self.lemma_entry(j);
                if j != i {
                    assert(before.paths()[j] != before.paths()[i as int]);
                }
            }
            assert(self@ =~= before@.insert(before.paths@[i as int]@, state@));
        }
    }

    /// Builds the table for the declared `paths`: one pristine record for
    /// each, a repeated path counted once.
    pub fn from_paths(paths: &Vec<String>) -> (table: FieldTable)
        ensures
            table.well_formed(),
            table.paths() == without_repeats(texts(paths@)),
            table@.dom() =~= texts(paths@).to_set(),
            forall|path: Seq<char>| #[trigger]
                table@.dom().contains(path) ==> table@[path] == FieldStateView::pristine(),
    {
        let ghost declared = texts(paths@);
        let mut kept: Vec<String> = Vec::new();
        let mut states: Vec<FieldState> = Vec::new();
        let mut i: usize = 0;
        assert(declared.take(0) =~= Seq::<Seq<char>>::empty());
        assert(texts(kept@) =~= Seq::<Seq<char>>::empty());
        while i < paths.len()
            invariant
                i <= paths.len(),
                declared == texts(paths@),
                states@.len() == kept@.len(),
                texts(kept@).no_duplicates(),
                texts(kept@) == without_repeats(declared.take(i as int)),
                forall|path: Seq<char>|
                    texts(kept@).contains(path) <==> declared.take(i as int).contains(path),
                forall|j: int|
                    0 <= j < states@.len() ==> (#[trigger] states@[j])@
                        == FieldStateView::pristine(),
            decreases paths.len() - i,
        {
            let ghost before = texts(kept@);
            let seen = find_path(&kept, paths[i].as_str());
            proof {
                assert(declared.take(i + 1).drop_last() =~= declared.take(i as int));
                assert(declared.take(i + 1).last() == paths@[i as int]@);
            }
            if seen.is_none() {
                kept.push(paths[i].clone());
                states.push(FieldState::new());
                proof {
                    assert(texts(kept@) =~= before.push(paths@[i as int]@));
                    assert(texts(kept@)[before.len() as int] == paths@[i as int]@);
                }
            } else {
                proof {
                    assert(before[seen.unwrap() as int] == paths@[i as int]@);
                }
            }
            proof {
                let now = texts(kept@);
                assert forall|path: Seq<char>| now.contains(path) <==> declared.take(
                    i + 1,
                ).contains(path) by {
                    if declared.take(i + 1).contains(path) {
                        let j = declared.take(i + 1).index_of(path);
                        if j < i {
                            assert(declared.take(i as int)[j] == path);
                        }
                    }
                    if declared.take(i as int).contains(path) {
                        let j = declared.take(i as int).index_of(path);
                        assert(declared.take(i + 1)[j] == path);
                    }
                    if path == paths@[i as int]@ {
                        assert(declared.take(i + 1)[i as int] == path);
                    }
                    if before.contains(path) {
                        let j = before.index_of(path);
                        assert(now[j] == path);
                    }
                    if now.contains(path) {
                        let j = now.index_of(path);
                        assert(now[j] == path);
                        if j < before.len() {
                            assert(before[j] == path);
                        }
                    }
                }
            }
            i = i + 1;
        }
        let table = FieldTable { paths: kept, states };
        proof {
            assert(declared.take(i as int) =~= declared);
            assert forall|path: Seq<char>| #[trigger] table@.dom().contains(path) implies table@[path]
                == FieldStateView::pristine() by {
                let j = table.paths().index_of(path);
                assert(table.paths()[j] == path);
                table.lemma_entry(j);
            }
            assert(table@.dom() =~= declared.to_set());
        }
        table
    }

    /// Whether the table has a record for `path`.
    pub fn contains(&self, path: &str) -> (known: bool)
        ensures
            known == self@.dom().contains(path@),
    {
        let found = self.position(path);
        proof {
            use_type_invariant(self);
            if let Some(i) = found {
                self.lemma_entry(i as int);
            }
        }
        found.is_some()
    }

    /// The record of `path`, if the table has one.
    pub fn state(&self, path: &str) -> (found: Option<&FieldState>)
        ensures
            match found {
                Some(state) => self@.dom().contains(path@) && state@ == self@[path@],
                None => !self@.dom().contains(path@),
            },
    {
        match self.position(path) {
            Some(i) => {
                proof {
                    use_type_invariant(self);
                    self.lemma_entry(i as int);
                }
                Some(&self.states[i])
            },
            None => None,
        }
    }

    /// The declared paths, in the order of their declaration.
    pub fn field_paths(&self) -> (paths: &Vec<String>)
        ensures
            texts(paths@) == self.paths(),
    {
        &self.paths
    }

    /// Whether no field is invalid.
    pub fn all_valid(&self) -> (valid: bool)
        ensures
            valid == all_valid(self@),
    {
        proof {
            use_type_invariant(self);
        }
        let mut i: usize = 0;
        while i < self.states.len()
            invariant
                self.well_formed(),
                i <= self.states@.len(),
                forall|j: int| 0 <= j < i ==> (#[trigger] self.states@[j]).valid,
            decreases self.states@.len() - i,
        {
            if !self.states[i].valid {
                proof {
                    self.lemma_entry(i as int);
                }
                return false;
            }
            i = i + 1;
        }
        proof {
            assert forall|path: Seq<char>| self@.dom().contains(path) implies (#[trigger] self@[path]).valid by {
                let j = self.paths().index_of(path);
                assert(self.paths()[j] == path);
                self.lemma_entry(j);
            }
        }
        true
    }

    /// Records what the model answered to an edit of `path`. An accepted edit
    /// marks the field dirty; text that could not be parsed marks it dirty and
    /// invalid, with the error's message. Every other record stays as it was.
    pub fn record_edit(&mut self, path: &str, outcome: &Result<(), FieldError>) -> (result: Result<
        Edit,
        FieldError,
    >)
        ensures
            final(self).paths() == old(self).paths(),
            final(self)@.dom() == old(self)@.dom(),
            match *outcome {
                Ok(()) => final(self)@ == after_edit(old(self)@, path@, true, Seq::empty()),
                Err(FieldError::ParseFailure { .. }) => final(self)@ == after_edit(
                    old(self)@,
                    path@,
                    false,
                    outcome->Err_0.spec_message(),
                ),
                Err(FieldError::UnknownField { .. }) => final(self)@ == old(self)@,
            },
            match result {
                Ok(Edit::Stored) => old(self)@.dom().contains(path@) && *outcome is Ok,
                Ok(Edit::Refused) => old(self)@.dom().contains(path@)
                    && *outcome matches Err(FieldError::ParseFailure { .. }),
                Err(error) => error.is_unknown(path@) && (!old(self)@.dom().contains(path@)
                    || *outcome matches Err(FieldError::UnknownField { .. })),
            },
            forall|other: Seq<char>|
                old(self)@.dom().contains(other) && old(self)@[other].dirty ==> (
                #[trigger] final(self)@[other]).dirty,
    {
        let found = self.position(path);
        proof {
            use_type_invariant(&*self);
            if let Some(i) = found {
                self.lemma_entry(i as int);
            }
        }
        match found {
            None => Err(FieldError::unknown(path)),
            Some(i) => {
                match outcome {
                    Ok(()) => {
                        let state = FieldState {
                            dirty: true,
                            valid: self.states[i].valid,
                            message: self.states[i].message.clone(),
                        };
                        self.put(i, state);
                        Ok(Edit::Stored)
                    },
                    Err(FieldError::ParseFailure { path: _, raw_value: _ }) => {
                        let message = match outcome {
                            Ok(()) => String::new(),
                            Err(error) => error.message(),
                        };
                        self.put(i, FieldState { dirty: true, valid: false, message });
                        Ok(Edit::Refused)
                    },
                    Err(FieldError::UnknownField { path: _ }) => Err(FieldError::unknown(path)),
                }
            },
        }
    }

    /// Applies a validation report to the record of `path` alone: the field
    /// is valid if the report has no violation for it, else invalid with the
    /// message of the earliest one. Every other record stays as it was, also
    /// where the report names it.
    pub fn judge_field(&mut self, path: &str, report: &Vec<Violation>) -> (result: Result<
        (),
        FieldError,
    >)
        ensures
            final(self).paths() == old(self).paths(),
            final(self)@ == after_field_validation(old(self)@, path@, report_view(report@)),
            final(self)@.dom() == old(self)@.dom(),
            forall|other: Seq<char>|
                other != path@ && old(self)@.dom().contains(other) ==> #[trigger] final(self)@[other]
                    == old(self)@[other],
            match result {
                Ok(()) => old(self)@.dom().contains(path@),
                Err(error) => !old(self)@.dom().contains(path@) && error.is_unknown(path@),
            },
            forall|other: Seq<char>|
                old(self)@.dom().contains(other) && old(self)@[other].dirty ==> (
                #[trigger] final(self)@[other]).dirty,
    {
        let found = self.position(path);
        proof {
            use_type_invariant(&*self);
            if let Some(i) = found {
                self.lemma_entry(i as int);
            }
        }
        match found {
            None => Err(FieldError::unknown(path)),
            Some(i) => {
                let state = judged_state(&self.states[i], find_message(report, path));
                self.put(i, state);
                Ok(())
            },
        }
    }

    /// Applies a validation report to every record: a field without a
    /// violation becomes valid with an empty message. Returns whether no field
    /// is invalid afterwards.
    pub fn judge_all(&mut self, report: &Vec<Violation>) -> (valid: bool)
        ensures
            final(self).paths() == old(self).paths(),
            final(self)@ == after_validation(old(self)@, report_view(report@)),
            final(self)@.dom() == old(self)@.dom(),
            valid == all_valid(final(self)@),
            forall|other: Seq<char>|
                old(self)@.dom().contains(other) && old(self)@[other].dirty ==> (
                #[trigger] final(self)@[other]).dirty,
    {
        proof {
            use_type_invariant(&*self);
        }
        let ghost before = *self;
        let ghost verdicts = report_view(report@);
        let mut i: usize = 0;
        while i < self.paths.len()
            invariant
                before.well_formed(),
                self.well_formed(),
                verdicts == report_view(report@),
                self.paths@ == before.paths@,
                i <= self.paths@.len(),
                forall|j: int|
                    0 <= j < i ==> (#[trigger] self.states@[j])@ == before.states@[j]@.judged(
                        first_message(verdicts, before.paths@[j]@),
                    ),
                forall|j: int|
                    i <= j < self.states@.len() ==> #[trigger] self.states@[j] == before.states@[j],
            decreases self.paths@.len() - i,
        {
            let verdict = find_message(report, self.paths[i].as_str());
            let state = judged_state(&self.states[i], verdict);
            self.put(i, state);
            proof {
                use_type_invariant(&*self);
            }
            i = i + 1;
        }
        proof {
            let expected = after_validation(before@, verdicts);
            assert forall|path: Seq<char>| #[trigger] self@.dom().contains(path) implies self@[path]
                == expected[path] by {
                let j = self.paths().index_of(path);
                assert(self.paths()[j] == path);
                self.lemma_entry(j);
                before.lemma_entry(j);
            }
            assert(self@ =~= expected);
        }
        self.all_valid()
    }
}

/// The record after a validation run that found `verdict` for its field.
fn judged_state(state: &FieldState, verdict: Option<String>) -> (judged: FieldState)
    ensures
        judged@ == state@.judged(
            match verdict {
                Some(message) => Some(message@),
                None => None,
            },
        ),
{
    match verdict {
        None => FieldState { dirty: state.dirty, valid: true, message: String::new() },
        Some(message) => FieldState { dirty: state.dirty, valid: false, message },
    }
}

} // verus!
