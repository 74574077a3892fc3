//! A model whose fields are declared at run time: named leaf values of text,
//! integer or boolean type, and nested records of the same kind. It resolves
//! dotted paths by descending into the nested records name by name.

use vstd::prelude::*;
use vstd::string::StrSliceExecFns;
use crate::codec::{
    law_bool_round_trip,
    law_i64_round_trip,
    format_bool,
    format_bool_spec,
    format_i64,
    format_int_spec,
    parse_bool,
    parse_bool_spec,
    parse_i64,
    parse_i64_spec,
};
use crate::error::FieldError;
use crate::model::Model;
use crate::path::{
    check_name,
    head,
    is_name,
    join,
    join_path,
    law_split_join,
    lemma_split,
    split_first,
    tail,
};
use crate::text::{same_text, texts};
use crate::validation::{report_view, Violation};

verus! {

broadcast use vstd::std_specs::vec::axiom_vec_index_decreases;

/// The value of one field: a leaf of one of three native types, or a nested
/// record.
pub enum Value {
    Text(String),
    Integer(i64),
    Boolean(bool),
    Nested(Record),
}

/// A rule on a leaf field, with the message to report when it does not hold.
/// A rule says nothing of a value of another type than the one it is for.
pub enum Rule {
    /// The text has at least `length` characters.
    MinLength { length: usize, message: String },
    /// The boolean equals `expected`.
    MustEqual { expected: bool, message: String },
    /// The integer lies between `min` and `max`, both included.
    Range { min: i64, max: i64, message: String },
}

/// One named field of a record, with the rules registered for it.
struct Entry {
    name: String,
    value: Value,
    rules: Vec<Rule>,
}

/// A record: its fields in the order of their declaration.
pub struct Record {
    entries: Vec<Entry>,
}

/// A field value as a mathematical value.
pub enum ValueView {
    Text(Seq<char>),
    Integer(i64),
    Boolean(bool),
    Nested(RecordView),
}

/// A rule as a mathematical value.
pub enum RuleView {
    MinLength { length: usize, message: Seq<char> },
    MustEqual { expected: bool, message: Seq<char> },
    Range { min: i64, max: i64, message: Seq<char> },
}

/// A field as a mathematical value.
pub struct EntryView {
    pub name: Seq<char>,
    pub value: ValueView,
    pub rules: Seq<RuleView>,
}

/// A record as a mathematical value.
pub struct RecordView {
    pub entries: Seq<EntryView>,
}

/// What writing a text into a record comes to.
pub enum Stored {
    /// The text parsed, and the record now is as given.
    Done(RecordView),
    /// The path names no leaf field.
    Unknown,
    /// The text does not parse as the field's type.
    Unparsable,
}

impl RuleView {
    /// Whether `value` breaks the rule.
    pub open spec fn broken_by(self, value: ValueView) -> bool {
        match (self, value) {
            (RuleView::MinLength { length, .. }, ValueView::Text(text)) => text.len() < length,
            (RuleView::MustEqual { expected, .. }, ValueView::Boolean(flag)) => flag != expected,
            (RuleView::Range { min, max, .. }, ValueView::Integer(number)) => number < min || number
                > max,
            _ => false,
        }
    }

    /// The message to report when the rule does not hold.
    pub open spec fn message(self) -> Seq<char> {
        match self {
            RuleView::MinLength { message, .. } => message,
            RuleView::MustEqual { message, .. } => message,
            RuleView::Range { message, .. } => message,
        }
    }
}

impl ValueView {
    /// The canonical text of a leaf value.
    pub open spec fn text(self) -> Seq<char> {
        match self {
            ValueView::Text(text) => text,
            ValueView::Integer(number) => format_int_spec(number as int),
            ValueView::Boolean(flag) => format_bool_spec(flag),
            ValueView::Nested(_) => Seq::empty(),
        }
    }

    /// A leaf is always well formed; a nested record is if it is one.
    pub open spec fn well_formed(self) -> bool {
        match self {
            ValueView::Nested(inner) => inner.well_formed(),
            _ => true,
        }
    }

    /// The value of the same type as `self` that `raw` denotes, if it
    /// denotes one.
    pub open spec fn parsed(self, raw: Seq<char>) -> Option<ValueView> {
        match self {
            ValueView::Text(_) => Some(ValueView::Text(raw)),
            ValueView::Integer(_) => match parse_i64_spec(raw) {
                Some(number) => Some(ValueView::Integer(number)),
                None => None,
            },
            ValueView::Boolean(_) => match parse_bool_spec(raw) {
                Some(flag) => Some(ValueView::Boolean(flag)),
                None => None,
            },
            ValueView::Nested(_) => None,
        }
    }
}

/// The position of the first of `entries` that is named `name`, or their
/// number if none is.
pub open spec fn first_named(entries: Seq<EntryView>, name: Seq<char>) -> int
    decreases entries.len(),
{
    if entries.len() == 0 {
        0
    } else if entries[0].name == name {
        0
    } else {
        1 + first_named(entries.drop_first(), name)
    }
}

/// The violations of the first `count` of `rules` by the leaf `value` of the
/// field at `path`, in the order of the rules.
pub open spec fn rule_violations(
    path: Seq<char>,
    value: ValueView,
    rules: Seq<RuleView>,
    count: int,
) -> Seq<(Seq<char>, Seq<char>)>
    decreases count,
{
    if count <= 0 || count > rules.len() {
        Seq::empty()
    } else {
        let before = rule_violations(path, value, rules, count - 1);
        if rules[count - 1].broken_by(value) {
            before.push((path, rules[count - 1].message()))
        } else {
            before
        }
    }
}

impl RecordView {
    /// The record with the value of its field at `position` replaced.
    pub open spec fn with_value(self, position: int, value: ValueView) -> RecordView {
        RecordView {
            entries: self.entries.update(
                position,
                EntryView {
                    name: self.entries[position].name,
                    value,
                    rules: self.entries[position].rules,
                },
            ),
        }
    }

    /// The names of the record's fields, and of every record nested in it,
    /// hold no dot, and no record has two fields of one name.
    pub open spec fn well_formed(self) -> bool
        decreases self,
    {
        forall|i: int|
            #![trigger self.entries[i]]
            0 <= i < self.entries.len() ==> {
                &&& is_name(self.entries[i].name)
                &&& first_named(self.entries, self.entries[i].name) == i
                &&& match self.entries[i].value {
                    ValueView::Nested(inner) => inner.well_formed(),
                    _ => true,
                }
            }
    }

    /// Whether the record has no field named `name`.
    pub open spec fn lacks(self, name: Seq<char>) -> bool {
        first_named(self.entries, name) >= self.entries.len()
    }

    /// The record with `rule` registered last for its field at `position`.
    pub open spec fn with_rule(self, position: int, rule: RuleView) -> RecordView {
        RecordView {
            entries: self.entries.update(
                position,
                EntryView {
                    name: self.entries[position].name,
                    value: self.entries[position].value,
                    rules: self.entries[position].rules.push(rule),
                },
            ),
        }
    }

    /// The leaf value at `path`: the first name of the path selects a field
    /// of this record, and the rest of the path, if there is one, is resolved
    /// inside that field's nested record. A path that ends at a nested
    /// record, or that goes on after a leaf, names nothing.
    pub open spec fn leaf(self, path: Seq<char>) -> Option<ValueView>
        decreases self,
    {
        let position = first_named(self.entries, head(path));
        if 0 <= position < self.entries.len() {
            match (self.entries[position].value, tail(path)) {
                (ValueView::Nested(inner), Some(rest)) => inner.leaf(rest),
                (ValueView::Nested(_), None) => None,
                (_, Some(_)) => None,
                (value, None) => Some(value),
            }
        } else {
            None
        }
    }

    /// What writing `raw` into the leaf at `path` comes to. The path is
    /// resolved as for reading; the text is parsed as the type of the value
    /// that the leaf holds.
    pub open spec fn stored(self, path: Seq<char>, raw: Seq<char>) -> Stored
        decreases self,
    {
        let position = first_named(self.entries, head(path));
        if 0 <= position < self.entries.len() {
            match (self.entries[position].value, tail(path)) {
                (ValueView::Nested(inner), Some(rest)) => match inner.stored(rest, raw) {
                    Stored::Done(changed) => Stored::Done(
                        self.with_value(position, ValueView::Nested(changed)),
                    ),
                    Stored::Unknown => Stored::Unknown,
                    Stored::Unparsable => Stored::Unparsable,
                },
                (ValueView::Nested(_), None) => Stored::Unknown,
                (_, Some(_)) => Stored::Unknown,
                (value, None) => match value.parsed(raw) {
                    Some(parsed) => Stored::Done(self.with_value(position, parsed)),
                    None => Stored::Unparsable,
                },
            }
        } else {
            Stored::Unknown
        }
    }

    /// The paths of the first `count` fields, those of a nested record under
    /// the name of the field that holds it.
    pub open spec fn paths_upto(self, count: int) -> Seq<Seq<char>>
        decreases self, count,
    {
        if count <= 0 || count > self.entries.len() {
            Seq::empty()
        } else {
            let entry = self.entries[count - 1];
            let own = match entry.value {
                ValueView::Nested(inner) => inner.paths_upto(inner.entries.len() as int).map_values(
                    |path: Seq<char>| join(entry.name, path),
                ),
                _ => seq![entry.name],
            };
            self.paths_upto(count - 1) + own
        }
    }

    /// Every leaf path that the record declares, in the order of the fields.
    pub open spec fn paths(self) -> Seq<Seq<char>> {
        self.paths_upto(self.entries.len() as int)
    }

    /// The violations found in the first `count` fields: for a leaf those of
    /// its rules, for a nested record its own violations with the field's
    /// name put before each path.
    pub open spec fn violations_upto(self, count: int) -> Seq<(Seq<char>, Seq<char>)>
        decreases self, count,
    {
        if count <= 0 || count > self.entries.len() {
            Seq::empty()
        } else {
            let entry = self.entries[count - 1];
            let own = match entry.value {
                ValueView::Nested(inner) => inner.violations_upto(
                    inner.entries.len() as int,
                ).map_values(
                    |violation: (Seq<char>, Seq<char>)|
                        (join(entry.name, violation.0), violation.1),
                ),
                leaf => rule_violations(entry.name, leaf, entry.rules, entry.rules.len() as int),
            };
            self.violations_upto(count - 1) + own
        }
    }

    /// Every violation of a rule of the record or of a record nested in it.
    pub open spec fn violations(self) -> Seq<(Seq<char>, Seq<char>)> {
        self.violations_upto(self.entries.len() as int)
    }
}

impl View for Rule {
    type V = RuleView;

    open spec fn view(&self) -> RuleView {
        match self {
            Rule::MinLength { length, message } => RuleView::MinLength {
                length: *length,
                message: message@,
            },
            Rule::MustEqual { expected, message } => RuleView::MustEqual {
                expected: *expected,
                message: message@,
            },
            Rule::Range { min, max, message } => RuleView::Range {
                min: *min,
                max: *max,
                message: message@,
            },
        }
    }
}

impl View for Value {
    type V = ValueView;

    open spec fn view(&self) -> ValueView
        decreases self,
    {
        match self {
            Value::Text(text) => ValueView::Text(text@),
            Value::Integer(number) => ValueView::Integer(*number),
            Value::Boolean(flag) => ValueView::Boolean(*flag),
            Value::Nested(inner) => ValueView::Nested(inner.view()),
        }
    }
}

impl View for Entry {
    type V = EntryView;

    closed spec fn view(&self) -> EntryView
        decreases self,
    {
        EntryView {
            name: self.name@,
            value: self.value.view(),
            rules: self.rules@.map_values(|rule: Rule| rule@),
        }
    }
}

impl View for Record {
    type V = RecordView;

    closed spec fn view(&self) -> RecordView
        decreases self,
    {
        RecordView {
            entries: Seq::new(
                self.entries.len() as nat,
                |i: int|
                    if 0 <= i < self.entries.len() {
                        self.entries[i].view()
                    } else {
                        arbitrary()
                    },
            ),
        }
    }
}

/// How a write into a record ended.
enum Written {
    Done,
    Unknown,
    Unparsable,
}

/// The first position with a name is the only one that no equally named
/// field precedes.
pub proof fn lemma_first_named(entries: Seq<EntryView>, name: Seq<char>)
    ensures
        0 <= first_named(entries, name) <= entries.len(),
        forall|i: int| 0 <= i < first_named(entries, name) ==> (#[trigger] entries[i]).name != name,
        first_named(entries, name) < entries.len() ==> entries[first_named(entries, name)].name
            == name,
    decreases entries.len(),
{
    if entries.len() == 0 {
    } else if entries[0].name == name {
    } else {
        let rest = entries.drop_first();
        lemma_first_named(rest, name);
        assert forall|i: int| 0 <= i < first_named(entries, name) implies (
        #[trigger] entries[i]).name != name by {
            if i > 0 {
                assert(entries[i] == rest[i - 1]);
            }
        }
    }
}

proof fn lemma_first_named_is(entries: Seq<EntryView>, name: Seq<char>, at: int)
    requires
        0 <= at <= entries.len(),
        forall|i: int| 0 <= i < at ==> (#[trigger] entries[i]).name != name,
        at < entries.len() ==> entries[at].name == name,
    ensures
        first_named(entries, name) == at,
{
    lemma_first_named(entries, name);
    let found = first_named(entries, name);
    if found < at {
        assert(entries[found].name != name);
    } else if at < found {
        assert(entries[at].name != name);
    }
}

/// Replacing the value of a field moves no name.
proof fn lemma_first_named_kept(
    entries: Seq<EntryView>,
    position: int,
    entry: EntryView,
    name: Seq<char>,
)
    requires
        0 <= position < entries.len(),
        entry.name == entries[position].name,
    ensures
        first_named(entries.update(position, entry), name) == first_named(entries, name),
{
    let changed = entries.update(position, entry);
    lemma_first_named(entries, name);
    let at = first_named(entries, name);
    assert forall|i: int| 0 <= i < at implies (#[trigger] changed[i]).name != name by {
        assert(entries[i].name != name);
    }
    lemma_first_named_is(changed, name, at);
}

/// Among the paths of the first `count` fields of a well-formed record are
/// exactly the paths that read as a leaf through one of those fields.
pub proof fn lemma_paths_upto(record: RecordView, count: int, path: Seq<char>)
    requires
        record.well_formed(),
        0 <= count <= record.entries.len(),
    ensures
        record.paths_upto(count).contains(path) <==> (record.leaf(path) is Some && first_named(
            record.entries,
            head(path),
        ) < count),
    decreases record, count,
{
    if count > 0 {
        let last = count - 1;
        let entry = record.entries[last];
        let before = record.paths_upto(last);
        let position = first_named(record.entries, head(path));
        lemma_paths_upto(record, last, path);
        lemma_first_named(record.entries, head(path));
        lemma_split(path);
        assert(is_name(entry.name));
        assert(first_named(record.entries, entry.name) == last);
        match entry.value {
            ValueView::Nested(inner) => {
                let own = inner.paths().map_values(|inner_path: Seq<char>| join(entry.name, inner_path));
                assert(record.paths_upto(count) == before + own);
                if own.contains(path) {
                    let j = own.index_of(path);
                    let inner_path = inner.paths()[j];
                    assert(own[j] == join(entry.name, inner_path));
                    law_split_join(entry.name, inner_path);
                    lemma_paths_upto(inner, inner.entries.len() as int, inner_path);
                    assert(inner.paths().contains(inner_path));
                }
                if record.leaf(path) is Some && position == last {
                    let rest = tail(path)->0;
                    lemma_paths_upto(inner, inner.entries.len() as int, rest);
                    lemma_first_named(inner.entries, head(rest));
                    let j = inner.paths().index_of(rest);
                    assert(inner.paths()[j] == rest);
                    assert(own[j] == path);
                }
                lemma_contains_either(before, own, path);
            },
            _ => {
                let own = seq![entry.name];
                assert(record.paths_upto(count) == before + own);
                assert(own[0] == entry.name);
                if path == entry.name {
                    law_split_join(entry.name, Seq::empty());
                }
                lemma_contains_either(before, own, path);
            },
        }
    }
}

proof fn lemma_contains_either<A>(left: Seq<A>, right: Seq<A>, item: A)
    ensures
        (left + right).contains(item) <==> left.contains(item) || right.contains(item),
{
    let both = left + right;
    if both.contains(item) {
        let i = both.index_of(item);
        if i < left.len() {
            assert(left[i] == item);
        } else {
            assert(right[i - left.len()] == item);
        }
    }
    if left.contains(item) {
        let i = left.index_of(item);
        assert(both[i] == item);
    }
    if right.contains(item) {
        let i = right.index_of(item);
        assert(both[left.len() + i] == item);
    }
}

/// Declared means readable: a well-formed record declares a path exactly
/// when the path reads as a leaf.
pub proof fn law_declared_paths_resolve(record: RecordView, path: Seq<char>)
    requires
        record.well_formed(),
    ensures
        record.paths().contains(path) <==> record.leaf(path) is Some,
{
    lemma_paths_upto(record, record.entries.len() as int, path);
    lemma_first_named(record.entries, head(path));
}

/// A write changes one value and nothing of the record's shape: the
/// declared paths stay as they were, and a well-formed record stays so.
pub proof fn law_write_keeps_shape(record: RecordView, path: Seq<char>, raw: Seq<char>)
    requires
        record.stored(path, raw) is Done,
    ensures
        record.stored(path, raw)->Done_0.paths() == record.paths(),
        record.well_formed() ==> record.stored(path, raw)->Done_0.well_formed(),
    decreases record,
{
    let position = first_named(record.entries, head(path));
    let changed = record.stored(path, raw)->Done_0;
    let entry = record.entries[position];
    lemma_first_named(record.entries, head(path));
    if let (ValueView::Nested(inner), Some(rest)) = (entry.value, tail(path)) {
        law_write_keeps_shape(inner, rest, raw);
    }
    lemma_same_paths(record, changed, position, record.entries.len() as int);
    if record.well_formed() {
        assert forall|i: int|
            #![trigger changed.entries[i]]
            0 <= i < changed.entries.len() implies {
            &&& is_name(changed.entries[i].name)
            &&& first_named(changed.entries, changed.entries[i].name) == i
            &&& match changed.entries[i].value {
                ValueView::Nested(inner) => inner.well_formed(),
                _ => true,
            }
        } by {
            assert(is_name(record.entries[i].name));
            lemma_first_named_kept(
                record.entries,
                position,
                changed.entries[position],
                changed.entries[i].name,
            );
        }
    }
}

proof fn lemma_same_paths(record: RecordView, changed: RecordView, position: int, count: int)
    requires
        0 <= position < record.entries.len(),
        0 <= count <= record.entries.len(),
        changed.entries.len() == record.entries.len(),
        forall|i: int|
            0 <= i < record.entries.len() && i != position ==> changed.entries[i]
                == record.entries[i],
        changed.entries[position].name == record.entries[position].name,
        match (record.entries[position].value, changed.entries[position].value) {
            (ValueView::Nested(before), ValueView::Nested(after)) => before.paths()
                == after.paths(),
            (ValueView::Nested(_), _) => false,
            (_, ValueView::Nested(_)) => false,
            _ => true,
        },
    ensures
        changed.paths_upto(count) == record.paths_upto(count),
    decreases count,
{
    if count > 0 {
        lemma_same_paths(record, changed, position, count - 1);
    }
}

/// The canonical text of a leaf value parses back to that value.
pub proof fn law_value_round_trip(value: ValueView)
    requires
        !(value is Nested),
    ensures
        value.parsed(value.text()) == Some(value),
{
    match value {
        ValueView::Integer(number) => {
            law_i64_round_trip(number);
        },
        ValueView::Boolean(flag) => {
            law_bool_round_trip(flag);
        },
        _ => {},
    }
}

/// Round trip through a record: after a text was written to a path, the
/// path reads back as the value that the text parsed to, and writing the
/// canonical text of that value changes nothing any more. Every other path
/// reads as before.
pub proof fn law_round_trip(record: RecordView, path: Seq<char>, raw: Seq<char>)
    requires
        record.stored(path, raw) is Done,
    ensures
        record.leaf(path) is Some,
        record.stored(path, raw)->Done_0.leaf(path) == record.leaf(path)->0.parsed(raw),
        record.stored(path, raw)->Done_0.leaf(path) is Some,
        record.stored(path, raw)->Done_0.stored(
            path,
            record.stored(path, raw)->Done_0.leaf(path)->0.text(),
        ) == record.stored(path, raw),
    decreases record,
{
    let position = first_named(record.entries, head(path));
    let changed = record.stored(path, raw)->Done_0;
    let entry = record.entries[position];
    lemma_first_named_kept(record.entries, position, changed.entries[position], head(path));
    match (entry.value, tail(path)) {
        (ValueView::Nested(inner), Some(rest)) => {
            law_round_trip(inner, rest, raw);
            let inner_changed = inner.stored(rest, raw)->Done_0;
            let text = inner_changed.leaf(rest)->0.text();
            assert(changed.with_value(position, ValueView::Nested(inner_changed)).entries
                =~= changed.entries);
        },
        (value, None) => {
            let parsed = value.parsed(raw)->0;
            law_value_round_trip(parsed);
            assert(changed.with_value(position, parsed).entries =~= changed.entries);
        },
        _ => {},
    }
}

/// A write reaches one leaf only: every other path reads as before.
pub proof fn law_write_is_local(
    record: RecordView,
    path: Seq<char>,
    raw: Seq<char>,
    other: Seq<char>,
)
    requires
        record.stored(path, raw) is Done,
        other != path,
    ensures
        record.stored(path, raw)->Done_0.leaf(other) == record.leaf(other),
    decreases record,
{
    let position = first_named(record.entries, head(path));
    let changed = record.stored(path, raw)->Done_0;
    let entry = record.entries[position];
    lemma_first_named_kept(record.entries, position, changed.entries[position], head(other));
    let other_position = first_named(record.entries, head(other));
    lemma_first_named(record.entries, head(path));
    lemma_first_named(record.entries, head(other));
    if other_position == position {
        lemma_split(path);
        lemma_split(other);
        match (entry.value, tail(path)) {
            (ValueView::Nested(inner), Some(rest)) => {
                if let Some(other_rest) = tail(other) {
                    law_write_is_local(inner, rest, raw, other_rest);
                }
            },
            _ => {},
        }
    }
}

/// A write knows the leaves: it fails as unknown on exactly the paths that
/// do not read as a leaf. On a leaf it stores the text or finds it
/// unparsable.
pub proof fn law_write_knows_the_leaves(record: RecordView, path: Seq<char>, raw: Seq<char>)
    ensures
        record.stored(path, raw) is Unknown <==> record.leaf(path) is None,
    decreases record,
{
    let position = first_named(record.entries, head(path));
    if 0 <= position < record.entries.len() {
        if let (ValueView::Nested(inner), Some(rest)) = (
            record.entries[position].value,
            tail(path),
        ) {
            law_write_knows_the_leaves(inner, rest, raw);
        }
    }
}

impl Value {
    /// The canonical text of a leaf value; a nested record has none.
    pub fn text(&self) -> (text: Option<String>)
        ensures
            match text {
                Some(text) => !(self@ is Nested) && text@ == self@.text(),
                None => self@ is Nested,
            },
    {
        match self {
            Value::Text(text) => Some(text.clone()),
            Value::Integer(number) => Some(format_i64(*number)),
            Value::Boolean(flag) => Some(format_bool(*flag)),
            Value::Nested(_) => None,
        }
    }
}

impl Record {
    /// A record without fields.
    pub fn new() -> (record: Record)
        ensures
            record@.entries.len() == 0,
            record@.well_formed(),
    {
        Record { entries: Vec::new() }
    }

    fn position(&self, name: &str) -> (found: Option<usize>)
        ensures
            match found {
                Some(i) => i < self@.entries.len() && i == first_named(self@.entries, name@),
                None => first_named(self@.entries, name@) >= self@.entries.len(),
            },
    {
        let mut i: usize = 0;
        while i < self.entries.len()
            invariant
                i <= self.entries.len(),
                forall|j: int| 0 <= j < i ==> (#[trigger] self@.entries[j]).name != name@,
            decreases self.entries.len() - i,
        {
            if same_text(self.entries[i].name.as_str(), name) {
                proof {
                    assert(self@.entries[i as int].name == name@);
                    lemma_first_named_is(self@.entries, name@, i as int);
                }
                return Some(i);
            }
            assert(self@.entries[i as int].name != name@);
            i = i + 1;
        }
        proof {
            lemma_first_named_is(self@.entries, name@, i as int);
        }
        None
    }

    /// The canonical text of the leaf value at `path`, if the path names a
    /// leaf.
    pub fn leaf_text(&self, path: &str) -> (text: Option<String>)
        ensures
            match text {
                Some(text) => self@.leaf(path@) is Some && text@ == self@.leaf(path@)->0.text(),
                None => self@.leaf(path@) is None,
            },
        decreases self,
    {
        let (first, rest) = split_first(path);
        match self.position(first) {
            None => None,
            Some(i) => {
                match &self.entries[i].value {
                    Value::Nested(inner) => match rest {
                        Some(rest) => inner.leaf_text(rest),
                        None => None,
                    },
                    leaf => match rest {
                        Some(_) => None,
                        None => leaf.text(),
                    },
                }
            },
        }
    }

    /// What writing `raw` into the leaf at `path` would come to. Nothing is
    /// written.
    fn try_store(&self, path: &str, raw: &str) -> (outcome: Written)
        ensures
            match self@.stored(path@, raw@) {
                Stored::Done(_) => outcome is Done,
                Stored::Unknown => outcome is Unknown,
                Stored::Unparsable => outcome is Unparsable,
            },
        decreases self,
    {
        let (first, rest) = split_first(path);
        match self.position(first) {
            None => Written::Unknown,
            Some(i) => {
                assert(self@.entries[i as int] == self.entries[i as int]@);
                match &self.entries[i].value {
                    Value::Nested(inner) => match rest {
                        Some(rest) => inner.try_store(rest, raw),
                        None => Written::Unknown,
                    },
                    Value::Text(_) => match rest {
                        Some(_) => Written::Unknown,
                        None => Written::Done,
                    },
                    Value::Integer(_) => match rest {
                        Some(_) => Written::Unknown,
                        None => match parse_i64(raw) {
                            Some(_) => Written::Done,
                            None => Written::Unparsable,
                        },
                    },
                    Value::Boolean(_) => match rest {
                        Some(_) => Written::Unknown,
                        None => match parse_bool(raw) {
                            Some(_) => Written::Done,
                            None => Written::Unparsable,
                        },
                    },
                }
            },
        }
    }

    /// Writes `raw` into the leaf at `path`, parsed as the leaf's type.
    fn store(&mut self, path: &str, raw: &str)
        requires
            old(self)@.stored(path@, raw@) is Done,
        ensures
            old(self)@.stored(path@, raw@) == Stored::Done(final(self)@),
        decreases *old(self),
    {
        let (first, rest) = split_first(path);
        let found = self.position(first);
        if let Some(i) = found {
            let ghost before = *self;
            assert(before@.entries[i as int] == before.entries[i as int]@);
            match &mut self.entries[i].value {
                Value::Nested(inner) => {
                    if let Some(rest) = rest {
                        inner.store(rest, raw);
                    }
                },
                Value::Text(text) => {
                    *text = raw.to_owned();
                },
                Value::Integer(number) => {
                    if let Some(parsed) = parse_i64(raw) {
                        *number = parsed;
                    }
                },
                Value::Boolean(flag) => {
                    if let Some(parsed) = parse_bool(raw) {
                        *flag = parsed;
                    }
                },
            }
            proof {
                assert(self@.entries =~= before@.with_value(
                    i as int,
                    self.entries[i as int].value@,
                ).entries);
            }
        }
    }

    /// Declares a leaf or a nested record under `name`, without rules. A name
    /// with a dot in it, or one that the record already has, is refused and
    /// the record stays as it was.
    pub fn add(&mut self, name: &str, value: Value) -> (added: bool)
        ensures
            added == (is_name(name@) && old(self)@.lacks(name@)),
            added ==> final(self)@.entries == old(self)@.entries.push(
                EntryView { name: name@, value: value@, rules: Seq::empty() },
            ),
            !added ==> *final(self) == *old(self),
            old(self)@.well_formed() && value@.well_formed() ==> final(self)@.well_formed(),
    {
        if !check_name(name) {
            return false;
        }
        if self.position(name).is_some() {
            return false;
        }
        let ghost before = *self;
        let entry = Entry { name: name.to_owned(), value, rules: Vec::new() };
        proof {
            assert(entry@.rules =~= Seq::<RuleView>::empty());
        }
        self.entries.push(entry);
        proof {
            assert(self@.entries =~= before@.entries.push(entry@));
            if before@.well_formed() && value@.well_formed() {
                let entries = self@.entries;
                assert forall|i: int| #![trigger entries[i]] 0 <= i < entries.len() implies {
                    &&& is_name(entries[i].name)
                    &&& first_named(entries, entries[i].name) == i
                    &&& entries[i].value.well_formed()
                } by {
                    lemma_first_named(before@.entries, entries[i].name);
                    if i < before@.entries.len() {
                        assert(entries[i] == before@.entries[i]);
                        assert(first_named(before@.entries, entries[i].name) == i);
                    }
                    assert forall|j: int| 0 <= j < i implies (#[trigger] entries[j]).name
                        != entries[i].name by {
                        assert(entries[j] == before@.entries[j]);
                    }
                    lemma_first_named_is(entries, entries[i].name, i);
                }
            }
        }
        true
    }

    /// Registers `rule` for the field `name` of this record, after the rules
    /// that the field already has. Without such a field the record stays as
    /// it was.
    pub fn add_rule(&mut self, name: &str, rule: Rule) -> (added: bool)
        ensures
            added == !old(self)@.lacks(name@),
            added ==> final(self)@ == old(self)@.with_rule(
                first_named(old(self)@.entries, name@),
                rule@,
            ),
            !added ==> *final(self) == *old(self),
            old(self)@.well_formed() ==> final(self)@.well_formed(),
    {
        match self.position(name) {
            None => false,
            Some(i) => {
                let ghost before = *self;
                self.entries[i].rules.push(rule);
                proof {
                    assert(self.entries[i as int]@.rules =~= before.entries[i as int]@.rules.push(
                        rule@,
                    ));
                    assert(self@.entries =~= before@.with_rule(i as int, rule@).entries);
                    if before@.well_formed() {
                        let entries = self@.entries;
                        assert forall|j: int| #![trigger entries[j]] 0 <= j < entries.len() implies {
                            &&& is_name(entries[j].name)
                            &&& first_named(entries, entries[j].name) == j
                            &&& entries[j].value.well_formed()
                        } by {
                            assert(is_name(before@.entries[j].name));
                            lemma_first_named_kept(
                                before@.entries,
                                i as int,
                                entries[i as int],
                                entries[j].name,
                            );
                        }
                    }
                }
                true
            },
        }
    }

    /// Every leaf path that the record declares, in the order of the fields.
    pub fn paths(&self) -> (paths: Vec<String>)
        ensures
            texts(paths@) == self@.paths(),
        decreases self,
    {
        let mut paths: Vec<String> = Vec::new();
        let mut i: usize = 0;
        assert(texts(paths@) =~= self@.paths_upto(0));
        while i < self.entries.len()
            invariant
                i <= self.entries.len(),
                texts(paths@) == self@.paths_upto(i as int),
            decreases self.entries.len() - i,
        {
            let entry = &self.entries[i];
            let ghost before = texts(paths@);
            assert(self@.entries[i as int] == entry@);
            match &entry.value {
                Value::Nested(inner) => {
                    let inner_paths = inner.paths();
                    let ghost own = inner@.paths().map_values(
                        |path: Seq<char>| join(entry@.name, path),
                    );
                    let mut j: usize = 0;
                    assert(texts(paths@) =~= before + own.take(0));
                    while j < inner_paths.len()
                        invariant
                            j <= inner_paths.len(),
                            texts(inner_paths@) == inner@.paths(),
                            own == inner@.paths().map_values(
                                |path: Seq<char>| join(entry@.name, path),
                            ),
                            entry@.name == entry.name@,
                            texts(paths@) == before + own.take(j as int),
                        decreases inner_paths.len() - j,
                    {
                        let path = join_path(entry.name.as_str(), inner_paths[j].as_str());
                        proof {
                            assert(texts(inner_paths@)[j as int] == inner_paths@[j as int]@);
                            assert(own[j as int] == path@);
                            assert(texts(paths@.push(path)) =~= texts(paths@).push(path@));
                            assert(own.take(j + 1) =~= own.take(j as int).push(own[j as int]));
                            assert(texts(paths@.push(path)) =~= before + own.take(j + 1));
                        }
                        paths.push(path);
                        j = j + 1;
                    }
                    assert(own.take(j as int) =~= own);
                },
                _ => {
                    let name = entry.name.clone();
                    assert(texts(paths@.push(name)) =~= before + seq![entry@.name]);
                    paths.push(name);
                },
            }
            i = i + 1;
        }
        paths
    }

    /// Runs every rule of the record and of the records nested in it, and
    /// reports the rules that do not hold, each under the full path of its
    /// field. The record is only read.
    pub fn violations(&self) -> (report: Vec<Violation>)
        ensures
            report_view(report@) == self@.violations(),
        decreases self,
    {
        let mut report: Vec<Violation> = Vec::new();
        let mut i: usize = 0;
        assert(report_view(report@) =~= self@.violations_upto(0));
        while i < self.entries.len()
            invariant
                i <= self.entries.len(),
                report_view(report@) == self@.violations_upto(i as int),
            decreases self.entries.len() - i,
        {
            let entry = &self.entries[i];
            let ghost before = report_view(report@);
            assert(self@.entries[i as int] == entry@);
            match &entry.value {
                Value::Nested(inner) => {
                    let inner_report = inner.violations();
                    let ghost own = inner@.violations().map_values(
                        |violation: (Seq<char>, Seq<char>)|
                            (join(entry@.name, violation.0), violation.1),
                    );
                    let mut j: usize = 0;
                    assert(report_view(report@) =~= before + own.take(0));
                    while j < inner_report.len()
                        invariant
                            j <= inner_report.len(),
                            report_view(inner_report@) == inner@.violations(),
                            own == inner@.violations().map_values(
                                |violation: (Seq<char>, Seq<char>)|
                                    (join(entry@.name, violation.0), violation.1),
                            ),
                            entry@.name == entry.name@,
                            report_view(report@) == before + own.take(j as int),
                        decreases inner_report.len() - j,
                    {
                        let violation = Violation {
                            path: join_path(entry.name.as_str(), inner_report[j].path.as_str()),
                            message: inner_report[j].message.clone(),
                        };
                        proof {
                            assert(report_view(inner_report@)[j as int] == inner_report@[j as int]@);
                            assert(own[j as int] == violation@);
                            assert(report_view(report@.push(violation)) =~= report_view(
                                report@,
                            ).push(violation@));
                            assert(own.take(j + 1) =~= own.take(j as int).push(own[j as int]));
                            assert(report_view(report@.push(violation)) =~= before + own.take(
                                j + 1,
                            ));
                        }
                        report.push(violation);
                        j = j + 1;
                    }
                    assert(own.take(j as int) =~= own);
                },
                leaf => {
                    let mut j: usize = 0;
                    assert(report_view(report@) =~= before + rule_violations(
                        entry@.name,
                        leaf@,
                        entry@.rules,
                        0,
                    ));
                    while j < entry.rules.len()
                        invariant
                            j <= entry.rules.len(),
                            !(leaf@ is Nested),
                            entry@.name == entry.name@,
                            entry@.rules == entry.rules@.map_values(|rule: Rule| rule@),
                            report_view(report@) == before + rule_violations(
                                entry@.name,
                                leaf@,
                                entry@.rules,
                                j as int,
                            ),
                        decreases entry.rules.len() - j,
                    {
                        let rule = &entry.rules[j];
                        assert(entry@.rules[j as int] == rule@);
                        if rule.broken_by(leaf) {
                            let violation = Violation {
                                path: entry.name.clone(),
                                message: rule.message(),
                            };
                            proof {
                                let sofar = rule_violations(
                                    entry@.name,
                                    leaf@,
                                    entry@.rules,
                                    j as int,
                                );
                                assert(rule_violations(entry@.name, leaf@, entry@.rules, j + 1)
                                    == sofar.push(violation@));
                                assert(report_view(report@.push(violation)) =~= report_view(
                                    report@,
                                ).push(violation@));
                                assert(report_view(report@.push(violation)) =~= before
                                    + sofar.push(violation@));
                            }
                            report.push(violation);
                        }
                        j = j + 1;
                    }
                },
            }
            i = i + 1;
        }
        report
    }
}

impl Rule {
    /// Whether `value` breaks the rule.
    pub fn broken_by(&self, value: &Value) -> (broken: bool)
        ensures
            broken == self@.broken_by(value@),
    {
        match self {
            Rule::MinLength { length, message: _ } => match value {
                Value::Text(text) => text.as_str().unicode_len() < *length,
                _ => false,
            },
            Rule::MustEqual { expected, message: _ } => match value {
                Value::Boolean(flag) => *flag != *expected,
                _ => false,
            },
            Rule::Range { min, max, message: _ } => match value {
                Value::Integer(number) => *number < *min || *number > *max,
                _ => false,
            },
        }
    }

    /// The message to report when the rule does not hold.
    pub fn message(&self) -> (text: String)
        ensures
            text@ == self@.message(),
    {
        match self {
            Rule::MinLength { length: _, message } => message.clone(),
            Rule::MustEqual { expected: _, message } => message.clone(),
            Rule::Range { min: _, max: _, message } => message.clone(),
        }
    }
}

impl Model for Record {
    fn fields(&self) -> (paths: Vec<String>)
        ensures
            texts(paths@) == self@.paths(),
    {
        self.paths()
    }

    fn get_string(&self, path: &str) -> (result: Result<String, FieldError>)
        ensures
            match result {
                Ok(text) => self@.leaf(path@) is Some && text@ == self@.leaf(path@)->0.text(),
                Err(error) => self@.leaf(path@) is None && error.is_unknown(path@),
            },
    {
        match self.leaf_text(path) {
            Some(text) => Ok(text),
            None => Err(FieldError::unknown(path)),
        }
    }

    fn set_from_string(&mut self, path: &str, value: &str) -> (outcome: Result<(), FieldError>)
        ensures
            match old(self)@.stored(path@, value@) {
                Stored::Done(changed) => outcome is Ok && final(self)@ == changed,
                Stored::Unknown => {
                    &&& outcome is Err
                    &&& outcome->Err_0.is_unknown(path@)
                    &&& *final(self) == *old(self)
                },
                Stored::Unparsable => {
                    &&& outcome is Err
                    &&& outcome->Err_0.is_parse_failure(path@, value@)
                    &&& *final(self) == *old(self)
                },
            },
    {
        match self.try_store(path, value) {
            Written::Done => {
                self.store(path, value);
                Ok(())
            },
            Written::Unknown => Err(FieldError::unknown(path)),
            Written::Unparsable => Err(FieldError::parse_failure(path, value)),
        }
    }

    fn validate(&self) -> (report: Vec<Violation>)
        ensures
            report_view(report@) == self@.violations(),
    {
        self.violations()
    }
}

} // verus!
