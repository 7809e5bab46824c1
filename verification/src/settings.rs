//! The settings a host hands a machine: one flat JSON object.
//!
//! Anything unreadable is taken as unset rather than as a failure, because a
//! movie that would have run is not worth refusing over a setting.
use serde_json::Value;
use vstd::prelude::*;
use crate::text::{same_but_for_case, same_text, trimmed};

verus! {

/// What a setting was given as.
#[derive(Debug)]
pub enum SettingValue {
    Null,
    Bool(bool),
    /// A number, and its value where that is a whole number of 64 bits.
    Number(Option<i64>),
    Text(String),
    Array,
    Object,
}

/// What a setting was given as, for contracts.
pub enum SettingView {
    Null,
    Bool(bool),
    Number(Option<i64>),
    Text(Seq<char>),
    Array,
    Object,
}

impl View for SettingValue {
    type V = SettingView;

    open spec fn view(&self) -> SettingView {
        match self {
            SettingValue::Null => SettingView::Null,
            SettingValue::Bool(b) => SettingView::Bool(*b),
            SettingValue::Number(n) => SettingView::Number(*n),
            SettingValue::Text(t) => SettingView::Text(t@),
            SettingValue::Array => SettingView::Array,
            SettingValue::Object => SettingView::Object,
        }
    }
}

/// One setting and its name.
#[derive(Debug)]
pub struct Setting {
    pub name: String,
    pub value: SettingValue,
}

/// The settings of a run. No name occurs twice.
#[derive(Debug)]
pub struct Settings {
    pub entries: Vec<Setting>,
}

/// No two entries have one name.
pub open spec fn distinct_names(entries: Seq<Setting>) -> bool {
    forall|i: int, j: int|
        0 <= i < j < entries.len() ==> (#[trigger] entries[i]).name@ != (#[trigger] entries[j]).name@
}

/// What each name is set to.
pub open spec fn members(entries: Seq<Setting>) -> Map<Seq<char>, SettingView>
    decreases entries.len(),
{
    if entries.len() == 0 {
        Map::empty()
    } else {
        members(entries.drop_last()).insert(entries.last().name@, entries.last().value@)
    }
}

impl View for Settings {
    type V = Map<Seq<char>, SettingView>;

    open spec fn view(&self) -> Map<Seq<char>, SettingView> {
        members(self.entries@)
    }
}

/// A JSON document: an object's members, or the kind that it is instead.
pub enum Document {
    Null,
    Bool,
    Number,
    Text,
    Array,
    Object(Vec<Setting>),
}

/// A JSON document, for contracts.
pub enum DocumentView {
    Null,
    Bool,
    Number,
    Text,
    Array,
    Object(Map<Seq<char>, SettingView>),
}

impl View for Document {
    type V = DocumentView;

    open spec fn view(&self) -> DocumentView {
        match self {
            Document::Null => DocumentView::Null,
            Document::Bool => DocumentView::Bool,
            Document::Number => DocumentView::Number,
            Document::Text => DocumentView::Text,
            Document::Array => DocumentView::Array,
            Document::Object(entries) => DocumentView::Object(members(entries@)),
        }
    }
}

/// What `serde_json::from_slice` makes of some bytes: the JSON document that
/// they are, and nothing where they are none.
pub uninterp spec fn json_document(raw: Seq<u8>) -> Option<DocumentView>;

/// `serde_json::from_slice` into a `Value`, each variant told apart, the members
/// of an object moved out, and a number among them taken by `Number::as_i64`. A
/// `serde_json` object holds each name once.
#[verifier::external_body]
fn parse_document(raw: &[u8]) -> (r: Option<Document>)
    ensures
        r is Some <==> json_document(raw@) is Some,
        r matches Some(d) ==> d@ == json_document(raw@)->0,
        r matches Some(Document::Object(entries)) ==> distinct_names(entries@),
{
    Some(match serde_json::from_slice(raw).ok()? {
        Value::Null => Document::Null, Value::Bool(_) => Document::Bool,
        Value::Number(_) => Document::Number, Value::String(_) => Document::Text,
        Value::Array(_) => Document::Array,
        Value::Object(map) => Document::Object(map.into_iter().map(|(name, value)| Setting {
            name, value: match value {
                Value::Null => SettingValue::Null,
                Value::Bool(b) => SettingValue::Bool(b),
                Value::Number(n) => SettingValue::Number(n.as_i64()),
                Value::String(s) => SettingValue::Text(s),
                Value::Array(_) => SettingValue::Array,
                Value::Object(_) => SettingValue::Object,
            },
        }).collect()),
    })
}

/// The settings that a document holds: its members where it is an object, and
/// none where it is anything else, or nothing.
pub open spec fn document_members(document: Option<DocumentView>) -> Map<Seq<char>, SettingView> {
    match document {
        Some(DocumentView::Object(m)) => m,
        _ => Map::empty(),
    }
}

/// What a mounted settings file says, when there is one.
pub open spec fn loaded(raw: Option<Seq<u8>>) -> Map<Seq<char>, SettingView> {
    match raw {
        Some(bytes) => document_members(json_document(bytes)),
        None => Map::empty(),
    }
}

/// A document, for contracts, where there is one.
pub open spec fn maybe_document(document: Option<Document>) -> Option<DocumentView> {
    match document {
        Some(d) => Some(d@),
        None => None,
    }
}

/// The text a setting holds: trimmed, and nothing when blank, absent or not a
/// text at all.
pub open spec fn text_setting(s: Map<Seq<char>, SettingView>, name: Seq<char>) -> Option<
    Seq<char>,
> {
    if s.dom().contains(name) {
        match s[name] {
            SettingView::Text(t) => if trimmed(t).len() == 0 {
                None
            } else {
                Some(trimmed(t))
            },
            _ => None,
        }
    } else {
        None
    }
}

/// The flag a setting holds, or `fallback`.
pub open spec fn bool_setting(
    s: Map<Seq<char>, SettingView>,
    name: Seq<char>,
    fallback: bool,
) -> bool {
    if s.dom().contains(name) {
        match s[name] {
            SettingView::Bool(b) => b,
            _ => fallback,
        }
    } else {
        fallback
    }
}

/// The whole number a setting holds, or `fallback`.
pub open spec fn int_setting(s: Map<Seq<char>, SettingView>, name: Seq<char>, fallback: i64) -> i64 {
    if s.dom().contains(name) {
        match s[name] {
            SettingView::Number(Some(n)) => n,
            _ => fallback,
        }
    } else {
        fallback
    }
}

/// What the first row of `table` that is called `word`, whatever the case of
/// its letters, stands for; `fallback` where none is.
pub open spec fn named_choice<T>(table: Seq<(&str, T)>, word: Seq<char>, fallback: T) -> T
    decreases table.len(),
{
    if table.len() == 0 {
        fallback
    } else if same_but_for_case(table[0].0@, word) {
        table[0].1
    } else {
        named_choice(table.drop_first(), word, fallback)
    }
}

/// The choice a setting names, or `fallback`.
pub open spec fn choice_setting<T>(
    s: Map<Seq<char>, SettingView>,
    name: Seq<char>,
    table: Seq<(&str, T)>,
    fallback: T,
) -> T {
    match text_setting(s, name) {
        Some(word) => named_choice(table, word, fallback),
        None => fallback,
    }
}

/// A setting is found under its own name, and is what it was given as.
pub proof fn member_at(entries: Seq<Setting>, i: int)
    requires
        distinct_names(entries),
        0 <= i < entries.len(),
    ensures
        members(entries).dom().contains(entries[i].name@),
        members(entries)[entries[i].name@] == entries[i].value@,
    decreases entries.len(),
{
    let front = entries.drop_last();
    if i < entries.len() - 1 {
        assert(distinct_names(front)) by {
            assert forall|a: int, b: int| 0 <= a < b < front.len() implies (
            #[trigger] front[a]).name@ != (#[trigger] front[b]).name@ by {
                assert(entries[a].name@ != entries[b].name@);
            }
        }
        member_at(front, i);
        assert(front[i] == entries[i]);
        assert(entries[i].name@ != entries[entries.len() - 1].name@);
    }
}

/// A name that no setting has is not set.
pub proof fn member_nowhere(entries: Seq<Setting>, name: Seq<char>)
    requires
        forall|i: int| 0 <= i < entries.len() ==> (#[trigger] entries[i]).name@ != name,
    ensures
        !members(entries).dom().contains(name),
    decreases entries.len(),
{
    if entries.len() > 0 {
        let front = entries.drop_last();
        assert forall|i: int| 0 <= i < front.len() implies (#[trigger] front[i]).name@ != name by {
            assert(front[i] == entries[i]);
        }
        member_nowhere(front, name);
        assert(entries[entries.len() - 1].name@ != name);
    }
}

impl Settings {
    /// No name occurs twice.
    pub open spec fn well_formed(self) -> bool {
        distinct_names(self.entries@)
    }

    /// The settings that a document holds. One that is no object holds none.
    pub fn of_document(document: Option<Document>) -> (s: Settings)
        requires
            document matches Some(Document::Object(entries)) ==> distinct_names(entries@),
        ensures
            s.well_formed(),
            s@ == document_members(maybe_document(document)),
    {
        match document {
            Some(Document::Object(entries)) => Settings { entries },
            _ => Settings { entries: Vec::new() },
        }
    }

    /// Reads the settings out of the bytes that were mounted, if any were.
    pub fn load(raw: Option<&[u8]>) -> (s: Settings)
        ensures
            s.well_formed(),
            s@ == loaded(
                match raw {
                    Some(bytes) => Some(bytes@),
                    None => None,
                },
            ),
    {
        match raw {
            Some(bytes) => Settings::of_document(parse_document(bytes)),
            None => Settings::of_document(None),
        }
    }

    /// Where a name is set.
    fn find(&self, name: &str) -> (r: Option<&SettingValue>)
        requires
            self.well_formed(),
        ensures
            r is Some <==> self@.dom().contains(name@),
            r matches Some(v) ==> v@ == self@[name@],
    {
        let len: usize = self.entries.len();
        for i in 0usize..len
            invariant
                self.well_formed(),
                len == self.entries@.len(),
                forall|j: int| 0 <= j < i ==> (#[trigger] self.entries@[j]).name@ != name@,
        {
            if same_text(self.entries[i].name.as_str(), name) {
                proof {
                    member_at(self.entries@, i as int);
                }
                return Some(&self.entries[i].value);
            }
        }
        proof {
            member_nowhere(self.entries@, name@);
        }
        None
    }

    /// A non-blank string, or `None`. White space is not a value.
    pub fn text(&self, name: &str) -> (r: Option<String>)
        requires
            self.well_formed(),
        ensures
            r is Some <==> text_setting(self@, name@) is Some,
            r matches Some(t) ==> t@ == text_setting(self@, name@)->0,
    {
        match self.find(name) {
            Some(SettingValue::Text(t)) => {
                let s: &str = t.as_str().trim();
                if s.is_empty() {
                    None
                } else {
                    Some(s.to_owned())
                }
            },
            _ => None,
        }
    }

    /// An enumeration arrives as the name of one of its values. Case does not
    /// matter, and an unknown name is the fallback rather than a failure.
    pub fn choice<T: Copy>(&self, name: &str, table: &[(&str, T)], fallback: T) -> (r: T)
        requires
            self.well_formed(),
        ensures
            r == choice_setting(self@, name@, table@, fallback),
    {
        match self.text(name) {
            Some(v) => {
                assert(table@.skip(0) =~= table@);
                for i in 0..table.len()
                    invariant
                        text_setting(self@, name@) == Some(v@),
                        named_choice(table@, v@, fallback) == named_choice(
                            table@.skip(i as int),
                            v@,
                            fallback,
                        ),
                {
                    assert(table@.skip(i as int).drop_first() =~= table@.skip(i + 1));
                    if table[i].0.eq_ignore_ascii_case(v.as_str()) {
                        return table[i].1;
                    }
                }
                fallback
            },
            None => fallback,
        }
    }

    /// A flag, or the fallback where it is not set to one.
    pub fn flag(&self, name: &str, fallback: bool) -> (r: bool)
        requires
            self.well_formed(),
        ensures
            r == bool_setting(self@, name@, fallback),
    {
        match self.find(name) {
            Some(SettingValue::Bool(b)) => *b,
            _ => fallback,
        }
    }

    /// A whole number, or the fallback where it is not set to one.
    pub fn integer(&self, name: &str, fallback: i64) -> (r: i64)
        requires
            self.well_formed(),
        ensures
            r == int_setting(self@, name@, fallback),
    {
        match self.find(name) {
            Some(SettingValue::Number(Some(n))) => *n,
            _ => fallback,
        }
    }
}

/// A setting that is a text is that text without the white space at its ends,
/// and unset where that leaves nothing. A setting of any other kind is no text.
pub proof fn only_a_text_is_a_text(s: Map<Seq<char>, SettingView>, name: Seq<char>, t: Seq<char>)
    ensures
        trimmed(t).len() > 0 ==> text_setting(s.insert(name, SettingView::Text(t)), name) == Some(
            trimmed(t),
        ),
        trimmed(t).len() == 0 ==> text_setting(s.insert(name, SettingView::Text(t)), name) is None,
        text_setting(s.insert(name, SettingView::Null), name) is None,
        forall|b: bool| text_setting(#[trigger] s.insert(name, SettingView::Bool(b)), name) is None,
        forall|n: Option<i64>|
            text_setting(#[trigger] s.insert(name, SettingView::Number(n)), name) is None,
        text_setting(s.insert(name, SettingView::Array), name) is None,
        text_setting(s.insert(name, SettingView::Object), name) is None,
        text_setting(s.remove(name), name) is None,
{
}

/// A setting that is a flag is that flag; any other, or none, is the fallback.
pub proof fn only_a_flag_is_a_flag(
    s: Map<Seq<char>, SettingView>,
    name: Seq<char>,
    b: bool,
    fallback: bool,
)
    ensures
        bool_setting(s.insert(name, SettingView::Bool(b)), name, fallback) == b,
        forall|v: SettingView|
            !(v is Bool) ==> bool_setting(#[trigger] s.insert(name, v), name, fallback) == fallback,
        bool_setting(s.remove(name), name, fallback) == fallback,
{
}

/// A setting that is a whole number of 64 bits is that number; any other, or none,
/// is the fallback.
pub proof fn only_a_whole_number_is_one(
    s: Map<Seq<char>, SettingView>,
    name: Seq<char>,
    n: i64,
    fallback: i64,
)
    ensures
        int_setting(s.insert(name, SettingView::Number(Some(n))), name, fallback) == n,
        int_setting(s.insert(name, SettingView::Number(None)), name, fallback) == fallback,
        forall|v: SettingView|
            !(v is Number) ==> int_setting(#[trigger] s.insert(name, v), name, fallback)
                == fallback,
        int_setting(s.remove(name), name, fallback) == fallback,
{
}

/// A setting says nothing of any other name.
pub proof fn settings_are_apart(
    s: Map<Seq<char>, SettingView>,
    name: Seq<char>,
    other: Seq<char>,
    v: SettingView,
    b: bool,
    n: i64,
)
    requires
        name != other,
    ensures
        text_setting(s.insert(other, v), name) == text_setting(s, name),
        bool_setting(s.insert(other, v), name, b) == bool_setting(s, name, b),
        int_setting(s.insert(other, v), name, n) == int_setting(s, name, n),
{
}

/// The choice that a word names is the first row called by it, whatever the case
/// of its letters.
pub proof fn a_word_names_the_first_row_of_its_name<T>(
    table: Seq<(&str, T)>,
    word: Seq<char>,
    fallback: T,
    i: int,
)
    requires
        0 <= i < table.len(),
        same_but_for_case(table[i].0@, word),
        forall|j: int| 0 <= j < i ==> !same_but_for_case((#[trigger] table[j]).0@, word),
    ensures
        named_choice(table, word, fallback) == table[i].1,
    decreases i,
{
    if i > 0 {
        let rest = table.drop_first();
        assert forall|j: int| 0 <= j < i - 1 implies !same_but_for_case(
            (#[trigger] rest[j]).0@,
            word,
        ) by {
            assert(rest[j] == table[j + 1]);
        }
        assert(!same_but_for_case(table[0].0@, word));
        assert(rest[i - 1] == table[i]);
        a_word_names_the_first_row_of_its_name(rest, word, fallback, i - 1);
    }
}

/// A word that no row is called by is the fallback.
pub proof fn an_unknown_word_is_the_fallback<T>(table: Seq<(&str, T)>, word: Seq<char>, fallback: T)
    requires
        forall|j: int| 0 <= j < table.len() ==> !same_but_for_case((#[trigger] table[j]).0@, word),
    ensures
        named_choice(table, word, fallback) == fallback,
    decreases table.len(),
{
    if table.len() > 0 {
        let rest = table.drop_first();
        assert forall|j: int| 0 <= j < rest.len() implies !same_but_for_case(
            (#[trigger] rest[j]).0@,
            word,
        ) by {
            assert(rest[j] == table[j + 1]);
        }
        assert(!same_but_for_case(table[0].0@, word));
        an_unknown_word_is_the_fallback(rest, word, fallback);
    }
}

/// A setting that is no text names no choice.
pub proof fn an_unset_choice_is_the_fallback<T>(
    s: Map<Seq<char>, SettingView>,
    name: Seq<char>,
    table: Seq<(&str, T)>,
    fallback: T,
)
    ensures
        text_setting(s, name) is None ==> choice_setting(s, name, table, fallback) == fallback,
        text_setting(s, name) matches Some(word) ==> choice_setting(s, name, table, fallback)
            == named_choice(table, word, fallback),
{
}

/// Only a JSON object holds settings, and it holds all its members.
pub proof fn only_an_object_holds_settings(document: DocumentView, raw: Seq<u8>)
    ensures
        document matches DocumentView::Object(m) ==> document_members(Some(document)) == m,
        !(document is Object) ==> document_members(Some(document)) == Map::<
            Seq<char>,
            SettingView,
        >::empty(),
        loaded(None) == Map::<Seq<char>, SettingView>::empty(),
        json_document(raw) is None ==> loaded(Some(raw)) == Map::<Seq<char>, SettingView>::empty(),
        json_document(raw) == Some(document) && document is Object ==> loaded(Some(raw))
            == document->Object_0,
{
}

} // verus!
