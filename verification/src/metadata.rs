//! Document metadata.

use crate::text::str_eq;
use vstd::prelude::*;

verus! {

/// A custom metadata value. Times are seconds since the Unix epoch.
#[derive(Debug, Clone)]
pub enum MetadataValue {
    String(String),
    Integer(i64),
    Boolean(bool),
    DateTime(i64),
}

pub ghost enum MetadataValueView {
    String(Seq<char>),
    Integer(i64),
    Boolean(bool),
    DateTime(i64),
}

impl DeepView for MetadataValue {
    type V = MetadataValueView;

    open spec fn deep_view(&self) -> MetadataValueView {
        match self {
            MetadataValue::String(s) => MetadataValueView::String(s@),
            MetadataValue::Integer(i) => MetadataValueView::Integer(*i),
            MetadataValue::Boolean(b) => MetadataValueView::Boolean(*b),
            MetadataValue::DateTime(t) => MetadataValueView::DateTime(*t),
        }
    }
}

impl From<String> for MetadataValue {
    fn from(value: String) -> (r: MetadataValue) {
        MetadataValue::String(value)
    }
}

impl vstd::std_specs::convert::FromSpecImpl<String> for MetadataValue {
    open spec fn obeys_from_spec() -> bool {
        true
    }

    open spec fn from_spec(value: String) -> MetadataValue {
        MetadataValue::String(value)
    }
}

impl From<&str> for MetadataValue {
    fn from(value: &str) -> (r: MetadataValue) {
        MetadataValue::text(value)
    }
}

impl vstd::std_specs::convert::FromSpecImpl<&str> for MetadataValue {
    open spec fn obeys_from_spec() -> bool {
        false
    }

    open spec fn from_spec(value: &str) -> MetadataValue {
        arbitrary()
    }
}

impl From<i64> for MetadataValue {
    fn from(value: i64) -> (r: MetadataValue) {
        MetadataValue::Integer(value)
    }
}

impl vstd::std_specs::convert::FromSpecImpl<i64> for MetadataValue {
    open spec fn obeys_from_spec() -> bool {
        true
    }

    open spec fn from_spec(value: i64) -> MetadataValue {
        MetadataValue::Integer(value)
    }
}

impl From<bool> for MetadataValue {
    fn from(value: bool) -> (r: MetadataValue) {
        MetadataValue::Boolean(value)
    }
}

impl vstd::std_specs::convert::FromSpecImpl<bool> for MetadataValue {
    open spec fn obeys_from_spec() -> bool {
        true
    }

    open spec fn from_spec(value: bool) -> MetadataValue {
        MetadataValue::Boolean(value)
    }
}

impl MetadataValue {
    /// A text value.
    pub fn text(value: &str) -> (r: MetadataValue)
        ensures
            r.deep_view() == MetadataValueView::String(value@),
    {
        MetadataValue::String(value.to_owned())
    }
}

/// One custom property.
#[derive(Debug, Clone)]
pub struct CustomEntry {
    pub key: String,
    pub value: MetadataValue,
}

pub ghost struct CustomEntryView {
    pub key: Seq<char>,
    pub value: MetadataValueView,
}

impl DeepView for CustomEntry {
    type V = CustomEntryView;

    open spec fn deep_view(&self) -> CustomEntryView {
        CustomEntryView { key: self.key@, value: self.value.deep_view() }
    }
}

/// The index of the first property at or behind `from` whose key is `key`.
pub open spec fn custom_index_from(entries: Seq<CustomEntryView>, key: Seq<char>, from: int) -> Option<
    int,
>
    decreases entries.len() - from,
{
    if from < 0 || from >= entries.len() {
        None
    } else if entries[from].key == key {
        Some(from)
    } else {
        custom_index_from(entries, key, from + 1)
    }
}

/// The custom property under `key`.
pub open spec fn custom_get(entries: Seq<CustomEntryView>, key: Seq<char>) -> Option<
    MetadataValueView,
> {
    match custom_index_from(entries, key, 0) {
        Some(k) => Some(entries[k].value),
        None => None,
    }
}

/// The properties after `value` is entered under `key`: it takes the place of the value that
/// stood under that key, and comes last where there was none.
pub open spec fn custom_insert(
    entries: Seq<CustomEntryView>,
    key: Seq<char>,
    value: MetadataValueView,
) -> Seq<CustomEntryView> {
    match custom_index_from(entries, key, 0) {
        Some(k) => entries.update(k, CustomEntryView { key, value }),
        None => entries.push(CustomEntryView { key, value }),
    }
}

/// Document metadata.
#[derive(Debug, Clone)]
pub struct Metadata {
    pub title: Option<String>,
    pub author: Option<String>,
    pub subject: Option<String>,
    pub keywords: Vec<String>,
    pub creator: Option<String>,
    pub producer: Option<String>,
    /// Creation time, in seconds since the Unix epoch.
    pub created: Option<i64>,
    /// Time of the last change, in seconds since the Unix epoch.
    pub modified: Option<i64>,
    pub language: Option<String>,
    /// Custom properties, each key once.
    pub custom: Vec<CustomEntry>,
}

pub ghost struct MetadataView {
    pub title: Option<Seq<char>>,
    pub author: Option<Seq<char>>,
    pub subject: Option<Seq<char>>,
    pub keywords: Seq<Seq<char>>,
    pub creator: Option<Seq<char>>,
    pub producer: Option<Seq<char>>,
    pub created: Option<i64>,
    pub modified: Option<i64>,
    pub language: Option<Seq<char>>,
    pub custom: Seq<CustomEntryView>,
}

impl DeepView for Metadata {
    type V = MetadataView;

    open spec fn deep_view(&self) -> MetadataView {
        MetadataView {
            title: self.title.deep_view(),
            author: self.author.deep_view(),
            subject: self.subject.deep_view(),
            keywords: self.keywords.deep_view(),
            creator: self.creator.deep_view(),
            producer: self.producer.deep_view(),
            created: self.created,
            modified: self.modified,
            language: self.language.deep_view(),
            custom: self.custom.deep_view(),
        }
    }
}

/// The metadata that says nothing.
pub open spec fn empty_metadata() -> MetadataView {
    MetadataView {
        title: None,
        author: None,
        subject: None,
        keywords: Seq::empty(),
        creator: None,
        producer: None,
        created: None,
        modified: None,
        language: None,
        custom: Seq::empty(),
    }
}

impl Metadata {
    /// Metadata that says nothing.
    pub fn new() -> (r: Metadata)
        ensures
            r.deep_view() == empty_metadata(),
    {
        let r = Metadata {
            title: None,
            author: None,
            subject: None,
            keywords: Vec::new(),
            creator: None,
            producer: None,
            created: None,
            modified: None,
            language: None,
            custom: Vec::new(),
        };
        assert(r.keywords.deep_view() =~= Seq::<Seq<char>>::empty());
        assert(r.custom.deep_view() =~= Seq::<CustomEntryView>::empty());
        r
    }

    /// A builder that starts from metadata that says nothing.
    pub fn builder() -> (r: MetadataBuilder)
        ensures
            r.deep_view() == empty_metadata(),
    {
        MetadataBuilder::new()
    }

    fn custom_index(&self, key: &str) -> (r: Option<usize>)
        ensures
            match r {
                Some(k) => custom_index_from(self.custom.deep_view(), key@, 0) == Some(k as int)
                    && k < self.custom.len(),
                None => custom_index_from(self.custom.deep_view(), key@, 0) is None,
            },
    {
        let mut i: usize = 0;
        while i < self.custom.len()
            invariant
                i <= self.custom.len(),
                custom_index_from(self.custom.deep_view(), key@, i as int) == custom_index_from(
                    self.custom.deep_view(),
                    key@,
                    0,
                ),
            decreases self.custom.len() - i,
        {
            if str_eq(self.custom[i].key.as_str(), key) {
                return Some(i);
            }
            i += 1;
        }
        None
    }

    /// Enters a custom property.
    pub fn add_custom(&mut self, key: &str, value: MetadataValue)
        ensures
            final(self).deep_view() == (MetadataView {
                custom: custom_insert(old(self).deep_view().custom, key@, value.deep_view()),
                ..old(self).deep_view()
            }),
    {
        let ghost before = self.custom.deep_view();
        let ghost entry = CustomEntryView { key: key@, value: value.deep_view() };
        match self.custom_index(key) {
            Some(k) => {
                self.custom.set(k, CustomEntry { key: key.to_owned(), value });
                assert(self.custom.deep_view() =~= before.update(k as int, entry));
            },
            None => {
                self.custom.push(CustomEntry { key: key.to_owned(), value });
                assert(self.custom.deep_view() =~= before.push(entry));
            },
        }
    }

    /// The custom property under `key`.
    pub fn get_custom(&self, key: &str) -> (r: Option<&MetadataValue>)
        ensures
            r.deep_view() == custom_get(self.deep_view().custom, key@),
    {
        match self.custom_index(key) {
            Some(k) => Some(&self.custom[k].value),
            None => None,
        }
    }
}

/// Builds metadata step by step.
#[derive(Debug)]
pub struct MetadataBuilder {
    metadata: Metadata,
}

impl DeepView for MetadataBuilder {
    type V = MetadataView;

    closed spec fn deep_view(&self) -> MetadataView {
        self.metadata.deep_view()
    }
}

impl MetadataBuilder {
    pub fn new() -> (r: MetadataBuilder)
        ensures
            r.deep_view() == empty_metadata(),
    {
        MetadataBuilder { metadata: Metadata::new() }
    }

    pub fn title(self, title: &str) -> (r: MetadataBuilder)
        ensures
            r.deep_view() == (MetadataView { title: Some(title@), ..self.deep_view() }),
    {
        let mut b = self;
        b.metadata.title = Some(title.to_owned());
        b
    }

    pub fn author(self, author: &str) -> (r: MetadataBuilder)
        ensures
            r.deep_view() == (MetadataView { author: Some(author@), ..self.deep_view() }),
    {
        let mut b = self;
        b.metadata.author = Some(author.to_owned());
        b
    }

    pub fn subject(self, subject: &str) -> (r: MetadataBuilder)
        ensures
            r.deep_view() == (MetadataView { subject: Some(subject@), ..self.deep_view() }),
    {
        let mut b = self;
        b.metadata.subject = Some(subject.to_owned());
        b
    }

    pub fn keyword(self, keyword: &str) -> (r: MetadataBuilder)
        ensures
            r.deep_view() == (MetadataView {
                keywords: self.deep_view().keywords.push(keyword@),
                ..self.deep_view()
            }),
    {
        let mut b = self;
        let ghost before = b.metadata.keywords.deep_view();
        b.metadata.keywords.push(keyword.to_owned());
        assert(b.metadata.keywords.deep_view() =~= before.push(keyword@));
        b
    }

    pub fn creator(self, creator: &str) -> (r: MetadataBuilder)
        ensures
            r.deep_view() == (MetadataView { creator: Some(creator@), ..self.deep_view() }),
    {
        let mut b = self;
        b.metadata.creator = Some(creator.to_owned());
        b
    }

    pub fn producer(self, producer: &str) -> (r: MetadataBuilder)
        ensures
            r.deep_view() == (MetadataView { producer: Some(producer@), ..self.deep_view() }),
    {
        let mut b = self;
        b.metadata.producer = Some(producer.to_owned());
        b
    }

    pub fn created(self, created: i64) -> (r: MetadataBuilder)
        ensures
            r.deep_view() == (MetadataView { created: Some(created), ..self.deep_view() }),
    {
        let mut b = self;
        b.metadata.created = Some(created);
        b
    }

    pub fn modified(self, modified: i64) -> (r: MetadataBuilder)
        ensures
            r.deep_view() == (MetadataView { modified: Some(modified), ..self.deep_view() }),
    {
        let mut b = self;
        b.metadata.modified = Some(modified);
        b
    }

    pub fn language(self, language: &str) -> (r: MetadataBuilder)
        ensures
            r.deep_view() == (MetadataView { language: Some(language@), ..self.deep_view() }),
    {
        let mut b = self;
        b.metadata.language = Some(language.to_owned());
        b
    }

    pub fn custom(self, key: &str, value: MetadataValue) -> (r: MetadataBuilder)
        ensures
            r.deep_view() == (MetadataView {
                custom: custom_insert(self.deep_view().custom, key@, value.deep_view()),
                ..self.deep_view()
            }),
    {
        let mut b = self;
        b.metadata.add_custom(key, value);
        b
    }

    pub fn build(self) -> (r: Metadata)
        ensures
            r.deep_view() == self.deep_view(),
    {
        self.metadata
    }
}

/// Whether no two properties stand under one key.
pub open spec fn custom_keys_distinct(entries: Seq<CustomEntryView>) -> bool {
    forall|i: int, j: int|
        0 <= i < j < entries.len() ==> (#[trigger] entries[i]).key != (#[trigger] entries[j]).key
}

proof fn lemma_custom_keys_index(entries: Seq<CustomEntryView>, key: Seq<char>, from: int)
    requires
        0 <= from,
    ensures
        match custom_index_from(entries, key, from) {
            Some(k) => from <= k < entries.len() && entries[k].key == key && forall|i: int|
                from <= i < k ==> (#[trigger] entries[i]).key != key,
            None => forall|i: int| from <= i < entries.len() ==> (#[trigger] entries[i]).key != key,
        },
    decreases entries.len() - from,
{
    if from < entries.len() && entries[from].key != key {
        lemma_custom_keys_index(entries, key, from + 1);
    }
}

proof fn lemma_custom_keys_index_is(entries: Seq<CustomEntryView>, key: Seq<char>, from: int, k: int)
    requires
        0 <= from <= k < entries.len(),
        entries[k].key == key,
        forall|i: int| from <= i < k ==> (#[trigger] entries[i]).key != key,
    ensures
        custom_index_from(entries, key, from) == Some(k),
    decreases k - from,
{
    if from < k {
        lemma_custom_keys_index_is(entries, key, from + 1, k);
    }
}

/// A key occurs once: entering keeps the keys distinct.
pub proof fn law_custom_keys_occur_once(entries: Seq<CustomEntryView>, key: Seq<char>, value: MetadataValueView)
    requires
        custom_keys_distinct(entries),
    ensures
        custom_keys_distinct(custom_insert(entries, key, value)),
{
    let after = custom_insert(entries, key, value);
    lemma_custom_keys_index(entries, key, 0);
    assert forall|i: int, j: int| 0 <= i < j < after.len() implies (#[trigger] after[i]).key != (
    #[trigger] after[j]).key by {
        match custom_index_from(entries, key, 0) {
            Some(k) => {
                assert(after[i].key == entries[i].key);
                assert(after[j].key == entries[j].key);
            },
            None => {
                assert(after[i] == entries[i]);
                if j < entries.len() {
                    assert(after[j] == entries[j]);
                }
            },
        }
    }
}

/// What was entered is found under its key.
pub proof fn law_custom_keys_entered_is_found(entries: Seq<CustomEntryView>, key: Seq<char>, value: MetadataValueView)
    ensures
        custom_get(custom_insert(entries, key, value), key) == Some(value),
{
    let after = custom_insert(entries, key, value);
    lemma_custom_keys_index(entries, key, 0);
    match custom_index_from(entries, key, 0) {
        Some(k) => {
            assert forall|i: int| 0 <= i < k implies (#[trigger] after[i]).key != key by {
                assert(after[i] == entries[i]);
            }
            lemma_custom_keys_index_is(after, key, 0, k);
        },
        None => {
            assert forall|i: int| 0 <= i < entries.len() implies (#[trigger] after[i]).key
                != key by {
                assert(after[i] == entries[i]);
            }
            lemma_custom_keys_index_is(after, key, 0, entries.len() as int);
        },
    }
}

} // verus!
