//! Relationship parts: the table from a short id to a target path and a type.

use vstd::prelude::*;
use vstd::string::StringSliceAdditionalSpecFns;
use crate::error::Error;
use crate::error::ErrorView;
use crate::text::attr_value;
use crate::text::lit;
use crate::text::str_eq;
use crate::text::utf8_lossy;
use crate::xml::attr_last;
use crate::xml::last_attr;
use crate::xml::read_events;
use crate::xml::result_view;
use crate::xml::xml_events;
use crate::xml::XmlAttrView;
use crate::xml::XmlEvent;
use crate::xml::XmlEventKind;
use crate::xml::XmlEventView;

verus! {

/// A relationship to an internal or external resource.
#[derive(Debug, Clone)]
pub struct Relationship {
    pub id: String,
    /// Target path, as written: possibly relative, with `..` segments.
    pub target: String,
    /// URI that names the kind of the target.
    pub rel_type: String,
}

pub ghost struct RelationshipView {
    pub id: Seq<char>,
    pub target: Seq<char>,
    pub rel_type: Seq<char>,
}

impl DeepView for Relationship {
    type V = RelationshipView;

    open spec fn deep_view(&self) -> RelationshipView {
        RelationshipView { id: self.id@, target: self.target@, rel_type: self.rel_type@ }
    }
}

/// The index of the first entry at or behind `from` whose id is `id`.
pub open spec fn rel_index_from(entries: Seq<RelationshipView>, id: Seq<char>, from: int) -> Option<
    int,
>
    decreases entries.len() - from,
{
    if from < 0 || from >= entries.len() {
        None
    } else if entries[from].id == id {
        Some(from)
    } else {
        rel_index_from(entries, id, from + 1)
    }
}

/// The index of the entry whose id is `id`.
pub open spec fn rel_index(entries: Seq<RelationshipView>, id: Seq<char>) -> Option<int> {
    rel_index_from(entries, id, 0)
}

/// The entry whose id is `id`.
pub open spec fn rel_get(entries: Seq<RelationshipView>, id: Seq<char>) -> Option<
    RelationshipView,
> {
    match rel_index(entries, id) {
        Some(k) => Some(entries[k]),
        None => None,
    }
}

/// The table after `rel` is entered: it takes the place of an entry with the same id, and
/// comes last where there is none.
pub open spec fn rel_insert(entries: Seq<RelationshipView>, rel: RelationshipView) -> Seq<
    RelationshipView,
> {
    match rel_index(entries, rel.id) {
        Some(k) => entries.update(k, rel),
        None => entries.push(rel),
    }
}

/// The entries whose type is `rel_type`, from index `from` on, in table order.
pub open spec fn rel_of_type_from(
    entries: Seq<RelationshipView>,
    rel_type: Seq<char>,
    from: int,
) -> Seq<RelationshipView>
    decreases entries.len() - from,
{
    if from < 0 || from >= entries.len() {
        Seq::empty()
    } else if entries[from].rel_type == rel_type {
        seq![entries[from]] + rel_of_type_from(entries, rel_type, from + 1)
    } else {
        rel_of_type_from(entries, rel_type, from + 1)
    }
}

/// The relationship that a `Relationship` element declares: `None` unless it has all of
/// `Id`, `Target` and `Type`.
pub open spec fn rel_of_attrs(attrs: Seq<XmlAttrView>) -> Option<RelationshipView> {
    match (
        attr_last(attrs, lit("Id")),
        attr_last(attrs, lit("Target")),
        attr_last(attrs, lit("Type")),
    ) {
        (Some(id), Some(target), Some(rel_type)) => Some(
            RelationshipView {
                id: utf8_lossy(id),
                target: utf8_lossy(target),
                rel_type: utf8_lossy(rel_type),
            },
        ),
        _ => None,
    }
}

/// The message of the error that a malformed relationships part gives.
pub open spec fn rel_error(detail: Seq<char>) -> ErrorView {
    ErrorView::ParseError("XML error in relationships: "@ + detail)
}

/// The table that the events from index `from` on add to `acc`: every `Relationship` element
/// with all three attributes is entered, anything else is passed over, and an error event
/// fails the whole part.
pub open spec fn rels_from(events: Seq<XmlEventView>, from: int, acc: Seq<RelationshipView>) -> Result<
    Seq<RelationshipView>,
    ErrorView,
>
    decreases events.len() - from,
{
    if from < 0 || from >= events.len() {
        Ok(acc)
    } else {
        let ev = events[from];
        if ev.kind == XmlEventKind::Error {
            Err(rel_error(ev.message))
        } else if XmlEvent::spec_opens(ev) && ev.name == lit("Relationship") {
            match rel_of_attrs(ev.attrs) {
                Some(rel) => rels_from(events, from + 1, rel_insert(acc, rel)),
                None => rels_from(events, from + 1, acc),
            }
        } else {
            rels_from(events, from + 1, acc)
        }
    }
}

/// The table of a relationships part, given by its events.
pub open spec fn rels_of_events(events: Seq<XmlEventView>) -> Result<
    Seq<RelationshipView>,
    ErrorView,
> {
    rels_from(events, 0, Seq::empty())
}

/// Whether no two entries share an id.
pub open spec fn rel_ids_distinct(entries: Seq<RelationshipView>) -> bool {
    forall|i: int, j: int|
        0 <= i < j < entries.len() ==> (#[trigger] entries[i]).id != (#[trigger] entries[j]).id
}

/// The relationships of one package part, keyed by id.
#[derive(Debug, Clone)]
pub struct Relationships {
    entries: Vec<Relationship>,
}

impl DeepView for Relationships {
    type V = Seq<RelationshipView>;

    closed spec fn deep_view(&self) -> Seq<RelationshipView> {
        self.entries.deep_view()
    }
}

impl Relationships {
    /// An empty table.
    pub fn new() -> (r: Self)
        ensures
            r.deep_view() == Seq::<RelationshipView>::empty(),
    {
        let r = Relationships { entries: Vec::new() };
        r
    }

    fn index_of(&self, id: &str) -> (r: Option<usize>)
        ensures
            match r {
                Some(k) => rel_index(self.deep_view(), id@) == Some(k as int) && k
                    < self.entries.len(),
                None => rel_index(self.deep_view(), id@) is None,
            },
    {
        let mut i: usize = 0;
        while i < self.entries.len()
            invariant
                i <= self.entries.len(),
                rel_index_from(self.entries.deep_view(), id@, i as int) == rel_index(
                    self.entries.deep_view(),
                    id@,
                ),
            decreases self.entries.len() - i,
        {
            if str_eq(self.entries[i].id.as_str(), id) {
                return Some(i);
            }
            i += 1;
        }
        None
    }

    /// Enters `rel`, in place of an entry with the same id where there is one.
    pub fn insert(&mut self, rel: Relationship)
        ensures
            final(self).deep_view() == rel_insert(old(self).deep_view(), rel.deep_view()),
    {
        match self.index_of(rel.id.as_str()) {
            Some(k) => {
                self.entries.set(k, rel);
            },
            None => {
                self.entries.push(rel);
            },
        }
    }

    /// The table of a relationships part, given by its events.
    pub fn from_events(events: &Vec<XmlEvent>) -> (r: Result<Relationships, Error>)
        ensures
            result_view(r) == rels_of_events(events.deep_view()),
    {
        let mut rels = Relationships::new();
        let mut i: usize = 0;
        while i < events.len()
            invariant
                i <= events.len(),
                rels_from(events.deep_view(), i as int, rels.deep_view()) == rels_of_events(
                    events.deep_view(),
                ),
            decreases events.len() - i,
        {
            let ev = &events[i];
            if ev.kind == XmlEventKind::Error {
                return Err(Error::parse_with("XML error in relationships: ", ev.message.as_str()));
            }
            if ev.opens() && ev.named("Relationship") {
                let id = last_attr(&ev.attrs, "Id");
                let target = last_attr(&ev.attrs, "Target");
                let rel_type = last_attr(&ev.attrs, "Type");
                match (id, target, rel_type) {
                    (Some(id), Some(target), Some(rel_type)) => {
                        rels.insert(
                            Relationship {
                                id: attr_value(id.as_slice()),
                                target: attr_value(target.as_slice()),
                                rel_type: attr_value(rel_type.as_slice()),
                            },
                        );
                    },
                    _ => {},
                }
            }
            i += 1;
        }
        Ok(rels)
    }

    /// Parses a relationships part. Fails only on malformed XML; an element that lacks an
    /// attribute is passed over.
    pub fn from_xml(xml: &str) -> (r: Result<Relationships, Error>)
        ensures
            result_view(r) == rels_of_events(xml_events(xml.spec_bytes(), true)),
    {
        let events = read_events(xml.as_bytes(), true);
        Relationships::from_events(&events)
    }

    /// The relationship with the given id.
    pub fn get(&self, id: &str) -> (r: Option<&Relationship>)
        ensures
            r.deep_view() == rel_get(self.deep_view(), id@),
    {
        match self.index_of(id) {
            Some(k) => Some(&self.entries[k]),
            None => None,
        }
    }

    /// The relationships of the given type, in table order.
    pub fn find_by_type(&self, rel_type: &str) -> (r: Vec<&Relationship>)
        ensures
            r.deep_view() == rel_of_type_from(self.deep_view(), rel_type@, 0),
    {
        let mut found: Vec<&Relationship> = Vec::new();
        let mut i: usize = 0;
        while i < self.entries.len()
            invariant
                i <= self.entries.len(),
                found.deep_view() + rel_of_type_from(self.entries.deep_view(), rel_type@, i as int)
                    == rel_of_type_from(self.entries.deep_view(), rel_type@, 0),
            decreases self.entries.len() - i,
        {
            let ghost before = found.deep_view();
            let ghost rest = rel_of_type_from(self.entries.deep_view(), rel_type@, i + 1);
            if str_eq(self.entries[i].rel_type.as_str(), rel_type) {
                found.push(&self.entries[i]);
                assert(found.deep_view() + rest =~= before + (seq![
                    self.entries.deep_view()[i as int],
                ] + rest));
            }
            i += 1;
        }
        found
    }

    /// Number of relationships.
    pub fn len(&self) -> (n: usize)
        ensures
            n == self.deep_view().len(),
    {
        self.entries.len()
    }

    /// The relationship at position `index` of the table.
    pub fn entry(&self, index: usize) -> (r: &Relationship)
        requires
            index < self.deep_view().len(),
        ensures
            r.deep_view() == self.deep_view()[index as int],
    {
        &self.entries[index]
    }
}

/// Where no entry at or behind `from` is found under an id, none has it.
pub proof fn lemma_rel_index_none(entries: Seq<RelationshipView>, id: Seq<char>, from: int)
    requires
        0 <= from,
        rel_index_from(entries, id, from) is None,
    ensures
        forall|i: int| from <= i < entries.len() ==> (#[trigger] entries[i]).id != id,
    decreases entries.len() - from,
{
    if from < entries.len() {
        lemma_rel_index_none(entries, id, from + 1);
    }
}

/// The entry found under an id has that id.
pub proof fn lemma_rel_index_some(entries: Seq<RelationshipView>, id: Seq<char>, from: int)
    requires
        0 <= from,
        rel_index_from(entries, id, from) is Some,
    ensures
        from <= rel_index_from(entries, id, from)->0 < entries.len(),
        entries[rel_index_from(entries, id, from)->0].id == id,
    decreases entries.len() - from,
{
    if from < entries.len() && entries[from].id != id {
        lemma_rel_index_some(entries, id, from + 1);
    }
}

/// Entering a relationship keeps the ids of the table distinct.
pub proof fn lemma_rel_insert_distinct(entries: Seq<RelationshipView>, rel: RelationshipView)
    requires
        rel_ids_distinct(entries),
    ensures
        rel_ids_distinct(rel_insert(entries, rel)),
{
    match rel_index(entries, rel.id) {
        Some(k) => {
            lemma_rel_index_some(entries, rel.id, 0);
            let after = entries.update(k, rel);
            assert forall|i: int, j: int| 0 <= i < j < after.len() implies (#[trigger] after[i]).id
                != (#[trigger] after[j]).id by {
                assert(after[i].id == entries[i].id);
                assert(after[j].id == entries[j].id);
            }
        },
        None => {
            lemma_rel_index_none(entries, rel.id, 0);
            let after = entries.push(rel);
            assert forall|i: int, j: int| 0 <= i < j < after.len() implies (#[trigger] after[i]).id
                != (#[trigger] after[j]).id by {
                if j < entries.len() {
                    assert(after[i] == entries[i]);
                    assert(after[j] == entries[j]);
                } else {
                    assert(after[i] == entries[i]);
                }
            }
        },
    }
}

pub proof fn lemma_rels_from_distinct(
    events: Seq<XmlEventView>,
    from: int,
    acc: Seq<RelationshipView>,
)
    requires
        rel_ids_distinct(acc),
    ensures
        rels_from(events, from, acc) matches Ok(table) ==> rel_ids_distinct(table),
    decreases events.len() - from,
{
    if !(from < 0 || from >= events.len()) {
        let ev = events[from];
        if ev.kind == XmlEventKind::Error {
        } else if XmlEvent::spec_opens(ev) && ev.name == lit("Relationship") {
            match rel_of_attrs(ev.attrs) {
                Some(rel) => {
                    lemma_rel_insert_distinct(acc, rel);
                    lemma_rels_from_distinct(events, from + 1, rel_insert(acc, rel));
                },
                None => {
                    lemma_rels_from_distinct(events, from + 1, acc);
                },
            }
        } else {
            lemma_rels_from_distinct(events, from + 1, acc);
        }
    }
}

/// Within the table of a relationships part every id occurs once.
pub proof fn law_relationship_ids_are_unique(events: Seq<XmlEventView>)
    ensures
        rels_of_events(events) matches Ok(table) ==> rel_ids_distinct(table),
{
    lemma_rels_from_distinct(events, 0, Seq::empty());
}

/// A relationship that was entered is found under its id, whatever the table held before.
pub proof fn law_entered_relationship_is_found(
    entries: Seq<RelationshipView>,
    rel: RelationshipView,
)
    requires
        rel_ids_distinct(entries),
    ensures
        rel_get(rel_insert(entries, rel), rel.id) == Some(rel),
{
    let after = rel_insert(entries, rel);
    lemma_rel_insert_distinct(entries, rel);
    match rel_index(entries, rel.id) {
        Some(k) => {
            lemma_rel_index_some(entries, rel.id, 0);
            assert(after[k] == rel);
        },
        None => {
            assert(after[entries.len() as int] == rel);
        },
    }
    match rel_index(after, rel.id) {
        Some(j) => {
            lemma_rel_index_some(after, rel.id, 0);
            // Ids are distinct, so the entry found is the one entered.
            match rel_index(entries, rel.id) {
                Some(k) => {
                    if j != k {
                        if j < k {
                            assert(after[j].id != after[k].id);
                        } else {
                            assert(after[k].id != after[j].id);
                        }
                    }
                },
                None => {
                    let last = entries.len() as int;
                    if j != last {
                        assert(after[j].id != after[last].id);
                    }
                },
            }
        },
        None => {
            lemma_rel_index_none(after, rel.id, 0);
            match rel_index(entries, rel.id) {
                Some(k) => {
                    assert(after[k].id == rel.id);
                },
                None => {
                    assert(after[entries.len() as int].id == rel.id);
                },
            }
        },
    }
}

} // verus!
