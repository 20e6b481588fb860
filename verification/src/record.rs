//! The loosely typed record the remote feed returns for one item, read into
//! typed slots.

use vstd::prelude::*;

verus! {

/// What a record holds under one key.
#[derive(Debug, PartialEq, Eq)]
pub enum Field<T> {
    /// The record has no such key.
    Absent,
    /// The key holds a value of the expected shape.
    Present(T),
    /// The key holds a value of another shape.
    Malformed,
}

/// The slot for what a lookup brought: nothing where the key was not
/// found, a value where one of the expected shape was found, and the mark
/// of a malformed value where the value found had another shape.
pub open spec fn slot_of<T>(lookup: Option<Option<T>>) -> Field<T> {
    match lookup {
        None => Field::Absent,
        Some(None) => Field::Malformed,
        Some(Some(value)) => Field::Present(value),
    }
}

/// The integers of a list read element by element: all of them, in order,
/// where every element was an integer, and nothing otherwise.
pub open spec fn gathered(read: Seq<Option<i64>>) -> Option<Seq<i64>> {
    if forall|i: int| 0 <= i < read.len() ==> (#[trigger] read[i]) is Some {
        Some(Seq::new(read.len(), |i: int| read[i]->0))
    } else {
        None
    }
}

impl<T> Field<T> {
    /// The slot for what a lookup brought.
    pub fn found(lookup: Option<Option<T>>) -> (slot: Field<T>)
        ensures
            slot == slot_of(lookup),
    {
        match lookup {
            None => Field::Absent,
            Some(None) => Field::Malformed,
            Some(Some(value)) => Field::Present(value),
        }
    }
}

/// The integers of a list read element by element.
pub fn gather(read: &Vec<Option<i64>>) -> (ids: Option<Vec<i64>>)
    ensures
        ids is Some <==> gathered(read@) is Some,
        ids matches Some(v) ==> gathered(read@) == Some(v@),
{
    let mut ids: Vec<i64> = Vec::new();
    let mut i: usize = 0;
    while i < read.len()
        invariant
            i <= read@.len(),
            ids@.len() == i,
            forall|j: int| 0 <= j < i ==> (#[trigger] read@[j]) == Some(ids@[j]),
        decreases read@.len() - i,
    {
        match read[i] {
            Some(id) => {
                ids.push(id);
            },
            None => {
                return None;
            },
        }
        i = i + 1;
    }
    Some(ids)
}

/// A text slot as a character sequence.
pub open spec fn text_view(f: Field<String>) -> Field<Seq<char>> {
    match f {
        Field::Absent => Field::Absent,
        Field::Present(s) => Field::Present(s@),
        Field::Malformed => Field::Malformed,
    }
}

/// A slot of ids as a sequence.
pub open spec fn ids_view(f: Field<Vec<i64>>) -> Field<Seq<i64>> {
    match f {
        Field::Absent => Field::Absent,
        Field::Present(v) => Field::Present(v@),
        Field::Malformed => Field::Malformed,
    }
}

/// The key whose value did not have the shape its reader expects.
#[derive(Clone, Copy, Debug, PartialEq, Eq, Structural)]
pub enum DecodeError {
    /// `score` is not an integer.
    Score,
    /// `by` is not a string.
    Author,
    /// `descendants` is not an integer.
    Descendants,
    /// `title` is not a string.
    Title,
    /// `url` is not a string.
    Link,
    /// `text` is not a string.
    Text,
    /// `kids` is not an array of integers.
    Kids,
}

/// The value of a text slot, `default` where the key is absent, nothing
/// where the slot is malformed.
pub open spec fn text_or(f: Field<Seq<char>>, default: Seq<char>) -> Option<Seq<char>> {
    match f {
        Field::Absent => Some(default),
        Field::Present(s) => Some(s),
        Field::Malformed => None,
    }
}

/// The value of an integer slot, `default` where the key is absent,
/// nothing where the slot is malformed.
pub open spec fn int_or(f: Field<i64>, default: i64) -> Option<i64> {
    match f {
        Field::Absent => Some(default),
        Field::Present(n) => Some(n),
        Field::Malformed => None,
    }
}

/// Reads a text slot, falling back to `default` where the key is absent.
pub fn read_text(f: &Field<String>, default: &str) -> (r: Option<String>)
    ensures
        r is Some <==> text_or(text_view(*f), default@) is Some,
        r matches Some(s) ==> text_or(text_view(*f), default@) == Some(s@),
{
    match f {
        Field::Absent => Some(String::from_str(default)),
        Field::Present(s) => Some(s.clone()),
        Field::Malformed => None,
    }
}

/// Reads an integer slot, falling back to `default` where the key is
/// absent.
pub fn read_int(f: &Field<i64>, default: i64) -> (r: Option<i64>)
    ensures
        r == int_or(*f, default),
{
    match f {
        Field::Absent => Some(default),
        Field::Present(n) => Some(*n),
        Field::Malformed => None,
    }
}

/// One fetched record: every key the reader consumes, as a typed slot.
#[derive(Debug, PartialEq, Eq)]
pub struct ItemRecord {
    /// `type`
    pub kind: Field<String>,
    /// `title`
    pub title: Field<String>,
    /// `score`
    pub score: Field<i64>,
    /// `by`
    pub author: Field<String>,
    /// `descendants`
    pub descendants: Field<i64>,
    /// `url`
    pub url: Field<String>,
    /// `text`
    pub text: Field<String>,
    /// `kids`
    pub kids: Field<Vec<i64>>,
}

/// Mathematical value of an `ItemRecord`.
pub ghost struct RecordView {
    pub kind: Field<Seq<char>>,
    pub title: Field<Seq<char>>,
    pub score: Field<i64>,
    pub author: Field<Seq<char>>,
    pub descendants: Field<i64>,
    pub url: Field<Seq<char>>,
    pub text: Field<Seq<char>>,
    pub kids: Field<Seq<i64>>,
}

impl View for ItemRecord {
    type V = RecordView;

    open spec fn view(&self) -> RecordView {
        RecordView {
            kind: text_view(self.kind),
            title: text_view(self.title),
            score: self.score,
            author: text_view(self.author),
            descendants: self.descendants,
            url: text_view(self.url),
            text: text_view(self.text),
            kids: ids_view(self.kids),
        }
    }
}

/// The record with no key at all, as a failed fetch leaves it.
pub open spec fn empty_record() -> RecordView {
    RecordView {
        kind: Field::Absent,
        title: Field::Absent,
        score: Field::Absent,
        author: Field::Absent,
        descendants: Field::Absent,
        url: Field::Absent,
        text: Field::Absent,
        kids: Field::Absent,
    }
}

impl ItemRecord {
    /// A record with no key at all.
    pub fn empty() -> (r: ItemRecord)
        ensures
            r@ == empty_record(),
    {
        ItemRecord {
            kind: Field::Absent,
            title: Field::Absent,
            score: Field::Absent,
            author: Field::Absent,
            descendants: Field::Absent,
            url: Field::Absent,
            text: Field::Absent,
            kids: Field::Absent,
        }
    }
}

} // verus!
