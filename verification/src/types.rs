//! The note record and the values that its mappings hold.

use vstd::prelude::*;

use crate::fields::{entries, fields_clone, fields_new, Entries, Fields};

verus! {

/// A point in time with second precision: seconds since the Unix epoch,
/// and the offset from UTC, in seconds, under which it is written.
#[derive(Clone, Copy, Debug, PartialEq, Eq, Structural)]
pub struct DateTime {
    pub timestamp: i64,
    pub offset: i32,
}

/// A value of a note's metadata or reference mapping.
///
/// `Float` holds the IEEE 754 bit pattern of a double-precision number.
#[derive(Debug)]
pub enum YamlValue {
    Null,
    Bool(bool),
    Int(i64),
    Float(u64),
    String(String),
    List(Vec<YamlValue>),
    DateTime(DateTime),
}

/// The mathematical value that a `YamlValue` stands for.
pub enum ValueView {
    Null,
    Bool(bool),
    Int(i64),
    Float(u64),
    Str(Seq<char>),
    List(Seq<ValueView>),
    DateTime(DateTime),
}

impl View for YamlValue {
    type V = ValueView;

    open spec fn view(&self) -> ValueView
        decreases self,
    {
        match self {
            YamlValue::Null => ValueView::Null,
            YamlValue::Bool(b) => ValueView::Bool(*b),
            YamlValue::Int(i) => ValueView::Int(*i),
            YamlValue::Float(bits) => ValueView::Float(*bits),
            YamlValue::String(s) => ValueView::Str(s@),
            YamlValue::List(items) => ValueView::List(list_view(items@)),
            YamlValue::DateTime(dt) => ValueView::DateTime(*dt),
        }
    }
}

impl Clone for YamlValue {
    fn clone(&self) -> (r: Self)
        ensures
            r@ == self@,
        decreases self,
    {
        match self {
            YamlValue::Null => YamlValue::Null,
            YamlValue::Bool(b) => YamlValue::Bool(*b),
            YamlValue::Int(i) => YamlValue::Int(*i),
            YamlValue::Float(bits) => YamlValue::Float(*bits),
            YamlValue::String(s) => YamlValue::String(s.clone()),
            YamlValue::List(items) => {
                let mut out: Vec<YamlValue> = Vec::new();
                let mut i: usize = 0;
                while i < items.len()
                    invariant
                        i <= items.len(),
                        out.len() == i,
                        self matches YamlValue::List(v) && v == items,
                        forall|j: int| 0 <= j < i ==> out[j]@ == items[j]@,
                    decreases items.len() - i,
                {
                    out.push(items[i].clone());
                    i += 1;
                }
                assert(list_view(out@) =~= list_view(items@));
                YamlValue::List(out)
            },
            YamlValue::DateTime(dt) => YamlValue::DateTime(*dt),
        }
    }
}

impl YamlValue {
    /// The text of a `String` value.
    pub fn as_str(&self) -> (r: Option<&str>)
        ensures
            match r {
                Some(s) => self@ == ValueView::Str(s@),
                None => !(self@ is Str),
            },
    {
        match self {
            YamlValue::String(s) => Some(s.as_str()),
            _ => None,
        }
    }

    /// The flag of a `Bool` value.
    pub fn as_bool(&self) -> (r: Option<bool>)
        ensures
            match r {
                Some(b) => self@ == ValueView::Bool(b),
                None => !(self@ is Bool),
            },
    {
        match self {
            YamlValue::Bool(b) => Some(*b),
            _ => None,
        }
    }

    /// The number of an `Int` value.
    pub fn as_int(&self) -> (r: Option<i64>)
        ensures
            match r {
                Some(i) => self@ == ValueView::Int(i),
                None => !(self@ is Int),
            },
    {
        match self {
            YamlValue::Int(i) => Some(*i),
            _ => None,
        }
    }

    /// The items of a `List` value, to be changed in place.
    pub fn as_list_mut(&mut self) -> (r: Option<&mut Vec<YamlValue>>)
        ensures
            match r {
                Some(items) => old(self)@ == ValueView::List(list_view(items@)) && final(self)@
                    == ValueView::List(list_view(final(items)@)),
                None => !(old(self)@ is List) && final(self)@ == old(self)@,
            },
    {
        match self {
            YamlValue::List(items) => Some(items),
            _ => None,
        }
    }

    /// The items of a `List` value.
    pub fn as_list(&self) -> (r: Option<&Vec<YamlValue>>)
        ensures
            match r {
                Some(items) => self@ == ValueView::List(list_view(items@)),
                None => !(self@ is List),
            },
    {
        match self {
            YamlValue::List(items) => Some(items),
            _ => None,
        }
    }
}

/// The values that a sequence of `YamlValue`s stands for, item by item.
pub open spec fn list_view(items: Seq<YamlValue>) -> Seq<ValueView>
    decreases items,
{
    Seq::new(
        items.len(),
        |i: int|
            if 0 <= i < items.len() {
                items[i]@
            } else {
                ValueView::Null
            },
    )
}

/// A parsed note: its metadata and reference mappings, the sections of its
/// body as `(heading, body)` pairs, and the path it was read from.
#[derive(Debug)]
pub struct ZettelData {
    pub metadata: Fields,
    pub reference: Fields,
    pub sections: Vec<(String, String)>,
    pub file_path: Option<String>,
}

/// What a note holds, as mathematical values.
pub struct NoteView {
    pub metadata: Entries,
    pub reference: Entries,
    pub sections: Seq<(Seq<char>, Seq<char>)>,
    pub file_path: Option<Seq<char>>,
}

/// The sections of a note, each as a pair of character sequences.
pub open spec fn sections_view(sections: Seq<(String, String)>) -> Seq<(Seq<char>, Seq<char>)> {
    Seq::new(sections.len(), |i: int| (sections[i].0@, sections[i].1@))
}

impl View for ZettelData {
    type V = NoteView;

    open spec fn view(&self) -> NoteView {
        NoteView {
            metadata: entries(self.metadata),
            reference: entries(self.reference),
            sections: sections_view(self.sections@),
            file_path: match self.file_path {
                Some(p) => Some(p@),
                None => None,
            },
        }
    }
}

impl Clone for ZettelData {
    fn clone(&self) -> (r: Self)
        ensures
            r@ == self@,
    {
        let mut sections: Vec<(String, String)> = Vec::new();
        let mut i: usize = 0;
        while i < self.sections.len()
            invariant
                i <= self.sections.len(),
                sections.len() == i,
                forall|j: int|
                    0 <= j < i ==> (#[trigger] sections[j]).0@ == self.sections[j].0@
                        && sections[j].1@ == self.sections[j].1@,
            decreases self.sections.len() - i,
        {
            sections.push((self.sections[i].0.clone(), self.sections[i].1.clone()));
            i += 1;
        }
        assert(sections_view(sections@) =~= sections_view(self.sections@));
        ZettelData {
            metadata: fields_clone(&self.metadata),
            reference: fields_clone(&self.reference),
            sections,
            file_path: match &self.file_path {
                Some(p) => Some(p.clone()),
                None => None,
            },
        }
    }
}

impl ZettelData {
    /// A note with nothing in it.
    pub fn new() -> (r: ZettelData)
        ensures
            r@ == (NoteView {
                metadata: Seq::empty(),
                reference: Seq::empty(),
                sections: Seq::empty(),
                file_path: None,
            }),
    {
        let r = ZettelData {
            metadata: fields_new(),
            reference: fields_new(),
            sections: Vec::new(),
            file_path: None,
        };
        assert(sections_view(r.sections@) =~= Seq::empty());
        r
    }
}

} // verus!
