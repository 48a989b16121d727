//! The content schema: one record shape shared by projects, articles and
//! contacts, and the container the remote document decodes into.

use vstd::prelude::*;

verus! {

/// One content record.  Which optional fields are filled follows from the
/// section the record sits in, by convention.
#[derive(Debug, PartialEq, Eq)]
pub struct Entry {
    pub name: String,
    pub description: String,
    pub link: String,
    pub theme: Option<String>,
    pub date: Option<String>,
    pub stack: Option<String>,
    pub status: Option<String>,
}

/// Mathematical model of an [`Entry`].
#[verifier::ext_equal]
pub ghost struct EntryV {
    pub name: Seq<char>,
    pub description: Seq<char>,
    pub link: Seq<char>,
    pub theme: Option<Seq<char>>,
    pub date: Option<Seq<char>>,
    pub stack: Option<Seq<char>>,
    pub status: Option<Seq<char>>,
}

/// The view of an optional string field.
pub open spec fn opt_str_view(o: Option<String>) -> Option<Seq<char>> {
    match o {
        Some(s) => Some(s@),
        None => None,
    }
}

impl View for Entry {
    type V = EntryV;

    open spec fn view(&self) -> EntryV {
        EntryV {
            name: self.name@,
            description: self.description@,
            link: self.link@,
            theme: opt_str_view(self.theme),
            date: opt_str_view(self.date),
            stack: opt_str_view(self.stack),
            status: opt_str_view(self.status),
        }
    }
}

/// The records of one section, record by record.
pub open spec fn entries_view(x: Seq<Entry>) -> Seq<EntryV> {
    Seq::new(x.len(), |i: int| x[i]@)
}

/// The remote content document: three ordered sections.  Insertion order is
/// display order.
#[derive(Debug, PartialEq, Eq)]
pub struct DataSchema {
    pub projects: Vec<Entry>,
    pub articles: Vec<Entry>,
    pub contacts: Vec<Entry>,
}

/// Mathematical model of a [`DataSchema`].
#[verifier::ext_equal]
pub ghost struct DataSchemaV {
    pub projects: Seq<EntryV>,
    pub articles: Seq<EntryV>,
    pub contacts: Seq<EntryV>,
}

impl View for DataSchema {
    type V = DataSchemaV;

    open spec fn view(&self) -> DataSchemaV {
        DataSchemaV {
            projects: entries_view(self.projects@),
            articles: entries_view(self.articles@),
            contacts: entries_view(self.contacts@),
        }
    }
}

impl DataSchema {
    /// A document with three empty sections.
    pub fn empty() -> (r: DataSchema)
        ensures
            r@.projects.len() == 0,
            r@.articles.len() == 0,
            r@.contacts.len() == 0,
    {
        DataSchema { projects: Vec::new(), articles: Vec::new(), contacts: Vec::new() }
    }
}

impl Default for DataSchema {
    /// The default document is the empty one.
    fn default() -> (r: DataSchema)
        ensures
            r@.projects.len() == 0,
            r@.articles.len() == 0,
            r@.contacts.len() == 0,
    {
        DataSchema::empty()
    }
}

/// A copy of an optional string field.
pub fn clone_opt_string(o: &Option<String>) -> (r: Option<String>)
    ensures
        opt_str_view(r) == opt_str_view(*o),
{
    match o {
        Some(s) => Some(s.clone()),
        None => None,
    }
}

impl Clone for Entry {
    /// A clone holds the same record.
    fn clone(&self) -> (r: Self)
        ensures
            r@ == self@,
    {
        Entry {
            name: self.name.clone(),
            description: self.description.clone(),
            link: self.link.clone(),
            theme: clone_opt_string(&self.theme),
            date: clone_opt_string(&self.date),
            stack: clone_opt_string(&self.stack),
            status: clone_opt_string(&self.status),
        }
    }
}

/// A copy of one section, record by record.
pub fn clone_entries(es: &Vec<Entry>) -> (r: Vec<Entry>)
    ensures
        entries_view(r@) == entries_view(es@),
{
    let mut out: Vec<Entry> = Vec::new();
    let mut i: usize = 0;
    while i < es.len()
        invariant
            i <= es@.len(),
            out@.len() == i,
            forall|p: int| 0 <= p < i ==> out@[p]@ == #[trigger] es@[p]@,
        decreases es@.len() - i,
    {
        out.push(es[i].clone());
        i = i + 1;
    }
    proof {
        assert(entries_view(out@) =~= entries_view(es@));
    }
    out
}

impl Clone for DataSchema {
    /// A clone holds the same document.
    fn clone(&self) -> (r: Self)
        ensures
            r@ == self@,
    {
        let r = DataSchema {
            projects: clone_entries(&self.projects),
            articles: clone_entries(&self.articles),
            contacts: clone_entries(&self.contacts),
        };
        proof {
            assert(r@ =~= self@);
        }
        r
    }
}

} // verus!
