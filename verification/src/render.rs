//! The list renderer: an ordered sequence of records or projects becomes an
//! ordered sequence of flat row descriptors — display strings, icon
//! identifiers and hrefs.  Order is kept; nothing is sorted, filtered or
//! deduplicated, and an empty section renders zero rows.

use vstd::prelude::*;
use crate::content::{Entry, EntryV, clone_opt_string, opt_str_view};
use crate::presentation::{ContactTag, spec_contact_icon, spec_contact_label, spec_contact_tag_of};
use crate::project::{
    Project, ProjectLink, ProjectV, spec_lang_label, spec_lang_style, spec_link_icon,
    spec_link_label, spec_link_url, spec_stack_label, spec_status_label, spec_status_style,
};

verus! {

// ---------------------------------------------------------------------------
// Rows for the generic record lists
// ---------------------------------------------------------------------------
/// One list item: a titled link with its description and optional theme.
#[derive(Clone, Debug, PartialEq, Eq)]
pub struct EntryRow {
    pub name: String,
    pub description: String,
    pub href: String,
    pub theme: Option<String>,
}

/// Mathematical model of an [`EntryRow`].
#[verifier::ext_equal]
pub ghost struct EntryRowV {
    pub name: Seq<char>,
    pub description: Seq<char>,
    pub href: Seq<char>,
    pub theme: Option<Seq<char>>,
}

impl View for EntryRow {
    type V = EntryRowV;

    open spec fn view(&self) -> EntryRowV {
        EntryRowV {
            name: self.name@,
            description: self.description@,
            href: self.href@,
            theme: opt_str_view(self.theme),
        }
    }
}

/// The row a record renders to.
pub open spec fn spec_entry_row(e: EntryV) -> EntryRowV {
    EntryRowV { name: e.name, description: e.description, href: e.link, theme: e.theme }
}

/// Render one record.
pub fn render_entry(e: &Entry) -> (r: EntryRow)
    ensures
        r@ == spec_entry_row(e@),
{
    EntryRow {
        name: e.name.clone(),
        description: e.description.clone(),
        href: e.link.clone(),
        theme: clone_opt_string(&e.theme),
    }
}

/// Render one section: as many rows as records, in the same order.
pub fn render_entries(es: &Vec<Entry>) -> (r: Vec<EntryRow>)
    ensures
        r@.len() == es@.len(),
        forall|i: int| 0 <= i < es@.len() ==> r@[i]@ == spec_entry_row(#[trigger] es@[i]@),
{
    let mut out: Vec<EntryRow> = Vec::new();
    let mut i: usize = 0;
    while i < es.len()
        invariant
            i <= es@.len(),
            out@.len() == i,
            forall|p: int| 0 <= p < i ==> out@[p]@ == spec_entry_row(#[trigger] es@[p]@),
        decreases es@.len() - i,
    {
        out.push(render_entry(&es[i]));
        i = i + 1;
    }
    out
}

// ---------------------------------------------------------------------------
// Rows for the contact strip
// ---------------------------------------------------------------------------
/// One contact: the icon of its kind and where it links.
#[derive(Clone, Debug, PartialEq, Eq)]
pub struct ContactRow {
    pub icon_id: String,
    pub label: String,
    pub href: String,
}

/// Mathematical model of a [`ContactRow`].
#[verifier::ext_equal]
pub ghost struct ContactRowV {
    pub icon_id: Seq<char>,
    pub label: Seq<char>,
    pub href: Seq<char>,
}

impl View for ContactRow {
    type V = ContactRowV;

    open spec fn view(&self) -> ContactRowV {
        ContactRowV { icon_id: self.icon_id@, label: self.label@, href: self.href@ }
    }
}

/// The row a contact record renders to: its name picks the kind once, at
/// this boundary.
pub open spec fn spec_contact_row(e: EntryV) -> ContactRowV {
    ContactRowV {
        icon_id: spec_contact_icon(spec_contact_tag_of(e.name)),
        label: spec_contact_label(spec_contact_tag_of(e.name)),
        href: e.link,
    }
}

/// Render one contact.
pub fn render_contact(e: &Entry) -> (r: ContactRow)
    ensures
        r@ == spec_contact_row(e@),
{
    let tag = ContactTag::from_name(e.name.as_str());
    ContactRow {
        icon_id: tag.icon_id().to_owned(),
        label: tag.label().to_owned(),
        href: e.link.clone(),
    }
}

/// Render the contact strip: as many rows as records, in the same order.
pub fn render_contacts(es: &Vec<Entry>) -> (r: Vec<ContactRow>)
    ensures
        r@.len() == es@.len(),
        forall|i: int| 0 <= i < es@.len() ==> r@[i]@ == spec_contact_row(#[trigger] es@[i]@),
{
    let mut out: Vec<ContactRow> = Vec::new();
    let mut i: usize = 0;
    while i < es.len()
        invariant
            i <= es@.len(),
            out@.len() == i,
            forall|p: int| 0 <= p < i ==> out@[p]@ == spec_contact_row(#[trigger] es@[p]@),
        decreases es@.len() - i,
    {
        out.push(render_contact(&es[i]));
        i = i + 1;
    }
    out
}

// ---------------------------------------------------------------------------
// Rows for the project table
// ---------------------------------------------------------------------------
/// One link cell of a project row.
#[derive(Clone, Debug, PartialEq, Eq)]
pub struct LinkCell {
    pub label: String,
    pub icon_id: String,
    pub href: String,
}

/// Mathematical model of a [`LinkCell`].
#[verifier::ext_equal]
pub ghost struct LinkCellV {
    pub label: Seq<char>,
    pub icon_id: Seq<char>,
    pub href: Seq<char>,
}

impl View for LinkCell {
    type V = LinkCellV;

    open spec fn view(&self) -> LinkCellV {
        LinkCellV { label: self.label@, icon_id: self.icon_id@, href: self.href@ }
    }
}

/// The cell a project link renders to: its kind's label and icon, and the
/// exact URL it carries.
pub open spec fn spec_link_cell(l: ProjectLink) -> LinkCellV {
    LinkCellV { label: spec_link_label(l), icon_id: spec_link_icon(l), href: spec_link_url(l) }
}

/// Render one project link.
pub fn render_link(l: &ProjectLink) -> (r: LinkCell)
    ensures
        r@ == spec_link_cell(*l),
{
    LinkCell { label: l.label().to_owned(), icon_id: l.icon_id().to_owned(), href: l.url().clone() }
}

/// One table row of the project list.
#[derive(Clone, Debug, PartialEq, Eq)]
pub struct ProjectRow {
    pub status_label: String,
    pub status_style: String,
    pub date: String,
    pub name: String,
    pub description: String,
    pub lang_label: String,
    pub lang_style: String,
    pub stack_labels: Vec<String>,
    pub links: Vec<LinkCell>,
}

/// Mathematical model of a [`ProjectRow`].
#[verifier::ext_equal]
pub ghost struct ProjectRowV {
    pub status_label: Seq<char>,
    pub status_style: Seq<char>,
    pub date: Seq<char>,
    pub name: Seq<char>,
    pub description: Seq<char>,
    pub lang_label: Seq<char>,
    pub lang_style: Seq<char>,
    pub stack_labels: Seq<Seq<char>>,
    pub links: Seq<LinkCellV>,
}

/// The labels of a project's stack, element by element.
pub open spec fn strings_view(x: Seq<String>) -> Seq<Seq<char>> {
    Seq::new(x.len(), |i: int| x[i]@)
}

/// The cells of a project's links, cell by cell.
pub open spec fn link_cells_view(x: Seq<LinkCell>) -> Seq<LinkCellV> {
    Seq::new(x.len(), |i: int| x[i]@)
}

impl View for ProjectRow {
    type V = ProjectRowV;

    open spec fn view(&self) -> ProjectRowV {
        ProjectRowV {
            status_label: self.status_label@,
            status_style: self.status_style@,
            date: self.date@,
            name: self.name@,
            description: self.description@,
            lang_label: self.lang_label@,
            lang_style: self.lang_style@,
            stack_labels: strings_view(self.stack_labels@),
            links: link_cells_view(self.links@),
        }
    }
}

/// The row a project renders to.
pub open spec fn spec_project_row(p: ProjectV) -> ProjectRowV {
    ProjectRowV {
        status_label: spec_status_label(p.status),
        status_style: spec_status_style(p.status),
        date: p.date,
        name: p.name,
        description: p.description,
        lang_label: spec_lang_label(p.lang),
        lang_style: spec_lang_style(p.lang),
        stack_labels: Seq::new(p.stack.len(), |i: int| spec_stack_label(p.stack[i])),
        links: Seq::new(p.links.len(), |i: int| spec_link_cell(p.links[i])),
    }
}

/// Render one project into a flat row.
pub fn render_project(p: &Project) -> (r: ProjectRow)
    ensures
        r@ == spec_project_row(p@),
{
    let mut stack_labels: Vec<String> = Vec::new();
    let mut i: usize = 0;
    while i < p.stack.len()
        invariant
            i <= p.stack@.len(),
            stack_labels@.len() == i,
            forall|q: int| 0 <= q < i ==> stack_labels@[q]@ == spec_stack_label(
                #[trigger] p.stack@[q],
            ),
        decreases p.stack@.len() - i,
    {
        stack_labels.push(p.stack[i].label().to_owned());
        i = i + 1;
    }
    let mut links: Vec<LinkCell> = Vec::new();
    let mut k: usize = 0;
    while k < p.links.len()
        invariant
            k <= p.links@.len(),
            links@.len() == k,
            forall|q: int| 0 <= q < k ==> links@[q]@ == spec_link_cell(#[trigger] p.links@[q]),
        decreases p.links@.len() - k,
    {
        links.push(render_link(&p.links[k]));
        k = k + 1;
    }
    let r = ProjectRow {
        status_label: p.status.label().to_owned(),
        status_style: p.status.style_class().to_owned(),
        date: p.date.clone(),
        name: p.name.clone(),
        description: p.description.clone(),
        lang_label: p.lang.label().to_owned(),
        lang_style: p.lang.style_class().to_owned(),
        stack_labels,
        links,
    };
    proof {
        assert(r@.stack_labels =~= spec_project_row(p@).stack_labels);
        assert(r@.links =~= spec_project_row(p@).links);
        assert(r@ =~= spec_project_row(p@));
    }
    r
}

/// Render the project table: as many rows as projects, in the same order.
pub fn render_projects(ps: &Vec<Project>) -> (r: Vec<ProjectRow>)
    ensures
        r@.len() == ps@.len(),
        forall|i: int| 0 <= i < ps@.len() ==> r@[i]@ == spec_project_row(#[trigger] ps@[i]@),
{
    let mut out: Vec<ProjectRow> = Vec::new();
    let mut i: usize = 0;
    while i < ps.len()
        invariant
            i <= ps@.len(),
            out@.len() == i,
            forall|p: int| 0 <= p < i ==> out@[p]@ == spec_project_row(#[trigger] ps@[p]@),
        decreases ps@.len() - i,
    {
        out.push(render_project(&ps[i]));
        i = i + 1;
    }
    out
}

} // verus!
