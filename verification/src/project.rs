//! The typed project model: a project row with closed tag sets for status,
//! language and stack, and a tagged link kind.  Each tag maps to a display
//! label, an icon identifier and a style class; the sets are closed, so the
//! mapping is total.

use vstd::prelude::*;

verus! {

/// One project: what it is, where it stands, what it is built with, and
/// where it lives.
pub struct Project {
    pub name: String,
    pub description: String,
    pub date: String,
    pub status: StatusTag,
    pub lang: LangTag,
    pub stack: Vec<StackTag>,
    pub links: Vec<ProjectLink>,
}

/// Mathematical model of a [`Project`].
#[verifier::ext_equal]
pub ghost struct ProjectV {
    pub name: Seq<char>,
    pub description: Seq<char>,
    pub date: Seq<char>,
    pub status: StatusTag,
    pub lang: LangTag,
    pub stack: Seq<StackTag>,
    pub links: Seq<ProjectLink>,
}

impl View for Project {
    type V = ProjectV;

    open spec fn view(&self) -> ProjectV {
        ProjectV {
            name: self.name@,
            description: self.description@,
            date: self.date@,
            status: self.status,
            lang: self.lang,
            stack: self.stack@,
            links: self.links@,
        }
    }
}

/// The language a project is written in.
#[derive(Clone, Copy, Debug, PartialEq, Eq, Structural)]
pub enum LangTag {
    C,
    Cs,
    Cpp,
    Rust,
    Python,
    TypeScript,
}

pub open spec fn spec_lang_label(t: LangTag) -> Seq<char> {
    match t {
        LangTag::C => "C"@,
        LangTag::Cs => "C#"@,
        LangTag::Cpp => "C++"@,
        LangTag::Rust => "Rust"@,
        LangTag::Python => "Python"@,
        LangTag::TypeScript => "TypeScript"@,
    }
}

pub open spec fn spec_lang_style(t: LangTag) -> Seq<char> {
    match t {
        LangTag::C => "text-blue-300"@,
        LangTag::Cs => "text-blue-200"@,
        LangTag::Cpp => "text-blue-400"@,
        LangTag::Rust => "text-orange-300"@,
        LangTag::Python => "text-yellow-200"@,
        LangTag::TypeScript => "text-sky-300"@,
    }
}

impl LangTag {
    /// The display label of the language.
    pub fn label(&self) -> (r: &'static str)
        ensures
            r@ == spec_lang_label(*self),
    {
        match self {
            LangTag::C => "C",
            LangTag::Cs => "C#",
            LangTag::Cpp => "C++",
            LangTag::Rust => "Rust",
            LangTag::Python => "Python",
            LangTag::TypeScript => "TypeScript",
        }
    }

    /// The style class the label is shown with.
    pub fn style_class(&self) -> (r: &'static str)
        ensures
            r@ == spec_lang_style(*self),
    {
        match self {
            LangTag::C => "text-blue-300",
            LangTag::Cs => "text-blue-200",
            LangTag::Cpp => "text-blue-400",
            LangTag::Rust => "text-orange-300",
            LangTag::Python => "text-yellow-200",
            LangTag::TypeScript => "text-sky-300",
        }
    }

    /// The icon shown next to a language.
    pub fn icon_id(&self) -> (r: &'static str)
        ensures
            r@ == "code"@,
    {
        "code"
    }
}

/// Where a project stands.
#[derive(Clone, Copy, Debug, PartialEq, Eq, Structural)]
pub enum StatusTag {
    Archived,
    Complete,
    Working,
}

pub open spec fn spec_status_label(t: StatusTag) -> Seq<char> {
    match t {
        StatusTag::Archived => "Archived"@,
        StatusTag::Complete => "Complete"@,
        StatusTag::Working => "In Development"@,
    }
}

pub open spec fn spec_status_style(t: StatusTag) -> Seq<char> {
    match t {
        StatusTag::Archived => "text-gray-400"@,
        StatusTag::Complete => "text-pink-500"@,
        StatusTag::Working => "text-red-400"@,
    }
}

pub open spec fn spec_status_icon(t: StatusTag) -> Seq<char> {
    match t {
        StatusTag::Archived => "archive"@,
        StatusTag::Complete => "check-circle"@,
        StatusTag::Working => "tool"@,
    }
}

impl StatusTag {
    /// The display label of the status.
    pub fn label(&self) -> (r: &'static str)
        ensures
            r@ == spec_status_label(*self),
    {
        match self {
            StatusTag::Archived => "Archived",
            StatusTag::Complete => "Complete",
            StatusTag::Working => "In Development",
        }
    }

    /// The style class the label is shown with.
    pub fn style_class(&self) -> (r: &'static str)
        ensures
            r@ == spec_status_style(*self),
    {
        match self {
            StatusTag::Archived => "text-gray-400",
            StatusTag::Complete => "text-pink-500",
            StatusTag::Working => "text-red-400",
        }
    }

    /// The icon shown next to a status.
    pub fn icon_id(&self) -> (r: &'static str)
        ensures
            r@ == spec_status_icon(*self),
    {
        match self {
            StatusTag::Archived => "archive",
            StatusTag::Complete => "check-circle",
            StatusTag::Working => "tool",
        }
    }
}

/// What a project is built with.
#[derive(Clone, Copy, Debug, PartialEq, Eq, Structural)]
pub enum StackTag {
    Quantum,
    Dioxus,
    Unity,
    Core,
    Bevy,
    Wasm,
    Yew,
}

pub open spec fn spec_stack_label(t: StackTag) -> Seq<char> {
    match t {
        StackTag::Quantum => "Quantum"@,
        StackTag::Dioxus => "Dioxus"@,
        StackTag::Unity => "Unity"@,
        StackTag::Core => "Core"@,
        StackTag::Bevy => "Bevy"@,
        StackTag::Wasm => "WASM"@,
        StackTag::Yew => "Yew"@,
    }
}

impl StackTag {
    /// The display label of the stack element.
    pub fn label(&self) -> (r: &'static str)
        ensures
            r@ == spec_stack_label(*self),
    {
        match self {
            StackTag::Quantum => "Quantum",
            StackTag::Dioxus => "Dioxus",
            StackTag::Unity => "Unity",
            StackTag::Core => "Core",
            StackTag::Bevy => "Bevy",
            StackTag::Wasm => "WASM",
            StackTag::Yew => "Yew",
        }
    }

    /// The icon shown next to a stack element.
    pub fn icon_id(&self) -> (r: &'static str)
        ensures
            r@ == "package"@,
    {
        "package"
    }
}

/// Where a project link points, with the one URL it carries.
#[derive(Clone, Debug, PartialEq, Eq)]
pub enum ProjectLink {
    Use(String),
    Read(String),
    Steam(String),
    GitHub(String),
    GitLab(String),
    Website(String),
    Mirror(String),
    Download(String),
    AppStore(String),
    Cratesio(String),
    GooglePlay(String),
}

pub open spec fn spec_link_label(l: ProjectLink) -> Seq<char> {
    match l {
        ProjectLink::Use(_) => "Use"@,
        ProjectLink::Read(_) => "Read"@,
        ProjectLink::Steam(_) => "Steam"@,
        ProjectLink::GitHub(_) => "GitHub"@,
        ProjectLink::GitLab(_) => "GitLab"@,
        ProjectLink::Website(_) => "Site"@,
        ProjectLink::Mirror(_) => "Mirror"@,
        ProjectLink::Download(_) => "Download"@,
        ProjectLink::AppStore(_) => "AppStore"@,
        ProjectLink::Cratesio(_) => "Crates.io"@,
        ProjectLink::GooglePlay(_) => "Google Play"@,
    }
}

pub open spec fn spec_link_icon(l: ProjectLink) -> Seq<char> {
    match l {
        ProjectLink::Use(_) => "arrow-up-right"@,
        ProjectLink::Read(_) => "book-open"@,
        ProjectLink::Steam(_) => "external-link"@,
        ProjectLink::GitHub(_) => "github"@,
        ProjectLink::GitLab(_) => "gitlab"@,
        ProjectLink::Website(_) => "globe"@,
        ProjectLink::Mirror(_) => "external-link"@,
        ProjectLink::Download(_) => "download"@,
        ProjectLink::AppStore(_) => "command"@,
        ProjectLink::Cratesio(_) => "package"@,
        ProjectLink::GooglePlay(_) => "play"@,
    }
}

/// The one URL a link carries.
pub open spec fn spec_link_url(l: ProjectLink) -> Seq<char> {
    match l {
        ProjectLink::Use(u) => u@,
        ProjectLink::Read(u) => u@,
        ProjectLink::Steam(u) => u@,
        ProjectLink::GitHub(u) => u@,
        ProjectLink::GitLab(u) => u@,
        ProjectLink::Website(u) => u@,
        ProjectLink::Mirror(u) => u@,
        ProjectLink::Download(u) => u@,
        ProjectLink::AppStore(u) => u@,
        ProjectLink::Cratesio(u) => u@,
        ProjectLink::GooglePlay(u) => u@,
    }
}

impl ProjectLink {
    /// The display label of the link kind.
    pub fn label(&self) -> (r: &'static str)
        ensures
            r@ == spec_link_label(*self),
    {
        match self {
            ProjectLink::Use(_) => "Use",
            ProjectLink::Read(_) => "Read",
            ProjectLink::Steam(_) => "Steam",
            ProjectLink::GitHub(_) => "GitHub",
            ProjectLink::GitLab(_) => "GitLab",
            ProjectLink::Website(_) => "Site",
            ProjectLink::Mirror(_) => "Mirror",
            ProjectLink::Download(_) => "Download",
            ProjectLink::AppStore(_) => "AppStore",
            ProjectLink::Cratesio(_) => "Crates.io",
            ProjectLink::GooglePlay(_) => "Google Play",
        }
    }

    /// The icon shown next to the link kind.
    pub fn icon_id(&self) -> (r: &'static str)
        ensures
            r@ == spec_link_icon(*self),
    {
        match self {
            ProjectLink::Use(_) => "arrow-up-right",
            ProjectLink::Read(_) => "book-open",
            ProjectLink::Steam(_) => "external-link",
            ProjectLink::GitHub(_) => "github",
            ProjectLink::GitLab(_) => "gitlab",
            ProjectLink::Website(_) => "globe",
            ProjectLink::Mirror(_) => "external-link",
            ProjectLink::Download(_) => "download",
            ProjectLink::AppStore(_) => "command",
            ProjectLink::Cratesio(_) => "package",
            ProjectLink::GooglePlay(_) => "play",
        }
    }

    /// The URL the link carries.
    pub fn url(&self) -> (r: &String)
        ensures
            r@ == spec_link_url(*self),
    {
        match self {
            ProjectLink::Use(u) => u,
            ProjectLink::Read(u) => u,
            ProjectLink::Steam(u) => u,
            ProjectLink::GitHub(u) => u,
            ProjectLink::GitLab(u) => u,
            ProjectLink::Website(u) => u,
            ProjectLink::Mirror(u) => u,
            ProjectLink::Download(u) => u,
            ProjectLink::AppStore(u) => u,
            ProjectLink::Cratesio(u) => u,
            ProjectLink::GooglePlay(u) => u,
        }
    }
}

} // verus!
