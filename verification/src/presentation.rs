//! Tag-to-presentation mapping for contacts and articles.  Contact kinds are
//! decoded from the record name once, at the boundary; nothing downstream
//! matches free-form strings.  Unknown names map to the generic fallback.

use vstd::prelude::*;
use crate::json::str_eq;

verus! {

/// The kind of a contact record.
#[derive(Clone, Copy, Debug, PartialEq, Eq, Structural)]
pub enum ContactTag {
    Email,
    GitHub,
    Telegram,
    Twitter,
    Discord,
    /// The fallback for any name outside the known set.
    Other,
}

/// The contact kind a record name stands for; any other name is `Other`.
pub open spec fn spec_contact_tag_of(name: Seq<char>) -> ContactTag {
    if name == "email"@ {
        ContactTag::Email
    } else if name == "github"@ {
        ContactTag::GitHub
    } else if name == "telegram"@ {
        ContactTag::Telegram
    } else if name == "twitter"@ {
        ContactTag::Twitter
    } else if name == "discord"@ {
        ContactTag::Discord
    } else {
        ContactTag::Other
    }
}

pub open spec fn spec_contact_label(t: ContactTag) -> Seq<char> {
    match t {
        ContactTag::Email => "Email"@,
        ContactTag::GitHub => "GitHub"@,
        ContactTag::Telegram => "Telegram"@,
        ContactTag::Twitter => "Twitter"@,
        ContactTag::Discord => "Discord"@,
        ContactTag::Other => "Other"@,
    }
}

pub open spec fn spec_contact_icon(t: ContactTag) -> Seq<char> {
    match t {
        ContactTag::Email => "envelope-fill"@,
        ContactTag::GitHub => "github"@,
        ContactTag::Telegram => "telegram"@,
        ContactTag::Twitter => "twitter"@,
        ContactTag::Discord => "discord"@,
        ContactTag::Other => "link-45deg"@,
    }
}

impl ContactTag {
    /// Decode a record name into a contact kind; never fails.
    pub fn from_name(name: &str) -> (t: ContactTag)
        ensures
            t == spec_contact_tag_of(name@),
    {
        if str_eq(name, "email") {
            ContactTag::Email
        } else if str_eq(name, "github") {
            ContactTag::GitHub
        } else if str_eq(name, "telegram") {
            ContactTag::Telegram
        } else if str_eq(name, "twitter") {
            ContactTag::Twitter
        } else if str_eq(name, "discord") {
            ContactTag::Discord
        } else {
            ContactTag::Other
        }
    }

    /// The display label of the contact kind.
    pub fn label(&self) -> (r: &'static str)
        ensures
            r@ == spec_contact_label(*self),
    {
        match self {
            ContactTag::Email => "Email",
            ContactTag::GitHub => "GitHub",
            ContactTag::Telegram => "Telegram",
            ContactTag::Twitter => "Twitter",
            ContactTag::Discord => "Discord",
            ContactTag::Other => "Other",
        }
    }

    /// The icon the contact is shown with.
    pub fn icon_id(&self) -> (r: &'static str)
        ensures
            r@ == spec_contact_icon(*self),
    {
        match self {
            ContactTag::Email => "envelope-fill",
            ContactTag::GitHub => "github",
            ContactTag::Telegram => "telegram",
            ContactTag::Twitter => "twitter",
            ContactTag::Discord => "discord",
            ContactTag::Other => "link-45deg",
        }
    }
}

/// The theme of an article.
#[derive(Clone, Copy, Debug, PartialEq, Eq, Structural)]
pub enum ArticleTag {
    Engineering,
    GameDesign,
    Tutorial,
    Research,
    Quantum,
    Notes,
}

pub open spec fn spec_article_label(t: ArticleTag) -> Seq<char> {
    match t {
        ArticleTag::Engineering => "Engineering"@,
        ArticleTag::GameDesign => "Game Design"@,
        ArticleTag::Tutorial => "Tutorial"@,
        ArticleTag::Research => "Research"@,
        ArticleTag::Quantum => "Quantum"@,
        ArticleTag::Notes => "Notes"@,
    }
}

pub open spec fn spec_article_icon(t: ArticleTag) -> Seq<char> {
    match t {
        ArticleTag::Engineering => "tool"@,
        ArticleTag::GameDesign => "play"@,
        ArticleTag::Tutorial => "book-open"@,
        ArticleTag::Research => "search"@,
        ArticleTag::Quantum => "cpu"@,
        ArticleTag::Notes => "edit"@,
    }
}

impl ArticleTag {
    /// The display label of the article theme.
    pub fn label(&self) -> (r: &'static str)
        ensures
            r@ == spec_article_label(*self),
    {
        match self {
            ArticleTag::Engineering => "Engineering",
            ArticleTag::GameDesign => "Game Design",
            ArticleTag::Tutorial => "Tutorial",
            ArticleTag::Research => "Research",
            ArticleTag::Quantum => "Quantum",
            ArticleTag::Notes => "Notes",
        }
    }

    /// The icon the article theme is shown with.
    pub fn icon_id(&self) -> (r: &'static str)
        ensures
            r@ == spec_article_icon(*self),
    {
        match self {
            ArticleTag::Engineering => "tool",
            ArticleTag::GameDesign => "play",
            ArticleTag::Tutorial => "book-open",
            ArticleTag::Research => "search",
            ArticleTag::Quantum => "cpu",
            ArticleTag::Notes => "edit",
        }
    }
}

// ---------------------------------------------------------------------------
// The mapping is total
// ---------------------------------------------------------------------------
/// Every tag of every closed tag set maps to a non-empty label and a
/// non-empty icon or style identifier, and every record name outside the
/// known contact set maps to the one fallback kind — the mapping never
/// fails.
pub proof fn lemma_tag_presentation_total()
    ensures
        forall|t: crate::project::LangTag|
            crate::project::spec_lang_label(t).len() > 0 && crate::project::spec_lang_style(
                t,
            ).len() > 0,
        forall|t: crate::project::StatusTag|
            crate::project::spec_status_label(t).len() > 0 && crate::project::spec_status_style(
                t,
            ).len() > 0 && crate::project::spec_status_icon(t).len() > 0,
        forall|t: crate::project::StackTag| crate::project::spec_stack_label(t).len() > 0,
        forall|l: crate::project::ProjectLink|
            crate::project::spec_link_label(l).len() > 0 && crate::project::spec_link_icon(
                l,
            ).len() > 0,
        forall|t: ContactTag| spec_contact_label(t).len() > 0 && spec_contact_icon(t).len() > 0,
        forall|t: ArticleTag| spec_article_label(t).len() > 0 && spec_article_icon(t).len() > 0,
        forall|name: Seq<char>|
            name != "email"@ && name != "github"@ && name != "telegram"@ && name != "twitter"@
                && name != "discord"@ ==> #[trigger] spec_contact_tag_of(name)
                == ContactTag::Other,
{
    reveal_strlit("C");
    reveal_strlit("C#");
    reveal_strlit("C++");
    reveal_strlit("Rust");
    reveal_strlit("Python");
    reveal_strlit("TypeScript");
    reveal_strlit("text-blue-300");
    reveal_strlit("text-blue-200");
    reveal_strlit("text-blue-400");
    reveal_strlit("text-orange-300");
    reveal_strlit("text-yellow-200");
    reveal_strlit("text-sky-300");
    reveal_strlit("Archived");
    reveal_strlit("Complete");
    reveal_strlit("In Development");
    reveal_strlit("text-gray-400");
    reveal_strlit("text-pink-500");
    reveal_strlit("text-red-400");
    reveal_strlit("archive");
    reveal_strlit("check-circle");
    reveal_strlit("tool");
    reveal_strlit("Quantum");
    reveal_strlit("Dioxus");
    reveal_strlit("Unity");
    reveal_strlit("Core");
    reveal_strlit("Bevy");
    reveal_strlit("WASM");
    reveal_strlit("Yew");
    reveal_strlit("Use");
    reveal_strlit("Read");
    reveal_strlit("Steam");
    reveal_strlit("GitHub");
    reveal_strlit("GitLab");
    reveal_strlit("Site");
    reveal_strlit("Mirror");
    reveal_strlit("Download");
    reveal_strlit("AppStore");
    reveal_strlit("Crates.io");
    reveal_strlit("Google Play");
    reveal_strlit("arrow-up-right");
    reveal_strlit("book-open");
    reveal_strlit("external-link");
    reveal_strlit("github");
    reveal_strlit("gitlab");
    reveal_strlit("globe");
    reveal_strlit("download");
    reveal_strlit("command");
    reveal_strlit("package");
    reveal_strlit("play");
    reveal_strlit("Email");
    reveal_strlit("Telegram");
    reveal_strlit("Twitter");
    reveal_strlit("Discord");
    reveal_strlit("Other");
    reveal_strlit("envelope-fill");
    reveal_strlit("telegram");
    reveal_strlit("twitter");
    reveal_strlit("discord");
    reveal_strlit("link-45deg");
    reveal_strlit("Engineering");
    reveal_strlit("Game Design");
    reveal_strlit("Tutorial");
    reveal_strlit("Research");
    reveal_strlit("Notes");
    reveal_strlit("search");
    reveal_strlit("cpu");
    reveal_strlit("edit");
}

// ---------------------------------------------------------------------------
// The header tagline
// ---------------------------------------------------------------------------
/// The tagline shown for a draw: one of the three header texts.
pub open spec fn spec_tagline(i: int) -> Seq<char> {
    if i == 0 {
        "simply makes things"@
    } else if i == 1 {
        "makes simple things"@
    } else {
        "makes things simple"@
    }
}

/// The tagline for a draw below three.
pub fn tagline(draw: u32) -> (r: &'static str)
    requires
        draw < 3,
    ensures
        r@ == spec_tagline(draw as int),
{
    if draw == 0 {
        "simply makes things"
    } else if draw == 1 {
        "makes simple things"
    } else {
        "makes things simple"
    }
}

/// A tagline picked at random: always one of the three.
pub fn random_tagline() -> (r: &'static str)
    ensures
        exists|i: int| 0 <= i < 3 && r@ == spec_tagline(i),
{
    let draw = crate::avatar::draw_below(3);
    let r = tagline(draw);
    proof {
        assert(0 <= (draw as int) && (draw as int) < 3 && r@ == spec_tagline(draw as int));
    }
    r
}

} // verus!
