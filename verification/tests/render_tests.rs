use portfolio::content::Entry;
use portfolio::presentation::{ArticleTag, ContactTag};
use portfolio::project::{LangTag, Project, ProjectLink, StackTag, StatusTag};
use portfolio::render::{
    render_contacts, render_entries, render_link, render_project, render_projects,
};

fn entry(name: &str, description: &str, link: &str) -> Entry {
    Entry {
        name: name.to_owned(),
        description: description.to_owned(),
        link: link.to_owned(),
        theme: None,
        date: None,
        stack: None,
        status: None,
    }
}

#[test]
fn an_empty_sequence_renders_zero_rows() {
    assert!(render_entries(&vec![]).is_empty());
    assert!(render_contacts(&vec![]).is_empty());
    assert!(render_projects(&vec![]).is_empty());
}

#[test]
fn n_entries_render_to_n_rows_in_order() {
    let mut es = Vec::new();
    for i in 0..17 {
        es.push(entry(&format!("n{}", i), &format!("d{}", i), &format!("l{}", i)));
    }
    let rows = render_entries(&es);
    assert_eq!(rows.len(), 17);
    for i in 0..17 {
        assert_eq!(rows[i].name, format!("n{}", i));
        assert_eq!(rows[i].description, format!("d{}", i));
        assert_eq!(rows[i].href, format!("l{}", i));
    }
}

#[test]
fn the_theme_is_carried_into_the_row() {
    let mut e = entry("n", "d", "l");
    e.theme = Some("retro".to_owned());
    let rows = render_entries(&vec![e]);
    assert_eq!(rows[0].theme.as_deref(), Some("retro"));
}

#[test]
fn a_github_link_renders_its_exact_href_and_label() {
    let link = ProjectLink::GitHub("https://github.com/x".to_owned());
    let cell = render_link(&link);
    assert_eq!(cell.href, "https://github.com/x");
    assert_eq!(cell.label, "GitHub");
    assert_eq!(cell.icon_id, "github");
}

#[test]
fn a_project_renders_to_one_flat_row() {
    let p = Project {
        name: "demo".to_owned(),
        description: "a demo".to_owned(),
        date: "2022".to_owned(),
        status: StatusTag::Working,
        lang: LangTag::Rust,
        stack: vec![StackTag::Wasm, StackTag::Yew],
        links: vec![
            ProjectLink::GitHub("https://github.com/x".to_owned()),
            ProjectLink::Website("https://example.org".to_owned()),
        ],
    };
    let row = render_project(&p);
    assert_eq!(row.name, "demo");
    assert_eq!(row.status_label, "In Development");
    assert_eq!(row.status_style, "text-red-400");
    assert_eq!(row.lang_label, "Rust");
    assert_eq!(row.lang_style, "text-orange-300");
    assert_eq!(row.stack_labels, vec!["WASM".to_owned(), "Yew".to_owned()]);
    assert_eq!(row.links.len(), 2);
    assert_eq!(row.links[1].label, "Site");
    assert_eq!(row.links[1].icon_id, "globe");
    assert_eq!(row.links[1].href, "https://example.org");
}

#[test]
fn contacts_pick_their_icon_from_the_name_once() {
    let rows = render_contacts(&vec![
        entry("github", "", "https://github.com/x"),
        entry("email", "", "mailto:a@b.c"),
        entry("mastodon", "", "https://example.social/@x"),
    ]);
    assert_eq!(rows[0].icon_id, "github");
    assert_eq!(rows[0].label, "GitHub");
    assert_eq!(rows[1].icon_id, "envelope-fill");
    assert_eq!(rows[2].icon_id, "link-45deg");
    assert_eq!(rows[2].label, "Other");
    assert_eq!(rows[2].href, "https://example.social/@x");
}

#[test]
fn unknown_contact_names_fall_back_and_never_fail() {
    assert_eq!(ContactTag::from_name("telegram"), ContactTag::Telegram);
    assert_eq!(ContactTag::from_name("twitter"), ContactTag::Twitter);
    assert_eq!(ContactTag::from_name("discord"), ContactTag::Discord);
    assert_eq!(ContactTag::from_name(""), ContactTag::Other);
    assert_eq!(ContactTag::from_name("GITHUB"), ContactTag::Other);
    assert_eq!(ContactTag::from_name("anything else"), ContactTag::Other);
}

#[test]
fn every_tag_has_a_nonempty_label_and_icon() {
    for t in [
        LangTag::C,
        LangTag::Cs,
        LangTag::Cpp,
        LangTag::Rust,
        LangTag::Python,
        LangTag::TypeScript,
    ] {
        assert!(!t.label().is_empty());
        assert!(!t.style_class().is_empty());
        assert!(!t.icon_id().is_empty());
    }
    for t in [StatusTag::Archived, StatusTag::Complete, StatusTag::Working] {
        assert!(!t.label().is_empty());
        assert!(!t.style_class().is_empty());
        assert!(!t.icon_id().is_empty());
    }
    for t in [
        StackTag::Quantum,
        StackTag::Dioxus,
        StackTag::Unity,
        StackTag::Core,
        StackTag::Bevy,
        StackTag::Wasm,
        StackTag::Yew,
    ] {
        assert!(!t.label().is_empty());
        assert!(!t.icon_id().is_empty());
    }
    for t in [
        ContactTag::Email,
        ContactTag::GitHub,
        ContactTag::Telegram,
        ContactTag::Twitter,
        ContactTag::Discord,
        ContactTag::Other,
    ] {
        assert!(!t.label().is_empty());
        assert!(!t.icon_id().is_empty());
    }
    let url = "u".to_owned();
    for l in [
        ProjectLink::Use(url.clone()),
        ProjectLink::Read(url.clone()),
        ProjectLink::Steam(url.clone()),
        ProjectLink::GitHub(url.clone()),
        ProjectLink::GitLab(url.clone()),
        ProjectLink::Website(url.clone()),
        ProjectLink::Mirror(url.clone()),
        ProjectLink::Download(url.clone()),
        ProjectLink::AppStore(url.clone()),
        ProjectLink::Cratesio(url.clone()),
        ProjectLink::GooglePlay(url.clone()),
    ] {
        assert!(!l.label().is_empty());
        assert!(!l.icon_id().is_empty());
        assert_eq!(l.url().as_str(), "u");
    }
}

#[test]
fn article_tags_have_labels_and_icons() {
    for t in [
        ArticleTag::Engineering,
        ArticleTag::GameDesign,
        ArticleTag::Tutorial,
        ArticleTag::Research,
        ArticleTag::Quantum,
        ArticleTag::Notes,
    ] {
        assert!(!t.label().is_empty());
        assert!(!t.icon_id().is_empty());
    }
}
