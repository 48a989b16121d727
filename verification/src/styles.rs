//! Style classes for the page sections: process-wide immutable
//! configuration, consumed where sections and titles are rendered.

use vstd::prelude::*;

verus! {

pub const PROJECTS_GRADIENT: &'static str =
    "bg-gradient-to-r from-rose-400 to-fuchsia-500 text-transparent bg-clip-text";

pub const ARTICLES_GRADIENT: &'static str =
    "bg-gradient-to-r from-pink-300 to-indigo-400 text-transparent bg-clip-text";

pub const CONTACTS_GRADIENT: &'static str =
    "bg-gradient-to-r from-green-200 via-emerald-300 to-green-300 text-transparent bg-clip-text";

pub const LECTRO_GRADIENT: &'static str = "bg-gradient-to-r from-red-200 via-red-300 to-yellow-200";

pub const GAMES_GRADIENT: &'static str =
    "bg-gradient-to-r from-fuchsia-300 via-fuchsia-300 to-pink-300 text-transparent bg-clip-text";

pub const RUST_GRADIENT: &'static str =
    "bg-gradient-to-r from-red-200 via-red-300 to-yellow-200 text-transparent bg-clip-text ";

pub const SECTION_TITLE: &'static str = "text-5xl font-bold p-4 mb-8 roboto-mono inline-block";

} // verus!
