//! A small library of named sounds.  Each name holds one audio element;
//! inserting under a taken name replaces the old sound.  A missing asset
//! never takes the interaction down: it only surfaces as an error value.

use vstd::prelude::*;
use crate::json::str_eq;

verus! {

/// The browser's audio element, carried through opaquely.
#[verifier::external_type_specification]
#[verifier::external_body]
pub struct ExHtmlAudioElement(web_sys::HtmlAudioElement);

/// How loading or playing a sound can fail.
#[derive(Clone, Copy, Debug, PartialEq, Eq, Structural)]
pub enum AudioLibraryError {
    /// The element for the path could not be made.
    FailedToLoad,
    /// The runtime refused to start playback.
    FailedToPlay,
    /// No sound of that name is loaded.
    Missing,
}

impl AudioLibraryError {
    /// What went wrong, in words.
    pub fn message(&self) -> (r: &'static str)
        ensures
            r@.len() > 0,
    {
        let r = match self {
            AudioLibraryError::FailedToLoad => "Couldn't load the resource",
            AudioLibraryError::FailedToPlay => "Couldn't play the resource",
            AudioLibraryError::Missing => "The resource is missing",
        };
        proof {
            reveal_strlit("Couldn't load the resource");
            reveal_strlit("Couldn't play the resource");
            reveal_strlit("The resource is missing");
        }
        r
    }
}

/// Relies on `web_sys::HtmlAudioElement::new_with_src`: builds an audio
/// element for the path; whether it fails depends on the runtime.
#[verifier::external_body]
fn new_audio_element(path: &str) -> Option<web_sys::HtmlAudioElement> {
    web_sys::HtmlAudioElement::new_with_src(path).ok()
}

/// Relies on `web_sys::HtmlMediaElement::play`: starts playback; the result
/// says whether the runtime accepted it.
#[verifier::external_body]
fn play_element(el: &web_sys::HtmlAudioElement) -> bool {
    el.play().is_ok()
}

/// Named sounds, one element per name.
pub struct AudioLibrary {
    sounds: Vec<(String, web_sys::HtmlAudioElement)>,
}

impl View for AudioLibrary {
    type V = Set<Seq<char>>;

    /// The names that hold a sound.
    closed spec fn view(&self) -> Set<Seq<char>> {
        Set::new(
            |n: Seq<char>|
                exists|i: int| 0 <= i < self.sounds@.len() && (#[trigger] self.sounds@[i]).0@ == n,
        )
    }
}

impl AudioLibrary {
    /// Names are never doubled: inserting replaces.
    pub closed spec fn wf(&self) -> bool {
        forall|i: int, j: int|
            0 <= i < j < self.sounds@.len() ==> (#[trigger] self.sounds@[i]).0@ != (
            #[trigger] self.sounds@[j]).0@
    }

    /// An empty library.
    pub fn new() -> (r: AudioLibrary)
        ensures
            r.wf(),
            r@ == Set::<Seq<char>>::empty(),
    {
        let r = AudioLibrary { sounds: Vec::new() };
        proof {
            assert(r@ =~= Set::<Seq<char>>::empty());
        }
        r
    }

    /// The index holding `name`, if any.
    fn find(&self, name: &str) -> (r: Option<usize>)
        ensures
            (match r {
                Some(i) => i < self.sounds@.len() && self.sounds@[i as int].0@ == name@,
                None => !self@.contains(name@),
            }),
    {
        let mut i: usize = 0;
        while i < self.sounds.len()
            invariant
                i <= self.sounds@.len(),
                forall|p: int| 0 <= p < i ==> (#[trigger] self.sounds@[p]).0@ != name@,
            decreases self.sounds@.len() - i,
        {
            if str_eq(self.sounds[i].0.as_str(), name) {
                return Some(i);
            }
            i = i + 1;
        }
        proof {
            assert(!self@.contains(name@));
        }
        None
    }

    /// Load the sound at `path` and file it under the path, replacing any
    /// sound already filed there.  Fails with `FailedToLoad` exactly where
    /// the element cannot be made, and then changes nothing.
    pub fn insert(&mut self, path: &str) -> (r: Result<(), AudioLibraryError>)
        requires
            old(self).wf(),
        ensures
            final(self).wf(),
            (match r {
                Ok(()) => final(self)@ == old(self)@.insert(path@),
                Err(e) => e == AudioLibraryError::FailedToLoad && *final(self) == *old(self),
            }),
    {
        let element = match new_audio_element(path) {
            Some(el) => el,
            None => {
                return Err(AudioLibraryError::FailedToLoad);
            },
        };
        match self.find(path) {
            Some(i) => {
                self.sounds[i] = (path.to_owned(), element);
                proof {
                    assert forall|n: Seq<char>| self@.contains(n) implies old(self)@.insert(
                        path@,
                    ).contains(n) by {
                        let w = choose|w: int|
                            0 <= w < self.sounds@.len() && (#[trigger] self.sounds@[w]).0@ == n;
                        if w != i {
                            assert(old(self).sounds@[w].0@ == n);
                        }
                    }
                    assert forall|n: Seq<char>| old(self)@.insert(path@).contains(n) implies
                        self@.contains(n) by {
                        if n == path@ {
                            assert(self.sounds@[i as int].0@ == n);
                        } else {
                            let w = choose|w: int|
                                0 <= w < old(self).sounds@.len() && (
                                #[trigger] old(self).sounds@[w]).0@ == n;
                            assert(self.sounds@[w].0@ == n);
                        }
                    }
                    assert(self@ =~= old(self)@.insert(path@));
                }
                Ok(())
            },
            None => {
                self.sounds.push((path.to_owned(), element));
                proof {
                    assert forall|n: Seq<char>| self@.contains(n) implies old(self)@.insert(
                        path@,
                    ).contains(n) by {
                        let w = choose|w: int|
                            0 <= w < self.sounds@.len() && (#[trigger] self.sounds@[w]).0@ == n;
                        if w < old(self).sounds@.len() {
                            assert(old(self).sounds@[w].0@ == n);
                        }
                    }
                    assert forall|n: Seq<char>| old(self)@.insert(path@).contains(n) implies
                        self@.contains(n) by {
                        if n == path@ {
                            assert(self.sounds@[self.sounds@.len() - 1].0@ == n);
                        } else {
                            let w = choose|w: int|
                                0 <= w < old(self).sounds@.len() && (
                                #[trigger] old(self).sounds@[w]).0@ == n;
                            assert(self.sounds@[w].0@ == n);
                        }
                    }
                    assert(self@ =~= old(self)@.insert(path@));
                }
                Ok(())
            },
        }
    }

    /// Play the sound filed under `name`.  `Missing` exactly where no sound
    /// of that name is loaded; whether a loaded sound starts is the
    /// runtime's decision, and a refusal is `FailedToPlay`.
    pub fn play(&self, name: &str) -> (r: Result<(), AudioLibraryError>)
        ensures
            (match r {
                Ok(()) => self@.contains(name@),
                Err(e) => (e == AudioLibraryError::Missing && !self@.contains(name@)) || (e
                    == AudioLibraryError::FailedToPlay && self@.contains(name@)),
            }),
    {
        match self.find(name) {
            Some(i) => {
                proof {
                    assert(self@.contains(name@));
                }
                if play_element(&self.sounds[i].1) {
                    Ok(())
                } else {
                    Err(AudioLibraryError::FailedToPlay)
                }
            },
            None => Err(AudioLibraryError::Missing),
        }
    }
}

impl Default for AudioLibrary {
    /// The default library is the empty one.
    fn default() -> (r: AudioLibrary)
        ensures
            r.wf(),
            r@ == Set::<Seq<char>>::empty(),
    {
        AudioLibrary::new()
    }
}

} // verus!
