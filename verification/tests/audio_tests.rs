use portfolio::audio_lib::{AudioLibrary, AudioLibraryError};

#[test]
fn playing_from_an_empty_library_is_missing() {
    let lib = AudioLibrary::new();
    assert_eq!(lib.play("click.ogg"), Err(AudioLibraryError::Missing));
    let lib2 = AudioLibrary::default();
    assert_eq!(lib2.play(""), Err(AudioLibraryError::Missing));
}

#[test]
fn error_messages_name_what_went_wrong() {
    assert_eq!(AudioLibraryError::FailedToLoad.message(), "Couldn't load the resource");
    assert_eq!(AudioLibraryError::FailedToPlay.message(), "Couldn't play the resource");
    assert_eq!(AudioLibraryError::Missing.message(), "The resource is missing");
}
