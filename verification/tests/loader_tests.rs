use portfolio::content::DataSchema;
use portfolio::loader::{LoadError, LoadState, RemoteDataLoader};
use portfolio::render::render_entries;
use portfolio::schema::SchemaError;

const URL: &str = "https://example.org/data.json";

#[test]
fn starts_with_nothing_fetched() {
    let loader = RemoteDataLoader::new(URL.to_owned());
    assert_eq!(loader.url, URL);
    assert_eq!(loader.state, LoadState::NotStarted);
    assert!(loader.data().is_none());
}

#[test]
fn an_empty_document_loads_as_empty_data() {
    let mut loader = RemoteDataLoader::new(URL.to_owned());
    loader.resolve(Ok("{\"projects\":[],\"articles\":[],\"contacts\":[]}".to_owned()));
    assert_eq!(
        loader.state,
        LoadState::Loaded(DataSchema { projects: vec![], articles: vec![], contacts: vec![] })
    );
}

#[test]
fn a_malformed_body_fails_with_a_decode_error() {
    let mut loader = RemoteDataLoader::new(URL.to_owned());
    loader.resolve(Ok("not json".to_owned()));
    assert_eq!(loader.state, LoadState::Failed(LoadError::Decode(SchemaError::Malformed)));
}

#[test]
fn dependent_views_render_the_fallback_after_a_failure() {
    let mut loader = RemoteDataLoader::new(URL.to_owned());
    loader.resolve(Ok("not json".to_owned()));
    let (projects, articles, contacts) = loader.sections();
    assert!(projects.is_empty() && articles.is_empty() && contacts.is_empty());
    assert!(render_entries(&projects).is_empty());
}

#[test]
fn a_failed_fetch_keeps_its_message() {
    let mut loader = RemoteDataLoader::new(URL.to_owned());
    loader.resolve(Err("connection refused".to_owned()));
    assert_eq!(
        loader.state,
        LoadState::Failed(LoadError::Fetch("connection refused".to_owned()))
    );
    assert!(loader.data().is_none());
}

#[test]
fn loaded_sections_come_back_in_order() {
    let mut loader = RemoteDataLoader::new(URL.to_owned());
    let body = "{\"projects\":[\
        {\"name\":\"p1\",\"description\":\"\",\"link\":\"l1\"},\
        {\"name\":\"p2\",\"description\":\"\",\"link\":\"l2\"}],\
        \"articles\":[],\"contacts\":[]}";
    loader.resolve(Ok(body.to_owned()));
    let (projects, _, _) = loader.sections();
    assert_eq!(projects.len(), 2);
    assert_eq!(projects[0].name, "p1");
    assert_eq!(projects[1].name, "p2");
}
