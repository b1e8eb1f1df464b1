use axum::http::header::AUTHORIZATION;
use axum::http::{HeaderMap, HeaderValue};
use qqh::auth::check;
use qqh::client::{
    after_open_failure, pop_call, push_call, remove_call, Body, Endpoint, Fallback, Method,
    RemoteCall, Subcmd,
};
use qqh::config::Config;
use qqh::error::DatabaseFault;

fn config() -> Config {
    Config {
        title: "notes".to_string(),
        url: "127.0.0.1:3000".to_string(),
        db_path: "data.redb".to_string(),
        page_content: 10,
        split_length: 100,
        push_password: "secret".to_string(),
    }
}

fn remote(fallback: Fallback) -> RemoteCall {
    match fallback {
        Fallback::Remote(call) => call,
        other => panic!("{:?}", other),
    }
}

#[test]
fn endpoints_have_their_methods_and_paths() {
    let all = vec![
        (Endpoint::Home, Method::Get, "/"),
        (Endpoint::Push, Method::Post, "/"),
        (Endpoint::Content, Method::Get, "/{id}"),
        (Endpoint::Remove, Method::Post, "/remove"),
        (Endpoint::Newest, Method::Get, "/newset"),
        (Endpoint::Pop, Method::Get, "/pop"),
    ];
    for (endpoint, method, path) in all {
        assert_eq!(endpoint.method(), method);
        assert_eq!(endpoint.path(), path);
    }
}

#[test]
fn a_push_call_carries_the_content() {
    let call = push_call(&config(), "hello".to_string());
    assert_eq!(call.method, Method::Post);
    assert_eq!(call.url, "http://127.0.0.1:3000");
    assert_eq!(call.authorization, "Bearer secret");
    assert!(matches!(call.body, Body::Content(content) if content == "hello"));
}

#[test]
fn a_pop_call_carries_nothing() {
    let call = pop_call(&config());
    assert_eq!(call.method, Endpoint::Pop.method());
    assert_eq!(call.url, "http://127.0.0.1:3000/pop");
    assert_eq!(call.authorization, "Bearer secret");
    assert!(matches!(call.body, Body::Empty));
}

#[test]
fn a_remove_call_carries_the_index() {
    let call = remove_call(&config(), 7);
    assert_eq!(call.method, Method::Post);
    assert_eq!(call.url, "http://127.0.0.1:3000/remove");
    assert_eq!(call.authorization, "Bearer secret");
    assert!(matches!(call.body, Body::Index(7)));
}

#[test]
fn own_requests_are_accepted() {
    let config = config();
    let calls = vec![
        push_call(&config, "hello".to_string()),
        pop_call(&config),
        remove_call(&config, 7),
    ];
    for call in calls {
        let mut header = HeaderMap::new();
        header.insert(
            AUTHORIZATION,
            HeaderValue::from_str(&call.authorization).unwrap(),
        );
        assert!(check(header, &config.push_password).is_ok());
    }
}

#[test]
fn a_held_database_sends_the_command_to_the_service() {
    let config = config();
    let held = DatabaseFault::AlreadyOpen;

    let content = "hello".to_string();
    let call = remote(after_open_failure(Subcmd::Push { content }, &held, &config));
    assert_eq!(call.url, "http://127.0.0.1:3000");
    assert!(matches!(call.body, Body::Content(content) if content == "hello"));

    let call = remote(after_open_failure(Subcmd::Pop, &held, &config));
    assert_eq!(call.url, "http://127.0.0.1:3000/pop");

    let call = remote(after_open_failure(
        Subcmd::Remove { index: 7 },
        &held,
        &config,
    ));
    assert_eq!(call.url, "http://127.0.0.1:3000/remove");
    assert!(matches!(call.body, Body::Index(7)));

    assert!(matches!(
        after_open_failure(Subcmd::Serve, &held, &config),
        Fallback::Fail
    ));
}

#[test]
fn a_broken_database_fails_every_command_but_a_removal() {
    let config = config();
    let broken = DatabaseFault::Other("broken".to_string());
    let content = "hello".to_string();
    assert!(matches!(
        after_open_failure(Subcmd::Push { content }, &broken, &config),
        Fallback::Fail
    ));
    assert!(matches!(
        after_open_failure(Subcmd::Pop, &broken, &config),
        Fallback::Fail
    ));
    assert!(matches!(
        after_open_failure(Subcmd::Serve, &broken, &config),
        Fallback::Fail
    ));
    assert!(matches!(
        after_open_failure(Subcmd::Remove { index: 7 }, &broken, &config),
        Fallback::Ignore
    ));
}
