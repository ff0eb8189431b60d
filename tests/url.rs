use mcp_client::url::join_url;

#[test]
fn test_join_url_absolute_endpoint() {
    assert_eq!(
        join_url("http://localhost:8080/sse", "/messages?session=123"),
        "http://localhost:8080/messages?session=123"
    );
}

#[test]
fn test_join_url_relative_endpoint() {
    assert_eq!(
        join_url("http://localhost:8080/sse", "messages"),
        "http://localhost:8080/sse/messages"
    );
}

#[test]
fn test_join_url_no_path() {
    assert_eq!(
        join_url("http://localhost:8080", "/messages"),
        "http://localhost:8080/messages"
    );
}

#[test]
fn resolver_examples() {
    assert_eq!(join_url("http://h:8080/sse", "/messages?x=1"), "http://h:8080/messages?x=1");
    assert_eq!(join_url("http://h:8080/sse", "messages"), "http://h:8080/sse/messages");
    assert_eq!(join_url("http://h:8080", "/m"), "http://h:8080/m");
}

#[test]
fn absolute_endpoint_is_kept_whatever_the_base() {
    let ep = "https://other.example:9/x?y=1";
    assert_eq!(join_url("http://h:8080/sse", ep), ep);
    assert_eq!(join_url("", ep), ep);
    assert_eq!(join_url("not a url", ep), ep);
}

#[test]
fn exactly_one_slash_between_parts() {
    assert_eq!(join_url("http://h/base/", "m"), "http://h/base/m");
    assert_eq!(join_url("base", "m"), "base/m");
    assert_eq!(join_url("base/", "/m"), "base/m");
    assert_eq!(join_url("base", "/m"), "base/m");
}
