use registry_check::url::{compute_manifest_url, compute_token_url, find};

#[test]
fn manifest_docker() {
    let path = "apps/demo";
    let url = compute_manifest_url(path);
    assert_eq!("https://index.docker.io/v2/apps/demo/manifests/latest", url);
}

#[test]
fn manifest_docker_library() {
    let path = "demo";
    let url = compute_manifest_url(path);
    assert_eq!(
        "https://index.docker.io/v2/library/demo/manifests/latest",
        url
    );
}

#[test]
fn manifest_localhost() {
    let path = "localhost:5000/apps/demo";
    let url = compute_manifest_url(path);
    assert_eq!("http://localhost:5000/v2/apps/demo/manifests/latest", url);
}

#[test]
fn token() {
    let path = "Bearer realm=https://foo.com,service=foo,scope=bar";
    let url = compute_token_url(path);
    assert_eq!("https://foo.com?service=foo&scope=bar", url);
}

#[test]
fn token_quoted() {
    let path = "Bearer realm=\"https://foo.com\",service=\"foo\",scope=\"bar\"";
    let url = compute_token_url(path);
    assert_eq!("https://foo.com?service=foo&scope=bar", url);
}

#[test]
fn manifest_named_host() {
    assert_eq!(
        "https://ghcr.io/v2/owner/app/manifests/latest",
        compute_manifest_url("ghcr.io/owner/app")
    );
}

#[test]
fn manifest_named_host_without_namespace() {
    assert_eq!(
        "https://library/v2/registry.local/manifests/latest",
        compute_manifest_url("registry.local")
    );
}

#[test]
fn manifest_reference_starting_with_http() {
    assert_eq!(
        "index.docker.io/v2/library/httpd/manifests/latest",
        compute_manifest_url("httpd")
    );
}

#[test]
fn manifest_default_namespace_inserted() {
    for name in ["demo", "redis", "a"] {
        let expected = format!("https://index.docker.io/v2/library/{}/manifests/latest", name);
        assert_eq!(expected, compute_manifest_url(name));
    }
}

#[test]
fn token_quoted_and_bare_agree() {
    let bare = compute_token_url("Bearer realm=https://r,service=s,scope=sc");
    let quoted = compute_token_url("Bearer realm=\"https://r\",service=\"s\",scope=\"sc\"");
    assert_eq!("https://r?service=s&scope=sc", bare);
    assert_eq!(bare, quoted);
}

#[test]
fn token_not_bearer() {
    assert_eq!("", compute_token_url("Basic realm=https://foo.com,service=foo,scope=bar"));
    assert_eq!("", compute_token_url("bearer realm=https://foo.com,service=foo,scope=bar"));
    assert_eq!("", compute_token_url(""));
}

#[test]
fn token_missing_field() {
    assert_eq!("", compute_token_url("Bearer realm=https://foo.com,service=foo"));
    assert_eq!("", compute_token_url("Bearer service=foo,scope=bar"));
    assert_eq!("", compute_token_url("Bearer realm=https://foo.com,scope=bar"));
    assert_eq!("", compute_token_url("Bearer realm=,service=foo,scope=bar"));
}

#[test]
fn token_field_order_and_first_match() {
    assert_eq!(
        "https://a?service=s&scope=x",
        compute_token_url("Bearer scope=x,service=s,realm=https://a,realm=https://b")
    );
}

#[test]
fn find_fields() {
    assert_eq!("foo", find("realm=x,service=foo", "service="));
    assert_eq!("a b", find("k=\"a\" \"b\",z=1", "k="));
    assert_eq!("v\"", find("k=v\"", "k="));
    assert_eq!("", find("a=1,b=2", "c="));
    assert_eq!("", find("", "c="));
}
