use sidetracker::escape::escape_address;
use sidetracker::post::{
    get_parent, parse_embedded, parse_post_text, parse_post_uri, AddressError, EmbeddedRecord,
    FlattenError, FlattenedThread, Post, PostLocator, RemotePost, ThreadNode, UrlParts,
};

const LEAF_URI: &str = "at://did:plc:xn5b64qpivpq55wumwf6wdjg/app.bsky.feed.post/3leb44umzuc2l";
const PARENT_URI: &str = "at://did:plc:7tf4afounuzjqioojiwln3jv/app.bsky.feed.post/3leb3s4oc222d";
const ROOT_URI: &str = "at://did:plc:xn5b64qpivpq55wumwf6wdjg/app.bsky.feed.post/3le7txyg4y22e";
const EMBEDDED_URI: &str = "at://did:plc:fkjudld5cg4ailkuyec65wvg/app.bsky.feed.post/3le73kidz7k2e";
const EMBEDDED_CID: &str = "bafyreihvgtbjqmyo2ocpfic3rgjtvepbopcfhsqwxynl2shc4cww3nnjly";

fn remote_post(uri: &str, handle: &str, text: Option<&str>) -> RemotePost {
    RemotePost {
        cid: format!("cid-of-{}", uri),
        did: format!("did-of-{}", handle),
        handle: handle.to_string(),
        record_text: text.map(|t| t.to_string()),
        uri: uri.to_string(),
        embed: None,
    }
}

fn node(post: RemotePost, parent: Option<ThreadNode>) -> ThreadNode {
    ThreadNode {
        post,
        parent: parent.map(Box::new),
    }
}

fn embedded_record() -> EmbeddedRecord {
    EmbeddedRecord {
        cid: EMBEDDED_CID.to_string(),
        did: "did:plc:fkjudld5cg4ailkuyec65wvg".to_string(),
        handle: "cotranedolphy.bsky.social".to_string(),
        record_text: Some("以前有个同事，每天中午都要吃三碗饭".to_string()),
        uri: EMBEDDED_URI.to_string(),
    }
}

/// A thread of twelve posts, the topmost of which quotes another post; the
/// walk starts at the newest.
fn leaf_post_thread() -> ThreadNode {
    let mut top = remote_post(ROOT_URI, "poster.bsky.social", Some("这家店怎么样？"));
    top.embed = Some(embedded_record());
    let mut cur = node(top, None);
    for i in 0..9 {
        let uri = format!("at://did:plc:middle/app.bsky.feed.post/reply{}", i);
        let text = format!("回复 {}\n", i);
        cur = node(remote_post(&uri, "middle.bsky.social", Some(&text)), Some(cur));
    }
    cur = node(
        remote_post(PARENT_URI, "parent.bsky.social", Some("你吃了吗")),
        Some(cur),
    );
    node(
        remote_post(LEAF_URI, "leaf.bsky.social", Some("猛吃！")),
        Some(cur),
    )
}

fn root_post_thread() -> ThreadNode {
    node(
        remote_post(
            "at://did:plc:xn5b64qpivpq55wumwf6wdjg/app.bsky.feed.post/3lfd7fhrkyk24",
            "poster.bsky.social",
            Some("一个人的帖子"),
        ),
        None,
    )
}

#[test]
fn test_parse_post_text() {
    let thread = leaf_post_thread();
    let text = parse_post_text(&thread.post);
    assert_eq!(text, "猛吃！");
}

#[test]
fn test_parse_post_uri() {
    let thread = leaf_post_thread();
    let uri = parse_post_uri(&thread.post);
    assert_eq!(
        uri,
        "at://did:plc:xn5b64qpivpq55wumwf6wdjg/app.bsky.feed.post/3leb44umzuc2l"
    );
}

#[test]
fn test_get_parent() {
    let thread = leaf_post_thread();
    let parent = get_parent(&thread);
    assert!(parent.is_some());
    let uri = parse_post_uri(&parent.unwrap().post);
    assert_eq!(
        uri,
        "at://did:plc:7tf4afounuzjqioojiwln3jv/app.bsky.feed.post/3leb3s4oc222d"
    );
}

#[test]
fn test_get_parent_return_none() {
    let thread = root_post_thread();
    let parent = get_parent(&thread);
    assert!(parent.is_none());
}

#[test]
fn test_parse_embedded() {
    let thread = leaf_post_thread();
    let mut level = Some(&thread);
    while let cur @ Some(_) = get_parent(level.unwrap()) {
        level = cur;
    }

    let embedded = parse_embedded(&level.unwrap().post.embed).unwrap();
    assert_eq!(embedded.handle, "cotranedolphy.bsky.social");
    assert!(embedded.text.starts_with("以前有个同事"));
    assert_eq!(
        embedded.uri,
        "at://did:plc:fkjudld5cg4ailkuyec65wvg/app.bsky.feed.post/3le73kidz7k2e",
    );
    assert_eq!(
        embedded.cid,
        "bafyreihvgtbjqmyo2ocpfic3rgjtvepbopcfhsqwxynl2shc4cww3nnjly"
    );
    assert_eq!(embedded.idx, 0);
    assert_eq!(
        embedded.get_share_uri(),
        "https://bsky.app/profile/did:plc:fkjudld5cg4ailkuyec65wvg/post/3le73kidz7k2e"
    );
}

#[test]
fn test_parse_embed_return_none() {
    let thread = leaf_post_thread();
    let embedded = parse_embedded(&thread.post.embed);
    assert!(embedded.is_none());
}

#[test]
fn test_flattened_thread() {
    let thread = leaf_post_thread();
    let flattened = FlattenedThread::flatten(&thread).unwrap();
    assert_eq!(flattened.posts.len(), 13);
    assert_eq!(
        flattened.root.uri,
        "at://did:plc:xn5b64qpivpq55wumwf6wdjg/app.bsky.feed.post/3le7txyg4y22e"
    );
    assert_eq!(flattened.root.idx, 2);
    assert_eq!(
        flattened.entrance.uri,
        "at://did:plc:xn5b64qpivpq55wumwf6wdjg/app.bsky.feed.post/3leb44umzuc2l"
    );
    assert_eq!(flattened.entrance.idx, 13);
}

#[test]
fn test_flattened_thread_is_numbered_without_gaps() {
    let flattened = FlattenedThread::flatten(&leaf_post_thread()).unwrap();
    for (i, post) in flattened.posts.iter().enumerate() {
        assert_eq!(post.idx as usize, i + 1);
    }
    assert_eq!(flattened.posts[0].uri, EMBEDDED_URI);
    assert_eq!(flattened.posts[1], flattened.root);
    assert_eq!(flattened.posts[12], flattened.entrance);
    assert_eq!(flattened.posts[11].uri, PARENT_URI);
    assert_eq!(flattened.posts[2].text, "回复 0");
    assert_eq!(flattened.to_posts(), flattened.posts);
}

#[test]
fn test_flatten_single_post() {
    let thread = root_post_thread();
    let flattened = FlattenedThread::flatten(&thread).unwrap();
    assert_eq!(flattened.posts.len(), 1);
    assert_eq!(flattened.root, flattened.entrance);
    assert_eq!(flattened.root, flattened.posts[0]);
    assert_eq!(flattened.root.idx, 1);
    assert_eq!(flattened.root.text, "一个人的帖子");
}

#[test]
fn test_flatten_skips_posts_without_text() {
    let top = node(remote_post("at://a/app.bsky.feed.post/1", "a", Some("first")), None);
    let picture = node(
        remote_post("at://b/app.bsky.feed.post/2", "b", Some("  \n\t ")),
        Some(top),
    );
    let unreadable = node(remote_post("at://c/app.bsky.feed.post/3", "c", None), Some(picture));
    let leaf = node(
        remote_post("at://d/app.bsky.feed.post/4", "d", Some(" last ")),
        Some(unreadable),
    );
    let flattened = FlattenedThread::flatten(&leaf).unwrap();
    assert_eq!(flattened.posts.len(), 2);
    assert_eq!(flattened.posts[0].text, "first");
    assert_eq!(flattened.posts[0].idx, 1);
    assert_eq!(flattened.posts[1].text, "last");
    assert_eq!(flattened.posts[1].idx, 2);
    assert_eq!(flattened.root.uri, "at://a/app.bsky.feed.post/1");
    assert_eq!(flattened.entrance.uri, "at://d/app.bsky.feed.post/4");
}

#[test]
fn test_flatten_root_is_oldest_post_with_text() {
    let top = node(remote_post("at://a/app.bsky.feed.post/1", "a", None), None);
    let second = node(remote_post("at://b/app.bsky.feed.post/2", "b", Some("two")), Some(top));
    let leaf = node(remote_post("at://c/app.bsky.feed.post/3", "c", Some("three")), Some(second));
    let flattened = FlattenedThread::flatten(&leaf).unwrap();
    assert_eq!(flattened.posts.len(), 2);
    assert_eq!(flattened.root.uri, "at://b/app.bsky.feed.post/2");
    assert_eq!(flattened.root.idx, 1);
    assert_eq!(flattened.entrance.idx, 2);
}

#[test]
fn test_flatten_ignores_quotes_below_the_top() {
    let top = node(remote_post("at://a/app.bsky.feed.post/1", "a", Some("one")), None);
    let mut quoting = remote_post("at://b/app.bsky.feed.post/2", "b", Some("two"));
    quoting.embed = Some(embedded_record());
    let leaf = node(quoting, Some(top));
    let flattened = FlattenedThread::flatten(&leaf).unwrap();
    assert_eq!(flattened.posts.len(), 2);
    assert_eq!(flattened.posts[0].uri, "at://a/app.bsky.feed.post/1");
}

#[test]
fn test_flatten_ignores_quoted_post_without_text() {
    let mut top = remote_post("at://a/app.bsky.feed.post/1", "a", Some("one"));
    let mut quoted = embedded_record();
    quoted.record_text = Some(String::new());
    top.embed = Some(quoted);
    let flattened = FlattenedThread::flatten(&node(top, None)).unwrap();
    assert_eq!(flattened.posts.len(), 1);
    assert_eq!(flattened.root.idx, 1);

    let mut top = remote_post("at://a/app.bsky.feed.post/1", "a", Some("one"));
    let mut quoted = embedded_record();
    quoted.record_text = None;
    top.embed = Some(quoted);
    let flattened = FlattenedThread::flatten(&node(top, None)).unwrap();
    assert_eq!(flattened.posts.len(), 1);
}

#[test]
fn test_flatten_ignores_quoted_post_with_blank_text() {
    let mut top = remote_post("at://a/app.bsky.feed.post/1", "a", Some("one"));
    let mut quoted = embedded_record();
    quoted.record_text = Some(" \n\t\u{3000}".to_string());
    top.embed = Some(quoted);
    let leaf = node(
        remote_post("at://b/app.bsky.feed.post/2", "b", Some("two")),
        Some(node(top, None)),
    );
    let flattened = FlattenedThread::flatten(&leaf).unwrap();
    assert_eq!(flattened.posts.len(), 2);
    assert_eq!(flattened.posts[0].uri, "at://a/app.bsky.feed.post/1");
    assert_eq!(flattened.root.idx, 1);
    assert_eq!(flattened.root.uri, "at://a/app.bsky.feed.post/1");
    assert!(flattened.posts.iter().all(|p| !p.text.is_empty()));
}

#[test]
fn test_parse_embedded_trims_text() {
    let mut quoted = embedded_record();
    quoted.record_text = Some("  以前有个同事 \n".to_string());
    let post = parse_embedded(&Some(quoted)).unwrap();
    assert_eq!(post.text, "以前有个同事");
    assert_eq!(post.idx, 0);
    assert_eq!(post.uri, EMBEDDED_URI);
    assert_eq!(post.cid, EMBEDDED_CID);
    assert_eq!(post.did, "did:plc:fkjudld5cg4ailkuyec65wvg");
    assert_eq!(post.handle, "cotranedolphy.bsky.social");

    let mut quoted = embedded_record();
    quoted.record_text = Some("  ".to_string());
    assert_eq!(parse_embedded(&Some(quoted)).unwrap().text, "");
    let mut quoted = embedded_record();
    quoted.record_text = None;
    assert_eq!(parse_embedded(&Some(quoted)), None);
    assert_eq!(parse_embedded(&None), None);
}

#[test]
fn test_flatten_recovers_quoted_post_with_trimmed_text() {
    let mut top = remote_post("at://a/app.bsky.feed.post/1", "a", Some("one"));
    let mut quoted = embedded_record();
    quoted.record_text = Some(" quoted \n".to_string());
    top.embed = Some(quoted);
    let flattened = FlattenedThread::flatten(&node(top, None)).unwrap();
    assert_eq!(flattened.posts.len(), 2);
    assert_eq!(flattened.posts[0].text, "quoted");
    assert_eq!(flattened.posts[0].idx, 1);
    assert_eq!(flattened.root.text, "one");
    assert_eq!(flattened.root.idx, 2);
    assert_eq!(flattened.entrance, flattened.root);
}

#[test]
fn test_flatten_passes_over_leaf_without_text() {
    let top = node(remote_post("at://a/app.bsky.feed.post/1", "a", Some("one")), None);
    let second = node(remote_post("at://b/app.bsky.feed.post/2", "b", Some("two")), Some(top));
    let leaf = node(remote_post("at://c/app.bsky.feed.post/3", "c", Some(" ")), Some(second));
    let flattened = FlattenedThread::flatten(&leaf).unwrap();
    assert_eq!(flattened.posts.len(), 2);
    assert!(flattened.posts.iter().all(|p| p.uri != "at://c/app.bsky.feed.post/3"));
    assert_eq!(flattened.posts[0].text, "one");
    assert_eq!(flattened.posts[0].idx, 1);
    assert_eq!(flattened.posts[1].text, "two");
    assert_eq!(flattened.posts[1].idx, 2);
    assert_eq!(flattened.root, flattened.posts[0]);
    assert_eq!(flattened.entrance.uri, "at://c/app.bsky.feed.post/3");
    assert_eq!(flattened.entrance.text, "");
    assert_eq!(flattened.entrance.idx, 0);
    assert_eq!(flattened.entrance.handle, "c");
}

#[test]
fn test_flatten_walks_past_blank_post() {
    let top = node(remote_post("at://a/app.bsky.feed.post/1", "a", Some("a")), None);
    let blank = node(remote_post("at://b/app.bsky.feed.post/2", "b", Some("   ")), Some(top));
    let leaf = node(remote_post("at://c/app.bsky.feed.post/3", "c", Some("c")), Some(blank));
    let flattened = FlattenedThread::flatten(&leaf).unwrap();
    let texts: Vec<&str> = flattened.posts.iter().map(|p| p.text.as_str()).collect();
    let places: Vec<u32> = flattened.posts.iter().map(|p| p.idx).collect();
    assert_eq!(texts, vec!["a", "c"]);
    assert_eq!(places, vec![1, 2]);
    assert_eq!(flattened.root.text, "a");
    assert_eq!(flattened.root.idx, 1);
    assert_eq!(flattened.entrance.text, "c");
    assert_eq!(flattened.entrance.idx, 2);
}

#[test]
fn test_flatten_without_any_text() {
    let top = node(remote_post("at://a/app.bsky.feed.post/1", "a", None), None);
    let leaf = node(remote_post("at://b/app.bsky.feed.post/2", "b", Some(" ")), Some(top));
    assert_eq!(FlattenedThread::flatten(&leaf), Err(FlattenError::NoText));

    let mut top = remote_post("at://a/app.bsky.feed.post/1", "a", Some(""));
    top.embed = Some(embedded_record());
    assert_eq!(
        FlattenedThread::flatten(&node(top, None)),
        Err(FlattenError::NoText)
    );
}

#[test]
fn test_parse_post_text_trims_and_tolerates_unreadable_records() {
    let post = remote_post("at://a/app.bsky.feed.post/1", "a", Some("\u{3000} 猛吃！\r\n"));
    assert_eq!(parse_post_text(&post), "猛吃！");
    let post = remote_post("at://a/app.bsky.feed.post/1", "a", Some("a b"));
    assert_eq!(parse_post_text(&post), "a b");
    let post = remote_post("at://a/app.bsky.feed.post/1", "a", None);
    assert_eq!(parse_post_text(&post), "");
}

#[test]
fn test_locator_from_native_address() {
    let locator = PostLocator::from_url(LEAF_URI).unwrap();
    assert_eq!(locator.repository(), "did:plc:xn5b64qpivpq55wumwf6wdjg");
    assert_eq!(locator.rkey(), "3leb44umzuc2l");
    assert_eq!(locator.at_uri(), LEAF_URI);
    assert_eq!(
        locator.app_uri(),
        "https://bsky.app/profile/did:plc:xn5b64qpivpq55wumwf6wdjg/post/3leb44umzuc2l"
    );
}

#[test]
fn test_locator_from_web_address() {
    let locator =
        PostLocator::from_url("https://bsky.app/profile/alice.bsky.social/post/3leb44umzuc2l")
            .unwrap();
    assert_eq!(locator, PostLocator::new("alice.bsky.social", "3leb44umzuc2l"));
    assert_eq!(
        locator.at_uri(),
        "at://alice.bsky.social/app.bsky.feed.post/3leb44umzuc2l"
    );
    let locator = PostLocator::from_url("http://localhost/profile/did:plc:abc/post/key").unwrap();
    assert_eq!(locator, PostLocator::new("did:plc:abc", "key"));
}

#[test]
fn test_locator_forms_agree() {
    for (repository, rkey) in [
        ("did:plc:xn5b64qpivpq55wumwf6wdjg", "3leb44umzuc2l"),
        ("alice.bsky.social", "3le7txyg4y22e"),
    ] {
        let locator = PostLocator::new(repository, rkey);
        let native = PostLocator::from_url(&locator.at_uri()).unwrap();
        let web = PostLocator::from_url(&locator.app_uri()).unwrap();
        assert_eq!(native, locator);
        assert_eq!(web, locator);
        assert_eq!(native.app_uri(), web.app_uri());
        assert_eq!(native.at_uri(), web.at_uri());
    }
}

#[test]
fn test_locator_keeps_colons_of_repository() {
    let locator = PostLocator::new("did:plc:fkjudld5cg4ailkuyec65wvg", "3le73kidz7k2e");
    let parsed = PostLocator::from_url(&locator.at_uri()).unwrap();
    assert_eq!(parsed.repository(), locator.repository());
    assert_eq!(parsed.repository(), "did:plc:fkjudld5cg4ailkuyec65wvg");
}

#[test]
fn test_locator_rejects_invalid_addresses() {
    for input in [
        "",
        "not a url",
        "at:foo",
        "at:/repository/key",
        "at://repository/key",
        "at://repository/app.bsky.feed.post/key/more",
        "ftp://bsky.app/profile/alice/post/key",
        "https://bsky.app/profile/alice/post",
        "https://bsky.app/profile/alice/post/key/more",
        "https://bsky.app",
    ] {
        assert_eq!(
            PostLocator::from_url(input),
            Err(AddressError::InvalidAddress),
            "{}",
            input
        );
    }
}

fn parts(scheme: &str, host: Option<&str>, segments: Option<&[&str]>) -> UrlParts {
    UrlParts {
        scheme: scheme.to_string(),
        host: host.map(|h| h.to_string()),
        path_segments: segments.map(|s| s.iter().map(|p| p.to_string()).collect()),
    }
}

#[test]
fn test_locator_from_parts() {
    let native = parts(
        "at",
        Some("did_plc_ab_cd"),
        Some(&["app.bsky.feed.post", "a_b_c"]),
    );
    assert_eq!(
        PostLocator::from_parts(&native, "at://did:plc:ab_cd/app.bsky.feed.post/a:b_c"),
        Ok(PostLocator::new("did:plc:ab_cd", "a:b_c"))
    );
    // Where the address does not hold what the parser returned, the parts
    // stay as they are.
    assert_eq!(
        PostLocator::from_parts(&native, "at://elsewhere/app.bsky.feed.post/k"),
        Ok(PostLocator::new("did_plc_ab_cd", "a_b_c"))
    );
    assert_eq!(
        PostLocator::from_parts(&native, ""),
        Ok(PostLocator::new("did_plc_ab_cd", "a_b_c"))
    );
    assert_eq!(
        PostLocator::from_parts(&native, "at:did:plc:ab_cd/app.bsky.feed.post/a:b_c"),
        Ok(PostLocator::new("did_plc_ab_cd", "a_b_c"))
    );
    let web = parts(
        "https",
        Some("bsky.app"),
        Some(&["profile", "did_web_x_y.com", "post", "k_1"]),
    );
    assert_eq!(
        PostLocator::from_parts(&web, "https://bsky.app/profile/did:web:x_y.com/post/k_1"),
        Ok(PostLocator::new("did:web:x_y.com", "k_1"))
    );
    assert_eq!(
        PostLocator::from_parts(&web, "https://u:p@bsky.app:8443/profile/did:web:x_y.com/post/k:1"),
        Ok(PostLocator::new("did:web:x_y.com", "k:1"))
    );
    let url = "at://host/app.bsky.feed.post/key";
    assert_eq!(
        PostLocator::from_parts(&parts("at", None, Some(&["app.bsky.feed.post", "key"])), url),
        Err(AddressError::InvalidAddress)
    );
    assert_eq!(
        PostLocator::from_parts(&parts("at", Some("host"), Some(&["key"])), url),
        Err(AddressError::InvalidAddress)
    );
    assert_eq!(
        PostLocator::from_parts(&parts("https", Some("bsky.app"), None), url),
        Err(AddressError::InvalidAddress)
    );
    assert_eq!(
        PostLocator::from_parts(&parts("http", Some("h"), Some(&["a", "b", "c"])), url),
        Err(AddressError::InvalidAddress)
    );
    assert_eq!(
        PostLocator::from_parts(&parts("mailto", None, None), url),
        Err(AddressError::InvalidAddress)
    );
}

#[test]
fn test_share_uri() {
    let post = Post::new("cid", "did:plc:abc", "handle", "text", "at://did:plc:abc/app.bsky.feed.post/key", 0);
    assert_eq!(
        post.share_uri(),
        Ok("https://bsky.app/profile/did:plc:abc/post/key".to_string())
    );
    assert_eq!(
        post.get_share_uri(),
        "https://bsky.app/profile/did:plc:abc/post/key"
    );
    let post = Post::new("cid", "did:plc:abc", "handle", "text", "nowhere", 0);
    assert_eq!(post.share_uri(), Err(AddressError::InvalidAddress));
}

#[test]
fn test_locator_keeps_underscores_of_repository() {
    let parsed = PostLocator::from_url("at://did:plc:ab_cd/app.bsky.feed.post/k");
    assert_eq!(parsed, Ok(PostLocator::new("did:plc:ab_cd", "k")));
    let parsed = PostLocator::from_url("http://localhost:3000/profile/alice_b.test/post/k");
    assert_eq!(parsed, Ok(PostLocator::new("alice_b.test", "k")));
    let locator = PostLocator::new("did:plc:a.did_plc_b", "key");
    assert_eq!(PostLocator::from_url(&locator.at_uri()), Ok(locator.clone()));
    assert_eq!(PostLocator::from_url(&locator.app_uri()), Ok(locator));
    let locator = PostLocator::new("my_handle.test", "key");
    assert_eq!(PostLocator::from_url(&locator.at_uri()), Ok(locator));
}

#[test]
fn test_locator_record_key_comes_back_as_written() {
    let parsed = PostLocator::from_url("at://alice.test/app.bsky.feed.post/a:b");
    assert_eq!(parsed, Ok(PostLocator::new("alice.test", "a:b")));
    let parsed = PostLocator::from_url("at://alice.test/app.bsky.feed.post/did:plc:k_1");
    assert_eq!(parsed, Ok(PostLocator::new("alice.test", "did:plc:k_1")));
    let parsed = PostLocator::from_url("https://bsky.app/profile/did:plc:abc/post/a:b_c");
    assert_eq!(parsed, Ok(PostLocator::new("did:plc:abc", "a:b_c")));
}

#[test]
fn test_locator_round_trip_for_every_kind_of_repository() {
    for repository in [
        "did:plc:xn5b64qpivpq55wumwf6wdjg",
        "did:plc:ab_cd",
        "did:web:x.com",
        "did:web:my_host.example.com:user:alice",
        "did:key:z6mkhaxgbzdvotdkl5257faiztigic2qtklgpbnnegta2dok",
        "did:example:123:456:789",
        "alice.bsky.social",
        "alice_b.test",
    ] {
        for rkey in ["3leb44umzuc2l", "k", "a_b"] {
            let locator = PostLocator::new(repository, rkey);
            let native = format!("at://{}/app.bsky.feed.post/{}", repository, rkey);
            let web = format!("https://bsky.app/profile/{}/post/{}", repository, rkey);
            assert_eq!(locator.at_uri(), native);
            assert_eq!(locator.app_uri(), web);
            assert_eq!(PostLocator::from_url(&native), Ok(locator.clone()), "{}", native);
            assert_eq!(PostLocator::from_url(&web), Ok(locator.clone()), "{}", web);
            let from_native = PostLocator::from_url(&native).unwrap();
            let from_web = PostLocator::from_url(&web).unwrap();
            assert_eq!(from_native.repository(), repository);
            assert_eq!(from_native.rkey(), rkey);
            assert_eq!(from_native.app_uri(), from_web.app_uri());
            assert_eq!(from_native.app_uri(), web);
            assert_eq!(from_native.at_uri(), from_web.at_uri());
            assert_eq!(from_native.at_uri(), native);
        }
    }
}

#[test]
fn test_locator_from_web_address_with_port() {
    let parsed = PostLocator::from_url("http://localhost:3000/profile/did:web:x.com/post/k");
    assert_eq!(parsed, Ok(PostLocator::new("did:web:x.com", "k")));
}

#[test]
fn test_locator_from_address_with_query() {
    let parsed = PostLocator::from_url("https://bsky.app/profile/did:plc:abc/post/k?ref=a:b#c:d");
    assert_eq!(parsed, Ok(PostLocator::new("did:plc:abc", "k")));
}

#[test]
fn test_escape_address() {
    assert_eq!(
        escape_address("at://did:web:x.com/app.bsky.feed.post/k"),
        "at://did_web_x.com/app.bsky.feed.post/k"
    );
    assert_eq!(
        escape_address("at://alice.test/app.bsky.feed.post/k"),
        "at://alice.test/app.bsky.feed.post/k"
    );
    assert_eq!(
        escape_address("https://bsky.app/profile/did:plc:abc/post/a:b"),
        "https://bsky.app/profile/did_plc_abc/post/a_b"
    );
    assert_eq!(escape_address("no colon"), "no colon");
    assert_eq!(escape_address(""), "");
    assert_eq!(escape_address(":"), ":");
    assert_eq!(escape_address("::"), ":_");
    assert_eq!(escape_address("a_b:c_d:e"), "a_b:c_d_e");
}
