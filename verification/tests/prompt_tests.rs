use sidetracker::post::Post;
use sidetracker::prompt::{find_by_position, generate_prompt, locate_sidetracker};
use std::collections::VecDeque;

fn two_posts() -> VecDeque<Post> {
    let mut thread = VecDeque::new();
    thread.push_back(Post {
        cid: "bafyreihvgtbjqmyo2ocpfic3rgjtvepbopaaaaawcccccsxxxxxw3nnjly".to_string(),
        did: "did:plc:fkjudld5cgxxxxxxxxxxxxxx".to_string(),
        handle: "user-1".to_string(),
        idx: 1,
        text: "Hello".to_string(),
        uri: "at://uri1".to_string(),
    });
    thread.push_back(Post {
        cid: "bafyreihvgtbjqmyo2ocpfic3rgjtvepbopbbbbbwaaaaasyyyyyw3nnjly".to_string(),
        did: "did:plc:fkjudld5cgyyyyyyyyyyyyyy".to_string(),
        handle: "user-2".to_string(),
        idx: 2,
        text: "World".to_string(),
        uri: "at://uri2".to_string(),
    });
    thread
}

#[test]
fn test_generate_prompt() {
    let thread = two_posts();
    let prompt = generate_prompt(&thread);
    assert_eq!(prompt, "```\n1：Hello\n2：World\n```\n");
}

#[test]
fn test_generate_prompt_escapes_line_breaks() {
    let mut thread = two_posts();
    thread[0].text = "first\nsecond\n\nthird".to_string();
    thread[1].idx = 4294967295;
    let prompt = generate_prompt(&thread);
    assert_eq!(
        prompt,
        "```\n1：first\\nsecond\\n\\nthird\n4294967295：World\n```\n"
    );
}

#[test]
fn test_generate_prompt_of_empty_thread() {
    assert_eq!(generate_prompt(&VecDeque::new()), "```\n```\n");
}

#[test]
fn test_generate_prompt_writes_places_in_decimal() {
    let mut thread = VecDeque::new();
    for idx in [0, 9, 10, 99, 100, 1234567890] {
        thread.push_back(Post::new("c", "d", "h", "t", "u", idx));
    }
    assert_eq!(
        generate_prompt(&thread),
        "```\n0：t\n9：t\n10：t\n99：t\n100：t\n1234567890：t\n```\n"
    );
}

#[test]
fn test_locate_sidetracker() {
    let thread = two_posts();
    assert_eq!(locate_sidetracker(&thread, "0"), None);
    assert_eq!(locate_sidetracker(&thread, ""), None);
    assert_eq!(locate_sidetracker(&thread, "none of them"), None);
    assert_eq!(locate_sidetracker(&thread, "9994294967296"), None);
    assert_eq!(locate_sidetracker(&thread, "abc123def"), None);
    assert_eq!(locate_sidetracker(&thread, "3"), None);
    assert_eq!(
        locate_sidetracker(&thread, "  post 2 of 1\n"),
        Some(thread[1].clone())
    );
    assert_eq!(locate_sidetracker(&thread, "1"), Some(thread[0].clone()));
}

#[test]
fn test_find_by_position() {
    let mut thread = two_posts();
    assert_eq!(find_by_position(&thread, 2), Some(thread[1].clone()));
    assert_eq!(find_by_position(&thread, 7), None);
    thread[1].idx = 1;
    assert_eq!(find_by_position(&thread, 1), Some(thread[0].clone()));
    thread[0].idx = 0;
    assert_eq!(find_by_position(&thread, 0), None);
}
