//! What is asked of the completion service, and what is made of its answer.

use crate::post::{post_views, Post, PostData};
use crate::text::{decimal, push_decimal, replace, replace_all, trim, trimmed};
use crate::util::{find_and_parse_first_integer, first_integer};
use std::collections::VecDeque;
use vstd::prelude::*;
use vstd::string::StringExecFns;

verus! {

/// The line that stands for one post: its place, a full-width colon, and its
/// text with each line break written as a backslash and an `n`.
pub open spec fn prompt_line(post: PostData) -> Seq<char> {
    decimal(post.idx as nat) + "："@ + replace_all(post.text, "\n"@, "\\n"@) + "\n"@
}

/// The lines of `posts`, in order.
pub open spec fn prompt_lines(posts: Seq<PostData>) -> Seq<char>
    decreases posts.len(),
{
    if posts.len() == 0 {
        Seq::empty()
    } else {
        prompt_lines(posts.drop_last()) + prompt_line(posts.last())
    }
}

/// The prompt for `posts`: their lines inside a fenced block.
pub open spec fn prompt_of(posts: Seq<PostData>) -> Seq<char> {
    "```\n"@ + prompt_lines(posts) + "```\n"@
}

/// Renders the thread as the user message of the request.
pub fn generate_prompt(thread: &VecDeque<Post>) -> (r: String)
    ensures
        r@ == prompt_of(post_views(thread@)),
{
    let mut prompt = String::new();
    prompt.append("```\n");
    let mut i: usize = 0;
    while i < thread.len()
        invariant
            i <= thread.len(),
            prompt@ == "```\n"@ + prompt_lines(post_views(thread@).subrange(0, i as int)),
        decreases thread.len() - i,
    {
        let ghost before = prompt@;
        let p = &thread[i];
        push_decimal(&mut prompt, p.idx);
        prompt.append("：");
        prompt.append(replace(p.text.as_str(), "\n", "\\n").as_str());
        prompt.append("\n");
        proof {
            let done = post_views(thread@).subrange(0, i + 1);
            assert(done.drop_last() =~= post_views(thread@).subrange(0, i as int));
            assert(done.last() == p@);
            assert(prompt@ =~= before + prompt_line(p@));
            assert(prompt@ =~= "```\n"@ + prompt_lines(done));
        }
        i = i + 1;
    }
    assert(post_views(thread@).subrange(0, i as int) =~= post_views(thread@));
    prompt.append("```\n");
    prompt
}

/// The first index at or after `i` whose post has the place `idx`, or the
/// length of `posts` where none has.
pub open spec fn index_of_position(posts: Seq<PostData>, idx: u32, i: int) -> int
    decreases posts.len() - i,
{
    if 0 <= i < posts.len() && posts[i].idx != idx {
        index_of_position(posts, idx, i + 1)
    } else {
        i
    }
}

/// The first post of `posts` with the place `idx`. No post has the place 0.
pub open spec fn post_at_position(posts: Seq<PostData>, idx: u32) -> Option<PostData> {
    let i = index_of_position(posts, idx, 0);
    if idx != 0 && 0 <= i < posts.len() {
        Some(posts[i])
    } else {
        None
    }
}

/// The post that an answer of the completion service names: the one at the
/// place that the first number in the answer gives.
pub open spec fn sidetracker_of(posts: Seq<PostData>, answer: Seq<char>) -> Option<PostData> {
    match first_integer(trimmed(answer)) {
        Some(idx) => post_at_position(posts, idx),
        None => None,
    }
}

/// The first post of the thread with the place `idx`, if `idx` is a place
/// and a post has it.
pub fn find_by_position(thread: &VecDeque<Post>, idx: u32) -> (r: Option<Post>)
    ensures
        match r {
            Some(post) => post_at_position(post_views(thread@), idx) == Some(post@),
            None => post_at_position(post_views(thread@), idx) is None,
        },
{
    if idx == 0 {
        return None;
    }
    let mut i: usize = 0;
    while i < thread.len()
        invariant
            idx != 0,
            i <= thread.len(),
            index_of_position(post_views(thread@), idx, i as int) == index_of_position(
                post_views(thread@),
                idx,
                0,
            ),
        decreases thread.len() - i,
    {
        if thread[i].idx == idx {
            assert(post_views(thread@)[i as int] == thread@[i as int]@);
            assert(index_of_position(post_views(thread@), idx, i as int) == i);
            return Some(thread[i].clone());
        }
        assert(post_views(thread@)[i as int] == thread@[i as int]@);
        i = i + 1;
    }
    None
}

/// Reads the answer of the completion service and returns the post that it
/// names. An answer without a number, with the number 0, with a number too
/// large to read or with one that is no place in the thread names none.
pub fn locate_sidetracker(thread: &VecDeque<Post>, answer: &str) -> (r: Option<Post>)
    ensures
        match r {
            Some(post) => sidetracker_of(post_views(thread@), answer@) == Some(post@),
            None => sidetracker_of(post_views(thread@), answer@) is None,
        },
{
    match find_and_parse_first_integer(trim(answer)) {
        Some(idx) => find_by_position(thread, idx),
        None => None,
    }
}

} // verus!
