//! What holds of every flattened thread.

use crate::post::{
    chain, depth, entrance_of, flatten_outcome, flattened, lemma_chain_ends_in_leaf, post_text,
    real_post, recovered, root_of, top_of, FlattenError, PostData, ThreadNode,
};
use crate::prompt::{index_of_position, post_at_position};
use vstd::prelude::*;

verus! {

/// The node `steps` replies above `node`, if the thread reaches that far.
pub open spec fn ancestor(node: ThreadNode, steps: nat) -> Option<ThreadNode>
    decreases steps,
{
    if steps == 0 {
        Some(node)
    } else {
        match node.parent {
            Some(parent) => ancestor(*parent, (steps - 1) as nat),
            None => None,
        }
    }
}

/// Every post from `node` up to the top of its thread has text.
pub open spec fn all_have_text(node: ThreadNode) -> bool
    decreases node,
{
    &&& post_text(node.post).len() > 0
    &&& match node.parent {
        Some(parent) => all_have_text(*parent),
        None => true,
    }
}

/// The chain never holds more posts than the thread has, and holds them all
/// where every post has text; its first is then the post at the top.
pub proof fn lemma_chain_length(node: ThreadNode)
    ensures
        chain(node).len() <= depth(node),
        all_have_text(node) ==> chain(node).len() == depth(node) && chain(node)[0] == real_post(
            top_of(node).post,
        ),
    decreases node,
{
    match node.parent {
        Some(parent) => {
            lemma_chain_length(*parent);
        },
        None => {},
    }
}

/// A thread of one post that quotes nothing flattens to that post alone: it
/// is the root and the entrance, and its place is 1.
pub proof fn lemma_flatten_single_post(leaf: ThreadNode)
    requires
        leaf.parent is None,
        leaf.post.embed is None,
        post_text(leaf.post).len() > 0,
    ensures
        flatten_outcome(leaf) == Ok::<(PostData, PostData, Seq<PostData>), FlattenError>(
            (
                PostData { idx: 1, ..real_post(leaf.post) },
                PostData { idx: 1, ..real_post(leaf.post) },
                seq![PostData { idx: 1, ..real_post(leaf.post) }],
            ),
        ),
{
    let only = PostData { idx: 1, ..real_post(leaf.post) };
    assert(recovered(leaf) + chain(leaf) =~= seq![real_post(leaf.post)]);
    assert(flattened(leaf) =~= seq![only]);
}

/// A chain of posts that all have text, under a top that quotes a post with
/// text, flattens to one post more than the chain has. The places run from 1
/// without a gap; the root is the post at the top, in the second place, not
/// the quoted one; the entrance is the leaf, in the last place.
pub proof fn lemma_flatten_with_quoted_post(leaf: ThreadNode)
    requires
        all_have_text(leaf),
        recovered(leaf).len() == 1,
        depth(leaf) < u32::MAX,
    ensures
        flatten_outcome(leaf) matches Ok((root, entrance, posts)) && {
            &&& posts.len() == depth(leaf) + 1
            &&& forall|i: int| 0 <= i < posts.len() ==> (#[trigger] posts[i]).idx == i + 1
            &&& posts[0] == PostData { idx: 1, ..recovered(leaf)[0] }
            &&& root == PostData { idx: 2, ..real_post(top_of(leaf).post) }
            &&& entrance == PostData { idx: (depth(leaf) + 1) as u32, ..real_post(leaf.post) }
        },
{
    lemma_chain_length(leaf);
    lemma_chain_ends_in_leaf(leaf);
}

/// Whatever the thread, the places of its flattened posts run from 1 without
/// a gap, in the order of the sequence.
pub proof fn lemma_places_count_from_one(leaf: ThreadNode)
    requires
        flattened(leaf).len() <= u32::MAX,
    ensures
        forall|i: int| 0 <= i < flattened(leaf).len() ==> (#[trigger] flattened(leaf)[i]).idx == i + 1,
{
}

/// No post of the chain is without text.
pub proof fn lemma_chain_posts_have_text(node: ThreadNode)
    ensures
        forall|i: int| 0 <= i < chain(node).len() ==> (#[trigger] chain(node)[i]).text.len() > 0,
    decreases node,
{
    match node.parent {
        Some(parent) => {
            lemma_chain_posts_have_text(*parent);
            assert forall|i: int| 0 <= i < chain(node).len() implies (#[trigger] chain(
                node,
            )[i]).text.len() > 0 by {
                if i < chain(*parent).len() {
                    assert(chain(node)[i] == chain(*parent)[i]);
                }
            }
        },
        None => {},
    }
}

/// A post with text is in the chain of every post below it, whatever lies
/// between them.
pub proof fn lemma_chain_holds_ancestor(node: ThreadNode, steps: nat)
    requires
        ancestor(node, steps) is Some,
        post_text(ancestor(node, steps)->0.post).len() > 0,
    ensures
        chain(node).contains(real_post(ancestor(node, steps)->0.post)),
    decreases steps,
{
    if steps == 0 {
        assert(chain(node).last() == real_post(node.post));
    } else {
        let parent = *node.parent->0;
        lemma_chain_holds_ancestor(parent, (steps - 1) as nat);
        let found = real_post(ancestor(node, steps)->0.post);
        let i = choose|i: int| 0 <= i < chain(parent).len() && chain(parent)[i] == found;
        assert(chain(node)[i] == found);
    }
}

/// Posts without text are left out of the flattened thread, and the walk
/// goes on past them: no flattened post is without text, and every post
/// with text above the leaf has a place.
pub proof fn lemma_flatten_skips_posts_without_text(leaf: ThreadNode, steps: nat)
    requires
        flattened(leaf).len() <= u32::MAX,
    ensures
        forall|i: int| 0 <= i < flattened(leaf).len() ==> (#[trigger] flattened(leaf)[i]).text.len() > 0,
        ancestor(leaf, steps) is Some && post_text(ancestor(leaf, steps)->0.post).len() > 0
            ==> exists|i: int|
            0 <= i < flattened(leaf).len() && #[trigger] flattened(leaf)[i] == (PostData {
                idx: (i + 1) as u32,
                ..real_post(ancestor(leaf, steps)->0.post)
            }),
{
    lemma_chain_posts_have_text(leaf);
    let quoted = recovered(leaf).len() as int;
    assert forall|i: int| 0 <= i < flattened(leaf).len() implies (#[trigger] flattened(
        leaf,
    )[i]).text.len() > 0 by {
        if i >= quoted {
            assert((recovered(leaf) + chain(leaf))[i] == chain(leaf)[i - quoted]);
        }
    }
    if ancestor(leaf, steps) is Some && post_text(ancestor(leaf, steps)->0.post).len() > 0 {
        let above = ancestor(leaf, steps)->0;
        lemma_chain_holds_ancestor(leaf, steps);
        let k = choose|k: int| 0 <= k < chain(leaf).len() && chain(leaf)[k] == real_post(above.post);
        assert((recovered(leaf) + chain(leaf))[quoted + k] == chain(leaf)[k]);
        assert(flattened(leaf)[quoted + k] == (PostData {
            idx: (quoted + k + 1) as u32,
            ..real_post(above.post)
        }));
    }
}

/// Where the places run from 1 without a gap, the search for a place from
/// an index before it ends at the post that has it.
pub proof fn lemma_index_of_place(posts: Seq<PostData>, place: u32, from: int)
    requires
        forall|i: int| 0 <= i < posts.len() ==> (#[trigger] posts[i]).idx == i + 1,
        0 <= from < place <= posts.len(),
    ensures
        index_of_position(posts, place, from) == place - 1,
    decreases place - from,
{
    if from < place - 1 {
        lemma_index_of_place(posts, place, from + 1);
    }
}

/// In a flattened thread each place from 1 to the number of posts finds one
/// post, the one that stands there; no other place finds any.
pub proof fn lemma_place_finds_its_post(leaf: ThreadNode, place: u32)
    requires
        flattened(leaf).len() <= u32::MAX,
    ensures
        post_at_position(flattened(leaf), place) == if 1 <= place <= flattened(leaf).len() {
            Some(flattened(leaf)[place - 1])
        } else {
            None
        },
{
    let posts = flattened(leaf);
    if 1 <= place <= posts.len() {
        lemma_index_of_place(posts, place, 0);
    } else if place != 0 {
        lemma_no_post_at_place(posts, place, 0);
    }
}

/// Where the places run from 1 without a gap, a place beyond the number of
/// posts is found nowhere.
pub proof fn lemma_no_post_at_place(posts: Seq<PostData>, place: u32, from: int)
    requires
        forall|i: int| 0 <= i < posts.len() ==> (#[trigger] posts[i]).idx == i + 1,
        0 <= from <= posts.len() < place,
    ensures
        index_of_position(posts, place, from) == posts.len(),
    decreases posts.len() - from,
{
    if from < posts.len() {
        lemma_no_post_at_place(posts, place, from + 1);
    }
}

/// The number of posts with text from `node` up to the top of its thread.
pub open spec fn with_text(node: ThreadNode) -> nat
    decreases node,
{
    let above = match node.parent {
        Some(parent) => with_text(*parent),
        None => 0,
    };
    if post_text(node.post).len() > 0 {
        above + 1
    } else {
        above
    }
}

/// The chain holds one post for each post with text, and no other.
pub proof fn lemma_chain_counts_posts_with_text(node: ThreadNode)
    ensures
        chain(node).len() == with_text(node),
    decreases node,
{
    match node.parent {
        Some(parent) => {
            lemma_chain_counts_posts_with_text(*parent);
        },
        None => {},
    }
}

/// The chain of a post above `node` is the beginning of the chain of
/// `node`: what lies below adds to its end only.
pub proof fn lemma_chain_of_ancestor(node: ThreadNode, steps: nat)
    requires
        ancestor(node, steps) is Some,
    ensures
        chain(ancestor(node, steps)->0).len() <= chain(node).len(),
        chain(node).subrange(0, chain(ancestor(node, steps)->0).len() as int) == chain(
            ancestor(node, steps)->0,
        ),
        steps > 0 && post_text(node.post).len() > 0 ==> chain(ancestor(node, steps)->0).len()
            < chain(node).len(),
    decreases steps,
{
    if steps == 0 {
        assert(chain(node).subrange(0, chain(node).len() as int) =~= chain(node));
    } else {
        let parent = *node.parent->0;
        lemma_chain_of_ancestor(parent, (steps - 1) as nat);
        let above = chain(ancestor(node, steps)->0);
        assert(chain(node).subrange(0, above.len() as int) =~= chain(parent).subrange(
            0,
            above.len() as int,
        ));
    }
}

/// Going up `near` steps and then `more` steps is going up `near + more`.
pub proof fn lemma_ancestor_of_ancestor(node: ThreadNode, near: nat, more: nat)
    requires
        ancestor(node, near) is Some,
    ensures
        ancestor(node, near + more) == ancestor(ancestor(node, near)->0, more),
    decreases near,
{
    if near > 0 {
        match node.parent {
            Some(parent) => {
                lemma_ancestor_of_ancestor(*parent, (near - 1) as nat, more);
            },
            None => {},
        }
    }
}

/// The place of a post with text: the number of posts with text from it up
/// to the top, after the quoted post where one is recovered. The flattened
/// thread holds the post there, with that place.
pub proof fn lemma_place_of_ancestor(leaf: ThreadNode, steps: nat)
    requires
        ancestor(leaf, steps) is Some,
        post_text(ancestor(leaf, steps)->0.post).len() > 0,
        flattened(leaf).len() <= u32::MAX,
    ensures
        ({
            let place = recovered(leaf).len() + chain(ancestor(leaf, steps)->0).len();
            &&& 1 <= place <= flattened(leaf).len()
            &&& flattened(leaf)[place - 1] == PostData {
                idx: place as u32,
                ..real_post(ancestor(leaf, steps)->0.post)
            }
        }),
{
    let above = ancestor(leaf, steps)->0;
    lemma_chain_of_ancestor(leaf, steps);
    let k = chain(above).len() - 1;
    assert(chain(above).last() == real_post(above.post));
    assert(chain(leaf).subrange(0, chain(above).len() as int)[k] == chain(leaf)[k]);
    assert((recovered(leaf) + chain(leaf))[recovered(leaf).len() + k] == chain(leaf)[k]);
}

/// The posts keep the order of the thread: of two posts with text, the one
/// nearer to the top has the lower place.
pub proof fn lemma_older_post_stands_first(leaf: ThreadNode, near: nat, far: nat)
    requires
        near < far,
        ancestor(leaf, far) is Some,
        ancestor(leaf, near) is Some,
        post_text(ancestor(leaf, near)->0.post).len() > 0,
    ensures
        recovered(leaf).len() + chain(ancestor(leaf, far)->0).len() < recovered(leaf).len()
            + chain(ancestor(leaf, near)->0).len(),
{
    lemma_ancestor_of_ancestor(leaf, near, (far - near) as nat);
    lemma_chain_of_ancestor(ancestor(leaf, near)->0, (far - near) as nat);
}

/// A leaf without text is passed over: the thread is that of the post it
/// answers, and the leaf is the entrance all the same, without a place.
pub proof fn lemma_flatten_past_leaf_without_text(leaf: ThreadNode)
    requires
        post_text(leaf.post).len() == 0,
        leaf.parent is Some,
        chain(*leaf.parent->0).len() > 0,
        flattened(leaf).len() <= u32::MAX,
    ensures
        flatten_outcome(leaf) == Ok::<(PostData, PostData, Seq<PostData>), FlattenError>(
            (root_of(*leaf.parent->0), real_post(leaf.post), flattened(*leaf.parent->0)),
        ),
        real_post(leaf.post).idx == 0,
{
    let parent = *leaf.parent->0;
    assert(chain(leaf) == chain(parent));
    assert(top_of(leaf) == top_of(parent));
    assert(entrance_of(leaf) == real_post(leaf.post));
}

/// A thread flattens wherever one of its posts has text, and only there,
/// as far as places can count.
pub proof fn lemma_flatten_succeeds(leaf: ThreadNode)
    requires
        flattened(leaf).len() <= u32::MAX,
    ensures
        flatten_outcome(leaf) is Ok <==> with_text(leaf) > 0,
        flatten_outcome(leaf) is Err ==> flatten_outcome(leaf) == Err::<
            (PostData, PostData, Seq<PostData>),
            FlattenError,
        >(FlattenError::NoText),
{
    lemma_chain_counts_posts_with_text(leaf);
}

/// The addresses of the posts from `leaf` up to the top differ from one
/// another, and from the address of the post that the top quotes.
pub open spec fn addresses_differ(leaf: ThreadNode) -> bool {
    &&& forall|a: nat, b: nat|
        a != b && (#[trigger] ancestor(leaf, a)) is Some && (#[trigger] ancestor(leaf, b)) is Some
            ==> ancestor(leaf, a)->0.post.uri@ != ancestor(leaf, b)->0.post.uri@
    &&& forall|a: nat|
        (#[trigger] ancestor(leaf, a)) is Some && top_of(leaf).post.embed is Some ==> ancestor(
            leaf,
            a,
        )->0.post.uri@ != top_of(leaf).post.embed->0.uri@
}

/// Every post of the chain is the post of a node with text, `steps` replies
/// above `node`.
pub proof fn lemma_chain_post_has_node(node: ThreadNode, k: int) -> (steps: nat)
    requires
        0 <= k < chain(node).len(),
    ensures
        ancestor(node, steps) is Some,
        post_text(ancestor(node, steps)->0.post).len() > 0,
        chain(node)[k] == real_post(ancestor(node, steps)->0.post),
    decreases node,
{
    let above = match node.parent {
        Some(parent) => chain(*parent),
        None => Seq::empty(),
    };
    if k < above.len() {
        let parent = *node.parent->0;
        let up = lemma_chain_post_has_node(parent, k);
        assert(chain(node)[k] == chain(parent)[k]);
        up + 1
    } else {
        0
    }
}

/// Where the addresses differ, the address of a post without text occurs
/// nowhere in the flattened thread.
pub proof fn lemma_skipped_address_occurs_nowhere(leaf: ThreadNode, steps: nat)
    requires
        addresses_differ(leaf),
        ancestor(leaf, steps) is Some,
        post_text(ancestor(leaf, steps)->0.post).len() == 0,
    ensures
        forall|i: int|
            0 <= i < flattened(leaf).len() ==> (#[trigger] flattened(leaf)[i]).uri != ancestor(
                leaf,
                steps,
            )->0.post.uri@,
{
    let skipped = ancestor(leaf, steps)->0;
    let quoted = recovered(leaf).len() as int;
    assert forall|i: int| 0 <= i < flattened(leaf).len() implies (#[trigger] flattened(
        leaf,
    )[i]).uri != skipped.post.uri@ by {
        if i < quoted {
            assert((recovered(leaf) + chain(leaf))[i] == recovered(leaf)[0]);
        } else {
            assert((recovered(leaf) + chain(leaf))[i] == chain(leaf)[i - quoted]);
            let kept = lemma_chain_post_has_node(leaf, i - quoted);
            assert(kept != steps);
        }
    }
}

/// Where the addresses differ, the root is not the quoted post: its address
/// is that of a post of the chain, and the quoted post stands before it.
pub proof fn lemma_root_is_not_the_quoted_post(leaf: ThreadNode)
    requires
        addresses_differ(leaf),
        chain(leaf).len() > 0,
        recovered(leaf).len() == 1,
    ensures
        root_of(leaf) == flattened(leaf)[1],
        root_of(leaf).uri != flattened(leaf)[0].uri,
{
    let kept = lemma_chain_post_has_node(leaf, 0);
    assert((recovered(leaf) + chain(leaf))[0] == recovered(leaf)[0]);
    assert((recovered(leaf) + chain(leaf))[1] == chain(leaf)[0]);
}

} // verus!
