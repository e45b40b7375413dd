//! Posts, their addresses, and the thread that a chain of replies makes.

use crate::escape::{
    as_written, authority_index, authority_start, behind, escape_address, escaped_address,
    index_behind, path_index, path_start, restore_piece,
};
use crate::text::{chars_of, trim, trimmed};
use std::collections::VecDeque;
use vstd::pervasive::unreached;
use vstd::prelude::*;
use vstd::string::StringExecFns;

verus! {

/// Why an address was turned down.
#[derive(Debug, Clone, Copy, PartialEq, Eq, Structural)]
pub enum AddressError {
    /// The text is no URL, has a scheme other than `at`, `http` or `https`,
    /// or has the wrong number of path segments for its scheme.
    InvalidAddress,
}

/// What a URL parser makes of a text: the scheme, the host if there is one,
/// and the path cut at its slashes, unless the URL has no such path.
#[derive(Debug, Clone, PartialEq, Eq)]
pub struct UrlParts {
    pub scheme: String,
    pub host: Option<String>,
    pub path_segments: Option<Vec<String>>,
}

/// The mathematical content of [`UrlParts`].
pub ghost struct UrlPartsView {
    pub scheme: Seq<char>,
    pub host: Option<Seq<char>>,
    pub path_segments: Option<Seq<Seq<char>>>,
}

impl View for UrlParts {
    type V = UrlPartsView;

    open spec fn view(&self) -> UrlPartsView {
        UrlPartsView {
            scheme: self.scheme@,
            host: match self.host {
                Some(h) => Some(h@),
                None => None,
            },
            path_segments: match self.path_segments {
                Some(v) => Some(v.deep_view()),
                None => None,
            },
        }
    }
}

/// What `url::Url::parse` makes of `input`: `None` where it fails, else the
/// scheme, host and path segments of the URL it returns.
pub uninterp spec fn parsed_url(input: Seq<char>) -> Option<UrlPartsView>;

/// Parses `input` as an absolute URL and takes the result apart.
///
/// Trusted: `url::Url::parse` depends on nothing but its input, so its
/// outcome is given the name `parsed_url`; the parts are those that
/// `Url::scheme`, `Url::host_str` and `Url::path_segments` return.
#[verifier::external_body]
pub(crate) fn parse_url(input: &str) -> (r: Result<UrlParts, url::ParseError>)
    ensures
        match r {
            Ok(parts) => parsed_url(input@) == Some(parts@),
            Err(_) => parsed_url(input@) is None,
        },
{
    let url = url::Url::parse(input)?;
    Ok(
        UrlParts {
            scheme: url.scheme().to_string(),
            host: url.host_str().map(|h| h.to_string()),
            path_segments: url.path_segments().map(|it| it.map(|s| s.to_string()).collect()),
        },
    )
}

/// The error of `url::Url::parse`.
///
/// Trusted: declares `url::ParseError` as a type whose values are carried
/// through and never looked into.
#[verifier::external_type_specification]
#[verifier::external_body]
pub struct ExUrlParseError(url::ParseError);

/// The identity of a post: the repository that holds it and its record key
/// there.
#[derive(Debug, Clone, PartialEq, Eq)]
pub struct PostLocator {
    repository: String,
    rkey: String,
}

/// The mathematical content of a [`PostLocator`].
pub ghost struct LocatorView {
    pub repository: Seq<char>,
    pub rkey: Seq<char>,
}

impl View for PostLocator {
    type V = LocatorView;

    closed spec fn view(&self) -> LocatorView {
        LocatorView { repository: self.repository@, rkey: self.rkey@ }
    }
}

/// The locator that the parts of a URL give for the address `url` that was
/// parsed. A native address has the repository as its host and two path
/// segments, the second of them the record key; a web address has four path
/// segments, the repository second and the record key last. The repository
/// and the record key are taken from the address as they were written,
/// where the parser read them there.
pub open spec fn locator_of_parts(parts: UrlPartsView, url: Seq<char>) -> Result<
    LocatorView,
    AddressError,
> {
    if parts.scheme == "at"@ {
        match (parts.path_segments, parts.host) {
            (Some(segments), Some(host)) if segments.len() == 2 => {
                let host_at = authority_start(url);
                let key_at = behind(url, behind(url, host_at, host.len()), segments[0].len());
                Ok(
                    LocatorView {
                        repository: as_written(url, host_at, host),
                        rkey: as_written(url, key_at, segments[1]),
                    },
                )
            },
            _ => Err(AddressError::InvalidAddress),
        }
    } else if parts.scheme == "http"@ || parts.scheme == "https"@ {
        match parts.path_segments {
            Some(segments) if segments.len() == 4 => {
                let repository_at = behind(url, path_start(url), segments[0].len());
                let key_at = behind(
                    url,
                    behind(url, repository_at, segments[1].len()),
                    segments[2].len(),
                );
                Ok(
                    LocatorView {
                        repository: as_written(url, repository_at, segments[1]),
                        rkey: as_written(url, key_at, segments[3]),
                    },
                )
            },
            _ => Err(AddressError::InvalidAddress),
        }
    } else {
        Err(AddressError::InvalidAddress)
    }
}

/// The locator that an address gives: the colons behind the scheme are
/// replaced before the URL parser reads the text, and the repository and
/// the record key are taken from the address as it was written.
pub open spec fn locator_of_url(url: Seq<char>) -> Result<LocatorView, AddressError> {
    match parsed_url(escaped_address(url)) {
        Some(parts) => locator_of_parts(parts, url),
        None => Err(AddressError::InvalidAddress),
    }
}

/// The native address of a locator.
pub open spec fn at_uri_of(loc: LocatorView) -> Seq<char> {
    "at://"@ + loc.repository + "/app.bsky.feed.post/"@ + loc.rkey
}

/// The web address of a locator.
pub open spec fn app_uri_of(loc: LocatorView) -> Seq<char> {
    "https://bsky.app/profile/"@ + loc.repository + "/post/"@ + loc.rkey
}

/// The view of a result of parsing.
pub open spec fn locator_result_view(r: Result<PostLocator, AddressError>) -> Result<
    LocatorView,
    AddressError,
> {
    match r {
        Ok(loc) => Ok(loc@),
        Err(e) => Err(e),
    }
}

impl PostLocator {
    /// The locator of the record `rkey` in `repository`.
    pub fn new(repository: &str, rkey: &str) -> (r: Self)
        ensures
            r@ == (LocatorView { repository: repository@, rkey: rkey@ }),
    {
        Self { repository: repository.to_owned(), rkey: rkey.to_owned() }
    }

    /// The locator that the parts of a parsed URL give; `url` is the
    /// address that was parsed, as it was written.
    pub fn from_parts(parts: &UrlParts, url: &str) -> (r: Result<Self, AddressError>)
        ensures
            locator_result_view(r) == locator_of_parts(parts@, url@),
    {
        let at = "at".to_owned();
        let http = "http".to_owned();
        let https = "https".to_owned();
        let v = chars_of(url);
        if parts.scheme == at {
            match (&parts.path_segments, &parts.host) {
                (Some(segments), Some(host)) => {
                    if segments.len() != 2 {
                        return Err(AddressError::InvalidAddress);
                    }
                    let host_at = authority_index(&v);
                    let collection_at = index_behind(&v, host_at, host.as_str().unicode_len());
                    let key_at = index_behind(
                        &v,
                        collection_at,
                        segments[0].as_str().unicode_len(),
                    );
                    Ok(
                        Self {
                            repository: restore_piece(&v, host_at, host.as_str()),
                            rkey: restore_piece(&v, key_at, segments[1].as_str()),
                        },
                    )
                },
                _ => Err(AddressError::InvalidAddress),
            }
        } else if parts.scheme == http || parts.scheme == https {
            match &parts.path_segments {
                Some(segments) => {
                    if segments.len() != 4 {
                        return Err(AddressError::InvalidAddress);
                    }
                    let first_at = path_index(&v);
                    let repository_at = index_behind(
                        &v,
                        first_at,
                        segments[0].as_str().unicode_len(),
                    );
                    let third_at = index_behind(
                        &v,
                        repository_at,
                        segments[1].as_str().unicode_len(),
                    );
                    let key_at = index_behind(&v, third_at, segments[2].as_str().unicode_len());
                    Ok(
                        Self {
                            repository: restore_piece(&v, repository_at, segments[1].as_str()),
                            rkey: restore_piece(&v, key_at, segments[3].as_str()),
                        },
                    )
                },
                None => Err(AddressError::InvalidAddress),
            }
        } else {
            Err(AddressError::InvalidAddress)
        }
    }

    /// Reads a native address (`at://repository/collection/key`) or a web
    /// address (`https://host/profile/repository/post/key`).
    pub fn from_url(url: &str) -> (r: Result<Self, AddressError>)
        ensures
            locator_result_view(r) == locator_of_url(url@),
    {
        let escaped = escape_address(url);
        match parse_url(escaped.as_str()) {
            Ok(parts) => Self::from_parts(&parts, url),
            Err(_) => Err(AddressError::InvalidAddress),
        }
    }

    /// The native address: `at://`, the repository, the collection of posts
    /// and the record key.
    pub fn at_uri(&self) -> (r: String)
        ensures
            r@ == at_uri_of(self@),
    {
        "at://".to_owned().concat(self.repository.as_str()).concat("/app.bsky.feed.post/").concat(
            self.rkey.as_str(),
        )
    }

    /// The web address, under the repository's profile.
    pub fn app_uri(&self) -> (r: String)
        ensures
            r@ == app_uri_of(self@),
    {
        "https://bsky.app/profile/".to_owned().concat(self.repository.as_str()).concat(
            "/post/",
        ).concat(self.rkey.as_str())
    }

    /// The account that holds the post.
    pub fn repository(&self) -> (r: &str)
        ensures
            r@ == self@.repository,
    {
        self.repository.as_str()
    }

    /// The key of the post's record in its repository.
    pub fn rkey(&self) -> (r: &str)
        ensures
            r@ == self@.rkey,
    {
        self.rkey.as_str()
    }
}

/// One message of a thread.
#[derive(Debug, PartialEq, Eq)]
pub struct Post {
    /// The hash of the stored record.
    pub cid: String,
    /// The stable identifier of the author's account.
    pub did: String,
    /// The author's handle when the thread was fetched.
    pub handle: String,
    /// The body; empty for a post without text.
    pub text: String,
    /// The native address of the post.
    pub uri: String,
    /// The place in the flattened thread, counted from 1; 0 until assigned.
    pub idx: u32,
}

/// The mathematical content of a [`Post`].
pub ghost struct PostData {
    pub cid: Seq<char>,
    pub did: Seq<char>,
    pub handle: Seq<char>,
    pub text: Seq<char>,
    pub uri: Seq<char>,
    pub idx: u32,
}

impl View for Post {
    type V = PostData;

    open spec fn view(&self) -> PostData {
        PostData {
            cid: self.cid@,
            did: self.did@,
            handle: self.handle@,
            text: self.text@,
            uri: self.uri@,
            idx: self.idx,
        }
    }
}

impl Clone for Post {
    fn clone(&self) -> (r: Self)
        ensures
            r@ == self@,
    {
        Post {
            cid: self.cid.clone(),
            did: self.did.clone(),
            handle: self.handle.clone(),
            text: self.text.clone(),
            uri: self.uri.clone(),
            idx: self.idx,
        }
    }
}

impl Post {
    /// A post with the given fields.
    pub fn new(cid: &str, did: &str, handle: &str, text: &str, uri: &str, idx: u32) -> (r: Self)
        ensures
            r@ == (PostData { cid: cid@, did: did@, handle: handle@, text: text@, uri: uri@, idx }),
    {
        Self {
            cid: cid.to_owned(),
            did: did.to_owned(),
            handle: handle.to_owned(),
            text: text.to_owned(),
            uri: uri.to_owned(),
            idx,
        }
    }

    /// Whether the post's address can be read, so that it has a web address.
    pub open spec fn has_share_uri(&self) -> bool {
        locator_of_url(self.uri@) is Ok
    }

    /// The web address under which the post can be shared.
    pub fn get_share_uri(&self) -> (r: String)
        requires
            self.has_share_uri(),
        ensures
            r@ == app_uri_of(locator_of_url(self.uri@)->Ok_0),
    {
        match PostLocator::from_url(self.uri.as_str()) {
            Ok(locator) => locator.app_uri(),
            Err(_) => unreached(),
        }
    }

    /// The web address under which the post can be shared, where its
    /// address can be read.
    pub fn share_uri(&self) -> (r: Result<String, AddressError>)
        ensures
            match r {
                Ok(uri) => self.has_share_uri() && uri@ == app_uri_of(
                    locator_of_url(self.uri@)->Ok_0,
                ),
                Err(e) => locator_of_url(self.uri@) == Err::<LocatorView, AddressError>(e),
            },
    {
        match PostLocator::from_url(self.uri.as_str()) {
            Ok(_) => Ok(self.get_share_uri()),
            Err(e) => Err(e),
        }
    }
}

/// A post that another post quotes, as the thread source gave it.
#[derive(Debug, Clone, PartialEq, Eq)]
pub struct EmbeddedRecord {
    pub cid: String,
    pub did: String,
    pub handle: String,
    /// The text of the quoted record; `None` where the record cannot be read
    /// as a post.
    pub record_text: Option<String>,
    pub uri: String,
}

/// A post as the thread source gave it.
#[derive(Debug, Clone, PartialEq, Eq)]
pub struct RemotePost {
    pub cid: String,
    pub did: String,
    pub handle: String,
    /// The text of the record; `None` where the record cannot be read as a
    /// post.
    pub record_text: Option<String>,
    pub uri: String,
    /// The post that this one quotes, if it quotes one.
    pub embed: Option<EmbeddedRecord>,
}

/// A post of a thread together with the chain of posts that it answers.
#[derive(Debug, PartialEq, Eq)]
pub struct ThreadNode {
    pub post: RemotePost,
    /// The post that this one answers; `None` at the top of the thread.
    pub parent: Option<Box<ThreadNode>>,
}

/// The text of a post: the text of its record without the white space at
/// its ends, or nothing where the record cannot be read.
pub open spec fn post_text(post: RemotePost) -> Seq<char> {
    match post.record_text {
        Some(text) => trimmed(text@),
        None => Seq::empty(),
    }
}

/// The post that a remote post gives, before it has a place.
pub open spec fn real_post(post: RemotePost) -> PostData {
    PostData {
        cid: post.cid@,
        did: post.did@,
        handle: post.handle@,
        text: post_text(post),
        uri: post.uri@,
        idx: 0,
    }
}

/// The post that a quoted record gives, its text without the white space at
/// its ends; none where nothing is quoted or the record cannot be read.
pub open spec fn embedded_post(embed: Option<EmbeddedRecord>) -> Option<PostData> {
    match embed {
        Some(record) => match record.record_text {
            Some(text) => Some(
                PostData {
                    cid: record.cid@,
                    did: record.did@,
                    handle: record.handle@,
                    text: trimmed(text@),
                    uri: record.uri@,
                    idx: 0,
                },
            ),
            None => None,
        },
        None => None,
    }
}

/// The text of a post, without the white space at its ends; empty where
/// the record cannot be read.
pub fn parse_post_text(post: &RemotePost) -> (r: String)
    ensures
        r@ == post_text(*post),
{
    match &post.record_text {
        Some(text) => trim(text.as_str()),
        None => String::new(),
    }
}

/// The native address of a post.
pub fn parse_post_uri(post: &RemotePost) -> (r: String)
    ensures
        r@ == post.uri@,
{
    post.uri.clone()
}

/// The post that `thread` answers, if it answers one.
pub fn get_parent(thread: &ThreadNode) -> (r: Option<&ThreadNode>)
    ensures
        match thread.parent {
            Some(parent) => r == Some(&*parent),
            None => r is None,
        },
{
    match &thread.parent {
        Some(parent) => Some(&**parent),
        None => None,
    }
}

/// The post that a quoted record gives, not yet placed and with its text
/// trimmed; none where nothing is quoted or the quoted record cannot be
/// read.
pub fn parse_embedded(embed: &Option<EmbeddedRecord>) -> (r: Option<Post>)
    ensures
        match r {
            Some(post) => embedded_post(*embed) == Some(post@),
            None => embedded_post(*embed) is None,
        },
{
    match embed {
        Some(record) => match &record.record_text {
            Some(text) => Some(
                Post::new(
                    record.cid.as_str(),
                    record.did.as_str(),
                    record.handle.as_str(),
                    trim(text.as_str()).as_str(),
                    record.uri.as_str(),
                    0,
                ),
            ),
            None => None,
        },
        None => None,
    }
}

/// The number of posts from `node` up to the top of its thread.
pub open spec fn depth(node: ThreadNode) -> nat
    decreases node,
{
    match node.parent {
        Some(parent) => 1 + depth(*parent),
        None => 1,
    }
}

/// The post at the top of the chain that `node` answers.
pub open spec fn top_of(node: ThreadNode) -> ThreadNode
    decreases node,
{
    match node.parent {
        Some(parent) => top_of(*parent),
        None => node,
    }
}

/// The posts with text from the top of the thread down to `node`, oldest
/// first, none of them with a place yet.
pub open spec fn chain(node: ThreadNode) -> Seq<PostData>
    decreases node,
{
    let above = match node.parent {
        Some(parent) => chain(*parent),
        None => Seq::empty(),
    };
    if post_text(node.post).len() > 0 {
        above.push(real_post(node.post))
    } else {
        above
    }
}

/// The post that the top of `node`'s thread quotes, where it quotes one
/// that has text: one post or none.
pub open spec fn recovered(node: ThreadNode) -> Seq<PostData> {
    match embedded_post(top_of(node).post.embed) {
        Some(post) => if post.text.len() > 0 {
            seq![post]
        } else {
            Seq::empty()
        },
        None => Seq::empty(),
    }
}

/// `posts` with the places 1, 2, 3, ... in order.
pub open spec fn numbered(posts: Seq<PostData>) -> Seq<PostData> {
    Seq::new(posts.len(), |i: int| PostData { idx: (i + 1) as u32, ..posts[i] })
}

/// The flattened thread that ends in `leaf`: the quoted post if one is
/// recovered, then the posts with text from the top down, numbered from 1.
pub open spec fn flattened(leaf: ThreadNode) -> Seq<PostData> {
    numbered(recovered(leaf) + chain(leaf))
}

/// The contents of a sequence of posts.
pub open spec fn post_views(posts: Seq<Post>) -> Seq<PostData> {
    Seq::new(posts.len(), |i: int| posts[i]@)
}

/// Why a thread could not be flattened.
#[derive(Debug, Clone, Copy, PartialEq, Eq, Structural)]
pub enum FlattenError {
    /// No post from the leaf up to the top has text, so the thread has no
    /// root.
    NoText,
    /// The thread has more posts than places can count.
    TooLong,
}

/// A thread as an ordered sequence, with its two anchors.
#[derive(Debug, Clone, PartialEq, Eq)]
pub struct FlattenedThread {
    /// The oldest real post with text. It is not the first of `posts` where
    /// the top of the thread quotes another post.
    pub root: Post,
    /// The post that the walk started from: the newest. Where it has no text
    /// it is not among `posts`, and its place is 0.
    pub entrance: Post,
    /// The posts of the thread, oldest first.
    pub posts: VecDeque<Post>,
}

/// The entrance of the thread that ends in `leaf`: the leaf's post, in the
/// last place where it has text, and without a place where it has none.
pub open spec fn entrance_of(leaf: ThreadNode) -> PostData {
    if post_text(leaf.post).len() > 0 {
        flattened(leaf).last()
    } else {
        real_post(leaf.post)
    }
}

/// The root of the thread that ends in `leaf`: the oldest real post with
/// text, which stands behind the quoted post where one is recovered.
pub open spec fn root_of(leaf: ThreadNode) -> PostData {
    flattened(leaf)[recovered(leaf).len() as int]
}

/// What flattening the thread that ends in `leaf` gives: the root, the
/// entrance and the posts, wherever a post of the chain has text.
pub open spec fn flatten_outcome(leaf: ThreadNode) -> Result<
    (PostData, PostData, Seq<PostData>),
    FlattenError,
> {
    if chain(leaf).len() == 0 {
        Err(FlattenError::NoText)
    } else if flattened(leaf).len() > u32::MAX {
        Err(FlattenError::TooLong)
    } else {
        Ok((root_of(leaf), entrance_of(leaf), flattened(leaf)))
    }
}

/// The chain of a thread with text at its leaf ends in the leaf's post.
pub proof fn lemma_chain_ends_in_leaf(leaf: ThreadNode)
    requires
        post_text(leaf.post).len() > 0,
    ensures
        chain(leaf).len() > 0,
        chain(leaf).last() == real_post(leaf.post),
{
}

impl FlattenedThread {
    /// Walks from `leaf` up to the top of its thread and lays the posts
    /// with text out in order, oldest first, numbered from 1. A post
    /// without text is passed over, the leaf too.
    pub fn flatten(leaf: &ThreadNode) -> (r: Result<Self, FlattenError>)
        ensures
            match r {
                Ok(thread) => flatten_outcome(*leaf) == Ok::<
                    (PostData, PostData, Seq<PostData>),
                    FlattenError,
                >((thread.root@, thread.entrance@, post_views(thread.posts@))),
                Err(e) => flatten_outcome(*leaf) == Err::<
                    (PostData, PostData, Seq<PostData>),
                    FlattenError,
                >(e),
            },
    {
        let mut found: VecDeque<Post> = VecDeque::new();
        let mut cur: &ThreadNode = leaf;
        loop
            invariant_except_break
                chain(*cur) + post_views(found@) =~= chain(*leaf),
            invariant
                top_of(*cur) == top_of(*leaf),
            ensures
                post_views(found@) =~= chain(*leaf),
                cur.parent is None,
            decreases depth(*cur),
        {
            let ghost before = found@;
            let text = parse_post_text(&cur.post);
            if !text.as_str().is_empty() {
                let post = Post::new(
                    cur.post.cid.as_str(),
                    cur.post.did.as_str(),
                    cur.post.handle.as_str(),
                    text.as_str(),
                    cur.post.uri.as_str(),
                    0,
                );
                found.push_front(post);
                assert(post_views(found@) =~= seq![real_post(cur.post)] + post_views(before));
            }
            match get_parent(cur) {
                Some(parent) => {
                    assert(chain(*parent) + post_views(found@) =~= chain(*cur) + post_views(
                        before,
                    ));
                    cur = parent;
                },
                None => {
                    assert(post_views(found@) =~= chain(*cur) + post_views(before));
                    break ;
                },
            }
        }
        if found.len() == 0 {
            return Err(FlattenError::NoText);
        }
        let mut quoted: usize = 0;
        match parse_embedded(&cur.post.embed) {
            Some(post) => {
                if !post.text.as_str().is_empty() {
                    found.push_front(post);
                    quoted = 1;
                }
            },
            None => {},
        }
        assert(quoted == recovered(*leaf).len());
        assert(post_views(found@) =~= recovered(*leaf) + chain(*leaf));
        if found.len() > 0xFFFF_FFFF {
            return Err(FlattenError::TooLong);
        }
        let mut posts: VecDeque<Post> = VecDeque::new();
        let mut idx: u32 = 1;
        let mut i: usize = 0;
        while i < found.len()
            invariant
                i <= found.len() <= 0xFFFF_FFFF,
                i < found.len() ==> idx == i + 1,
                posts@.len() == i,
                forall|k: int|
                    0 <= k < i ==> (#[trigger] posts@[k])@ == (PostData {
                        idx: (k + 1) as u32,
                        ..found@[k]@
                    }),
            decreases found.len() - i,
        {
            let mut post = found[i].clone();
            post.idx = idx;
            posts.push_back(post);
            i = i + 1;
            if i < found.len() {
                idx = idx + 1;
            }
        }
        assert(post_views(posts@) =~= flattened(*leaf));
        let root = posts[quoted].clone();
        let leaf_text = parse_post_text(&leaf.post);
        let entrance = if leaf_text.as_str().is_empty() {
            Post::new(
                leaf.post.cid.as_str(),
                leaf.post.did.as_str(),
                leaf.post.handle.as_str(),
                leaf_text.as_str(),
                leaf.post.uri.as_str(),
                0,
            )
        } else {
            proof {
                lemma_chain_ends_in_leaf(*leaf);
            }
            posts[posts.len() - 1].clone()
        };
        Ok(FlattenedThread { root, entrance, posts })
    }

    /// The posts of the thread, oldest first.
    pub fn to_posts(&self) -> (r: VecDeque<Post>)
        ensures
            post_views(r@) == post_views(self.posts@),
    {
        let mut out: VecDeque<Post> = VecDeque::new();
        let mut i: usize = 0;
        while i < self.posts.len()
            invariant
                i <= self.posts.len(),
                out@.len() == i,
                forall|k: int| 0 <= k < i ==> (#[trigger] out@[k])@ == self.posts@[k]@,
            decreases self.posts.len() - i,
        {
            out.push_back(self.posts[i].clone());
            i = i + 1;
        }
        assert(post_views(out@) =~= post_views(self.posts@));
        out
    }
}

} // verus!
