//! The reply that names the post which led a thread astray.

use crate::post::{app_uri_of, locator_of_url, AddressError, LocatorView, Post, PostData};
use crate::text::{byte_len, lemma_encode_utf8_concat, utf8_len};
use vstd::prelude::*;
use vstd::string::StringExecFns;
use vstd::utf8::encode_utf8;

verus! {

/// A range of a text, counted in the bytes of its UTF-8 encoding.
#[derive(Debug, Clone, Copy, PartialEq, Eq, Structural)]
pub struct ByteSlice {
    pub byte_start: usize,
    pub byte_end: usize,
}

/// What a marked range of a reply's text means.
#[derive(Debug, Clone, PartialEq, Eq)]
pub enum Feature {
    /// The range names the account `did`.
    Mention { did: String },
    /// The range links to `uri`.
    Link { uri: String },
}

/// A marked range of a reply's text.
#[derive(Debug, Clone, PartialEq, Eq)]
pub struct Facet {
    pub features: Vec<Feature>,
    pub index: ByteSlice,
}

/// A post named by its content hash and its address.
#[derive(Debug, Clone, PartialEq, Eq)]
pub struct StrongRef {
    pub cid: String,
    pub uri: String,
}

/// Where a reply hangs in its thread.
#[derive(Debug, Clone, PartialEq, Eq)]
pub struct ReplyRef {
    /// The post that is answered.
    pub parent: StrongRef,
    /// The post that the thread starts with.
    pub root: StrongRef,
}

/// A reply, ready to be posted once it has a creation time.
#[derive(Debug, Clone, PartialEq, Eq)]
pub struct ReplyDocument {
    pub text: String,
    pub facets: Option<Vec<Facet>>,
    pub langs: Vec<String>,
    pub reply: ReplyRef,
}

/// What `ellipse::Ellipse::truncate_ellipse` makes of `text` and `len`:
/// `text` itself where it has no more than `len` extended grapheme
/// clusters; else the empty text where `len` is 0, and the first `len`
/// clusters followed by `...` where it is not.
pub uninterp spec fn ellipse_truncated(text: Seq<char>, len: nat) -> Seq<char>;

/// Shortens `text` to `len` extended grapheme clusters.
///
/// Trusted: `ellipse::Ellipse::truncate_ellipse` on a `&str` depends on
/// nothing but the text and the length, so its result is given the name
/// `ellipse_truncated`. It returns a text of no more than `len` clusters
/// as it is, and a cluster holds at least one character: so a text of no
/// more than `len` characters comes back unchanged.
#[verifier::external_body]
pub(crate) fn truncate_ellipse(text: &str, len: usize) -> (r: String)
    ensures
        r@ == ellipse_truncated(text@, len as nat),
        text@.len() <= len ==> r@ == text@,
{
    ellipse::Ellipse::truncate_ellipse(&text, len).into_owned()
}

/// How many grapheme clusters of the accused post's text a reply quotes.
pub const EXCERPT_LENGTH: usize = 20;

/// The words before the mention.
pub open spec fn accusation_head() -> Seq<char> {
    "最有可能的歪楼犯："@
}

/// The mention of the author with the handle `handle`.
pub open spec fn mention_text(handle: Seq<char>) -> Seq<char> {
    "@"@ + handle
}

/// The lines between the mention and the link: the end of the first line,
/// then the excerpt on a line of its own.
pub open spec fn evidence_text(excerpt: Seq<char>) -> Seq<char> {
    "\n"@ + "罪证："@ + excerpt + "\n"@
}

/// The text that blames the author with the handle `handle`, quotes
/// `excerpt` and ends in `link`.
pub open spec fn accusation_text(handle: Seq<char>, excerpt: Seq<char>, link: Seq<char>) -> Seq<
    char,
> {
    accusation_head() + mention_text(handle) + evidence_text(excerpt) + link
}

/// The range of an accusation that holds the mention.
pub open spec fn mention_span(handle: Seq<char>) -> (nat, nat) {
    (utf8_len(accusation_head()), utf8_len(accusation_head() + mention_text(handle)))
}

/// The range of an accusation that holds the link.
pub open spec fn link_span(handle: Seq<char>, excerpt: Seq<char>, link: Seq<char>) -> (nat, nat) {
    (
        utf8_len(accusation_head() + mention_text(handle) + evidence_text(excerpt)),
        utf8_len(accusation_text(handle, excerpt, link)),
    )
}

/// The web address of a post whose address can be read.
pub open spec fn share_uri_of(post: PostData) -> Seq<char> {
    app_uri_of(locator_of_url(post.uri)->Ok_0)
}

/// What a reply quotes of the blamed post's text.
pub open spec fn excerpt_of(post: PostData) -> Seq<char> {
    ellipse_truncated(post.text, EXCERPT_LENGTH as nat)
}

/// The text of the reply when nothing was found.
pub open spec fn apology_text() -> Seq<char> {
    "太好了，没有找到歪楼犯"@
}

/// The text of the reply.
pub open spec fn reply_text(accused: Option<PostData>) -> Seq<char> {
    match accused {
        Some(post) => accusation_text(post.handle, excerpt_of(post), share_uri_of(post)),
        None => apology_text(),
    }
}

/// `facet` marks the range `span`, with one feature.
pub open spec fn marks(facet: Facet, span: (nat, nat)) -> bool {
    &&& facet.index.byte_start == span.0
    &&& facet.index.byte_end == span.1
    &&& facet.features@.len() == 1
}

/// `feature` is a mention of the account `did`.
pub open spec fn is_mention_of(feature: Feature, did: Seq<char>) -> bool {
    feature matches Feature::Mention { did: d } && d@ == did
}

/// `feature` is a link to `uri`.
pub open spec fn is_link_to(feature: Feature, uri: Seq<char>) -> bool {
    feature matches Feature::Link { uri: u } && u@ == uri
}

/// `facets` are the two marked ranges of an accusation: the mention of the
/// account `did` first, then the link.
pub open spec fn are_accusation_facets(
    facets: Seq<Facet>,
    did: Seq<char>,
    handle: Seq<char>,
    excerpt: Seq<char>,
    link: Seq<char>,
) -> bool {
    &&& facets.len() == 2
    &&& marks(facets[0], mention_span(handle))
    &&& is_mention_of(facets[0].features@[0], did)
    &&& marks(facets[1], link_span(handle, excerpt, link))
    &&& is_link_to(facets[1].features@[0], link)
}

/// The bytes of `text` in the range `span` are the encoding of `part`.
pub open spec fn covers(text: Seq<char>, span: (nat, nat), part: Seq<char>) -> bool {
    &&& span.0 <= span.1 <= utf8_len(text)
    &&& encode_utf8(text).subrange(span.0 as int, span.1 as int) == encode_utf8(part)
}

/// The mention's range holds exactly the mention, and the link's range
/// exactly the link, whatever scripts the text around them is in and
/// however long the excerpt is.
pub proof fn lemma_spans_cover(handle: Seq<char>, excerpt: Seq<char>, link: Seq<char>)
    ensures
        covers(accusation_text(handle, excerpt, link), mention_span(handle), mention_text(handle)),
        covers(accusation_text(handle, excerpt, link), link_span(handle, excerpt, link), link),
{
    let head = accusation_head();
    let mention = mention_text(handle);
    let evidence = evidence_text(excerpt);
    lemma_encode_utf8_concat(head, mention);
    lemma_encode_utf8_concat(head + mention, evidence);
    lemma_encode_utf8_concat(head + mention + evidence, link);
    let text = encode_utf8(accusation_text(handle, excerpt, link));
    assert(text.subrange(mention_span(handle).0 as int, mention_span(handle).1 as int)
        =~= encode_utf8(mention));
    assert(text.subrange(
        link_span(handle, excerpt, link).0 as int,
        link_span(handle, excerpt, link).1 as int,
    ) =~= encode_utf8(link));
}

/// Composes the text that blames `accused`, with `excerpt` as the quote of
/// its text and `link` as its web address, and marks the mention and the
/// link. The two ranges are measured on the text as it is composed, in
/// bytes of UTF-8.
pub fn compose_accusation(accused: &Post, excerpt: &str, link: &str) -> (r: (String, Vec<Facet>))
    ensures
        r.0@ == accusation_text(accused.handle@, excerpt@, link@),
        are_accusation_facets(r.1@, accused.did@, accused.handle@, excerpt@, link@),
{
    let mut facets: Vec<Facet> = Vec::new();
    let mut text = "最有可能的歪楼犯：".to_owned();
    let mention_start = byte_len(text.as_str());
    text.append("@");
    text.append(accused.handle.as_str());
    let mention_end = byte_len(text.as_str());
    assert(text@ =~= accusation_head() + mention_text(accused.handle@));
    text.append("\n");
    let mut features: Vec<Feature> = Vec::new();
    features.push(Feature::Mention { did: accused.did.clone() });
    facets.push(
        Facet { features, index: ByteSlice { byte_start: mention_start, byte_end: mention_end } },
    );
    text.append("罪证：");
    text.append(excerpt);
    text.append("\n");
    assert(text@ =~= accusation_head() + mention_text(accused.handle@) + evidence_text(excerpt@));
    let link_start = byte_len(text.as_str());
    text.append(link);
    let link_end = byte_len(text.as_str());
    let mut features: Vec<Feature> = Vec::new();
    features.push(Feature::Link { uri: link.to_owned() });
    facets.push(
        Facet { features, index: ByteSlice { byte_start: link_start, byte_end: link_end } },
    );
    (text, facets)
}

/// The first language that a reply is tagged with.
pub open spec fn primary_language() -> Seq<char> {
    "zh-CN"@
}

/// The second language that a reply is tagged with.
pub open spec fn secondary_language() -> Seq<char> {
    "en-US"@
}

/// `reference` names `post` by its content hash and its address.
pub open spec fn refers_to(reference: StrongRef, post: PostData) -> bool {
    reference.cid@ == post.cid && reference.uri@ == post.uri
}

/// What a reply is composed from: the post that is blamed, if one was found,
/// and the two anchors of the thread.
#[derive(Debug, PartialEq, Eq)]
pub struct SideTracker {
    /// The sidetracking post.
    post: Option<Post>,
    /// The root post of the thread.
    root: Post,
    /// The leaf post from where this checking is triggered.
    entrance: Post,
}

/// The mathematical content of a [`SideTracker`].
pub ghost struct SideTrackerView {
    pub post: Option<PostData>,
    pub root: PostData,
    pub entrance: PostData,
}

impl View for SideTracker {
    type V = SideTrackerView;

    closed spec fn view(&self) -> SideTrackerView {
        SideTrackerView {
            post: match self.post {
                Some(post) => Some(post@),
                None => None,
            },
            root: self.root@,
            entrance: self.entrance@,
        }
    }
}

/// `doc` is the reply composed from `from`: the text, the two marked ranges
/// where a post is blamed and none where none is, the two language tags, and
/// the entrance as parent and the root as root of the thread.
pub open spec fn is_reply_of(doc: ReplyDocument, from: SideTrackerView) -> bool {
    &&& doc.text@ == reply_text(from.post)
    &&& match from.post {
        Some(accused) => doc.facets matches Some(facets) && are_accusation_facets(
            facets@,
            accused.did,
            accused.handle,
            excerpt_of(accused),
            share_uri_of(accused),
        ),
        None => doc.facets is None,
    }
    &&& doc.langs@.len() == 2
    &&& doc.langs@[0]@ == primary_language()
    &&& doc.langs@[1]@ == secondary_language()
    &&& refers_to(doc.reply.parent, from.entrance)
    &&& refers_to(doc.reply.root, from.root)
}

/// The excerpt of a blamed post's text is the text itself where the text
/// has no more characters than an excerpt has clusters.
pub open spec fn quotes_short_text_whole(from: SideTrackerView) -> bool {
    match from.post {
        Some(accused) => accused.text.len() <= EXCERPT_LENGTH ==> excerpt_of(accused)
            == accused.text,
        None => true,
    }
}

impl StrongRef {
    /// The reference that names `post`.
    pub fn from_post(post: &Post) -> (r: Self)
        ensures
            refers_to(r, post@),
    {
        StrongRef { cid: post.cid.clone(), uri: post.uri.clone() }
    }
}

impl ReplyRef {
    /// The place of a reply to the thread that `from` stands for: under the
    /// entrance, in the thread of the root.
    pub fn from_side_tracker(from: &SideTracker) -> (r: Self)
        ensures
            refers_to(r.parent, from@.entrance),
            refers_to(r.root, from@.root),
    {
        ReplyRef {
            parent: StrongRef::from_post(&from.entrance),
            root: StrongRef::from_post(&from.root),
        }
    }
}

impl SideTracker {
    /// What a reply is composed from: the blamed post if one was found, the
    /// root of the thread and its entrance.
    pub fn new(post: Option<Post>, root: Post, entrance: Post) -> (r: SideTracker)
        ensures
            r@ == (SideTrackerView {
                post: match post {
                    Some(p) => Some(p@),
                    None => None,
                },
                root: root@,
                entrance: entrance@,
            }),
    {
        SideTracker { post, root, entrance }
    }

    /// Whether the blamed post, if there is one, has an address that can be
    /// read, so that the reply can link to it.
    pub open spec fn can_link(&self) -> bool {
        self@.post matches Some(accused) ==> locator_of_url(accused.uri) is Ok
    }

    /// Composes the reply. The two ranges are measured on the text as it is
    /// composed, in bytes of UTF-8.
    pub fn build_reply(&self) -> (r: ReplyDocument)
        requires
            self.can_link(),
        ensures
            is_reply_of(r, self@),
            quotes_short_text_whole(self@),
    {
        let (text, facets) = match &self.post {
            Some(p) => {
                let excerpt = truncate_ellipse(p.text.as_str(), EXCERPT_LENGTH);
                let link = p.get_share_uri();
                let (text, facets) = compose_accusation(p, excerpt.as_str(), link.as_str());
                (text, Some(facets))
            },
            None => ("太好了，没有找到歪楼犯".to_owned(), None),
        };
        let mut langs: Vec<String> = Vec::new();
        langs.push("zh-CN".to_owned());
        langs.push("en-US".to_owned());
        ReplyDocument {
            text,
            facets,
            langs,
            reply: ReplyRef::from_side_tracker(self),
        }
    }

    /// Composes the reply where the blamed post's address can be read, and
    /// says why it cannot where it is not.
    pub fn try_build_reply(&self) -> (r: Result<ReplyDocument, AddressError>)
        ensures
            match r {
                Ok(doc) => self.can_link() && is_reply_of(doc, self@) && quotes_short_text_whole(
                    self@,
                ),
                Err(e) => self@.post matches Some(accused) && locator_of_url(accused.uri) == Err::<
                    LocatorView,
                    AddressError,
                >(e),
            },
    {
        match &self.post {
            Some(p) => match p.share_uri() {
                Ok(_) => Ok(self.build_reply()),
                Err(e) => Err(e),
            },
            None => Ok(self.build_reply()),
        }
    }
}

} // verus!
