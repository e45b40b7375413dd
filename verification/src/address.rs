//! What holds of the two written forms of an address, whatever the
//! repository and the record key.

use crate::escape::{
    as_written, authority_start, behind, escape_colons, escaped_address, first_index_of,
    holds_colon, lemma_escape_concat, lemma_escape_without_colon, lemma_first_index_at,
    path_start, scheme_end, stands_at,
};
use crate::post::{
    app_uri_of, at_uri_of, locator_of_parts, locator_of_url, parsed_url, AddressError,
    LocatorView, UrlPartsView,
};
use vstd::prelude::*;

verus! {

/// The scheme of a native address is not one of a web address.
proof fn lemma_schemes_differ()
    ensures
        "at"@ != "http"@,
        "at"@ != "https"@,
{
    reveal_strlit("at");
    reveal_strlit("http");
    reveal_strlit("https");
    assert("at"@.len() == 2);
    assert("http"@.len() == 4);
    assert("https"@.len() == 5);
}

/// The parts that a URL parser finds in the native address of `loc` when it
/// cuts the escaped address at its slashes: the scheme `at`, the
/// repository as the host, and the collection and the record key as the
/// path.
pub open spec fn reads_native(parts: UrlPartsView, loc: LocatorView) -> bool {
    &&& parts.scheme == "at"@
    &&& parts.host == Some(escape_colons(loc.repository))
    &&& parts.path_segments == Some(seq!["app.bsky.feed.post"@, escape_colons(loc.rkey)])
}

/// The parts that a URL parser finds in the web address of `loc` when it
/// cuts the escaped address at its slashes: the scheme `https` and the
/// four segments of the path.
pub open spec fn reads_web(parts: UrlPartsView, loc: LocatorView) -> bool {
    &&& parts.scheme == "https"@
    &&& parts.path_segments == Some(
        seq!["profile"@, escape_colons(loc.repository), "post"@, escape_colons(loc.rkey)],
    )
}

/// The native address, index by index: the scheme ends behind its third
/// character, the repository stands at the sixth, and the record key
/// twenty characters behind the repository.
proof fn lemma_native_address_layout(loc: LocatorView)
    ensures
        scheme_end(at_uri_of(loc)) == 3,
        at_uri_of(loc).len() == 25 + loc.repository.len() + loc.rkey.len(),
        at_uri_of(loc)[4] == '/',
        at_uri_of(loc)[24 + loc.repository.len() as int] == '/',
        at_uri_of(loc).subrange(5, 5 + loc.repository.len() as int) == loc.repository,
        at_uri_of(loc).subrange(
            25 + loc.repository.len() as int,
            25 + loc.repository.len() as int + loc.rkey.len() as int,
        ) == loc.rkey,
        "app.bsky.feed.post"@.len() == 18,
{
    reveal_strlit("at://");
    reveal_strlit("/app.bsky.feed.post/");
    reveal_strlit("app.bsky.feed.post");
    let url = at_uri_of(loc);
    let n = loc.repository.len() as int;
    assert(url[0] == 'a' && url[1] == 't' && url[2] == ':');
    lemma_first_index_at(url, ':', 0, 2);
    assert(url[4] == "at://"@[4]);
    assert(url[24 + n] == "/app.bsky.feed.post/"@[19]);
    assert(url.subrange(5, 5 + n) =~= loc.repository);
    assert(url.subrange(25 + n, 25 + n + loc.rkey.len()) =~= loc.rkey);
}

/// The web address, index by index: the scheme ends behind its sixth
/// character, the path begins with the slash at index 16, the repository
/// stands at index 25, and the record key six characters behind it.
proof fn lemma_web_address_layout(loc: LocatorView)
    ensures
        scheme_end(app_uri_of(loc)) == 6,
        path_start(app_uri_of(loc)) == Some(17int),
        app_uri_of(loc).len() == 31 + loc.repository.len() + loc.rkey.len(),
        app_uri_of(loc)[24] == '/',
        app_uri_of(loc)[30 + loc.repository.len() as int] == '/',
        app_uri_of(loc).subrange(25, 25 + loc.repository.len() as int) == loc.repository,
        app_uri_of(loc).subrange(
            31 + loc.repository.len() as int,
            31 + loc.repository.len() as int + loc.rkey.len() as int,
        ) == loc.rkey,
        "profile"@.len() == 7,
        "post"@.len() == 4,
{
    reveal_strlit("https://bsky.app/profile/");
    reveal_strlit("/post/");
    reveal_strlit("profile");
    reveal_strlit("post");
    let url = app_uri_of(loc);
    let front = "https://bsky.app/profile/"@;
    let n = loc.repository.len() as int;
    assert forall|j: int| 0 <= j < 25 implies url[j] == front[j] by {}
    assert(url[5] == ':');
    lemma_first_index_at(url, ':', 0, 5);
    assert(url[16] == '/');
    lemma_first_index_at(url, '/', 8, 16);
    assert(url[30 + n] == "/post/"@[5]);
    assert(url.subrange(25, 25 + n) =~= loc.repository);
    assert(url.subrange(31 + n, 31 + n + loc.rkey.len()) =~= loc.rkey);
}

/// An address that begins with `scheme`, a colon and `rest` is escaped by
/// escaping `rest`, where `scheme` holds no colon.
proof fn lemma_escaped_behind_scheme(scheme: Seq<char>, rest: Seq<char>)
    requires
        !holds_colon(scheme),
    ensures
        escaped_address(scheme + seq![':'] + rest) == scheme + seq![':'] + escape_colons(rest),
{
    let url = scheme + seq![':'] + rest;
    let k = scheme.len() as int;
    assert(url[k] == ':');
    assert forall|j: int| 0 <= j < k implies url[j] != ':' by {
        if url[j] == ':' {
            assert(scheme[j] == ':');
        }
    }
    lemma_first_index_at(url, ':', 0, k);
    assert(url.subrange(0, k + 1) =~= scheme + seq![':']);
    assert(url.subrange(k + 1, url.len() as int) =~= rest);
}

/// The texts around the repository and the record key in the two forms of
/// an address, taken apart at the colon of the scheme.
proof fn lemma_frames()
    ensures
        "at://"@ == "at"@ + seq![':'] + "//"@,
        "https://bsky.app/profile/"@ == "https"@ + seq![':'] + "//bsky.app/profile/"@,
        !holds_colon("at"@),
        !holds_colon("https"@),
        !holds_colon("//"@),
        !holds_colon("//bsky.app/profile/"@),
        !holds_colon("/app.bsky.feed.post/"@),
        !holds_colon("/post/"@),
{
    reveal_strlit("at://");
    reveal_strlit("at");
    reveal_strlit("//");
    reveal_strlit("https://bsky.app/profile/");
    reveal_strlit("https");
    reveal_strlit("//bsky.app/profile/");
    reveal_strlit("/app.bsky.feed.post/");
    reveal_strlit("/post/");
    assert("at://"@ =~= "at"@ + seq![':'] + "//"@);
    assert("https://bsky.app/profile/"@ =~= "https"@ + seq![':'] + "//bsky.app/profile/"@);
}

/// What the URL parser is given for the native address of `loc`: the
/// address with the repository and the record key escaped, and nothing
/// else changed.
pub proof fn lemma_escaped_native_address(loc: LocatorView)
    ensures
        escaped_address(at_uri_of(loc)) == "at://"@ + escape_colons(loc.repository)
            + "/app.bsky.feed.post/"@ + escape_colons(loc.rkey),
{
    lemma_frames();
    let middle = "/app.bsky.feed.post/"@;
    let rest = "//"@ + loc.repository + middle + loc.rkey;
    assert(at_uri_of(loc) =~= "at"@ + seq![':'] + rest);
    lemma_escaped_behind_scheme("at"@, rest);
    lemma_escape_concat("//"@ + loc.repository + middle, loc.rkey);
    lemma_escape_concat("//"@ + loc.repository, middle);
    lemma_escape_concat("//"@, loc.repository);
    lemma_escape_without_colon("//"@);
    lemma_escape_without_colon(middle);
    assert("at"@ + seq![':'] + ("//"@ + escape_colons(loc.repository) + middle + escape_colons(
        loc.rkey,
    )) =~= "at://"@ + escape_colons(loc.repository) + middle + escape_colons(loc.rkey));
}

/// What the URL parser is given for the web address of `loc`: the address
/// with the repository and the record key escaped, and nothing else
/// changed.
pub proof fn lemma_escaped_web_address(loc: LocatorView)
    ensures
        escaped_address(app_uri_of(loc)) == "https://bsky.app/profile/"@ + escape_colons(
            loc.repository,
        ) + "/post/"@ + escape_colons(loc.rkey),
{
    lemma_frames();
    let front = "//bsky.app/profile/"@;
    let middle = "/post/"@;
    let rest = front + loc.repository + middle + loc.rkey;
    assert(app_uri_of(loc) =~= "https"@ + seq![':'] + rest);
    lemma_escaped_behind_scheme("https"@, rest);
    lemma_escape_concat(front + loc.repository + middle, loc.rkey);
    lemma_escape_concat(front + loc.repository, middle);
    lemma_escape_concat(front, loc.repository);
    lemma_escape_without_colon(front);
    lemma_escape_without_colon(middle);
    assert("https"@ + seq![':'] + (front + escape_colons(loc.repository) + middle + escape_colons(
        loc.rkey,
    )) =~= "https://bsky.app/profile/"@ + escape_colons(loc.repository) + middle + escape_colons(
        loc.rkey,
    ));
}

/// Reading a native address gives the locator back, whatever the
/// repository and the record key hold: where a URL parser cuts the escaped
/// native address of `loc` at its slashes, the locator read from it is
/// `loc`, every colon and every underscore in its place. Where `parts` is
/// what the parser makes of that address, this is what reading the address
/// gives.
pub proof fn lemma_native_address_round_trip(loc: LocatorView, parts: UrlPartsView)
    requires
        reads_native(parts, loc),
    ensures
        locator_of_parts(parts, at_uri_of(loc)) == Ok::<LocatorView, AddressError>(loc),
        parsed_url(escaped_address(at_uri_of(loc))) == Some(parts) ==> locator_of_url(
            at_uri_of(loc),
        ) == Ok::<LocatorView, AddressError>(loc),
{
    lemma_native_address_layout(loc);
    let url = at_uri_of(loc);
    let n = loc.repository.len() as int;
    let host = escape_colons(loc.repository);
    let key = escape_colons(loc.rkey);
    assert(authority_start(url) == Some(5int));
    assert(stands_at(url, 5, host));
    assert(behind(url, Some(5int), host.len()) == Some(6 + n));
    assert(behind(url, Some(6 + n), 18) == Some(25 + n));
    assert(stands_at(url, 25 + n, key));
    assert(as_written(url, Some(5int), host) == loc.repository);
    assert(as_written(url, Some(25 + n), key) == loc.rkey);
}

/// Reading a web address gives the locator back, whatever the repository
/// and the record key hold: where a URL parser cuts the escaped web address
/// of `loc` at its slashes, the locator read from it is `loc`. Where
/// `parts` is what the parser makes of that address, this is what reading
/// the address gives.
pub proof fn lemma_web_address_round_trip(loc: LocatorView, parts: UrlPartsView)
    requires
        reads_web(parts, loc),
    ensures
        locator_of_parts(parts, app_uri_of(loc)) == Ok::<LocatorView, AddressError>(loc),
        parsed_url(escaped_address(app_uri_of(loc))) == Some(parts) ==> locator_of_url(
            app_uri_of(loc),
        ) == Ok::<LocatorView, AddressError>(loc),
{
    lemma_schemes_differ();
    lemma_web_address_layout(loc);
    let url = app_uri_of(loc);
    let n = loc.repository.len() as int;
    let repository = escape_colons(loc.repository);
    let key = escape_colons(loc.rkey);
    assert(behind(url, Some(17int), 7) == Some(25int));
    assert(stands_at(url, 25, repository));
    assert(behind(url, Some(25int), repository.len()) == Some(26 + n));
    assert(behind(url, Some(26 + n), 4) == Some(31 + n));
    assert(stands_at(url, 31 + n, key));
    assert(as_written(url, Some(25int), repository) == loc.repository);
    assert(as_written(url, Some(31 + n), key) == loc.rkey);
}

/// The two forms of an address agree: where a URL parser cuts the escaped
/// native and the escaped web address of `loc` at their slashes, the
/// locators read from the two are one, namely `loc`, and so the addresses
/// that they render are the two that were read.
pub proof fn lemma_address_forms_agree(
    loc: LocatorView,
    native: UrlPartsView,
    web: UrlPartsView,
)
    requires
        reads_native(native, loc),
        reads_web(web, loc),
    ensures
        locator_of_parts(native, at_uri_of(loc)) == locator_of_parts(web, app_uri_of(loc)),
        locator_of_parts(native, at_uri_of(loc)) == Ok::<LocatorView, AddressError>(loc),
        parsed_url(escaped_address(at_uri_of(loc))) == Some(native) && parsed_url(
            escaped_address(app_uri_of(loc)),
        ) == Some(web) ==> {
            &&& locator_of_url(at_uri_of(loc)) == locator_of_url(app_uri_of(loc))
            &&& locator_of_url(at_uri_of(loc)) == Ok::<LocatorView, AddressError>(loc)
            &&& app_uri_of(locator_of_url(at_uri_of(loc))->Ok_0) == app_uri_of(loc)
            &&& app_uri_of(locator_of_url(app_uri_of(loc))->Ok_0) == app_uri_of(loc)
            &&& at_uri_of(locator_of_url(at_uri_of(loc))->Ok_0) == at_uri_of(loc)
            &&& at_uri_of(locator_of_url(app_uri_of(loc))->Ok_0) == at_uri_of(loc)
        },
{
    lemma_native_address_round_trip(loc, native);
    lemma_web_address_round_trip(loc, web);
}

} // verus!
