//! From the resource URL of a repository to its owner and name.
//!
//! The URL of a repository on the API has the shape
//! `https://api.<host>/repos/<owner>/<repo>`, and more may follow the name of
//! the repository after a `/`, `?` or `#`. What stands between `https://` and
//! the path is the host and nothing else: a URL that names a user before an
//! `@` has its host behind it, and is not of this shape.

use vstd::prelude::*;
use vstd::string::{StrSliceExecFns, StringExecFns};

verus! {

/// The characters that end a name inside a URL.
pub open spec fn is_delimiter(c: char) -> bool {
    c == '/' || c == '?' || c == '#'
}

/// A name: at least one character, none of them a delimiter.
pub open spec fn is_name(text: Seq<char>) -> bool {
    text.len() > 0 && forall|i: int| 0 <= i < text.len() ==> !is_delimiter(#[trigger] text[i])
}

/// The characters that no host holds: `@` ends the name of a user and has
/// the host behind it, and `\` is read as `/` by some.
pub open spec fn is_misleading(c: char) -> bool {
    c == '@' || c == '\\'
}

/// What follows `api.` in a host: a name that holds nothing misleading, so
/// that the host of the URL is what the text shows in its place.
pub open spec fn is_host(text: Seq<char>) -> bool {
    is_name(text) && forall|i: int| 0 <= i < text.len() ==> !is_misleading(#[trigger] text[i])
}

/// What may follow the name of the repository: nothing, or something that a
/// delimiter sets off from it.
pub open spec fn is_trailer(text: Seq<char>) -> bool {
    text.len() == 0 || is_delimiter(text[0])
}

/// `https://api.`, which every resource URL starts with.
pub open spec fn api_prefix() -> Seq<char> {
    seq!['h', 't', 't', 'p', 's', ':', '/', '/', 'a', 'p', 'i', '.']
}

/// `/repos/`, which stands between the host and the owner.
pub open spec fn repos_marker() -> Seq<char> {
    seq!['/', 'r', 'e', 'p', 'o', 's', '/']
}

/// The resource URL made of its parts.
pub open spec fn repository_url(
    host: Seq<char>,
    owner: Seq<char>,
    repo: Seq<char>,
    trailer: Seq<char>,
) -> Seq<char> {
    api_prefix() + host + repos_marker() + owner + seq!['/'] + repo + trailer
}

/// Whether `url` is the resource URL of the repository `repo` of `owner`, on
/// some host and with some trailer.
pub open spec fn names_repository(url: Seq<char>, owner: Seq<char>, repo: Seq<char>) -> bool {
    &&& is_name(owner)
    &&& is_name(repo)
    &&& exists|host: Seq<char>, trailer: Seq<char>|
        is_host(host) && is_trailer(trailer) && url == #[trigger] repository_url(
            host,
            owner,
            repo,
            trailer,
        )
}

/// Whether `word` stands in `text` at position `at`.
pub open spec fn has_at(text: Seq<char>, at: int, word: Seq<char>) -> bool {
    0 <= at && at + word.len() <= text.len() && text.subrange(at, at + word.len()) == word
}

/// Where the name that starts at `from` ends: the first position from there on
/// that holds a delimiter, or the end of the text.
pub open spec fn name_end(text: Seq<char>, from: int) -> int
    decreases text.len() - from,
{
    if from < 0 || from >= text.len() || is_delimiter(text[from]) {
        from
    } else {
        name_end(text, from + 1)
    }
}

/// The owner and the name that `url` holds, read from left to right.
pub open spec fn repository_in(url: Seq<char>) -> Option<(Seq<char>, Seq<char>)> {
    let host_from = api_prefix().len() as int;
    let host_to = name_end(url, host_from);
    let owner_from = host_to + repos_marker().len();
    let owner_to = name_end(url, owner_from);
    let repo_from = owner_to + 1;
    let repo_to = name_end(url, repo_from);
    if has_at(url, 0, api_prefix()) && is_host(url.subrange(host_from, host_to)) && has_at(
        url,
        host_to,
        repos_marker(),
    ) && owner_from < owner_to && owner_to < url.len() && url[owner_to] == '/' && repo_from
        < repo_to {
        Some((url.subrange(owner_from, owner_to), url.subrange(repo_from, repo_to)))
    } else {
        None
    }
}

proof fn lemma_name_end(text: Seq<char>, from: int)
    requires
        0 <= from <= text.len(),
    ensures
        from <= name_end(text, from) <= text.len(),
        forall|i: int| from <= i < name_end(text, from) ==> !is_delimiter(#[trigger] text[i]),
        name_end(text, from) < text.len() ==> is_delimiter(text[name_end(text, from)]),
    decreases text.len() - from,
{
    if from < text.len() && !is_delimiter(text[from]) {
        lemma_name_end(text, from + 1);
    }
}

/// The end of a name is where the characters before are none of them a
/// delimiter and the next one, if there is one, is.
proof fn lemma_name_end_is(text: Seq<char>, from: int, to: int)
    requires
        0 <= from <= to <= text.len(),
        forall|i: int| from <= i < to ==> !is_delimiter(#[trigger] text[i]),
        to < text.len() ==> is_delimiter(text[to]),
    ensures
        name_end(text, from) == to,
    decreases to - from,
{
    if from < to {
        lemma_name_end_is(text, from + 1, to);
    }
}

/// What is read out of a URL is what the URL names.
proof fn lemma_read_is_named(url: Seq<char>)
    requires
        repository_in(url) is Some,
    ensures
        repository_in(url) matches Some((owner, repo)) && names_repository(url, owner, repo),
{
    let host_from = api_prefix().len() as int;
    let host_to = name_end(url, host_from);
    let owner_from = host_to + repos_marker().len();
    let owner_to = name_end(url, owner_from);
    let repo_from = owner_to + 1;
    let repo_to = name_end(url, repo_from);
    lemma_name_end(url, host_from);
    lemma_name_end(url, owner_from);
    lemma_name_end(url, repo_from);
    let host = url.subrange(host_from, host_to);
    let owner = url.subrange(owner_from, owner_to);
    let repo = url.subrange(repo_from, repo_to);
    let trailer = url.subrange(repo_to, url.len() as int);
    assert(is_host(host));
    assert(is_name(owner));
    assert(is_name(repo));
    assert(is_trailer(trailer));
    assert(url =~= repository_url(host, owner, repo, trailer));
}

/// A URL that is put together from its parts reads back as owner and name.
proof fn lemma_named_is_read(
    host: Seq<char>,
    owner: Seq<char>,
    repo: Seq<char>,
    trailer: Seq<char>,
)
    requires
        is_host(host),
        is_name(owner),
        is_name(repo),
        is_trailer(trailer),
    ensures
        repository_in(repository_url(host, owner, repo, trailer)) == Some((owner, repo)),
{
    let url = repository_url(host, owner, repo, trailer);
    let host_from = api_prefix().len() as int;
    let host_to = host_from + host.len();
    let owner_from = host_to + repos_marker().len();
    let owner_to = owner_from + owner.len();
    let repo_from = owner_to + 1;
    let repo_to = repo_from + repo.len();
    assert(url.len() == repo_to + trailer.len());
    assert(url.subrange(0, host_from) =~= api_prefix());
    assert(url.subrange(host_from, host_to) =~= host);
    assert(url.subrange(host_to, owner_from) =~= repos_marker());
    assert(url.subrange(owner_from, owner_to) =~= owner);
    assert(url[owner_to] == '/');
    assert(url.subrange(repo_from, repo_to) =~= repo);
    assert(url.subrange(repo_to, url.len() as int) =~= trailer);
    assert forall|i: int| host_from <= i < host_to implies !is_delimiter(#[trigger] url[i]) by {
        assert(url[i] == host[i - host_from]);
    }
    assert(url[host_to] == repos_marker()[0]);
    lemma_name_end_is(url, host_from, host_to);
    assert forall|i: int| owner_from <= i < owner_to implies !is_delimiter(#[trigger] url[i]) by {
        assert(url[i] == owner[i - owner_from]);
    }
    lemma_name_end_is(url, owner_from, owner_to);
    assert forall|i: int| repo_from <= i < repo_to implies !is_delimiter(#[trigger] url[i]) by {
        assert(url[i] == repo[i - repo_from]);
    }
    if repo_to < url.len() {
        assert(url[repo_to] == trailer[0]);
    }
    lemma_name_end_is(url, repo_from, repo_to);
}

/// A URL names at most one repository, and it is the one read out of it from
/// left to right.
pub proof fn lemma_names_what_is_read(url: Seq<char>, owner: Seq<char>, repo: Seq<char>)
    ensures
        names_repository(url, owner, repo) <==> repository_in(url) == Some((owner, repo)),
{
    if names_repository(url, owner, repo) {
        let (host, trailer) = choose|host: Seq<char>, trailer: Seq<char>|
            is_host(host) && is_trailer(trailer) && url == #[trigger] repository_url(
                host,
                owner,
                repo,
                trailer,
            );
        lemma_named_is_read(host, owner, repo, trailer);
    }
    if repository_in(url) == Some((owner, repo)) {
        lemma_read_is_named(url);
    }
}

/// The four characters of `api.` are none of them a delimiter or an `@`.
proof fn lemma_prefix_is_plain(url: Seq<char>)
    requires
        has_at(url, 0, api_prefix()),
    ensures
        forall|i: int| 8 <= i < 12 ==> !is_delimiter(#[trigger] url[i]) && url[i] != '@',
{
    let head = url.subrange(0, 12);
    assert(head == api_prefix());
    assert(url[8] == head[8] && url[9] == head[9] && url[10] == head[10] && url[11] == head[11]);
}

/// Where a host stands behind `api.`, the name that starts after `https://`
/// ends where the host ends, and holds no `@`.
proof fn lemma_host_after_prefix(url: Seq<char>, host_to: int)
    requires
        12 <= host_to < url.len(),
        forall|i: int| 8 <= i < 12 ==> !is_delimiter(#[trigger] url[i]) && url[i] != '@',
        forall|i: int| 12 <= i < host_to ==> !is_delimiter(#[trigger] url[i]) && url[i] != '@',
        url[host_to] == '/',
    ensures
        name_end(url, 8) == host_to,
        forall|i: int| 8 <= i < host_to ==> #[trigger] url[i] != '@',
{
    lemma_name_end_is(url, 8, host_to);
}

/// In a URL that names a repository, what stands between `https://` and the
/// path starts with `api.` and holds no `@`: it is the host, with no user
/// named before it.
pub proof fn lemma_host_is_shown(url: Seq<char>, owner: Seq<char>, repo: Seq<char>)
    requires
        names_repository(url, owner, repo),
    ensures
        has_at(url, 0, api_prefix()),
        forall|i: int| 8 <= i < name_end(url, 8) ==> #[trigger] url[i] != '@',
        name_end(url, 8) < url.len() && url[name_end(url, 8)] == '/',
{
    lemma_names_what_is_read(url, owner, repo);
    lemma_host_in_what_is_read(url);
}

/// The same of a URL out of which a repository is read.
proof fn lemma_host_in_what_is_read(url: Seq<char>)
    requires
        repository_in(url) is Some,
    ensures
        has_at(url, 0, api_prefix()),
        forall|i: int| 8 <= i < name_end(url, 8) ==> #[trigger] url[i] != '@',
        name_end(url, 8) < url.len() && url[name_end(url, 8)] == '/',
{
    let host_to = name_end(url, 12);
    let host = url.subrange(12, host_to);
    lemma_name_end(url, 12);
    lemma_prefix_is_plain(url);
    assert(is_host(host));
    assert forall|i: int| 12 <= i < host_to implies !is_delimiter(#[trigger] url[i]) && url[i]
        != '@' by {
        assert(url[i] == host[i - 12]);
        assert(!is_misleading(host[i - 12]));
    }
    let marker = url.subrange(host_to, host_to + 7);
    assert(marker == repos_marker());
    assert(url[host_to] == marker[0]);
    lemma_host_after_prefix(url, host_to);
}

/// No URL names two repositories.
pub proof fn lemma_repository_unique(
    url: Seq<char>,
    owner: Seq<char>,
    repo: Seq<char>,
    other_owner: Seq<char>,
    other_repo: Seq<char>,
)
    requires
        names_repository(url, owner, repo),
        names_repository(url, other_owner, other_repo),
    ensures
        owner == other_owner,
        repo == other_repo,
{
    lemma_names_what_is_read(url, owner, repo);
    lemma_names_what_is_read(url, other_owner, other_repo);
}

/// Whether `word` stands in `text` at the position `at`.
fn stands_at(text: &str, at: usize, word: &str) -> (found: bool)
    ensures
        found == has_at(text@, at as int, word@),
{
    let text_len = text.unicode_len();
    let word_len = word.unicode_len();
    if at > text_len || word_len > text_len - at {
        return false;
    }
    let mut i: usize = 0;
    while i < word_len
        invariant
            text_len == text@.len(),
            word_len == word@.len(),
            at + word_len <= text_len,
            i <= word_len,
            text@.subrange(at as int, at + i) =~= word@.subrange(0, i as int),
        decreases word_len - i,
    {
        if text.get_char(at + i) != word.get_char(i) {
            proof {
                if text@.subrange(at as int, at + word_len) == word@ {
                    assert(text@.subrange(at as int, at + word_len)[i as int] == word@[i as int]);
                }
            }
            return false;
        }
        proof {
            assert(text@.subrange(at as int, at + i + 1) =~= text@.subrange(at as int, at + i).push(
                text@[at + i],
            ));
            assert(word@.subrange(0, i + 1) =~= word@.subrange(0, i as int).push(word@[i as int]));
        }
        i = i + 1;
    }
    proof {
        assert(word@.subrange(0, word_len as int) =~= word@);
    }
    true
}

/// Whether a character ends a name.
fn delimits(c: char) -> (yes: bool)
    ensures
        yes == is_delimiter(c),
{
    c == '/' || c == '?' || c == '#'
}

/// The position at which the name that starts at `from` ends.
fn find_name_end(text: &str, from: usize) -> (to: usize)
    requires
        from <= text@.len(),
    ensures
        to == name_end(text@, from as int),
        from <= to <= text@.len(),
{
    let text_len = text.unicode_len();
    let mut to: usize = from;
    while to < text_len && !delimits(text.get_char(to))
        invariant
            text_len == text@.len(),
            from <= to <= text_len,
            name_end(text@, from as int) == name_end(text@, to as int),
        decreases text_len - to,
    {
        to = to + 1;
    }
    to
}

/// Whether the stretch of `text` from `from` up to `to` holds nothing that
/// misleads about the host.
fn holds_nothing_misleading(text: &str, from: usize, to: usize) -> (plain: bool)
    requires
        from <= to <= text@.len(),
    ensures
        plain == forall|i: int|
            0 <= i < to - from ==> !is_misleading(#[trigger] text@.subrange(from as int, to as int)[i]),
{
    let mut at: usize = from;
    while at < to
        invariant
            from <= at <= to <= text@.len(),
            forall|i: int|
                0 <= i < at - from ==> !is_misleading(
                    #[trigger] text@.subrange(from as int, to as int)[i],
                ),
        decreases to - at,
    {
        let c = text.get_char(at);
        if c == '@' || c == '\\' {
            proof {
                assert(text@.subrange(from as int, to as int)[at - from] == c);
            }
            return false;
        }
        proof {
            assert(text@.subrange(from as int, to as int)[at - from] == c);
        }
        at = at + 1;
    }
    true
}

/// Reads owner and name out of the resource URL of a repository. A URL of
/// another shape names no repository, and none is made up for it.
pub fn extract_repository(url: &str) -> (found: Result<(String, String), ()>)
    ensures
        match found {
            Ok((owner, repo)) => names_repository(url@, owner@, repo@),
            Err(_) => forall|owner: Seq<char>, repo: Seq<char>|
                !names_repository(url@, owner, repo),
        },
        found is Ok == repository_in(url@) is Some,
        found matches Ok((owner, repo)) ==> repository_in(url@) == Some((owner@, repo@)),
{
    proof {
        reveal_strlit("https://api.");
        reveal_strlit("/repos/");
        assert("https://api."@ =~= api_prefix());
        assert("/repos/"@ =~= repos_marker());
        assert forall|owner: Seq<char>, repo: Seq<char>|
            names_repository(url@, owner, repo) implies repository_in(url@) == Some(
            (owner, repo),
        ) by {
            lemma_names_what_is_read(url@, owner, repo);
        }
    }
    let len = url.unicode_len();
    if !stands_at(url, 0, "https://api.") {
        return Err(());
    }
    let host_from: usize = 12;
    let host_to = find_name_end(url, host_from);
    if host_to == host_from || !holds_nothing_misleading(url, host_from, host_to) || !stands_at(
        url,
        host_to,
        "/repos/",
    ) {
        proof {
            lemma_name_end(url@, host_from as int);
        }
        return Err(());
    }
    proof {
        lemma_name_end(url@, host_from as int);
    }
    let owner_from = host_to + 7;
    let owner_to = find_name_end(url, owner_from);
    if owner_to == owner_from || owner_to >= len || url.get_char(owner_to) != '/' {
        return Err(());
    }
    let repo_from = owner_to + 1;
    let repo_to = find_name_end(url, repo_from);
    if repo_to == repo_from {
        return Err(());
    }
    let owner = String::from_str(url.substring_char(owner_from, owner_to));
    let repo = String::from_str(url.substring_char(repo_from, repo_to));
    proof {
        lemma_read_is_named(url@);
    }
    Ok((owner, repo))
}

} // verus!
