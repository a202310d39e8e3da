//! Git hosting provider detection from repository URLs.

use vstd::prelude::*;

use crate::text::{
    chars_of, contains, contains_exec, find, find_from, find_from_exec, lemma_contains_transitive,
    lemma_find, lemma_find_from, lemma_find_from_append, lemma_find_from_char_absent,
    lemma_find_from_prefix, lemma_nonempty_pieces_cons, lemma_occurrence_avoids,
    lemma_occurrence_inside, lemma_occurs_at_append, lemma_segments_lack_separator,
    lemma_segments_occur, lemma_split_append, lemma_split_counts_separators, lemma_split_first,
    lemma_split_head, lemma_split_none,
    lemma_split_nonempty, lemma_split_pieces_lack_separator, lemma_split_pieces_occur,
    lemma_subrange_contained, lemma_trim_end_append, lemma_trim_end_prefix, next_piece,
    next_segment, nonempty_pieces, occurs_at, segments, split, trim_end, trim_end_exec,
};

verus! {

/// The git hosting providers that remote URLs are recognised as.
#[derive(Debug, Clone, Copy, PartialEq, Eq)]
pub enum ProviderKind {
    GitHub,
    AzureDevOps,
    Unknown,
}

/// Unicode lowercase mapping of a text, as `str::to_lowercase` computes it.
pub uninterp spec fn lowercase(s: Seq<char>) -> Seq<char>;

/// Every character of `s` is ASCII.
pub open spec fn is_ascii_text(s: Seq<char>) -> bool {
    forall|i: int| 0 <= i < s.len() ==> (s[i] as u32) < 128
}

/// `c` is an ASCII uppercase letter.
pub open spec fn is_ascii_upper(c: char) -> bool {
    65 <= (c as u32) <= 90
}

/// `l` is `s` with each ASCII uppercase letter replaced by its lowercase
/// letter and every other character kept.
pub open spec fn is_ascii_lowercase_of(s: Seq<char>, l: Seq<char>) -> bool {
    &&& l.len() == s.len()
    &&& forall|i: int|
        0 <= i < s.len() ==> if is_ascii_upper(#[trigger] s[i]) {
            (l[i] as u32) == (s[i] as u32) + 32
        } else {
            l[i] == s[i]
        }
}

/// Calls `str::to_lowercase`. Claimed: the result is the lowercase mapping of
/// the argument's characters, which depends on the text alone; on ASCII text
/// it lowercases the letters `A` to `Z` one by one and keeps every other
/// character. What the mapping does to other text is not stated.
#[verifier::external_body]
fn to_lowercase(s: &str) -> (r: String)
    ensures
        r@ == lowercase(s@),
        is_ascii_text(s@) ==> is_ascii_lowercase_of(s@, r@),
{
    s.to_lowercase()
}

/// The provider that a lowercased remote URL names.
pub open spec fn provider_of_lowercase(l: Seq<char>) -> ProviderKind {
    if contains(l, "github.com"@) {
        ProviderKind::GitHub
    } else if contains(l, "dev.azure.com"@) || contains(l, ".visualstudio.com"@) || contains(
        l,
        "ssh.dev.azure.com"@,
    ) {
        ProviderKind::AzureDevOps
    } else if contains(l, "/_git/"@) {
        ProviderKind::AzureDevOps
    } else if contains(l, "github."@) {
        ProviderKind::GitHub
    } else {
        ProviderKind::Unknown
    }
}

/// Classify an already lowercased remote URL by the provider it names.
pub fn classify_lowercase_url(lower: &str) -> (r: ProviderKind)
    ensures
        r == provider_of_lowercase(lower@),
{
    let l = chars_of(lower);
    if contains_exec(&l, "github.com") {
        return ProviderKind::GitHub;
    }
    if contains_exec(&l, "dev.azure.com") || contains_exec(&l, ".visualstudio.com")
        || contains_exec(&l, "ssh.dev.azure.com") {
        return ProviderKind::AzureDevOps;
    }
    if contains_exec(&l, "/_git/") {
        return ProviderKind::AzureDevOps;
    }
    if contains_exec(&l, "github.") {
        return ProviderKind::GitHub;
    }
    ProviderKind::Unknown
}

/// The provider that a lowercased pull-request URL names: GitHub when it has
/// a `/pull/` path on a GitHub host, Azure DevOps when it has a
/// `/pullrequest/` path, otherwise as for any remote URL.
pub open spec fn pr_provider_of_lowercase(l: Seq<char>) -> ProviderKind {
    if contains(l, "/pull/"@) && (contains(l, "github.com"@) || contains(l, "github."@)) {
        ProviderKind::GitHub
    } else if contains(l, "/pullrequest/"@) {
        ProviderKind::AzureDevOps
    } else {
        provider_of_lowercase(l)
    }
}

/// Classify an already lowercased pull-request URL by the provider it names.
pub fn classify_lowercase_pr_url(lower: &str) -> (r: ProviderKind)
    ensures
        r == pr_provider_of_lowercase(lower@),
{
    let l = chars_of(lower);
    if contains_exec(&l, "/pull/") {
        if contains_exec(&l, "github.com") || contains_exec(&l, "github.") {
            return ProviderKind::GitHub;
        }
    }
    if contains_exec(&l, "/pullrequest/") {
        return ProviderKind::AzureDevOps;
    }
    classify_lowercase_url(lower)
}

/// Detect the git hosting provider from a pull-request URL.
pub fn detect_provider_from_pr_url(pr_url: &str) -> (r: ProviderKind)
    ensures
        r == pr_provider_of_lowercase(lowercase(pr_url@)),
        is_ascii_text(pr_url@) ==> is_ascii_lowercase_of(pr_url@, lowercase(pr_url@)),
{
    let lower = to_lowercase(pr_url);
    classify_lowercase_pr_url(lower.as_str())
}

/// Detect the git hosting provider from a remote URL.
pub fn detect_provider_from_url(url: &str) -> (r: ProviderKind)
    ensures
        r == provider_of_lowercase(lowercase(url@)),
        is_ascii_text(url@) ==> is_ascii_lowercase_of(url@, lowercase(url@)),
{
    let lower = to_lowercase(url);
    classify_lowercase_url(lower.as_str())
}


/// Parsed GitHub repository information from a remote URL.
#[derive(Debug, Clone, PartialEq, Eq)]
pub struct GitHubRepoFromUrl {
    pub owner: String,
    pub repo: String,
}

impl View for GitHubRepoFromUrl {
    type V = (Seq<char>, Seq<char>);

    open spec fn view(&self) -> (Seq<char>, Seq<char>) {
        (self.owner@, self.repo@)
    }
}

/// The owner and repo of an SSH remote `user@host:owner/repo.git`: the first
/// two pieces of the text after the only `:`, without trailing `.git`, split
/// on `/`; an empty owner or repo is no GitHub repository.
pub open spec fn ssh_owner_repo(u: Seq<char>) -> Option<(Seq<char>, Seq<char>)> {
    let parts = split(u, ':');
    if parts.len() == 2 {
        let path_parts = split(trim_end(parts[1], ".git"@), '/');
        if path_parts.len() >= 2 && path_parts[0].len() > 0 && path_parts[1].len() > 0 {
            Some((path_parts[0], path_parts[1]))
        } else {
            None
        }
    } else {
        None
    }
}

/// The repository path of an HTTPS remote: what follows the first
/// `github.com/`, or else what follows the first `/` after the first `github.`.
pub open spec fn https_repo_path(u: Seq<char>) -> Option<Seq<char>> {
    match find(u, "github.com/"@) {
        Some(i) => Some(u.subrange(i + "github.com/"@.len(), u.len() as int)),
        None => match find(u, "github."@) {
            Some(i) => match find_from(u, seq!['/'], i) {
                Some(j) => Some(u.subrange(j + 1, u.len() as int)),
                None => None,
            },
            None => None,
        },
    }
}

/// The owner and repo of an HTTPS remote: the first two non-empty `/`-separated
/// pieces of its repository path, without trailing `.git`.
pub open spec fn https_owner_repo(u: Seq<char>) -> Option<(Seq<char>, Seq<char>)> {
    match https_repo_path(u) {
        Some(path) => {
            let segs = segments(trim_end(path, ".git"@), '/');
            if segs.len() >= 2 {
                Some((segs[0], segs[1]))
            } else {
                None
            }
        },
        None => None,
    }
}

/// The owner and repo that a remote URL `u`, whose lowercase form is `l`, names
/// on GitHub: `None` unless `l` mentions `github.com` or `github.`; SSH form
/// when `u` holds `git@` and `:`, HTTPS form otherwise.
pub open spec fn github_owner_repo(u: Seq<char>, l: Seq<char>) -> Option<(Seq<char>, Seq<char>)> {
    if !(contains(l, "github.com"@) || contains(l, "github."@)) {
        None
    } else if contains(u, "git@"@) && u.contains(':') {
        ssh_owner_repo(u)
    } else {
        https_owner_repo(u)
    }
}

/// The owned text of `url[a..b]`, counted in characters.
fn piece_of(url: &str, a: usize, b: usize) -> (r: String)
    requires
        a <= b <= url@.len(),
    ensures
        r@ == url@.subrange(a as int, b as int),
{
    String::from_str(url.substring_char(a, b))
}

/// The owner and repo of an SSH remote, given its characters `u`.
fn parse_ssh(url: &str, u: &Vec<char>) -> (r: Option<GitHubRepoFromUrl>)
    requires
        u@ == url@,
        u@.contains(':'),
    ensures
        match r {
            Some(g) => ssh_owner_repo(url@) == Some(g@),
            None => ssh_owner_repo(url@) is None,
        },
{
    let n = u.len();
    assert(u@.subrange(0, n as int) =~= u@);
    let colon = next_piece(u, 0, n, ':');
    if colon == n {
        proof {
            let k = choose|k: int| 0 <= k < u@.len() && u@[k] == ':';
            assert(u@[k] != ':');
        }
        return None;
    }
    let after = next_piece(u, colon + 1, n, ':');
    if after < n {
        proof {
            lemma_split_nonempty(u@.subrange(after + 1, n as int), ':');
        }
        return None;
    }
    let dot_git = chars_of(".git");
    let end = trim_end_exec(u, colon + 1, n, &dot_git);
    let slash = next_piece(u, colon + 1, end, '/');
    if slash == end {
        return None;
    }
    let second = next_piece(u, slash + 1, end, '/');
    proof {
        lemma_split_nonempty(u@.subrange(second + 1, end as int), '/');
    }
    if slash == colon + 1 || second == slash + 1 {
        return None;
    }
    let owner = piece_of(url, colon + 1, slash);
    let repo = piece_of(url, slash + 1, second);
    Some(GitHubRepoFromUrl { owner, repo })
}

/// The repository path of an HTTPS remote as the position where it starts.
fn https_path_start(u: &Vec<char>) -> (r: Option<usize>)
    ensures
        match r {
            Some(i) => i <= u@.len() && https_repo_path(u@) == Some(
                u@.subrange(i as int, u@.len() as int),
            ),
            None => https_repo_path(u@) is None,
        },
{
    let dotcom = chars_of("github.com/");
    proof {
        lemma_find(u@, dotcom@);
    }
    match find_from_exec(u, &dotcom, 0) {
        Some(i) => {
            assert(find(u@, dotcom@) == Some(i as int));
            assert(occurs_at(u@, dotcom@, i as int));
            assert(i + dotcom.len() <= u.len());
            return Some(i + dotcom.len());
        },
        None => {},
    }
    let dot = chars_of("github.");
    proof {
        lemma_find(u@, dot@);
    }
    match find_from_exec(u, &dot, 0) {
        Some(i) => {
            let slash = vec!['/'];
            assert(slash@ =~= seq!['/']);
            assert(find(u@, dot@) == Some(i as int));
            proof {
                lemma_find_from(u@, slash@, i as int);
            }
            match find_from_exec(u, &slash, i) {
                Some(j) => {
                    assert(occurs_at(u@, slash@, j as int));
                    assert(j + 1 <= u.len());
                    Some(j + 1)
                },
                None => None,
            }
        },
        None => None,
    }
}

/// The owner and repo of an HTTPS remote, given its characters `u`.
fn parse_https(url: &str, u: &Vec<char>) -> (r: Option<GitHubRepoFromUrl>)
    requires
        u@ == url@,
    ensures
        match r {
            Some(g) => https_owner_repo(url@) == Some(g@),
            None => https_owner_repo(url@) is None,
        },
{
    let n = u.len();
    let start = match https_path_start(u) {
        Some(i) => i,
        None => {
            return None;
        },
    };
    let dot_git = chars_of(".git");
    let end = trim_end_exec(u, start, n, &dot_git);
    let (a, b) = match next_segment(u, start, end, '/') {
        Some(seg) => seg,
        None => {
            return None;
        },
    };
    let (c, d) = match next_segment(u, b, end, '/') {
        Some(seg) => seg,
        None => {
            return None;
        },
    };
    let owner = piece_of(url, a, b);
    let repo = piece_of(url, c, d);
    Some(GitHubRepoFromUrl { owner, repo })
}

/// Parse owner and repo name from a GitHub remote URL.
///
/// Supports HTTPS (`https://github.com/owner/repo`, optionally with `.git`),
/// SSH (`git@github.com:owner/repo.git`) and GitHub Enterprise
/// (`https://github.company.com/owner/repo`) remotes. Returns `None` if the URL
/// is not a GitHub URL or cannot be parsed.
pub fn parse_github_owner_repo(url: &str) -> (r: Option<GitHubRepoFromUrl>)
    ensures
        match r {
            Some(g) => github_owner_repo(url@, lowercase(url@)) == Some(g@),
            None => github_owner_repo(url@, lowercase(url@)) is None,
        },
        is_ascii_text(url@) ==> is_ascii_lowercase_of(url@, lowercase(url@)),
{
    let lower = to_lowercase(url);
    parse_owner_repo_with_lowercase(url, lower.as_str())
}

/// Parse owner and repo name from a remote URL `url` whose lowercase form is
/// `lower`.
pub fn parse_owner_repo_with_lowercase(url: &str, lower: &str) -> (r: Option<GitHubRepoFromUrl>)
    ensures
        match r {
            Some(g) => github_owner_repo(url@, lower@) == Some(g@),
            None => github_owner_repo(url@, lower@) is None,
        },
{
    let l = chars_of(lower);
    if !contains_exec(&l, "github.com") && !contains_exec(&l, "github.") {
        return None;
    }
    let u = chars_of(url);
    if contains_exec(&u, "git@") {
        let n = u.len();
        let colon = next_piece(&u, 0, n, ':');
        if colon < n {
            return parse_ssh(url, &u);
        }
        proof {
            assert forall|k: int| 0 <= k < u@.len() implies u@[k] != ':' by {
            }
        }
    }
    parse_https(url, &u)
}


/// Owner and repo names parsed from a remote URL are never empty, never
/// contain `/`, and are pieces of the URL.
pub proof fn lemma_owner_repo_are_path_segments(u: Seq<char>, l: Seq<char>)
    ensures
        github_owner_repo(u, l) matches Some((o, r)) ==> o.len() > 0 && r.len() > 0
            && !o.contains('/') && !r.contains('/') && contains(u, o) && contains(u, r),
        github_owner_repo(u, l) is Some ==> contains(l, "github.com"@) || contains(l, "github."@),
{
    let g = ".git"@;
    if contains(u, "git@"@) && u.contains(':') {
        let parts = split(u, ':');
        lemma_split_pieces_occur(u, ':');
        if parts.len() == 2 {
            let t = trim_end(parts[1], g);
            lemma_split_pieces_lack_separator(t, '/');
            lemma_split_pieces_occur(t, '/');
            lemma_trim_end_prefix(parts[1], g);
            lemma_subrange_contained(parts[1], 0, t.len() as int);
            lemma_contains_transitive(u, parts[1], t);
            let pp = split(t, '/');
            if pp.len() >= 2 {
                lemma_contains_transitive(u, t, pp[0]);
                lemma_contains_transitive(u, t, pp[1]);
            }
        }
    } else {
        match https_repo_path(u) {
            Some(path) => {
                let t = trim_end(path, g);
                lemma_segments_lack_separator(t, '/');
                lemma_segments_occur(t, '/');
                lemma_trim_end_prefix(path, g);
                lemma_subrange_contained(path, 0, t.len() as int);
                assert(contains(u, path)) by {
                    lemma_find(u, "github.com/"@);
                    lemma_find(u, "github."@);
                    match find(u, "github.com/"@) {
                        Some(i) => {
                            lemma_subrange_contained(u, i + "github.com/"@.len(), u.len() as int);
                        },
                        None => {
                            let i = find(u, "github."@)->0;
                            lemma_find_from(u, seq!['/'], i);
                            let j = find_from(u, seq!['/'], i)->0;
                            lemma_subrange_contained(u, j + 1, u.len() as int);
                        },
                    }
                }
                lemma_contains_transitive(u, path, t);
                let segs = segments(t, '/');
                if segs.len() >= 2 {
                    lemma_contains_transitive(u, t, segs[0]);
                    lemma_contains_transitive(u, t, segs[1]);
                }
            },
            None => {},
        }
    }
}

/// A text without ASCII uppercase letters that occurs in an ASCII text occurs
/// in its lowercase form too.
pub proof fn lemma_ascii_lowercase_keeps_lowercase_text(u: Seq<char>, l: Seq<char>, p: Seq<char>)
    requires
        is_ascii_lowercase_of(u, l),
        contains(u, p),
        forall|k: int| 0 <= k < p.len() ==> !is_ascii_upper(#[trigger] p[k]),
    ensures
        contains(l, p),
{
    let i = choose|i: int| occurs_at(u, p, i);
    assert forall|k: int| 0 <= k < p.len() implies #[trigger] l.subrange(i, i + p.len())[k]
        == p[k] by {
        assert(u.subrange(i, i + p.len())[k] == u[i + k]);
        assert(u[i + k] == p[k]);
    }
    assert(l.subrange(i, i + p.len()) =~= p);
    assert(occurs_at(l, p, i));
}

/// `github.com` and `github.` hold no ASCII uppercase letter.
proof fn lemma_github_markers_lowercase()
    ensures
        forall|k: int| 0 <= k < "github.com"@.len() ==> !is_ascii_upper(#[trigger] "github.com"@[k]),
        forall|k: int| 0 <= k < "github."@.len() ==> !is_ascii_upper(#[trigger] "github."@[k]),
{
    reveal_strlit("github.com");
    reveal_strlit("github.");
    assert forall|k: int| 0 <= k < "github.com"@.len() implies !is_ascii_upper(
        #[trigger] "github.com"@[k],
    ) by {
        assert(k == 0 || k == 1 || k == 2 || k == 3 || k == 4 || k == 5 || k == 6 || k == 7
            || k == 8 || k == 9);
    }
    assert forall|k: int| 0 <= k < "github."@.len() implies !is_ascii_upper(
        #[trigger] "github."@[k],
    ) by {
        assert(k == 0 || k == 1 || k == 2 || k == 3 || k == 4 || k == 5 || k == 6);
    }
}

/// `.git` holds none of `/`, `:` and `@`.
proof fn lemma_dot_git_chars()
    ensures
        ".git"@.len() == 4,
        !".git"@.contains('/'),
        !".git"@.contains(':'),
        !".git"@.contains('@'),
        ".git"@.last() == 't',
{
    reveal_strlit(".git");
    let g = ".git"@;
    assert forall|k: int| 0 <= k < g.len() implies g[k] != '/' && g[k] != ':' && g[k] != '@' by {
        assert(k == 0 || k == 1 || k == 2 || k == 3);
    }
}

/// `owner/repo` followed by nothing, by `.git`, or by a text starting with `/`
/// is, once trailing `.git` is trimmed, `owner/repo` followed by nothing or by
/// a `/`.
proof fn lemma_trim_owner_repo(o: Seq<char>, r: Seq<char>, s: Seq<char>)
    requires
        !o.contains('/'),
        !r.contains('/'),
        !(r.len() >= 4 && r.subrange(r.len() - 4, r.len() as int) == ".git"@),
        s.len() == 0 || s == ".git"@ || (s.len() > 0 && s[0] == '/'),
    ensures
        ({
            let x = o + seq!['/'] + r;
            let t = trim_end(x + s, ".git"@);
            &&& t.len() >= x.len()
            &&& t.subrange(0, x.len() as int) == x
            &&& (t.len() == x.len() || t[x.len() as int] == '/')
        }),
{
    lemma_dot_git_chars();
    let g = ".git"@;
    let x = o + seq!['/'] + r;
    let n = o.len() as int;
    assert(x[n] == '/');
    assert(trim_end(x, g) == x) by {
        if x.len() >= 4 && x.subrange(x.len() - 4, x.len() as int) == g {
            if r.len() >= 4 {
                assert(x.subrange(x.len() - 4, x.len() as int) =~= r.subrange(
                    r.len() - 4,
                    r.len() as int,
                ));
            } else {
                let d = n - (x.len() - 4);
                assert(x.subrange(x.len() - 4, x.len() as int)[d] == x[n]);
                assert(g[d] == '/');
            }
        }
    }
    if s.len() == 0 {
        assert(x + s =~= x);
        assert(x.subrange(0, x.len() as int) =~= x);
    } else if s == g {
        lemma_trim_end_append(x, g);
        assert(x.subrange(0, x.len() as int) =~= x);
    } else {
        let w = x + s;
        lemma_trim_end_prefix(w, g);
        let t = trim_end(w, g);
        assert(w[x.len() as int] == '/');
        if t.len() <= x.len() {
            assert(g.contains(w[x.len() as int]));
        }
        assert(t[x.len() as int] == w[x.len() as int]);
        assert(t.subrange(0, x.len() as int) =~= w.subrange(0, x.len() as int));
        assert(w.subrange(0, x.len() as int) =~= x);
    }
}

/// A text starting `owner/repo`, then ending or going on with `/`, splits on
/// `/` into `owner`, `repo`, and more; its non-empty pieces start likewise when
/// neither name is empty.
proof fn lemma_split_owner_repo(t: Seq<char>, o: Seq<char>, r: Seq<char>)
    requires
        !o.contains('/'),
        !r.contains('/'),
        t.len() >= o.len() + 1 + r.len(),
        t.subrange(0, (o.len() + 1 + r.len()) as int) == o + seq!['/'] + r,
        t.len() == o.len() + 1 + r.len() || t[(o.len() + 1 + r.len()) as int] == '/',
    ensures
        split(t, '/').len() >= 2,
        split(t, '/')[0] == o,
        split(t, '/')[1] == r,
        o.len() > 0 && r.len() > 0 ==> segments(t, '/').len() >= 2 && segments(t, '/')[0] == o
            && segments(t, '/')[1] == r,
{
    let n = o.len() as int;
    let x = o + seq!['/'] + r;
    assert forall|j: int| 0 <= j < n implies t[j] != '/' by {
        assert(t.subrange(0, x.len() as int)[j] == t[j]);
        assert(x[j] == o[j]);
    }
    assert(t[n] == '/') by {
        assert(t.subrange(0, x.len() as int)[n] == t[n]);
    }
    lemma_split_first(t, '/', n);
    assert(t.subrange(0, n) =~= o) by {
        assert forall|j: int| 0 <= j < n implies t.subrange(0, n)[j] == o[j] by {
            assert(t.subrange(0, x.len() as int)[j] == t[j]);
        }
    }
    let t2 = t.subrange(n + 1, t.len() as int);
    let m = r.len() as int;
    assert forall|j: int| 0 <= j < m implies t2[j] == r[j] by {
        assert(t.subrange(0, x.len() as int)[n + 1 + j] == t[n + 1 + j]);
    }
    if t2.len() == m {
        assert(t2 =~= r);
        assert forall|j: int| 0 <= j < t2.len() implies t2[j] != '/' by {
            if t2[j] == '/' {
                assert(r.contains('/'));
            }
        }
        lemma_split_none(t2, '/');
        lemma_nonempty_pieces_cons(r, Seq::<Seq<char>>::empty());
        assert(seq![r] + Seq::<Seq<char>>::empty() =~= seq![r]);
        assert(split(t, '/') =~= seq![o] + seq![r]);
    } else {
        assert forall|j: int| 0 <= j < m implies t2[j] != '/' by {
            if t2[j] == '/' {
                assert(r.contains('/'));
            }
        }
        assert(t2[m] == '/');
        lemma_split_first(t2, '/', m);
        assert(t2.subrange(0, m) =~= r);
        lemma_split_nonempty(t2.subrange(m + 1, t2.len() as int), '/');
    }
    lemma_nonempty_pieces_cons(o, split(t2, '/'));
    let z = split(t2, '/').drop_first();
    assert(split(t2, '/') =~= seq![r] + z);
    lemma_nonempty_pieces_cons(r, z);
}

/// An HTTPS remote `https://github.com/owner/repo`, optionally followed by
/// `.git` or by a further path, names that owner and repo, when the names are
/// non-empty, hold no `/` and no `git@`, and the repo does not end in `.git`
/// (`l` is the URL's lowercase form: its ASCII lowercasing, which every
/// ASCII URL has, or any form that names a GitHub host).
pub proof fn lemma_https_remote_round_trip(o: Seq<char>, r: Seq<char>, s: Seq<char>, l: Seq<char>)
    requires
        o.len() > 0,
        r.len() > 0,
        !o.contains('/'),
        !r.contains('/'),
        !contains(o, "git@"@),
        !contains(r, "git@"@),
        !(r.len() >= 4 && r.subrange(r.len() - 4, r.len() as int) == ".git"@),
        s.len() == 0 || s == ".git"@ || (s.len() > 0 && s[0] == '/' && !contains(s, "git@"@)),
        is_ascii_lowercase_of("https://github.com/"@ + o + seq!['/'] + r + s, l) || contains(
            l,
            "github.com"@,
        ) || contains(l, "github."@),
    ensures
        github_owner_repo("https://github.com/"@ + o + seq!['/'] + r + s, l) == Some((o, r)),
{
    reveal_strlit("https://github.com/");
    reveal_strlit("https://");
    reveal_strlit("github.com/");
    let p = "https://"@;
    assert("https://github.com/"@ =~= p + "github.com/"@);
    assert("https://github.com/"@ + o + seq!['/'] + r + s =~= p + "github.com/"@ + o + seq!['/']
        + r + s);
    assert forall|j: int| 0 <= j < p.len() implies p[j] != 'g' by {
        assert(j == 0 || j == 1 || j == 2 || j == 3 || j == 4 || j == 5 || j == 6 || j == 7);
    }
    lemma_text_without_g_lacks(p, "github."@);
    lemma_text_without_g_lacks(p, "git@"@);
    lemma_https_remote_after_any_scheme_round_trip(p, o, r, s, l);
}

/// A text without the letter `g` holds no pattern that starts with `g`.
proof fn lemma_text_without_g_lacks(t: Seq<char>, p: Seq<char>)
    requires
        forall|j: int| 0 <= j < t.len() ==> t[j] != 'g',
        p == "github."@ || p == "git@"@,
    ensures
        !contains(t, p),
{
    reveal_strlit("github.");
    reveal_strlit("git@");
    if contains(t, p) {
        let i = choose|i: int| occurs_at(t, p, i);
        assert(t.subrange(i, i + p.len())[0] == t[i]);
    }
}

/// `owner/repo` followed by nothing, by `.git`, or by a path without `git@`
/// holds no `git@`, when neither name does.
proof fn lemma_owner_repo_tail_lacks_ssh_marker(o: Seq<char>, r: Seq<char>, s: Seq<char>)
    requires
        !o.contains('/'),
        !r.contains('/'),
        !contains(o, "git@"@),
        !contains(r, "git@"@),
        s.len() == 0 || s == ".git"@ || (s.len() > 0 && s[0] == '/' && !contains(s, "git@"@)),
    ensures
        !contains(o + seq!['/'] + r + s, "git@"@),
{
    reveal_strlit("git@");
    lemma_dot_git_chars();
    let g = ".git"@;
    let at = "git@"@;
    let t = o + seq!['/'] + r + s;
    assert(!at.contains('/')) by {
        assert forall|k: int| 0 <= k < 4 implies at[k] != '/' by {
            assert(k == 0 || k == 1 || k == 2 || k == 3);
        }
    }
    if contains(t, at) {
        let i = choose|i: int| occurs_at(t, at, i);
        let q: int = o.len() as int;
        assert(t[q] == '/');
        lemma_occurrence_avoids(t, at, '/', i, q);
        if i + 4 <= q {
            lemma_occurrence_inside(t, at, i, 0, q);
            assert(t.subrange(0, q) =~= o);
        } else {
            lemma_occurrence_inside(t, at, i, q + 1, t.len() as int);
            let rs = r + s;
            assert(t.subrange(q + 1, t.len() as int) =~= rs);
            let i2 = choose|i2: int| occurs_at(rs, at, i2);
            if s.len() == 0 {
                assert(rs =~= r);
            } else if s == g {
                lemma_occurs_at_append(r, g, at, i2);
            } else {
                assert(rs[r.len() as int] == '/');
                lemma_occurrence_avoids(rs, at, '/', i2, r.len() as int);
                if i2 + 4 <= r.len() {
                    lemma_occurrence_inside(rs, at, i2, 0, r.len() as int);
                    assert(rs.subrange(0, r.len() as int) =~= r);
                } else {
                    lemma_occurrence_inside(rs, at, i2, r.len() as int, rs.len() as int);
                    assert(rs.subrange(r.len() as int, rs.len() as int) =~= s);
                }
            }
        }
    }
}

/// `prefix github.com/owner/repo` followed by `s`, where the prefix ends in
/// `/` and holds no `git@`, holds no `git@` when the pieces hold none.
proof fn lemma_https_url_lacks_ssh_marker(p: Seq<char>, o: Seq<char>, r: Seq<char>, s: Seq<char>)
    requires
        p.len() == 0 || p.last() == '/',
        !contains(p, "git@"@),
        !o.contains('/'),
        !r.contains('/'),
        !contains(o, "git@"@),
        !contains(r, "git@"@),
        s.len() == 0 || s == ".git"@ || (s.len() > 0 && s[0] == '/' && !contains(s, "git@"@)),
    ensures
        !contains(p + "github.com/"@ + o + seq!['/'] + r + s, "git@"@),
{
    reveal_strlit("github.com/");
    reveal_strlit("git@");
    lemma_markers_lack_slash();
    let at = "git@"@;
    let dc = "github.com/"@;
    let t = o + seq!['/'] + r + s;
    let u = p + dc + o + seq!['/'] + r + s;
    let pl: int = p.len() as int;
    let d: int = pl + 11;
    let n: int = u.len() as int;
    assert(u =~= p + dc + t);
    assert(u.subrange(0, pl) =~= p);
    assert(u.subrange(d, n) =~= t);
    lemma_owner_repo_tail_lacks_ssh_marker(o, r, s);
    if contains(u, at) {
        let i = choose|i: int| occurs_at(u, at, i);
        assert(u[i] == 'g') by {
            assert(u.subrange(i, i + 4)[0] == u[i]);
        }
        assert(u[i + 3] == '@') by {
            assert(u.subrange(i, i + 4)[3] == u[i + 3]);
        }
        if i < pl {
            lemma_occurrence_in_prefix(u, p, at, i);
        } else if i < d {
            let k = i - pl;
            assert(u[i] == dc[k]);
            assert(k == 0 || k == 1 || k == 2 || k == 3 || k == 4 || k == 5 || k == 6 || k == 7
                || k == 8 || k == 9 || k == 10);
            assert(u[pl + 3] == dc[3]);
        } else {
            lemma_occurrence_inside(u, at, i, d, n);
        }
    }
}

/// A `github.com/` that starts inside a prefix ending in `/` puts a
/// `github.` inside that prefix.
proof fn lemma_github_com_in_prefix(u: Seq<char>, p: Seq<char>, k: int)
    requires
        p.len() <= u.len(),
        u.subrange(0, p.len() as int) == p,
        p.len() == 0 || p.last() == '/',
        occurs_at(u, "github.com/"@, k),
        k < p.len(),
    ensures
        contains(p, "github."@),
{
    reveal_strlit("github.com/");
    reveal_strlit("github.");
    lemma_markers_lack_slash();
    let dc = "github.com/"@;
    let gh = "github."@;
    assert(dc.subrange(0, 7) =~= gh);
    assert(u.subrange(k, k + 7) =~= u.subrange(k, k + 11).subrange(0, 7));
    assert(occurs_at(u, gh, k));
    lemma_occurrence_in_prefix(u, p, gh, k);
}

/// In `prefix github.com/` followed by `t`, where the prefix ends in `/` and
/// holds no `github.`, the first `github.com/` is the one after the prefix.
proof fn lemma_https_url_first_github_com(p: Seq<char>, t: Seq<char>)
    requires
        p.len() == 0 || p.last() == '/',
        !contains(p, "github."@),
    ensures
        find(p + "github.com/"@ + t, "github.com/"@) == Some(p.len() as int),
{
    reveal_strlit("github.com/");
    let dc = "github.com/"@;
    let u = p + dc + t;
    let pl: int = p.len() as int;
    assert(u.subrange(0, pl) =~= p);
    assert(occurs_at(u, dc, pl)) by {
        assert(u.subrange(pl, pl + 11) =~= dc);
    }
    lemma_find(u, dc);
    assert(find(u, dc) is Some);
    let k = find(u, dc)->0;
    assert(k <= pl);
    if k < pl {
        lemma_github_com_in_prefix(u, p, k);
    }
}

/// The repository path of `prefix github.com/` followed by `t`, where the
/// prefix ends in `/` and holds no `github.`, is `t`.
proof fn lemma_https_url_path(p: Seq<char>, t: Seq<char>)
    requires
        p.len() == 0 || p.last() == '/',
        !contains(p, "github."@),
    ensures
        https_repo_path(p + "github.com/"@ + t) == Some(t),
{
    reveal_strlit("github.com/");
    lemma_https_url_first_github_com(p, t);
    let u = p + "github.com/"@ + t;
    let pl: int = p.len() as int;
    assert(u.subrange(pl + 11, u.len() as int) =~= t);
}

/// An HTTPS remote `github.com/owner/repo` after any scheme or prefix that
/// ends in `/` (`https://`, `http://`, `git+https://`, ...) and holds neither
/// `github.` nor `git@`, optionally followed by `.git` or by a further path,
/// names that owner and repo, when the names are non-empty, hold no `/` and no
/// `git@`, and the repo does not end in `.git` (`l` is the URL's lowercase
/// form: its ASCII lowercasing, which every ASCII URL has, or any form that
/// names a GitHub host).
pub proof fn lemma_https_remote_after_any_scheme_round_trip(
    p: Seq<char>,
    o: Seq<char>,
    r: Seq<char>,
    s: Seq<char>,
    l: Seq<char>,
)
    requires
        p.len() == 0 || p.last() == '/',
        !contains(p, "github."@),
        !contains(p, "git@"@),
        o.len() > 0,
        r.len() > 0,
        !o.contains('/'),
        !r.contains('/'),
        !contains(o, "git@"@),
        !contains(r, "git@"@),
        !(r.len() >= 4 && r.subrange(r.len() - 4, r.len() as int) == ".git"@),
        s.len() == 0 || s == ".git"@ || (s.len() > 0 && s[0] == '/' && !contains(s, "git@"@)),
        is_ascii_lowercase_of(p + "github.com/"@ + o + seq!['/'] + r + s, l) || contains(
            l,
            "github.com"@,
        ) || contains(l, "github."@),
    ensures
        github_owner_repo(p + "github.com/"@ + o + seq!['/'] + r + s, l) == Some((o, r)),
{
    reveal_strlit("github.com/");
    reveal_strlit("github.com");
    let t = o + seq!['/'] + r + s;
    let u = p + "github.com/"@ + o + seq!['/'] + r + s;
    let pl: int = p.len() as int;
    assert(u =~= p + "github.com/"@ + t);
    if is_ascii_lowercase_of(u, l) {
        assert(occurs_at(u, "github.com"@, pl)) by {
            assert(u.subrange(pl, pl + 10) =~= "github.com"@);
        }
        lemma_github_markers_lowercase();
        lemma_ascii_lowercase_keeps_lowercase_text(u, l, "github.com"@);
    }
    lemma_https_url_lacks_ssh_marker(p, o, r, s);
    lemma_https_url_path(p, t);
    lemma_trim_owner_repo(o, r, s);
    lemma_split_owner_repo(trim_end(t, ".git"@), o, r);
}

/// An occurrence of a pattern without `c` that starts in `u[a..b]`, where
/// `u[b]` is `c` or `b` is the end of `u`, lies within `u[a..b]`.
proof fn lemma_occurrence_within(u: Seq<char>, p: Seq<char>, c: char, i: int, a: int, b: int)
    requires
        occurs_at(u, p, i),
        !p.contains(c),
        0 <= a <= i < b <= u.len(),
        b == u.len() || u[b] == c,
    ensures
        contains(u.subrange(a, b), p),
{
    if b < u.len() {
        lemma_occurrence_avoids(u, p, c, i, b);
    }
    lemma_occurrence_inside(u, p, i, a, b);
}

/// The HTTPS remote `https://host/owner/repo` followed by `s`.
pub open spec fn enterprise_url(h: Seq<char>, o: Seq<char>, r: Seq<char>, s: Seq<char>) -> Seq<char> {
    "https://"@ + h + seq!['/'] + o + seq!['/'] + r + s
}

/// An occurrence, starting inside a prefix `p` of `u` that ends in `/`, of a
/// pattern without `/` lies inside `p`.
proof fn lemma_occurrence_in_prefix(u: Seq<char>, p: Seq<char>, pat: Seq<char>, i: int)
    requires
        p.len() <= u.len(),
        u.subrange(0, p.len() as int) == p,
        p.len() == 0 || p.last() == '/',
        !pat.contains('/'),
        pat.len() > 0,
        occurs_at(u, pat, i),
        i < p.len(),
    ensures
        contains(p, pat),
{
    let pl = p.len() as int;
    assert(u[pl - 1] == '/') by {
        assert(u.subrange(0, pl)[pl - 1] == u[pl - 1]);
    }
    if i == pl - 1 {
        assert(u.subrange(i, i + pat.len())[0] == u[i]);
        assert(pat.contains(pat[0]));
    }
    lemma_occurrence_avoids(u, pat, '/', i, pl - 1);
    lemma_occurrence_inside(u, pat, i, 0, pl);
}

/// `github.com`, `github.` and `git@` are non-empty and hold no `/`.
proof fn lemma_markers_lack_slash()
    ensures
        "github.com"@.len() == 10 && !"github.com"@.contains('/'),
        "github."@.len() == 7 && !"github."@.contains('/'),
        "git@"@.len() == 4 && !"git@"@.contains('/'),
{
    reveal_strlit("github.com");
    reveal_strlit("github.");
    reveal_strlit("git@");
    assert forall|k: int| 0 <= k < 10 implies "github.com"@[k] != '/' by {
        assert(k == 0 || k == 1 || k == 2 || k == 3 || k == 4 || k == 5 || k == 6 || k == 7
            || k == 8 || k == 9);
    }
    assert forall|k: int| 0 <= k < 7 implies "github."@[k] != '/' by {
        assert(k == 0 || k == 1 || k == 2 || k == 3 || k == 4 || k == 5 || k == 6);
    }
    assert forall|k: int| 0 <= k < 4 implies "git@"@[k] != '/' by {
        assert(k == 0 || k == 1 || k == 2 || k == 3);
    }
}

/// Where the slashes of `prefix host/owner/repo` followed by `s` stand: at the
/// end of the prefix, after the host and after the owner, and nowhere else
/// after the prefix.
proof fn lemma_enterprise_url_layout(
    p: Seq<char>,
    h: Seq<char>,
    o: Seq<char>,
    r: Seq<char>,
    s: Seq<char>,
)
    requires
        !h.contains('/'),
        !o.contains('/'),
        !r.contains('/'),
        s.len() == 0 || s == ".git"@,
    ensures
        ({
            let u = p + h + seq!['/'] + o + seq!['/'] + r + s;
            let pl = p.len() as int;
            let a1 = pl + h.len();
            let a2 = a1 + 1 + o.len();
            &&& u.len() == a2 + 1 + r.len() + s.len()
            &&& u[a1] == '/'
            &&& u[a2] == '/'
            &&& u.subrange(0, pl) == p
            &&& u.subrange(pl, a1) == h
            &&& u.subrange(a1 + 1, a2) == o
            &&& u.subrange(a1 + 1, u.len() as int) == o + seq!['/'] + r + s
            &&& u.subrange(a2 + 1, u.len() as int) == r + s
            &&& forall|j: int| pl <= j < a1 ==> u[j] != '/'
            &&& forall|j: int| a2 < j < u.len() ==> u[j] != '/'
        }),
{
    lemma_dot_git_chars();
    let g = ".git"@;
    let x = o + seq!['/'] + r;
    let u = p + h + seq!['/'] + o + seq!['/'] + r + s;
    let pl = p.len() as int;
    let a1 = pl + h.len();
    let a2 = a1 + 1 + o.len();
    let n = u.len() as int;
    assert(u =~= p + h + seq!['/'] + (x + s));
    assert(u.subrange(0, pl) =~= p);
    assert(u.subrange(pl, a1) =~= h);
    assert(u.subrange(a1 + 1, a2) =~= o);
    assert(u.subrange(a1 + 1, n) =~= x + s);
    assert(u.subrange(a2 + 1, n) =~= r + s);
    assert forall|j: int| pl <= j < a1 implies u[j] != '/' by {
        assert(u[j] == h[j - pl]);
        if h[j - pl] == '/' {
            assert(h.contains('/'));
        }
    }
    assert forall|j: int| a2 < j < n implies u[j] != '/' by {
        assert(u[j] == (r + s)[j - a2 - 1]);
        if j - a2 - 1 < r.len() {
            if r[j - a2 - 1] == '/' {
                assert(r.contains('/'));
            }
        } else {
            if s[j - a2 - 1 - r.len()] == '/' {
                assert(g.contains('/'));
            }
        }
    }
}

/// Such a URL whose prefix holds no `github.` and whose host and owner hold no
/// `github.com` holds no `github.com/`.
#[verifier::rlimit(40)]
proof fn lemma_enterprise_url_lacks_github_com(
    p: Seq<char>,
    h: Seq<char>,
    o: Seq<char>,
    r: Seq<char>,
    s: Seq<char>,
)
    requires
        p.len() == 0 || p.last() == '/',
        !contains(p, "github."@),
        !h.contains('/'),
        !o.contains('/'),
        !r.contains('/'),
        s.len() == 0 || s == ".git"@,
        !contains(h, "github.com"@),
        !contains(o, "github.com"@),
    ensures
        !contains(p + h + seq!['/'] + o + seq!['/'] + r + s, "github.com/"@),
{
    reveal_strlit("github.com/");
    reveal_strlit("github.com");
    reveal_strlit("github.");
    lemma_enterprise_url_layout(p, h, o, r, s);
    lemma_markers_lack_slash();
    let u = p + h + seq!['/'] + o + seq!['/'] + r + s;
    let gc = "github.com"@;
    let gcs = "github.com/"@;
    let gh = "github."@;
    let pl = p.len() as int;
    let a1 = pl + h.len();
    let a2 = a1 + 1 + o.len();
    if contains(u, gcs) {
        let i = choose|i: int| occurs_at(u, gcs, i);
        assert(gcs[0] == 'g' && gcs[10] == '/');
        assert(u[i] == 'g') by {
            assert(u.subrange(i, i + 11)[0] == u[i]);
        }
        assert(u[i + 10] == '/') by {
            assert(u.subrange(i, i + 11)[10] == u[i + 10]);
        }
        assert(occurs_at(u, gc, i)) by {
            assert forall|k: int| 0 <= k < 10 implies #[trigger] u.subrange(i, i + 10)[k]
                == gc[k] by {
                assert(u.subrange(i, i + 11)[k] == u[i + k]);
                assert(gcs[k] == gc[k]);
            }
            assert(u.subrange(i, i + 10) =~= gc);
        }
        if i < pl {
            assert(occurs_at(u, gh, i)) by {
                assert forall|k: int| 0 <= k < 7 implies #[trigger] u.subrange(i, i + 7)[k]
                    == gh[k] by {
                    assert(u.subrange(i, i + 11)[k] == u[i + k]);
                    assert(gcs[k] == gh[k]);
                }
                assert(u.subrange(i, i + 7) =~= gh);
            }
            lemma_occurrence_in_prefix(u, p, gh, i);
        } else if i < a1 {
            lemma_occurrence_within(u, gc, '/', i, pl, a1);
        } else if i == a1 || i == a2 {
            assert(u[i] == '/');
        } else if i < a2 {
            lemma_occurrence_within(u, gc, '/', i, a1 + 1, a2);
        } else {
            assert(u[i + 10] != '/');
        }
    }
}

/// Such a URL whose prefix and pieces hold no `git@` holds none.
proof fn lemma_enterprise_url_lacks_ssh_marker(
    p: Seq<char>,
    h: Seq<char>,
    o: Seq<char>,
    r: Seq<char>,
    s: Seq<char>,
)
    requires
        p.len() == 0 || p.last() == '/',
        !contains(p, "git@"@),
        !h.contains('/'),
        !o.contains('/'),
        !r.contains('/'),
        s.len() == 0 || s == ".git"@,
        !contains(h, "git@"@),
        !contains(o, "git@"@),
        !contains(r, "git@"@),
    ensures
        !contains(p + h + seq!['/'] + o + seq!['/'] + r + s, "git@"@),
{
    reveal_strlit("git@");
    lemma_dot_git_chars();
    lemma_enterprise_url_layout(p, h, o, r, s);
    lemma_markers_lack_slash();
    let u = p + h + seq!['/'] + o + seq!['/'] + r + s;
    let at = "git@"@;
    let pl = p.len() as int;
    let a1 = pl + h.len();
    let a2 = a1 + 1 + o.len();
    if contains(u, at) {
        let i = choose|i: int| occurs_at(u, at, i);
        assert(u.subrange(i, i + 4)[0] == u[i]);
        if i < pl {
            lemma_occurrence_in_prefix(u, p, at, i);
        } else if i < a1 {
            lemma_occurrence_within(u, at, '/', i, pl, a1);
        } else if a1 < i < a2 {
            lemma_occurrence_within(u, at, '/', i, a1 + 1, a2);
        } else if i > a2 {
            lemma_occurrence_within(u, at, '/', i, a2 + 1, u.len() as int);
            let rs = r + s;
            let i2 = choose|i2: int| occurs_at(rs, at, i2);
            if s.len() == 0 {
                assert(rs =~= r);
            } else {
                lemma_occurs_at_append(r, ".git"@, at, i2);
            }
        }
    }
}

/// The repository path of such a URL without `github.com/`, whose prefix
/// holds no `github.` and whose host does, is what follows its host.
proof fn lemma_enterprise_url_path(p: Seq<char>, h: Seq<char>, o: Seq<char>, r: Seq<char>, s: Seq<char>)
    requires
        p.len() == 0 || p.last() == '/',
        !contains(p, "github."@),
        !h.contains('/'),
        !o.contains('/'),
        !r.contains('/'),
        s.len() == 0 || s == ".git"@,
        contains(h, "github."@),
        !contains(p + h + seq!['/'] + o + seq!['/'] + r + s, "github.com/"@),
    ensures
        https_repo_path(p + h + seq!['/'] + o + seq!['/'] + r + s) == Some(
            o + seq!['/'] + r + s,
        ),
{
    reveal_strlit("github.");
    lemma_enterprise_url_layout(p, h, o, r, s);
    lemma_markers_lack_slash();
    let u = p + h + seq!['/'] + o + seq!['/'] + r + s;
    let gh = "github."@;
    let pl = p.len() as int;
    let a1 = pl + h.len();
    let j0 = choose|j: int| occurs_at(h, gh, j);
    assert(occurs_at(u, gh, pl + j0)) by {
        assert forall|k: int| 0 <= k < 7 implies #[trigger] u.subrange(pl + j0, pl + j0 + 7)[k]
            == h.subrange(j0, j0 + 7)[k] by {
            assert(u.subrange(pl, a1)[j0 + k] == u[pl + j0 + k]);
        }
        assert(u.subrange(pl + j0, pl + j0 + 7) =~= h.subrange(j0, j0 + 7));
    }
    lemma_find(u, "github.com/"@);
    lemma_find(u, gh);
    let k = find(u, gh)->0;
    if k < pl {
        lemma_occurrence_in_prefix(u, p, gh, k);
    }
    assert(pl <= k <= a1 - 7);
    assert(occurs_at(u, seq!['/'], a1)) by {
        assert(u.subrange(a1, a1 + 1) =~= seq!['/']);
    }
    lemma_find_from(u, seq!['/'], k);
    let m = find_from(u, seq!['/'], k)->0;
    assert(u.subrange(m, m + 1)[0] == u[m]);
    assert(m == a1);
}

/// An HTTPS remote on a GitHub Enterprise host, `host/owner/repo` after any
/// scheme or prefix that ends in `/` (`https://`, `http://`, ...) and holds
/// neither `github.` nor `git@`, optionally followed by `.git`, names that
/// owner and repo, when the host holds `github.` but not `github.com`, the
/// names are non-empty, none of host, owner and repo holds `/` or `git@`, the
/// owner does not hold `github.com`, and the repo does not end in `.git` (`l`
/// is the URL's lowercase form: its ASCII lowercasing, which every ASCII URL
/// has, or any form that names a GitHub host).
pub proof fn lemma_enterprise_remote_after_any_scheme_round_trip(
    p: Seq<char>,
    h: Seq<char>,
    o: Seq<char>,
    r: Seq<char>,
    s: Seq<char>,
    l: Seq<char>,
)
    requires
        p.len() == 0 || p.last() == '/',
        !contains(p, "github."@),
        !contains(p, "git@"@),
        contains(h, "github."@),
        !contains(h, "github.com"@),
        !h.contains('/'),
        !contains(h, "git@"@),
        o.len() > 0,
        r.len() > 0,
        !o.contains('/'),
        !r.contains('/'),
        !contains(o, "git@"@),
        !contains(r, "git@"@),
        !contains(o, "github.com"@),
        !(r.len() >= 4 && r.subrange(r.len() - 4, r.len() as int) == ".git"@),
        s.len() == 0 || s == ".git"@,
        is_ascii_lowercase_of(p + h + seq!['/'] + o + seq!['/'] + r + s, l) || contains(
            l,
            "github.com"@,
        ) || contains(l, "github."@),
    ensures
        github_owner_repo(p + h + seq!['/'] + o + seq!['/'] + r + s, l) == Some((o, r)),
{
    let u = p + h + seq!['/'] + o + seq!['/'] + r + s;
    if is_ascii_lowercase_of(u, l) {
        lemma_enterprise_url_layout(p, h, o, r, s);
        let pl = p.len() as int;
        let j0 = choose|j: int| occurs_at(h, "github."@, j);
        reveal_strlit("github.");
        assert(occurs_at(u, "github."@, pl + j0)) by {
            assert forall|k: int| 0 <= k < 7 implies #[trigger] u.subrange(pl + j0, pl + j0 + 7)[k]
                == h.subrange(j0, j0 + 7)[k] by {
                assert(u.subrange(pl, pl + h.len())[j0 + k] == u[pl + j0 + k]);
            }
            assert(u.subrange(pl + j0, pl + j0 + 7) =~= h.subrange(j0, j0 + 7));
        }
        lemma_github_markers_lowercase();
        lemma_ascii_lowercase_keeps_lowercase_text(u, l, "github."@);
    }
    lemma_enterprise_url_lacks_github_com(p, h, o, r, s);
    lemma_enterprise_url_lacks_ssh_marker(p, h, o, r, s);
    lemma_enterprise_url_path(p, h, o, r, s);
    lemma_trim_owner_repo(o, r, s);
    lemma_split_owner_repo(trim_end(o + seq!['/'] + r + s, ".git"@), o, r);
}

/// An HTTPS remote on a GitHub Enterprise host, `https://host/owner/repo`,
/// optionally followed by `.git`, names that owner and repo, when the host
/// holds `github.` but not `github.com`, the names are non-empty, none of the
/// three holds `/` or `git@`, the owner does not hold `github.com`, and the
/// repo does not end in `.git` (`l` is the URL's lowercase form: its ASCII
/// lowercasing, which every ASCII URL has, or any form that names a GitHub
/// host).
pub proof fn lemma_enterprise_remote_round_trip(
    h: Seq<char>,
    o: Seq<char>,
    r: Seq<char>,
    s: Seq<char>,
    l: Seq<char>,
)
    requires
        contains(h, "github."@),
        !contains(h, "github.com"@),
        !h.contains('/'),
        !contains(h, "git@"@),
        o.len() > 0,
        r.len() > 0,
        !o.contains('/'),
        !r.contains('/'),
        !contains(o, "git@"@),
        !contains(r, "git@"@),
        !contains(o, "github.com"@),
        !(r.len() >= 4 && r.subrange(r.len() - 4, r.len() as int) == ".git"@),
        s.len() == 0 || s == ".git"@,
        is_ascii_lowercase_of(enterprise_url(h, o, r, s), l) || contains(l, "github.com"@)
            || contains(l, "github."@),
    ensures
        github_owner_repo(enterprise_url(h, o, r, s), l) == Some((o, r)),
{
    reveal_strlit("https://");
    let p = "https://"@;
    assert forall|j: int| 0 <= j < p.len() implies p[j] != 'g' by {
        assert(j == 0 || j == 1 || j == 2 || j == 3 || j == 4 || j == 5 || j == 6 || j == 7);
    }
    lemma_text_without_g_lacks(p, "github."@);
    lemma_text_without_g_lacks(p, "git@"@);
    lemma_enterprise_remote_after_any_scheme_round_trip(p, h, o, r, s, l);
}

/// An SSH remote `git@github.com:owner/repo`, optionally followed by `.git`,
/// names that owner and repo, when the names are non-empty, hold no `/` and
/// no `:`, and the repo does not end in `.git` (`l` is the URL's lowercase
/// form: its ASCII lowercasing, which every ASCII URL has, or any form that
/// names a GitHub host).
pub proof fn lemma_ssh_remote_round_trip(o: Seq<char>, r: Seq<char>, s: Seq<char>, l: Seq<char>)
    requires
        o.len() > 0,
        r.len() > 0,
        !o.contains('/'),
        !r.contains('/'),
        !o.contains(':'),
        !r.contains(':'),
        !(r.len() >= 4 && r.subrange(r.len() - 4, r.len() as int) == ".git"@),
        s.len() == 0 || s == ".git"@,
        is_ascii_lowercase_of("git@github.com:"@ + o + seq!['/'] + r + s, l) || contains(
            l,
            "github.com"@,
        ) || contains(l, "github."@),
    ensures
        github_owner_repo("git@github.com:"@ + o + seq!['/'] + r + s, l) == Some((o, r)),
{
    reveal_strlit("git@github.com:");
    reveal_strlit("git@");
    lemma_dot_git_chars();
    let g = ".git"@;
    let q = "git@github.com:"@;
    let x = o + seq!['/'] + r;
    let u = q + o + seq!['/'] + r + s;
    assert(u =~= q + (x + s));
    if is_ascii_lowercase_of(u, l) {
        reveal_strlit("github.com");
        assert(occurs_at(u, "github.com"@, 4)) by {
            assert(u.subrange(4, 14) =~= "github.com"@);
        }
        lemma_github_markers_lowercase();
        lemma_ascii_lowercase_keeps_lowercase_text(u, l, "github.com"@);
    }
    assert forall|j: int| 0 <= j < 15 implies u[j] == q[j] by {}
    assert(occurs_at(u, "git@"@, 0)) by {
        assert(u.subrange(0, 4) =~= "git@"@);
    }
    assert(u.contains(':')) by {
        assert(u[14] == ':');
    }
    assert forall|j: int| 0 <= j < 14 implies u[j] != ':' by {
        assert(q[j] != ':');
    }
    lemma_split_first(u, ':', 14);
    let rest = u.subrange(15, u.len() as int);
    assert(rest =~= x + s);
    assert forall|j: int| 0 <= j < rest.len() implies rest[j] != ':' by {
        if j < o.len() {
            assert(rest[j] == o[j]);
            if o[j] == ':' {
                assert(o.contains(':'));
            }
        } else if j == o.len() {
        } else if j < x.len() {
            assert(rest[j] == r[j - o.len() - 1]);
            if r[j - o.len() - 1] == ':' {
                assert(r.contains(':'));
            }
        } else {
            assert(rest[j] == s[j - x.len()]);
            if s[j - x.len()] == ':' {
                assert(g.contains(':'));
            }
        }
    }
    lemma_split_none(rest, ':');
    assert(split(u, ':') =~= seq![u.subrange(0, 14), x + s]);
    lemma_trim_owner_repo(o, r, s);
    lemma_split_owner_repo(trim_end(x + s, g), o, r);
}

/// An SSH remote `git@host:owner/repo` on any GitHub host (one that holds
/// `github.`, such as `github.com` or an Enterprise host), optionally followed
/// by `.git`, names that owner and repo, when the host holds no `:`, the names
/// are non-empty, hold no `/` and no `:`, and the repo does not end in `.git`
/// (`l` is the URL's lowercase form: its ASCII lowercasing, which every ASCII
/// URL has, or any form that names a GitHub host).
pub proof fn lemma_ssh_remote_on_any_github_host_round_trip(
    h: Seq<char>,
    o: Seq<char>,
    r: Seq<char>,
    s: Seq<char>,
    l: Seq<char>,
)
    requires
        contains(h, "github."@),
        !h.contains(':'),
        o.len() > 0,
        r.len() > 0,
        !o.contains('/'),
        !r.contains('/'),
        !o.contains(':'),
        !r.contains(':'),
        !(r.len() >= 4 && r.subrange(r.len() - 4, r.len() as int) == ".git"@),
        s.len() == 0 || s == ".git"@,
        is_ascii_lowercase_of("git@"@ + h + seq![':'] + o + seq!['/'] + r + s, l) || contains(
            l,
            "github.com"@,
        ) || contains(l, "github."@),
    ensures
        github_owner_repo("git@"@ + h + seq![':'] + o + seq!['/'] + r + s, l) == Some((o, r)),
{
    reveal_strlit("git@");
    reveal_strlit("github.");
    lemma_dot_git_chars();
    let g = ".git"@;
    let at = "git@"@;
    let x = o + seq!['/'] + r;
    let u = at + h + seq![':'] + o + seq!['/'] + r + s;
    let c: int = 4 + h.len() as int;
    assert(u =~= at + h + seq![':'] + (x + s));
    assert(u[c] == ':');
    assert forall|j: int| 0 <= j < h.len() implies u[4 + j] == h[j] by {}
    if is_ascii_lowercase_of(u, l) {
        let j0 = choose|j: int| occurs_at(h, "github."@, j);
        assert(occurs_at(u, "github."@, 4 + j0)) by {
            assert forall|k: int| 0 <= k < 7 implies #[trigger] u.subrange(4 + j0, 4 + j0 + 7)[k]
                == h.subrange(j0, j0 + 7)[k] by {
                assert(u[4 + j0 + k] == h[j0 + k]);
            }
            assert(u.subrange(4 + j0, 4 + j0 + 7) =~= h.subrange(j0, j0 + 7));
        }
        lemma_github_markers_lowercase();
        lemma_ascii_lowercase_keeps_lowercase_text(u, l, "github."@);
    }
    assert(occurs_at(u, at, 0)) by {
        assert(u.subrange(0, 4) =~= at);
    }
    assert(u.contains(':'));
    assert forall|j: int| 0 <= j < c implies u[j] != ':' by {
        if j < 4 {
            assert(u[j] == at[j]);
            assert(j == 0 || j == 1 || j == 2 || j == 3);
        } else {
            assert(u[j] == h[j - 4]);
            if h[j - 4] == ':' {
                assert(h.contains(':'));
            }
        }
    }
    lemma_split_first(u, ':', c);
    let rest = u.subrange(c + 1, u.len() as int);
    assert(rest =~= x + s);
    assert forall|j: int| 0 <= j < rest.len() implies rest[j] != ':' by {
        if j < o.len() {
            assert(rest[j] == o[j]);
            if o[j] == ':' {
                assert(o.contains(':'));
            }
        } else if j == o.len() {
        } else if j < x.len() {
            assert(rest[j] == r[j - o.len() - 1]);
            if r[j - o.len() - 1] == ':' {
                assert(r.contains(':'));
            }
        } else {
            assert(rest[j] == s[j - x.len()]);
            if s[j - x.len()] == ':' {
                assert(g.contains(':'));
            }
        }
    }
    lemma_split_none(rest, ':');
    assert(split(u, ':') =~= seq![u.subrange(0, c), x + s]);
    lemma_trim_owner_repo(o, r, s);
    lemma_split_owner_repo(trim_end(x + s, g), o, r);
}

/// A remote URL in SSH form (holding `git@`) with more than one `:` names no
/// GitHub repository.
pub proof fn lemma_ssh_remote_with_several_colons_is_refused(u: Seq<char>, l: Seq<char>, i: int, j: int)
    requires
        contains(u, "git@"@),
        0 <= i < j < u.len(),
        u[i] == ':',
        u[j] == ':',
    ensures
        github_owner_repo(u, l) is None,
{
    lemma_split_counts_separators(u, ':', i, j);
}

/// The owner parsed from a remote URL in SSH form (holding `git@` and `:`)
/// directly follows its `:`, and the repo directly follows the owner and a
/// `/`.
pub proof fn lemma_ssh_owner_and_repo_follow_the_colon(u: Seq<char>, l: Seq<char>)
    requires
        contains(u, "git@"@),
        u.contains(':'),
    ensures
        github_owner_repo(u, l) matches Some((o, r)) ==> contains(
            u,
            seq![':'] + o + seq!['/'] + r,
        ),
{
    if github_owner_repo(u, l) is Some {
        let parts = split(u, ':');
        lemma_split_head(u, ':');
        let k = parts[0].len() as int;
        let v = u.subrange(k + 1, u.len() as int);
        lemma_split_head(v, ':');
        assert(split(v, ':') == parts.drop_first());
        assert(parts[1] == v);
        let t = trim_end(v, ".git"@);
        lemma_trim_end_prefix(v, ".git"@);
        let pp = split(t, '/');
        lemma_split_head(t, '/');
        let o = pp[0];
        let w = t.subrange(o.len() as int + 1, t.len() as int);
        lemma_split_head(w, '/');
        let r = pp[1];
        assert(split(w, '/')[0] == r);
        let m = o.len() + 1 + r.len();
        let x = seq![':'] + o + seq!['/'] + r;
        assert forall|q: int| 0 <= q < x.len() implies #[trigger] u.subrange(k, k + x.len())[q]
            == x[q] by {
            if q == 0 {
            } else if q <= o.len() {
                assert(t.subrange(0, o.len() as int)[q - 1] == t[q - 1]);
                assert(v.subrange(0, t.len() as int)[q - 1] == v[q - 1]);
            } else if q == o.len() + 1 {
                assert(v.subrange(0, t.len() as int)[q - 1] == v[q - 1]);
            } else {
                let z = q - o.len() - 2;
                assert(w.subrange(0, r.len() as int)[z] == w[z]);
                assert(w[z] == t[o.len() + 1 + z]);
                assert(v.subrange(0, t.len() as int)[q - 1] == v[q - 1]);
            }
        }
        assert(u.subrange(k, k + x.len()) =~= x);
        assert(occurs_at(u, x, k));
    }
}

/// A pull-request URL without a `/pull/` or `/pullrequest/` path is classified
/// as the same URL would be as a remote.
pub proof fn lemma_pr_url_falls_back_to_remote_detection(l: Seq<char>)
    requires
        !contains(l, "/pull/"@),
        !contains(l, "/pullrequest/"@),
    ensures
        pr_provider_of_lowercase(l) == provider_of_lowercase(l),
{
}


/// The repository path of an HTTPS remote followed by `.git` is the path of the
/// remote without it, followed by `.git`.
proof fn lemma_https_repo_path_append_git(u: Seq<char>)
    ensures
        match https_repo_path(u) {
            Some(path) => https_repo_path(u + ".git"@) == Some(path + ".git"@),
            None => https_repo_path(u + ".git"@) is None,
        },
{
    reveal_strlit(".git");
    reveal_strlit("github.com/");
    reveal_strlit("github.");
    let t = ".git"@;
    let w = u + t;
    let dotcom = "github.com/"@;
    let dot = "github."@;
    let slash = seq!['/'];
    assert(!t.contains('/')) by {
        if t.contains('/') {
            let k = choose|k: int| 0 <= k < t.len() && t[k] == '/';
            assert(k == 0 || k == 1 || k == 2 || k == 3);
        }
    }
    assert(dotcom.last() == '/');
    assert(slash.last() == '/');
    lemma_find_from_append(u, t, dotcom, 0);
    lemma_find(u, dotcom);
    match find(u, dotcom) {
        Some(i) => {
            assert(w.subrange(i + dotcom.len(), w.len() as int) =~= u.subrange(
                i + dotcom.len(),
                u.len() as int,
            ) + t);
        },
        None => {
            lemma_find(u, dot);
            match find(u, dot) {
                Some(i) => {
                    lemma_find_from_prefix(u, t, dot, 0, i);
                    lemma_find_from_append(u, t, slash, i);
                    lemma_find_from(u, slash, i);
                    match find_from(u, slash, i) {
                        Some(j) => {
                            assert(w.subrange(j + 1, w.len() as int) =~= u.subrange(
                                j + 1,
                                u.len() as int,
                            ) + t);
                        },
                        None => {},
                    }
                },
                None => {
                    lemma_find(w, dot);
                    match find(w, dot) {
                        Some(k) => {
                            let n = dot.len() as int;
                            if k + n <= u.len() {
                                assert(u.subrange(k, k + n) =~= w.subrange(k, k + n));
                                assert(occurs_at(u, dot, k));
                            }
                            assert forall|j: int| k <= j < w.len() implies w[j] != '/' by {
                                if j < k + n {
                                    assert(w.subrange(k, k + n)[j - k] == w[j]);
                                    assert(dot[j - k] != '/');
                                } else {
                                    assert(w[j] == t[j - u.len()]);
                                }
                            }
                            lemma_find_from_char_absent(w, '/', k);
                        },
                        None => {},
                    }
                },
            }
        },
    }
}

/// A remote URL names the same GitHub owner and repo with or without a
/// trailing `.git`.
pub proof fn lemma_trailing_git_suffix_is_ignored(u: Seq<char>, l: Seq<char>)
    ensures
        github_owner_repo(u + ".git"@, l) == github_owner_repo(u, l),
{
    reveal_strlit(".git");
    reveal_strlit("git@");
    let t = ".git"@;
    let w = u + t;
    let at = "git@"@;
    assert(!t.contains('@')) by {
        if t.contains('@') {
            let k = choose|k: int| 0 <= k < t.len() && t[k] == '@';
            assert(k == 0 || k == 1 || k == 2 || k == 3);
        }
    }
    assert(!t.contains(':')) by {
        if t.contains(':') {
            let k = choose|k: int| 0 <= k < t.len() && t[k] == ':';
            assert(k == 0 || k == 1 || k == 2 || k == 3);
        }
    }
    assert(at.last() == '@');
    lemma_find_from_append(u, t, at, 0);
    lemma_find(u, at);
    lemma_find(w, at);
    assert(w.contains(':') == u.contains(':')) by {
        if w.contains(':') {
            let k = choose|k: int| 0 <= k < w.len() && w[k] == ':';
            if k >= u.len() {
                assert(t[k - u.len()] == ':');
            } else {
                assert(u[k] == ':');
            }
        }
        if u.contains(':') {
            let k = choose|k: int| 0 <= k < u.len() && u[k] == ':';
            assert(w[k] == ':');
        }
    }
    if contains(u, at) && u.contains(':') {
        lemma_split_append(u, t, ':');
        lemma_split_nonempty(u, ':');
        let parts = split(u, ':');
        if parts.len() == 2 {
            assert(split(w, ':')[1] == parts[1] + t);
            lemma_trim_end_append(parts[1], t);
        }
    } else {
        lemma_https_repo_path_append_git(u);
        match https_repo_path(u) {
            Some(path) => {
                lemma_trim_end_append(path, t);
            },
            None => {},
        }
    }
}

/// A URL on github.com is GitHub; any other URL with an Azure DevOps host or a
/// `/_git/` path is Azure DevOps, even on a GitHub Enterprise host.
pub proof fn lemma_azure_markers_before_enterprise(l: Seq<char>)
    ensures
        contains(l, "github.com"@) ==> provider_of_lowercase(l) == ProviderKind::GitHub,
        !contains(l, "github.com"@) && (contains(l, "/_git/"@) || contains(l, "dev.azure.com"@)
            || contains(l, ".visualstudio.com"@)) ==> provider_of_lowercase(l)
            == ProviderKind::AzureDevOps,
{
}

/// A remote URL is classified as GitHub only when its lowercase form names a
/// GitHub host, as Azure DevOps only when it carries an Azure DevOps marker,
/// and as unknown when it carries none of these; a GitHub host that is no
/// Azure DevOps URL is always classified as GitHub.
pub proof fn lemma_provider_needs_its_markers(l: Seq<char>)
    ensures
        provider_of_lowercase(l) == ProviderKind::GitHub ==> contains(l, "github.com"@) || contains(
            l,
            "github."@,
        ),
        provider_of_lowercase(l) == ProviderKind::AzureDevOps ==> contains(l, "dev.azure.com"@)
            || contains(l, ".visualstudio.com"@) || contains(l, "ssh.dev.azure.com"@) || contains(
            l,
            "/_git/"@,
        ),
        !contains(l, "github.com"@) && !contains(l, "github."@) && !contains(l, "dev.azure.com"@)
            && !contains(l, ".visualstudio.com"@) && !contains(l, "ssh.dev.azure.com"@) && !contains(
            l,
            "/_git/"@,
        ) ==> provider_of_lowercase(l) == ProviderKind::Unknown,
        contains(l, "github."@) && !contains(l, "dev.azure.com"@) && !contains(
            l,
            ".visualstudio.com"@,
        ) && !contains(l, "ssh.dev.azure.com"@) && !contains(l, "/_git/"@)
            ==> provider_of_lowercase(l) == ProviderKind::GitHub,
{
}

/// A pull-request URL is classified as GitHub only when its lowercase form
/// names a GitHub host, as Azure DevOps only when it has a `/pullrequest/`
/// path or an Azure DevOps marker, and as unknown when it has none of these; a
/// `/pull/` path on a GitHub host is always GitHub, and a `/pullrequest/` path
/// without one is always Azure DevOps.
pub proof fn lemma_pr_provider_needs_its_markers(l: Seq<char>)
    ensures
        pr_provider_of_lowercase(l) == ProviderKind::GitHub ==> contains(l, "github.com"@)
            || contains(l, "github."@),
        pr_provider_of_lowercase(l) == ProviderKind::AzureDevOps ==> contains(l, "/pullrequest/"@)
            || contains(l, "dev.azure.com"@) || contains(l, ".visualstudio.com"@) || contains(
            l,
            "ssh.dev.azure.com"@,
        ) || contains(l, "/_git/"@),
        !contains(l, "github.com"@) && !contains(l, "github."@) && !contains(l, "/pullrequest/"@)
            && !contains(l, "dev.azure.com"@) && !contains(l, ".visualstudio.com"@) && !contains(
            l,
            "ssh.dev.azure.com"@,
        ) && !contains(l, "/_git/"@) ==> pr_provider_of_lowercase(l) == ProviderKind::Unknown,
        contains(l, "/pull/"@) && (contains(l, "github.com"@) || contains(l, "github."@))
            ==> pr_provider_of_lowercase(l) == ProviderKind::GitHub,
        contains(l, "/pullrequest/"@) && !contains(l, "github.com"@) && !contains(l, "github."@)
            ==> pr_provider_of_lowercase(l) == ProviderKind::AzureDevOps,
{
    lemma_provider_needs_its_markers(l);
}

} // verus!
