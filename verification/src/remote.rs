//! The remote snapshot: items fetched from the issue tracker, and the
//! best-effort resolution of the container (repository) each item belongs
//! to.  The container name is tried in order: the explicit repository field,
//! the API resource URL, the canonical web URL, and finally a literal
//! "unknown" sentinel.

use vstd::prelude::*;

use crate::strutil::{spec_split, str_split, lemma_spec_split_len};

verus! {

/// Remote account that authored an item.
#[derive(Debug, Clone)]
pub struct GitHubUser {
    pub login: String,
}

/// Remote repository reference carried by an item.
#[derive(Debug, Clone)]
pub struct GitHubRepository {
    pub full_name: String,
}

/// Mathematical value of a remote item.
#[verifier::ext_equal]
pub ghost struct GitHubIssueV {
    pub id: int,
    pub number: int,
    pub title: Seq<char>,
    pub html_url: Seq<char>,
    pub state: Seq<char>,
    pub body: Option<Seq<char>>,
    pub repository: Option<Seq<char>>,
    pub repository_url: Option<Seq<char>>,
    pub user: Option<Seq<char>>,
    pub pull_request: bool,
}

/// One remote item: an issue or a pull request, as the fetch layer hands it
/// over.  `pull_request` records whether the raw item carried a
/// pull-request marker.
pub struct GitHubIssue {
    pub id: i64,
    pub number: i64,
    pub title: String,
    pub html_url: String,
    pub state: String,
    pub body: Option<String>,
    pub repository: Option<GitHubRepository>,
    pub repository_url: Option<String>,
    pub user: Option<GitHubUser>,
    pub pull_request: bool,
}

impl View for GitHubIssue {
    type V = GitHubIssueV;

    open spec fn view(&self) -> GitHubIssueV {
        GitHubIssueV {
            id: self.id as int,
            number: self.number as int,
            title: self.title@,
            html_url: self.html_url@,
            state: self.state@,
            body: self.body.deep_view(),
            repository: match self.repository {
                Some(ref r) => Some(r.full_name@),
                None => None,
            },
            repository_url: self.repository_url.deep_view(),
            user: match self.user {
                Some(ref u) => Some(u.login@),
                None => None,
            },
            pull_request: self.pull_request,
        }
    }
}

impl DeepView for GitHubIssue {
    type V = GitHubIssueV;

    open spec fn deep_view(&self) -> GitHubIssueV {
        self.view()
    }
}

impl Clone for GitHubIssue {
    fn clone(&self) -> (r: Self)
        ensures
            r@ == self@,
    {
        let r = GitHubIssue {
            id: self.id,
            number: self.number,
            title: self.title.clone(),
            html_url: self.html_url.clone(),
            state: self.state.clone(),
            body: self.body.clone(),
            repository: match &self.repository {
                Some(rep) => Some(GitHubRepository { full_name: rep.full_name.clone() }),
                None => None,
            },
            repository_url: self.repository_url.clone(),
            user: match &self.user {
                Some(u) => Some(GitHubUser { login: u.login.clone() }),
                None => None,
            },
            pull_request: self.pull_request,
        };
        proof {
            assert(r@ =~= self@);
        }
        r
    }
}

/// The last two fields of a slash-separated URL joined back with a slash:
/// how an owner/repo pair is read out of an API resource URL.
pub open spec fn spec_repo_from_url(url: Seq<char>) -> Option<Seq<char>> {
    let parts = spec_split(url, '/');
    if parts.len() >= 2 {
        Some(parts[parts.len() - 2] + seq!['/'] + parts[parts.len() - 1])
    } else {
        None
    }
}

/// The owner/repo pair read out of a canonical web URL of the form
/// `https://github.com/owner/repo/...`.
pub open spec fn spec_repo_from_html_url(url: Seq<char>) -> Option<Seq<char>> {
    let parts = spec_split(url, '/');
    if parts.len() >= 5 && parts[2] == "github.com"@ {
        Some(parts[3] + seq!['/'] + parts[4])
    } else {
        None
    }
}

/// The container name of an item: explicit repository field first, then the
/// API resource URL, then the web URL, else the "unknown" sentinel.
pub open spec fn spec_repo_name(v: GitHubIssueV) -> Seq<char> {
    match v.repository {
        Some(name) => name,
        None => match v.repository_url {
            Some(u) => match spec_repo_from_url(u) {
                Some(name) => name,
                None => spec_repo_name_from_html(v),
            },
            None => spec_repo_name_from_html(v),
        },
    }
}

/// Fallback container resolution from the web URL alone.
pub open spec fn spec_repo_name_from_html(v: GitHubIssueV) -> Seq<char> {
    match spec_repo_from_html_url(v.html_url) {
        Some(name) => name,
        None => "unknown"@,
    }
}

/// Extract owner/repo from an API resource URL
/// (e.g. `https://api.github.com/repos/owner/repo`).
pub fn extract_repo_from_url(url: &str) -> (r: Option<String>)
    ensures
        r.deep_view() == spec_repo_from_url(url@),
{
    let parts = str_split(url, '/');
    proof {
        lemma_spec_split_len(url@, '/');
    }
    if parts.len() >= 2 {
        let owner = parts[parts.len() - 2].clone();
        let repo = parts[parts.len() - 1].clone();
        let joined = owner.concat("/").concat(repo.as_str());
        proof {
            assert(joined@ =~= spec_split(url@, '/')[spec_split(url@, '/').len() - 2] + seq!['/']
                + spec_split(url@, '/')[spec_split(url@, '/').len() - 1]) by {
                reveal_strlit("/");
            }
        }
        Some(joined)
    } else {
        None
    }
}

/// Extract owner/repo from a canonical web URL
/// (e.g. `https://github.com/owner/repo/issues/123`).
pub fn extract_repo_from_html_url(url: &str) -> (r: Option<String>)
    ensures
        r.deep_view() == spec_repo_from_html_url(url@),
{
    let parts = str_split(url, '/');
    proof {
        lemma_spec_split_len(url@, '/');
    }
    if parts.len() >= 5 && crate::strutil::str_eq(parts[2].as_str(), "github.com") {
        let owner = parts[3].clone();
        let repo = parts[4].clone();
        let joined = owner.concat("/").concat(repo.as_str());
        proof {
            assert(joined@ =~= spec_split(url@, '/')[3] + seq!['/'] + spec_split(url@, '/')[4])
                by {
                reveal_strlit("/");
            }
        }
        Some(joined)
    } else {
        None
    }
}

impl GitHubIssue {
    /// The container (owner/repo) name this item belongs to, resolved best
    /// effort, falling back to the "unknown" sentinel.
    pub fn repo_name(&self) -> (r: String)
        ensures
            r@ == spec_repo_name(self@),
    {
        if let Some(repo) = &self.repository {
            return repo.full_name.clone();
        }
        if let Some(url) = &self.repository_url {
            if let Some(name) = extract_repo_from_url(url.as_str()) {
                return name;
            }
        }
        if let Some(name) = extract_repo_from_html_url(self.html_url.as_str()) {
            return name;
        }
        String::from_str("unknown")
    }

    /// Whether this item is a pull request.
    pub fn is_pr(&self) -> (r: bool)
        ensures
            r == self@.pull_request,
    {
        self.pull_request
    }
}

/// Fill in the repository field when it is missing, so that the container
/// name is always explicit downstream.
pub fn normalize_issue(issue: GitHubIssue) -> (r: GitHubIssue)
    ensures
        r@ == (GitHubIssueV { repository: Some(spec_repo_name(issue@)), ..issue@ }),
{
    let ghost old_issue = issue@;
    if issue.repository.is_some() {
        proof {
            assert(issue@ =~= (GitHubIssueV { repository: Some(spec_repo_name(old_issue)), ..old_issue }));
        }
        return issue;
    }
    let full_name = issue.repo_name();
    let mut issue = issue;
    issue.repository = Some(GitHubRepository { full_name });
    proof {
        assert(issue@ =~= (GitHubIssueV { repository: Some(spec_repo_name(old_issue)), ..old_issue }));
    }
    issue
}

/// The three streams of a remote snapshot: pull requests awaiting my
/// review, my open pull requests, and issues assigned to me.
pub struct GitHubData {
    pub review_prs: Vec<GitHubIssue>,
    pub my_prs: Vec<GitHubIssue>,
    pub assigned_issues: Vec<GitHubIssue>,
}

/// Mathematical value of a snapshot.
#[verifier::ext_equal]
pub ghost struct GitHubDataV {
    pub review_prs: Seq<GitHubIssueV>,
    pub my_prs: Seq<GitHubIssueV>,
    pub assigned_issues: Seq<GitHubIssueV>,
}

impl View for GitHubData {
    type V = GitHubDataV;

    open spec fn view(&self) -> GitHubDataV {
        GitHubDataV {
            review_prs: self.review_prs.deep_view(),
            my_prs: self.my_prs.deep_view(),
            assigned_issues: self.assigned_issues.deep_view(),
        }
    }
}

impl Default for GitHubData {
    fn default() -> (r: Self)
        ensures
            r@.review_prs == Seq::<GitHubIssueV>::empty(),
            r@.my_prs == Seq::<GitHubIssueV>::empty(),
            r@.assigned_issues == Seq::<GitHubIssueV>::empty(),
    {
        let r = GitHubData { review_prs: Vec::new(), my_prs: Vec::new(), assigned_issues: Vec::new() };
        proof {
            assert(r@.review_prs =~~= Seq::<GitHubIssueV>::empty());
            assert(r@.my_prs =~~= Seq::<GitHubIssueV>::empty());
            assert(r@.assigned_issues =~~= Seq::<GitHubIssueV>::empty());
        }
        r
    }
}

} // verus!
