use remote::git_host::{
    classify_lowercase_pr_url, classify_lowercase_url, detect_provider_from_pr_url,
    detect_provider_from_url, parse_github_owner_repo, parse_owner_repo_with_lowercase,
    GitHubRepoFromUrl, ProviderKind,
};

fn repo(owner: &str, repo: &str) -> Option<GitHubRepoFromUrl> {
    Some(GitHubRepoFromUrl {
        owner: owner.to_string(),
        repo: repo.to_string(),
    })
}

#[test]
fn test_github_com_https() {
    assert_eq!(
        detect_provider_from_url("https://github.com/owner/repo"),
        ProviderKind::GitHub
    );
    assert_eq!(
        detect_provider_from_url("https://github.com/owner/repo.git"),
        ProviderKind::GitHub
    );
}

#[test]
fn test_github_com_ssh() {
    assert_eq!(
        detect_provider_from_url("git@github.com:owner/repo.git"),
        ProviderKind::GitHub
    );
}

#[test]
fn test_github_enterprise() {
    assert_eq!(
        detect_provider_from_url("https://github.company.com/owner/repo"),
        ProviderKind::GitHub
    );
    assert_eq!(
        detect_provider_from_url("https://github.acme.corp/team/project"),
        ProviderKind::GitHub
    );
    assert_eq!(
        detect_provider_from_url("git@github.internal.io:org/repo.git"),
        ProviderKind::GitHub
    );
}

#[test]
fn test_azure_devops_https() {
    assert_eq!(
        detect_provider_from_url("https://dev.azure.com/org/project/_git/repo"),
        ProviderKind::AzureDevOps
    );
}

#[test]
fn test_azure_devops_ssh() {
    assert_eq!(
        detect_provider_from_url("git@ssh.dev.azure.com:v3/org/project/repo"),
        ProviderKind::AzureDevOps
    );
}

#[test]
fn test_azure_devops_legacy_visualstudio() {
    assert_eq!(
        detect_provider_from_url("https://org.visualstudio.com/project/_git/repo"),
        ProviderKind::AzureDevOps
    );
}

#[test]
fn test_azure_devops_git_path() {
    assert_eq!(
        detect_provider_from_url("https://custom.domain.com/org/project/_git/repo"),
        ProviderKind::AzureDevOps
    );
}

#[test]
fn test_unknown_provider() {
    assert_eq!(
        detect_provider_from_url("https://gitlab.com/owner/repo"),
        ProviderKind::Unknown
    );
    assert_eq!(
        detect_provider_from_url("https://bitbucket.org/owner/repo"),
        ProviderKind::Unknown
    );
}

#[test]
fn test_pr_url_github() {
    assert_eq!(
        detect_provider_from_pr_url("https://github.com/owner/repo/pull/123"),
        ProviderKind::GitHub
    );
    assert_eq!(
        detect_provider_from_pr_url("https://github.company.com/owner/repo/pull/456"),
        ProviderKind::GitHub
    );
}

#[test]
fn test_pr_url_azure() {
    assert_eq!(
        detect_provider_from_pr_url("https://dev.azure.com/org/project/_git/repo/pullrequest/123"),
        ProviderKind::AzureDevOps
    );
    assert_eq!(
        detect_provider_from_pr_url(
            "https://org.visualstudio.com/project/_git/repo/pullrequest/456"
        ),
        ProviderKind::AzureDevOps
    );
}

#[test]
fn test_parse_github_owner_repo_https() {
    assert_eq!(
        parse_github_owner_repo("https://github.com/owner/repo"),
        repo("owner", "repo")
    );
    assert_eq!(
        parse_github_owner_repo("https://github.com/owner/repo.git"),
        repo("owner", "repo")
    );
}

#[test]
fn test_parse_github_owner_repo_ssh() {
    assert_eq!(
        parse_github_owner_repo("git@github.com:owner/repo.git"),
        repo("owner", "repo")
    );
    assert_eq!(
        parse_github_owner_repo("git@github.com:alice/my-repo.git"),
        repo("alice", "my-repo")
    );
}

#[test]
fn test_parse_github_owner_repo_enterprise() {
    assert_eq!(
        parse_github_owner_repo("https://github.company.com/org/project"),
        repo("org", "project")
    );
}

#[test]
fn test_parse_github_owner_repo_non_github() {
    assert_eq!(parse_github_owner_repo("https://gitlab.com/owner/repo"), None);
    assert_eq!(parse_github_owner_repo("https://bitbucket.org/owner/repo"), None);
}

#[test]
fn detection_is_case_insensitive() {
    assert_eq!(
        detect_provider_from_url("HTTPS://GitHub.COM/Owner/Repo"),
        ProviderKind::GitHub
    );
    assert_eq!(
        detect_provider_from_url("https://DEV.Azure.com/org/p/_git/r"),
        ProviderKind::AzureDevOps
    );
}

#[test]
fn azure_markers_win_over_github_enterprise() {
    assert_eq!(
        detect_provider_from_url("https://github.example.com/org/_git/repo"),
        ProviderKind::AzureDevOps
    );
    assert_eq!(
        detect_provider_from_url("https://github.com/org/_git/repo"),
        ProviderKind::GitHub
    );
}

#[test]
fn pr_url_on_github_enterprise_with_git_path() {
    assert_eq!(
        detect_provider_from_pr_url("https://github.example.com/org/_git/repo/pull/1"),
        ProviderKind::GitHub
    );
    assert_eq!(
        detect_provider_from_url("https://github.example.com/org/_git/repo/pull/1"),
        ProviderKind::AzureDevOps
    );
}

#[test]
fn pr_url_falls_back_to_remote_detection() {
    assert_eq!(
        detect_provider_from_pr_url("https://gitlab.com/owner/repo/merge_requests/1"),
        ProviderKind::Unknown
    );
    assert_eq!(
        detect_provider_from_pr_url("https://github.com/owner/repo"),
        ProviderKind::GitHub
    );
    assert_eq!(
        detect_provider_from_pr_url("https://custom.host/org/_git/repo"),
        ProviderKind::AzureDevOps
    );
}

#[test]
fn classify_takes_lowercase_text_as_given() {
    assert_eq!(classify_lowercase_url("https://GITHUB.COM/a/b"), ProviderKind::Unknown);
    assert_eq!(classify_lowercase_url("https://github.com/a/b"), ProviderKind::GitHub);
    assert_eq!(classify_lowercase_url("git@ssh.dev.azure.com:v3/o/p/r"), ProviderKind::AzureDevOps);
    assert_eq!(classify_lowercase_pr_url("https://x/pullrequest/1"), ProviderKind::AzureDevOps);
    assert_eq!(classify_lowercase_pr_url("https://x/pull/1"), ProviderKind::Unknown);
}

#[test]
fn parse_strips_every_trailing_git_suffix() {
    assert_eq!(
        parse_github_owner_repo("https://github.com/owner/repo.git.git"),
        repo("owner", "repo")
    );
    assert_eq!(
        parse_github_owner_repo("git@github.com:owner/repo.git.git"),
        repo("owner", "repo")
    );
}

#[test]
fn parse_skips_empty_segments_in_https_paths() {
    assert_eq!(
        parse_github_owner_repo("https://github.com//owner///repo/extra"),
        repo("owner", "repo")
    );
    assert_eq!(parse_github_owner_repo("https://github.com/owner"), None);
    assert_eq!(parse_github_owner_repo("https://github.com/owner/"), None);
}

#[test]
fn parse_ssh_refuses_empty_pieces() {
    assert_eq!(parse_github_owner_repo("git@github.com:/repo.git"), None);
    assert_eq!(parse_github_owner_repo("git@github.com:owner/.git"), None);
    assert_eq!(parse_github_owner_repo("ssh://git@github.com/owner/repo.git"), None);
    assert_eq!(parse_github_owner_repo("git@github.com:repo.git"), None);
    assert_eq!(parse_github_owner_repo("git@github.com:a:b/c"), None);
    assert_eq!(
        parse_github_owner_repo("git@github.com:a/b/c.git"),
        repo("a", "b")
    );
}

#[test]
fn parse_enterprise_host_and_path_start() {
    assert_eq!(
        parse_github_owner_repo("https://github.acme.corp/team/project.git"),
        repo("team", "project")
    );
    assert_eq!(parse_github_owner_repo("github.acme.corp"), None);
}

#[test]
fn parse_host_match_is_case_sensitive_after_the_check() {
    // the check is made on the lowercase text, the path search on the URL itself
    assert_eq!(parse_github_owner_repo("https://GitHub.com/owner/repo"), None);
    assert_eq!(
        parse_owner_repo_with_lowercase("https://github.com/o/r", "no host here"),
        None
    );
    assert_eq!(
        parse_owner_repo_with_lowercase("https://github.com/o/r", "github."),
        repo("o", "r")
    );
}

#[test]
fn parse_handles_non_ascii_text() {
    assert_eq!(
        parse_github_owner_repo("https://github.com/ünïcode/répo.git"),
        repo("ünïcode", "répo")
    );
}

#[test]
fn trailing_git_suffix_never_changes_the_result() {
    for url in [
        "https://github.com/owner/repo",
        "git@github.com:owner/repo",
        "git@github.com:a:b/c",
        "https://github.company.com/org/project",
        "https://x/github",
        "https://h/a/github",
        "https://github.com/owner",
        "git@github.com:/repo",
        "https://gitlab.com/owner/repo",
        "",
    ] {
        let with_suffix = format!("{url}.git");
        assert_eq!(
            parse_owner_repo_with_lowercase(&with_suffix, "github."),
            parse_owner_repo_with_lowercase(url, "github."),
            "{url}"
        );
    }
}

#[test]
fn https_remotes_round_trip() {
    for (owner, name) in [("Owner", "Repo"), ("a", "b"), ("my-org", "my.repo"), ("ünï", "cödé")] {
        for suffix in ["", ".git", "/tree/main", "/pull/7", "/"] {
            let url = format!("https://github.com/{owner}/{name}{suffix}");
            assert_eq!(parse_github_owner_repo(&url), repo(owner, name), "{url}");
        }
    }
}

#[test]
fn ssh_remotes_round_trip() {
    for (owner, name) in [("Owner", "Repo"), ("a", "b"), ("ünï", "cödé")] {
        for suffix in ["", ".git"] {
            let url = format!("git@github.com:{owner}/{name}{suffix}");
            assert_eq!(parse_github_owner_repo(&url), repo(owner, name), "{url}");
        }
    }
}

#[test]
fn parsed_pieces_occur_in_the_url() {
    for url in [
        "https://github.com/owner/repo.git",
        "git@github.com:org/project",
        "https://github.acme.corp/team/project/extra",
        "git@github.com:a/b/c.git",
    ] {
        let parsed = parse_github_owner_repo(url).expect(url);
        assert!(!parsed.owner.is_empty() && !parsed.repo.is_empty());
        assert!(url.contains(parsed.owner.as_str()) && url.contains(parsed.repo.as_str()));
        assert!(!parsed.owner.contains('/') && !parsed.repo.contains('/'));
    }
}

#[test]
fn enterprise_remotes_round_trip() {
    for host in ["github.acme.corp", "git.github.example.org", "code.github.io"] {
        for suffix in ["", ".git"] {
            let url = format!("https://{host}/Team/Project{suffix}");
            assert_eq!(parse_github_owner_repo(&url), repo("Team", "Project"), "{url}");
        }
    }
}
