//! User configuration values: remote tokens and display preferences.  The
//! file handling around them (paths, load, save) lives with the caller;
//! the values themselves and the questions asked of them are verified.

use vstd::prelude::*;

verus! {

/// The settings the tracker persists between runs.
pub struct Config {
    pub shortcut_modifier: String,
    pub github_token: Option<String>,
    pub github_repos: Vec<String>,
    pub toggl_token: Option<String>,
    pub toggl_hidden_projects: Vec<String>,
}

/// Mathematical value of a configuration.
#[verifier::ext_equal]
pub ghost struct ConfigV {
    pub shortcut_modifier: Seq<char>,
    pub github_token: Option<Seq<char>>,
    pub github_repos: Seq<Seq<char>>,
    pub toggl_token: Option<Seq<char>>,
    pub toggl_hidden_projects: Seq<Seq<char>>,
}

impl View for Config {
    type V = ConfigV;

    open spec fn view(&self) -> ConfigV {
        ConfigV {
            shortcut_modifier: self.shortcut_modifier@,
            github_token: self.github_token.deep_view(),
            github_repos: self.github_repos.deep_view(),
            toggl_token: self.toggl_token.deep_view(),
            toggl_hidden_projects: self.toggl_hidden_projects.deep_view(),
        }
    }
}

impl Clone for Config {
    fn clone(&self) -> (r: Self)
        ensures
            r@ == self@,
    {
        let r = Config {
            shortcut_modifier: self.shortcut_modifier.clone(),
            github_token: self.github_token.clone(),
            github_repos: self.github_repos.clone(),
            toggl_token: self.toggl_token.clone(),
            toggl_hidden_projects: self.toggl_hidden_projects.clone(),
        };
        proof {
            assert(r.github_repos.deep_view() =~~= self.github_repos.deep_view());
            assert(r.toggl_hidden_projects.deep_view() =~~= self.toggl_hidden_projects.deep_view());
            assert(r@ =~= self@);
        }
        r
    }
}

impl Default for Config {
    fn default() -> (r: Self)
        ensures
            r@.shortcut_modifier == "alt"@,
            r@.github_token is None,
            r@.github_repos == Seq::<Seq<char>>::empty(),
            r@.toggl_token is None,
            r@.toggl_hidden_projects == Seq::<Seq<char>>::empty(),
    {
        let github_repos: Vec<String> = Vec::new();
        let toggl_hidden_projects: Vec<String> = Vec::new();
        proof {
            assert(github_repos.deep_view() =~~= Seq::<Seq<char>>::empty());
            assert(toggl_hidden_projects.deep_view() =~~= Seq::<Seq<char>>::empty());
        }
        Config {
            shortcut_modifier: String::from_str("alt"),
            github_token: None,
            github_repos,
            toggl_token: None,
            toggl_hidden_projects,
        }
    }
}

impl Config {
    /// Whether a non-empty remote issue-tracker token is configured.
    pub fn has_github(&self) -> (r: bool)
        ensures
            r == match self@.github_token {
                Some(t) => t.len() > 0,
                None => false,
            },
    {
        match &self.github_token {
            Some(t) => t.as_str().unicode_len() > 0,
            None => false,
        }
    }

    /// Whether a non-empty time-tracker token is configured.
    pub fn has_toggl(&self) -> (r: bool)
        ensures
            r == match self@.toggl_token {
                Some(t) => t.len() > 0,
                None => false,
            },
    {
        match &self.toggl_token {
            Some(t) => t.as_str().unicode_len() > 0,
            None => false,
        }
    }
}

} // verus!
