//! Settings screen state: field navigation, edit-in-place of the four
//! configuration fields, and the token masking used for display.

use vstd::prelude::*;

use crate::config::Config;
use crate::input::InputState;
use crate::runtime::{trim_of, trim_str};
use crate::strutil::{push_char, spec_split, str_split};

verus! {

/// The editable fields of the settings screen, in display order.
#[derive(Debug, Clone, Copy, PartialEq, Eq, Structural)]
pub enum SettingsField {
    GitHubToken,
    GitHubRepos,
    TogglToken,
    TogglHiddenProjects,
}

impl SettingsField {
    /// The fixed order of the fields.
    pub open spec fn spec_all() -> Seq<SettingsField> {
        seq![
            SettingsField::GitHubToken,
            SettingsField::GitHubRepos,
            SettingsField::TogglToken,
            SettingsField::TogglHiddenProjects,
        ]
    }

    /// All fields in display order.
    pub fn all() -> (r: Vec<SettingsField>)
        ensures
            r@ == Self::spec_all(),
    {
        let mut r: Vec<SettingsField> = Vec::new();
        r.push(SettingsField::GitHubToken);
        r.push(SettingsField::GitHubRepos);
        r.push(SettingsField::TogglToken);
        r.push(SettingsField::TogglHiddenProjects);
        proof {
            assert(r@ =~= Self::spec_all());
        }
        r
    }

    /// Display label of a field.
    pub fn label(&self) -> (r: &'static str)
        ensures
            r@ == match *self {
                SettingsField::GitHubToken => "GitHub Token"@,
                SettingsField::GitHubRepos => "GitHub Repos (comma-separated)"@,
                SettingsField::TogglToken => "Toggl Token"@,
                SettingsField::TogglHiddenProjects => "Toggl Hidden Projects (comma-separated)"@,
            },
    {
        match self {
            SettingsField::GitHubToken => "GitHub Token",
            SettingsField::GitHubRepos => "GitHub Repos (comma-separated)",
            SettingsField::TogglToken => "Toggl Token",
            SettingsField::TogglHiddenProjects => "Toggl Hidden Projects (comma-separated)",
        }
    }

    /// The field after this one, in spec form.
    pub open spec fn spec_next(self) -> SettingsField {
        match self {
            SettingsField::GitHubToken => SettingsField::GitHubRepos,
            SettingsField::GitHubRepos => SettingsField::TogglToken,
            SettingsField::TogglToken => SettingsField::TogglHiddenProjects,
            SettingsField::TogglHiddenProjects => SettingsField::GitHubToken,
        }
    }
}

/// The settings screen: the configuration being edited, the focused field,
/// and the in-place editor.
pub struct SettingsView {
    pub config: Config,
    pub current_field: SettingsField,
    pub editing: bool,
    pub input: InputState,
    pub saved_message: Option<String>,
}

impl SettingsView {
    /// A settings screen over a configuration, nothing being edited.
    pub fn new(config: Config) -> (r: SettingsView)
        ensures
            r.config@ == config@,
            r.current_field == SettingsField::GitHubToken,
            !r.editing,
            r.saved_message is None,
    {
        SettingsView {
            config,
            current_field: SettingsField::GitHubToken,
            editing: false,
            input: InputState::new(String::new()),
            saved_message: None,
        }
    }

    /// Move to the next field; locked while editing.
    pub fn next_field(&mut self)
        ensures
            old(self).editing ==> final(self).current_field == old(self).current_field,
            !old(self).editing ==> final(self).current_field == old(self).current_field.spec_next(),
            final(self).config@ == old(self).config@,
            final(self).editing == old(self).editing,
    {
        if self.editing {
            return;
        }
        self.current_field = match self.current_field {
            SettingsField::GitHubToken => SettingsField::GitHubRepos,
            SettingsField::GitHubRepos => SettingsField::TogglToken,
            SettingsField::TogglToken => SettingsField::TogglHiddenProjects,
            SettingsField::TogglHiddenProjects => SettingsField::GitHubToken,
        };
    }

    /// Move to the previous field; locked while editing.
    pub fn prev_field(&mut self)
        ensures
            old(self).editing ==> final(self).current_field == old(self).current_field,
            !old(self).editing ==> final(self).current_field.spec_next() == old(self).current_field,
            final(self).config@ == old(self).config@,
            final(self).editing == old(self).editing,
    {
        if self.editing {
            return;
        }
        self.current_field = match self.current_field {
            SettingsField::GitHubToken => SettingsField::TogglHiddenProjects,
            SettingsField::GitHubRepos => SettingsField::GitHubToken,
            SettingsField::TogglToken => SettingsField::GitHubRepos,
            SettingsField::TogglHiddenProjects => SettingsField::TogglToken,
        };
    }

    /// The text the editor starts from for each field: the token itself, or
    /// the list joined with ", ".
    pub open spec fn spec_edit_value(self) -> Seq<char> {
        match self.current_field {
            SettingsField::GitHubToken => match self.config@.github_token {
                Some(t) => t,
                None => Seq::<char>::empty(),
            },
            SettingsField::GitHubRepos => spec_join_comma(self.config@.github_repos),
            SettingsField::TogglToken => match self.config@.toggl_token {
                Some(t) => t,
                None => Seq::<char>::empty(),
            },
            SettingsField::TogglHiddenProjects => spec_join_comma(
                self.config@.toggl_hidden_projects,
            ),
        }
    }

    /// Begin editing the focused field, the editor pre-filled with its
    /// current value.
    pub fn start_editing(&mut self)
        ensures
            final(self).editing,
            final(self).input.value@ == old(self).spec_edit_value(),
            final(self).input.cursor == old(self).spec_edit_value().len(),
            final(self).config@ == old(self).config@,
            final(self).current_field == old(self).current_field,
            final(self).input.wf(),
    {
        self.editing = true;
        let value = match self.current_field {
            SettingsField::GitHubToken => match &self.config.github_token {
                Some(t) => t.clone(),
                None => String::new(),
            },
            SettingsField::GitHubRepos => join_comma(&self.config.github_repos),
            SettingsField::TogglToken => match &self.config.toggl_token {
                Some(t) => t.clone(),
                None => String::new(),
            },
            SettingsField::TogglHiddenProjects => join_comma(&self.config.toggl_hidden_projects),
        };
        self.input = InputState::new(String::new()).with_value(value);
    }

    /// Abandon the edit and clear the editor.
    pub fn cancel_editing(&mut self)
        ensures
            !final(self).editing,
            final(self).input.value@ == Seq::<char>::empty(),
            final(self).config@ == old(self).config@,
            final(self).current_field == old(self).current_field,
    {
        self.editing = false;
        self.input.clear();
    }

    /// Commit the editor's text to the focused field: tokens empty-to-none,
    /// lists split on commas, trimmed, empties dropped.
    pub fn save_field(&mut self)
        ensures
            !final(self).editing,
            final(self).input.value@ == Seq::<char>::empty(),
            final(self).current_field == old(self).current_field,
            final(self).config@ == match old(self).current_field {
                SettingsField::GitHubToken => (crate::config::ConfigV {
                    github_token: if old(self).input.value@.len() == 0 {
                        None
                    } else {
                        Some(old(self).input.value@)
                    },
                    ..old(self).config@
                }),
                SettingsField::GitHubRepos => (crate::config::ConfigV {
                    github_repos: spec_clean_list(spec_split(old(self).input.value@, ',')),
                    ..old(self).config@
                }),
                SettingsField::TogglToken => (crate::config::ConfigV {
                    toggl_token: if old(self).input.value@.len() == 0 {
                        None
                    } else {
                        Some(old(self).input.value@)
                    },
                    ..old(self).config@
                }),
                SettingsField::TogglHiddenProjects => (crate::config::ConfigV {
                    toggl_hidden_projects: spec_clean_list(spec_split(old(self).input.value@, ',')),
                    ..old(self).config@
                }),
            },
    {
        let value = self.input.value.clone();
        let empty = value.as_str().unicode_len() == 0;
        match self.current_field {
            SettingsField::GitHubToken => {
                self.config.github_token = if empty {
                    None
                } else {
                    Some(value)
                };
            },
            SettingsField::GitHubRepos => {
                self.config.github_repos = clean_list(value.as_str());
            },
            SettingsField::TogglToken => {
                self.config.toggl_token = if empty {
                    None
                } else {
                    Some(value)
                };
            },
            SettingsField::TogglHiddenProjects => {
                self.config.toggl_hidden_projects = clean_list(value.as_str());
            },
        }
        self.editing = false;
        self.input.clear();
        proof {
            assert(final(self).config@ =~= match old(self).current_field {
                SettingsField::GitHubToken => (crate::config::ConfigV {
                    github_token: if old(self).input.value@.len() == 0 {
                        None
                    } else {
                        Some(old(self).input.value@)
                    },
                    ..old(self).config@
                }),
                SettingsField::GitHubRepos => (crate::config::ConfigV {
                    github_repos: spec_clean_list(spec_split(old(self).input.value@, ',')),
                    ..old(self).config@
                }),
                SettingsField::TogglToken => (crate::config::ConfigV {
                    toggl_token: if old(self).input.value@.len() == 0 {
                        None
                    } else {
                        Some(old(self).input.value@)
                    },
                    ..old(self).config@
                }),
                SettingsField::TogglHiddenProjects => (crate::config::ConfigV {
                    toggl_hidden_projects: spec_clean_list(spec_split(old(self).input.value@, ',')),
                    ..old(self).config@
                }),
            });
        }
    }
}

/// The comma-separated fields, trimmed, with empties dropped.
pub open spec fn spec_clean_list(parts: Seq<Seq<char>>) -> Seq<Seq<char>>
    decreases parts.len(),
{
    if parts.len() == 0 {
        Seq::empty()
    } else {
        let prev = spec_clean_list(parts.drop_last());
        let t = trim_of(parts.last());
        if t.len() > 0 {
            prev.push(t)
        } else {
            prev
        }
    }
}

/// Split a comma-separated list, trim each field, drop empties.
fn clean_list(value: &str) -> (r: Vec<String>)
    ensures
        r.deep_view() == spec_clean_list(spec_split(value@, ',')),
{
    let parts = str_split(value, ',');
    let ghost partsv = parts.deep_view();
    let mut r: Vec<String> = Vec::new();
    let mut i: usize = 0;
    proof {
        assert(partsv.take(0) =~~= Seq::<Seq<char>>::empty());
        assert(r.deep_view() =~~= spec_clean_list(partsv.take(0)));
    }
    while i < parts.len()
        invariant
            partsv == parts.deep_view(),
            0 <= i <= parts.len(),
            r.deep_view() == spec_clean_list(partsv.take(i as int)),
        decreases parts.len() - i,
    {
        proof {
            assert(partsv.take(i + 1).drop_last() =~~= partsv.take(i as int));
            assert(partsv.take(i + 1).last() == partsv[i as int]);
        }
        let t = trim_str(parts[i].as_str());
        if t.as_str().unicode_len() > 0 {
            let ghost prev = r.deep_view();
            r.push(t);
            proof {
                assert(r.deep_view() =~~= prev.push(trim_of(partsv[i as int])));
            }
        }
        i += 1;
    }
    proof {
        assert(partsv.take(parts@.len() as int) =~~= partsv);
    }
    r
}

/// The list joined back with ", " for editing.
pub open spec fn spec_join_comma(parts: Seq<Seq<char>>) -> Seq<char>
    decreases parts.len(),
{
    if parts.len() == 0 {
        Seq::empty()
    } else if parts.len() == 1 {
        parts[0]
    } else {
        spec_join_comma(parts.drop_last()) + ", "@ + parts.last()
    }
}

/// Join a list with ", ".
fn join_comma(parts: &Vec<String>) -> (r: String)
    ensures
        r@ == spec_join_comma(parts.deep_view()),
{
    let ghost partsv = parts.deep_view();
    let mut r = String::new();
    let mut i: usize = 0;
    proof {
        assert(partsv.take(0) =~~= Seq::<Seq<char>>::empty());
        assert(r@ =~= spec_join_comma(partsv.take(0)));
    }
    while i < parts.len()
        invariant
            partsv == parts.deep_view(),
            0 <= i <= parts.len(),
            r@ == spec_join_comma(partsv.take(i as int)),
        decreases parts.len() - i,
    {
        proof {
            assert(partsv.take(i + 1).drop_last() =~~= partsv.take(i as int));
            assert(partsv.take(i + 1).last() == partsv[i as int]);
        }
        if i > 0 {
            r.append(", ");
        }
        r.append(parts[i].as_str());
        proof {
            if i == 0 {
                assert(r@ =~= spec_join_comma(partsv.take(1)));
            } else {
                assert(r@ =~= spec_join_comma(partsv.take(i + 1)));
            }
        }
        i += 1;
    }
    proof {
        assert(partsv.take(parts@.len() as int) =~~= partsv);
    }
    r
}

/// What the token display shows: a placeholder when unset, all stars for a
/// short token, else the first and last four characters around an ellipsis.
pub open spec fn spec_mask_token(token: Option<Seq<char>>) -> Seq<char> {
    match token {
        Some(t) => if t.len() == 0 {
            "(not set)"@
        } else if t.len() <= 8 {
            Seq::new(t.len(), |i: int| '*')
        } else {
            t.subrange(0, 4) + "..."@ + t.subrange(t.len() - 4, t.len() as int)
        },
        None => "(not set)"@,
    }
}

/// Mask a token for display.
pub fn mask_token(token: Option<&str>) -> (r: String)
    ensures
        r@ == spec_mask_token(match token {
            Some(t) => Some(t@),
            None => None,
        }),
{
    match token {
        Some(t) => {
            let len = t.unicode_len();
            if len == 0 {
                String::from_str("(not set)")
            } else if len <= 8 {
                let mut r = String::new();
                let mut i: usize = 0;
                while i < len
                    invariant
                        0 <= i <= len,
                        r@ == Seq::new(i as nat, |j: int| '*'),
                    decreases len - i,
                {
                    push_char(&mut r, '*');
                    proof {
                        assert(r@ =~= Seq::new((i + 1) as nat, |j: int| '*'));
                    }
                    i += 1;
                }
                r
            } else {
                let head = t.substring_char(0, 4);
                let tail = t.substring_char(len - 4, len);
                let r = head.to_owned().concat("...").concat(tail);
                proof {
                    assert(r@ =~= t@.subrange(0, 4) + "..."@ + t@.subrange(
                        t@.len() - 4,
                        t@.len() as int,
                    ));
                }
                r
            }
        },
        None => String::from_str("(not set)"),
    }
}

} // verus!
