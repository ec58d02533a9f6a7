//! Which files make up a project, and what it is called.
use vstd::prelude::*;
use vstd::string::*;
use crate::compose::backend::word_texts;
use crate::compose::error::{ComposeError, ErrorView, Result};
use crate::compose::types::{copy_list, ComposeSpec};
use crate::platform::Platform;
use crate::text::{contains, lemma_texts_push, pieces, split, texts};

verus! {

broadcast use lemma_texts_push;

/// What was said about a project on the command line.
#[derive(Debug)]
pub struct ProjectConfig {
    pub files: Vec<String>,
    pub project_name: Option<String>,
    pub env_files: Vec<String>,
}

/// The file names that are tried where none are given, in order.
pub open spec fn default_files() -> Seq<Seq<char>> {
    seq!["compose.yaml"@, "compose.yml"@, "docker-compose.yaml"@, "docker-compose.yml"@]
}

/// The file names that are tried where none are given, in order.
pub fn compose_file_candidates() -> (r: Vec<&'static str>)
    ensures
        word_texts(r@) == default_files(),
{
    let r: Vec<&'static str> = vec![
        "compose.yaml",
        "compose.yml",
        "docker-compose.yaml",
        "docker-compose.yml",
    ];
    assert(word_texts(r@) =~= default_files());
    r
}

/// What stands between files in a setting.
pub open spec fn file_separator(platform: Platform) -> char {
    if platform == Platform::Windows {
        ';'
    } else {
        ':'
    }
}

/// The first of some files that is present, as a list.
pub open spec fn first_present(files: Seq<Seq<char>>, present: Seq<Seq<char>>) -> Seq<Seq<char>>
    decreases files.len(),
{
    if files.len() == 0 {
        Seq::empty()
    } else if present.contains(files[0]) {
        seq![files[0]]
    } else {
        first_present(files.skip(1), present)
    }
}

impl ProjectConfig {
    pub fn new(files: Vec<String>, project_name: Option<String>, env_files: Vec<String>) -> (r:
        ProjectConfig)
        ensures
            r == (ProjectConfig { files, project_name, env_files }),
    {
        ProjectConfig { files, project_name, env_files }
    }

    /// The name of the project: the one given, or else the one set, or else the
    /// name of its directory, or else `default`.
    pub fn resolve_project_name(&self, setting: Option<&str>, directory: Option<&str>) -> (r:
        String)
        ensures
            r@ == match self.project_name {
                Some(n) => n@,
                None => match setting {
                    Some(s) => s@,
                    None => match directory {
                        Some(d) => d@,
                        None => "default"@,
                    },
                },
            },
    {
        if let Some(name) = &self.project_name {
            return name.clone();
        }
        if let Some(name) = setting {
            return name.to_owned();
        }
        match directory {
            Some(d) => d.to_owned(),
            None => "default".to_owned(),
        }
    }

    /// The files of the project: those given, or else those set, or else the
    /// first of the usual ones that is present.
    pub fn resolve_compose_files(
        &self,
        setting: Option<&str>,
        platform: Platform,
        present: &Vec<String>,
    ) -> (r: Vec<String>)
        ensures
            texts(r@) == if self.files@.len() > 0 {
                texts(self.files@)
            } else {
                match setting {
                    Some(s) => pieces(s@, file_separator(platform)),
                    None => first_present(default_files(), texts(present@)),
                }
            },
    {
        if self.files.len() > 0 {
            return copy_list(&self.files);
        }
        if let Some(s) = setting {
            let separator: char = match platform {
                Platform::Windows => ';',
                _ => ':',
            };
            return split(s, separator);
        }
        let names = compose_file_candidates();
        let ghost all = default_files();
        let mut out: Vec<String> = Vec::new();
        let mut i: usize = 0;
        assert(texts(out@) =~= Seq::empty());
        assert(all.skip(0) =~= all);
        while i < names.len()
            invariant
                i <= names@.len(),
                all == word_texts(names@),
                all == default_files(),
                texts(out@) == Seq::<Seq<char>>::empty(),
                self.files@.len() == 0,
                setting is None,
                first_present(all, texts(present@)) == first_present(
                    all.skip(i as int),
                    texts(present@),
                ),
            decreases names@.len() - i,
        {
            proof {
                assert(all.skip(i as int)[0] == names@[i as int]@);
                assert(all.skip(i as int).skip(1) =~= all.skip(i + 1));
            }
            if contains(present, names[i]) {
                out.push(names[i].to_owned());
                assert(texts(out@) =~= seq![names@[i as int]@]);
                return out;
            }
            i += 1;
        }
        out
    }
}

/// A project with its files read.
#[derive(Debug)]
pub struct ComposeProject {
    pub spec: ComposeSpec,
    pub project_name: String,
    pub project_dir: String,
    pub compose_files: Vec<String>,
}

/// A project must have a file.
pub fn require_files(files: Vec<String>) -> (r: Result<Vec<String>>)
    ensures
        match r {
            Ok(v) => files@.len() > 0 && v == files,
            Err(e) => files@.len() == 0 && e@ == (ErrorView::FileNotFound {
                path: "No compose file found (tried compose.yaml, docker-compose.yml, etc.)"@,
            }),
        },
{
    if files.len() == 0 {
        Err(
            ComposeError::FileNotFound {
                path: "No compose file found (tried compose.yaml, docker-compose.yml, etc.)".to_owned(),
            },
        )
    } else {
        Ok(files)
    }
}

} // verus!
