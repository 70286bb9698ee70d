//! File paths. A path that is written as text has `/` between its parts, as on Unix:
//! one that starts with `/` is absolute, and no other separator is known. A path under
//! the user's home directory is held as what follows that directory, which need not be
//! Unicode; where such a path becomes text, the home directory is read with
//! replacement characters.
use crate::outside::home_dir;
use crate::text::{copy_text, has_prefix, opt_str, starts_with, strip_prefix};
use vstd::prelude::*;

verus! {

/// Where a file is.
#[derive(Debug, PartialEq, Eq)]
pub enum FilePath {
    /// At the path that is written.
    Plain(String),
    /// At a path seen from the user's home directory.
    UnderHome(String),
}

#[verifier::ext_equal]
pub enum FilePathView {
    Plain(Seq<char>),
    UnderHome(Seq<char>),
}

impl View for FilePath {
    type V = FilePathView;

    open spec fn view(&self) -> FilePathView {
        match self {
            FilePath::Plain(text) => FilePathView::Plain(text@),
            FilePath::UnderHome(rest) => FilePathView::UnderHome(rest@),
        }
    }
}

impl Clone for FilePath {
    fn clone(&self) -> (r: Self)
        ensures
            r@ == self@,
    {
        match self {
            FilePath::Plain(text) => FilePath::Plain(text.clone()),
            FilePath::UnderHome(rest) => FilePath::UnderHome(rest.clone()),
        }
    }
}

impl FilePathView {
    /// The path as text, with `home` as the home directory.
    pub open spec fn shown(self, home: Option<Seq<char>>) -> Seq<char> {
        match self {
            FilePathView::Plain(text) => text,
            FilePathView::UnderHome(rest) => match home {
                Some(h) => joined_path(h, rest),
                None => "~/"@ + rest,
            },
        }
    }
}

impl FilePath {
    /// The path as text, with `home` as the home directory.
    pub fn shown_in(&self, home: Option<&str>) -> (r: String)
        ensures
            r@ == self@.shown(opt_str(home)),
    {
        match self {
            FilePath::Plain(text) => text.clone(),
            FilePath::UnderHome(rest) => match home {
                Some(h) => join_path(h, rest.as_str()),
                None => {
                    let mut out = copy_text("~/");
                    out.append(rest.as_str());
                    out
                },
            },
        }
    }
}

/// `rest` seen from the directory `base`: an absolute path stands for itself,
/// any other is put behind `base`, after a `/` where `base` needs one.
pub open spec fn joined_path(base: Seq<char>, rest: Seq<char>) -> Seq<char> {
    if has_prefix(rest, "/"@) {
        rest
    } else if base.len() == 0 || base.last() == '/' {
        base + rest
    } else {
        base + "/"@ + rest
    }
}

/// `rest` seen from the directory `base`.
pub fn join_path(base: &str, rest: &str) -> (r: String)
    ensures
        r@ == joined_path(base@, rest@),
{
    if starts_with(rest, "/") {
        return copy_text(rest);
    }
    let n: usize = base.unicode_len();
    let mut out = copy_text(base);
    if n > 0 && base.get_char(n - 1) != '/' {
        out.append("/");
    }
    out.append(rest);
    out
}

/// Where `input` is: what follows a leading `~/` is seen from the home directory,
/// where one is known.
pub open spec fn resolved(input: Seq<char>, has_home: bool) -> FilePathView {
    if has_home && has_prefix(input, "~/"@) {
        FilePathView::UnderHome(input.skip("~/"@.len() as int))
    } else {
        FilePathView::Plain(input)
    }
}

/// Where `input` is, with or without a home directory.
pub fn resolve_path_in(input: &str, has_home: bool) -> (r: FilePath)
    ensures
        r@ == resolved(input@, has_home),
{
    match strip_prefix(input, "~/") {
        Some(rest) if has_home => FilePath::UnderHome(copy_text(rest)),
        _ => FilePath::Plain(copy_text(input)),
    }
}

/// Where `input` is.
pub fn resolve_path(input: &str) -> (r: FilePath)
    ensures
        exists|has_home: bool| r@ == #[trigger] resolved(input@, has_home),
        !has_prefix(input@, "~/"@) ==> r@ == FilePathView::Plain(input@),
{
    resolve_path_in(input, home_dir().is_some())
}

/// `input` with a leading `~/` replaced by the home directory, where one is
/// known.
pub open spec fn resolved_text(input: Seq<char>, home: Option<Seq<char>>) -> Seq<char> {
    resolved(input, home is Some).shown(home)
}

/// `input` with a leading `~/` replaced by the home directory `home`.
pub fn resolve_text_in(input: &str, home: Option<&str>) -> (r: String)
    ensures
        r@ == resolved_text(input@, opt_str(home)),
{
    resolve_path_in(input, home.is_some()).shown_in(home)
}

/// The directory of the configuration.
pub open spec fn config_dir(has_home: bool) -> FilePathView {
    if has_home {
        FilePathView::UnderHome(".openorchestrator"@)
    } else {
        FilePathView::Plain(".openorchestrator"@)
    }
}

/// The directory of the configuration, with or without a home directory.
pub fn default_config_dir_in(has_home: bool) -> (r: FilePath)
    ensures
        r@ == config_dir(has_home),
{
    if has_home {
        FilePath::UnderHome(copy_text(".openorchestrator"))
    } else {
        FilePath::Plain(copy_text(".openorchestrator"))
    }
}

/// The directory of the configuration.
pub fn default_config_dir() -> (r: FilePath)
    ensures
        exists|has_home: bool| r@ == #[trigger] config_dir(has_home),
{
    default_config_dir_in(home_dir().is_some())
}

/// The file `name` in a directory.
pub open spec fn file_in(dir: FilePathView, name: Seq<char>) -> FilePathView {
    match dir {
        FilePathView::Plain(text) => FilePathView::Plain(joined_path(text, name)),
        FilePathView::UnderHome(rest) => FilePathView::UnderHome(joined_path(rest, name)),
    }
}

/// The configuration file: the one that is named in the environment, or else
/// the default one.
pub open spec fn config_path(named: Option<Seq<char>>, has_home: bool) -> FilePathView {
    match named {
        Some(path) => FilePathView::Plain(path),
        None => file_in(config_dir(has_home), "openorchestrator.json"@),
    }
}

/// The configuration file, with or without a home directory, unless `named` is one.
pub fn default_config_path_in(named: Option<&str>, has_home: bool) -> (r: FilePath)
    ensures
        r@ == config_path(opt_str(named), has_home),
{
    match named {
        Some(path) => FilePath::Plain(copy_text(path)),
        None => match default_config_dir_in(has_home) {
            FilePath::Plain(text) => FilePath::Plain(
                join_path(text.as_str(), "openorchestrator.json"),
            ),
            FilePath::UnderHome(rest) => FilePath::UnderHome(
                join_path(rest.as_str(), "openorchestrator.json"),
            ),
        },
    }
}

/// The configuration file, unless `named` is one.
pub fn default_config_path(named: Option<&str>) -> (r: FilePath)
    ensures
        exists|has_home: bool| r@ == #[trigger] config_path(opt_str(named), has_home),
        named matches Some(path) ==> r@ == FilePathView::Plain(path@),
{
    default_config_path_in(named, home_dir().is_some())
}

} // verus!
