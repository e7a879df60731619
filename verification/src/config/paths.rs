//! The layout of the data directory:
//! `config/` (config.yml, profile.yml), `persist/` (the database), `logs/`.

use vstd::prelude::*;
use crate::text::{chars_of, string_from_chars};

verus! {

/// The path `part` joined onto `base` (`std::path::Path::join`).
pub uninterp spec fn joined_path(base: Seq<char>, part: Seq<char>) -> Seq<char>;

/// Whether a path is absolute (`std::path::Path::is_absolute`).
pub uninterp spec fn path_is_absolute(p: Seq<char>) -> bool;

/// A relative path with neither a root nor a drive prefix: it does not start
/// with a separator and holds no `:`.
pub open spec fn plain_relative(p: Seq<char>) -> bool {
    !(p.len() > 0 && (p[0] == '/' || p[0] == '\\')) && !p.contains(':')
}

/// `std::path::Path::join`: `part` appended to `base` with a separator (or
/// replacing it when `part` is absolute), as text. A part with neither root
/// nor prefix is appended, which keeps the root and prefix of `base`: the
/// join of an absolute base with such a part is absolute.
#[verifier::external_body]
fn path_join(base: &str, part: &str) -> (r: String)
    ensures
        r@ == joined_path(base@, part@),
        path_is_absolute(base@) && plain_relative(part@) ==> path_is_absolute(r@),
{
    std::path::Path::new(base).join(part).to_string_lossy().into_owned()
}

/// `std::path::Path::is_absolute`.
#[verifier::external_body]
fn is_absolute_path(p: &str) -> (r: bool)
    ensures
        r == path_is_absolute(p@),
{
    std::path::Path::new(p).is_absolute()
}

/// The data directory and the paths under it.
#[derive(Debug, Clone)]
pub struct Paths {
    data: String,
}

impl View for Paths {
    type V = Seq<char>;

    /// The data directory.
    closed spec fn view(&self) -> Seq<char> {
        self.data@
    }
}

impl Paths {
    /// The layout under the given data directory.
    pub fn with_data_dir(data: &str) -> (r: Paths)
        ensures
            r@ == data@,
    {
        Paths { data: string_from_chars(&chars_of(data)) }
    }

    /// The layout under `data`, read relative to the working directory
    /// `cwd` unless it is absolute already: under an absolute working
    /// directory the data directory is absolute (a relative one given with
    /// neither root nor drive prefix).
    pub fn resolve(cwd: &str, data: &str) -> (r: Paths)
        ensures
            r@ == (if path_is_absolute(data@) { data@ } else { joined_path(cwd@, data@) }),
            path_is_absolute(cwd@) && (path_is_absolute(data@) || plain_relative(data@)) ==> path_is_absolute(r@),
    {
        if is_absolute_path(data) {
            Paths::with_data_dir(data)
        } else {
            Paths { data: path_join(cwd, data) }
        }
    }

    /// The data directory.
    pub fn data_dir(&self) -> (r: &str)
        ensures
            r@ == self@,
    {
        self.data.as_str()
    }

    /// `<data>/config`.
    pub fn config_dir(&self) -> (r: String)
        ensures
            r@ == joined_path(self@, "config"@),
    {
        path_join(self.data.as_str(), "config")
    }

    /// `<data>/persist`.
    pub fn persist_dir(&self) -> (r: String)
        ensures
            r@ == joined_path(self@, "persist"@),
            path_is_absolute(self@) ==> path_is_absolute(r@),
    {
        proof {
            reveal_strlit("persist");
        }
        path_join(self.data.as_str(), "persist")
    }

    /// `<data>/logs`.
    pub fn logs_dir(&self) -> (r: String)
        ensures
            r@ == joined_path(self@, "logs"@),
    {
        path_join(self.data.as_str(), "logs")
    }

    /// A file in the configuration directory.
    pub fn config_file(&self, name: &str) -> (r: String)
        ensures
            r@ == joined_path(joined_path(self@, "config"@), name@),
    {
        let dir = self.config_dir();
        path_join(dir.as_str(), name)
    }

    /// The database file, `<data>/persist/peerbanhelper-nt.db`: an absolute
    /// path when the data directory is one (see `resolve`).
    pub fn db_file(&self) -> (r: String)
        ensures
            r@ == joined_path(joined_path(self@, "persist"@), "peerbanhelper-nt.db"@),
            path_is_absolute(self@) ==> path_is_absolute(r@),
    {
        proof {
            reveal_strlit("peerbanhelper-nt.db");
        }
        let dir = self.persist_dir();
        path_join(dir.as_str(), "peerbanhelper-nt.db")
    }
}

} // verus!
