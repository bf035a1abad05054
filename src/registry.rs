//! The path registry: the import roots the user has chosen, in the order
//! they were added. Adding a root that is already registered changes
//! nothing. Loading and saving it is up to the caller; the functions here
//! say when a save is due.
use crate::text::{first_index, position_of};
use vstd::prelude::*;

verus! {

pub struct Config {
    imported_paths: Vec<String>,
}

/// `s` without the first occurrence of `p`.
pub open spec fn remove_first(s: Seq<Seq<char>>, p: Seq<char>) -> Seq<Seq<char>> {
    if s.contains(p) {
        s.remove(first_index(s, p))
    } else {
        s
    }
}

impl Config {
    /// The registered roots, in order.
    pub closed spec fn paths(&self) -> Seq<Seq<char>> {
        self.imported_paths.deep_view()
    }

    /// A registry with no roots.
    pub fn new() -> (c: Config)
        ensures
            c.paths() == Seq::<Seq<char>>::empty(),
    {
        let imported_paths: Vec<String> = Vec::new();
        let c = Config { imported_paths };
        assert(c.paths() =~= Seq::<Seq<char>>::empty());
        c
    }

    /// A registry holding `paths` as they are, as read back from storage.
    pub fn from_paths(paths: Vec<String>) -> (c: Config)
        ensures
            c.paths() == paths.deep_view(),
    {
        Config { imported_paths: paths }
    }
}

/// Registers `path` unless it is already there. Returns whether the
/// registry changed, that is whether it needs saving.
pub fn add_import_path(config: &mut Config, path: String) -> (added: bool)
    ensures
        added == !old(config).paths().contains(path@),
        final(config).paths() == if added {
            old(config).paths().push(path@)
        } else {
            old(config).paths()
        },
{
    match position_of(&config.imported_paths, path.as_str()) {
        Some(_) => false,
        None => {
            let ghost p = path@;
            config.imported_paths.push(path);
            assert(config.paths() =~= old(config).paths().push(p));
            true
        },
    }
}

/// Drops the first registration of `path`, if any, and returns the roots
/// that remain. The registry needs saving iff it held `path`.
pub fn remove_import_path(config: &mut Config, path: &str) -> (r: Vec<String>)
    ensures
        final(config).paths() == remove_first(old(config).paths(), path@),
        r.deep_view() == final(config).paths(),
{
    match position_of(&config.imported_paths, path) {
        Some(i) => {
            config.imported_paths.remove(i);
            assert(config.paths() =~= old(config).paths().remove(i as int));
        },
        None => {},
    }
    get_import_paths(config)
}

/// The registered roots, in order.
pub fn get_import_paths(config: &Config) -> (r: Vec<String>)
    ensures
        r.deep_view() == config.paths(),
{
    let mut r: Vec<String> = Vec::new();
    let mut i: usize = 0;
    while i < config.imported_paths.len()
        invariant
            i <= config.imported_paths@.len(),
            r.deep_view() == config.paths().take(i as int),
        decreases config.imported_paths@.len() - i,
    {
        let ghost before = r.deep_view();
        let p = config.imported_paths[i].clone();
        assert(p@ == config.paths()[i as int]);
        r.push(p);
        assert(r.deep_view() =~= before.push(p@));
        assert(r.deep_view() =~= config.paths().take(i + 1));
        i = i + 1;
    }
    assert(config.paths().take(i as int) =~= config.paths());
    r
}

} // verus!
