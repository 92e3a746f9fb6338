//! The configuration of the watchdog: which application to watch, and how it
//! is found on the device when nothing is configured.
//!
//! Reading the stored configuration, listing directories and writing the
//! configuration back are the caller's part. What is done with a stored
//! configuration, and which application of a listed directory tree is the
//! target, is decided here.

use vstd::prelude::*;
use crate::error::{fails_with, Error, Failure};
use crate::text::{chars_of, same_text};

verus! {

/// The stored configuration: the package of the target and the path of its
/// payload.
#[derive(Debug, PartialEq, Eq)]
pub struct Config {
    pub gg_package: String,
    pub path: String,
}

/// Whether a configuration with this package and this path can be used: both
/// are given.
pub open spec fn usable(package: Seq<char>, path: Seq<char>) -> bool {
    package.len() > 0 && path.len() > 0
}

/// Whether the configuration can be used: it names a package and a path.
pub fn validate_config(config: &Config) -> (valid: bool)
    ensures
        valid == usable(config.gg_package@, config.path@),
{
    !config.gg_package.as_str().is_empty() && !config.path.as_str().is_empty()
}

/// What was found where the configuration is stored.
#[derive(Debug, PartialEq, Eq)]
pub enum Stored {
    /// Nothing is stored.
    Absent,
    /// Something is stored that is no configuration.
    Unreadable,
    /// This configuration.
    Found(Config),
}

/// What the watchdog does at its start.
#[derive(Debug, PartialEq, Eq)]
pub enum Startup {
    /// Watch the target of this configuration.
    Use(Config),
    /// Look for the target on the device, and go on with [`reconf`].
    Locate,
    /// End: there is nothing to watch.
    Fail(Error),
}

/// Decides what the watchdog does at its start, from what is stored.
///
/// A stored configuration that can be used is used as it is. Where nothing is
/// stored, or a configuration without a package or without a path, the target
/// is looked for on the device. Where what is stored is no configuration, the
/// watchdog ends with `ConfigurationUnavailable`.
pub fn configure(stored: Stored) -> (startup: Startup)
    ensures
        match stored {
            Stored::Found(config) => if usable(config.gg_package@, config.path@) {
                startup == Startup::Use(config)
            } else {
                startup is Locate
            },
            Stored::Absent => startup is Locate,
            Stored::Unreadable => startup matches Startup::Fail(error) && error@
                == Failure::ConfigurationUnavailable,
        },
{
    match stored {
        Stored::Found(config) => {
            if validate_config(&config) {
                Startup::Use(config)
            } else {
                Startup::Locate
            }
        },
        Stored::Absent => Startup::Locate,
        Stored::Unreadable => Startup::Fail(Error::ConfigurationUnavailable),
    }
}

/// Makes the configuration of the target that was found on the device, to be
/// stored and used. Where none was found, the watchdog ends with
/// `ConfigurationUnavailable`.
pub fn reconf(found: Option<(String, String)>) -> (result: Result<Config, Error>)
    ensures
        match found {
            Some((package, path)) => result == Ok::<_, Error>(Config { gg_package: package, path }),
            None => fails_with(result, Failure::ConfigurationUnavailable),
        },
{
    match found {
        Some((package, path)) => Ok(Config { gg_package: package, path }),
        None => Err(Error::ConfigurationUnavailable),
    }
}

/// How many directories below the `files` directory of an application the
/// search goes down.
pub const MAX_WALK_DEPTH: usize = 16;

/// An entry of a directory, as it was listed: a file, or a directory with its
/// entries in the order of the listing.
#[derive(Debug)]
pub enum FsNode {
    File { name: String, path: String },
    Dir { name: String, path: String, entries: Vec<FsNode> },
}

impl FsNode {
    /// The name of the entry.
    pub open spec fn spec_name(self) -> Seq<char> {
        match self {
            FsNode::File { name, .. } => name@,
            FsNode::Dir { name, .. } => name@,
        }
    }

    /// The name of the entry.
    pub fn name(&self) -> (name: &str)
        ensures
            name@ == self.spec_name(),
    {
        match self {
            FsNode::File { name, .. } => name.as_str(),
            FsNode::Dir { name, .. } => name.as_str(),
        }
    }
}

/// The path of the first file named `name` that is met in `node` when
/// directories are gone through in the order of their listing, each one to its
/// end before the next, and no more than `depth` directories down.
pub open spec fn first_file(node: FsNode, name: Seq<char>, depth: nat) -> Option<Seq<char>>
    decreases depth, 0nat, 0nat,
{
    match node {
        FsNode::File { name: found, path } => if found@ == name {
            Some(path@)
        } else {
            None
        },
        FsNode::Dir { entries, .. } => if depth == 0 {
            None
        } else {
            first_file_among(entries@, name, (depth - 1) as nat)
        },
    }
}

/// The path of the first file named `name` that is met in `nodes`.
pub open spec fn first_file_among(nodes: Seq<FsNode>, name: Seq<char>, depth: nat) -> Option<Seq<char>>
    decreases depth, 1nat, nodes.len(),
{
    if nodes.len() == 0 {
        None
    } else {
        match first_file(nodes[0], name, depth) {
            Some(path) => Some(path),
            None => first_file_among(nodes.drop_first(), name, depth),
        }
    }
}

/// The payload of the application whose `files` directory is `dir`: the path
/// of the first library file in it, provided that a version file is in it too.
/// What is no directory has no payload.
pub open spec fn payload_of(dir: FsNode) -> Option<Seq<char>> {
    if dir is Dir && first_file(dir, "version.gg"@, MAX_WALK_DEPTH as nat) is Some {
        first_file(dir, "lib01.so"@, MAX_WALK_DEPTH as nat)
    } else {
        None
    }
}

/// The first of `nodes` that has the name `name`.
pub open spec fn entry_named(nodes: Seq<FsNode>, name: Seq<char>) -> Option<FsNode>
    decreases nodes.len(),
{
    if nodes.len() == 0 {
        None
    } else if nodes[0].spec_name() == name {
        Some(nodes[0])
    } else {
        entry_named(nodes.drop_first(), name)
    }
}

/// The payload of the application that the entry `app` of the base directory
/// is. An entry whose name is empty or begins with a dot is no application, and
/// neither is one without a `files` entry.
pub open spec fn payload_of_app(app: FsNode) -> Option<Seq<char>> {
    if app.spec_name().len() == 0 || app.spec_name()[0] == '.' {
        None
    } else {
        match app {
            FsNode::Dir { entries, .. } => match entry_named(entries@, "files"@) {
                Some(dir) => payload_of(dir),
                None => None,
            },
            FsNode::File { .. } => None,
        }
    }
}

/// The first of the applications `apps` that has a payload, with its package
/// name and the path of the payload.
pub open spec fn first_target(apps: Seq<FsNode>) -> Option<(Seq<char>, Seq<char>)>
    decreases apps.len(),
{
    if apps.len() == 0 {
        None
    } else {
        match payload_of_app(apps[0]) {
            Some(path) => Some((apps[0].spec_name(), path)),
            None => first_target(apps.drop_first()),
        }
    }
}

/// Looks for the first file named `name` in `node`, no more than `depth`
/// directories down.
pub fn find_file<'a>(node: &'a FsNode, name: &str, depth: usize) -> (found: Option<&'a str>)
    ensures
        match found {
            Some(path) => first_file(*node, name@, depth as nat) == Some(path@),
            None => first_file(*node, name@, depth as nat) is None,
        },
    decreases depth, 0nat,
{
    match node {
        FsNode::File { name: found, path } => {
            if same_text(found.as_str(), name) {
                Some(path.as_str())
            } else {
                None
            }
        },
        FsNode::Dir { entries, .. } => {
            if depth == 0 {
                None
            } else {
                find_file_among(entries, name, depth - 1)
            }
        },
    }
}

/// Looks for the first file named `name` in `nodes`.
fn find_file_among<'a>(nodes: &'a Vec<FsNode>, name: &str, depth: usize) -> (found: Option<&'a str>)
    ensures
        match found {
            Some(path) => first_file_among(nodes@, name@, depth as nat) == Some(path@),
            None => first_file_among(nodes@, name@, depth as nat) is None,
        },
    decreases depth, 1nat,
{
    let mut i: usize = 0;
    proof {
        assert(nodes@.skip(0) =~= nodes@);
    }
    while i < nodes.len()
        invariant
            i <= nodes@.len(),
            first_file_among(nodes@, name@, depth as nat) == first_file_among(
                nodes@.skip(i as int),
                name@,
                depth as nat,
            ),
        decreases nodes@.len() - i,
    {
        proof {
            assert(nodes@.skip(i as int).drop_first() =~= nodes@.skip(i + 1));
        }
        match find_file(&nodes[i], name, depth) {
            Some(path) => {
                return Some(path);
            },
            None => {},
        }
        i += 1;
    }
    None
}

/// Looks in the `files` directory `dir` of the application `app_package` for
/// its payload, and gives the package name and the path of the payload.
pub fn traverse_files(dir: &FsNode, app_package: &str) -> (found: Option<(String, String)>)
    ensures
        match found {
            Some((package, path)) => package@ == app_package@ && payload_of(*dir) == Some(path@),
            None => payload_of(*dir) is None,
        },
{
    match dir {
        FsNode::File { .. } => {
            return None;
        },
        FsNode::Dir { .. } => {},
    }
    if find_file(dir, "version.gg", MAX_WALK_DEPTH).is_none() {
        return None;
    }
    match find_file(dir, "lib01.so", MAX_WALK_DEPTH) {
        Some(path) => Some((app_package.to_owned(), path.to_owned())),
        None => None,
    }
}

/// The first of `nodes` that has the name `name`.
fn find_entry<'a>(nodes: &'a Vec<FsNode>, name: &str) -> (found: Option<&'a FsNode>)
    ensures
        match found {
            Some(node) => entry_named(nodes@, name@) == Some(*node),
            None => entry_named(nodes@, name@) is None,
        },
{
    let mut i: usize = 0;
    proof {
        assert(nodes@.skip(0) =~= nodes@);
    }
    while i < nodes.len()
        invariant
            i <= nodes@.len(),
            entry_named(nodes@, name@) == entry_named(nodes@.skip(i as int), name@),
        decreases nodes@.len() - i,
    {
        proof {
            assert(nodes@.skip(i as int).drop_first() =~= nodes@.skip(i + 1));
        }
        if same_text(nodes[i].name(), name) {
            return Some(&nodes[i]);
        }
        i += 1;
    }
    None
}

/// Looks for the payload of the application that the entry `app` of the base
/// directory is.
fn explore_app(app: &FsNode) -> (found: Option<(String, String)>)
    ensures
        match found {
            Some((package, path)) => package@ == app.spec_name() && payload_of_app(*app) == Some(
                path@,
            ),
            None => payload_of_app(*app) is None,
        },
{
    let name = chars_of(app.name());
    if name.len() == 0 || name[0] == '.' {
        return None;
    }
    match app {
        FsNode::File { .. } => None,
        FsNode::Dir { entries, .. } => match find_entry(entries, "files") {
            Some(dir) => traverse_files(dir, app.name()),
            None => None,
        },
    }
}

/// Goes through the entries of the base directory in the order of their
/// listing and gives the first application that has a payload.
pub fn explore_app_packages(apps: &Vec<FsNode>) -> (found: Option<(String, String)>)
    ensures
        match found {
            Some((package, path)) => first_target(apps@) == Some((package@, path@)),
            None => first_target(apps@) is None,
        },
{
    let mut i: usize = 0;
    proof {
        assert(apps@.skip(0) =~= apps@);
    }
    while i < apps.len()
        invariant
            i <= apps@.len(),
            first_target(apps@) == first_target(apps@.skip(i as int)),
        decreases apps@.len() - i,
    {
        proof {
            assert(apps@.skip(i as int).drop_first() =~= apps@.skip(i + 1));
        }
        match explore_app(&apps[i]) {
            Some(target) => {
                return Some(target);
            },
            None => {},
        }
        i += 1;
    }
    None
}

/// Finds the target among the applications installed below `base`, which is
/// the listing of the directory that holds one directory for each installed
/// application.
pub fn find_pkg(base: &FsNode) -> (found: Option<(String, String)>)
    ensures
        match *base {
            FsNode::Dir { entries, .. } => match found {
                Some((package, path)) => first_target(entries@) == Some((package@, path@)),
                None => first_target(entries@) is None,
            },
            FsNode::File { .. } => found is None,
        },
{
    match base {
        FsNode::Dir { entries, .. } => explore_app_packages(entries),
        FsNode::File { .. } => None,
    }
}

} // verus!
