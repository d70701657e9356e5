//! Where a node keeps its files.

use crate::text;
use vstd::prelude::*;

verus! {

/// The files and directories of a node, all under `~/.via`.
#[derive(Debug)]
pub struct ViaPaths {
    pub root: String,
    pub lux: String,
    pub logs: String,
    pub bin: String,
    pub mesh_key: String,
    pub hub_config: String,
    pub auth_config: String,
    pub iroh_key: String,
}

#[verifier::ext_equal]
pub struct PathsView {
    pub root: Seq<char>,
    pub lux: Seq<char>,
    pub logs: Seq<char>,
    pub bin: Seq<char>,
    pub mesh_key: Seq<char>,
    pub hub_config: Seq<char>,
    pub auth_config: Seq<char>,
    pub iroh_key: Seq<char>,
}

impl View for ViaPaths {
    type V = PathsView;

    open spec fn view(&self) -> PathsView {
        PathsView {
            root: self.root@,
            lux: self.lux@,
            logs: self.logs@,
            bin: self.bin@,
            mesh_key: self.mesh_key@,
            hub_config: self.hub_config@,
            auth_config: self.auth_config@,
            iroh_key: self.iroh_key@,
        }
    }
}

impl Clone for ViaPaths {
    fn clone(&self) -> (r: Self)
        ensures
            r@ == self@,
    {
        ViaPaths {
            root: self.root.clone(),
            lux: self.lux.clone(),
            logs: self.logs.clone(),
            bin: self.bin.clone(),
            mesh_key: self.mesh_key.clone(),
            hub_config: self.hub_config.clone(),
            auth_config: self.auth_config.clone(),
            iroh_key: self.iroh_key.clone(),
        }
    }
}

/// The path of `name` in the directory `base`.
pub open spec fn inside(base: Seq<char>, name: Seq<char>) -> Seq<char> {
    if base.len() == 0 || base.last() == '/' {
        base + name
    } else {
        base + "/"@ + name
    }
}

/// The files and directories of a node whose directory is `root`.
pub open spec fn paths_under(root: Seq<char>) -> PathsView {
    PathsView {
        root,
        lux: inside(root, "lux"@),
        logs: inside(root, "logs"@),
        bin: inside(root, "bin"@),
        mesh_key: inside(root, "mesh.key"@),
        hub_config: inside(root, "hub.json"@),
        auth_config: inside(root, "auth.json"@),
        iroh_key: inside(root, "iroh.key"@),
    }
}

/// The path of `name` in the directory `base`.
pub fn path_inside(base: &str, name: &str) -> (r: String)
    ensures
        r@ == inside(base@, name@),
{
    let n: usize = base.unicode_len();
    if n == 0 || base.get_char(n - 1) == '/' {
        base.to_owned().concat(name)
    } else {
        base.to_owned().concat("/").concat(name)
    }
}

impl ViaPaths {
    /// The files and directories under the home directory.
    pub fn new(home: Option<String>) -> (r: Result<ViaPaths, String>)
        ensures
            match r {
                Ok(p) => home is Some && p@ == paths_under(inside(home->Some_0@, ".via"@)),
                Err(e) => home is None && e@ == "could not find home directory"@,
            },
    {
        match home {
            Some(home) => Ok(ViaPaths::under(path_inside(home.as_str(), ".via"))),
            None => Err("could not find home directory".to_owned()),
        }
    }

    /// The files and directories of a node whose directory is `root`.
    pub fn under(root: String) -> (r: ViaPaths)
        ensures
            r@ == paths_under(root@),
    {
        ViaPaths {
            lux: path_inside(root.as_str(), "lux"),
            logs: path_inside(root.as_str(), "logs"),
            bin: path_inside(root.as_str(), "bin"),
            mesh_key: path_inside(root.as_str(), "mesh.key"),
            hub_config: path_inside(root.as_str(), "hub.json"),
            auth_config: path_inside(root.as_str(), "auth.json"),
            iroh_key: path_inside(root.as_str(), "iroh.key"),
            root,
        }
    }

    /// The directories that have to exist, in the order in which they are made.
    pub fn ensure(&self) -> (r: Vec<String>)
        ensures
            text::texts(r@) == seq![self@.root, self@.lux, self@.logs, self@.bin],
    {
        let v = vec![self.root.clone(), self.lux.clone(), self.logs.clone(), self.bin.clone()];
        proof {
            assert(text::texts(v@) == seq![self@.root, self@.lux, self@.logs, self@.bin]);
        }
        v
    }
}

} // verus!
