//! Where assets come from.

use crate::held::Held;
use std::path::PathBuf;
use vstd::prelude::*;
use vstd::string::StringExecFns;

verus! {

/// A trait for asset stores which are permanent storages for assets
pub trait AssetStore {
    /// Whether `has_asset` may return `found` for these arguments. If not said otherwise, it may
    /// return either.
    open spec fn reports(&self, name: Seq<char>, asset_type: Seq<char>, found: bool) -> bool {
        true
    }

    /// Whether `load_asset` may turn the buffer `before` into `after` and return `result`. If not
    /// said otherwise, it may do anything.
    open spec fn fills(
        &self,
        name: Seq<char>,
        asset_type: Seq<char>,
        before: Seq<u8>,
        after: Seq<u8>,
        result: Option<usize>,
    ) -> bool {
        true
    }

    fn has_asset(&self, name: &str, asset_type: &str) -> (found: bool)
        ensures
            self.reports(name@, asset_type@, found),
    ;

    fn load_asset(&self, name: &str, asset_type: &str, buf: &mut Vec<u8>) -> (result: Option<usize>)
        ensures
            self.fills(name@, asset_type@, old(buf)@, final(buf)@, result),
    ;
}

/// A store that was given to the manager.
pub struct Registered<T>(pub T);

impl<T: AssetStore> AssetStore for Registered<T> {
    open spec fn reports(&self, name: Seq<char>, asset_type: Seq<char>, found: bool) -> bool {
        self.0.reports(name, asset_type, found)
    }

    open spec fn fills(
        &self,
        name: Seq<char>,
        asset_type: Seq<char>,
        before: Seq<u8>,
        after: Seq<u8>,
        result: Option<usize>,
    ) -> bool {
        self.0.fills(name, asset_type, before, after, result)
    }

    fn has_asset(&self, name: &str, asset_type: &str) -> (found: bool) {
        self.0.has_asset(name, asset_type)
    }

    fn load_asset(&self, name: &str, asset_type: &str, buf: &mut Vec<u8>) -> (result: Option<
        usize,
    >) {
        self.0.load_asset(name, asset_type, buf)
    }
}

/// Whether the store `held` answers as `store` does.
pub open spec fn is_store<T: AssetStore>(held: Held<dyn AssetStore>, store: T) -> bool {
    &&& forall|name: Seq<char>, asset_type: Seq<char>, found: bool| #[trigger]
        held.value.reports(name, asset_type, found) == store.reports(name, asset_type, found)
    &&& forall|
        name: Seq<char>,
        asset_type: Seq<char>,
        before: Seq<u8>,
        after: Seq<u8>,
        result: Option<usize>,
    | #[trigger]
        held.value.fills(name, asset_type, before, after, result) == store.fills(
            name,
            asset_type,
            before,
            after,
            result,
        )
}

/// Boxes a store.
pub(crate) fn hold_store<T: 'static + AssetStore>(store: T) -> (held: Held<dyn AssetStore>)
    ensures
        is_store(held, store),
{
    let boxed: Box<dyn AssetStore> = Box::new(Registered(store));
    let held = Held { value: boxed };
    held
}

/// `std::path::PathBuf`, carried as an opaque value.
#[verifier::external_type_specification]
#[verifier::external_body]
pub struct ExPathBuf(std::path::PathBuf);

/// `std::path::Path`, which a `PathBuf` dereferences to.
#[verifier::external_type_specification]
#[verifier::external_body]
pub struct ExPath(std::path::Path);

/// Calls `std::path::Path::join`, which appends a path to another. Nothing is claimed of the
/// result, which depends on the machine: `joins` is defined as being such a result.
#[verifier::external_body]
fn join(dir: &PathBuf, file_name: String) -> (path: PathBuf) {
    dir.join(file_name)
}

/// Calls `std::path::PathBuf::from`, which takes a text for a path. Nothing is claimed of the
/// result: `is_path` is defined as being such a result.
#[verifier::external_body]
fn path_from(text: String) -> (path: PathBuf) {
    PathBuf::from(text)
}

/// Whether `path` is the path of the file `file_name` in the directory `dir`.
pub closed spec fn joins(dir: PathBuf, file_name: Seq<char>, path: PathBuf) -> bool {
    exists|s: String| s@ == file_name && #[trigger] call_ensures(join, (&dir, s), path)
}

/// Whether `path` is the path that `text` stands for.
pub closed spec fn is_path(text: Seq<char>, path: PathBuf) -> bool {
    exists|s: String| s@ == text && #[trigger] call_ensures(path_from, (s,), path)
}

/// The name of the file that holds an asset.
pub open spec fn file_name(name: Seq<char>, asset_type: Seq<char>) -> Seq<char> {
    name + "."@ + asset_type
}

/// The directory of assets beside an executable, given the directory of the executable.
pub open spec fn sibling_dir(exe_dir: Seq<char>) -> Seq<char> {
    exe_dir + "/resources/assets"@
}

/// Asset store representing a file directory.
pub struct DirectoryStore {
    path: PathBuf,
}

impl DirectoryStore {
    /// The directory that holds the files.
    pub closed spec fn dir(self) -> PathBuf {
        self.path
    }

    pub fn new(path: PathBuf) -> (store: DirectoryStore)
        ensures
            store.dir() == path,
    {
        DirectoryStore { path }
    }

    /// The path of the file that holds an asset.
    pub fn asset_to_path(&self, name: &str, asset_type: &str) -> (path: PathBuf)
        ensures
            joins(self.dir(), file_name(name@, asset_type@), path),
    {
        let mut file_name = name.to_owned();
        file_name.append(".");
        file_name.append(asset_type);
        join(&self.path, file_name)
    }
}

/// Whether `stores` are those that a manager starts with: the given directories in order, and then
/// the one beside the executable, if the directory of the executable is known.
pub open spec fn are_default_stores(
    asset_dirs: Seq<PathBuf>,
    exe_dir: Option<&str>,
    stores: Seq<DirectoryStore>,
) -> bool {
    &&& stores.len() == asset_dirs.len() + (if exe_dir is Some {
        1int
    } else {
        0
    })
    &&& forall|i: int| 0 <= i < asset_dirs.len() ==> (#[trigger] stores[i]).dir() == asset_dirs[i]
    &&& exe_dir matches Some(dir) ==> is_path(sibling_dir(dir@), stores.last().dir())
}

/// The stores that a manager starts with: the given directories in order, and then the one beside
/// the executable, if the directory of the executable is known.
pub fn default_stores(asset_dirs: Vec<PathBuf>, exe_dir: Option<&str>) -> (stores: Vec<
    DirectoryStore,
>)
    ensures
        are_default_stores(asset_dirs@, exe_dir, stores@),
{
    let mut stores: Vec<DirectoryStore> = Vec::new();
    for dir in iter: asset_dirs
        invariant
            stores@.len() == iter.index(),
            forall|i: int|
                0 <= i < stores@.len() ==> (#[trigger] stores@[i]).dir() == iter.seq()[i],
    {
        stores.push(DirectoryStore::new(dir));
    }
    if let Some(dir) = exe_dir {
        let mut sibling = dir.to_owned();
        sibling.append("/resources/assets");
        stores.push(DirectoryStore::new(path_from(sibling)));
    }
    stores
}

/// A directory is that of the store made of it.
proof fn law_new_directory_store(path: PathBuf, store: DirectoryStore)
    requires
        call_ensures(DirectoryStore::new, (path,), store),
    ensures
        store.path == path,
        store.dir() == path,
{
}

/// The path of an asset is that of its directory joined with its name, a dot and its type.
proof fn law_asset_to_path(
    store: &DirectoryStore,
    name: &str,
    asset_type: &str,
    path: PathBuf,
)
    requires
        call_ensures(DirectoryStore::asset_to_path, (store, name, asset_type), path),
    ensures
        exists|s: String|
            s@ == name@ + seq!['.'] + asset_type@ && #[trigger] call_ensures(
                join,
                (&store.path, s),
                path,
            ),
{
    reveal_strlit(".");
    assert("."@ =~= seq!['.']);
    let s = choose|s: String|
        s@ == file_name(name@, asset_type@) && #[trigger] call_ensures(
            join,
            (&store.path, s),
            path,
        );
    assert(call_ensures(join, (&store.path, s), path));
}

/// A path that a text stands for is what `PathBuf::from` makes of it.
proof fn law_is_path(text: Seq<char>, path: PathBuf)
    ensures
        is_path(text, path) <==> exists|s: String|
            s@ == text && #[trigger] call_ensures(path_from, (s,), path),
{
}

/// There is a store for each of the given directories, in order. Whenever the directory of the
/// executable is known, there is one more, and it is the last.
proof fn law_default_stores(
    asset_dirs: Vec<PathBuf>,
    exe_dir: Option<&str>,
    stores: Vec<DirectoryStore>,
    i: int,
)
    requires
        call_ensures(default_stores, (asset_dirs, exe_dir), stores),
    ensures
        0 <= i < asset_dirs@.len() ==> stores@[i].path == asset_dirs@[i],
        exe_dir is None ==> stores@.len() == asset_dirs@.len(),
        exe_dir matches Some(dir) ==> {
            &&& stores@.len() == asset_dirs@.len() + 1
            &&& exists|s: String|
                s@ == dir@ + "/resources/assets"@ && #[trigger] call_ensures(
                    path_from,
                    (s,),
                    stores@[asset_dirs@.len() as int].path,
                )
        },
{
}

} // verus!
