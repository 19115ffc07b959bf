//! Resolving `-l` libraries to files in the search directories, and listing
//! the files that a link reads.

use crate::model::{LinkError, LinkErrorView};
use crate::opt::{FileOpt, FileOptView, ObjectFileOpt, ObjectFileOptView, Opt, OptView};
use crate::pipeline::copy_opt;
use crate::text::{appended, same_text, views};
use vstd::prelude::*;
use vstd::string::*;

verus! {

/// The path of the file `name` in the directory `dir`: the two joined by a
/// slash, unless the directory is empty or ends with one.
pub open spec fn joined(dir: Seq<char>, name: Seq<char>) -> Seq<char> {
    if dir.len() == 0 || dir.last() == '/' {
        dir + name
    } else {
        dir + "/"@ + name
    }
}

/// Joins a directory and a file name to a path.
pub fn join(dir: &str, name: &str) -> (path: String)
    ensures
        path@ == joined(dir@, name@),
{
    let n = dir.unicode_len();
    if n == 0 || dir.get_char(n - 1) == '/' {
        appended(dir, name)
    } else {
        let with_slash = appended(dir, "/");
        appended(with_slash.as_str(), name)
    }
}

/// Tells whether `path` is among the paths.
pub fn is_among(paths: &Vec<String>, path: &str) -> (b: bool)
    ensures
        b == views(paths@).contains(path@),
{
    let n = paths.len();
    let mut i: usize = 0;
    while i < n
        invariant
            i <= n,
            n == paths@.len(),
            forall|k: int| 0 <= k < i ==> views(paths@)[k] != path@,
        decreases n - i,
    {
        if same_text(paths[i].as_str(), path) {
            assert(views(paths@)[i as int] == path@);
            return true;
        }
        i += 1;
    }
    false
}

/// The index of the first directory in which the file `name` exists, or the
/// number of directories where it exists in none.
pub open spec fn found_in(name: Seq<char>, dirs: Seq<Seq<char>>, existing: Seq<Seq<char>>) -> int
    decreases dirs.len(),
{
    if dirs.len() == 0 {
        0
    } else {
        let p = found_in(name, dirs.drop_last(), existing);
        if p < dirs.len() - 1 {
            p
        } else if existing.contains(joined(dirs.last(), name)) {
            dirs.len() - 1
        } else {
            dirs.len() as int
        }
    }
}

/// Where the file `name` is found: its path in the first of the directories
/// in which it exists.
pub open spec fn located(name: Seq<char>, dirs: Seq<Seq<char>>, existing: Seq<Seq<char>>)
    -> Option<Seq<char>> {
    let p = found_in(name, dirs, existing);
    if p < dirs.len() {
        Some(joined(dirs[p], name))
    } else {
        None
    }
}

proof fn lemma_found_in(
    name: Seq<char>,
    dirs: Seq<Seq<char>>,
    existing: Seq<Seq<char>>,
    p: int,
)
    requires
        0 <= p <= dirs.len(),
        p < dirs.len() ==> existing.contains(joined(dirs[p], name)),
        forall|j: int| 0 <= j < p ==> !existing.contains(joined(dirs[j], name)),
    ensures
        found_in(name, dirs, existing) == p,
    decreases dirs.len(),
{
    if dirs.len() > 0 {
        let init = dirs.drop_last();
        if p < dirs.len() - 1 {
            lemma_found_in(name, init, existing, p);
        } else {
            lemma_found_in(name, init, existing, dirs.len() - 1);
        }
    }
}

/// Looks the file `name` up in the search directories `paths`, `existing`
/// being the paths that are files. A missing file is the error
/// `FileNotFound` with the name of the file.
pub fn lookup_file(name: &str, paths: &Vec<String>, existing: &Vec<String>) -> (res: Result<
    String,
    LinkError,
>)
    ensures
        match located(name@, views(paths@), views(existing@)) {
            Some(path) => res is Ok && res->Ok_0@ == path,
            None => res is Err && res->Err_0@ == LinkErrorView::FileNotFound(name@),
        },
{
    let ghost dirs = views(paths@);
    let n = paths.len();
    let mut i: usize = 0;
    while i < n
        invariant
            i <= n,
            n == paths@.len(),
            dirs == views(paths@),
            forall|j: int| 0 <= j < i ==> !views(existing@).contains(joined(dirs[j], name@)),
        decreases n - i,
    {
        let path = join(paths[i].as_str(), name);
        assert(dirs[i as int] == paths@[i as int]@);
        if is_among(existing, path.as_str()) {
            proof {
                lemma_found_in(name@, dirs, views(existing@), i as int);
            }
            return Ok(path);
        }
        i += 1;
    }
    proof {
        lemma_found_in(name@, dirs, views(existing@), n as int);
    }
    Err(LinkError::FileNotFound(String::from_str(name)))
}

/// The name of the shared object of the library `name`.
pub open spec fn shared_name(name: Seq<char>) -> Seq<char> {
    "lib"@ + name + ".so"@
}

/// The name of the archive of the library `name`.
pub open spec fn archive_name(name: Seq<char>) -> Seq<char> {
    "lib"@ + name + ".a"@
}

/// What one input resolves to: a library becomes the file of its shared
/// object, unless it is linked statically or has none, or else the file of
/// its archive; anything else stays as it is.
pub open spec fn resolved_one(
    item: ObjectFileOptView,
    dirs: Seq<Seq<char>>,
    existing: Seq<Seq<char>>,
) -> Result<ObjectFileOptView, LinkErrorView> {
    match item {
        ObjectFileOptView::Library(lib) => {
            let shared = located(shared_name(lib.name), dirs, existing);
            if !lib.link_static && shared is Some {
                Ok(
                    ObjectFileOptView::File(
                        FileOptView { name: shared->Some_0, as_needed: lib.as_needed },
                    ),
                )
            } else {
                match located(archive_name(lib.name), dirs, existing) {
                    Some(path) => Ok(
                        ObjectFileOptView::File(
                            FileOptView { name: path, as_needed: lib.as_needed },
                        ),
                    ),
                    None => Err(LinkErrorView::FileNotFound(archive_name(lib.name))),
                }
            }
        },
        other => Ok(other),
    }
}

/// `acc`, followed by what the inputs from index `i` on resolve to.
pub open spec fn resolved_from(
    items: Seq<ObjectFileOptView>,
    dirs: Seq<Seq<char>>,
    existing: Seq<Seq<char>>,
    i: int,
    acc: Seq<ObjectFileOptView>,
) -> Result<Seq<ObjectFileOptView>, LinkErrorView>
    decreases items.len() - i,
{
    if i < 0 || i >= items.len() {
        Ok(acc)
    } else {
        match resolved_one(items[i], dirs, existing) {
            Err(e) => Err(e),
            Ok(item) => resolved_from(items, dirs, existing, i + 1, acc.push(item)),
        }
    }
}

/// The options with every library resolved to a file.
pub open spec fn resolved(opt: OptView, existing: Seq<Seq<char>>) -> Result<
    OptView,
    LinkErrorView,
> {
    match resolved_from(opt.obj_file, opt.search_dir, existing, 0, Seq::empty()) {
        Err(e) => Err(e),
        Ok(obj_file) => Ok(OptView { obj_file, ..opt }),
    }
}

/// The view of the result of a resolution.
pub open spec fn resolution_view(r: Result<Opt, LinkError>) -> Result<OptView, LinkErrorView> {
    match r {
        Ok(o) => Ok(o@),
        Err(e) => Err(e@),
    }
}

/// Resolves one input.
fn resolve_one(item: &ObjectFileOpt, dirs: &Vec<String>, existing: &Vec<String>) -> (res: Result<
    ObjectFileOpt,
    LinkError,
>)
    ensures
        match resolved_one(item@, views(dirs@), views(existing@)) {
            Ok(v) => res is Ok && res->Ok_0@ == v,
            Err(e) => res is Err && res->Err_0@ == e,
        },
{
    match item {
        ObjectFileOpt::Library(lib) => {
            if !lib.link_static {
                let shared = appended(appended("lib", lib.name.as_str()).as_str(), ".so");
                match lookup_file(shared.as_str(), dirs, existing) {
                    Ok(path) => {
                        return Ok(
                            ObjectFileOpt::File(FileOpt { name: path, as_needed: lib.as_needed }),
                        );
                    },
                    Err(_) => {},
                }
            }
            let archive = appended(appended("lib", lib.name.as_str()).as_str(), ".a");
            match lookup_file(archive.as_str(), dirs, existing) {
                Ok(path) => Ok(
                    ObjectFileOpt::File(FileOpt { name: path, as_needed: lib.as_needed }),
                ),
                Err(e) => Err(e),
            }
        },
        ObjectFileOpt::File(f) => Ok(
            ObjectFileOpt::File(FileOpt { name: f.name.clone(), as_needed: f.as_needed }),
        ),
        ObjectFileOpt::StartGroup => Ok(ObjectFileOpt::StartGroup),
        ObjectFileOpt::EndGroup => Ok(ObjectFileOpt::EndGroup),
    }
}

/// Resolves every library among the inputs to a file, `existing` being the
/// paths that are files. A shared object is taken before an archive, unless
/// the library is to be linked statically.
pub fn path_resolution(opt: &Opt, existing: &Vec<String>) -> (res: Result<Opt, LinkError>)
    ensures
        resolution_view(res) == resolved(opt@, views(existing@)),
{
    let mut resolved_opt = copy_opt(opt);
    let mut items: Vec<ObjectFileOpt> = Vec::new();
    let n = opt.obj_file.len();
    let mut i: usize = 0;
    assert(views(items@) =~= Seq::<ObjectFileOptView>::empty());
    while i < n
        invariant
            i <= n,
            n == opt.obj_file@.len(),
            resolved_opt@ == opt@,
            resolved_from(opt@.obj_file, opt@.search_dir, views(existing@), 0, Seq::empty())
                == resolved_from(
                opt@.obj_file,
                opt@.search_dir,
                views(existing@),
                i as int,
                views(items@),
            ),
        decreases n - i,
    {
        assert(opt@.obj_file[i as int] == opt.obj_file@[i as int]@);
        match resolve_one(&opt.obj_file[i], &opt.search_dir, existing) {
            Err(e) => {
                return Err(e);
            },
            Ok(item) => {
                proof {
                    assert(views(items@.push(item)) =~= views(items@).push(item@));
                }
                items.push(item);
            },
        }
        i += 1;
    }
    resolved_opt.obj_file = items;
    Ok(resolved_opt)
}

/// The paths that a resolution asks about: for each library and each search
/// directory, the path of the shared object, unless the library is to be
/// linked statically, and the path of the archive.
pub open spec fn candidates_from(
    items: Seq<ObjectFileOptView>,
    dirs: Seq<Seq<char>>,
    i: int,
    j: int,
    acc: Seq<Seq<char>>,
) -> Seq<Seq<char>>
    decreases items.len() - i, dirs.len() - j,
{
    if i < 0 || i >= items.len() {
        acc
    } else if j < 0 || j >= dirs.len() {
        candidates_from(items, dirs, i + 1, 0, acc)
    } else {
        match items[i] {
            ObjectFileOptView::Library(lib) => {
                let with_shared = if lib.link_static {
                    acc
                } else {
                    acc.push(joined(dirs[j], shared_name(lib.name)))
                };
                candidates_from(
                    items,
                    dirs,
                    i,
                    j + 1,
                    with_shared.push(joined(dirs[j], archive_name(lib.name))),
                )
            },
            _ => candidates_from(items, dirs, i + 1, 0, acc),
        }
    }
}

/// Lists the paths that `path_resolution` asks about.
pub fn library_candidates(opt: &Opt) -> (paths: Vec<String>)
    ensures
        views(paths@) == candidates_from(opt@.obj_file, opt@.search_dir, 0, 0, Seq::empty()),
{
    let mut paths: Vec<String> = Vec::new();
    let n = opt.obj_file.len();
    let m = opt.search_dir.len();
    let mut i: usize = 0;
    assert(views(paths@) =~= Seq::<Seq<char>>::empty());
    while i < n
        invariant
            i <= n,
            n == opt.obj_file@.len(),
            m == opt.search_dir@.len(),
            candidates_from(opt@.obj_file, opt@.search_dir, 0, 0, Seq::empty())
                == candidates_from(opt@.obj_file, opt@.search_dir, i as int, 0, views(paths@)),
        decreases n - i,
    {
        assert(opt@.obj_file[i as int] == opt.obj_file@[i as int]@);
        match &opt.obj_file[i] {
            ObjectFileOpt::Library(lib) => {
                let shared = appended(appended("lib", lib.name.as_str()).as_str(), ".so");
                let archive = appended(appended("lib", lib.name.as_str()).as_str(), ".a");
                let mut j: usize = 0;
                while j < m
                    invariant
                        j <= m,
                        i < n,
                        n == opt.obj_file@.len(),
                        m == opt.search_dir@.len(),
                        opt@.obj_file[i as int] == ObjectFileOptView::Library(lib@),
                        shared@ == shared_name(lib@.name),
                        archive@ == archive_name(lib@.name),
                        candidates_from(opt@.obj_file, opt@.search_dir, 0, 0, Seq::empty())
                            == candidates_from(
                            opt@.obj_file,
                            opt@.search_dir,
                            i as int,
                            j as int,
                            views(paths@),
                        ),
                    decreases m - j,
                {
                    assert(opt@.search_dir[j as int] == opt.search_dir@[j as int]@);
                    if !lib.link_static {
                        let path = join(opt.search_dir[j].as_str(), shared.as_str());
                        proof {
                            assert(views(paths@.push(path)) =~= views(paths@).push(path@));
                        }
                        paths.push(path);
                    }
                    let path = join(opt.search_dir[j].as_str(), archive.as_str());
                    proof {
                        assert(views(paths@.push(path)) =~= views(paths@).push(path@));
                    }
                    paths.push(path);
                    j += 1;
                }
            },
            _ => {},
        }
        i += 1;
    }
    paths
}

/// `acc`, followed by the files among the inputs from index `i` on. A
/// library that is not resolved is the error `Bug`; the marks of a group are
/// passed over.
pub open spec fn files_from(items: Seq<ObjectFileOptView>, i: int, acc: Seq<FileOptView>)
    -> Result<Seq<FileOptView>, LinkErrorView>
    decreases items.len() - i,
{
    if i < 0 || i >= items.len() {
        Ok(acc)
    } else {
        match items[i] {
            ObjectFileOptView::File(f) => files_from(items, i + 1, acc.push(f)),
            ObjectFileOptView::Library(_) => Err(LinkErrorView::Bug),
            _ => files_from(items, i + 1, acc),
        }
    }
}

/// Lists the files that the link reads, in order.
pub fn input_files(opt: &Opt) -> (res: Result<Vec<FileOpt>, LinkError>)
    ensures
        match files_from(opt@.obj_file, 0, Seq::empty()) {
            Ok(files) => res is Ok && views(res->Ok_0@) == files,
            Err(e) => res is Err && res->Err_0@ == e,
        },
{
    let mut files: Vec<FileOpt> = Vec::new();
    let n = opt.obj_file.len();
    let mut i: usize = 0;
    assert(views(files@) =~= Seq::<FileOptView>::empty());
    while i < n
        invariant
            i <= n,
            n == opt.obj_file@.len(),
            files_from(opt@.obj_file, 0, Seq::empty()) == files_from(
                opt@.obj_file,
                i as int,
                views(files@),
            ),
        decreases n - i,
    {
        assert(opt@.obj_file[i as int] == opt.obj_file@[i as int]@);
        match &opt.obj_file[i] {
            ObjectFileOpt::File(f) => {
                let file = FileOpt { name: f.name.clone(), as_needed: f.as_needed };
                proof {
                    assert(views(files@.push(file)) =~= views(files@).push(file@));
                }
                files.push(file);
            },
            ObjectFileOpt::Library(_) => {
                return Err(LinkError::Bug);
            },
            _ => {},
        }
        i += 1;
    }
    Ok(files)
}

} // verus!
