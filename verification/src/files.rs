//! What is told of each file before it is sent: name, size and type.
use crate::errors::DiskError;
use crate::{FileData, Files};
use vstd::prelude::*;
use vstd::string::*;

verus! {

/// The last position of `c` in `s`, or -1.
pub open spec fn last_index_of(s: Seq<char>, c: char) -> int
    decreases s.len(),
{
    if s.len() == 0 {
        -1
    } else if s.last() == c {
        s.len() - 1
    } else {
        last_index_of(s.drop_last(), c)
    }
}

pub proof fn lemma_last_index_of(s: Seq<char>, c: char)
    ensures
        -1 <= last_index_of(s, c) < s.len(),
        last_index_of(s, c) >= 0 ==> s[last_index_of(s, c)] == c,
        forall|j: int| last_index_of(s, c) < j < s.len() ==> s[j] != c,
    decreases s.len(),
{
    if s.len() > 0 && s.last() != c {
        lemma_last_index_of(s.drop_last(), c);
        assert forall|j: int| last_index_of(s, c) < j < s.len() implies s[j] != c by {
            if j < s.len() - 1 {
                assert(s[j] == s.drop_last()[j]);
            }
        }
    }
}

/// The file name of a Unix path as `Path::file_name` gives it: the last part between
/// `/` separators once empty parts and `.` parts are left out, unless that part is `..`
/// or there is none.
pub open spec fn path_file_name(p: Seq<char>) -> Option<Seq<char>>
    decreases p.len(),
{
    if p.len() == 0 {
        None
    } else {
        let i = last_index_of(p, '/');
        let part = p.subrange(i + 1, p.len() as int);
        if part.len() == 0 || part == seq!['.'] {
            if i < 0 {
                None
            } else {
                proof {
                    lemma_last_index_of(p, '/');
                }
                path_file_name(p.subrange(0, i))
            }
        } else if part == seq!['.', '.'] {
            None
        } else {
            Some(part)
        }
    }
}

/// The extension of a file name as `Path::extension` gives it: what follows the last
/// `.`, unless there is no `.` or the only one starts the name.
pub open spec fn name_extension(name: Seq<char>) -> Option<Seq<char>> {
    let i = last_index_of(name, '.');
    if i <= 0 {
        None
    } else {
        Some(name.subrange(i + 1, name.len() as int))
    }
}

/// The extension of a path: that of its file name.
pub open spec fn path_extension(p: Seq<char>) -> Option<Seq<char>> {
    match path_file_name(p) {
        Some(n) => name_extension(n),
        None => None,
    }
}

/// `Path::file_name`, as text.
#[verifier::external_body]
fn file_name_of(path: &str) -> (r: Option<String>)
    ensures
        match r {
            Some(n) => path_file_name(path@) == Some(n@),
            None => path_file_name(path@) is None,
        },
{
    match std::path::Path::new(path).file_name() {
        Some(n) => Some(n.to_string_lossy().into_owned()),
        None => None,
    }
}

/// `Path::extension`, as text.
#[verifier::external_body]
fn extension_of(path: &str) -> (r: Option<String>)
    ensures
        match r {
            Some(n) => path_extension(path@) == Some(n@),
            None => path_extension(path@) is None,
        },
{
    match std::path::Path::new(path).extension() {
        Some(n) => Some(n.to_string_lossy().into_owned()),
        None => None,
    }
}

/// The path can be described: its size was read and it has a file name with an
/// extension.
pub open spec fn describable(path: Seq<char>, size: Result<u64, std::io::Error>) -> bool {
    &&& size is Ok
    &&& path_file_name(path) is Some
    &&& path_extension(path) is Some
}

/// `r` is what describing `path`, whose size reading gave `size`, comes to.
pub open spec fn describes(
    path: Seq<char>,
    size: Result<u64, std::io::Error>,
    r: Result<Files, DiskError>,
) -> bool {
    match size {
        Err(e) => r matches Err(DiskError::FileOpenError { filename, source }) && filename@ == path
            && source == e,
        Ok(n) => match path_file_name(path) {
            None => r matches Err(DiskError::InvalidFile(m)) && m@ == "invalid file name "@ + path,
            Some(name) => match name_extension(name) {
                None => r matches Err(DiskError::InvalidFile(m)) && m@
                    == "File type cannot be deduced "@ + path,
                Some(ext) => r matches Ok(f) && f.0@ == path && f.1.name@ == name
                    && f.1.file_size == n && f.1.file_type@ == ext,
            },
        },
    }
}

/// Law: a file is described by what was read of it: its path, the size read for it,
/// the path's file name and the path's extension, whatever the path.
pub proof fn lemma_description_is_what_was_read(
    path: Seq<char>,
    size: Result<u64, std::io::Error>,
    f: Files,
)
    requires
        describes(path, size, Ok(f)),
    ensures
        size == Ok::<u64, std::io::Error>(f.1.file_size),
        f.0@ == path,
        path_file_name(path) == Some(f.1.name@),
        path_extension(path) == Some(f.1.file_type@),
{
}

/// Describes one file from its path and what reading its size gave.
pub fn describe_file(path: String, size: Result<u64, std::io::Error>) -> (r: Result<
    Files,
    DiskError,
>)
    ensures
        describes(path@, size, r),
        r is Ok <==> describable(path@, size),
        r is Ok ==> size == Ok::<u64, std::io::Error>(r->Ok_0.1.file_size),
        r is Ok ==> r->Ok_0.0@ == path@,
        r is Ok ==> path_file_name(path@) == Some(r->Ok_0.1.name@),
        r is Ok ==> path_extension(path@) == Some(r->Ok_0.1.file_type@),
{
    match size {
        Err(e) => Err(DiskError::FileOpenError { filename: path, source: e }),
        Ok(n) => match file_name_of(path.as_str()) {
            None => {
                let mut m = String::from_str("invalid file name ");
                m.append(path.as_str());
                Err(DiskError::InvalidFile(m))
            },
            Some(name) => match extension_of(path.as_str()) {
                None => {
                    let mut m = String::from_str("File type cannot be deduced ");
                    m.append(path.as_str());
                    Err(DiskError::InvalidFile(m))
                },
                Some(file_type) => Ok(Files(path, FileData { name, file_size: n, file_type })),
            },
        },
    }
}

/// Describes every file, in order, from its path and what reading its size gave; the
/// first file that cannot be described stops the work and its error is returned.
pub fn get_file_data(file_stats: Vec<(String, Result<u64, std::io::Error>)>) -> (r: Result<
    Vec<Files>,
    DiskError,
>)
    ensures
        r is Ok <==> forall|i: int|
            0 <= i < file_stats@.len() ==> #[trigger] describable(
                file_stats@[i].0@,
                file_stats@[i].1,
            ),
        r matches Ok(v) ==> v@.len() == file_stats@.len() && forall|i: int|
            0 <= i < v@.len() ==> #[trigger] describes(
                file_stats@[i].0@,
                file_stats@[i].1,
                Ok(v@[i]),
            ),
        r matches Ok(v) ==> forall|i: int|
            0 <= i < v@.len() ==> file_stats@[i].1 == Ok::<u64, std::io::Error>(
                #[trigger] v@[i].1.file_size,
            ) && v@[i].0@ == file_stats@[i].0@ && path_file_name(file_stats@[i].0@) == Some(
                v@[i].1.name@,
            ) && path_extension(file_stats@[i].0@) == Some(v@[i].1.file_type@),
        r matches Err(e) ==> exists|k: int|
            0 <= k < file_stats@.len() && (forall|i: int|
                0 <= i < k ==> #[trigger] describable(file_stats@[i].0@, file_stats@[i].1))
                && describes(file_stats@[k].0@, file_stats@[k].1, Err(e)),
{
    let ghost all = file_stats@;
    let mut rest = file_stats;
    let mut metadata: Vec<Files> = Vec::new();
    while rest.len() > 0
        invariant
            all == file_stats@,
            metadata@.len() + rest@.len() == all.len(),
            rest@ == all.skip(metadata@.len() as int),
            forall|i: int|
                0 <= i < metadata@.len() ==> #[trigger] describes(
                    all[i].0@,
                    all[i].1,
                    Ok(metadata@[i]),
                ),
            forall|i: int| 0 <= i < metadata@.len() ==> #[trigger] describable(all[i].0@, all[i].1),
        decreases rest@.len(),
    {
        let ghost k = metadata@.len() as int;
        let (path, size) = rest.remove(0);
        assert(all[k] == (path, size));
        match describe_file(path, size) {
            Ok(f) => {
                metadata.push(f);
                assert(rest@ =~= all.skip(metadata@.len() as int));
            },
            Err(e) => {
                assert(!describable(all[k].0@, all[k].1));
                assert(describes(all[k].0@, all[k].1, Err(e)));
                return Err(e);
            },
        }
    }
    assert forall|i: int| 0 <= i < metadata@.len() implies all[i].1 == Ok::<u64, std::io::Error>(
        #[trigger] metadata@[i].1.file_size,
    ) && metadata@[i].0@ == all[i].0@ && path_file_name(all[i].0@) == Some(metadata@[i].1.name@)
        && path_extension(all[i].0@) == Some(metadata@[i].1.file_type@) by {
        lemma_description_is_what_was_read(all[i].0@, all[i].1, metadata@[i]);
    }
    Ok(metadata)
}

} // verus!
