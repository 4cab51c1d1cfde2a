//! From file names to the constants that the autoloading convention expects in
//! them.

use vstd::prelude::*;
use vstd::utf8::{decode_utf8, valid_utf8};
use crate::scope::{names, Scope};
use crate::text::{
    chars_of, concat, path_behind, path_components, path_parts, path_stem, path_strip_prefix,
    path_without_extension, rows, split, split_on, str_eq, string_of, uppercase, uppercased,
    utf8_of,
};

verus! {

/// `s` with its first character in upper case.
pub open spec fn capitalized(s: Seq<char>) -> Seq<char> {
    if s.len() == 0 {
        s
    } else {
        uppercased(s[0]) + s.skip(1)
    }
}

/// The constant that the file or directory name `name` stands for: its pieces
/// between underscores, each capitalized, put together.
pub open spec fn camelized(name: Seq<char>) -> Seq<char> {
    concat(split_on(name, '_').map_values(|piece: Seq<char>| capitalized(piece)))
}

fn capitalize_chars(s: &Vec<char>) -> (r: Vec<char>)
    ensures
        r@ == capitalized(s@),
{
    if s.len() == 0 {
        let r: Vec<char> = Vec::new();
        assert(r@ =~= s@);
        return r;
    }
    let mut out = uppercase(s[0]);
    let ghost head = out@;
    let mut i: usize = 1;
    while i < s.len()
        invariant
            1 <= i <= s.len(),
            out@ == head + s@.subrange(1, i as int),
        decreases s.len() - i,
    {
        out.push(s[i]);
        assert(s@.subrange(1, i + 1) =~= s@.subrange(1, i as int).push(s@[i as int]));
        i += 1;
    }
    assert(s@.subrange(1, s.len() as int) =~= s@.skip(1));
    out
}

/// `s` without the repetitions of what already stood before.
pub open spec fn unique(s: Seq<Seq<char>>) -> Seq<Seq<char>>
    decreases s.len(),
{
    if s.len() == 0 {
        s
    } else {
        let before = unique(s.drop_last());
        if before.contains(s.last()) {
            before
        } else {
            before.push(s.last())
        }
    }
}

/// The directories under the root from which constants are loaded: those
/// that the framework lists, one per line and each once, then `db` and `spec`.
pub open spec fn autoload_list(listing: Seq<char>) -> Seq<Seq<char>> {
    unique(split_on(listing, '\n')) + seq!["db"@, "spec"@]
}

/// What is left of `local` behind the first of `prefixes[from..]` that is a
/// prefix of it.
pub open spec fn first_behind(
    local: Seq<char>,
    prefixes: Seq<Seq<char>>,
    from: int,
) -> Option<Seq<char>>
    decreases prefixes.len() - from,
{
    if from < 0 || from >= prefixes.len() {
        None
    } else {
        match path_behind(local, prefixes[from]) {
            Some(rest) => Some(rest),
            None => first_behind(local, prefixes, from + 1),
        }
    }
}

/// The constant path that the autoloading convention expects in the file
/// `path`: the path below the root, without its extension and without the
/// autoload directory it lies in, each component turned into a constant.
/// `None` for a path outside the root.
pub open spec fn scope_of_path(
    root: Seq<char>,
    autoload: Seq<Seq<char>>,
    path: Seq<char>,
) -> Option<Seq<Seq<char>>> {
    match path_behind(path, root) {
        None => None,
        Some(below) => {
            let local = path_stem(below);
            let inner = match first_behind(local, autoload, 0) {
                Some(rest) => rest,
                None => local,
            };
            Some(path_parts(inner).map_values(|part: Seq<char>| camelized(part)))
        },
    }
}

/// Why a file name stands for no constant path.
#[derive(Clone, Copy, Debug, PartialEq, Eq, Structural)]
pub enum ConverterError {
    /// The listing of autoload directories is not well-formed UTF-8.
    InvalidListing,
    /// The path does not lie under the root.
    OutsideRoot,
}

pub struct RubyFilenameConverter {
    root_path: String,
    autoload_paths: Vec<String>,
}

fn holds(list: &Vec<String>, wanted: &str) -> (r: bool)
    ensures
        r == names(list@).contains(wanted@),
{
    let mut i: usize = 0;
    while i < list.len()
        invariant
            i <= list.len(),
            forall|k: int| 0 <= k < i ==> names(list@)[k] != wanted@,
        decreases list.len() - i,
    {
        if str_eq(list[i].as_str(), wanted) {
            assert(names(list@)[i as int] == wanted@);
            return true;
        }
        i += 1;
    }
    false
}

impl RubyFilenameConverter {
    pub closed spec fn root(&self) -> Seq<char> {
        self.root_path@
    }

    pub closed spec fn autoload(&self) -> Seq<Seq<char>> {
        names(self.autoload_paths@)
    }

    /// A converter for the project at `root_path`. `listing` is what the
    /// framework prints when asked for its autoload directories, one per line.
    pub fn new(
        root_path: String,
        listing: &[u8],
    ) -> (r: Result<RubyFilenameConverter, ConverterError>)
        ensures
            r is Ok <==> valid_utf8(listing@),
            r is Err ==> r->Err_0 == ConverterError::InvalidListing,
            r is Ok ==> r->Ok_0.root() == root_path@ && r->Ok_0.autoload() == autoload_list(
                decode_utf8(listing@),
            ),
    {
        let text = match utf8_of(listing) {
            Some(text) => text,
            None => {
                return Err(ConverterError::InvalidListing);
            },
        };
        let chars = chars_of(text);
        let lines = split(&chars, '\n');
        let mut paths: Vec<String> = Vec::new();
        let mut i: usize = 0;
        assert(rows(lines@).take(0) =~= Seq::<Seq<char>>::empty());
        assert(names(paths@) =~= unique(rows(lines@).take(0)));
        while i < lines.len()
            invariant
                i <= lines.len(),
                names(paths@) == unique(rows(lines@).take(i as int)),
            decreases lines.len() - i,
        {
            let line = string_of(&lines[i]);
            let ghost before = paths@;
            proof {
                assert(rows(lines@).take(i + 1).drop_last() =~= rows(lines@).take(i as int));
                assert(rows(lines@).take(i + 1).last() == line@);
            }
            if !holds(&paths, line.as_str()) {
                paths.push(line);
                assert(names(paths@) =~= names(before).push(line@));
            }
            i += 1;
        }
        assert(rows(lines@).take(lines.len() as int) =~= rows(lines@));
        let ghost listed = paths@;
        paths.push("db".to_owned());
        paths.push("spec".to_owned());
        assert(names(paths@) =~= names(listed) + seq!["db"@, "spec"@]);
        Ok(RubyFilenameConverter { root_path, autoload_paths: paths })
    }

    /// The constant path that the autoloading convention expects in the file
    /// at `path`, as in `ModuleOne::ClassTwo` for `module_one/class_two.rb`
    /// below an autoload directory.
    pub fn path_to_scope(&self, path: &str) -> (r: Result<Scope, ConverterError>)
        ensures
            r is Ok <==> scope_of_path(self.root(), self.autoload(), path@) is Some,
            r is Err ==> r->Err_0 == ConverterError::OutsideRoot,
            r is Ok ==> r->Ok_0@ == scope_of_path(self.root(), self.autoload(), path@)->0,
    {
        let below = match path_strip_prefix(path, self.root_path.as_str()) {
            Some(below) => below,
            None => {
                return Err(ConverterError::OutsideRoot);
            },
        };
        let local = path_without_extension(below.as_str());
        let mut inner: Option<String> = None;
        let mut i: usize = 0;
        while i < self.autoload_paths.len() && inner.is_none()
            invariant
                i <= self.autoload_paths.len(),
                inner is None ==> first_behind(local@, self.autoload(), 0) == first_behind(
                    local@,
                    self.autoload(),
                    i as int,
                ),
                inner is Some ==> first_behind(local@, self.autoload(), 0) == Some(inner->0@),
            decreases self.autoload_paths.len() - i, (if inner is None { 1int } else { 0int }),
        {
            assert(self.autoload()[i as int] == self.autoload_paths@[i as int]@);
            match path_strip_prefix(local.as_str(), self.autoload_paths[i].as_str()) {
                Some(rest) => {
                    inner = Some(rest);
                },
                None => {
                    i += 1;
                },
            }
        }
        let inner = match inner {
            Some(rest) => rest,
            None => local,
        };
        let parts = path_components(inner.as_str());
        let mut scope = Scope::empty();
        let mut k: usize = 0;
        let ghost wanted = path_parts(inner@).map_values(|part: Seq<char>| camelized(part));
        while k < parts.len()
            invariant
                k <= parts.len(),
                names(parts@) == path_parts(inner@),
                wanted == path_parts(inner@).map_values(|part: Seq<char>| camelized(part)),
                scope@ == wanted.take(k as int),
            decreases parts.len() - k,
        {
            assert(names(parts@)[k as int] == parts@[k as int]@);
            scope.push(Self::name_to_scope(parts[k].as_str()));
            assert(wanted.take(k + 1) =~= wanted.take(k as int).push(wanted[k as int]));
            k += 1;
        }
        assert(wanted.take(parts.len() as int) =~= wanted);
        Ok(scope)
    }

    /// `s` with its first character in upper case.
    pub fn capitalize(s: &str) -> (r: String)
        ensures
            r@ == capitalized(s@),
    {
        let chars = chars_of(s);
        string_of(&capitalize_chars(&chars))
    }

    /// The constant that a file or directory name stands for, as in
    /// `module_one` for `ModuleOne`.
    pub fn name_to_scope(name: &str) -> (r: String)
        ensures
            r@ == camelized(name@),
    {
        let chars = chars_of(name);
        let pieces = split(&chars, '_');
        let ghost wanted = split_on(name@, '_').map_values(|piece: Seq<char>| capitalized(piece));
        let mut out: Vec<char> = Vec::new();
        let mut i: usize = 0;
        assert(wanted.take(0) =~= Seq::<Seq<char>>::empty());
        while i < pieces.len()
            invariant
                i <= pieces.len(),
                rows(pieces@) == split_on(name@, '_'),
                wanted == split_on(name@, '_').map_values(|piece: Seq<char>| capitalized(piece)),
                out@ == concat(wanted.take(i as int)),
            decreases pieces.len() - i,
        {
            let mut piece = capitalize_chars(&pieces[i]);
            proof {
                assert(rows(pieces@)[i as int] == pieces@[i as int]@);
                assert(wanted.take(i + 1).drop_last() =~= wanted.take(i as int));
                assert(wanted.take(i + 1).last() == piece@);
            }
            out.append(&mut piece);
            i += 1;
        }
        assert(wanted.take(pieces.len() as int) =~= wanted);
        string_of(&out)
    }
}

} // verus!
