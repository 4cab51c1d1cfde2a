//! Conversions between strings, characters and bytes.

use vstd::prelude::*;
use vstd::string::StringSliceAdditionalSpecFns;
use vstd::utf8::{decode_utf8, valid_utf8};
use std::sync::Arc;

verus! {

/// Whether two string slices hold the same characters.
pub fn str_eq(a: &str, b: &str) -> (r: bool)
    ensures
        r == (a@ == b@),
{
    let x = a.as_bytes();
    let y = b.as_bytes();
    proof {
        vstd::utf8::encode_utf8_decode_utf8(a@);
        vstd::utf8::encode_utf8_decode_utf8(b@);
    }
    if x.len() != y.len() {
        return false;
    }
    let mut i: usize = 0;
    while i < x.len()
        invariant
            i <= x.len(),
            x.len() == y.len(),
            x@ == a.spec_bytes(),
            y@ == b.spec_bytes(),
            forall|k: int| 0 <= k < i ==> x@[k] == y@[k],
        decreases x.len() - i,
    {
        if x[i] != y[i] {
            assert(x@[i as int] != y@[i as int]);
            return false;
        }
        i += 1;
    }
    assert(x@ =~= y@);
    true
}

/// `str::chars`, collected: the characters of `s`, in order.
#[verifier::external_body]
pub(crate) fn chars_of(s: &str) -> (r: Vec<char>)
    ensures
        r@ == s@,
{
    s.chars().collect()
}

/// `String::from_iter` over characters: the string made of `chars`, in order.
#[verifier::external_body]
pub(crate) fn string_of(chars: &Vec<char>) -> (r: String)
    ensures
        r@ == chars@,
{
    chars.iter().collect()
}

/// `std::str::from_utf8`: succeeds exactly on well-formed UTF-8, and then
/// yields the characters that the bytes encode.
#[verifier::external_body]
pub(crate) fn utf8_of(bytes: &[u8]) -> (r: Option<&str>)
    ensures
        r is Some <==> valid_utf8(bytes@),
        r is Some ==> r->0@ == decode_utf8(bytes@),
{
    std::str::from_utf8(bytes).ok()
}

/// `Arc::clone`: another handle to the same value.
#[verifier::external_body]
pub(crate) fn share<T>(a: &Arc<T>) -> (r: Arc<T>)
    ensures
        r == *a,
{
    a.clone()
}

/// The characters that the bytes `start..end` of `source` encode.
pub open spec fn text_between(source: Seq<u8>, start: int, end: int) -> Seq<char> {
    decode_utf8(source.subrange(start, end))
}

/// The text held in the bytes `start..end` of `source`, or `None` where those
/// bytes are not well-formed UTF-8.
pub fn slice_text(source: &[u8], start: usize, end: usize) -> (r: Option<String>)
    requires
        start <= end <= source@.len(),
    ensures
        r is Some <==> valid_utf8(source@.subrange(start as int, end as int)),
        r is Some ==> r->0@ == text_between(source@, start as int, end as int),
{
    let bytes = vstd::slice::slice_subrange(source, start, end);
    match utf8_of(bytes) {
        Some(s) => Some(s.to_owned()),
        None => None,
    }
}

/// The upper-case form of a character as `char::to_uppercase` gives it: one
/// character for most, several for a few.
pub uninterp spec fn uppercased(c: char) -> Seq<char>;

/// `char::to_uppercase`, collected.
#[verifier::external_body]
pub(crate) fn uppercase(c: char) -> (r: Vec<char>)
    ensures
        r@ == uppercased(c),
{
    c.to_uppercase().collect()
}

/// The pieces of `s` between occurrences of `separator`. There is always at
/// least one piece, and a piece may be empty.
pub open spec fn split_on(s: Seq<char>, separator: char) -> Seq<Seq<char>>
    decreases s.len(),
{
    if s.len() == 0 {
        seq![Seq::<char>::empty()]
    } else {
        let before = split_on(s.drop_last(), separator);
        if s.last() == separator {
            before.push(Seq::<char>::empty())
        } else {
            before.drop_last().push(before.last().push(s.last()))
        }
    }
}

/// All of `parts`, one after the other.
pub open spec fn concat(parts: Seq<Seq<char>>) -> Seq<char>
    decreases parts.len(),
{
    if parts.len() == 0 {
        Seq::<char>::empty()
    } else {
        concat(parts.drop_last()) + parts.last()
    }
}

/// The character sequences that a vector of character vectors holds.
pub open spec fn rows(v: Seq<Vec<char>>) -> Seq<Seq<char>> {
    v.map_values(|row: Vec<char>| row@)
}

/// Splits `s` at each occurrence of `separator`.
pub fn split(s: &Vec<char>, separator: char) -> (pieces: Vec<Vec<char>>)
    ensures
        rows(pieces@) == split_on(s@, separator),
{
    let mut done: Vec<Vec<char>> = Vec::new();
    let mut piece: Vec<char> = Vec::new();
    let mut i: usize = 0;
    assert(s@.take(0) =~= Seq::<char>::empty());
    assert(rows(done@).push(piece@) =~= split_on(s@.take(0), separator));
    while i < s.len()
        invariant
            i <= s.len(),
            rows(done@).push(piece@) == split_on(s@.take(i as int), separator),
        decreases s.len() - i,
    {
        let c = s[i];
        let ghost prefix = s@.take(i as int);
        let ghost next = s@.take(i + 1);
        proof {
            assert(next.drop_last() =~= prefix);
            assert(next.last() == c);
            let before = split_on(prefix, separator);
            assert(before.drop_last() =~= rows(done@));
            assert(before.last() == piece@);
        }
        if c == separator {
            let ghost old_done = done@;
            let ghost finished = piece@;
            done.push(piece);
            piece = Vec::new();
            assert(rows(done@) =~= rows(old_done).push(finished));
        } else {
            piece.push(c);
        }
        assert(rows(done@).push(piece@) =~= split_on(next, separator));
        i += 1;
    }
    assert(s@.take(s.len() as int) =~= s@);
    let ghost old_done = done@;
    done.push(piece);
    assert(rows(done@) =~= rows(old_done).push(piece@));
    done
}

/// What is left of `path` behind the prefix `base`, as `Path::strip_prefix`
/// gives it; `None` where `base` is no prefix of `path`, component by
/// component.
pub uninterp spec fn path_behind(path: Seq<char>, base: Seq<char>) -> Option<Seq<char>>;

/// `Path::strip_prefix`.
#[verifier::external_body]
pub(crate) fn path_strip_prefix(path: &str, base: &str) -> (r: Option<String>)
    ensures
        r is Some <==> path_behind(path@, base@) is Some,
        r is Some ==> r->0@ == path_behind(path@, base@)->0,
{
    match std::path::Path::new(path).strip_prefix(base) {
        Ok(rest) => Some(rest.to_string_lossy().into_owned()),
        Err(_) => None,
    }
}

/// Whether `path` lies under `base`: `base` is a prefix of it, component by
/// component.
pub open spec fn path_within(path: Seq<char>, base: Seq<char>) -> bool {
    path_behind(path, base) is Some
}

/// `Path::starts_with`: it holds exactly where `Path::strip_prefix` gives a
/// rest.
#[verifier::external_body]
pub(crate) fn path_starts_with(path: &str, base: &str) -> (r: bool)
    ensures
        r == path_within(path@, base@),
{
    std::path::Path::new(path).starts_with(base)
}

/// `path` without the extension of its file name, as `Path::with_extension`
/// gives it for the empty extension.
pub uninterp spec fn path_stem(path: Seq<char>) -> Seq<char>;

/// `Path::with_extension` with the empty extension.
#[verifier::external_body]
pub(crate) fn path_without_extension(path: &str) -> (r: String)
    ensures
        r@ == path_stem(path@),
{
    std::path::Path::new(path).with_extension("").to_string_lossy().into_owned()
}

/// The components of `path`, as `Path::iter` walks them.
pub uninterp spec fn path_parts(path: Seq<char>) -> Seq<Seq<char>>;

/// `Path::iter`, collected.
#[verifier::external_body]
pub(crate) fn path_components(path: &str) -> (r: Vec<String>)
    ensures
        r@.map_values(|s: String| s@) == path_parts(path@),
{
    std::path::Path::new(path).iter().map(|part| part.to_string_lossy().into_owned()).collect()
}

/// `s` without the characters equal to `unwanted`.
pub fn without_char(s: &str, unwanted: char) -> (r: String)
    ensures
        r@ == s@.filter(|c: char| c != unwanted),
{
    let chars = chars_of(s);
    let ghost keep = |c: char| c != unwanted;
    let mut out: Vec<char> = Vec::new();
    let mut i: usize = 0;
    assert(chars@.take(0) =~= Seq::<char>::empty());
    assert(Seq::<char>::empty().filter(keep) =~= Seq::<char>::empty()) by {
        reveal(Seq::filter);
    }
    while i < chars.len()
        invariant
            i <= chars.len(),
            keep == |c: char| c != unwanted,
            out@ == chars@.take(i as int).filter(keep),
        decreases chars.len() - i,
    {
        let c = chars[i];
        proof {
            assert(chars@.take(i + 1) =~= chars@.take(i as int).push(c));
            chars@.take(i as int).lemma_filter_push(c, keep);
        }
        if c != unwanted {
            out.push(c);
        }
        i += 1;
    }
    assert(chars@.take(chars.len() as int) =~= chars@);
    string_of(&out)
}

} // verus!
