//! Namespace paths.

use vstd::prelude::*;
use vstd::string::StringExecFns;
use crate::text::str_eq;

verus! {

/// What stands between two segments of a rendered path.
pub const SCOPE_DELIMITER: &'static str = "::";

/// The reserved first segment of an absolute path.
pub const GLOBAL_SCOPE_VALUE: &'static str = "$GLOBAL";

/// A path is absolute when it starts with the reserved segment.
pub open spec fn is_absolute(path: Seq<Seq<char>>) -> bool {
    path.len() > 0 && path[0] == GLOBAL_SCOPE_VALUE@
}

/// A path without its reserved first segment, if it has one.
pub open spec fn relative(path: Seq<Seq<char>>) -> Seq<Seq<char>> {
    if is_absolute(path) {
        path.skip(1)
    } else {
        path
    }
}

/// Whether two paths name the same namespace: the reserved segment does not
/// count.
pub open spec fn same_path(a: Seq<Seq<char>>, b: Seq<Seq<char>>) -> bool {
    relative(a) == relative(b)
}

/// `left` followed by `right`, where `right` loses its reserved segment.
pub open spec fn joined(left: Seq<Seq<char>>, right: Seq<Seq<char>>) -> Seq<Seq<char>> {
    left + relative(right)
}

/// The reserved segment stands nowhere but in the first place.
pub open spec fn sentinel_first(path: Seq<Seq<char>>) -> bool {
    forall|i: int| 0 < i < path.len() ==> #[trigger] path[i] != GLOBAL_SCOPE_VALUE@
}

/// Joining keeps the reserved segment in the first place: where it stands
/// nowhere else in either path, it stands nowhere else in the joined path.
pub proof fn lemma_join_keeps_sentinel_first(left: Seq<Seq<char>>, right: Seq<Seq<char>>)
    requires
        sentinel_first(left),
        sentinel_first(right),
    ensures
        sentinel_first(joined(left, right)),
{
    let both = joined(left, right);
    assert forall|i: int| 0 < i < both.len() implies #[trigger] both[i] != GLOBAL_SCOPE_VALUE@ by {
        if i < left.len() {
            assert(both[i] == left[i]);
        } else if is_absolute(right) {
            assert(both[i] == right[i - left.len() + 1]);
        } else {
            assert(both[i] == right[i - left.len()]);
            if i - left.len() == 0 {
                assert(right[0] != GLOBAL_SCOPE_VALUE@);
            }
        }
    }
}

/// The segments of `path` with `separator` between each two of them.
pub open spec fn interleaved(path: Seq<Seq<char>>, separator: Seq<char>) -> Seq<char>
    decreases path.len(),
{
    if path.len() == 0 {
        Seq::<char>::empty()
    } else if path.len() == 1 {
        path[0]
    } else {
        interleaved(path.drop_last(), separator) + separator + path.last()
    }
}

/// How a path reads in source: the reserved segment dropped, `::` between the rest.
pub open spec fn rendered(path: Seq<Seq<char>>) -> Seq<char> {
    interleaved(relative(path), SCOPE_DELIMITER@)
}

/// The character sequences that a vector of strings holds.
pub open spec fn names(strings: Seq<String>) -> Seq<Seq<char>> {
    strings.map_values(|s: String| s@)
}

/// An ordered sequence of namespace segments, as in `A::B::C`. An absolute path
/// starts with the reserved segment `$GLOBAL`.
#[derive(Debug, Clone, PartialEq, Eq)]
pub struct Scope {
    scopes: Vec<String>,
}

impl View for Scope {
    type V = Seq<Seq<char>>;

    closed spec fn view(&self) -> Seq<Seq<char>> {
        names(self.scopes@)
    }
}

/// A path that joins onto a scope.
pub trait ScopeJoin<T> {
    /// The segments that `rhs` stands for.
    spec fn segments_of(rhs: T) -> Seq<Seq<char>>;

    /// The segments of the scope that is joined onto.
    spec fn own_segments(&self) -> Seq<Seq<char>>;

    fn join(&self, rhs: T) -> (r: Scope)
        ensures
            r@ == joined(self.own_segments(), Self::segments_of(rhs)),
    ;
}

impl Scope {
    pub fn new(scopes: Vec<String>) -> (scope: Scope)
        ensures
            scope@ == names(scopes@),
    {
        Scope { scopes }
    }

    /// The empty path.
    pub fn empty() -> (scope: Scope)
        ensures
            scope@ == Seq::<Seq<char>>::empty(),
    {
        let scope = Scope { scopes: Vec::new() };
        assert(scope@ =~= Seq::<Seq<char>>::empty());
        scope
    }

    /// The path of the one segment `name`.
    pub fn from_name(name: &str) -> (scope: Scope)
        ensures
            scope@ == seq![name@],
    {
        let mut scopes: Vec<String> = Vec::new();
        scopes.push(name.to_owned());
        let scope = Scope { scopes };
        assert(scope@ =~= seq![name@]);
        scope
    }

    /// The path of the segments `names`, in order.
    pub fn from_names(names: &Vec<&str>) -> (scope: Scope)
        ensures
            scope@ == names@.map_values(|s: &str| s@),
    {
        let mut scopes: Vec<String> = Vec::new();
        let mut i: usize = 0;
        while i < names.len()
            invariant
                i <= names.len(),
                scopes@.len() == i,
                forall|k: int| 0 <= k < i ==> (#[trigger] scopes@[k])@ == names@[k]@,
            decreases names.len() - i,
        {
            scopes.push(names[i].to_owned());
            i += 1;
        }
        let scope = Scope { scopes };
        assert(scope@ =~= names@.map_values(|s: &str| s@));
        scope
    }

    /// A copy of the path.
    pub fn duplicate(&self) -> (r: Scope)
        ensures
            r@ == self@,
    {
        Scope { scopes: self.segments() }
    }

    /// Adds `name` as the last segment.
    pub fn push(&mut self, name: String)
        ensures
            final(self)@ == old(self)@.push(name@),
    {
        self.scopes.push(name);
        assert(self@ =~= old(self)@.push(name@));
    }

    pub fn len(&self) -> (n: usize)
        ensures
            n == self@.len(),
    {
        self.scopes.len()
    }

    /// The segment at `index`.
    pub fn segment(&self, index: usize) -> (s: &str)
        requires
            index < self@.len(),
        ensures
            s@ == self@[index as int],
    {
        self.scopes[index].as_str()
    }

    /// The segments as owned strings, in order.
    pub fn segments(&self) -> (r: Vec<String>)
        ensures
            names(r@) == self@,
    {
        let mut out: Vec<String> = Vec::new();
        let mut i: usize = 0;
        while i < self.scopes.len()
            invariant
                i <= self.scopes.len(),
                out@.len() == i,
                forall|k: int| 0 <= k < i ==> (#[trigger] out@[k])@ == self.scopes@[k]@,
            decreases self.scopes.len() - i,
        {
            out.push(self.scopes[i].clone());
            i += 1;
        }
        assert(names(out@) =~= self@);
        out
    }

    pub fn is_global(&self) -> (r: bool)
        ensures
            r == is_absolute(self@),
    {
        self.scopes.len() > 0 && str_eq(self.scopes[0].as_str(), GLOBAL_SCOPE_VALUE)
    }

    /// `self` followed by the segments of `rhs` from `skip` on.
    pub fn followed_from(&self, rhs: &Scope, skip: usize) -> (r: Scope)
        requires
            skip <= rhs@.len(),
        ensures
            r@ == self@ + rhs@.skip(skip as int),
    {
        let mut out: Vec<String> = Vec::new();
        let mut i: usize = 0;
        while i < self.scopes.len()
            invariant
                i <= self.scopes.len(),
                out@.len() == i,
                forall|k: int| 0 <= k < i ==> (#[trigger] out@[k])@ == self.scopes@[k]@,
            decreases self.scopes.len() - i,
        {
            out.push(self.scopes[i].clone());
            i += 1;
        }
        let mut j: usize = skip;
        while j < rhs.scopes.len()
            invariant
                skip <= j <= rhs.scopes.len(),
                out@.len() == self.scopes.len() + j - skip,
                forall|k: int| 0 <= k < self.scopes.len() ==> (#[trigger] out@[k])@ == self.scopes@[k]@,
                forall|k: int|
                    skip <= k < j ==> (#[trigger] out@[self.scopes.len() + k - skip])@
                        == rhs.scopes@[k]@,
            decreases rhs.scopes.len() - j,
        {
            out.push(rhs.scopes[j].clone());
            j += 1;
        }
        let r = Scope { scopes: out };
        assert(r@ =~= self@ + rhs@.skip(skip as int)) by {
            let tail = rhs@.skip(skip as int);
            assert forall|k: int| 0 <= k < r@.len() implies r@[k] == (self@ + tail)[k] by {
                if k >= self.scopes.len() {
                    let m = k - self.scopes.len() + skip;
                    assert(r.scopes@[self.scopes.len() + m - skip]@ == rhs.scopes@[m]@);
                }
            }
        }
        r
    }

    /// `self` followed by `rhs`, segment for segment.
    pub fn followed_by(&self, rhs: &Scope) -> (r: Scope)
        ensures
            r@ == self@ + rhs@,
    {
        let r = self.followed_from(rhs, 0);
        assert(rhs@.skip(0) =~= rhs@);
        r
    }

    /// `self` followed by `rhs`; a reserved first segment of `rhs` is dropped.
    pub fn join(&self, rhs: &Scope) -> (r: Scope)
        ensures
            r@ == joined(self@, rhs@),
    {
        if rhs.is_global() {
            self.followed_from(rhs, 1)
        } else {
            self.followed_by(rhs)
        }
    }

    /// `self` followed by the one segment `name`.
    pub fn join_name(&self, name: &str) -> (r: Scope)
        ensures
            r@ == joined(self@, seq![name@]),
    {
        let rhs = Scope::from_name(name);
        self.join(&rhs)
    }

    pub fn last(&self) -> (r: Option<&str>)
        ensures
            self@.len() == 0 ==> r is None,
            self@.len() > 0 ==> r is Some && r->0@ == self@.last(),
    {
        let n = self.scopes.len();
        if n == 0 {
            None
        } else {
            Some(self.scopes[n - 1].as_str())
        }
    }

    /// Drops the last segment, if there is one.
    pub fn remove_last(&mut self)
        ensures
            old(self)@.len() == 0 ==> final(self)@ == old(self)@,
            old(self)@.len() > 0 ==> final(self)@ == old(self)@.drop_last(),
    {
        let _ = self.scopes.pop();
        assert(old(self)@.len() == 0 ==> self@ =~= old(self)@);
        assert(old(self)@.len() > 0 ==> self@ =~= old(self)@.drop_last());
    }

    /// A copy without the last segment.
    pub fn without_last(&self) -> (r: Scope)
        ensures
            self@.len() == 0 ==> r@ == self@,
            self@.len() > 0 ==> r@ == self@.drop_last(),
    {
        let mut r = Scope { scopes: self.segments() };
        r.remove_last();
        r
    }

    /// Whether two paths hold the same segments.
    pub fn equals(&self, other: &Scope) -> (r: bool)
        ensures
            r == (self@ == other@),
    {
        if self.scopes.len() != other.scopes.len() {
            assert(self@.len() != other@.len());
            return false;
        }
        let mut i: usize = 0;
        while i < self.scopes.len()
            invariant
                i <= self.scopes.len(),
                self.scopes.len() == other.scopes.len(),
                forall|k: int| 0 <= k < i ==> self@[k] == other@[k],
            decreases self.scopes.len() - i,
        {
            if !str_eq(self.scopes[i].as_str(), other.scopes[i].as_str()) {
                assert(self@[i as int] != other@[i as int]);
                return false;
            }
            i += 1;
        }
        assert(self@ =~= other@);
        true
    }

    /// Whether two paths name the same namespace: the reserved segment does
    /// not count.
    pub fn matches(&self, other: &Scope) -> (r: bool)
        ensures
            r == same_path(self@, other@),
    {
        let a: usize = if self.is_global() { 1 } else { 0 };
        let b: usize = if other.is_global() { 1 } else { 0 };
        if self.scopes.len() - a != other.scopes.len() - b {
            assert(relative(self@).len() != relative(other@).len());
            return false;
        }
        let n = self.scopes.len() - a;
        let mut i: usize = 0;
        while i < n
            invariant
                i <= n,
                a <= 1,
                b <= 1,
                n == self.scopes.len() - a,
                n == other.scopes.len() - b,
                relative(self@) == self@.skip(a as int),
                relative(other@) == other@.skip(b as int),
                forall|k: int| 0 <= k < i ==> relative(self@)[k] == relative(other@)[k],
            decreases n - i,
        {
            if !str_eq(self.scopes[i + a].as_str(), other.scopes[i + b].as_str()) {
                assert(relative(self@)[i as int] == self@[i + a]);
                assert(relative(other@)[i as int] == other@[i + b]);
                return false;
            }
            assert(relative(self@)[i as int] == self@[i + a]);
            assert(relative(other@)[i as int] == other@[i + b]);
            i += 1;
        }
        assert(relative(self@) =~= relative(other@));
        true
    }

    /// Whether `self` with `name` as one more segment names the same
    /// namespace as `other`.
    pub fn matches_with(&self, name: &str, other: &Scope) -> (r: bool)
        ensures
            r == same_path(self@.push(name@), other@),
    {
        let ghost whole = self@.push(name@);
        let held = self.scopes.len();
        let absolute = if held > 0 {
            self.is_global()
        } else {
            str_eq(name, GLOBAL_SCOPE_VALUE)
        };
        let a: usize = if absolute { 1 } else { 0 };
        let b: usize = if other.is_global() { 1 } else { 0 };
        proof {
            assert(whole[0] == if held > 0 {
                self@[0]
            } else {
                name@
            });
            assert(relative(whole) =~= whole.skip(a as int));
            assert(relative(other@) =~= other@.skip(b as int));
        }
        let longest = other.scopes.len();
        if a == 0 && held == usize::MAX {
            assert(whole.len() == held + 1);
            assert(other@.len() == longest);
            assert(relative(whole).len() != relative(other@).len());
            return false;
        }
        let n = if a == 0 { held + 1 } else { held };
        if other.scopes.len() - b != n {
            assert(relative(whole).len() != relative(other@).len());
            return false;
        }
        let mut i: usize = 0;
        while i < n
            invariant
                i <= n,
                a <= 1,
                b <= 1,
                held == self.scopes.len(),
                whole == self@.push(name@),
                n == held + 1 - a,
                other.scopes.len() - b == n,
                relative(whole) == whole.skip(a as int),
                relative(other@) == other@.skip(b as int),
                forall|k: int| 0 <= k < i ==> relative(whole)[k] == relative(other@)[k],
            decreases n - i,
        {
            assert(relative(whole)[i as int] == whole[i + a]);
            assert(relative(other@)[i as int] == other@[i + b]);
            let same = if i + a < held {
                assert(whole[i + a] == self@[i + a]);
                str_eq(self.scopes[i + a].as_str(), other.scopes[i + b].as_str())
            } else {
                assert(whole[i + a] == name@);
                str_eq(name, other.scopes[i + b].as_str())
            };
            if !same {
                return false;
            }
            i += 1;
        }
        assert(relative(whole) =~= relative(other@));
        true
    }

    /// The path as it reads in source: without the reserved segment, the rest
    /// separated by `::`.
    pub fn to_string(&self) -> (r: String)
        ensures
            r@ == rendered(self@),
    {
        let skip: usize = if self.is_global() { 1 } else { 0 };
        let mut out = String::new();
        let mut i: usize = skip;
        while i < self.scopes.len()
            invariant
                skip <= i <= self.scopes.len(),
                skip <= 1,
                out@ == interleaved(self@.subrange(skip as int, i as int), SCOPE_DELIMITER@),
            decreases self.scopes.len() - i,
        {
            let ghost before = self@.subrange(skip as int, i as int);
            let ghost after = self@.subrange(skip as int, i + 1);
            if i > skip {
                out.append(SCOPE_DELIMITER);
            }
            out.append(self.scopes[i].as_str());
            proof {
                assert(after.drop_last() =~= before);
                assert(after.last() == self@[i as int]);
                if i == skip {
                    assert(before.len() == 0);
                    assert(out@ =~= self@[i as int]);
                }
            }
            i += 1;
        }
        assert(self@.subrange(skip as int, self@.len() as int) =~= relative(self@));
        out
    }
}

impl From<String> for Scope {
    fn from(value: String) -> (scope: Scope)
        ensures
            scope@ == seq![value@],
    {
        Scope::from_name(value.as_str())
    }
}

/// The conversion is stated with `from` itself: a scope cannot be written
/// down as a mathematical value of its own.
impl vstd::std_specs::convert::FromSpecImpl<String> for Scope {
    open spec fn obeys_from_spec() -> bool {
        false
    }

    open spec fn from_spec(v: String) -> Scope {
        arbitrary()
    }
}

impl<'a> From<&'a String> for Scope {
    fn from(value: &'a String) -> (scope: Scope)
        ensures
            scope@ == seq![value@],
    {
        Scope::from_name(value.as_str())
    }
}

/// The conversion is stated with `from` itself: a scope cannot be written
/// down as a mathematical value of its own.
impl<'a> vstd::std_specs::convert::FromSpecImpl<&'a String> for Scope {
    open spec fn obeys_from_spec() -> bool {
        false
    }

    open spec fn from_spec(v: &'a String) -> Scope {
        arbitrary()
    }
}

impl<'a> From<&'a str> for Scope {
    fn from(value: &'a str) -> (scope: Scope)
        ensures
            scope@ == seq![value@],
    {
        Scope::from_name(value)
    }
}

/// The conversion is stated with `from` itself: a scope cannot be written
/// down as a mathematical value of its own.
impl<'a> vstd::std_specs::convert::FromSpecImpl<&'a str> for Scope {
    open spec fn obeys_from_spec() -> bool {
        false
    }

    open spec fn from_spec(v: &'a str) -> Scope {
        arbitrary()
    }
}

impl From<Vec<String>> for Scope {
    fn from(value: Vec<String>) -> (scope: Scope)
        ensures
            scope@ == names(value@),
    {
        Scope::new(value)
    }
}

/// The conversion is stated with `from` itself: a scope cannot be written
/// down as a mathematical value of its own.
impl vstd::std_specs::convert::FromSpecImpl<Vec<String>> for Scope {
    open spec fn obeys_from_spec() -> bool {
        false
    }

    open spec fn from_spec(v: Vec<String>) -> Scope {
        arbitrary()
    }
}

impl<'a> From<Vec<&'a str>> for Scope {
    fn from(value: Vec<&'a str>) -> (scope: Scope)
        ensures
            scope@ == value@.map_values(|s: &str| s@),
    {
        Scope::from_names(&value)
    }
}

/// The conversion is stated with `from` itself: a scope cannot be written
/// down as a mathematical value of its own.
impl<'a> vstd::std_specs::convert::FromSpecImpl<Vec<&'a str>> for Scope {
    open spec fn obeys_from_spec() -> bool {
        false
    }

    open spec fn from_spec(v: Vec<&'a str>) -> Scope {
        arbitrary()
    }
}

impl Default for Scope {
    fn default() -> (scope: Scope)
        ensures
            scope@ == Seq::<Seq<char>>::empty(),
    {
        Scope::empty()
    }
}

impl<'a> ScopeJoin<&'a Scope> for Scope {
    open spec fn segments_of(rhs: &'a Scope) -> Seq<Seq<char>> {
        rhs@
    }

    open spec fn own_segments(&self) -> Seq<Seq<char>> {
        self@
    }

    fn join(&self, rhs: &'a Scope) -> (r: Scope) {
        Scope::join(self, rhs)
    }
}

impl<'a> ScopeJoin<&'a str> for Scope {
    open spec fn segments_of(rhs: &'a str) -> Seq<Seq<char>> {
        seq![rhs@]
    }

    open spec fn own_segments(&self) -> Seq<Seq<char>> {
        self@
    }

    fn join(&self, rhs: &'a str) -> (r: Scope) {
        self.join_name(rhs)
    }
}

} // verus!
