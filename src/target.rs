use vstd::prelude::*;

use crate::text::{concat, first_where, slice_string};

verus! {

/// Holds of the positions of `s` that carry a ':'.
pub open spec fn is_colon(s: Seq<char>) -> spec_fn(int) -> bool {
    |j: int| s[j] == ':'
}

/// Position of the first ':' in `s`, or the length of `s` when there is none.
pub open spec fn colon_index(s: Seq<char>) -> int {
    first_where(0, s.len() as int, is_colon(s))
}

/// The text before the first ':' (all of `s` when there is none).
pub open spec fn first_piece(s: Seq<char>) -> Seq<char> {
    s.take(colon_index(s))
}

/// The text between the first and the second ':', when `s` holds a ':' at all.
pub open spec fn second_piece(s: Seq<char>) -> Option<Seq<char>> {
    if colon_index(s) < s.len() {
        Some(first_piece(s.skip(colon_index(s) + 1)))
    } else {
        None
    }
}

/// A package part written from the root: it starts with "//".
pub open spec fn is_rooted(p: Seq<char>) -> bool {
    p.len() >= 2 && p[0] == '/' && p[1] == '/'
}

/// The package that matches every package.
pub open spec fn any_package() -> Seq<char> {
    seq!['.', '.', '.']
}

#[derive(Debug, PartialEq, Eq, Clone, Copy, Structural)]
pub enum TargetParseError {
    MissingTask,
    MissingPackage,
    PackageMustBeAbsolute,
}

/// The error, if any, that the package part of `s` gives.
pub open spec fn package_error(s: Seq<char>) -> Option<TargetParseError> {
    if first_piece(s).len() == 0 {
        Some(TargetParseError::MissingPackage)
    } else if !is_rooted(first_piece(s)) {
        Some(TargetParseError::PackageMustBeAbsolute)
    } else {
        None
    }
}

/// `s` read as an address `//<package>:<identifier>`: the package and the identifier.
pub open spec fn address_of(s: Seq<char>) -> Result<(Seq<char>, Seq<char>), TargetParseError> {
    match package_error(s) {
        Some(e) => Err(e),
        None => match second_piece(s) {
            Some(id) => Ok((first_piece(s).skip(2), id)),
            None => Err(TargetParseError::MissingTask),
        },
    }
}

/// `s` read as a matcher `//<package>[:<identifier>]`.
pub open spec fn matcher_of(s: Seq<char>) -> Result<(Seq<char>, Option<Seq<char>>), TargetParseError> {
    match package_error(s) {
        Some(e) => Err(e),
        None => Ok((first_piece(s).skip(2), second_piece(s))),
    }
}

/// A matcher with `package` and `identifier` selects the target `t_package:t_identifier`.
pub open spec fn selects(
    package: Seq<char>,
    identifier: Option<Seq<char>>,
    t_package: Seq<char>,
    t_identifier: Seq<char>,
) -> bool {
    (package == any_package() || package == t_package) && match identifier {
        Some(id) => id == t_identifier,
        None => true,
    }
}

/// The display form `//<package>:<identifier>`.
pub open spec fn address_text(package: Seq<char>, identifier: Seq<char>) -> Seq<char> {
    seq!['/', '/'] + package + seq![':'] + identifier
}

fn colon_position(s: &str) -> (r: usize)
    ensures
        r == colon_index(s@),
{
    let n = s.unicode_len();
    let mut i: usize = 0;
    while i < n
        invariant
            i <= n,
            n == s@.len(),
            first_where(i as int, n as int, is_colon(s@)) == colon_index(s@),
        decreases n - i,
    {
        if s.get_char(i) == ':' {
            return i;
        }
        i += 1;
    }
    i
}

/// Splits off the package part: the package without its leading "//" and the
/// position of the first ':'.
fn split_package(s: &str) -> (r: Result<(String, usize), TargetParseError>)
    ensures
        match r {
            Ok((p, c)) => package_error(s@) is None && p@ == first_piece(s@).skip(2) && c
                == colon_index(s@),
            Err(e) => package_error(s@) == Some(e),
        },
{
    let c = colon_position(s);
    proof {
        crate::text::lemma_first_where(0, s@.len() as int, is_colon(s@));
    }
    if c == 0 {
        return Err(TargetParseError::MissingPackage);
    }
    if c < 2 || s.get_char(0) != '/' || s.get_char(1) != '/' {
        return Err(TargetParseError::PackageMustBeAbsolute);
    }
    let p = slice_string(s, 2, c);
    assert(p@ =~= first_piece(s@).skip(2));
    Ok((p, c))
}

/// The second ':'-separated piece of `s`, given the position `c` of its first ':'.
fn second_piece_at(s: &str, c: usize) -> (r: Option<String>)
    requires
        c == colon_index(s@),
    ensures
        match r {
            Some(id) => second_piece(s@) == Some(id@),
            None => second_piece(s@) is None,
        },
{
    proof {
        crate::text::lemma_first_where(0, s@.len() as int, is_colon(s@));
    }
    let n = s.unicode_len();
    if c >= n {
        return None;
    }
    let rest = slice_string(s, c + 1, n);
    assert(rest@ =~= s@.skip(c + 1));
    let c2 = colon_position(rest.as_str());
    proof {
        crate::text::lemma_first_where(0, rest@.len() as int, is_colon(rest@));
    }
    Some(slice_string(rest.as_str(), 0, c2))
}

#[derive(Debug, PartialEq, Eq)]
pub struct TargetAddress {
    pub package: String,
    pub identifier: String,
}

impl TargetAddress {
    /// Reads `//<package>:<identifier>`; text after a second ':' is ignored.
    pub fn parse(s: &str) -> (r: Result<TargetAddress, TargetParseError>)
        ensures
            match r {
                Ok(a) => address_of(s@) == Ok::<_, TargetParseError>((a.package@, a.identifier@)),
                Err(e) => address_of(s@) == Err::<(Seq<char>, Seq<char>), _>(e),
            },
    {
        let (package, c) = split_package(s)?;
        match second_piece_at(s, c) {
            Some(identifier) => Ok(TargetAddress { package, identifier }),
            None => Err(TargetParseError::MissingTask),
        }
    }

    /// The display form `//<package>:<identifier>`.
    pub fn to_string(&self) -> (r: String)
        ensures
            r@ == address_text(self.package@, self.identifier@),
    {
        let mut r = concat("//", self.package.as_str());
        r.append(":");
        r.append(self.identifier.as_str());
        proof {
            reveal_strlit("//");
            reveal_strlit(":");
        }
        assert(r@ =~= address_text(self.package@, self.identifier@));
        r
    }
}

impl core::str::FromStr for TargetAddress {
    type Err = TargetParseError;

    fn from_str(s: &str) -> Result<TargetAddress, TargetParseError> {
        TargetAddress::parse(s)
    }
}

#[derive(Debug)]
pub struct TargetMatcher {
    pub package: String,
    pub identifier: Option<String>,
}

/// The identifier part of a matcher as a view.
pub open spec fn identifier_view(identifier: Option<String>) -> Option<Seq<char>> {
    match identifier {
        Some(id) => Some(id@),
        None => None,
    }
}

impl TargetMatcher {
    /// Reads `//<package>` or `//<package>:<identifier>`; the package `...`
    /// stands for every package.
    pub fn parse(s: &str) -> (r: Result<TargetMatcher, TargetParseError>)
        ensures
            match r {
                Ok(m) => matcher_of(s@) == Ok::<_, TargetParseError>(
                    (m.package@, identifier_view(m.identifier)),
                ),
                Err(e) => matcher_of(s@) == Err::<(Seq<char>, Option<Seq<char>>), _>(e),
            },
    {
        let (package, c) = split_package(s)?;
        let identifier = second_piece_at(s, c);
        Ok(TargetMatcher { package, identifier })
    }

    pub open spec fn selects(&self, target: &TargetAddress) -> bool {
        selects(
            self.package@,
            identifier_view(self.identifier),
            target.package@,
            target.identifier@,
        )
    }

    /// Whether this matcher selects `target`.
    pub fn matches(&self, target: &TargetAddress) -> (r: bool)
        ensures
            r == self.selects(target),
    {
        let any = self.package.as_str().unicode_len() == 3 && self.package.as_str().get_char(0)
            == '.' && self.package.as_str().get_char(1) == '.' && self.package.as_str().get_char(
            2,
        ) == '.';
        assert(any ==> self.package@ =~= any_package());
        assert(self.package@ =~= any_package() ==> any);
        if !any && self.package != target.package {
            return false;
        }
        match &self.identifier {
            Some(id) => *id == target.identifier,
            None => true,
        }
    }
}

impl core::str::FromStr for TargetMatcher {
    type Err = TargetParseError;

    fn from_str(s: &str) -> Result<TargetMatcher, TargetParseError> {
        TargetMatcher::parse(s)
    }
}

/// Some matcher of `ms` selects `target`.
pub open spec fn any_selects(ms: Seq<TargetMatcher>, target: &TargetAddress) -> bool {
    exists|i: int| 0 <= i < ms.len() && #[trigger] ms[i].selects(target)
}

pub trait Matches {
    /// Some matcher of this collection selects `target`.
    spec fn selects_any(&self, target: &TargetAddress) -> bool;

    /// Whether any of the matchers selects `target`.
    fn matches(&self, target: &TargetAddress) -> (r: bool)
        ensures
            r == self.selects_any(target),
    ;
}

/// Whether some matcher of `ms` selects `target`.
pub fn any_matches(ms: &[TargetMatcher], target: &TargetAddress) -> (r: bool)
    ensures
        r == any_selects(ms@, target),
{
    let mut i: usize = 0;
    while i < ms.len()
        invariant
            i <= ms@.len(),
            forall|j: int| 0 <= j < i ==> !(#[trigger] ms@[j]).selects(target),
        decreases ms@.len() - i,
    {
        if ms[i].matches(target) {
            return true;
        }
        i += 1;
    }
    false
}

impl Matches for [TargetMatcher] {
    open spec fn selects_any(&self, target: &TargetAddress) -> bool {
        any_selects(self@, target)
    }

    fn matches(&self, target: &TargetAddress) -> bool {
        any_matches(self, target)
    }
}

impl Matches for Vec<TargetMatcher> {
    open spec fn selects_any(&self, target: &TargetAddress) -> bool {
        any_selects(self@, target)
    }

    fn matches(&self, target: &TargetAddress) -> bool {
        any_matches(self.as_slice(), target)
    }
}

} // verus!
