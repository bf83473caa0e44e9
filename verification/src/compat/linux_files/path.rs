//! Paths: reading one, walking one, and taking one apart.
//!
//! A walk needs the store between its steps, so it is a value that says which
//! name is to be opened next and is told what came of it. `.` is skipped and
//! `..` is refused: a directory is the authority to reach what is under it, and
//! a path that could climb out of it would make that authority mean nothing.
use vstd::prelude::*;

use crate::bytes::{copy_bytes, copy_range};
use crate::compat::error::{
    EACCES, EEXIST, EFAULT, EINVAL, EIO, EISDIR, ENAMETOOLONG, ENOENT, ENOSPC, ENOTDIR, ENOTEMPTY,
};
use crate::text::is_utf8;

verus! {

/// The longest path that is walked, with its terminator.
pub const MAX_PATH: usize = 4096;

/// The longest single name in one.
pub const MAX_COMPONENT: usize = 255;

/// The separator.
pub const SLASH: u8 = 0x2F;

/// The dot that `.` and `..` are made of.
pub const DOT: u8 = 0x2E;

/// Why the store refused something.
#[derive(Clone, Copy, PartialEq, Eq, Structural, Debug)]
pub enum StoreError {
    NotFound,
    Exists,
    WrongKind,
    BadName,
    NotEmpty,
    NoSpace,
    NoInodes,
    TooLarge,
    /// No disk, or one that cannot be read.
    Medium,
}

/// What a name in the store turned out to be.
#[derive(Clone, Copy, PartialEq, Eq, Structural, Debug)]
pub enum Kind {
    Directory,
    File,
}

/// The error that means the same as a store failure.
pub open spec fn error_number(error: StoreError) -> u64 {
    match error {
        StoreError::NotFound => ENOENT,
        StoreError::Exists => EEXIST,
        StoreError::WrongKind => ENOTDIR,
        StoreError::BadName => ENAMETOOLONG,
        StoreError::NotEmpty => ENOTEMPTY,
        StoreError::NoSpace | StoreError::NoInodes | StoreError::TooLarge => ENOSPC,
        StoreError::Medium => EIO,
    }
}

/// Turn a store failure into the error that means the same thing.
///
/// Not one catch-all: a program that cannot tell a missing file from a broken
/// disk goes on to create the file.
pub fn errno(error: StoreError) -> (number: u64)
    ensures
        number == error_number(error),
{
    match error {
        StoreError::NotFound => ENOENT,
        StoreError::Exists => EEXIST,
        StoreError::WrongKind => ENOTDIR,
        StoreError::BadName => ENAMETOOLONG,
        StoreError::NotEmpty => ENOTEMPTY,
        StoreError::NoSpace => ENOSPC,
        StoreError::NoInodes => ENOSPC,
        StoreError::TooLarge => ENOSPC,
        StoreError::Medium => EIO,
    }
}

/// What to do about the directory a program sees as `/`.
#[derive(Clone, Copy, PartialEq, Eq, Structural, Debug)]
pub enum Root {
    /// It is there.
    Use,
    /// It is to be made, as a directory.
    Create,
    Refused(u64),
}

/// Decide about the root from what opening it came to.
///
/// A file of that name is not a root, and the store's own root does not stand
/// in for it.
pub fn root(opened: Result<Kind, StoreError>) -> (decision: Root)
    ensures
        decision == match opened {
            Ok(Kind::Directory) => Root::Use,
            Ok(Kind::File) => Root::Refused(ENOTDIR),
            Err(StoreError::NotFound) => Root::Create,
            Err(error) => Root::Refused(error_number(error)),
        },
{
    match opened {
        Ok(Kind::Directory) => Root::Use,
        Ok(Kind::File) => Root::Refused(ENOTDIR),
        Err(StoreError::NotFound) => Root::Create,
        Err(error) => Root::Refused(errno(error)),
    }
}

/// Where the first zero byte is.
pub open spec fn first_zero(bytes: Seq<u8>, at: int) -> bool {
    &&& 0 <= at < bytes.len()
    &&& bytes[at] == 0
    &&& forall|i: int| 0 <= i < at ==> #[trigger] bytes[i] != 0
}

/// The path in what a program has at its pointer.
///
/// `bytes` are the bytes it has there, up to a terminator or as far as a path
/// may go. Without a terminator it is a refusal: too long, or out of bounds.
pub open spec fn path_in(bytes: Seq<u8>) -> Result<Seq<u8>, u64> {
    if exists|at: int| first_zero(bytes, at) {
        let path = bytes.take(choose|at: int| first_zero(bytes, at));
        if vstd::utf8::valid_utf8(path) {
            Ok(path)
        } else {
            Err(EINVAL)
        }
    } else if bytes.len() >= MAX_PATH {
        Err(ENAMETOOLONG)
    } else {
        Err(EFAULT)
    }
}

/// A path or a refusal, as values.
pub open spec fn path_view(path: Result<Vec<u8>, u64>) -> Result<Seq<u8>, u64> {
    match path {
        Ok(path) => Ok(path@),
        Err(reason) => Err(reason),
    }
}

/// Read a path out of the bytes a program has at its pointer.
pub fn path_of(bytes: &[u8]) -> (path: Result<Vec<u8>, u64>)
    requires
        bytes@.len() <= MAX_PATH,
    ensures
        path_view(path) == path_in(bytes@),
{
    let mut at: usize = 0;
    while at < bytes.len()
        invariant
            at <= bytes@.len(),
            forall|i: int| 0 <= i < at ==> #[trigger] bytes@[i] != 0,
        decreases bytes@.len() - at,
    {
        if bytes[at] == 0 {
            let path = copy_range(bytes, 0, at);
            proof {
                assert(first_zero(bytes@, at as int));
                let found = choose|i: int| first_zero(bytes@, i);
                assert(first_zero(bytes@, found));
                if found < at {
                    assert(bytes@[found] != 0);
                }
                if at < found {
                    assert(bytes@[at as int] != 0);
                }
                assert(path@ =~= bytes@.take(at as int));
            }
            if is_utf8(path.as_slice()) {
                return Ok(path);
            }
            return Err(EINVAL);
        }
        at += 1;
    }
    assert(!(exists|i: int| first_zero(bytes@, i))) by {
        if exists|i: int| first_zero(bytes@, i) {
            let i = choose|i: int| first_zero(bytes@, i);
            assert(bytes@[i] != 0);
        }
    }
    if bytes.len() >= MAX_PATH {
        Err(ENAMETOOLONG)
    } else {
        Err(EFAULT)
    }
}

/// A path taken apart at its slashes. One without a slash is one name.
pub open spec fn names_in(path: Seq<u8>) -> Seq<Seq<u8>>
    decreases path.len(),
{
    if path.len() == 0 {
        seq![Seq::empty()]
    } else {
        let before = names_in(path.drop_last());
        if path.last() == SLASH {
            before.push(Seq::empty())
        } else {
            before.drop_last().push(before.last().push(path.last()))
        }
    }
}

proof fn lemma_names_in(path: Seq<u8>)
    ensures
        names_in(path).len() > 0,
    decreases path.len(),
{
    if path.len() > 0 {
        lemma_names_in(path.drop_last());
    }
}

/// The names, as values.
pub open spec fn names_view(names: Seq<Vec<u8>>) -> Seq<Seq<u8>> {
    Seq::new(names.len(), |i: int| names[i]@)
}

fn take_apart(path: &[u8]) -> (names: Vec<Vec<u8>>)
    ensures
        names_view(names@) == names_in(path@),
{
    let mut names: Vec<Vec<u8>> = Vec::new();
    let mut name: Vec<u8> = Vec::new();
    let mut at: usize = 0;
    assert(path@.take(0) =~= Seq::empty());
    assert(names_view(names@).push(name@) =~= seq![Seq::empty()]);
    while at < path.len()
        invariant
            at <= path@.len(),
            names_view(names@).push(name@) == names_in(path@.take(at as int)),
        decreases path@.len() - at,
    {
        let ghost held = names_view(names@);
        proof {
            assert(path@.take(at + 1).drop_last() =~= path@.take(at as int));
            assert(path@.take(at + 1).last() == path@[at as int]);
            assert(held.push(name@).drop_last() =~= held);
        }
        if path[at] == SLASH {
            names.push(name);
            name = Vec::new();
            assert(name@ =~= Seq::empty());
            assert(names_view(names@) =~= names_in(path@.take(at as int)));
        } else {
            name.push(path[at]);
        }
        at += 1;
    }
    names.push(name);
    assert(path@.take(at as int) =~= path@);
    assert(names_view(names@) =~= names_in(path@));
    names
}

/// A name that a walk passes over.
pub open spec fn passed_over(name: Seq<u8>) -> bool {
    name.len() == 0 || name == seq![DOT]
}

/// The name that climbs.
pub open spec fn climbs(name: Seq<u8>) -> bool {
    name == seq![DOT, DOT]
}

/// What a walk is to do next.
#[derive(Debug)]
pub enum Step {
    /// Open this name under the directory the walk has reached.
    Child(Vec<u8>),
    Refused(u64),
    /// The walk has reached what the path names.
    Reached,
}

/// What a walk is to do next, as a value.
pub enum StepView {
    Child(Seq<u8>),
    Refused(u64),
    Reached,
}

impl View for Step {
    type V = StepView;

    open spec fn view(&self) -> StepView {
        match self {
            Step::Child(name) => StepView::Child(name@),
            Step::Refused(reason) => StepView::Refused(*reason),
            Step::Reached => StepView::Reached,
        }
    }
}

/// How many names are done with once those passed over are.
pub open spec fn past(names: Seq<Seq<u8>>, at: nat) -> nat
    decreases names.len() - at,
{
    if at < names.len() && passed_over(names[at as int]) {
        past(names, at + 1)
    } else {
        at
    }
}

/// What follows once `at` names are done with. With `bounded`, a name longer
/// than a name may be is refused.
pub open spec fn step_at(names: Seq<Seq<u8>>, at: nat, bounded: bool) -> StepView {
    let next = past(names, at);
    if next >= names.len() {
        StepView::Reached
    } else if climbs(names[next as int]) {
        StepView::Refused(EACCES)
    } else if bounded && names[next as int].len() > MAX_COMPONENT {
        StepView::Refused(ENAMETOOLONG)
    } else {
        StepView::Child(names[next as int])
    }
}

/// A walk from the root.
pub struct Walk {
    names: Vec<Vec<u8>>,
    at: usize,
    bounded: bool,
}

impl Walk {
    /// The names of the path.
    pub closed spec fn names(&self) -> Seq<Seq<u8>> {
        names_view(self.names@)
    }

    /// How many of them are done with.
    pub closed spec fn done(&self) -> nat {
        self.at as nat
    }

    /// Whether a name may be too long.
    pub closed spec fn bounded(&self) -> bool {
        self.bounded
    }

    /// No more done with than there are.
    pub open spec fn wf(&self) -> bool {
        self.done() <= self.names().len()
    }

    /// What is to be done next.
    pub fn next(&mut self) -> (step: Step)
        requires
            old(self).wf(),
        ensures
            final(self).wf(),
            final(self).names() == old(self).names(),
            final(self).bounded() == old(self).bounded(),
            final(self).done() == past(old(self).names(), old(self).done()),
            step@ == step_at(old(self).names(), old(self).done(), old(self).bounded()),
    {
        let ghost names = self.names();
        let ghost start = self.done();
        while self.at < self.names.len() && (self.names[self.at].len() == 0 || is_dot(
            self.names[self.at].as_slice(),
        ))
            invariant
                self.names() == names,
                self.bounded == old(self).bounded,
                self.at <= self.names@.len(),
                past(names, self.at as nat) == past(names, start),
            decreases self.names@.len() - self.at,
        {
            assert(names[self.at as int] == self.names@[self.at as int]@);
            self.at += 1;
        }
        if self.at >= self.names.len() {
            return Step::Reached;
        }
        assert(names[self.at as int] == self.names@[self.at as int]@);
        let name: &Vec<u8> = &self.names[self.at];
        if is_dot_dot(name.as_slice()) {
            return Step::Refused(EACCES);
        }
        if self.bounded && name.len() > MAX_COMPONENT {
            return Step::Refused(ENAMETOOLONG);
        }
        Step::Child(copy_bytes(name.as_slice()))
    }

    /// Go on: the name was opened, or what a call answers instead.
    pub fn opened(&mut self, outcome: Result<(), StoreError>) -> (refused: Option<u64>)
        requires
            old(self).wf(),
            old(self).done() < old(self).names().len(),
        ensures
            final(self).wf(),
            final(self).names() == old(self).names(),
            final(self).bounded() == old(self).bounded(),
            match outcome {
                Ok(()) => refused is None && final(self).done() == old(self).done() + 1,
                Err(error) => refused == Some(error_number(error)) && final(self).done() == old(
                    self,
                ).done(),
            },
    {
        match outcome {
            Ok(()) => {
                assert(self.at < self.names.len());
                self.at += 1;
                None
            },
            Err(error) => Some(errno(error)),
        }
    }
}

fn is_dot(name: &[u8]) -> (dot: bool)
    ensures
        dot == (name@ == seq![DOT]),
{
    if name.len() == 1 && name[0] == DOT {
        assert(name@ =~= seq![DOT]);
        return true;
    }
    false
}

fn is_dot_dot(name: &[u8]) -> (dots: bool)
    ensures
        dots == climbs(name@),
{
    if name.len() == 2 && name[0] == DOT && name[1] == DOT {
        assert(name@ =~= seq![DOT, DOT]);
        return true;
    }
    false
}

/// Start a walk from the root.
///
/// Absolute and relative are the same walk, because the working directory is
/// the root and does not move.
pub fn walk(path: &[u8]) -> (walk: Walk)
    ensures
        walk.wf(),
        walk.names() == names_in(path@),
        walk.done() == 0,
        walk.bounded(),
{
    Walk { names: take_apart(path), at: 0, bounded: true }
}

/// A path without the slashes it ends in.
pub open spec fn trimmed(path: Seq<u8>) -> Seq<u8>
    decreases path.len(),
{
    if path.len() > 0 && path.last() == SLASH {
        trimmed(path.drop_last())
    } else {
        path
    }
}

/// Where the last slash is, or minus one.
pub open spec fn last_slash(path: Seq<u8>) -> int
    decreases path.len(),
{
    if path.len() == 0 {
        -1
    } else if path.last() == SLASH {
        path.len() - 1
    } else {
        last_slash(path.drop_last())
    }
}

/// The directory and the name in a path, or why there are none.
pub open spec fn split_in(path: Seq<u8>) -> Result<(Seq<u8>, Seq<u8>), u64> {
    let whole = trimmed(path);
    let slash = last_slash(whole);
    let name = whole.skip(slash + 1);
    if passed_over(name) || climbs(name) {
        Err(EINVAL)
    } else {
        Ok(
            (
                if slash >= 0 {
                    whole.take(slash)
                } else {
                    Seq::empty()
                },
                name,
            ),
        )
    }
}

/// A directory and a name, or a refusal, as values.
pub open spec fn split_view(parts: Result<(Vec<u8>, Vec<u8>), u64>) -> Result<
    (Seq<u8>, Seq<u8>),
    u64,
> {
    match parts {
        Ok((directory, name)) => Ok((directory@, name@)),
        Err(reason) => Err(reason),
    }
}

fn trim(path: &[u8]) -> (end: usize)
    ensures
        end <= path@.len(),
        path@.take(end as int) == trimmed(path@),
{
    let mut end: usize = path.len();
    assert(path@.take(end as int) =~= path@);
    while end > 0 && path[end - 1] == SLASH
        invariant
            end <= path@.len(),
            trimmed(path@.take(end as int)) == trimmed(path@),
        decreases end,
    {
        assert(path@.take(end as int).drop_last() =~= path@.take(end - 1));
        end -= 1;
    }
    end
}

fn find_slash(path: &[u8], end: usize) -> (slash: Option<usize>)
    requires
        end <= path@.len(),
    ensures
        match slash {
            Some(at) => at < end && last_slash(path@.take(end as int)) == at,
            None => last_slash(path@.take(end as int)) == -1,
        },
{
    let mut at: usize = end;
    while at > 0
        invariant
            at <= end <= path@.len(),
            last_slash(path@.take(at as int)) == last_slash(path@.take(end as int)),
        decreases at,
    {
        assert(path@.take(at as int).drop_last() =~= path@.take(at - 1));
        if path[at - 1] == SLASH {
            return Some(at - 1);
        }
        at -= 1;
    }
    None
}

/// Take a path apart into the directory that holds the last name, and the name.
///
/// Walk the directory next.
pub fn split(path: &[u8]) -> (parts: Result<(Vec<u8>, Vec<u8>), u64>)
    ensures
        split_view(parts) == split_in(path@),
{
    let end: usize = trim(path);
    let ghost whole = trimmed(path@);
    let slash = find_slash(path, end);
    let start: usize = match slash {
        Some(at) => at + 1,
        None => 0,
    };
    let name = copy_range(path, start, end);
    assert(name@ =~= whole.skip(last_slash(whole) + 1));
    if name.len() == 0 || is_dot(name.as_slice()) || is_dot_dot(name.as_slice()) {
        return Err(EINVAL);
    }
    let directory = match slash {
        Some(at) => copy_range(path, 0, at),
        None => Vec::new(),
    };
    proof {
        if last_slash(whole) >= 0 {
            assert(directory@ =~= whole.take(last_slash(whole)));
        } else {
            assert(directory@ =~= Seq::empty());
        }
    }
    Ok((directory, name))
}

/// The directories and the name a file is installed under, or why it cannot be.
///
/// A path with no slash left in it once its trailing ones are gone is taken as
/// it was given.
pub open spec fn install_split(path: Seq<u8>) -> Result<(Seq<u8>, Seq<u8>), u64> {
    let whole = trimmed(path);
    let slash = last_slash(whole);
    let name = if slash >= 0 {
        whole.skip(slash + 1)
    } else {
        path
    };
    if passed_over(name) || climbs(name) {
        Err(EINVAL)
    } else {
        Ok(
            (
                if slash >= 0 {
                    whole.take(slash)
                } else {
                    Seq::empty()
                },
                name,
            ),
        )
    }
}

/// Start putting a file into the root: the walk through the directories above
/// it, each made where it is missing, and the file's name.
pub fn install(path: &[u8]) -> (parts: Result<(Walk, Vec<u8>), u64>)
    ensures
        match parts {
            Ok((walk, name)) => {
                &&& install_split(path@) matches Ok((directories, wanted))
                &&& walk.wf()
                &&& walk.names() == names_in(directories)
                &&& walk.done() == 0
                &&& !walk.bounded()
                &&& name@ == wanted
            },
            Err(reason) => install_split(path@) == Err::<(Seq<u8>, Seq<u8>), u64>(reason),
        },
{
    let end: usize = trim(path);
    let ghost whole = trimmed(path@);
    let slash = find_slash(path, end);
    let name = match slash {
        Some(at) => copy_range(path, at + 1, end),
        None => copy_bytes(path),
    };
    proof {
        if last_slash(whole) >= 0 {
            assert(name@ =~= whole.skip(last_slash(whole) + 1));
        }
    }
    if name.len() == 0 || is_dot(name.as_slice()) || is_dot_dot(name.as_slice()) {
        return Err(EINVAL);
    }
    let directories = match slash {
        Some(at) => copy_range(path, 0, at),
        None => Vec::new(),
    };
    proof {
        if last_slash(whole) >= 0 {
            assert(directories@ =~= whole.take(last_slash(whole)));
        } else {
            assert(directories@ =~= Seq::empty());
        }
    }
    let walk = Walk { names: take_apart(directories.as_slice()), at: 0, bounded: false };
    Ok((walk, name))
}

/// What installing does about one name.
#[derive(Clone, Copy, PartialEq, Eq, Structural, Debug)]
pub enum Installing {
    /// It is there and of the right kind.
    Use,
    /// It is to be made.
    Create,
    Refused(u64),
}

/// What is done about a directory on the way, given what opening it came to.
pub open spec fn on_the_way(opened: Result<Kind, StoreError>) -> Installing {
    match opened {
        Ok(Kind::Directory) => Installing::Use,
        Ok(Kind::File) => Installing::Refused(ENOTDIR),
        Err(StoreError::NotFound) => Installing::Create,
        Err(error) => Installing::Refused(error_number(error)),
    }
}

/// Decide about a directory on the way. A file there is not replaced.
pub fn install_directory(opened: Result<Kind, StoreError>) -> (decision: Installing)
    ensures
        decision == on_the_way(opened),
{
    match opened {
        Ok(Kind::Directory) => Installing::Use,
        Ok(Kind::File) => Installing::Refused(ENOTDIR),
        Err(StoreError::NotFound) => Installing::Create,
        Err(error) => Installing::Refused(errno(error)),
    }
}

/// What is done about the file itself, given what opening it came to.
pub open spec fn at_the_end(opened: Result<Kind, StoreError>) -> Installing {
    match opened {
        Ok(Kind::Directory) => Installing::Refused(EISDIR),
        Ok(Kind::File) => Installing::Use,
        Err(StoreError::NotFound) => Installing::Create,
        Err(error) => Installing::Refused(error_number(error)),
    }
}

/// Decide about the file itself. One that is there is replaced.
pub fn install_file(opened: Result<Kind, StoreError>) -> (decision: Installing)
    ensures
        decision == at_the_end(opened),
{
    match opened {
        Ok(Kind::Directory) => Installing::Refused(EISDIR),
        Ok(Kind::File) => Installing::Use,
        Err(StoreError::NotFound) => Installing::Create,
        Err(error) => Installing::Refused(errno(error)),
    }
}

/// Whether what a walk came to can be read.
pub open spec fn readable(reached: Result<Kind, u64>) -> Result<(), u64> {
    match reached {
        Ok(Kind::Directory) => Err(EISDIR),
        Ok(Kind::File) => Ok(()),
        Err(reason) => Err(reason),
    }
}

/// Whether a file the kernel itself wants to read may be, once the walk to it is
/// over.
pub fn read_file(reached: Result<Kind, u64>) -> (outcome: Result<(), u64>)
    ensures
        outcome == readable(reached),
{
    match reached {
        Ok(Kind::Directory) => Err(EISDIR),
        Ok(Kind::File) => Ok(()),
        Err(reason) => Err(reason),
    }
}

/// Whether a path names a file, once the walk to it is over.
pub fn file_exists(reached: Result<Kind, u64>) -> (there: bool)
    ensures
        there == (reached == Ok::<Kind, u64>(Kind::File)),
{
    match reached {
        Ok(Kind::File) => true,
        _ => false,
    }
}

/// No walk opens a name that climbs, and none opens an empty one or a dot: what
/// it opens is always a name of its own path, under a directory it has reached.
pub proof fn law_walk_never_climbs(names: Seq<Seq<u8>>, at: nat, bounded: bool)
    requires
        at <= names.len(),
    ensures
        step_at(names, at, bounded) matches StepView::Child(name) ==> {
            &&& !climbs(name)
            &&& !passed_over(name)
            &&& names.contains(name)
            &&& bounded ==> name.len() <= MAX_COMPONENT
        },
    decreases names.len() - at,
{
    lemma_past(names, at);
    let next = past(names, at);
    if next < names.len() {
        assert(names[next as int] == names[next as int]);
    }
}

proof fn lemma_past(names: Seq<Seq<u8>>, at: nat)
    requires
        at <= names.len(),
    ensures
        at <= past(names, at) <= names.len(),
        past(names, at) < names.len() ==> !passed_over(names[past(names, at) as int]),
    decreases names.len() - at,
{
    if at < names.len() && passed_over(names[at as int]) {
        lemma_past(names, at + 1);
    }
}

proof fn lemma_no_slash(path: Seq<u8>)
    ensures
        forall|i: int|
            0 <= i < names_in(path).len() ==> !(#[trigger] names_in(path)[i]).contains(SLASH),
    decreases path.len(),
{
    lemma_names_in(path);
    if path.len() > 0 {
        let before = names_in(path.drop_last());
        lemma_no_slash(path.drop_last());
        lemma_names_in(path.drop_last());
        let after = names_in(path);
        assert forall|i: int| 0 <= i < after.len() implies !(#[trigger] after[i]).contains(
            SLASH,
        ) by {
            if i < after.len() - 1 {
                assert(after[i] == before[i]);
            } else if path.last() != SLASH {
                let last = before.last().push(path.last());
                assert(!before[before.len() - 1].contains(SLASH));
                assert(after[i] == last);
                if last.contains(SLASH) {
                    let k = choose|k: int| 0 <= k < last.len() && last[k] == SLASH;
                    if k < before.last().len() {
                        assert(before.last()[k] == SLASH);
                    }
                }
            }
        }
    }
}

/// The names a path is walked by hold no separator.
pub proof fn law_names_hold_no_slash(path: Seq<u8>, index: int)
    requires
        0 <= index < names_in(path).len(),
    ensures
        !names_in(path)[index].contains(SLASH),
{
    lemma_no_slash(path);
}

/// The names a walk opens, from one of its names on: all but those passed over.
pub open spec fn opened_from(names: Seq<Seq<u8>>, at: nat) -> Seq<Seq<u8>>
    decreases names.len() - at,
{
    if at >= names.len() {
        Seq::empty()
    } else if passed_over(names[at as int]) {
        opened_from(names, at + 1)
    } else {
        seq![names[at as int]] + opened_from(names, at + 1)
    }
}

/// Where a path leads: the names from the root to what it names.
pub open spec fn place_of(path: Seq<u8>) -> Seq<Seq<u8>> {
    opened_from(names_in(path), 0)
}

/// Where a name under a directory is.
pub open spec fn place_under(directory: Seq<u8>, name: Seq<u8>) -> Seq<Seq<u8>> {
    place_of(directory).push(name)
}

/// Every name of a place can be opened: none climbs, and none is too long.
pub open spec fn within_reach(place: Seq<Seq<u8>>) -> bool {
    forall|i: int|
        0 <= i < place.len() ==> !climbs(#[trigger] place[i]) && place[i].len() <= MAX_COMPONENT
}

proof fn lemma_opened_past(names: Seq<Seq<u8>>, at: nat)
    requires
        at <= names.len(),
    ensures
        ({
            let next = past(names, at);
            opened_from(names, at) == if next < names.len() {
                seq![names[next as int]] + opened_from(names, next + 1)
            } else {
                Seq::empty()
            }
        }),
    decreases names.len() - at,
{
    if at < names.len() && passed_over(names[at as int]) {
        lemma_opened_past(names, at + 1);
    }
}

/// A walk opens the names of the place its path leads to, one after the other
/// and no others, and has reached it when there are no more.
pub proof fn law_walk_opens_its_place(names: Seq<Seq<u8>>, at: nat, bounded: bool)
    requires
        at <= names.len(),
        within_reach(opened_from(names, at)),
    ensures
        ({
            let rest = opened_from(names, at);
            &&& rest.len() == 0 ==> step_at(names, at, bounded) == StepView::Reached
            &&& rest.len() > 0 ==> {
                &&& step_at(names, at, bounded) == StepView::Child(rest[0])
                &&& opened_from(names, past(names, at) + 1) == rest.drop_first()
            }
        }),
{
    lemma_opened_past(names, at);
    lemma_past(names, at);
    let next = past(names, at);
    let rest = opened_from(names, at);
    if next < names.len() {
        assert(rest[0] == names[next as int]);
        assert(rest.drop_first() =~= opened_from(names, next + 1));
    }
}

proof fn lemma_opened_push(names: Seq<Seq<u8>>, name: Seq<u8>, at: nat)
    requires
        at <= names.len(),
    ensures
        opened_from(names.push(name), at) == if passed_over(name) {
            opened_from(names, at)
        } else {
            opened_from(names, at).push(name)
        },
    decreases names.len() - at,
{
    let more = names.push(name);
    if at < names.len() {
        assert(more[at as int] == names[at as int]);
        lemma_opened_push(names, name, at + 1);
        if !passed_over(names[at as int]) && !passed_over(name) {
            assert(seq![names[at as int]] + opened_from(names, at + 1).push(name) =~= (seq![
                names[at as int],
            ] + opened_from(names, at + 1)).push(name));
        }
    } else {
        assert(opened_from(more, at + 1) =~= Seq::empty());
        if !passed_over(name) {
            assert(opened_from(more, at) =~= Seq::<Seq<u8>>::empty().push(name));
        }
    }
}

/// A name after a slash is the last of the names.
proof fn lemma_names_after(directory: Seq<u8>, name: Seq<u8>)
    requires
        !name.contains(SLASH),
    ensures
        names_in(directory.push(SLASH) + name) == names_in(directory).push(name),
    decreases name.len(),
{
    let path = directory.push(SLASH) + name;
    if name.len() == 0 {
        assert(path =~= directory.push(SLASH));
        assert(path.drop_last() =~= directory);
        assert(name =~= Seq::empty());
    } else {
        let fewer = name.drop_last();
        assert forall|i: int| 0 <= i < fewer.len() implies fewer[i] != SLASH by {
            assert(name[i] == fewer[i]);
        }
        assert(!fewer.contains(SLASH));
        lemma_names_after(directory, fewer);
        assert(path.drop_last() =~= directory.push(SLASH) + fewer);
        assert(path.last() == name.last());
        assert(name[name.len() - 1] != SLASH);
        let before = names_in(directory).push(fewer);
        assert(before.drop_last() =~= names_in(directory));
        assert(fewer.push(name.last()) =~= name);
    }
}

/// A path without a slash is one name.
proof fn lemma_one_name(path: Seq<u8>)
    requires
        !path.contains(SLASH),
    ensures
        names_in(path) == seq![path],
    decreases path.len(),
{
    if path.len() == 0 {
        assert(path =~= Seq::empty());
    } else {
        let fewer = path.drop_last();
        assert forall|i: int| 0 <= i < fewer.len() implies fewer[i] != SLASH by {
            assert(path[i] == fewer[i]);
        }
        assert(!fewer.contains(SLASH));
        lemma_one_name(fewer);
        assert(path[path.len() - 1] != SLASH);
        assert(fewer.push(path.last()) =~= path);
        assert(names_in(path) =~= seq![path]);
    }
}

/// Slashes at the end lead nowhere else.
proof fn lemma_trimmed_place(path: Seq<u8>)
    ensures
        place_of(trimmed(path)) == place_of(path),
    decreases path.len(),
{
    if path.len() > 0 && path.last() == SLASH {
        lemma_trimmed_place(path.drop_last());
        lemma_opened_push(names_in(path.drop_last()), Seq::empty(), 0);
    }
}

proof fn lemma_last_slash(path: Seq<u8>)
    ensures
        ({
            let slash = last_slash(path);
            &&& -1 <= slash < path.len()
            &&& slash >= 0 ==> path[slash] == SLASH
            &&& forall|i: int| slash < i < path.len() ==> #[trigger] path[i] != SLASH
        }),
    decreases path.len(),
{
    if path.len() > 0 && path.last() != SLASH {
        let fewer = path.drop_last();
        lemma_last_slash(fewer);
        assert forall|i: int| last_slash(path) < i < path.len() implies #[trigger] path[i]
            != SLASH by {
            if i < fewer.len() {
                assert(fewer[i] == path[i]);
            }
        }
    }
}

/// A path taken apart into a directory and a name leads to that name under that
/// directory.
pub proof fn law_a_split_path_leads_to_its_name(path: Seq<u8>)
    ensures
        split_in(path) matches Ok((directory, name)) ==> place_of(path) == place_under(
            directory,
            name,
        ),
{
    let whole = trimmed(path);
    let slash = last_slash(whole);
    lemma_trimmed_place(path);
    lemma_last_slash(whole);
    let name = whole.skip(slash + 1);
    if split_in(path) is Ok {
        assert(!name.contains(SLASH)) by {
            assert forall|i: int| 0 <= i < name.len() implies name[i] != SLASH by {
                assert(whole[slash + 1 + i] != SLASH);
            }
        }
        lemma_named_place(whole, slash, name);
    }
}

/// The place of a path whose last slash is known.
proof fn lemma_named_place(whole: Seq<u8>, slash: int, name: Seq<u8>)
    requires
        -1 <= slash < whole.len(),
        slash >= 0 ==> whole[slash] == SLASH,
        name == whole.skip(slash + 1),
        !name.contains(SLASH),
        !passed_over(name),
    ensures
        place_of(whole) == place_under(
            if slash >= 0 {
                whole.take(slash)
            } else {
                Seq::empty()
            },
            name,
        ),
{
    if slash >= 0 {
        let directory = whole.take(slash);
        assert(whole =~= directory.push(SLASH) + name);
        lemma_names_after(directory, name);
        lemma_opened_push(names_in(directory), name, 0);
    } else {
        assert(whole.skip(0) =~= whole);
        lemma_one_name(whole);
        let nothing: Seq<u8> = Seq::empty();
        assert(names_in(nothing) =~= seq![nothing]);
        assert(opened_from(seq![nothing], 1) =~= Seq::empty());
        assert(place_of(nothing) =~= Seq::empty());
        assert(opened_from(seq![whole], 1) =~= Seq::empty());
        assert(place_of(whole) =~= seq![whole]);
        assert(place_under(nothing, name) =~= seq![whole]);
    }
}

/// What a store has at a place.
pub enum Node {
    Directory,
    File(Seq<u8>),
}

/// Which kind of thing it is.
pub open spec fn kind_of(node: Node) -> Kind {
    match node {
        Node::Directory => Kind::Directory,
        Node::File(_) => Kind::File,
    }
}

/// A store: what is at each place, and which names it takes.
pub struct Store {
    pub nodes: Map<Seq<Seq<u8>>, Node>,
    pub takes: spec_fn(Seq<u8>) -> bool,
}

impl Store {
    /// No name it takes holds a slash or is longer than a name may be, and its
    /// root is a directory.
    pub open spec fn wf(self) -> bool {
        &&& forall|name: Seq<u8>| #[trigger]
            (self.takes)(name) ==> !name.contains(SLASH) && name.len() <= MAX_COMPONENT
        &&& self.is_directory(Seq::empty())
    }

    /// Whether there is a directory at a place.
    pub open spec fn is_directory(self, place: Seq<Seq<u8>>) -> bool {
        self.nodes.dom().contains(place) && self.nodes[place] is Directory
    }

    /// Open a name under a place.
    pub open spec fn open_child(self, place: Seq<Seq<u8>>, name: Seq<u8>) -> Result<
        Kind,
        StoreError,
    > {
        if !self.is_directory(place) {
            Err(StoreError::WrongKind)
        } else if !(self.takes)(name) {
            Err(StoreError::BadName)
        } else if self.nodes.dom().contains(place.push(name)) {
            Ok(kind_of(self.nodes[place.push(name)]))
        } else {
            Err(StoreError::NotFound)
        }
    }

    /// The store with something put at a place.
    pub open spec fn with(self, place: Seq<Seq<u8>>, node: Node) -> Store {
        Store { nodes: self.nodes.insert(place, node), ..self }
    }
}

/// A walk from a place on, once so many names are done with: where it comes to,
/// or what is answered.
pub open spec fn walked_to(
    store: Store,
    names: Seq<Seq<u8>>,
    at: nat,
    place: Seq<Seq<u8>>,
) -> Result<Seq<Seq<u8>>, u64>
    decreases names.len() - at,
{
    match step_at(names, at, true) {
        StepView::Reached => Ok(place),
        StepView::Refused(reason) => Err(reason),
        StepView::Child(name) => match store.open_child(place, name) {
            Err(error) => Err(error_number(error)),
            Ok(_) => if past(names, at) < at || past(names, at) >= names.len() {
                Err(EIO)
            } else {
                walked_to(store, names, past(names, at) + 1, place.push(name))
            },
        },
    }
}

/// Everything a file holds, read by its path.
pub open spec fn file_read(store: Store, path: Seq<u8>) -> Result<Seq<u8>, u64> {
    match walked_to(store, names_in(path), 0, Seq::empty()) {
        Err(reason) => Err(reason),
        Ok(place) => match readable(Ok(kind_of(store.nodes[place]))) {
            Err(reason) => Err(reason),
            Ok(()) => Ok(store.nodes[place]->File_0),
        },
    }
}

/// The directories of a walk, each made where it is missing: the store then, and
/// where the walk comes to.
pub open spec fn directories_made(
    store: Store,
    names: Seq<Seq<u8>>,
    at: nat,
    place: Seq<Seq<u8>>,
) -> Result<(Store, Seq<Seq<u8>>), u64>
    decreases names.len() - at,
{
    match step_at(names, at, false) {
        StepView::Reached => Ok((store, place)),
        StepView::Refused(reason) => Err(reason),
        StepView::Child(name) => {
            let made = match on_the_way(store.open_child(place, name)) {
                Installing::Refused(reason) => Err(reason),
                Installing::Use => Ok(store),
                Installing::Create => Ok(store.with(place.push(name), Node::Directory)),
            };
            match made {
                Err(reason) => Err(reason),
                Ok(made) => if past(names, at) < at || past(names, at) >= names.len() {
                    Err(EIO)
                } else {
                    directories_made(made, names, past(names, at) + 1, place.push(name))
                },
            }
        },
    }
}

/// A file put where a path says, in a store that has room for it.
pub open spec fn file_installed(store: Store, path: Seq<u8>, bytes: Seq<u8>) -> Result<
    Store,
    u64,
> {
    match install_split(path) {
        Err(reason) => Err(reason),
        Ok((directories, name)) => match directories_made(
            store,
            names_in(directories),
            0,
            Seq::empty(),
        ) {
            Err(reason) => Err(reason),
            Ok((made, place)) => match at_the_end(made.open_child(place, name)) {
                Installing::Refused(reason) => Err(reason),
                _ => Ok(made.with(place.push(name), Node::File(bytes))),
            },
        },
    }
}

/// Every place on the way to one, itself not among them, is a directory, and the
/// store takes every name on the way.
pub open spec fn leads_to(store: Store, place: Seq<Seq<u8>>) -> bool {
    forall|i: int|
        0 <= i < place.len() ==> store.is_directory(#[trigger] place.take(i)) && (store.takes)(
            place[i],
        )
}

/// A walk whose every name can be opened comes to its place.
proof fn lemma_walked_to(
    store: Store,
    names: Seq<Seq<u8>>,
    at: nat,
    place: Seq<Seq<u8>>,
    whole: Seq<Seq<u8>>,
)
    requires
        store.wf(),
        at <= names.len(),
        whole == place + opened_from(names, at),
        leads_to(store, whole),
        store.nodes.dom().contains(whole),
        forall|i: int| 0 <= i < whole.len() ==> !climbs(#[trigger] whole[i]),
    ensures
        walked_to(store, names, at, place) == Ok::<Seq<Seq<u8>>, u64>(whole),
    decreases names.len() - at,
{
    let rest = opened_from(names, at);
    assert forall|i: int| 0 <= i < rest.len() implies !climbs(#[trigger] rest[i])
        && rest[i].len() <= MAX_COMPONENT by {
        assert(whole[place.len() + i] == rest[i]);
        assert(store.is_directory(whole.take(place.len() + i)));
        assert((store.takes)(whole[place.len() + i]));
    }
    law_walk_opens_its_place(names, at, true);
    lemma_past(names, at);
    if rest.len() == 0 {
        assert(whole =~= place);
    } else {
        let name = rest[0];
        let here = place.len() as int;
        lemma_opened_past(names, at);
        assert(whole.take(here) =~= place);
        assert(whole[here] == name);
        let next = place.push(name);
        assert(whole =~= next + rest.drop_first());
        if here + 1 < whole.len() {
            assert(store.is_directory(whole.take(here + 1)));
            assert(whole.take(here + 1) =~= next);
        } else {
            assert(whole =~= next);
        }
        lemma_walked_to(store, names, past(names, at) + 1, next, whole);
    }
}

/// Making the directories of a walk makes every place on the way a directory, and
/// changes nothing that was there.
proof fn lemma_directories_made(
    store: Store,
    names: Seq<Seq<u8>>,
    at: nat,
    place: Seq<Seq<u8>>,
)
    requires
        store.wf(),
        at <= names.len(),
        leads_to(store, place),
        store.is_directory(place),
        forall|i: int| 0 <= i < place.len() ==> !climbs(#[trigger] place[i]),
        directories_made(store, names, at, place) is Ok,
    ensures
        ({
            let (made, whole) = directories_made(store, names, at, place).unwrap();
            &&& whole == place + opened_from(names, at)
            &&& made.wf()
            &&& made.takes == store.takes
            &&& leads_to(made, whole)
            &&& made.is_directory(whole)
            &&& forall|i: int| 0 <= i < whole.len() ==> !climbs(#[trigger] whole[i])
            &&& forall|other: Seq<Seq<u8>>| #[trigger]
                store.nodes.dom().contains(other) ==> made.nodes.dom().contains(other)
                    && made.nodes[other] == store.nodes[other]
            &&& forall|other: Seq<Seq<u8>>| #[trigger]
                made.nodes.dom().contains(other) && !store.nodes.dom().contains(other)
                    ==> made.is_directory(other) && other.is_prefix_of(whole)
        }),
    decreases names.len() - at,
{
    lemma_past(names, at);
    lemma_opened_past(names, at);
    let next = past(names, at);
    if next >= names.len() {
        assert(place + Seq::<Seq<u8>>::empty() =~= place);
    } else {
        let name = names[next as int];
        let under = place.push(name);
        assert(step_at(names, at, false) == StepView::Child(name));
        let opened = store.open_child(place, name);
        let step = if opened is Ok {
            store
        } else {
            store.with(under, Node::Directory)
        };
        assert(on_the_way(opened) == Installing::Use || on_the_way(opened) == Installing::Create);
        assert((store.takes)(name));
        assert(forall|i: int| 0 <= i < place.len() ==> under.take(i) =~= #[trigger] place.take(i));
        assert(under.take(place.len() as int) =~= place);
        assert forall|i: int| 0 <= i < under.len() implies step.is_directory(
            #[trigger] under.take(i),
        ) && (step.takes)(under[i]) by {
            if i < place.len() {
                assert(under.take(i) =~= place.take(i));
                assert(store.is_directory(place.take(i)));
                assert(under[i] == place[i]);
            }
            assert(under.take(i).len() == i);
        }
        assert(step.is_directory(under));
        assert(step.is_directory(Seq::empty()));
        lemma_directories_made(step, names, next + 1, under);
        let (made, whole) = directories_made(store, names, at, place).unwrap();
        assert(under + opened_from(names, next + 1) =~= place + opened_from(names, at));
        assert(under.is_prefix_of(whole)) by {
            assert(whole.take(under.len() as int) =~= under);
        }
        assert forall|other: Seq<Seq<u8>>| #[trigger]
            store.nodes.dom().contains(other) implies made.nodes.dom().contains(other)
            && made.nodes[other] == store.nodes[other] by {
            assert(step.nodes.dom().contains(other));
        }
        assert forall|other: Seq<Seq<u8>>| #[trigger]
            made.nodes.dom().contains(other) && !store.nodes.dom().contains(
                other,
            ) implies made.is_directory(other) && other.is_prefix_of(whole) by {
            if step.nodes.dom().contains(other) {
                assert(other == under);
            }
        }
    }
}

/// What is installed at a path is what is read there. Every directory on the way
/// is there then, the file holds the bytes and nothing else, and whatever else
/// was in the store is as it was.
///
/// `store` has room for what is put into it.
pub proof fn law_what_is_installed_is_read(store: Store, path: Seq<u8>, bytes: Seq<u8>)
    requires
        store.wf(),
        file_installed(store, path, bytes) is Ok,
    ensures
        ({
            let after = file_installed(store, path, bytes).unwrap();
            let place = place_of(path);
            &&& after.wf()
            &&& file_read(after, path) == Ok::<Seq<u8>, u64>(bytes)
            &&& after.nodes.dom().contains(place) && after.nodes[place] == Node::File(bytes)
            &&& forall|other: Seq<Seq<u8>>|
                other != place && #[trigger] store.nodes.dom().contains(other)
                    ==> after.nodes.dom().contains(other) && after.nodes[other]
                    == store.nodes[other]
            &&& forall|other: Seq<Seq<u8>>|
                other != place && #[trigger] after.nodes.dom().contains(other)
                    && !store.nodes.dom().contains(other) ==> after.is_directory(other)
                    && other.is_prefix_of(place)
        }),
{
    let (directories, name) = install_split(path).unwrap();
    let nothing = Seq::<Seq<u8>>::empty();
    let names = names_in(directories);
    lemma_directories_made(store, names, 0, nothing);
    let (made, above) = directories_made(store, names, 0, nothing).unwrap();
    assert(nothing + opened_from(names, 0) =~= opened_from(names, 0));
    let place = above.push(name);
    let after = made.with(place, Node::File(bytes));
    assert((made.takes)(name));
    lemma_install_place(path);
    assert(place == place_of(path));
    assert forall|i: int| 0 <= i < place.len() implies after.is_directory(#[trigger] place.take(i))
        && (after.takes)(place[i]) by {
        assert(place.take(i).len() == i);
        if i < above.len() {
            assert(place.take(i) =~= above.take(i));
            assert(made.is_directory(above.take(i)));
            assert(place[i] == above[i]);
        } else {
            assert(place.take(i) =~= above);
        }
    }
    assert(leads_to(after, place));
    assert(nothing + opened_from(names_in(path), 0) =~= place);
    assert(after.is_directory(nothing)) by {
        assert(made.is_directory(nothing));
        assert(place.len() > 0);
    }
    lemma_walked_to(after, names_in(path), 0, nothing, place);
    assert(above.is_prefix_of(place)) by {
        assert(place.take(above.len() as int) =~= above);
    }
    assert forall|other: Seq<Seq<u8>>|
        other != place && #[trigger] after.nodes.dom().contains(other)
            && !store.nodes.dom().contains(other) implies after.is_directory(other)
        && other.is_prefix_of(place) by {
        assert(made.nodes.dom().contains(other));
        assert(other.is_prefix_of(above));
        assert(place.take(other.len() as int) =~= above.take(other.len() as int));
    }
}

/// A path a file is installed at leads to its name under its directories, where
/// the name holds no slash.
proof fn lemma_install_place(path: Seq<u8>)
    requires
        install_split(path) is Ok,
        !install_split(path).unwrap().1.contains(SLASH),
    ensures
        ({
            let (directories, name) = install_split(path).unwrap();
            &&& place_of(path) == place_under(directories, name)
            &&& !climbs(name)
        }),
{
    let whole = trimmed(path);
    let slash = last_slash(whole);
    let name = install_split(path).unwrap().1;
    lemma_trimmed_place(path);
    lemma_last_slash(whole);
    if slash < 0 {
        lemma_untrimmed(path);
        assert(whole.skip(0) =~= whole);
    }
    lemma_named_place(whole, slash, name);
}

/// A path without a slash ends in none.
proof fn lemma_untrimmed(path: Seq<u8>)
    requires
        !path.contains(SLASH),
    ensures
        trimmed(path) == path,
{
    if path.len() > 0 {
        assert(path[path.len() - 1] != SLASH);
    }
}

/// Which error a program is given for each failure of the store: a full one, one
/// without room for another file and a file that is too large are all no room.
pub proof fn law_what_a_failure_is_called()
    ensures
        error_number(StoreError::NotFound) == ENOENT,
        error_number(StoreError::Exists) == EEXIST,
        error_number(StoreError::WrongKind) == ENOTDIR,
        error_number(StoreError::BadName) == ENAMETOOLONG,
        error_number(StoreError::NotEmpty) == ENOTEMPTY,
        error_number(StoreError::NoSpace) == ENOSPC,
        error_number(StoreError::NoInodes) == ENOSPC,
        error_number(StoreError::TooLarge) == ENOSPC,
        error_number(StoreError::Medium) == EIO,
{
}

/// On the way a directory is gone through and made where there is none, and a file
/// is in the way. At the end it is the other way round. Only a file is read.
pub proof fn law_directories_on_the_way_and_a_file_at_the_end(error: StoreError)
    ensures
        on_the_way(Ok(Kind::Directory)) == Installing::Use,
        on_the_way(Ok(Kind::File)) == Installing::Refused(ENOTDIR),
        at_the_end(Ok(Kind::File)) == Installing::Use,
        at_the_end(Ok(Kind::Directory)) == Installing::Refused(EISDIR),
        error == StoreError::NotFound ==> on_the_way(Err(error)) == Installing::Create && at_the_end(
            Err(error),
        ) == Installing::Create,
        error != StoreError::NotFound ==> on_the_way(Err(error)) == Installing::Refused(
            error_number(error),
        ) && at_the_end(Err(error)) == Installing::Refused(error_number(error)),
        readable(Ok(Kind::File)) == Ok::<(), u64>(()),
        readable(Ok(Kind::Directory)) == Err::<(), u64>(EISDIR),
        forall|reason: u64| #[trigger] readable(Err(reason)) == Err::<(), u64>(reason),
{
}

/// A path is what stands before the first zero, if that is text. Without a zero it
/// is too long where 4096 bytes were there to be looked at, and otherwise out of
/// reach.
pub proof fn law_a_path_ends_at_the_first_zero(bytes: Seq<u8>, at: int)
    ensures
        0 <= at < bytes.len() && bytes[at] == 0 && !bytes.take(at).contains(0) ==> path_in(bytes)
            == if vstd::utf8::valid_utf8(bytes.take(at)) {
            Ok::<Seq<u8>, u64>(bytes.take(at))
        } else {
            Err(EINVAL)
        },
        !bytes.contains(0) && bytes.len() >= 4096 ==> path_in(bytes) == Err::<Seq<u8>, u64>(
            ENAMETOOLONG,
        ),
        !bytes.contains(0) && bytes.len() < 4096 ==> path_in(bytes) == Err::<Seq<u8>, u64>(EFAULT),
{
    if 0 <= at < bytes.len() && bytes[at] == 0 && !bytes.take(at).contains(0) {
        assert forall|i: int| 0 <= i < at implies #[trigger] bytes[i] != 0 by {
            assert(bytes.take(at)[i] == bytes[i]);
        }
        assert(first_zero(bytes, at));
        let found = choose|at: int| first_zero(bytes, at);
        assert(first_zero(bytes, found));
        assert(found == at);
    }
    if !bytes.contains(0) {
        assert forall|other: int| !first_zero(bytes, other) by {
            if first_zero(bytes, other) {
                assert(bytes[other] == 0);
            }
        }
    }
}

/// A path is taken apart at its slashes: one without a slash is one name, and what
/// stands behind the last slash is the last name, after the names of what stands
/// before.
pub proof fn law_slashes_part_names(directory: Seq<u8>, name: Seq<u8>)
    requires
        !name.contains(0x2F),
    ensures
        names_in(name) == seq![name],
        names_in(directory + seq![0x2Fu8] + name) == names_in(directory).push(name),
{
    lemma_one_name(name);
    lemma_names_after(directory, name);
    assert(directory + seq![0x2Fu8] + name =~= directory.push(SLASH) + name);
}

/// An empty name and one dot are passed over, two dots climb, and no other name
/// does either.
pub proof fn law_dots(name: Seq<u8>)
    ensures
        passed_over(name) <==> name.len() == 0 || (name.len() == 1 && name[0] == 0x2E),
        climbs(name) <==> name.len() == 2 && name[0] == 0x2E && name[1] == 0x2E,
{
    if name.len() == 1 && name[0] == 0x2E {
        assert(name =~= seq![DOT]);
    }
    if name.len() == 2 && name[0] == 0x2E && name[1] == 0x2E {
        assert(name =~= seq![DOT, DOT]);
    }
}

/// What a walk makes of the next name: it passes over nothing but what says
/// nothing, refuses to climb, refuses a name of more than 255 bytes where it keeps to
/// that, and opens every other.
pub proof fn law_a_step_of_a_walk(names: Seq<Seq<u8>>, at: nat, bounded: bool)
    requires
        at < names.len(),
    ensures
        passed_over(names[at as int]) ==> step_at(names, at, bounded) == step_at(
            names,
            at + 1,
            bounded,
        ),
        climbs(names[at as int]) ==> step_at(names, at, bounded) == StepView::Refused(EACCES),
        !passed_over(names[at as int]) && !climbs(names[at as int]) ==> step_at(names, at, bounded)
            == if bounded && names[at as int].len() > 255 {
            StepView::Refused(ENAMETOOLONG)
        } else {
            StepView::Child(names[at as int])
        },
        step_at(names, names.len(), bounded) == StepView::Reached,
{
    assert(climbs(names[at as int]) ==> names[at as int].len() == 2);
}

/// A path splits into what stands before its last slash and the name behind it, and
/// slashes at its end change nothing. A path without a slash is a name in no
/// directory. A name that says nothing or climbs cannot be made or taken away.
pub proof fn law_a_path_splits_at_its_last_slash(directory: Seq<u8>, name: Seq<u8>)
    requires
        name.len() > 0,
        !name.contains(0x2F),
    ensures
        ({
            let path = directory + seq![0x2Fu8] + name;
            let ordinary = !passed_over(name) && !climbs(name);
            &&& ordinary ==> split_in(path) == Ok::<(Seq<u8>, Seq<u8>), u64>((directory, name))
            &&& ordinary ==> split_in(name) == Ok::<(Seq<u8>, Seq<u8>), u64>((Seq::empty(), name))
            &&& ordinary ==> install_split(path) == Ok::<(Seq<u8>, Seq<u8>), u64>((directory, name))
            &&& ordinary ==> install_split(name) == Ok::<(Seq<u8>, Seq<u8>), u64>(
                (Seq::empty(), name),
            )
            &&& !ordinary ==> split_in(path) == Err::<(Seq<u8>, Seq<u8>), u64>(EINVAL)
            &&& !ordinary ==> split_in(name) == Err::<(Seq<u8>, Seq<u8>), u64>(EINVAL)
            &&& !ordinary ==> install_split(path) == Err::<(Seq<u8>, Seq<u8>), u64>(EINVAL)
            &&& !ordinary ==> install_split(name) == Err::<(Seq<u8>, Seq<u8>), u64>(EINVAL)
            &&& split_in(path.push(0x2F)) == split_in(path)
        }),
{
    let path = directory + seq![0x2Fu8] + name;
    let slash = directory.len() as int;
    assert(name.last() == name[name.len() - 1]);
    assert(path.last() == name.last());
    assert(path.last() != SLASH);
    assert(trimmed(path) == path);
    assert(trimmed(path.push(0x2F)) == path) by {
        assert(path.push(0x2F).drop_last() =~= path);
    }
    lemma_untrimmed(name);
    lemma_last_slash(path);
    lemma_last_slash(name);
    assert(path[slash] == SLASH);
    assert forall|i: int| slash < i < path.len() implies #[trigger] path[i] != SLASH by {
        assert(path[i] == name[i - slash - 1]);
    }
    assert(last_slash(path) == slash);
    assert(last_slash(name) == -1) by {
        if last_slash(name) >= 0 {
            assert(name[last_slash(name)] == SLASH);
        }
    }
    assert(path.skip(slash + 1) =~= name);
    assert(path.take(slash) =~= directory);
    assert(name.skip(0) =~= name);
}

/// What a store answers when a name is opened under a place: what is there, a
/// directory or a file; that the place is no directory; that the name is none it takes;
/// or that nothing is there. What was put at a place is what is opened there.
pub proof fn law_what_opening_a_name_answers(
    store: Store,
    place: Seq<Seq<u8>>,
    name: Seq<u8>,
    bytes: Seq<u8>,
)
    ensures
        ({
            let opened = store.open_child(place, name);
            let there = store.nodes.dom().contains(place.push(name));
            let directory = store.nodes.dom().contains(place) && store.nodes[place]
                == Node::Directory;
            &&& !directory ==> opened == Err::<Kind, StoreError>(StoreError::WrongKind)
            &&& directory && !(store.takes)(name) ==> opened == Err::<Kind, StoreError>(
                StoreError::BadName,
            )
            &&& directory && (store.takes)(name) && !there ==> opened == Err::<Kind, StoreError>(
                StoreError::NotFound,
            )
            &&& directory && (store.takes)(name) && there ==> {
                &&& store.nodes[place.push(name)] == Node::Directory ==> opened == Ok::<
                    Kind,
                    StoreError,
                >(Kind::Directory)
                &&& store.nodes[place.push(name)] == Node::File(bytes) ==> opened == Ok::<
                    Kind,
                    StoreError,
                >(Kind::File)
            }
        }),
        store.is_directory(place) && (store.takes)(name) ==> store.with(
            place.push(name),
            Node::File(bytes),
        ).open_child(place, name) == Ok::<Kind, StoreError>(Kind::File),
{
    assert(place.push(name).len() != place.len());
}

} // verus!
