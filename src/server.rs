use vstd::prelude::*;
use vstd::string::StringExecFns;
use crate::repos::SyncRepository;

verus! {

/// Why an edit of the repository list was refused.
#[derive(Clone, Copy, Debug, PartialEq, Eq, Structural)]
pub enum PropertyError {
    /// The field does not hold the value that the edit expected to replace.
    Mismatch,
    /// No field has this name.
    UnknownField,
    /// No repository has this index.
    NoSuchIndex,
}

/// A value with named fields that can be replaced, provided each still holds
/// the value that the caller saw.
pub trait PropertySetter<T>: Sized {
    /// `post` is what `set_property(name, value, expected)` makes of `pre`,
    /// with result `r`.
    spec fn set_property_spec(
        pre: Self,
        post: Self,
        name: Seq<char>,
        value: T,
        expected: T,
        r: Result<(), PropertyError>,
    ) -> bool;

    /// Replaces field `name` by `value` when it holds `expected`.
    fn set_property(&mut self, name: &str, value: T, expected: T) -> (r: Result<(), PropertyError>)
        ensures
            Self::set_property_spec(*old(self), *final(self), name@, value, expected, r),
    ;
}

impl PropertySetter<String> for SyncRepository {
    open spec fn set_property_spec(
        pre: SyncRepository,
        post: SyncRepository,
        name: Seq<char>,
        value: String,
        expected: String,
        r: Result<(), PropertyError>,
    ) -> bool {
        if name == "source"@ {
            if pre.source@ == expected@ {
                r == Ok::<(), PropertyError>(()) && post == SyncRepository { source: value, ..pre }
            } else {
                r == Err::<(), PropertyError>(PropertyError::Mismatch) && post == pre
            }
        } else if name == "mirror"@ {
            if pre.mirror@ == expected@ {
                r == Ok::<(), PropertyError>(()) && post == SyncRepository { mirror: value, ..pre }
            } else {
                r == Err::<(), PropertyError>(PropertyError::Mismatch) && post == pre
            }
        } else {
            r == Err::<(), PropertyError>(PropertyError::UnknownField) && post == pre
        }
    }

    fn set_property(&mut self, name: &str, value: String, expected: String) -> (r: Result<(), PropertyError>) {
        let field = String::from_str(name);
        if field == String::from_str("source") {
            if self.source != expected {
                return Err(PropertyError::Mismatch);
            }
            self.source = value;
        } else if field == String::from_str("mirror") {
            if self.mirror != expected {
                return Err(PropertyError::Mismatch);
            }
            self.mirror = value;
        } else {
            return Err(PropertyError::UnknownField);
        }
        Ok(())
    }
}

/// Edits field `name` of the repository at `index` (see `set_property`).
pub fn update_repo(
    repos: &mut Vec<SyncRepository>,
    index: usize,
    name: &str,
    value: String,
    expected: String,
) -> (r: Result<(), PropertyError>)
    ensures
        index >= old(repos)@.len() ==> r == Err::<(), PropertyError>(PropertyError::NoSuchIndex)
            && final(repos)@ == old(repos)@,
        index < old(repos)@.len() ==> final(repos)@.len() == old(repos)@.len() && (forall|k: int|
            0 <= k < old(repos)@.len() && k != index ==> final(repos)@[k] == old(repos)@[k])
            && <SyncRepository as PropertySetter<String>>::set_property_spec(
            old(repos)@[index as int],
            final(repos)@[index as int],
            name@,
            value,
            expected,
            r,
        ),
{
    if index >= repos.len() {
        return Err(PropertyError::NoSuchIndex);
    }
    let mut repo = repos.remove(index);
    let r = repo.set_property(name, value, expected);
    repos.insert(index, repo);
    r
}

/// Removes the repository at `index`; returns false, changing nothing, when
/// there is none.
pub fn remove_repo(repos: &mut Vec<SyncRepository>, index: usize) -> (removed: bool)
    ensures
        removed == (index < old(repos)@.len()),
        removed ==> final(repos)@ == old(repos)@.remove(index as int),
        !removed ==> final(repos)@ == old(repos)@,
{
    if index >= repos.len() {
        return false;
    }
    repos.remove(index);
    true
}

/// Appends a repository whose source and mirror are both empty, to be filled
/// in by later edits.
pub fn add_blank_repo(repos: &mut Vec<SyncRepository>)
    ensures
        final(repos)@.len() == old(repos)@.len() + 1,
        final(repos)@.drop_last() == old(repos)@,
        final(repos)@.last().source@.len() == 0,
        final(repos)@.last().mirror@.len() == 0,
{
    repos.push(SyncRepository { source: String::new(), mirror: String::new() });
    assert(repos@.drop_last() =~= old(repos)@);
}

/// The HTTP service that edits the repository list.
pub struct RepoMirrorConfigServer {}

impl RepoMirrorConfigServer {
    pub fn new() -> (r: RepoMirrorConfigServer)
        ensures
            r == (RepoMirrorConfigServer {}),
    {
        RepoMirrorConfigServer {}
    }
}

} // verus!
