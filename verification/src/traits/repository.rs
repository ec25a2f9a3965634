//! A repository trait with an in-memory implementation and a scripted test
//! double, and a service that depends only on the trait.
use std::collections::HashMap;
use vstd::prelude::*;

verus! {

broadcast use vstd::std_specs::hash::group_hash_axioms;

/// A stored user.
#[derive(Debug)]
pub struct RepoUser {
    pub id: u64,
    pub name: String,
}

impl Clone for RepoUser {
    fn clone(&self) -> (r: Self)
        ensures
            r == *self,
    {
        RepoUser { id: self.id, name: self.name.clone() }
    }
}

/// Why a repository could not answer.
#[derive(Debug, Clone, Copy, PartialEq, Eq, Structural)]
pub enum RepoError {
    NotFound,
}

/// Storage of users by id.
pub trait UserRepo {
    /// What `find` answers for `id` in this state.
    spec fn lookup(&self, id: u64) -> Result<RepoUser, RepoError>;

    fn find(&self, id: u64) -> (r: Result<RepoUser, RepoError>)
        ensures
            r == self.lookup(id),
    ;

    fn save(&mut self, user: RepoUser) -> (r: Result<(), RepoError>);
}

/// The answer of a map of users for `id`: the user stored under it, or
/// `NotFound`.
pub open spec fn found_in(m: Map<u64, RepoUser>, id: u64) -> Result<RepoUser, RepoError> {
    if m.contains_key(id) {
        Ok(m[id])
    } else {
        Err(RepoError::NotFound)
    }
}

/// A repository that keeps its users in a hash map.
pub struct MemoryRepo {
    data: HashMap<u64, RepoUser>,
}

impl View for MemoryRepo {
    type V = Map<u64, RepoUser>;

    closed spec fn view(&self) -> Map<u64, RepoUser> {
        self.data@
    }
}

impl MemoryRepo {
    pub fn new() -> (r: Self)
        ensures
            r@ == Map::<u64, RepoUser>::empty(),
    {
        MemoryRepo { data: HashMap::new() }
    }
}

impl UserRepo for MemoryRepo {
    open spec fn lookup(&self, id: u64) -> Result<RepoUser, RepoError> {
        found_in(self@, id)
    }

    fn find(&self, id: u64) -> (r: Result<RepoUser, RepoError>) {
        match self.data.get(&id) {
            Some(u) => Ok(u.clone()),
            None => Err(RepoError::NotFound),
        }
    }

    /// Stores `user` under its id, replacing any earlier user with that id.
    fn save(&mut self, user: RepoUser) -> (r: Result<(), RepoError>)
        ensures
            r is Ok,
            final(self)@ == old(self)@.insert(user.id, user),
    {
        let id = user.id;
        self.data.insert(id, user);
        Ok(())
    }
}

/// A test double: `find` answers what was scripted with `when_find`, and
/// `save` only records its argument.
pub struct MockRepo {
    responses: HashMap<u64, Result<RepoUser, RepoError>>,
    save_calls: Vec<RepoUser>,
}

impl MockRepo {
    /// The scripted answers by id.
    pub closed spec fn scripted(&self) -> Map<u64, Result<RepoUser, RepoError>> {
        self.responses@
    }

    /// The users handed to `save`, in order.
    pub closed spec fn saved(&self) -> Seq<RepoUser> {
        self.save_calls@
    }

    pub fn new() -> (r: Self)
        ensures
            r.scripted() == Map::<u64, Result<RepoUser, RepoError>>::empty(),
            r.saved() == Seq::<RepoUser>::empty(),
    {
        MockRepo { responses: HashMap::new(), save_calls: Vec::new() }
    }

    /// Scripts the answer of `find(id)`.
    pub fn when_find(&mut self, id: u64, result: Result<RepoUser, RepoError>)
        ensures
            final(self).scripted() == old(self).scripted().insert(id, result),
            final(self).saved() == old(self).saved(),
    {
        self.responses.insert(id, result);
    }

    /// How many times `save` was called.
    pub fn save_count(&self) -> (r: usize)
        ensures
            r == self.saved().len(),
    {
        self.save_calls.len()
    }
}

impl UserRepo for MockRepo {
    /// The scripted answer, `NotFound` where none was scripted.
    open spec fn lookup(&self, id: u64) -> Result<RepoUser, RepoError> {
        if self.scripted().contains_key(id) {
            self.scripted()[id]
        } else {
            Err(RepoError::NotFound)
        }
    }

    fn find(&self, id: u64) -> (r: Result<RepoUser, RepoError>) {
        match self.responses.get(&id) {
            Some(Ok(u)) => Ok(u.clone()),
            Some(Err(e)) => Err(*e),
            None => Err(RepoError::NotFound),
        }
    }

    fn save(&mut self, user: RepoUser) -> (r: Result<(), RepoError>)
        ensures
            r is Ok,
            final(self).saved() == old(self).saved().push(user),
            final(self).scripted() == old(self).scripted(),
    {
        self.save_calls.push(user);
        Ok(())
    }
}

/// A service that reads users through any repository.
pub struct UserService<R: UserRepo> {
    pub repo: R,
}

impl<R: UserRepo> UserService<R> {
    pub fn new(repo: R) -> (s: Self)
        ensures
            s.repo == repo,
    {
        UserService { repo }
    }

    /// The name of the user with `id`, or the repository's error.
    pub fn get_name(&self, id: u64) -> (r: Result<String, RepoError>)
        ensures
            match self.repo.lookup(id) {
                Ok(u) => r == Ok::<String, RepoError>(u.name),
                Err(e) => r == Err::<String, RepoError>(e),
            },
    {
        match self.repo.find(id) {
            Ok(user) => Ok(user.name),
            Err(e) => Err(e),
        }
    }
}

/// After `save(user)` on an in-memory repository, `find` answers `user` for
/// its id and what it answered before for every other id.
pub proof fn law_find_after_save(before: Map<u64, RepoUser>, user: RepoUser, id: u64)
    ensures
        found_in(before.insert(user.id, user), id) == (if id == user.id {
            Ok(user)
        } else {
            found_in(before, id)
        }),
{
}

} // verus!
