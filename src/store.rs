use vstd::prelude::*;

use vstd::string::StringSliceAdditionalSpecFns;

use crate::error::StoreError;

verus! {

/// The plain part of a credential record: its identifier and the last
/// signature counter accepted for it.
pub struct StoredCredential {
    pub cred_id: Vec<u8>,
    pub counter: u32,
}

impl View for StoredCredential {
    type V = (Seq<u8>, u32);

    open spec fn view(&self) -> (Seq<u8>, u32) {
        (self.cred_id@, self.counter)
    }
}

/// One user: a unique name, a unique identifier, and the credentials it
/// owns. `materials[i]` is the verifier's material for `credentials[i]`.
pub struct UserRecord<M> {
    pub username: Vec<u8>,
    pub user_id: u128,
    pub credentials: Vec<StoredCredential>,
    pub materials: Vec<M>,
}

/// What a user record means: name, identifier, credential keys with
/// counters, and the verifier's material for each.
pub ghost struct UserModel<M> {
    pub username: Seq<u8>,
    pub user_id: u128,
    pub keys: Seq<(Seq<u8>, u32)>,
    pub materials: Seq<M>,
}

impl<M> View for UserRecord<M> {
    type V = UserModel<M>;

    open spec fn view(&self) -> UserModel<M> {
        UserModel {
            username: self.username@,
            user_id: self.user_id,
            keys: self.credentials@.map_values(|c: StoredCredential| c@),
            materials: self.materials@,
        }
    }
}

pub open spec fn name_taken<M>(users: Seq<UserModel<M>>, name: Seq<u8>) -> bool {
    exists|i: int| 0 <= i < users.len() && #[trigger] users[i].username == name
}

pub open spec fn id_taken<M>(users: Seq<UserModel<M>>, id: u128) -> bool {
    exists|i: int| 0 <= i < users.len() && #[trigger] users[i].user_id == id
}

/// The position of the user with identifier `id` (meaningful when `id_taken`).
pub open spec fn index_of_id<M>(users: Seq<UserModel<M>>, id: u128) -> int {
    choose|i: int| 0 <= i < users.len() && #[trigger] users[i].user_id == id
}

/// The position of the user named `name` (meaningful when `name_taken`).
pub open spec fn index_of_name<M>(users: Seq<UserModel<M>>, name: Seq<u8>) -> int {
    choose|i: int| 0 <= i < users.len() && #[trigger] users[i].username == name
}

/// The credential keys of user `id`; empty for an unknown user.
pub open spec fn keys_of<M>(users: Seq<UserModel<M>>, id: u128) -> Seq<(Seq<u8>, u32)> {
    if id_taken(users, id) {
        users[index_of_id(users, id)].keys
    } else {
        Seq::empty()
    }
}

/// Names and identifiers are unique; each credential has its material.
pub open spec fn users_wf<M>(users: Seq<UserModel<M>>) -> bool {
    &&& forall|i: int, j: int|
        0 <= i < users.len() && 0 <= j < users.len() && i != j ==> (#[trigger] users[i]).username
            != (#[trigger] users[j]).username && users[i].user_id != users[j].user_id
    &&& forall|i: int|
        0 <= i < users.len() ==> (#[trigger] users[i]).keys.len() == users[i].materials.len()
}

/// A user model with one more credential appended.
pub open spec fn with_credential<M>(u: UserModel<M>, key: (Seq<u8>, u32), material: M) -> UserModel<M> {
    UserModel { keys: u.keys.push(key), materials: u.materials.push(material), ..u }
}

/// The position of the first key whose identifier is `cred_id`, if any.
pub open spec fn first_key_index(keys: Seq<(Seq<u8>, u32)>, cred_id: Seq<u8>) -> Option<int> {
    if exists|j: int| 0 <= j < keys.len() && (#[trigger] keys[j]).0 == cred_id {
        Some(
            choose|j: int|
                0 <= j < keys.len() && (#[trigger] keys[j]).0 == cred_id && forall|k: int|
                    0 <= k < j ==> (#[trigger] keys[k]).0 != cred_id,
        )
    } else {
        None
    }
}

pub proof fn lemma_index_of_name<M>(users: Seq<UserModel<M>>, name: Seq<u8>, i: int)
    requires
        users_wf(users),
        0 <= i < users.len(),
        users[i].username == name,
    ensures
        name_taken(users, name),
        index_of_name(users, name) == i,
{
    let j = index_of_name(users, name);
    if j != i {
        assert(users[i].username != users[j].username);
    }
}

pub proof fn lemma_index_of_id<M>(users: Seq<UserModel<M>>, id: u128, i: int)
    requires
        users_wf(users),
        0 <= i < users.len(),
        users[i].user_id == id,
    ensures
        id_taken(users, id),
        index_of_id(users, id) == i,
{
    let j = index_of_id(users, id);
    if j != i {
        assert(users[i].user_id != users[j].user_id);
    }
}

/// A user model whose key at position `j` now carries counter `c`.
pub open spec fn with_counter<M>(u: UserModel<M>, j: int, c: u32) -> UserModel<M> {
    UserModel { keys: u.keys.update(j, (u.keys[j].0, c)), ..u }
}

/// The verifier's material for the credentials of user `id`; empty for an unknown user.
pub open spec fn materials_of<M>(users: Seq<UserModel<M>>, id: u128) -> Seq<M> {
    if id_taken(users, id) {
        users[index_of_id(users, id)].materials
    } else {
        Seq::empty()
    }
}

proof fn lemma_first_key_index(keys: Seq<(Seq<u8>, u32)>, cred_id: Seq<u8>, j: int)
    requires
        0 <= j < keys.len(),
        keys[j].0 == cred_id,
        forall|k: int| 0 <= k < j ==> (#[trigger] keys[k]).0 != cred_id,
    ensures
        first_key_index(keys, cred_id) == Some(j),
{
    let c = choose|c: int|
        0 <= c < keys.len() && (#[trigger] keys[c]).0 == cred_id && forall|k: int|
            0 <= k < c ==> (#[trigger] keys[k]).0 != cred_id;
    assert(keys[j].0 == cred_id);
    if c < j {
        assert(keys[c].0 != cred_id);
    } else if c > j {
        assert(keys[j].0 != cred_id);
    }
}

/// Whether two byte strings are equal.
pub fn bytes_equal(a: &[u8], b: &[u8]) -> (r: bool)
    ensures
        r == (a@ == b@),
{
    if a.len() != b.len() {
        return false;
    }
    let mut i: usize = 0;
    while i < a.len()
        invariant
            a@.len() == b@.len(),
            0 <= i <= a@.len(),
            forall|k: int| 0 <= k < i ==> a@[k] == b@[k],
        decreases a@.len() - i,
    {
        if a[i] != b[i] {
            return false;
        }
        i = i + 1;
    }
    assert(a@ =~= b@);
    true
}

/// Copies a byte string into a vector.
pub fn bytes_to_vec(a: &[u8]) -> (r: Vec<u8>)
    ensures
        r@ == a@,
{
    let mut v: Vec<u8> = Vec::new();
    let mut i: usize = 0;
    while i < a.len()
        invariant
            0 <= i <= a@.len(),
            v@ == a@.subrange(0, i as int),
        decreases a@.len() - i,
    {
        v.push(a[i]);
        i = i + 1;
        assert(v@ =~= a@.subrange(0, i as int));
    }
    assert(a@.subrange(0, a@.len() as int) =~= a@);
    v
}

/// Per-user credential records, kept in memory.
pub struct CredentialStore<M> {
    users: Vec<UserRecord<M>>,
}

impl<M> View for CredentialStore<M> {
    type V = Seq<UserModel<M>>;

    closed spec fn view(&self) -> Seq<UserModel<M>> {
        self.users@.map_values(|u: UserRecord<M>| u@)
    }
}

impl<M> CredentialStore<M> {
    pub open spec fn wf(&self) -> bool {
        users_wf(self@)
    }

    /// An empty store.
    pub fn new() -> (r: Self)
        ensures
            r@ == Seq::<UserModel<M>>::empty(),
            r.wf(),
    {
        let r = CredentialStore { users: Vec::new() };
        assert(r@ =~= Seq::<UserModel<M>>::empty());
        r
    }

    /// The position of the user named `name`, if any.
    pub fn find_by_name(&self, name: &[u8]) -> (r: Option<usize>)
        requires
            self.wf(),
        ensures
            match r {
                Some(i) => i < self@.len() && self@[i as int].username == name@ && i as int
                    == index_of_name(self@, name@),
                None => !name_taken(self@, name@),
            },
    {
        let mut i: usize = 0;
        while i < self.users.len()
            invariant
                self.wf(),
                0 <= i <= self.users@.len(),
                self@.len() == self.users@.len(),
                forall|k: int| 0 <= k < i ==> (#[trigger] self@[k]).username != name@,
            decreases self.users@.len() - i,
        {
            if bytes_equal(self.users[i].username.as_slice(), name) {
                proof {
                    lemma_index_of_name(self@, name@, i as int);
                }
                return Some(i);
            }
            i = i + 1;
        }
        None
    }

    /// The position of the user with identifier `id`, if any.
    pub fn find_by_id(&self, id: u128) -> (r: Option<usize>)
        requires
            self.wf(),
        ensures
            match r {
                Some(i) => i < self@.len() && self@[i as int].user_id == id && i as int
                    == index_of_id(self@, id),
                None => !id_taken(self@, id),
            },
    {
        let mut i: usize = 0;
        while i < self.users.len()
            invariant
                self.wf(),
                0 <= i <= self.users@.len(),
                self@.len() == self.users@.len(),
                forall|k: int| 0 <= k < i ==> (#[trigger] self@[k]).user_id != id,
            decreases self.users@.len() - i,
        {
            if self.users[i].user_id == id {
                proof {
                    lemma_index_of_id(self@, id, i as int);
                }
                return Some(i);
            }
            i = i + 1;
        }
        None
    }
}


impl<M> CredentialStore<M> {
    /// Adds a user named `username` under the identifier `fresh_id`; fails
    /// with `AlreadyExists` when the name or the identifier is in use.
    pub fn register_user(&mut self, username: &str, fresh_id: u128) -> (r: Result<u128, StoreError>)
        requires
            old(self).wf(),
        ensures
            final(self).wf(),
            name_taken(old(self)@, username.spec_bytes()) || id_taken(old(self)@, fresh_id) ==> r
                == Err::<u128, StoreError>(StoreError::AlreadyExists) && final(self)@ == old(self)@,
            !(name_taken(old(self)@, username.spec_bytes()) || id_taken(old(self)@, fresh_id)) ==> r
                == Ok::<u128, StoreError>(fresh_id) && final(self)@ == old(self)@.push(
                UserModel {
                    username: username.spec_bytes(),
                    user_id: fresh_id,
                    keys: Seq::empty(),
                    materials: Seq::empty(),
                },
            ),
    {
        let name = username.as_bytes();
        if self.find_by_name(name).is_some() {
            return Err(StoreError::AlreadyExists);
        }
        if self.find_by_id(fresh_id).is_some() {
            return Err(StoreError::AlreadyExists);
        }
        let rec = UserRecord {
            username: bytes_to_vec(name),
            user_id: fresh_id,
            credentials: Vec::new(),
            materials: Vec::new(),
        };
        let ghost before = self@;
        self.users.push(rec);
        proof {
            assert(rec@.keys =~= Seq::<(Seq<u8>, u32)>::empty());
            assert(self@ =~= before.push(rec@));
            let users = self@;
            assert forall|i: int, j: int|
                0 <= i < users.len() && 0 <= j < users.len() && i != j implies (
                #[trigger] users[i]).username != (#[trigger] users[j]).username && users[i].user_id
                != users[j].user_id by {
                if i == before.len() as int {
                    assert(before[j].username != name@);
                    assert(before[j].user_id != fresh_id);
                } else if j == before.len() as int {
                    assert(before[i].username != name@);
                    assert(before[i].user_id != fresh_id);
                }
            }
        }
        Ok(fresh_id)
    }

    /// Appends a credential to user `user_id`; existing credentials are kept.
    pub fn add_credential(&mut self, user_id: u128, cred_id: Vec<u8>, counter: u32, material: M) -> (r:
        Result<(), StoreError>)
        requires
            old(self).wf(),
        ensures
            final(self).wf(),
            !id_taken(old(self)@, user_id) ==> r == Err::<(), StoreError>(StoreError::NotFound)
                && final(self)@ == old(self)@,
            id_taken(old(self)@, user_id) ==> r == Ok::<(), StoreError>(()) && final(self)@ == old(self)@.update(
                index_of_id(old(self)@, user_id),
                with_credential(
                    old(self)@[index_of_id(old(self)@, user_id)],
                    (cred_id@, counter),
                    material,
                ),
            ),
    {
        match self.find_by_id(user_id) {
            None => Err(StoreError::NotFound),
            Some(i) => {
                let ghost before = self@;
                let ghost key = (cred_id@, counter);
                let cred = StoredCredential { cred_id, counter };
                self.users[i].credentials.push(cred);
                self.users[i].materials.push(material);
                proof {
                    let u = self.users@[i as int];
                    assert(u@.keys =~= before[i as int].keys.push(key));
                    assert(u@.materials =~= before[i as int].materials.push(material));
                    assert(self@ =~= before.update(
                        i as int,
                        with_credential(before[i as int], key, material),
                    ));
                    let users = self@;
                    assert forall|a: int, b: int|
                        0 <= a < users.len() && 0 <= b < users.len() && a != b implies (
                        #[trigger] users[a]).username != (#[trigger] users[b]).username
                        && users[a].user_id != users[b].user_id by {
                        assert(before[a].username != before[b].username);
                    }
                    assert forall|a: int| 0 <= a < users.len() implies (
                    #[trigger] users[a]).keys.len() == users[a].materials.len() by {
                        assert(before[a].keys.len() == before[a].materials.len());
                    }
                }
                Ok(())
            },
        }
    }
}


impl<M> CredentialStore<M> {
    /// The position, within user `ui`, of the first credential named `cred_id`.
    pub fn find_credential(&self, ui: usize, cred_id: &[u8]) -> (r: Option<usize>)
        requires
            self.wf(),
            ui < self@.len(),
        ensures
            match r {
                Some(j) => j < self@[ui as int].keys.len() && self@[ui as int].keys[j as int].0
                    == cred_id@ && first_key_index(self@[ui as int].keys, cred_id@) == Some(
                    j as int,
                ),
                None => first_key_index(self@[ui as int].keys, cred_id@) is None,
            },
    {
        let creds = &self.users[ui].credentials;
        let ghost keys = self@[ui as int].keys;
        assert(self@[ui as int] == self.users@[ui as int]@);
        let mut j: usize = 0;
        while j < creds.len()
            invariant
                ui < self@.len(),
                keys == self@[ui as int].keys,
                0 <= j <= creds@.len(),
                keys == creds@.map_values(|c: StoredCredential| c@),
                forall|k: int| 0 <= k < j ==> (#[trigger] keys[k]).0 != cred_id@,
            decreases creds@.len() - j,
        {
            if bytes_equal(creds[j].cred_id.as_slice(), cred_id) {
                proof {
                    lemma_first_key_index(keys, cred_id@, j as int);
                }
                return Some(j);
            }
            j = j + 1;
        }
        assert(!exists|k: int| 0 <= k < keys.len() && (#[trigger] keys[k]).0 == cred_id@);
        None
    }

    /// Sets the counter of the first credential named `cred_id` of user
    /// `user_id`; fails with `NotFound` when the user or the credential is absent.
    pub fn update_counter(&mut self, user_id: u128, cred_id: &[u8], new_counter: u32) -> (r: Result<
        (),
        StoreError,
    >)
        requires
            old(self).wf(),
        ensures
            final(self).wf(),
            match first_key_index(keys_of(old(self)@, user_id), cred_id@) {
                None => r == Err::<(), StoreError>(StoreError::NotFound) && final(self)@ == old(self)@,
                Some(j) => r == Ok::<(), StoreError>(()) && final(self)@ == old(self)@.update(
                    index_of_id(old(self)@, user_id),
                    with_counter(old(self)@[index_of_id(old(self)@, user_id)], j, new_counter),
                ),
            },
    {
        match self.find_by_id(user_id) {
            None => Err(StoreError::NotFound),
            Some(i) => {
                match self.find_credential(i, cred_id) {
                    None => Err(StoreError::NotFound),
                    Some(j) => {
                        let ghost before = self@;
                        self.users[i].credentials[j].counter = new_counter;
                        proof {
                            let u = self.users@[i as int];
                            assert(u@.keys =~= before[i as int].keys.update(
                                j as int,
                                (before[i as int].keys[j as int].0, new_counter),
                            ));
                            assert(self@ =~= before.update(
                                i as int,
                                with_counter(before[i as int], j as int, new_counter),
                            ));
                            let users = self@;
                            assert forall|a: int, b: int|
                                0 <= a < users.len() && 0 <= b < users.len() && a != b implies (
                                #[trigger] users[a]).username != (#[trigger] users[b]).username
                                && users[a].user_id != users[b].user_id by {
                                assert(before[a].username != before[b].username);
                            }
                            assert forall|a: int| 0 <= a < users.len() implies (
                            #[trigger] users[a]).keys.len() == users[a].materials.len() by {
                                assert(before[a].keys.len() == before[a].materials.len());
                            }
                        }
                        Ok(())
                    },
                }
            },
        }
    }

    /// The credentials of user `user_id`; empty for an unknown user.
    pub fn list_credentials(&self, user_id: u128) -> (r: &[StoredCredential])
        requires
            self.wf(),
        ensures
            r@.map_values(|c: StoredCredential| c@) == keys_of(self@, user_id),
    {
        match self.find_by_id(user_id) {
            Some(i) => self.users[i].credentials.as_slice(),
            None => {
                let r: &[StoredCredential] = &[];
                assert(r@.map_values(|c: StoredCredential| c@) =~= Seq::<(Seq<u8>, u32)>::empty());
                r
            },
        }
    }

    /// The verifier's material for the credentials of user `user_id`, in
    /// the order of `list_credentials`.
    pub fn materials(&self, user_id: u128) -> (r: &[M])
        requires
            self.wf(),
        ensures
            r@ == materials_of(self@, user_id),
    {
        match self.find_by_id(user_id) {
            Some(i) => self.users[i].materials.as_slice(),
            None => {
                let r: &[M] = &[];
                assert(r@ =~= Seq::<M>::empty());
                r
            },
        }
    }

    /// The identifier of the user named `username`, if any.
    pub fn user_id_of(&self, username: &str) -> (r: Option<u128>)
        requires
            self.wf(),
        ensures
            match r {
                Some(id) => name_taken(self@, username.spec_bytes()) && id == self@[index_of_name(
                    self@,
                    username.spec_bytes(),
                )].user_id,
                None => !name_taken(self@, username.spec_bytes()),
            },
    {
        match self.find_by_name(username.as_bytes()) {
            Some(i) => Some(self.users[i].user_id),
            None => None,
        }
    }
}


impl<M> CredentialStore<M> {
    /// The counter of credential `j` of user `ui`.
    pub fn counter_at(&self, ui: usize, j: usize) -> (r: u32)
        requires
            ui < self@.len(),
            j < self@[ui as int].keys.len(),
        ensures
            r == self@[ui as int].keys[j as int].1,
    {
        assert(self@[ui as int] == self.users@[ui as int]@);
        self.users[ui].credentials[j].counter
    }
}

} // verus!
