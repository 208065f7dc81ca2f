//! The credential store: every row the engine reads or writes.
//!
//! The store is the library's model of persistence: plain vectors of rows,
//! looked up by id or by a unique secondary key. Lookups return the first
//! matching index, which is what the generic [`find_by`] spec function and
//! its lemmas pin down.

use vstd::prelude::*;

use crate::bytes::bytes_eq;
use crate::model::{OAuthApplication, OAuthCode, OAuthSession, Session, User};

verus! {

/// Index of the first element of `s` whose key equals `id`.
pub open spec fn find_by<T>(s: Seq<T>, key: spec_fn(T) -> Seq<u8>, id: Seq<u8>) -> Option<int>
    decreases s.len(),
{
    if s.len() == 0 {
        None
    } else if key(s[0]) == id {
        Some(0int)
    } else {
        match find_by(s.drop_first(), key, id) {
            None => None,
            Some(i) => Some(i + 1),
        }
    }
}

/// What [`find_by`] returns: the first match, or a guarantee that no
/// element matches.
pub proof fn lemma_find_by_properties<T>(s: Seq<T>, key: spec_fn(T) -> Seq<u8>, id: Seq<u8>)
    ensures
        match find_by(s, key, id) {
            Some(i) => {
                &&& 0 <= i < s.len()
                &&& key(s[i]) == id
                &&& forall|j: int| 0 <= j < i ==> key(#[trigger] s[j]) != id
            },
            None => forall|j: int| 0 <= j < s.len() ==> key(#[trigger] s[j]) != id,
        },
    decreases s.len(),
{
    if s.len() != 0 && key(s[0]) != id {
        lemma_find_by_properties(s.drop_first(), key, id);
        assert forall|j: int| 1 <= j < s.len() implies key(#[trigger] s[j]) == key(
            s.drop_first()[j - 1],
        ) by {
            assert(s.drop_first()[j - 1] == s[j]);
        }
    }
}

/// If the first `i` elements do not match, `find_by` on the whole sequence
/// is `find_by` on the tail starting at `i`, shifted by `i`.
pub proof fn lemma_find_by_skip<T>(s: Seq<T>, key: spec_fn(T) -> Seq<u8>, id: Seq<u8>, i: int)
    requires
        0 <= i <= s.len(),
        forall|j: int| 0 <= j < i ==> key(#[trigger] s[j]) != id,
    ensures
        find_by(s, key, id) == match find_by(s.skip(i), key, id) {
            None => None::<int>,
            Some(k) => Some(k + i),
        },
    decreases i,
{
    if i > 0 {
        assert forall|j: int| 0 <= j < i - 1 implies key(#[trigger] s.drop_first()[j]) != id by {
            assert(s.drop_first()[j] == s[j + 1]);
        }
        lemma_find_by_skip(s.drop_first(), key, id, i - 1);
        assert(s.drop_first().skip(i - 1) =~= s.skip(i));
    } else {
        assert(s.skip(0) =~= s);
    }
}

/// The key of each entity: its id, or a unique secondary key.
pub open spec fn user_id_key() -> spec_fn(User) -> Seq<u8> {
    |u: User| u.id@
}

pub open spec fn username_key() -> spec_fn(User) -> Seq<u8> {
    |u: User| u.username@
}

pub open spec fn email_key() -> spec_fn(User) -> Seq<u8> {
    |u: User| u.email@
}

pub open spec fn session_id_key() -> spec_fn(Session) -> Seq<u8> {
    |s: Session| s.id@
}

pub open spec fn app_id_key() -> spec_fn(OAuthApplication) -> Seq<u8> {
    |a: OAuthApplication| a.id@
}

pub open spec fn code_id_key() -> spec_fn(OAuthCode) -> Seq<u8> {
    |c: OAuthCode| c.id@
}

pub open spec fn grant_id_key() -> spec_fn(OAuthSession) -> Seq<u8> {
    |g: OAuthSession| g.id@
}

/// Everything the engine persists.
#[derive(Debug)]
pub struct Store {
    pub users: Vec<User>,
    pub sessions: Vec<Session>,
    pub oauth_apps: Vec<OAuthApplication>,
    pub oauth_codes: Vec<OAuthCode>,
    pub oauth_sessions: Vec<OAuthSession>,
}

impl Store {
    /// Every row is well-formed.
    pub open spec fn wf(self) -> bool {
        &&& forall|i: int| 0 <= i < self.users@.len() ==> (#[trigger] self.users@[i]).wf()
        &&& forall|i: int| 0 <= i < self.sessions@.len() ==> (#[trigger] self.sessions@[i]).wf()
        &&& forall|i: int|
            0 <= i < self.oauth_apps@.len() ==> (#[trigger] self.oauth_apps@[i]).wf()
        &&& forall|i: int|
            0 <= i < self.oauth_codes@.len() ==> (#[trigger] self.oauth_codes@[i]).wf()
        &&& forall|i: int|
            0 <= i < self.oauth_sessions@.len() ==> (#[trigger] self.oauth_sessions@[i]).wf()
    }

    /// An empty store.
    pub fn new() -> (r: Store)
        ensures
            r.wf(),
            r.users@.len() == 0,
            r.sessions@.len() == 0,
            r.oauth_apps@.len() == 0,
            r.oauth_codes@.len() == 0,
            r.oauth_sessions@.len() == 0,
    {
        Store {
            users: Vec::new(),
            sessions: Vec::new(),
            oauth_apps: Vec::new(),
            oauth_codes: Vec::new(),
            oauth_sessions: Vec::new(),
        }
    }

    /// First user whose username equals `name`.
    pub fn user_idx_by_username(&self, name: &Vec<u8>) -> (r: Option<usize>)
        ensures
            r matches Some(i) ==> find_by(self.users@, username_key(), name@) == Some(i as int),
            r is None ==> find_by(self.users@, username_key(), name@) is None,
    {
        let n = self.users.len();
        let mut i: usize = 0;
        while i < n
            invariant
                n == self.users@.len(),
                0 <= i <= n,
                forall|j: int| 0 <= j < i ==> username_key()(#[trigger] self.users@[j]) != name@,
            decreases n - i,
        {
            if bytes_eq(&self.users[i].username, name) {
                proof {
                    lemma_find_by_skip(self.users@, username_key(), name@, i as int);
                    assert(self.users@.skip(i as int)[0] == self.users@[i as int]);
                }
                return Some(i);
            }
            i += 1;
        }
        proof {
            lemma_find_by_skip(self.users@, username_key(), name@, n as int);
        }
        None
    }

    /// First user whose email equals `email`.
    pub fn user_idx_by_email(&self, email: &Vec<u8>) -> (r: Option<usize>)
        ensures
            r matches Some(i) ==> find_by(self.users@, email_key(), email@) == Some(i as int),
            r is None ==> find_by(self.users@, email_key(), email@) is None,
    {
        let n = self.users.len();
        let mut i: usize = 0;
        while i < n
            invariant
                n == self.users@.len(),
                0 <= i <= n,
                forall|j: int| 0 <= j < i ==> email_key()(#[trigger] self.users@[j]) != email@,
            decreases n - i,
        {
            if bytes_eq(&self.users[i].email, email) {
                proof {
                    lemma_find_by_skip(self.users@, email_key(), email@, i as int);
                    assert(self.users@.skip(i as int)[0] == self.users@[i as int]);
                }
                return Some(i);
            }
            i += 1;
        }
        proof {
            lemma_find_by_skip(self.users@, email_key(), email@, n as int);
        }
        None
    }

    /// First user whose id equals `id`.
    pub fn user_idx_by_id(&self, id: &Vec<u8>) -> (r: Option<usize>)
        ensures
            r matches Some(i) ==> find_by(self.users@, user_id_key(), id@) == Some(i as int),
            r is None ==> find_by(self.users@, user_id_key(), id@) is None,
    {
        let n = self.users.len();
        let mut i: usize = 0;
        while i < n
            invariant
                n == self.users@.len(),
                0 <= i <= n,
                forall|j: int| 0 <= j < i ==> user_id_key()(#[trigger] self.users@[j]) != id@,
            decreases n - i,
        {
            if bytes_eq(&self.users[i].id, id) {
                proof {
                    lemma_find_by_skip(self.users@, user_id_key(), id@, i as int);
                    assert(self.users@.skip(i as int)[0] == self.users@[i as int]);
                }
                return Some(i);
            }
            i += 1;
        }
        proof {
            lemma_find_by_skip(self.users@, user_id_key(), id@, n as int);
        }
        None
    }

    /// First session whose id equals `id`.
    pub fn session_idx_by_id(&self, id: &Vec<u8>) -> (r: Option<usize>)
        ensures
            r matches Some(i) ==> find_by(self.sessions@, session_id_key(), id@) == Some(
                i as int,
            ),
            r is None ==> find_by(self.sessions@, session_id_key(), id@) is None,
    {
        let n = self.sessions.len();
        let mut i: usize = 0;
        while i < n
            invariant
                n == self.sessions@.len(),
                0 <= i <= n,
                forall|j: int|
                    0 <= j < i ==> session_id_key()(#[trigger] self.sessions@[j]) != id@,
            decreases n - i,
        {
            if bytes_eq(&self.sessions[i].id, id) {
                proof {
                    lemma_find_by_skip(self.sessions@, session_id_key(), id@, i as int);
                    assert(self.sessions@.skip(i as int)[0] == self.sessions@[i as int]);
                }
                return Some(i);
            }
            i += 1;
        }
        proof {
            lemma_find_by_skip(self.sessions@, session_id_key(), id@, n as int);
        }
        None
    }

    /// First application whose id equals `id`.
    pub fn app_idx_by_id(&self, id: &Vec<u8>) -> (r: Option<usize>)
        ensures
            r matches Some(i) ==> find_by(self.oauth_apps@, app_id_key(), id@) == Some(i as int),
            r is None ==> find_by(self.oauth_apps@, app_id_key(), id@) is None,
    {
        let n = self.oauth_apps.len();
        let mut i: usize = 0;
        while i < n
            invariant
                n == self.oauth_apps@.len(),
                0 <= i <= n,
                forall|j: int| 0 <= j < i ==> app_id_key()(#[trigger] self.oauth_apps@[j]) != id@,
            decreases n - i,
        {
            if bytes_eq(&self.oauth_apps[i].id, id) {
                proof {
                    lemma_find_by_skip(self.oauth_apps@, app_id_key(), id@, i as int);
                    assert(self.oauth_apps@.skip(i as int)[0] == self.oauth_apps@[i as int]);
                }
                return Some(i);
            }
            i += 1;
        }
        proof {
            lemma_find_by_skip(self.oauth_apps@, app_id_key(), id@, n as int);
        }
        None
    }

    /// First code whose id equals `id`.
    pub fn code_idx_by_id(&self, id: &Vec<u8>) -> (r: Option<usize>)
        ensures
            r matches Some(i) ==> find_by(self.oauth_codes@, code_id_key(), id@) == Some(
                i as int,
            ),
            r is None ==> find_by(self.oauth_codes@, code_id_key(), id@) is None,
    {
        let n = self.oauth_codes.len();
        let mut i: usize = 0;
        while i < n
            invariant
                n == self.oauth_codes@.len(),
                0 <= i <= n,
                forall|j: int|
                    0 <= j < i ==> code_id_key()(#[trigger] self.oauth_codes@[j]) != id@,
            decreases n - i,
        {
            if bytes_eq(&self.oauth_codes[i].id, id) {
                proof {
                    lemma_find_by_skip(self.oauth_codes@, code_id_key(), id@, i as int);
                    assert(self.oauth_codes@.skip(i as int)[0] == self.oauth_codes@[i as int]);
                }
                return Some(i);
            }
            i += 1;
        }
        proof {
            lemma_find_by_skip(self.oauth_codes@, code_id_key(), id@, n as int);
        }
        None
    }

    /// First access grant whose id equals `id`.
    pub fn grant_idx_by_id(&self, id: &Vec<u8>) -> (r: Option<usize>)
        ensures
            r matches Some(i) ==> find_by(self.oauth_sessions@, grant_id_key(), id@) == Some(
                i as int,
            ),
            r is None ==> find_by(self.oauth_sessions@, grant_id_key(), id@) is None,
    {
        let n = self.oauth_sessions.len();
        let mut i: usize = 0;
        while i < n
            invariant
                n == self.oauth_sessions@.len(),
                0 <= i <= n,
                forall|j: int|
                    0 <= j < i ==> grant_id_key()(#[trigger] self.oauth_sessions@[j]) != id@,
            decreases n - i,
        {
            if bytes_eq(&self.oauth_sessions[i].id, id) {
                proof {
                    lemma_find_by_skip(self.oauth_sessions@, grant_id_key(), id@, i as int);
                    let k = i as int;
                    assert(self.oauth_sessions@.skip(k)[0] == self.oauth_sessions@[k]);
                }
                return Some(i);
            }
            i += 1;
        }
        proof {
            lemma_find_by_skip(self.oauth_sessions@, grant_id_key(), id@, n as int);
        }
        None
    }
}

} // verus!
