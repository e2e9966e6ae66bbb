//! Which sessions run on a node: at most one of each kind for each key.

use crate::error::Error;
use crate::service::ServiceTask;
use crate::ServerKeyId;
use vstd::prelude::*;

verus! {

/// What a session does. There is one kind for each task of the service.
#[derive(Clone, Copy, Debug, PartialEq, Eq, Structural)]
pub enum SessionKind {
    /// Generates a server key.
    ServerKeyGeneration,
    /// Retrieves the public portion of a server key.
    ServerKeyRetrieval,
    /// Generates a document key and stores it.
    DocumentKeyGeneration,
    /// Stores a document key that the author has generated.
    DocumentKeyStore,
    /// Restores a document key on the key servers.
    DocumentKeyRetrieval,
    /// Restores the shadow of a document key, which the requester decrypts.
    DocumentKeyShadowRetrieval,
    /// Signs a message with Schnorr's scheme.
    SchnorrSigning,
    /// Signs a message with ECDSA.
    EcdsaSigning,
    /// Changes the set of key servers.
    ServersSetChange,
}

/// What names a session: its kind and the key that it works on. A change of
/// the set of key servers works on all keys, and has no key of its own.
#[derive(Clone, Copy, Debug, PartialEq, Eq)]
pub struct SessionId {
    /// The key that the session works on.
    pub key_id: Option<ServerKeyId>,
    /// What the session does.
    pub kind: SessionKind,
}

/// How a request has been admitted.
#[derive(Clone, Copy, Debug, PartialEq, Eq, Structural)]
pub enum Admission {
    /// No such session was running: one has been started for the request.
    Started,
    /// Such a session is running already: the request waits for its result.
    Attached,
}

/// The sessions that are running on a node.
#[derive(Debug)]
pub struct SessionCoordinator {
    sessions: Vec<SessionId>,
}

impl SessionKind {
    /// Whether sessions of this kind change what the key servers hold:
    /// generating, storing and migrating do, restoring and signing do not.
    pub open spec fn mutating(self) -> bool {
        match self {
            SessionKind::ServerKeyGeneration => true,
            SessionKind::DocumentKeyGeneration => true,
            SessionKind::DocumentKeyStore => true,
            SessionKind::ServersSetChange => true,
            _ => false,
        }
    }

    /// Whether sessions of this kind change what the key servers hold.
    pub fn is_mutating(&self) -> (r: bool)
        ensures
            r == self.mutating(),
    {
        match self {
            SessionKind::ServerKeyGeneration => true,
            SessionKind::DocumentKeyGeneration => true,
            SessionKind::DocumentKeyStore => true,
            SessionKind::ServersSetChange => true,
            _ => false,
        }
    }
}

impl SessionId {
    /// Whether the two name the same session.
    pub fn same(&self, other: &SessionId) -> (r: bool)
        ensures
            r == (*self == *other),
    {
        if self.kind != other.kind {
            return false;
        }
        match (&self.key_id, &other.key_id) {
            (None, None) => true,
            (Some(a), Some(b)) => {
                proof {
                    a.lemma_same_bytes(*b);
                }
                *a == *b
            },
            _ => false,
        }
    }
}

impl ServiceTask {
    /// The session that the task is carried out by.
    pub open spec fn spec_session(&self) -> SessionId {
        match *self {
            ServiceTask::GenerateServerKey(key_id, _, _) => SessionId {
                key_id: Some(key_id),
                kind: SessionKind::ServerKeyGeneration,
            },
            ServiceTask::RetrieveServerKey(key_id, _) => SessionId {
                key_id: Some(key_id),
                kind: SessionKind::ServerKeyRetrieval,
            },
            ServiceTask::GenerateDocumentKey(key_id, _, _) => SessionId {
                key_id: Some(key_id),
                kind: SessionKind::DocumentKeyGeneration,
            },
            ServiceTask::StoreDocumentKey(key_id, _, _, _) => SessionId {
                key_id: Some(key_id),
                kind: SessionKind::DocumentKeyStore,
            },
            ServiceTask::RetrieveDocumentKey(key_id, _) => SessionId {
                key_id: Some(key_id),
                kind: SessionKind::DocumentKeyRetrieval,
            },
            ServiceTask::RetrieveShadowDocumentKey(key_id, _) => SessionId {
                key_id: Some(key_id),
                kind: SessionKind::DocumentKeyShadowRetrieval,
            },
            ServiceTask::SchnorrSignMessage(key_id, _, _) => SessionId {
                key_id: Some(key_id),
                kind: SessionKind::SchnorrSigning,
            },
            ServiceTask::EcdsaSignMessage(key_id, _, _) => SessionId {
                key_id: Some(key_id),
                kind: SessionKind::EcdsaSigning,
            },
            ServiceTask::ChangeServersSet(_, _, _) => SessionId {
                key_id: None,
                kind: SessionKind::ServersSetChange,
            },
        }
    }

    /// The session that the task is carried out by: its kind, and the key
    /// that the task names.
    pub fn session(&self) -> (r: SessionId)
        ensures
            r == self.spec_session(),
    {
        match self {
            ServiceTask::GenerateServerKey(key_id, _, _) => SessionId {
                key_id: Some(*key_id),
                kind: SessionKind::ServerKeyGeneration,
            },
            ServiceTask::RetrieveServerKey(key_id, _) => SessionId {
                key_id: Some(*key_id),
                kind: SessionKind::ServerKeyRetrieval,
            },
            ServiceTask::GenerateDocumentKey(key_id, _, _) => SessionId {
                key_id: Some(*key_id),
                kind: SessionKind::DocumentKeyGeneration,
            },
            ServiceTask::StoreDocumentKey(key_id, _, _, _) => SessionId {
                key_id: Some(*key_id),
                kind: SessionKind::DocumentKeyStore,
            },
            ServiceTask::RetrieveDocumentKey(key_id, _) => SessionId {
                key_id: Some(*key_id),
                kind: SessionKind::DocumentKeyRetrieval,
            },
            ServiceTask::RetrieveShadowDocumentKey(key_id, _) => SessionId {
                key_id: Some(*key_id),
                kind: SessionKind::DocumentKeyShadowRetrieval,
            },
            ServiceTask::SchnorrSignMessage(key_id, _, _) => SessionId {
                key_id: Some(*key_id),
                kind: SessionKind::SchnorrSigning,
            },
            ServiceTask::EcdsaSignMessage(key_id, _, _) => SessionId {
                key_id: Some(*key_id),
                kind: SessionKind::EcdsaSigning,
            },
            ServiceTask::ChangeServersSet(_, _, _) => SessionId {
                key_id: None,
                kind: SessionKind::ServersSetChange,
            },
        }
    }
}

/// How a request for the session `id` is admitted while the sessions
/// `running` run, or the error that it meets. A session that is not running
/// is started. To one that is running, a request that only reads attaches
/// itself; a request that changes something is refused.
pub open spec fn admission(running: Set<SessionId>, id: SessionId) -> Result<Admission, Error> {
    if !running.contains(id) {
        Ok(Admission::Started)
    } else if id.kind.mutating() {
        Err(Error::SessionAlreadyActive)
    } else {
        Ok(Admission::Attached)
    }
}

impl View for SessionCoordinator {
    type V = Set<SessionId>;

    /// The sessions that are running.
    closed spec fn view(&self) -> Set<SessionId> {
        self.sessions@.to_set()
    }
}

impl SessionCoordinator {
    /// No session is listed twice.
    #[verifier::type_invariant]
    pub closed spec fn wf(&self) -> bool {
        self.sessions@.no_duplicates()
    }

    /// A coordinator on which no session runs.
    pub fn new() -> (r: Self)
        ensures
            r@ == Set::<SessionId>::empty(),
    {
        let r = SessionCoordinator { sessions: Vec::new() };
        assert(r@ =~= Set::<SessionId>::empty());
        r
    }

    /// The place of the session in the list, if it is running.
    fn find(&self, id: &SessionId) -> (r: Option<usize>)
        ensures
            match r {
                Some(i) => i < self.sessions@.len() && self.sessions@[i as int] == *id,
                None => !self@.contains(*id),
            },
    {
        let mut i: usize = 0;
        while i < self.sessions.len()
            invariant
                i <= self.sessions@.len(),
                forall|j: int| 0 <= j < i ==> self.sessions@[j] != *id,
            decreases self.sessions@.len() - i,
        {
            if self.sessions[i].same(id) {
                return Some(i);
            }
            i += 1;
        }
        None
    }

    /// Whether the session is running.
    pub fn is_active(&self, id: &SessionId) -> (r: bool)
        ensures
            r == self@.contains(*id),
    {
        match self.find(id) {
            Some(i) => {
                assert(self.sessions@.contains(*id));
                true
            },
            None => false,
        }
    }

    /// Admits a request for the session: starts the session, attaches the
    /// request to the running one, or refuses it.
    pub fn enter(&mut self, id: SessionId) -> (r: Result<Admission, Error>)
        ensures
            r == admission(old(self)@, id),
            final(self)@ == (if old(self)@.contains(id) {
                old(self)@
            } else {
                old(self)@.insert(id)
            }),
    {
        proof {
            use_type_invariant(&*self);
        }
        match self.find(&id) {
            Some(i) => {
                assert(self.sessions@.contains(id));
                if id.kind.is_mutating() {
                    Err(Error::SessionAlreadyActive)
                } else {
                    Ok(Admission::Attached)
                }
            },
            None => {
                let ghost before = self.sessions@;
                let mut sessions: Vec<SessionId> = Vec::new();
                core::mem::swap(&mut self.sessions, &mut sessions);
                sessions.push(id);
                proof {
                    assert(!before.contains(id));
                    assert(sessions@ =~= before.push(id));
                    assert(sessions@.no_duplicates()) by {
                        assert forall|a: int, b: int|
                            0 <= a < sessions@.len() && 0 <= b < sessions@.len() && a
                                != b implies sessions@[a] != sessions@[b] by {
                            if a < before.len() {
                                assert(before.contains(sessions@[a]));
                            }
                            if b < before.len() {
                                assert(before.contains(sessions@[b]));
                            }
                        }
                    }
                    assert forall|s: SessionId| sessions@.to_set().contains(s) <==> before.to_set().insert(
                        id,
                    ).contains(s) by {
                        if sessions@.to_set().contains(s) {
                            let j = choose|j: int| 0 <= j < sessions@.len() && sessions@[j] == s;
                            if j < before.len() {
                                assert(before.contains(s));
                            }
                        }
                        if before.contains(s) {
                            let j = choose|j: int| 0 <= j < before.len() && before[j] == s;
                            assert(sessions@[j] == s);
                        }
                        if s == id {
                            assert(sessions@[before.len() as int] == s);
                        }
                    }
                    assert(sessions@.to_set() =~= before.to_set().insert(id));
                }
                self.sessions = sessions;
                Ok(Admission::Started)
            },
        }
    }

    /// Takes a session off the list when it has ended. Returns whether it
    /// was running.
    pub fn complete(&mut self, id: &SessionId) -> (r: bool)
        ensures
            r == old(self)@.contains(*id),
            final(self)@ == old(self)@.remove(*id),
    {
        proof {
            use_type_invariant(&*self);
        }
        match self.find(id) {
            Some(i) => {
                let ghost before = self.sessions@;
                let mut sessions: Vec<SessionId> = Vec::new();
                core::mem::swap(&mut self.sessions, &mut sessions);
                sessions.remove(i);
                proof {
                    assert(before.contains(*id));
                    assert(sessions@ =~= before.remove(i as int));
                    assert(sessions@.no_duplicates()) by {
                        assert forall|a: int, b: int|
                            0 <= a < sessions@.len() && 0 <= b < sessions@.len() && a
                                != b implies sessions@[a] != sessions@[b] by {
                            let a0 = if a < i { a } else { a + 1 };
                            let b0 = if b < i { b } else { b + 1 };
                            assert(before[a0] != before[b0]);
                        }
                    }
                    assert forall|s: SessionId| sessions@.to_set().contains(s) <==> before.to_set().remove(
                        *id,
                    ).contains(s) by {
                        if sessions@.to_set().contains(s) {
                            let j = choose|j: int| 0 <= j < sessions@.len() && sessions@[j] == s;
                            let j0 = if j < i { j } else { j + 1 };
                            assert(before[j0] == s);
                            assert(before.contains(s));
                            assert(before[j0] != before[i as int]);
                        }
                        if before.contains(s) && s != *id {
                            let j = choose|j: int| 0 <= j < before.len() && before[j] == s;
                            let j1 = if j < i { j } else { j - 1 };
                            assert(sessions@[j1] == s);
                        }
                    }
                    assert(sessions@.to_set() =~= before.to_set().remove(*id));
                }
                self.sessions = sessions;
                true
            },
            None => {
                assert(self@.remove(*id) =~= self@);
                false
            },
        }
    }
}

impl Default for SessionCoordinator {
    /// A coordinator on which no session runs.
    fn default() -> (r: Self)
        ensures
            r@ == Set::<SessionId>::empty(),
    {
        SessionCoordinator::new()
    }
}

} // verus!
