//! The core state: admin credentials, registered apps and their sessions,
//! with every operation gated by a credential check so that tenants stay
//! isolated from each other's data.

use vstd::prelude::*;

use crate::error::Error;
use crate::json::{JsonValue, spec_get, clone_json};

verus! {

/// A tenant: one registered application with its server-generated credential.
#[derive(Debug)]
pub struct App {
    pub id: String,
    pub name: String,
    pub credential: String,
}

/// A JSON document scoped to exactly one app.
#[derive(Debug)]
pub struct Session {
    pub id: String,
    pub app_id: String,
    pub data: JsonValue,
}

/// The whole persistent state of the core: the bootstrap admin credentials,
/// the registered apps, and their sessions.
pub struct Context {
    pub admin_credentials: Vec<String>,
    pub apps: Vec<App>,
    pub sessions: Vec<Session>,
}

/// Whether `cred` matches one of the stored admin credentials.
pub open spec fn spec_is_admin(admins: Seq<String>, cred: Seq<char>) -> bool {
    exists|i: int| 0 <= i < admins.len() && admins[i]@ == cred
}

/// Whether `cred` is exactly the credential stored for the app `app_id`:
/// the check is scoped, a credential held for one app says nothing about
/// any other app's id.
pub open spec fn spec_app_authorized(apps: Seq<App>, app_id: Seq<char>, cred: Seq<char>) -> bool {
    exists|i: int| 0 <= i < apps.len() && apps[i].id@ == app_id && apps[i].credential@ == cred
}

/// The stored session with the given id, provided it belongs to `app_id`;
/// a session of another app is invisible, exactly as if it did not exist.
pub open spec fn spec_session_lookup(sessions: Seq<Session>, app_id: Seq<char>, sid: Seq<char>) -> Option<Session>
    decreases sessions.len(),
{
    if sessions.len() == 0 {
        None
    } else if sessions[0].id@ == sid && sessions[0].app_id@ == app_id {
        Some(sessions[0])
    } else {
        spec_session_lookup(sessions.subrange(1, sessions.len() as int), app_id, sid)
    }
}

/// Relies on uuid::Uuid::new_v4, rendered in its canonical text form: a
/// freshly generated random identifier. Nothing is promised of its value;
/// callers check it against what is stored.
#[verifier::external_body]
fn fresh_opaque_id() -> (r: String) {
    uuid::Uuid::new_v4().to_string()
}

/// The lookup never finds a session of another app: whatever it returns
/// carries exactly the id and the app that were asked for.
pub proof fn lemma_session_lookup_scoped(sessions: Seq<Session>, app_id: Seq<char>, sid: Seq<char>)
    ensures
        spec_session_lookup(sessions, app_id, sid) matches Some(st) ==>
            st.id@ == sid && st.app_id@ == app_id
            && exists|i: int| 0 <= i < sessions.len() && sessions[i] == st,
    decreases sessions.len(),
{
    if sessions.len() > 0 {
        if sessions[0].id@ == sid && sessions[0].app_id@ == app_id {
            let st = sessions[0];
            assert(0 <= 0 < sessions.len() && sessions[0] == st);
        } else {
            let rest = sessions.subrange(1, sessions.len() as int);
            lemma_session_lookup_scoped(rest, app_id, sid);
            if spec_session_lookup(sessions, app_id, sid) is Some {
                let st = spec_session_lookup(sessions, app_id, sid)->Some_0;
                let i = choose|i: int| 0 <= i < rest.len() && rest[i] == st;
                assert(sessions[i + 1] == st);
            }
        }
    }
}

/// The lookup finds a session exactly when one is stored under that id for
/// that app.
pub proof fn lemma_session_lookup_found_iff(sessions: Seq<Session>, app_id: Seq<char>, sid: Seq<char>)
    ensures
        (spec_session_lookup(sessions, app_id, sid) is Some) <==>
            exists|i: int| 0 <= i < sessions.len()
                && sessions[i].id@ == sid && sessions[i].app_id@ == app_id,
    decreases sessions.len(),
{
    if sessions.len() > 0 {
        if sessions[0].id@ == sid && sessions[0].app_id@ == app_id {
        } else {
            let rest = sessions.subrange(1, sessions.len() as int);
            lemma_session_lookup_found_iff(rest, app_id, sid);
            if spec_session_lookup(sessions, app_id, sid) is Some {
                let j = choose|j: int| 0 <= j < rest.len() && rest[j].id@ == sid && rest[j].app_id@ == app_id;
                assert(sessions[j + 1].id@ == sid && sessions[j + 1].app_id@ == app_id);
            } else {
                if exists|i: int| 0 <= i < sessions.len() && sessions[i].id@ == sid && sessions[i].app_id@ == app_id {
                    let i = choose|i: int| 0 <= i < sessions.len() && sessions[i].id@ == sid && sessions[i].app_id@ == app_id;
                    assert(rest[i - 1].id@ == sid && rest[i - 1].app_id@ == app_id);
                }
            }
        }
    }
}

/// With unique session ids, the scoped lookup finds exactly the stored
/// session that carries the id, provided the caller asks under its own app.
pub proof fn lemma_session_lookup_unique(sessions: Seq<Session>, i: int)
    requires
        forall|p: int, q: int| 0 <= p < q < sessions.len() ==> sessions[p].id@ != sessions[q].id@,
        0 <= i < sessions.len(),
    ensures
        spec_session_lookup(sessions, sessions[i].app_id@, sessions[i].id@) == Some(sessions[i]),
    decreases sessions.len(),
{
    if i == 0 {
    } else {
        assert(sessions[0].id@ != sessions[i].id@);
        let rest = sessions.subrange(1, sessions.len() as int);
        assert(forall|p: int, q: int| 0 <= p < q < rest.len() ==>
            #[trigger] rest[p].id@ != #[trigger] rest[q].id@) by {
            assert(forall|p: int, q: int| 0 <= p < q < rest.len() ==>
                rest[p] == sessions[p + 1] && rest[q] == sessions[q + 1]);
        }
        assert(rest[i - 1] == sessions[i]);
        lemma_session_lookup_unique(rest, i - 1);
    }
}

/// Round trip: a session just stored under an app, with an id fresh among
/// the stored ones, is exactly what a scoped lookup of that id then finds.
pub proof fn lemma_create_then_get(sessions: Seq<Session>, sess: Session)
    requires
        forall|p: int, q: int| 0 <= p < q < sessions.len() ==> sessions[p].id@ != sessions[q].id@,
        forall|i: int| 0 <= i < sessions.len() ==> #[trigger] sessions[i].id@ != sess.id@,
    ensures
        spec_session_lookup(sessions.push(sess), sess.app_id@, sess.id@) == Some(sess),
{
    let post = sessions.push(sess);
    assert(forall|i: int| 0 <= i < sessions.len() ==> post[i] == sessions[i]);
    assert(post[sessions.len() as int] == sess);
    assert forall|p: int, q: int| 0 <= p < q < post.len() implies post[p].id@ != post[q].id@ by {
        if q < sessions.len() {
            assert(sessions[p].id@ != sessions[q].id@);
        } else {
            assert(sessions[p].id@ != sess.id@);
        }
    }
    lemma_session_lookup_unique(post, sessions.len() as int);
}

/// Tenant isolation: a session stored under one app is invisible to a scoped
/// lookup under any other app id — the lookup misses, it never hands out the
/// owner's data.
pub proof fn lemma_tenant_isolation(sessions: Seq<Session>, owner: Seq<char>, other: Seq<char>, sid: Seq<char>)
    requires
        forall|p: int, q: int| 0 <= p < q < sessions.len() ==> sessions[p].id@ != sessions[q].id@,
        exists|i: int| 0 <= i < sessions.len() && #[trigger] sessions[i].id@ == sid && sessions[i].app_id@ == owner,
        other != owner,
    ensures
        spec_session_lookup(sessions, other, sid) is None,
{
    lemma_session_lookup_found_iff(sessions, other, sid);
    if spec_session_lookup(sessions, other, sid) is Some {
        let j = choose|j: int| 0 <= j < sessions.len() && sessions[j].id@ == sid && sessions[j].app_id@ == other;
        let i = choose|i: int| 0 <= i < sessions.len() && #[trigger] sessions[i].id@ == sid && sessions[i].app_id@ == owner;
        if i < j {
            assert(sessions[i].id@ != sessions[j].id@);
        } else if j < i {
            assert(sessions[j].id@ != sessions[i].id@);
        }
    }
}

/// Overwrite: replacing a session's data wholly, a later scoped lookup sees
/// only the new document; every field absent from it is gone.
pub proof fn lemma_replace_then_lookup(pre: Seq<Session>, post: Seq<Session>, i: int, d: JsonValue, app_id: Seq<char>, sid: Seq<char>)
    requires
        forall|p: int, q: int| 0 <= p < q < pre.len() ==> pre[p].id@ != pre[q].id@,
        0 <= i < pre.len(),
        pre[i].id@ == sid,
        pre[i].app_id@ == app_id,
        post == pre.update(i, (Session { id: pre[i].id, app_id: pre[i].app_id, data: d })),
    ensures
        spec_session_lookup(post, app_id, sid) == Some(post[i]),
        post[i].data == d,
        forall|f: Seq<char>| spec_get(d@, f) is None ==>
            spec_get((#[trigger] spec_session_lookup(post, app_id, sid))->Some_0.data@, f) is None,
{
    assert(forall|p: int| 0 <= p < post.len() && p != i ==> post[p] == pre[p]);
    assert(post[i].id == pre[i].id && post[i].app_id == pre[i].app_id);
    assert forall|p: int, q: int| 0 <= p < q < post.len() implies post[p].id@ != post[q].id@ by {
        assert(post[p].id == pre[p].id && post[q].id == pre[q].id);
    }
    lemma_session_lookup_unique(post, i);
}

/// Credential scoping: since stored app credentials are pairwise distinct,
/// the credential generated for one app never authorizes against any other
/// app's id.
pub proof fn lemma_credential_scoped(apps: Seq<App>, a: int, other_id: Seq<char>)
    requires
        forall|p: int, q: int| 0 <= p < q < apps.len() ==> apps[p].credential@ != apps[q].credential@,
        0 <= a < apps.len(),
        other_id != apps[a].id@,
    ensures
        !spec_app_authorized(apps, other_id, apps[a].credential@),
{
    if spec_app_authorized(apps, other_id, apps[a].credential@) {
        let j = choose|j: int| 0 <= j < apps.len() && apps[j].id@ == other_id
            && apps[j].credential@ == apps[a].credential@;
        if a < j {
            assert(apps[a].credential@ != apps[j].credential@);
        } else if j < a {
            assert(apps[j].credential@ != apps[a].credential@);
        }
    }
}

/// Skipping a stored session that matches neither id nor scope leaves the
/// lookup's result unchanged.
proof fn lemma_session_lookup_skip(sessions: Seq<Session>, app_id: Seq<char>, sid: Seq<char>, i: int)
    requires
        0 <= i < sessions.len(),
        !(sessions[i].id@ == sid && sessions[i].app_id@ == app_id),
    ensures
        spec_session_lookup(sessions.skip(i), app_id, sid) == spec_session_lookup(sessions.skip(i + 1), app_id, sid),
{
    assert(sessions.skip(i).len() > 0);
    assert(sessions.skip(i)[0] == sessions[i]);
    assert(sessions.skip(i).subrange(1, sessions.skip(i).len() as int) =~= sessions.skip(i + 1));
}

impl Context {
    /// Well-formedness of the store: ids and credentials are unique and no
    /// session is orphaned.
    pub open spec fn wf(&self) -> bool {
        &&& (forall|i: int, j: int| 0 <= i < j < self.apps@.len() ==> self.apps@[i].id@ != self.apps@[j].id@)
        &&& (forall|i: int, j: int| 0 <= i < j < self.apps@.len() ==> self.apps@[i].credential@ != self.apps@[j].credential@)
        &&& (forall|i: int, j: int| 0 <= i < j < self.sessions@.len() ==> self.sessions@[i].id@ != self.sessions@[j].id@)
        &&& (forall|i: int| 0 <= i < self.sessions@.len() ==> exists|k: int|
                0 <= k < self.apps@.len() && self.apps@[k].id@ == #[trigger] self.sessions@[i].app_id@)
    }

    /// A store holding the bootstrap admin credentials and nothing else.
    pub fn new(admin_credentials: Vec<String>) -> (r: Context)
        ensures
            r.wf(),
            r.admin_credentials@ == admin_credentials@,
            r.apps@.len() == 0,
            r.sessions@.len() == 0,
    {
        Context { admin_credentials, apps: Vec::new(), sessions: Vec::new() }
    }

    /// Succeeds exactly when the presented credential matches a stored admin
    /// credential; reads nothing else and changes nothing.
    pub fn validate_admin(&self, credential: &str) -> (r: Result<(), Error>)
        ensures
            r is Ok <==> spec_is_admin(self.admin_credentials@, credential@),
            r is Err ==> r == Result::<(), Error>::Err(Error::BadAdminCredential),
    {
        let cred = String::from_str(credential);
        let n = self.admin_credentials.len();
        let mut i: usize = 0;
        while i < n
            invariant
                n == self.admin_credentials@.len(),
                i <= n,
                cred@ == credential@,
                forall|j: int| 0 <= j < i as int ==> self.admin_credentials@[j]@ != credential@,
            decreases n - i,
        {
            if self.admin_credentials[i] == cred {
                return Ok(());
            }
            i += 1;
        }
        Err(Error::BadAdminCredential)
    }

    /// Succeeds exactly when the presented credential is the one stored for
    /// the app `app_id`; a credential valid for one app never validates
    /// against another app's id.
    pub fn validate_app(&self, app_id: &str, credential: &str) -> (r: Result<(), Error>)
        ensures
            r is Ok <==> spec_app_authorized(self.apps@, app_id@, credential@),
            r is Err ==> r == Result::<(), Error>::Err(Error::BadAppCredential),
    {
        let id = String::from_str(app_id);
        let cred = String::from_str(credential);
        let n = self.apps.len();
        let mut i: usize = 0;
        while i < n
            invariant
                n == self.apps@.len(),
                i <= n,
                id@ == app_id@,
                cred@ == credential@,
                forall|j: int| 0 <= j < i as int ==> !(self.apps@[j].id@ == app_id@ && self.apps@[j].credential@ == credential@),
            decreases n - i,
        {
            if self.apps[i].id == id && self.apps[i].credential == cred {
                return Ok(());
            }
            i += 1;
        }
        Err(Error::BadAppCredential)
    }

    /// Whether some registered app already carries this id.
    fn app_id_taken(&self, id: &String) -> (r: bool)
        ensures
            r == exists|i: int| 0 <= i < self.apps@.len() && self.apps@[i].id@ == id@,
    {
        let n = self.apps.len();
        let mut i: usize = 0;
        while i < n
            invariant
                n == self.apps@.len(),
                i <= n,
                forall|j: int| 0 <= j < i as int ==> self.apps@[j].id@ != id@,
            decreases n - i,
        {
            if self.apps[i].id == *id {
                return true;
            }
            i += 1;
        }
        false
    }

    /// Whether some registered app already carries this credential.
    fn app_credential_taken(&self, cred: &String) -> (r: bool)
        ensures
            r == exists|i: int| 0 <= i < self.apps@.len() && self.apps@[i].credential@ == cred@,
    {
        let n = self.apps.len();
        let mut i: usize = 0;
        while i < n
            invariant
                n == self.apps@.len(),
                i <= n,
                forall|j: int| 0 <= j < i as int ==> self.apps@[j].credential@ != cred@,
            decreases n - i,
        {
            if self.apps[i].credential == *cred {
                return true;
            }
            i += 1;
        }
        false
    }

    /// Registers a new app under an admin credential. On success the app is
    /// stored with a freshly generated id and credential, both distinct from
    /// every stored one, and the full record — the only time the credential
    /// is ever revealed — is returned. On a bad admin credential nothing is
    /// stored; a fresh identifier colliding with a stored one surfaces as the
    /// store's own uniqueness failure.
    pub fn create_app(&mut self, name: String, admin_credential: &str) -> (r: Result<App, Error>)
        requires
            old(self).wf(),
        ensures
            final(self).wf(),
            final(self).admin_credentials@ == old(self).admin_credentials@,
            final(self).sessions@ == old(self).sessions@,
            match r {
                Ok(app) => {
                    &&& spec_is_admin(old(self).admin_credentials@, admin_credential@)
                    &&& app.name@ == name@
                    &&& final(self).apps@.len() == old(self).apps@.len() + 1
                    &&& (forall|i: int| 0 <= i < old(self).apps@.len() ==> final(self).apps@[i] == old(self).apps@[i])
                    &&& final(self).apps@.last().id@ == app.id@
                    &&& final(self).apps@.last().name@ == app.name@
                    &&& final(self).apps@.last().credential@ == app.credential@
                    &&& (forall|i: int| 0 <= i < old(self).apps@.len() ==> old(self).apps@[i].id@ != app.id@)
                    &&& (forall|i: int| 0 <= i < old(self).apps@.len() ==> old(self).apps@[i].credential@ != app.credential@)
                    &&& spec_app_authorized(final(self).apps@, app.id@, app.credential@)
                },
                Err(Error::BadAdminCredential) => {
                    &&& !spec_is_admin(old(self).admin_credentials@, admin_credential@)
                    &&& final(self).apps@ == old(self).apps@
                },
                Err(Error::StorageFailure) => {
                    &&& spec_is_admin(old(self).admin_credentials@, admin_credential@)
                    &&& final(self).apps@ == old(self).apps@
                },
                _ => false,
            },
    {
        if let Err(e) = self.validate_admin(admin_credential) {
            return Err(e);
        }
        let id = fresh_opaque_id();
        let credential = fresh_opaque_id();
        if self.app_id_taken(&id) {
            return Err(Error::StorageFailure);
        }
        if self.app_credential_taken(&credential) {
            return Err(Error::StorageFailure);
        }
        let stored = App { id: id.clone(), name: name.clone(), credential: credential.clone() };
        self.apps.push(stored);
        proof {
            assert forall|i: int| 0 <= i < self.sessions@.len() implies exists|k: int|
                0 <= k < self.apps@.len() && self.apps@[k].id@ == #[trigger] self.sessions@[i].app_id@ by {
                let k = choose|k: int| 0 <= k < old(self).apps@.len()
                    && old(self).apps@[k].id@ == self.sessions@[i].app_id@;
                assert(self.apps@[k].id@ == self.sessions@[i].app_id@);
            }
            assert(self.apps@.last().id@ == id@ && self.apps@.last().credential@ == credential@);
        }
        Ok(App { id, name, credential })
    }

    /// Whether some stored session already carries this id.
    fn session_id_taken(&self, id: &String) -> (r: bool)
        ensures
            r == exists|i: int| 0 <= i < self.sessions@.len() && self.sessions@[i].id@ == id@,
    {
        let n = self.sessions.len();
        let mut i: usize = 0;
        while i < n
            invariant
                n == self.sessions@.len(),
                i <= n,
                forall|j: int| 0 <= j < i as int ==> self.sessions@[j].id@ != id@,
            decreases n - i,
        {
            if self.sessions[i].id == *id {
                return true;
            }
            i += 1;
        }
        false
    }

    /// The index of the stored session with this id, provided it belongs to
    /// this app.
    fn find_session(&self, app_id: &String, sid: &String) -> (r: Option<usize>)
        ensures
            match r {
                Some(i) => i < self.sessions@.len()
                    && self.sessions@[i as int].id@ == sid@
                    && self.sessions@[i as int].app_id@ == app_id@
                    && spec_session_lookup(self.sessions@, app_id@, sid@) == Some(self.sessions@[i as int]),
                None => spec_session_lookup(self.sessions@, app_id@, sid@) is None,
            },
    {
        let n = self.sessions.len();
        let mut i: usize = 0;
        proof {
            assert(self.sessions@.skip(0) =~= self.sessions@);
        }
        while i < n
            invariant
                n == self.sessions@.len(),
                i <= n,
                spec_session_lookup(self.sessions@, app_id@, sid@)
                    == spec_session_lookup(self.sessions@.skip(i as int), app_id@, sid@),
            decreases n - i,
        {
            if self.sessions[i].id == *sid && self.sessions[i].app_id == *app_id {
                proof {
                    assert(self.sessions@.skip(i as int)[0] == self.sessions@[i as int]);
                }
                return Some(i);
            }
            proof {
                lemma_session_lookup_skip(self.sessions@, app_id@, sid@, i as int);
            }
            i += 1;
        }
        proof {
            assert(self.sessions@.skip(n as int) =~= Seq::<Session>::empty());
        }
        None
    }

    /// Stores a new session under the app, after the app's credential has
    /// been checked; on a bad credential nothing is read or written. The
    /// session is stored with a freshly generated id and returned whole; a
    /// generated id colliding with a stored one surfaces as the store's own
    /// uniqueness failure.
    pub fn new_session(&mut self, app_id: &str, credential: &str, body: JsonValue) -> (r: Result<Session, Error>)
        requires
            old(self).wf(),
        ensures
            final(self).wf(),
            final(self).admin_credentials@ == old(self).admin_credentials@,
            final(self).apps@ == old(self).apps@,
            match r {
                Ok(sess) => {
                    &&& spec_app_authorized(old(self).apps@, app_id@, credential@)
                    &&& sess.app_id@ == app_id@
                    &&& sess.data@ == body@
                    &&& final(self).sessions@.len() == old(self).sessions@.len() + 1
                    &&& (forall|i: int| 0 <= i < old(self).sessions@.len() ==> final(self).sessions@[i] == old(self).sessions@[i])
                    &&& final(self).sessions@.last().id@ == sess.id@
                    &&& final(self).sessions@.last().app_id@ == app_id@
                    &&& final(self).sessions@.last().data@ == body@
                    &&& (forall|i: int| 0 <= i < old(self).sessions@.len() ==> old(self).sessions@[i].id@ != sess.id@)
                },
                Err(Error::BadAppCredential) => {
                    &&& !spec_app_authorized(old(self).apps@, app_id@, credential@)
                    &&& final(self).sessions@ == old(self).sessions@
                },
                Err(Error::StorageFailure) => {
                    &&& spec_app_authorized(old(self).apps@, app_id@, credential@)
                    &&& final(self).sessions@ == old(self).sessions@
                },
                _ => false,
            },
    {
        if let Err(e) = self.validate_app(app_id, credential) {
            return Err(e);
        }
        let aid = String::from_str(app_id);
        let sid = fresh_opaque_id();
        let ghost sidv = sid@;
        if self.session_id_taken(&sid) {
            return Err(Error::StorageFailure);
        }
        let ret = Session { id: sid.clone(), app_id: aid.clone(), data: clone_json(&body) };
        self.sessions.push(Session { id: sid, app_id: aid, data: body });
        proof {
            assert(self.apps@ == old(self).apps@);
            assert(self.admin_credentials@ == old(self).admin_credentials@);
            assert forall|i: int, j: int| 0 <= i < j < self.sessions@.len()
                implies self.sessions@[i].id@ != self.sessions@[j].id@ by {
                assert(self.sessions@[i] == old(self).sessions@[i]);
                if j == old(self).sessions@.len() {
                    assert(self.sessions@[j].id@ == sidv);
                } else {
                    assert(self.sessions@[j] == old(self).sessions@[j]);
                }
            }
            assert forall|i: int| 0 <= i < self.sessions@.len() implies exists|k: int|
                0 <= k < self.apps@.len() && self.apps@[k].id@ == #[trigger] self.sessions@[i].app_id@ by {
                if i < old(self).sessions@.len() {
                    let k = choose|k: int| 0 <= k < old(self).apps@.len()
                        && old(self).apps@[k].id@ == self.sessions@[i].app_id@;
                    assert(self.apps@[k].id@ == self.sessions@[i].app_id@);
                } else {
                    let k = choose|k: int| 0 <= k < old(self).apps@.len()
                        && old(self).apps@[k].id@ == app_id@ && old(self).apps@[k].credential@ == credential@;
                    assert(self.apps@[k].id@ == self.sessions@[i].app_id@);
                }
            }
            assert(self.wf());
        }
        Ok(ret)
    }

    /// Reads a session scoped to the caller's app, after the app's credential
    /// has been checked. A session of another app, or no session at all, is
    /// plain absence, never another tenant's data.
    pub fn get_session(&self, app_id: &str, credential: &str, id: &str) -> (r: Result<Option<Session>, Error>)
        ensures
            match r {
                Ok(found) => {
                    &&& spec_app_authorized(self.apps@, app_id@, credential@)
                    &&& (match found {
                        Some(sess) => spec_session_lookup(self.sessions@, app_id@, id@) matches Some(st)
                            && sess.id@ == st.id@ && sess.app_id@ == st.app_id@ && sess.data@ == st.data@,
                        None => spec_session_lookup(self.sessions@, app_id@, id@) is None,
                    })
                },
                Err(e) => e == Error::BadAppCredential
                    && !spec_app_authorized(self.apps@, app_id@, credential@),
            },
    {
        if let Err(e) = self.validate_app(app_id, credential) {
            return Err(e);
        }
        let aid = String::from_str(app_id);
        let sid = String::from_str(id);
        match self.find_session(&aid, &sid) {
            None => Ok(None),
            Some(i) => {
                let st = &self.sessions[i];
                Ok(Some(Session { id: st.id.clone(), app_id: st.app_id.clone(), data: clone_json(&st.data) }))
            },
        }
    }

    /// Reads one field of a session's data, scoped to the caller's app. A
    /// missing session and a missing field collapse to the same absence
    /// failure; no distinction is surfaced.
    pub fn get_session_field(&self, app_id: &str, credential: &str, id: &str, name: &str) -> (r: Result<JsonValue, Error>)
        ensures
            match r {
                Ok(v) => {
                    &&& spec_app_authorized(self.apps@, app_id@, credential@)
                    &&& spec_session_lookup(self.sessions@, app_id@, id@) matches Some(st)
                        && spec_get(st.data@, name@) == Some(v@)
                },
                Err(Error::AttributeNotPresent) => {
                    &&& spec_app_authorized(self.apps@, app_id@, credential@)
                    &&& (match spec_session_lookup(self.sessions@, app_id@, id@) {
                        Some(st) => spec_get(st.data@, name@) is None,
                        None => true,
                    })
                },
                Err(Error::BadAppCredential) => !spec_app_authorized(self.apps@, app_id@, credential@),
                _ => false,
            },
    {
        if let Err(e) = self.validate_app(app_id, credential) {
            return Err(e);
        }
        let aid = String::from_str(app_id);
        let sid = String::from_str(id);
        match self.find_session(&aid, &sid) {
            None => Err(Error::AttributeNotPresent),
            Some(i) => match self.sessions[i].data.get(name) {
                None => Err(Error::AttributeNotPresent),
                Some(v) => Ok(clone_json(v)),
            },
        }
    }

    /// Overwrites a session's data wholly — fields absent from the new
    /// document are gone — scoped to the caller's app and after its
    /// credential has been checked. When no session matches both the id and
    /// the app, the store's no-row condition surfaces as a storage failure.
    pub fn replace_session(&mut self, app_id: &str, credential: &str, id: &str, body: JsonValue) -> (r: Result<Session, Error>)
        requires
            old(self).wf(),
        ensures
            final(self).wf(),
            final(self).admin_credentials@ == old(self).admin_credentials@,
            final(self).apps@ == old(self).apps@,
            final(self).sessions@.len() == old(self).sessions@.len(),
            match r {
                Ok(sess) => {
                    &&& spec_app_authorized(old(self).apps@, app_id@, credential@)
                    &&& (exists|i: int| 0 <= i < old(self).sessions@.len()
                        && #[trigger] old(self).sessions@[i].id@ == id@
                        && old(self).sessions@[i].app_id@ == app_id@
                        && final(self).sessions@ == old(self).sessions@.update(i, (Session {
                            id: old(self).sessions@[i].id,
                            app_id: old(self).sessions@[i].app_id,
                            data: body,
                        })))
                    &&& sess.id@ == id@
                    &&& sess.app_id@ == app_id@
                    &&& sess.data@ == body@
                },
                Err(Error::StorageFailure) => {
                    &&& spec_app_authorized(old(self).apps@, app_id@, credential@)
                    &&& spec_session_lookup(old(self).sessions@, app_id@, id@) is None
                    &&& final(self).sessions@ == old(self).sessions@
                },
                Err(Error::BadAppCredential) => {
                    &&& !spec_app_authorized(old(self).apps@, app_id@, credential@)
                    &&& final(self).sessions@ == old(self).sessions@
                },
                _ => false,
            },
    {
        if let Err(e) = self.validate_app(app_id, credential) {
            return Err(e);
        }
        let aid = String::from_str(app_id);
        let sid = String::from_str(id);
        match self.find_session(&aid, &sid) {
            None => Err(Error::StorageFailure),
            Some(i) => {
                let ret = Session {
                    id: self.sessions[i].id.clone(),
                    app_id: self.sessions[i].app_id.clone(),
                    data: clone_json(&body),
                };
                self.sessions[i].data = body;
                proof {
                    assert(self.apps@ == old(self).apps@);
                    assert(self.admin_credentials@ == old(self).admin_credentials@);
                    assert(forall|p: int| 0 <= p < self.sessions@.len() ==>
                        #[trigger] self.sessions@[p].id == old(self).sessions@[p].id
                        && self.sessions@[p].app_id == old(self).sessions@[p].app_id);
                    assert forall|p: int| 0 <= p < self.sessions@.len() implies exists|k: int|
                        0 <= k < self.apps@.len() && self.apps@[k].id@ == #[trigger] self.sessions@[p].app_id@ by {
                        let k = choose|k: int| 0 <= k < old(self).apps@.len()
                            && old(self).apps@[k].id@ == old(self).sessions@[p].app_id@;
                        assert(self.apps@[k].id@ == self.sessions@[p].app_id@);
                    }
                    assert(self.wf());
                }
                Ok(ret)
            },
        }
    }
}

} // verus!
