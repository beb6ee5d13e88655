//! Who may log in, and who is logged in with which channel to send on.
use vstd::prelude::*;
use vstd::string::*;

use crate::text::str_eq;

verus! {

/// The outcome of a login.
#[derive(Clone, Copy, Debug, PartialEq, Eq, Structural)]
pub enum LoginResult {
    Success,
    UserNotFound,
    UserAlreadyLoggedIn,
}

/// The outcome of a logout.
#[derive(Clone, Copy, Debug, PartialEq, Eq, Structural)]
pub enum LogoutResult {
    Success,
    UserNotFound,
    UserNotLoggedIn,
}

/// The users: those who may log in, and those logged in, each with the
/// channel of type `Tx` on which the server sends to them.
pub struct Users<Tx> {
    registered_users: Vec<String>,
    logged_in_users: Vec<(String, Tx)>,
}

/// The logged-in users of a list, by name.
pub open spec fn users_map<Tx>(s: Seq<(Seq<char>, Tx)>) -> Map<Seq<char>, Tx>
    decreases s.len(),
{
    if s.len() == 0 {
        Map::empty()
    } else {
        users_map(s.drop_last()).insert(s.last().0, s.last().1)
    }
}

/// No name stands twice in the list.
pub open spec fn names_distinct<Tx>(s: Seq<(Seq<char>, Tx)>) -> bool {
    forall|i: int, j: int| 0 <= i < j < s.len() ==> s[i].0 != s[j].0
}

/// The users who may log in.
pub open spec fn registered_names() -> Set<Seq<char>> {
    set!["abdullah"@, "ben"@]
}

proof fn lemma_users_map_lookup<Tx>(s: Seq<(Seq<char>, Tx)>)
    requires
        names_distinct(s),
    ensures
        forall|i: int|
            0 <= i < s.len() ==> #[trigger] users_map(s).contains_key(s[i].0) && users_map(s)[s[i].0]
                == s[i].1,
        forall|k: Seq<char>|
            #[trigger] users_map(s).contains_key(k) ==> exists|i: int| 0 <= i < s.len() && s[i].0 == k,
    decreases s.len(),
{
    if s.len() > 0 {
        let init = s.drop_last();
        assert(names_distinct(init)) by {
            assert forall|i: int, j: int| 0 <= i < j < init.len() implies init[i].0 != init[j].0 by {
                assert(init[i] == s[i]);
                assert(init[j] == s[j]);
            }
        }
        lemma_users_map_lookup(init);
        let m = users_map(s);
        assert forall|i: int| 0 <= i < s.len() implies #[trigger] m.contains_key(s[i].0) && m[s[i].0]
            == s[i].1 by {
            if i < s.len() - 1 {
                assert(init[i] == s[i]);
                assert(s[i].0 != s.last().0);
                assert(users_map(init).contains_key(init[i].0));
            }
        }
        assert forall|k: Seq<char>| #[trigger] m.contains_key(k) implies exists|i: int|
            0 <= i < s.len() && s[i].0 == k by {
            if k == s.last().0 {
                assert(s[s.len() - 1].0 == k);
            } else {
                assert(users_map(init).contains_key(k));
                let i = choose|i: int| 0 <= i < init.len() && init[i].0 == k;
                assert(s[i] == init[i]);
            }
        }
    }
}

proof fn lemma_users_map_remove<Tx>(s: Seq<(Seq<char>, Tx)>, i: int)
    requires
        names_distinct(s),
        0 <= i < s.len(),
    ensures
        users_map(s.remove(i)) == users_map(s).remove(s[i].0),
        names_distinct(s.remove(i)),
    decreases s.len(),
{
    let r = s.remove(i);
    assert(names_distinct(r)) by {
        assert forall|a: int, b: int| 0 <= a < b < r.len() implies r[a].0 != r[b].0 by {
            let a2 = if a < i { a } else { a + 1 };
            let b2 = if b < i { b } else { b + 1 };
            assert(r[a] == s[a2]);
            assert(r[b] == s[b2]);
        }
    }
    let init = s.drop_last();
    assert(names_distinct(init)) by {
        assert forall|a: int, b: int| 0 <= a < b < init.len() implies init[a].0 != init[b].0 by {
            assert(init[a] == s[a]);
            assert(init[b] == s[b]);
        }
    }
    lemma_users_map_lookup(init);
    if i == s.len() - 1 {
        assert(r =~= init);
        assert(!users_map(init).contains_key(s[i].0)) by {
            if users_map(init).contains_key(s[i].0) {
                let j = choose|j: int| 0 <= j < init.len() && init[j].0 == s[i].0;
                assert(init[j] == s[j]);
            }
        }
        assert(users_map(r) =~= users_map(s).remove(s[i].0));
    } else {
        lemma_users_map_remove(init, i);
        assert(r.drop_last() =~= init.remove(i));
        assert(r.last() == s.last());
        assert(s.last().0 != s[i].0);
        assert(users_map(r) =~= users_map(s).remove(s[i].0));
    }
}

impl<Tx> Users<Tx> {
    /// The users who may log in.
    pub closed spec fn registered(&self) -> Set<Seq<char>> {
        self.registered_users@.map_values(|u: String| u@).to_set()
    }

    /// The logged-in users, in the order in which they logged in.
    pub closed spec fn sessions(&self) -> Seq<(Seq<char>, Tx)> {
        self.logged_in_users@.map_values(|e: (String, Tx)| (e.0@, e.1))
    }

    /// The logged-in users, by name, with their channels.
    pub open spec fn logged_in(&self) -> Map<Seq<char>, Tx> {
        users_map(self.sessions())
    }

    /// No user is logged in twice, and only registered users are logged in.
    pub open spec fn wf(&self) -> bool {
        &&& names_distinct(self.sessions())
        &&& forall|i: int|
            0 <= i < self.sessions().len() ==> self.registered().contains(
                #[trigger] self.sessions()[i].0,
            )
    }

    /// Each logged-in user stands once in [`Self::sessions`], under its name.
    pub proof fn lemma_sessions(&self)
        requires
            self.wf(),
        ensures
            forall|i: int|
                0 <= i < self.sessions().len() ==> #[trigger] self.logged_in().contains_key(
                    self.sessions()[i].0,
                ) && self.logged_in()[self.sessions()[i].0] == self.sessions()[i].1,
            forall|k: Seq<char>|
                #[trigger] self.logged_in().contains_key(k) ==> exists|i: int|
                    0 <= i < self.sessions().len() && self.sessions()[i].0 == k,
    {
        let s = self.sessions();
        lemma_users_map_lookup(s);
        assert forall|i: int| 0 <= i < s.len() implies #[trigger] self.logged_in().contains_key(
            s[i].0,
        ) && self.logged_in()[s[i].0] == s[i].1 by {
            assert(users_map(s).contains_key(s[i].0));
        }
    }

    /// The registered users `abdullah` and `ben`, none of them logged in.
    pub fn new() -> (res: Self)
        ensures
            res.wf(),
            res.registered() == registered_names(),
            res.sessions() == Seq::<(Seq<char>, Tx)>::empty(),
            res.logged_in() == Map::<Seq<char>, Tx>::empty(),
    {
        let mut registered_users: Vec<String> = Vec::new();
        registered_users.push(String::from_str("abdullah"));
        registered_users.push(String::from_str("ben"));
        let res = Users { registered_users, logged_in_users: Vec::new() };
        proof {
            let names = res.registered_users@.map_values(|u: String| u@);
            assert(names =~= seq!["abdullah"@, "ben"@]);
            assert(names.to_set() =~= registered_names()) by {
                assert(names[0] == "abdullah"@);
                assert(names[1] == "ben"@);
            }
            assert(res.sessions() =~= Seq::<(Seq<char>, Tx)>::empty());
        }
        res
    }

    fn is_registered(&self, username: &str) -> (res: bool)
        ensures
            res == self.registered().contains(username@),
    {
        let ghost names = self.registered_users@.map_values(|u: String| u@);
        let mut i: usize = 0;
        while i < self.registered_users.len()
            invariant
                i <= self.registered_users.len(),
                names == self.registered_users@.map_values(|u: String| u@),
                forall|j: int| 0 <= j < i ==> names[j] != username@,
            decreases self.registered_users.len() - i,
        {
            if str_eq(self.registered_users[i].as_str(), username) {
                assert(names[i as int] == username@);
                return true;
            }
            i = i + 1;
        }
        proof {
            if names.to_set().contains(username@) {
                let j = names.index_of(username@);
            }
        }
        false
    }

    fn find_session(&self, username: &str) -> (res: Option<usize>)
        requires
            self.wf(),
        ensures
            match res {
                Some(i) => i < self.sessions().len() && self.sessions()[i as int].0 == username@,
                None => !self.logged_in().contains_key(username@),
            },
    {
        proof {
            self.lemma_sessions();
        }
        let mut i: usize = 0;
        while i < self.logged_in_users.len()
            invariant
                i <= self.logged_in_users.len(),
                self.sessions().len() == self.logged_in_users.len(),
                forall|j: int| 0 <= j < i ==> self.sessions()[j].0 != username@,
            decreases self.logged_in_users.len() - i,
        {
            assert(self.sessions()[i as int].0 == self.logged_in_users[i as int].0@);
            if str_eq(self.logged_in_users[i].0.as_str(), username) {
                return Some(i);
            }
            i = i + 1;
        }
        None
    }

    /// Logs `username` in with the channel `tx`: only a registered user who is
    /// not logged in yet can log in.
    pub fn login_user(&mut self, username: &str, tx: Tx) -> (res: LoginResult)
        requires
            old(self).wf(),
        ensures
            final(self).wf(),
            final(self).registered() == old(self).registered(),
            res == login_outcome(old(self).registered(), old(self).logged_in(), username@),
            res == LoginResult::Success ==> final(self).logged_in() == old(self).logged_in().insert(
                username@,
                tx,
            ) && final(self).sessions() == old(self).sessions().push((username@, tx)),
            res != LoginResult::Success ==> final(self).logged_in() == old(self).logged_in()
                && final(self).sessions() == old(self).sessions(),
    {
        if !self.is_registered(username) {
            return LoginResult::UserNotFound;
        }
        if self.find_session(username).is_some() {
            proof {
                self.lemma_sessions();
            }
            return LoginResult::UserAlreadyLoggedIn;
        }
        let ghost old_sessions = self.sessions();
        self.logged_in_users.push((String::from_str(username), tx));
        proof {
            assert(self.sessions() =~= old_sessions.push((username@, tx)));
            assert(self.sessions().drop_last() =~= old_sessions);
            lemma_users_map_lookup(old_sessions);
            assert forall|i: int|
                0 <= i < self.sessions().len() implies self.registered().contains(
                #[trigger] self.sessions()[i].0,
            ) by {
                if i < self.sessions().len() - 1 {
                    assert(old_sessions[i] == self.sessions()[i]);
                }
            }
            assert forall|i: int, j: int|
                0 <= i < j < self.sessions().len() implies self.sessions()[i].0 != self.sessions()[j].0 by {
                if j == self.sessions().len() - 1 {
                    assert(old_sessions[i] == self.sessions()[i]);
                    assert(old(self).logged_in().contains_key(old_sessions[i].0));
                }
            }
        }
        LoginResult::Success
    }

    /// Logs `username` out: only a registered user who is logged in can log
    /// out.
    pub fn logout_user(&mut self, username: &str) -> (res: LogoutResult)
        requires
            old(self).wf(),
        ensures
            final(self).wf(),
            final(self).registered() == old(self).registered(),
            res == logout_outcome(old(self).registered(), old(self).logged_in(), username@),
            res == LogoutResult::Success ==> final(self).logged_in() == old(
                self,
            ).logged_in().remove(username@),
            res != LogoutResult::Success ==> final(self).logged_in() == old(self).logged_in()
                && final(self).sessions() == old(self).sessions() && !old(
                self,
            ).logged_in().contains_key(username@),
    {
        if !self.is_registered(username) {
            proof {
                self.lemma_sessions();
                if self.logged_in().contains_key(username@) {
                    let i = choose|i: int|
                        0 <= i < self.sessions().len() && self.sessions()[i].0 == username@;
                }
            }
            return LogoutResult::UserNotFound;
        }
        match self.find_session(username) {
            None => LogoutResult::UserNotLoggedIn,
            Some(i) => {
                let ghost old_sessions = self.sessions();
                proof {
                    self.lemma_sessions();
                }
                let _ = self.logged_in_users.remove(i);
                proof {
                    assert(self.sessions() =~= old_sessions.remove(i as int));
                    lemma_users_map_remove(old_sessions, i as int);
                    assert forall|k: int|
                        0 <= k < self.sessions().len() implies self.registered().contains(
                        #[trigger] self.sessions()[k].0,
                    ) by {
                        let k2 = if k < i { k } else { k + 1 };
                        assert(self.sessions()[k] == old_sessions[k2]);
                    }
                }
                LogoutResult::Success
            },
        }
    }

    /// Whether `username` is logged in.
    pub fn is_logged_in(&self, username: &str) -> (res: bool)
        requires
            self.wf(),
        ensures
            res == self.logged_in().contains_key(username@),
    {
        proof {
            self.lemma_sessions();
        }
        self.find_session(username).is_some()
    }
}

impl<Tx: Clone> Users<Tx> {
    /// A clone of the channel of `username`, if the user is logged in.
    pub fn get_user_tx(&self, username: &str) -> (res: Option<Tx>)
        requires
            self.wf(),
        ensures
            res is Some == self.logged_in().contains_key(username@),
            res matches Some(tx) ==> cloned(self.logged_in()[username@], tx),
    {
        proof {
            self.lemma_sessions();
        }
        match self.find_session(username) {
            Some(i) => {
                assert(self.sessions()[i as int].1 == self.logged_in_users[i as int].1);
                assert(self.logged_in().contains_key(self.sessions()[i as int].0));
                Some(self.logged_in_users[i].1.clone())
            },
            None => None,
        }
    }

    /// Every logged-in user, in the order of login, with a clone of the
    /// user's channel.
    pub fn get_all_users_tx(&self) -> (res: Vec<(String, Tx)>)
        ensures
            res.len() == self.sessions().len(),
            forall|i: int|
                0 <= i < res.len() ==> (#[trigger] res[i]).0@ == self.sessions()[i].0 && cloned(
                    self.sessions()[i].1,
                    res[i].1,
                ),
    {
        let mut res: Vec<(String, Tx)> = Vec::new();
        let mut i: usize = 0;
        while i < self.logged_in_users.len()
            invariant
                i <= self.logged_in_users.len(),
                self.sessions().len() == self.logged_in_users.len(),
                res.len() == i,
                forall|j: int|
                    0 <= j < i ==> (#[trigger] res[j]).0@ == self.sessions()[j].0 && cloned(
                        self.sessions()[j].1,
                        res[j].1,
                    ),
            decreases self.logged_in_users.len() - i,
        {
            let e = &self.logged_in_users[i];
            assert(self.sessions()[i as int] == (e.0@, e.1));
            let name = e.0.clone();
            let tx = e.1.clone();
            res.push((name, tx));
            assert(res[i as int].0@ == self.sessions()[i as int].0);
            i = i + 1;
        }
        res
    }
}

/// What a login of `name` comes to.
pub open spec fn login_outcome<Tx>(
    registered: Set<Seq<char>>,
    logged_in: Map<Seq<char>, Tx>,
    name: Seq<char>,
) -> LoginResult {
    if !registered.contains(name) {
        LoginResult::UserNotFound
    } else if logged_in.contains_key(name) {
        LoginResult::UserAlreadyLoggedIn
    } else {
        LoginResult::Success
    }
}

/// What a logout of `name` comes to.
pub open spec fn logout_outcome<Tx>(
    registered: Set<Seq<char>>,
    logged_in: Map<Seq<char>, Tx>,
    name: Seq<char>,
) -> LogoutResult {
    if !registered.contains(name) {
        LogoutResult::UserNotFound
    } else if !logged_in.contains_key(name) {
        LogoutResult::UserNotLoggedIn
    } else {
        LogoutResult::Success
    }
}

} // verus!

verus! {

/// A login that succeeds makes the user logged in; logging in again is
/// refused as already logged in; logging out then succeeds and leaves the
/// logged-in users as they were before the login; a second logout is
/// refused as not logged in.
pub proof fn lemma_login_logout<Tx>(
    registered: Set<Seq<char>>,
    logged_in: Map<Seq<char>, Tx>,
    name: Seq<char>,
    tx: Tx,
)
    requires
        login_outcome(registered, logged_in, name) == LoginResult::Success,
    ensures
        logged_in.insert(name, tx).contains_key(name),
        login_outcome(registered, logged_in.insert(name, tx), name)
            == LoginResult::UserAlreadyLoggedIn,
        logout_outcome(registered, logged_in.insert(name, tx), name) == LogoutResult::Success,
        logged_in.insert(name, tx).remove(name) == logged_in,
        logout_outcome(registered, logged_in.insert(name, tx).remove(name), name)
            == LogoutResult::UserNotLoggedIn,
{
    assert(logged_in.insert(name, tx).remove(name) =~= logged_in);
}

/// A name that is not registered can neither log in nor log out.
pub proof fn lemma_unregistered<Tx>(
    registered: Set<Seq<char>>,
    logged_in: Map<Seq<char>, Tx>,
    name: Seq<char>,
)
    requires
        !registered.contains(name),
    ensures
        login_outcome(registered, logged_in, name) == LoginResult::UserNotFound,
        logout_outcome(registered, logged_in, name) == LogoutResult::UserNotFound,
{
}

} // verus!
