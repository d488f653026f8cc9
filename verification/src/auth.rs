//! The user table that FTP logins are checked against.

use vstd::prelude::*;

use crate::keyed::{
    keyed_map, keys_distinct, lemma_keyed_at, lemma_keyed_push, lemma_keyed_update,
    lemma_keys_listed, lists_keys_exactly, string_views,
};

verus! {

/// One configured user: a name and the password that logs it in.
#[derive(Debug)]
pub struct UserEntry {
    pub username: String,
    pub password: String,
}

/// Who a successful login is.
#[derive(Debug)]
pub struct Principal {
    pub username: String,
}

/// Why a login was refused.
#[derive(Clone, Copy, Debug, PartialEq, Eq, Structural)]
pub enum AuthenticationError {
    /// No password was given, the user is unknown, or the password is not the user's.
    BadPassword,
}

/// The passwords that `entries` configure, by user name; where a name is
/// configured more than once, the last entry counts.
pub open spec fn configured_users(entries: Seq<UserEntry>) -> Map<Seq<char>, Seq<char>>
    decreases entries.len(),
{
    if entries.len() == 0 {
        Map::empty()
    } else {
        configured_users(entries.drop_last()).insert(
            entries.last().username@,
            entries.last().password@,
        )
    }
}

/// Whether `users` lets `username` in with `password`: a password is given and
/// it is the one configured for that user.
pub open spec fn spec_accepts(
    users: Map<Seq<char>, Seq<char>>,
    username: Seq<char>,
    password: Option<Seq<char>>,
) -> bool {
    match password {
        Some(p) => users.contains_key(username) && users[username] == p,
        None => false,
    }
}

/// The (name, password) pairs of `entries`.
spec fn user_pairs(entries: Seq<UserEntry>) -> Seq<(Seq<char>, Seq<char>)> {
    entries.map_values(|e: UserEntry| (e.username@, e.password@))
}

/// Checks logins against a fixed table of users and their passwords.
#[derive(Debug)]
pub struct TomlAuthenticator {
    users: Vec<UserEntry>,
}

impl View for TomlAuthenticator {
    type V = Map<Seq<char>, Seq<char>>;

    closed spec fn view(&self) -> Map<Seq<char>, Seq<char>> {
        keyed_map(user_pairs(self.users@))
    }
}

/// Configures `e.password` for `e.username` in `users`, replacing an earlier one.
fn set_password(users: &mut Vec<UserEntry>, e: UserEntry)
    requires
        keys_distinct(user_pairs(old(users)@)),
    ensures
        keys_distinct(user_pairs(final(users)@)),
        keyed_map(user_pairs(final(users)@)) == keyed_map(user_pairs(old(users)@)).insert(
            e.username@,
            e.password@,
        ),
{
    match find_user(users, &e.username) {
        Some(j) => {
            proof {
                lemma_keyed_update(user_pairs(users@), j as int, (e.username@, e.password@));
                assert(user_pairs(users@.update(j as int, e)) =~= user_pairs(users@).update(
                    j as int,
                    (e.username@, e.password@),
                ));
            }
            users.set(j, e);
        },
        None => {
            proof {
                lemma_keyed_push(user_pairs(users@), (e.username@, e.password@));
                assert(user_pairs(users@.push(e)) =~= user_pairs(users@).push(
                    (e.username@, e.password@),
                ));
            }
            users.push(e);
        },
    }
}

/// The index of the entry for `username` in `users`, if there is one.
fn find_user(users: &Vec<UserEntry>, username: &String) -> (r: Option<usize>)
    requires
        keys_distinct(user_pairs(users@)),
    ensures
        match r {
            Some(i) => i < users.len() && users@[i as int].username@ == username@,
            None => !keyed_map(user_pairs(users@)).contains_key(username@),
        },
{
    let mut i: usize = 0;
    while i < users.len()
        invariant
            i <= users.len(),
            forall|j: int| 0 <= j < i ==> users@[j].username@ != username@,
        decreases users.len() - i,
    {
        if users[i].username == *username {
            return Some(i);
        }
        i = i + 1;
    }
    None
}

impl TomlAuthenticator {
    /// The table's invariant: no user name occurs twice.
    #[verifier::type_invariant]
    spec fn inv(self) -> bool {
        keys_distinct(user_pairs(self.users@))
    }

    /// The table that the configured `entries` describe.
    pub fn from_users(entries: Vec<UserEntry>) -> (a: TomlAuthenticator)
        ensures
            a@ == configured_users(entries@),
    {
        let mut users: Vec<UserEntry> = Vec::new();
        assert(keyed_map(user_pairs(users@)) =~= configured_users(entries@.take(0)));
        let mut i: usize = 0;
        while i < entries.len()
            invariant
                i <= entries.len(),
                keys_distinct(user_pairs(users@)),
                keyed_map(user_pairs(users@)) == configured_users(entries@.take(i as int)),
            decreases entries.len() - i,
        {
            let e = UserEntry {
                username: entries[i].username.clone(),
                password: entries[i].password.clone(),
            };
            set_password(&mut users, e);
            assert(entries@.take(i + 1).drop_last() =~= entries@.take(i as int));
            i = i + 1;
        }
        assert(entries@.take(entries.len() as int) =~= entries@);
        TomlAuthenticator { users }
    }

    /// Logs `username` in with the password of the credentials, if any.
    pub fn authenticate(&self, username: &str, password: Option<&str>) -> (r: Result<
        Principal,
        AuthenticationError,
    >)
        ensures
            match r {
                Ok(p) => spec_accepts(
                    self@,
                    username@,
                    match password {
                        Some(p) => Some(p@),
                        None => None,
                    },
                ) && p.username@ == username@,
                Err(e) => !spec_accepts(
                    self@,
                    username@,
                    match password {
                        Some(p) => Some(p@),
                        None => None,
                    },
                ) && e == AuthenticationError::BadPassword,
            },
    {
        proof {
            use_type_invariant(self);
        }
        match password {
            Some(given) => {
                let name = String::from_str(username);
                match find_user(&self.users, &name) {
                    Some(i) => {
                        proof {
                            lemma_keyed_at(user_pairs(self.users@), i as int);
                        }
                        if self.users[i].password == String::from_str(given) {
                            Ok(Principal { username: name })
                        } else {
                            Err(AuthenticationError::BadPassword)
                        }
                    },
                    None => Err(AuthenticationError::BadPassword),
                }
            },
            None => Err(AuthenticationError::BadPassword),
        }
    }

    /// The password configured for `username`, if the user is known.
    pub fn password_of(&self, username: &str) -> (r: Option<String>)
        ensures
            match r {
                Some(p) => self@.contains_key(username@) && self@[username@] == p@,
                None => !self@.contains_key(username@),
            },
    {
        proof {
            use_type_invariant(self);
        }
        match find_user(&self.users, &String::from_str(username)) {
            Some(i) => {
                proof {
                    lemma_keyed_at(user_pairs(self.users@), i as int);
                }
                Some(self.users[i].password.clone())
            },
            None => None,
        }
    }

    /// The configured user names, each once, in no particular order.
    pub fn usernames(&self) -> (names: Vec<String>)
        ensures
            lists_keys_exactly(self@, string_views(names@)),
    {
        proof {
            use_type_invariant(self);
        }
        let mut names: Vec<String> = Vec::new();
        let mut i: usize = 0;
        while i < self.users.len()
            invariant
                keys_distinct(user_pairs(self.users@)),
                i <= self.users.len(),
                names.len() == i,
                forall|j: int| 0 <= j < i ==> names@[j]@ == self.users@[j].username@,
            decreases self.users.len() - i,
        {
            names.push(self.users[i].username.clone());
            i = i + 1;
        }
        proof {
            lemma_keys_listed(user_pairs(self.users@), string_views(names@));
        }
        names
    }
}

/// A user logs in with the password of the last entry configured for them.
pub proof fn law_configured_password_logs_in(entries: Seq<UserEntry>, e: UserEntry)
    ensures
        spec_accepts(configured_users(entries.push(e)), e.username@, Some(e.password@)),
{
    assert(entries.push(e).drop_last() =~= entries);
}

/// Only a configured (user, password) pair logs in; without a password nobody does.
pub proof fn law_only_configured_pairs_log_in(
    entries: Seq<UserEntry>,
    username: Seq<char>,
    password: Option<Seq<char>>,
)
    requires
        spec_accepts(configured_users(entries), username, password),
    ensures
        password is Some,
        exists|i: int|
            0 <= i < entries.len() && entries[i].username@ == username && entries[i].password@
                == password->0,
    decreases entries.len(),
{
    let n = entries.len() as int;
    if entries.last().username@ == username {
        assert(entries[n - 1].username@ == username);
    } else {
        law_only_configured_pairs_log_in(entries.drop_last(), username, password);
        let i = choose|i: int|
            0 <= i < entries.drop_last().len() && entries.drop_last()[i].username@ == username
                && entries.drop_last()[i].password@ == password->0;
        assert(entries[i] == entries.drop_last()[i]);
    }
}

/// The users of the table are exactly the configured names.
pub proof fn law_configured_names_are_the_users(entries: Seq<UserEntry>, username: Seq<char>)
    ensures
        configured_users(entries).contains_key(username) <==> exists|i: int|
            0 <= i < entries.len() && #[trigger] entries[i].username@ == username,
    decreases entries.len(),
{
    if entries.len() > 0 {
        let rest = entries.drop_last();
        law_configured_names_are_the_users(rest, username);
        if configured_users(rest).contains_key(username) {
            let i = choose|i: int| 0 <= i < rest.len() && #[trigger] rest[i].username@ == username;
            assert(entries[i] == rest[i]);
        }
        if exists|i: int| 0 <= i < entries.len() && #[trigger] entries[i].username@ == username {
            let i = choose|i: int| 0 <= i < entries.len() && #[trigger] entries[i].username@ == username;
            if i < entries.len() - 1 {
                assert(rest[i] == entries[i]);
            }
        }
    }
}

/// Every configured user logs in with the password of their last entry, and
/// an entry for one user never changes another user's password.
pub proof fn law_every_configured_user_logs_in(entries: Seq<UserEntry>, i: int)
    requires
        0 <= i < entries.len(),
        forall|j: int| i < j < entries.len() ==> #[trigger] entries[j].username@ != entries[i].username@,
    ensures
        spec_accepts(configured_users(entries), entries[i].username@, Some(entries[i].password@)),
    decreases entries.len(),
{
    let rest = entries.drop_last();
    if i == entries.len() - 1 {
        assert(entries == rest.push(entries.last()));
        law_configured_password_logs_in(rest, entries.last());
    } else {
        assert forall|j: int| i < j < rest.len() implies #[trigger] rest[j].username@
            != rest[i].username@ by {
            assert(rest[j] == entries[j]);
        }
        law_every_configured_user_logs_in(rest, i);
        assert(rest[i] == entries[i]);
        assert(entries.last().username@ != entries[i].username@) by {
            assert(entries[entries.len() - 1] == entries.last());
        }
    }
}

} // verus!
