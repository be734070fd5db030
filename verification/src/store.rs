//! Account store: the relational side of the service, modelled as three
//! in-memory tables — passports, profiles and identities — linked by
//! explicit foreign-key fields and filled in that order.
//!
//! The store owns the rows and their invariants: row ids are unique and
//! allocated from a single counter, emails and usernames are unique across
//! identities, every identity points at an existing profile, every profile
//! at an existing passport (when it has one), and every stored password
//! hash is a parseable encoded hash. An availability switch models the
//! backend being unreachable, and three per-table failure switches model a
//! single insert failing, so that the transactional contracts of the
//! protocols can be exercised.

use vstd::prelude::*;

use crate::errors::AuthServiceError;
use crate::errors::UserServiceError;
use crate::hashing::argon_valid_encoded;
use crate::roles::UserProfilesRoles;

verus! {

/// Passport row: personal names and a birth date, held as an epoch day
/// number.
#[derive(Debug)]
pub struct Passport {
    pub uid: u64,
    pub first_name: String,
    pub second_name: String,
    pub patronymic: Option<String>,
    pub birthday_date: i64,
}

/// Profile row: links to the passport and carries the role.
#[derive(Debug)]
pub struct UserProfile {
    pub uid: u64,
    pub passport_uid: Option<u64>,
    pub law_profile: Option<u64>,
    pub avatar_uid: Option<u64>,
    pub role: UserProfilesRoles,
}

/// Identity row: unique login data plus the encoded password hash.
#[derive(Debug)]
pub struct AuthData {
    pub uid: u64,
    pub profile_uid: u64,
    pub email: String,
    pub username: String,
    pub password: String,
}

/// Passport fields as they arrive from a registration request.
#[derive(Debug)]
pub struct PassportOrmData {
    pub first_name: String,
    pub second_name: String,
    pub patronymic: Option<String>,
    pub birthday_date: i64,
}

impl Clone for UserProfile {
    fn clone(&self) -> (r: Self)
        ensures
            r == *self,
    {
        UserProfile {
            uid: self.uid,
            passport_uid: self.passport_uid,
            law_profile: self.law_profile,
            avatar_uid: self.avatar_uid,
            role: self.role,
        }
    }
}

impl Clone for AuthData {
    fn clone(&self) -> (r: Self)
        ensures
            r == *self,
    {
        AuthData {
            uid: self.uid,
            profile_uid: self.profile_uid,
            email: self.email.clone(),
            username: self.username.clone(),
            password: self.password.clone(),
        }
    }
}

/// Whether a login string selects this identity: it equals the email or the
/// username.
pub open spec fn matches_login(d: AuthData, login: Seq<char>) -> bool {
    d.email@ == login || d.username@ == login
}

/// First identity a login string selects, scanning in insertion order.
pub open spec fn lookup_login_in(s: Seq<AuthData>, login: Seq<char>) -> Option<AuthData>
    decreases s.len(),
{
    if s.len() == 0 {
        None
    } else if matches_login(s[0], login) {
        Some(s[0])
    } else {
        lookup_login_in(s.drop_first(), login)
    }
}

/// First identity with this row id, scanning in insertion order.
pub open spec fn lookup_identity_in(s: Seq<AuthData>, uid: u64) -> Option<AuthData>
    decreases s.len(),
{
    if s.len() == 0 {
        None
    } else if s[0].uid == uid {
        Some(s[0])
    } else {
        lookup_identity_in(s.drop_first(), uid)
    }
}

/// First profile with this row id, scanning in insertion order.
pub open spec fn lookup_profile_in(s: Seq<UserProfile>, uid: u64) -> Option<UserProfile>
    decreases s.len(),
{
    if s.len() == 0 {
        None
    } else if s[0].uid == uid {
        Some(s[0])
    } else {
        lookup_profile_in(s.drop_first(), uid)
    }
}

proof fn lemma_lookup_login_at(s: Seq<AuthData>, login: Seq<char>, i: int)
    requires
        0 <= i < s.len(),
        matches_login(s[i], login),
        forall|j: int| 0 <= j < i ==> !matches_login(s[j], login),
    ensures
        lookup_login_in(s, login) == Some(s[i]),
    decreases i,
{
    if i > 0 {
        assert forall|j: int| 0 <= j < i - 1 implies !matches_login(
            s.drop_first()[j],
            login,
        ) by {
            assert(s.drop_first()[j] == s[j + 1]);
        }
        assert(s.drop_first()[i - 1] == s[i]);
        lemma_lookup_login_at(s.drop_first(), login, i - 1);
    }
}

proof fn lemma_lookup_login_none(s: Seq<AuthData>, login: Seq<char>)
    requires
        forall|j: int| 0 <= j < s.len() ==> !matches_login(s[j], login),
    ensures
        lookup_login_in(s, login) is None,
    decreases s.len(),
{
    if s.len() > 0 {
        assert forall|j: int| 0 <= j < s.drop_first().len() implies !matches_login(
            s.drop_first()[j],
            login,
        ) by {
            assert(s.drop_first()[j] == s[j + 1]);
        }
        lemma_lookup_login_none(s.drop_first(), login);
    }
}

proof fn lemma_lookup_identity_at(s: Seq<AuthData>, uid: u64, i: int)
    requires
        0 <= i < s.len(),
        s[i].uid == uid,
        forall|j: int| 0 <= j < i ==> s[j].uid != uid,
    ensures
        lookup_identity_in(s, uid) == Some(s[i]),
    decreases i,
{
    if i > 0 {
        assert forall|j: int| 0 <= j < i - 1 implies s.drop_first()[j].uid != uid by {
            assert(s.drop_first()[j] == s[j + 1]);
        }
        assert(s.drop_first()[i - 1] == s[i]);
        lemma_lookup_identity_at(s.drop_first(), uid, i - 1);
    }
}

proof fn lemma_lookup_identity_none(s: Seq<AuthData>, uid: u64)
    requires
        forall|j: int| 0 <= j < s.len() ==> s[j].uid != uid,
    ensures
        lookup_identity_in(s, uid) is None,
    decreases s.len(),
{
    if s.len() > 0 {
        assert forall|j: int| 0 <= j < s.drop_first().len() implies s.drop_first()[j].uid
            != uid by {
            assert(s.drop_first()[j] == s[j + 1]);
        }
        lemma_lookup_identity_none(s.drop_first(), uid);
    }
}

proof fn lemma_lookup_profile_at(s: Seq<UserProfile>, uid: u64, i: int)
    requires
        0 <= i < s.len(),
        s[i].uid == uid,
        forall|j: int| 0 <= j < i ==> s[j].uid != uid,
    ensures
        lookup_profile_in(s, uid) == Some(s[i]),
    decreases i,
{
    if i > 0 {
        assert forall|j: int| 0 <= j < i - 1 implies s.drop_first()[j].uid != uid by {
            assert(s.drop_first()[j] == s[j + 1]);
        }
        assert(s.drop_first()[i - 1] == s[i]);
        lemma_lookup_profile_at(s.drop_first(), uid, i - 1);
    }
}

proof fn lemma_lookup_profile_none(s: Seq<UserProfile>, uid: u64)
    requires
        forall|j: int| 0 <= j < s.len() ==> s[j].uid != uid,
    ensures
        lookup_profile_in(s, uid) is None,
    decreases s.len(),
{
    if s.len() > 0 {
        assert forall|j: int| 0 <= j < s.drop_first().len() implies s.drop_first()[j].uid
            != uid by {
            assert(s.drop_first()[j] == s[j + 1]);
        }
        lemma_lookup_profile_none(s.drop_first(), uid);
    }
}

/// A successful login lookup hands back one of the rows, and that row
/// matches the login.
pub proof fn lemma_lookup_login_member(s: Seq<AuthData>, login: Seq<char>)
    requires
        lookup_login_in(s, login) is Some,
    ensures
        exists|i: int|
            0 <= i < s.len() && s[i] == lookup_login_in(s, login).unwrap() && matches_login(
                s[i],
                login,
            ),
    decreases s.len(),
{
    if s.len() > 0 {
        if matches_login(s[0], login) {
            assert(0 <= 0 < s.len() && s[0] == lookup_login_in(s, login).unwrap()
                && matches_login(s[0], login));
        } else {
            lemma_lookup_login_member(s.drop_first(), login);
            let i = choose|i: int|
                0 <= i < s.drop_first().len() && s.drop_first()[i] == lookup_login_in(
                    s.drop_first(),
                    login,
                ).unwrap() && matches_login(s.drop_first()[i], login);
            assert(s[i + 1] == s.drop_first()[i]);
            assert(0 <= i + 1 < s.len() && s[i + 1] == lookup_login_in(s, login).unwrap()
                && matches_login(s[i + 1], login));
        }
    }
}

/// A successful identity lookup hands back one of the rows, with the id
/// that was asked for.
pub proof fn lemma_lookup_identity_member(s: Seq<AuthData>, uid: u64)
    requires
        lookup_identity_in(s, uid) is Some,
    ensures
        exists|i: int|
            0 <= i < s.len() && s[i] == lookup_identity_in(s, uid).unwrap() && s[i].uid == uid,
    decreases s.len(),
{
    if s.len() > 0 {
        if s[0].uid == uid {
            assert(0 <= 0 < s.len() && s[0] == lookup_identity_in(s, uid).unwrap() && s[0].uid
                == uid);
        } else {
            lemma_lookup_identity_member(s.drop_first(), uid);
            let i = choose|i: int|
                0 <= i < s.drop_first().len() && s.drop_first()[i] == lookup_identity_in(
                    s.drop_first(),
                    uid,
                ).unwrap() && s.drop_first()[i].uid == uid;
            assert(s[i + 1] == s.drop_first()[i]);
            assert(0 <= i + 1 < s.len() && s[i + 1] == lookup_identity_in(s, uid).unwrap() && s[i
                + 1].uid == uid);
        }
    }
}

/// A profile lookup succeeds as soon as some row has the id.
pub proof fn lemma_lookup_profile_some(s: Seq<UserProfile>, uid: u64)
    requires
        exists|i: int| 0 <= i < s.len() && s[i].uid == uid,
    ensures
        lookup_profile_in(s, uid) is Some,
    decreases s.len(),
{
    if s.len() > 0 && s[0].uid != uid {
        let i = choose|i: int| 0 <= i < s.len() && s[i].uid == uid;
        assert(i > 0);
        assert(s.drop_first()[i - 1] == s[i]);
        assert(0 <= i - 1 < s.drop_first().len() && s.drop_first()[i - 1].uid == uid);
        lemma_lookup_profile_some(s.drop_first(), uid);
    }
}

/// The account store.
pub struct AccountStore {
    passports: Vec<Passport>,
    profiles: Vec<UserProfile>,
    identities: Vec<AuthData>,
    next_uid: u64,
    available: bool,
    fail_passport_inserts: bool,
    fail_profile_inserts: bool,
    fail_identity_inserts: bool,
}

impl AccountStore {
    pub closed spec fn spec_passports(self) -> Seq<Passport> {
        self.passports@
    }

    pub closed spec fn spec_profiles(self) -> Seq<UserProfile> {
        self.profiles@
    }

    pub closed spec fn spec_identities(self) -> Seq<AuthData> {
        self.identities@
    }

    pub closed spec fn spec_next_uid(self) -> u64 {
        self.next_uid
    }

    pub closed spec fn spec_available(self) -> bool {
        self.available
    }

    pub closed spec fn spec_fail_passport_inserts(self) -> bool {
        self.fail_passport_inserts
    }

    pub closed spec fn spec_fail_profile_inserts(self) -> bool {
        self.fail_profile_inserts
    }

    pub closed spec fn spec_fail_identity_inserts(self) -> bool {
        self.fail_identity_inserts
    }

    /// All three tables at once; the unit in which transactional contracts
    /// speak about the store.
    pub open spec fn rows(self) -> (Seq<Passport>, Seq<UserProfile>, Seq<AuthData>) {
        (self.spec_passports(), self.spec_profiles(), self.spec_identities())
    }

    /// Whether some passport row has this id.
    pub open spec fn has_passport(self, uid: u64) -> bool {
        exists|i: int| 0 <= i < self.spec_passports().len() && self.spec_passports()[i].uid == uid
    }

    /// Whether some profile row has this id.
    pub open spec fn has_profile(self, uid: u64) -> bool {
        exists|i: int| 0 <= i < self.spec_profiles().len() && self.spec_profiles()[i].uid == uid
    }

    /// Whether some identity row carries this email.
    pub open spec fn has_email(self, email: Seq<char>) -> bool {
        exists|i: int|
            0 <= i < self.spec_identities().len() && self.spec_identities()[i].email@ == email
    }

    /// Whether some identity row carries this username.
    pub open spec fn has_username(self, username: Seq<char>) -> bool {
        exists|i: int|
            0 <= i < self.spec_identities().len() && self.spec_identities()[i].username@
                == username
    }

    /// Whether some identity row matches this login string.
    pub open spec fn has_login(self, login: Seq<char>) -> bool {
        exists|i: int|
            0 <= i < self.spec_identities().len() && matches_login(
                self.spec_identities()[i],
                login,
            )
    }

    /// The identity a login string selects.
    pub open spec fn lookup_login(self, login: Seq<char>) -> Option<AuthData> {
        lookup_login_in(self.spec_identities(), login)
    }

    /// The identity with this row id.
    pub open spec fn lookup_identity(self, uid: u64) -> Option<AuthData> {
        lookup_identity_in(self.spec_identities(), uid)
    }

    /// The profile with this row id.
    pub open spec fn lookup_profile(self, uid: u64) -> Option<UserProfile> {
        lookup_profile_in(self.spec_profiles(), uid)
    }

    /// Row ids left to allocate.
    pub open spec fn can_allocate(self, n: u64) -> bool {
        self.spec_next_uid() + n <= u64::MAX
    }

    /// Store invariant; see the module comment.
    pub open spec fn wf(self) -> bool {
        &&& forall|i: int, j: int|
            0 <= i < j < self.spec_passports().len() ==> self.spec_passports()[i].uid
                != self.spec_passports()[j].uid
        &&& forall|i: int, j: int|
            0 <= i < j < self.spec_profiles().len() ==> self.spec_profiles()[i].uid
                != self.spec_profiles()[j].uid
        &&& forall|i: int, j: int|
            0 <= i < j < self.spec_identities().len() ==> self.spec_identities()[i].uid
                != self.spec_identities()[j].uid
        &&& forall|i: int|
            0 <= i < self.spec_passports().len() ==> self.spec_passports()[i].uid
                < self.spec_next_uid()
        &&& forall|i: int|
            0 <= i < self.spec_profiles().len() ==> self.spec_profiles()[i].uid
                < self.spec_next_uid()
        &&& forall|i: int|
            0 <= i < self.spec_identities().len() ==> self.spec_identities()[i].uid
                < self.spec_next_uid()
        &&& forall|i: int, j: int|
            0 <= i < j < self.spec_identities().len() ==> self.spec_identities()[i].email@
                != self.spec_identities()[j].email@
        &&& forall|i: int, j: int|
            0 <= i < j < self.spec_identities().len() ==> self.spec_identities()[i].username@
                != self.spec_identities()[j].username@
        &&& forall|i: int|
            0 <= i < self.spec_identities().len() ==> self.has_profile(
                #[trigger] self.spec_identities()[i].profile_uid,
            )
        &&& forall|i: int|
            0 <= i < self.spec_profiles().len() ==> (#[trigger] self.spec_profiles()[i].passport_uid
                matches Some(p) ==> self.has_passport(p))
        &&& forall|i: int|
            0 <= i < self.spec_identities().len() ==> argon_valid_encoded(
                #[trigger] self.spec_identities()[i].password@,
            )
    }

    /// Well-formedness depends only on the rows and on the id counter being
    /// at least as large as every allocated id; it survives any change that
    /// keeps the rows and does not decrease the counter.
    pub proof fn lemma_wf_congruent(a: AccountStore, b: AccountStore)
        requires
            a.wf(),
            b.rows() == a.rows(),
            b.spec_next_uid() >= a.spec_next_uid(),
        ensures
            b.wf(),
    {
        assert(b.spec_passports() == a.spec_passports());
        assert(b.spec_profiles() == a.spec_profiles());
        assert(b.spec_identities() == a.spec_identities());
        assert forall|i: int, j: int|
            0 <= i < j < b.spec_passports().len() implies b.spec_passports()[i].uid
            != b.spec_passports()[j].uid by {
            assert(a.spec_passports()[i].uid != a.spec_passports()[j].uid);
        }
        assert forall|i: int, j: int|
            0 <= i < j < b.spec_profiles().len() implies b.spec_profiles()[i].uid
            != b.spec_profiles()[j].uid by {
            assert(a.spec_profiles()[i].uid != a.spec_profiles()[j].uid);
        }
        assert forall|i: int, j: int|
            0 <= i < j < b.spec_identities().len() implies b.spec_identities()[i].uid
            != b.spec_identities()[j].uid by {
            assert(a.spec_identities()[i].uid != a.spec_identities()[j].uid);
        }
        assert forall|i: int|
            0 <= i < b.spec_passports().len() implies b.spec_passports()[i].uid
            < b.spec_next_uid() by {
            assert(a.spec_passports()[i].uid < a.spec_next_uid());
        }
        assert forall|i: int|
            0 <= i < b.spec_profiles().len() implies b.spec_profiles()[i].uid
            < b.spec_next_uid() by {
            assert(a.spec_profiles()[i].uid < a.spec_next_uid());
        }
        assert forall|i: int|
            0 <= i < b.spec_identities().len() implies b.spec_identities()[i].uid
            < b.spec_next_uid() by {
            assert(a.spec_identities()[i].uid < a.spec_next_uid());
        }
        assert forall|i: int, j: int|
            0 <= i < j < b.spec_identities().len() implies b.spec_identities()[i].email@
            != b.spec_identities()[j].email@ by {
            assert(a.spec_identities()[i].email@ != a.spec_identities()[j].email@);
        }
        assert forall|i: int, j: int|
            0 <= i < j < b.spec_identities().len() implies b.spec_identities()[i].username@
            != b.spec_identities()[j].username@ by {
            assert(a.spec_identities()[i].username@ != a.spec_identities()[j].username@);
        }
        assert forall|i: int|
            0 <= i < b.spec_identities().len() implies b.has_profile(
            #[trigger] b.spec_identities()[i].profile_uid,
        ) by {
            let x = b.spec_identities()[i].profile_uid;
            assert(a.spec_identities()[i].profile_uid == x);
            assert(a.has_profile(x));
            let j = choose|j: int|
                0 <= j < a.spec_profiles().len() && a.spec_profiles()[j].uid == x;
            assert(b.spec_profiles()[j].uid == x);
        }
        assert forall|i: int|
            0 <= i < b.spec_profiles().len() implies (#[trigger] b.spec_profiles()[i].passport_uid
            matches Some(p) ==> b.has_passport(p)) by {
            match b.spec_profiles()[i].passport_uid {
                Some(p) => {
                    assert(a.spec_profiles()[i].passport_uid == Some(p));
                    assert(a.has_passport(p));
                    let j = choose|j: int|
                        0 <= j < a.spec_passports().len() && a.spec_passports()[j].uid == p;
                    assert(b.spec_passports()[j].uid == p);
                },
                None => {},
            }
        }
        assert forall|i: int|
            0 <= i < b.spec_identities().len() implies argon_valid_encoded(
            #[trigger] b.spec_identities()[i].password@,
        ) by {
            assert(argon_valid_encoded(a.spec_identities()[i].password@));
        }
    }

    /// Appending a passport row with a freshly allocated id preserves the
    /// invariant.
    proof fn lemma_wf_push_passport(a: AccountStore, b: AccountStore, row: Passport)
        requires
            a.wf(),
            b.spec_passports() == a.spec_passports().push(row),
            b.spec_profiles() == a.spec_profiles(),
            b.spec_identities() == a.spec_identities(),
            row.uid == a.spec_next_uid(),
            b.spec_next_uid() > a.spec_next_uid(),
        ensures
            b.wf(),
    {
        let n = a.spec_passports().len() as int;
        assert forall|i: int, j: int|
            0 <= i < j < b.spec_passports().len() implies b.spec_passports()[i].uid
            != b.spec_passports()[j].uid by {
            if j < n {
                assert(a.spec_passports()[i].uid != a.spec_passports()[j].uid);
            } else {
                assert(b.spec_passports()[j] == row);
                assert(b.spec_passports()[i] == a.spec_passports()[i]);
                assert(a.spec_passports()[i].uid < a.spec_next_uid());
            }
        }
        assert forall|i: int|
            0 <= i < b.spec_passports().len() implies b.spec_passports()[i].uid
            < b.spec_next_uid() by {
            if i < n {
                assert(a.spec_passports()[i].uid < a.spec_next_uid());
            } else {
                assert(b.spec_passports()[i] == row);
            }
        }
        assert forall|i: int, j: int|
            0 <= i < j < b.spec_profiles().len() implies b.spec_profiles()[i].uid
            != b.spec_profiles()[j].uid by {
            assert(a.spec_profiles()[i].uid != a.spec_profiles()[j].uid);
        }
        assert forall|i: int, j: int|
            0 <= i < j < b.spec_identities().len() implies b.spec_identities()[i].uid
            != b.spec_identities()[j].uid by {
            assert(a.spec_identities()[i].uid != a.spec_identities()[j].uid);
        }
        assert forall|i: int|
            0 <= i < b.spec_profiles().len() implies b.spec_profiles()[i].uid
            < b.spec_next_uid() by {
            assert(a.spec_profiles()[i].uid < a.spec_next_uid());
        }
        assert forall|i: int|
            0 <= i < b.spec_identities().len() implies b.spec_identities()[i].uid
            < b.spec_next_uid() by {
            assert(a.spec_identities()[i].uid < a.spec_next_uid());
        }
        assert forall|i: int, j: int|
            0 <= i < j < b.spec_identities().len() implies b.spec_identities()[i].email@
            != b.spec_identities()[j].email@ by {
            assert(a.spec_identities()[i].email@ != a.spec_identities()[j].email@);
        }
        assert forall|i: int, j: int|
            0 <= i < j < b.spec_identities().len() implies b.spec_identities()[i].username@
            != b.spec_identities()[j].username@ by {
            assert(a.spec_identities()[i].username@ != a.spec_identities()[j].username@);
        }
        assert forall|i: int|
            0 <= i < b.spec_identities().len() implies b.has_profile(
            #[trigger] b.spec_identities()[i].profile_uid,
        ) by {
            let x = b.spec_identities()[i].profile_uid;
            assert(a.spec_identities()[i].profile_uid == x);
            assert(a.has_profile(x));
            let j = choose|j: int|
                0 <= j < a.spec_profiles().len() && a.spec_profiles()[j].uid == x;
            assert(b.spec_profiles()[j].uid == x);
        }
        assert forall|i: int|
            0 <= i < b.spec_profiles().len() implies (#[trigger] b.spec_profiles()[i].passport_uid
            matches Some(p) ==> b.has_passport(p)) by {
            match b.spec_profiles()[i].passport_uid {
                Some(p) => {
                    assert(a.spec_profiles()[i].passport_uid == Some(p));
                    assert(a.has_passport(p));
                    let j = choose|j: int|
                        0 <= j < a.spec_passports().len() && a.spec_passports()[j].uid == p;
                    assert(b.spec_passports()[j] == a.spec_passports()[j]);
                },
                None => {},
            }
        }
        assert forall|i: int|
            0 <= i < b.spec_identities().len() implies argon_valid_encoded(
            #[trigger] b.spec_identities()[i].password@,
        ) by {
            assert(argon_valid_encoded(a.spec_identities()[i].password@));
        }
    }

    /// Appending a profile row with a freshly allocated id and a valid
    /// passport link preserves the invariant.
    proof fn lemma_wf_push_profile(a: AccountStore, b: AccountStore, row: UserProfile)
        requires
            a.wf(),
            b.spec_passports() == a.spec_passports(),
            b.spec_profiles() == a.spec_profiles().push(row),
            b.spec_identities() == a.spec_identities(),
            row.uid == a.spec_next_uid(),
            b.spec_next_uid() > a.spec_next_uid(),
            row.passport_uid matches Some(p) ==> a.has_passport(p),
        ensures
            b.wf(),
    {
        let n = a.spec_profiles().len() as int;
        assert forall|i: int, j: int|
            0 <= i < j < b.spec_profiles().len() implies b.spec_profiles()[i].uid
            != b.spec_profiles()[j].uid by {
            if j < n {
                assert(a.spec_profiles()[i].uid != a.spec_profiles()[j].uid);
            } else {
                assert(b.spec_profiles()[j] == row);
                assert(b.spec_profiles()[i] == a.spec_profiles()[i]);
                assert(a.spec_profiles()[i].uid < a.spec_next_uid());
            }
        }
        assert forall|i: int|
            0 <= i < b.spec_profiles().len() implies b.spec_profiles()[i].uid
            < b.spec_next_uid() by {
            if i < n {
                assert(a.spec_profiles()[i].uid < a.spec_next_uid());
            } else {
                assert(b.spec_profiles()[i] == row);
            }
        }
        assert forall|i: int, j: int|
            0 <= i < j < b.spec_passports().len() implies b.spec_passports()[i].uid
            != b.spec_passports()[j].uid by {
            assert(a.spec_passports()[i].uid != a.spec_passports()[j].uid);
        }
        assert forall|i: int, j: int|
            0 <= i < j < b.spec_identities().len() implies b.spec_identities()[i].uid
            != b.spec_identities()[j].uid by {
            assert(a.spec_identities()[i].uid != a.spec_identities()[j].uid);
        }
        assert forall|i: int|
            0 <= i < b.spec_passports().len() implies b.spec_passports()[i].uid
            < b.spec_next_uid() by {
            assert(a.spec_passports()[i].uid < a.spec_next_uid());
        }
        assert forall|i: int|
            0 <= i < b.spec_identities().len() implies b.spec_identities()[i].uid
            < b.spec_next_uid() by {
            assert(a.spec_identities()[i].uid < a.spec_next_uid());
        }
        assert forall|i: int, j: int|
            0 <= i < j < b.spec_identities().len() implies b.spec_identities()[i].email@
            != b.spec_identities()[j].email@ by {
            assert(a.spec_identities()[i].email@ != a.spec_identities()[j].email@);
        }
        assert forall|i: int, j: int|
            0 <= i < j < b.spec_identities().len() implies b.spec_identities()[i].username@
            != b.spec_identities()[j].username@ by {
            assert(a.spec_identities()[i].username@ != a.spec_identities()[j].username@);
        }
        assert forall|i: int|
            0 <= i < b.spec_identities().len() implies b.has_profile(
            #[trigger] b.spec_identities()[i].profile_uid,
        ) by {
            let x = b.spec_identities()[i].profile_uid;
            assert(a.spec_identities()[i].profile_uid == x);
            assert(a.has_profile(x));
            let j = choose|j: int|
                0 <= j < a.spec_profiles().len() && a.spec_profiles()[j].uid == x;
            assert(b.spec_profiles()[j] == a.spec_profiles()[j]);
        }
        assert forall|i: int|
            0 <= i < b.spec_profiles().len() implies (#[trigger] b.spec_profiles()[i].passport_uid
            matches Some(p) ==> b.has_passport(p)) by {
            match b.spec_profiles()[i].passport_uid {
                Some(p) => {
                    if i < n {
                        assert(a.spec_profiles()[i].passport_uid == Some(p));
                        assert(a.has_passport(p));
                    } else {
                        assert(b.spec_profiles()[i] == row);
                        assert(a.has_passport(p));
                    }
                    let j = choose|j: int|
                        0 <= j < a.spec_passports().len() && a.spec_passports()[j].uid == p;
                    assert(b.spec_passports()[j].uid == p);
                },
                None => {},
            }
        }
        assert forall|i: int|
            0 <= i < b.spec_identities().len() implies argon_valid_encoded(
            #[trigger] b.spec_identities()[i].password@,
        ) by {
            assert(argon_valid_encoded(a.spec_identities()[i].password@));
        }
    }

    /// Appending an identity row with a freshly allocated id, fresh login
    /// data, a valid profile link and a parseable password hash preserves
    /// the invariant.
    proof fn lemma_wf_push_identity(a: AccountStore, b: AccountStore, row: AuthData)
        requires
            a.wf(),
            b.spec_passports() == a.spec_passports(),
            b.spec_profiles() == a.spec_profiles(),
            b.spec_identities() == a.spec_identities().push(row),
            row.uid == a.spec_next_uid(),
            b.spec_next_uid() > a.spec_next_uid(),
            a.has_profile(row.profile_uid),
            !a.has_email(row.email@),
            !a.has_username(row.username@),
            argon_valid_encoded(row.password@),
        ensures
            b.wf(),
    {
        let n = a.spec_identities().len() as int;
        assert forall|i: int, j: int|
            0 <= i < j < b.spec_identities().len() implies b.spec_identities()[i].uid
            != b.spec_identities()[j].uid by {
            if j < n {
                assert(a.spec_identities()[i].uid != a.spec_identities()[j].uid);
            } else {
                assert(b.spec_identities()[j] == row);
                assert(b.spec_identities()[i] == a.spec_identities()[i]);
                assert(a.spec_identities()[i].uid < a.spec_next_uid());
            }
        }
        assert forall|i: int|
            0 <= i < b.spec_identities().len() implies b.spec_identities()[i].uid
            < b.spec_next_uid() by {
            if i < n {
                assert(a.spec_identities()[i].uid < a.spec_next_uid());
            } else {
                assert(b.spec_identities()[i] == row);
            }
        }
        assert forall|i: int, j: int|
            0 <= i < j < b.spec_identities().len() implies b.spec_identities()[i].email@
            != b.spec_identities()[j].email@ by {
            if j < n {
                assert(a.spec_identities()[i].email@ != a.spec_identities()[j].email@);
            } else {
                assert(b.spec_identities()[j] == row);
                assert(b.spec_identities()[i] == a.spec_identities()[i]);
                if a.spec_identities()[i].email@ == row.email@ {
                    assert(a.has_email(row.email@));
                }
            }
        }
        assert forall|i: int, j: int|
            0 <= i < j < b.spec_identities().len() implies b.spec_identities()[i].username@
            != b.spec_identities()[j].username@ by {
            if j < n {
                assert(a.spec_identities()[i].username@ != a.spec_identities()[j].username@);
            } else {
                assert(b.spec_identities()[j] == row);
                assert(b.spec_identities()[i] == a.spec_identities()[i]);
                if a.spec_identities()[i].username@ == row.username@ {
                    assert(a.has_username(row.username@));
                }
            }
        }
        assert forall|i: int, j: int|
            0 <= i < j < b.spec_passports().len() implies b.spec_passports()[i].uid
            != b.spec_passports()[j].uid by {
            assert(a.spec_passports()[i].uid != a.spec_passports()[j].uid);
        }
        assert forall|i: int, j: int|
            0 <= i < j < b.spec_profiles().len() implies b.spec_profiles()[i].uid
            != b.spec_profiles()[j].uid by {
            assert(a.spec_profiles()[i].uid != a.spec_profiles()[j].uid);
        }
        assert forall|i: int|
            0 <= i < b.spec_passports().len() implies b.spec_passports()[i].uid
            < b.spec_next_uid() by {
            assert(a.spec_passports()[i].uid < a.spec_next_uid());
        }
        assert forall|i: int|
            0 <= i < b.spec_profiles().len() implies b.spec_profiles()[i].uid
            < b.spec_next_uid() by {
            assert(a.spec_profiles()[i].uid < a.spec_next_uid());
        }
        assert forall|i: int|
            0 <= i < b.spec_identities().len() implies b.has_profile(
            #[trigger] b.spec_identities()[i].profile_uid,
        ) by {
            let x = b.spec_identities()[i].profile_uid;
            if i < n {
                assert(a.spec_identities()[i].profile_uid == x);
                assert(a.has_profile(x));
            } else {
                assert(b.spec_identities()[i] == row);
                assert(a.has_profile(x));
            }
            let j = choose|j: int|
                0 <= j < a.spec_profiles().len() && a.spec_profiles()[j].uid == x;
            assert(b.spec_profiles()[j].uid == x);
        }
        assert forall|i: int|
            0 <= i < b.spec_profiles().len() implies (#[trigger] b.spec_profiles()[i].passport_uid
            matches Some(p) ==> b.has_passport(p)) by {
            match b.spec_profiles()[i].passport_uid {
                Some(p) => {
                    assert(a.spec_profiles()[i].passport_uid == Some(p));
                    assert(a.has_passport(p));
                    let j = choose|j: int|
                        0 <= j < a.spec_passports().len() && a.spec_passports()[j].uid == p;
                    assert(b.spec_passports()[j].uid == p);
                },
                None => {},
            }
        }
        assert forall|i: int|
            0 <= i < b.spec_identities().len() implies argon_valid_encoded(
            #[trigger] b.spec_identities()[i].password@,
        ) by {
            if i < n {
                assert(argon_valid_encoded(a.spec_identities()[i].password@));
            } else {
                assert(b.spec_identities()[i] == row);
            }
        }
    }

    /// An empty, reachable store with no injected faults.
    pub fn new() -> (r: AccountStore)
        ensures
            r.wf(),
            r.spec_passports() == Seq::<Passport>::empty(),
            r.spec_profiles() == Seq::<UserProfile>::empty(),
            r.spec_identities() == Seq::<AuthData>::empty(),
            r.spec_next_uid() == 1u64,
            r.spec_available(),
            !r.spec_fail_passport_inserts(),
            !r.spec_fail_profile_inserts(),
            !r.spec_fail_identity_inserts(),
    {
        AccountStore {
            passports: Vec::new(),
            profiles: Vec::new(),
            identities: Vec::new(),
            next_uid: 1,
            available: true,
            fail_passport_inserts: false,
            fail_profile_inserts: false,
            fail_identity_inserts: false,
        }
    }

    /// Switches the modelled reachability of the backend.
    pub fn set_available(&mut self, available: bool)
        ensures
            final(self).spec_available() == available,
            final(self).rows() == old(self).rows(),
            final(self).spec_next_uid() == old(self).spec_next_uid(),
            final(self).spec_fail_passport_inserts() == old(self).spec_fail_passport_inserts(),
            final(self).spec_fail_profile_inserts() == old(self).spec_fail_profile_inserts(),
            final(self).spec_fail_identity_inserts() == old(self).spec_fail_identity_inserts(),
            old(self).wf() ==> final(self).wf(),
    {
        self.available = available;
        proof {
            if old(self).wf() {
                AccountStore::lemma_wf_congruent(*old(self), *self);
            }
        }
    }

    /// Injects or clears a failure of the next passport inserts.
    pub fn set_fail_passport_inserts(&mut self, fail: bool)
        ensures
            final(self).spec_fail_passport_inserts() == fail,
            final(self).rows() == old(self).rows(),
            final(self).spec_next_uid() == old(self).spec_next_uid(),
            final(self).spec_available() == old(self).spec_available(),
            final(self).spec_fail_profile_inserts() == old(self).spec_fail_profile_inserts(),
            final(self).spec_fail_identity_inserts() == old(self).spec_fail_identity_inserts(),
            old(self).wf() ==> final(self).wf(),
    {
        self.fail_passport_inserts = fail;
        proof {
            if old(self).wf() {
                AccountStore::lemma_wf_congruent(*old(self), *self);
            }
        }
    }

    /// Injects or clears a failure of the next profile inserts.
    pub fn set_fail_profile_inserts(&mut self, fail: bool)
        ensures
            final(self).spec_fail_profile_inserts() == fail,
            final(self).rows() == old(self).rows(),
            final(self).spec_next_uid() == old(self).spec_next_uid(),
            final(self).spec_available() == old(self).spec_available(),
            final(self).spec_fail_passport_inserts() == old(self).spec_fail_passport_inserts(),
            final(self).spec_fail_identity_inserts() == old(self).spec_fail_identity_inserts(),
            old(self).wf() ==> final(self).wf(),
    {
        self.fail_profile_inserts = fail;
        proof {
            if old(self).wf() {
                AccountStore::lemma_wf_congruent(*old(self), *self);
            }
        }
    }

    /// Injects or clears a failure of the next identity inserts.
    pub fn set_fail_identity_inserts(&mut self, fail: bool)
        ensures
            final(self).spec_fail_identity_inserts() == fail,
            final(self).rows() == old(self).rows(),
            final(self).spec_next_uid() == old(self).spec_next_uid(),
            final(self).spec_available() == old(self).spec_available(),
            final(self).spec_fail_passport_inserts() == old(self).spec_fail_passport_inserts(),
            final(self).spec_fail_profile_inserts() == old(self).spec_fail_profile_inserts(),
            old(self).wf() ==> final(self).wf(),
    {
        self.fail_identity_inserts = fail;
        proof {
            if old(self).wf() {
                AccountStore::lemma_wf_congruent(*old(self), *self);
            }
        }
    }

    /// Whether the backend is currently reachable.
    pub fn available(&self) -> (r: bool)
        ensures
            r == self.spec_available(),
    {
        self.available
    }

    /// Number of passport rows.
    pub fn passport_count(&self) -> (r: usize)
        ensures
            r == self.spec_passports().len(),
    {
        self.passports.len()
    }

    /// Number of profile rows.
    pub fn profile_count(&self) -> (r: usize)
        ensures
            r == self.spec_profiles().len(),
    {
        self.profiles.len()
    }

    /// Number of identity rows.
    pub fn identity_count(&self) -> (r: usize)
        ensures
            r == self.spec_identities().len(),
    {
        self.identities.len()
    }

    fn credentials_taken(&self, email: &str, username: &str) -> (r: bool)
        ensures
            r == (self.has_email(email@) || self.has_username(username@)),
    {
        let e = email.to_owned();
        let u = username.to_owned();
        let mut i: usize = 0;
        while i < self.identities.len()
            invariant
                i <= self.spec_identities().len(),
                e@ == email@,
                u@ == username@,
                forall|j: int|
                    0 <= j < i ==> self.spec_identities()[j].email@ != email@
                        && self.spec_identities()[j].username@ != username@,
            decreases self.spec_identities().len() - i,
        {
            if self.identities[i].email == e || self.identities[i].username == u {
                return true;
            }
            i = i + 1;
        }
        false
    }

    /// Looks an identity up by email-or-username equality; not-found is a
    /// typed error.
    pub fn find_by_email_or_username(&self, login: &str) -> (r: Result<
        AuthData,
        AuthServiceError<()>,
    >)
        ensures
            r matches Ok(d) ==> self.lookup_login(login@) == Some(d),
            r matches Err(e) ==> e == AuthServiceError::<()>::UserNotFound && self.lookup_login(
                login@,
            ) is None,
    {
        let l = login.to_owned();
        let mut i: usize = 0;
        while i < self.identities.len()
            invariant
                i <= self.spec_identities().len(),
                l@ == login@,
                forall|j: int|
                    0 <= j < i ==> !matches_login(self.spec_identities()[j], login@),
            decreases self.spec_identities().len() - i,
        {
            if self.identities[i].email == l || self.identities[i].username == l {
                proof {
                    lemma_lookup_login_at(self.spec_identities(), login@, i as int);
                }
                return Ok(self.identities[i].clone());
            }
            i = i + 1;
        }
        proof {
            lemma_lookup_login_none(self.spec_identities(), login@);
        }
        Err(AuthServiceError::UserNotFound)
    }

    /// Looks an identity up by row id; not-found is a typed error.
    pub fn find_by_pk(&self, uid: u64) -> (r: Result<AuthData, AuthServiceError<()>>)
        ensures
            r matches Ok(d) ==> self.lookup_identity(uid) == Some(d),
            r matches Err(e) ==> e == AuthServiceError::<()>::UserNotFound && self.lookup_identity(
                uid,
            ) is None,
    {
        let mut i: usize = 0;
        while i < self.identities.len()
            invariant
                i <= self.spec_identities().len(),
                forall|j: int| 0 <= j < i ==> self.spec_identities()[j].uid != uid,
            decreases self.spec_identities().len() - i,
        {
            if self.identities[i].uid == uid {
                proof {
                    lemma_lookup_identity_at(self.spec_identities(), uid, i as int);
                }
                return Ok(self.identities[i].clone());
            }
            i = i + 1;
        }
        proof {
            lemma_lookup_identity_none(self.spec_identities(), uid);
        }
        Err(AuthServiceError::UserNotFound)
    }

    /// Looks a profile up by row id; not-found is a typed error.
    pub fn find_user_by_pk(&self, uid: u64) -> (r: Result<UserProfile, UserServiceError>)
        ensures
            r matches Ok(p) ==> self.lookup_profile(uid) == Some(p),
            r matches Err(e) ==> e == UserServiceError::NotFound && self.lookup_profile(uid)
                is None,
    {
        let mut i: usize = 0;
        while i < self.profiles.len()
            invariant
                i <= self.spec_profiles().len(),
                forall|j: int| 0 <= j < i ==> self.spec_profiles()[j].uid != uid,
            decreases self.spec_profiles().len() - i,
        {
            if self.profiles[i].uid == uid {
                proof {
                    lemma_lookup_profile_at(self.spec_profiles(), uid, i as int);
                }
                return Ok(self.profiles[i].clone());
            }
            i = i + 1;
        }
        proof {
            lemma_lookup_profile_none(self.spec_profiles(), uid);
        }
        Err(UserServiceError::NotFound)
    }

    /// Whether `n` more row ids can be allocated.
    pub fn can_allocate_rows(&self, n: u64) -> (r: bool)
        ensures
            r == self.can_allocate(n),
    {
        n <= u64::MAX - self.next_uid
    }

    fn alloc_uid(&mut self) -> (r: u64)
        requires
            old(self).can_allocate(1),
        ensures
            r == old(self).spec_next_uid(),
            final(self).spec_next_uid() == old(self).spec_next_uid() + 1,
            final(self).rows() == old(self).rows(),
            final(self).spec_available() == old(self).spec_available(),
            final(self).spec_fail_passport_inserts() == old(self).spec_fail_passport_inserts(),
            final(self).spec_fail_profile_inserts() == old(self).spec_fail_profile_inserts(),
            final(self).spec_fail_identity_inserts() == old(self).spec_fail_identity_inserts(),
    {
        let uid = self.next_uid;
        self.next_uid = self.next_uid + 1;
        uid
    }

    fn create_passport(&mut self, data: &PassportOrmData) -> (r: Result<u64, UserServiceError>)
        requires
            old(self).wf(),
            old(self).can_allocate(1),
        ensures
            final(self).wf(),
            final(self).spec_available() == old(self).spec_available(),
            final(self).spec_fail_passport_inserts() == old(self).spec_fail_passport_inserts(),
            final(self).spec_fail_profile_inserts() == old(self).spec_fail_profile_inserts(),
            final(self).spec_fail_identity_inserts() == old(self).spec_fail_identity_inserts(),
            old(self).spec_fail_passport_inserts() ==> r == Err::<u64, UserServiceError>(
                UserServiceError::PassportCreation,
            ) && *final(self) == *old(self),
            !old(self).spec_fail_passport_inserts() ==> r == Ok::<u64, UserServiceError>(
                old(self).spec_next_uid(),
            ) && final(self).spec_passports() == old(self).spec_passports().push(
                (Passport {
                    uid: old(self).spec_next_uid(),
                    first_name: data.first_name,
                    second_name: data.second_name,
                    patronymic: data.patronymic,
                    birthday_date: data.birthday_date,
                }),
            ) && final(self).spec_profiles() == old(self).spec_profiles() && final(self).spec_identities() == old(self).spec_identities() && final(self).spec_next_uid() == old(self).spec_next_uid() + 1,
    {
        if self.fail_passport_inserts {
            return Err(UserServiceError::PassportCreation);
        }
        let uid = self.alloc_uid();
        let row = Passport {
            uid,
            first_name: data.first_name.clone(),
            second_name: data.second_name.clone(),
            patronymic: clone_opt_string(&data.patronymic),
            birthday_date: data.birthday_date,
        };
        let ghost grow = row;
        self.passports.push(row);
        proof {
            AccountStore::lemma_wf_push_passport(*old(self), *self, grow);
        }
        Ok(uid)
    }

    fn create_profile(&mut self, passport_uid: Option<u64>, role: UserProfilesRoles) -> (r: Result<
        u64,
        UserServiceError,
    >)
        requires
            old(self).wf(),
            old(self).can_allocate(1),
            passport_uid matches Some(p) ==> old(self).has_passport(p),
        ensures
            final(self).wf(),
            final(self).spec_available() == old(self).spec_available(),
            final(self).spec_fail_passport_inserts() == old(self).spec_fail_passport_inserts(),
            final(self).spec_fail_profile_inserts() == old(self).spec_fail_profile_inserts(),
            final(self).spec_fail_identity_inserts() == old(self).spec_fail_identity_inserts(),
            old(self).spec_fail_profile_inserts() ==> r == Err::<u64, UserServiceError>(
                UserServiceError::ProfileCreation,
            ) && *final(self) == *old(self),
            !old(self).spec_fail_profile_inserts() ==> r == Ok::<u64, UserServiceError>(
                old(self).spec_next_uid(),
            ) && final(self).spec_profiles() == old(self).spec_profiles().push(
                (UserProfile {
                    uid: old(self).spec_next_uid(),
                    passport_uid: passport_uid,
                    law_profile: None,
                    avatar_uid: None,
                    role: role,
                }),
            ) && final(self).spec_passports() == old(self).spec_passports() && final(self).spec_identities() == old(self).spec_identities() && final(self).spec_next_uid() == old(self).spec_next_uid() + 1,
    {
        if self.fail_profile_inserts {
            return Err(UserServiceError::ProfileCreation);
        }
        let uid = self.alloc_uid();
        let row = UserProfile {
            uid,
            passport_uid,
            law_profile: None,
            avatar_uid: None,
            role,
        };
        let ghost grow = row;
        self.profiles.push(row);
        proof {
            AccountStore::lemma_wf_push_profile(*old(self), *self, grow);
        }
        Ok(uid)
    }

    /// Creates a passport row and a profile row referencing it, role `User`,
    /// as one transaction: if the profile insert fails after the passport
    /// insert succeeded, the passport row is rolled back and the store's
    /// tables are left exactly as they were.
    pub fn create_user(&mut self, data: &PassportOrmData) -> (r: Result<u64, UserServiceError>)
        requires
            old(self).wf(),
            old(self).can_allocate(2),
        ensures
            final(self).wf(),
            final(self).spec_available() == old(self).spec_available(),
            final(self).spec_fail_passport_inserts() == old(self).spec_fail_passport_inserts(),
            final(self).spec_fail_profile_inserts() == old(self).spec_fail_profile_inserts(),
            final(self).spec_fail_identity_inserts() == old(self).spec_fail_identity_inserts(),
            final(self).spec_next_uid() >= old(self).spec_next_uid(),
            old(self).spec_next_uid() + 2 >= final(self).spec_next_uid(),
            r is Err ==> final(self).rows() == old(self).rows(),
            old(self).spec_fail_passport_inserts() ==> r == Err::<u64, UserServiceError>(
                UserServiceError::PassportCreation,
            ),
            !old(self).spec_fail_passport_inserts() && old(self).spec_fail_profile_inserts() ==> r
                == Err::<u64, UserServiceError>(UserServiceError::ProfileCreation),
            !old(self).spec_fail_passport_inserts() && !old(self).spec_fail_profile_inserts() ==> r
                == Ok::<u64, UserServiceError>((old(self).spec_next_uid() + 1) as u64) && final(self).spec_passports() == old(self).spec_passports().push(
                (Passport {
                    uid: old(self).spec_next_uid(),
                    first_name: data.first_name,
                    second_name: data.second_name,
                    patronymic: data.patronymic,
                    birthday_date: data.birthday_date,
                }),
            ) && final(self).spec_profiles() == old(self).spec_profiles().push(
                (UserProfile {
                    uid: (old(self).spec_next_uid() + 1) as u64,
                    passport_uid: Some(old(self).spec_next_uid()),
                    law_profile: None,
                    avatar_uid: None,
                    role: UserProfilesRoles::User,
                }),
            ) && final(self).spec_identities() == old(self).spec_identities() && final(self).spec_next_uid() == old(self).spec_next_uid() + 2,
    {
        let ghost prev = *self;
        let puid = match self.create_passport(data) {
            Ok(u) => u,
            Err(e) => {
                return Err(e);
            },
        };
        proof {
            assert(self.has_passport(puid)) by {
                assert(self.spec_passports().last().uid == puid);
            }
        }
        match self.create_profile(Some(puid), UserProfilesRoles::User) {
            Ok(pruid) => Ok(pruid),
            Err(e) => {
                self.passports.pop();
                proof {
                    assert(self.spec_passports() =~= prev.spec_passports());
                    assert(self.rows() == prev.rows());
                    AccountStore::lemma_wf_congruent(prev, *self);
                }
                Err(e)
            },
        }
    }

    /// Inserts an identity row. A colliding email or username is classified
    /// distinctly as `AlreadyExists`, so that the caller can report a
    /// conflict rather than a generic fault; on any error the tables are
    /// unchanged.
    pub fn create_auth_data(
        &mut self,
        username: &str,
        password: &str,
        email: &str,
        profile_uid: u64,
    ) -> (r: Result<u64, AuthServiceError<()>>)
        requires
            old(self).wf(),
            old(self).can_allocate(1),
            old(self).has_profile(profile_uid),
            argon_valid_encoded(password@),
        ensures
            final(self).wf(),
            final(self).spec_available() == old(self).spec_available(),
            final(self).spec_fail_passport_inserts() == old(self).spec_fail_passport_inserts(),
            final(self).spec_fail_profile_inserts() == old(self).spec_fail_profile_inserts(),
            final(self).spec_fail_identity_inserts() == old(self).spec_fail_identity_inserts(),
            old(self).has_email(email@) || old(self).has_username(username@) ==> r == Err::<
                u64,
                AuthServiceError<()>,
            >(AuthServiceError::AlreadyExists) && *final(self) == *old(self),
            !(old(self).has_email(email@) || old(self).has_username(username@)) && old(self).spec_fail_identity_inserts() ==> r == Err::<u64, AuthServiceError<()>>(
                AuthServiceError::AuthDataCreation(()),
            ) && *final(self) == *old(self),
            !(old(self).has_email(email@) || old(self).has_username(username@)) && !old(self).spec_fail_identity_inserts() ==> r == Ok::<u64, AuthServiceError<()>>(
                old(self).spec_next_uid(),
            ) && final(self).spec_identities() == old(self).spec_identities().push(
                final(self).spec_identities().last(),
            ) && final(self).spec_identities().last().uid == old(self).spec_next_uid() && final(self).spec_identities().last().profile_uid == profile_uid && final(self).spec_identities().last().email@ == email@ && final(self).spec_identities().last().username@ == username@ && final(self).spec_identities().last().password@ == password@ && final(self).spec_passports() == old(self).spec_passports() && final(self).spec_profiles() == old(self).spec_profiles() && final(self).spec_next_uid() == old(self).spec_next_uid() + 1,
    {
        if self.credentials_taken(email, username) {
            return Err(AuthServiceError::AlreadyExists);
        }
        if self.fail_identity_inserts {
            return Err(AuthServiceError::AuthDataCreation(()));
        }
        let uid = self.alloc_uid();
        let row = AuthData {
            uid,
            profile_uid,
            email: email.to_owned(),
            username: username.to_owned(),
            password: password.to_owned(),
        };
        let ghost grow = row;
        self.identities.push(row);
        proof {
            AccountStore::lemma_wf_push_identity(*old(self), *self, grow);
        }
        Ok(uid)
    }

    /// Rolls the three tables back to a snapshot taken while the present
    /// rows were still a prefix of the current ones — the store-model
    /// counterpart of aborting a transaction. The id counter is not rolled
    /// back, as a database sequence would not be either.
    pub(crate) fn rollback_to(
        &mut self,
        Ghost(prev): Ghost<AccountStore>,
        n_passports: usize,
        n_profiles: usize,
        n_identities: usize,
    )
        requires
            prev.wf(),
            n_passports as int == prev.spec_passports().len(),
            n_profiles as int == prev.spec_profiles().len(),
            n_identities as int == prev.spec_identities().len(),
            n_passports as int <= old(self).spec_passports().len(),
            n_profiles as int <= old(self).spec_profiles().len(),
            n_identities as int <= old(self).spec_identities().len(),
            prev.spec_passports() == old(self).spec_passports().subrange(0, n_passports as int),
            prev.spec_profiles() == old(self).spec_profiles().subrange(0, n_profiles as int),
            prev.spec_identities() == old(self).spec_identities().subrange(0, n_identities as int),
            prev.spec_next_uid() <= old(self).spec_next_uid(),
        ensures
            final(self).wf(),
            final(self).rows() == prev.rows(),
            final(self).spec_next_uid() == old(self).spec_next_uid(),
            final(self).spec_available() == old(self).spec_available(),
            final(self).spec_fail_passport_inserts() == old(self).spec_fail_passport_inserts(),
            final(self).spec_fail_profile_inserts() == old(self).spec_fail_profile_inserts(),
            final(self).spec_fail_identity_inserts() == old(self).spec_fail_identity_inserts(),
    {
        self.passports.truncate(n_passports);
        self.profiles.truncate(n_profiles);
        self.identities.truncate(n_identities);
        proof {
            assert(self.rows() == prev.rows());
            AccountStore::lemma_wf_congruent(prev, *self);
        }
    }
}

pub(crate) fn clone_opt_string(o: &Option<String>) -> (r: Option<String>)
    ensures
        r == *o,
{
    match o {
        Some(s) => Some(s.clone()),
        None => None,
    }
}

} // verus!
