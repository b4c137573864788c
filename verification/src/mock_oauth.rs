//! Values of the mock GitHub OAuth server used in tests: the user it signs
//! in and the requests it answers.

use vstd::prelude::*;
use vstd::string::StringExecFns;

use crate::engine::wire::clone_opt_string;
use crate::ids::{uuid_string, uuid_text};
use crate::text::{owned, str_equals};

verus! {

/// The user the mock server returns.
#[derive(Debug, Clone)]
pub struct MockUserConfig {
    pub id: i64,
    pub login: String,
    pub name: Option<String>,
    pub email: Option<String>,
    pub avatar_url: String,
}

impl Default for MockUserConfig {
    fn default() -> (r: MockUserConfig)
        ensures
            r.id == 12345,
            r.login@ == "mock_user"@,
            r.name matches Some(n) && n@ == "Mock User"@,
            r.email matches Some(e) && e@ == "mock@example.com"@,
            r.avatar_url@ == "https://example.com/avatar.png"@,
    {
        MockUserConfig {
            id: 12345,
            login: String::from_str("mock_user"),
            name: Some(String::from_str("Mock User")),
            email: Some(String::from_str("mock@example.com")),
            avatar_url: String::from_str("https://example.com/avatar.png"),
        }
    }
}

/// The query of an authorization request, with the fields that pick the
/// mock user.
#[derive(Debug)]
pub struct AuthorizeParams {
    pub client_id: String,
    pub redirect_uri: String,
    pub state: String,
    pub scope: Option<String>,
    pub mock_user_id: Option<i64>,
    pub mock_user_login: Option<String>,
    pub mock_user_name: Option<String>,
    pub mock_user_email: Option<String>,
}

/// The body of a token request.
#[derive(Debug)]
pub struct TokenParams {
    pub client_id: String,
    pub client_secret: String,
    pub code: String,
    pub redirect_uri: String,
}

/// The answer to a token request.
#[derive(Debug)]
pub struct TokenResponse {
    pub access_token: String,
    pub token_type: String,
    pub scope: String,
}

/// The answer to a user request.
#[derive(Debug)]
pub struct UserResponse {
    pub id: i64,
    pub login: String,
    pub name: Option<String>,
    pub email: Option<String>,
    pub avatar_url: String,
}

impl MockUserConfig {
    /// A field-for-field copy.
    pub fn duplicate(&self) -> (r: MockUserConfig)
        ensures
            r == *self,
    {
        MockUserConfig {
            id: self.id,
            login: self.login.clone(),
            name: clone_opt_string(&self.name),
            email: clone_opt_string(&self.email),
            avatar_url: self.avatar_url.clone(),
        }
    }
}

/// The keys of a list of entries.
pub open spec fn entry_keys(v: Seq<(String, MockUserConfig)>) -> Seq<Seq<char>> {
    v.map_values(|e: (String, MockUserConfig)| e.0@)
}

/// Whether an entry holds `key`.
pub open spec fn has_key(v: Seq<(String, MockUserConfig)>, key: Seq<char>, k: int) -> bool {
    0 <= k < v.len() && v[k].0@ == key
}

/// The user stored under `key`, if any.
pub open spec fn lookup(v: Seq<(String, MockUserConfig)>, key: Seq<char>) -> Option<MockUserConfig> {
    if exists|k: int| has_key(v, key, k) {
        Some(v[choose|k: int| has_key(v, key, k)].1)
    } else {
        None
    }
}

/// In a list whose keys are distinct, the entry holding `key` is the one
/// looked up.
proof fn lemma_lookup_at(v: Seq<(String, MockUserConfig)>, key: Seq<char>, k: int)
    requires
        entry_keys(v).no_duplicates(),
        has_key(v, key, k),
    ensures
        lookup(v, key) == Some(v[k].1),
{
    let c = choose|c: int| has_key(v, key, c);
    assert(entry_keys(v)[c] == entry_keys(v)[k]);
}

/// Where the entry for `key` sits, if there is one.
fn find_key(v: &Vec<(String, MockUserConfig)>, key: &str) -> (r: Option<usize>)
    ensures
        r is None ==> forall|j: int| 0 <= j < v@.len() ==> v@[j].0@ != key@,
        r matches Some(k) ==> has_key(v@, key@, k as int),
{
    let n = v.len();
    let mut k: usize = 0;
    while k < n
        invariant
            n == v@.len(),
            k <= n,
            forall|j: int| 0 <= j < k ==> v@[j].0@ != key@,
        decreases n - k,
    {
        if str_equals(v[k].0.as_str(), key) {
            return Some(k);
        }
        k = k + 1;
    }
    None
}

/// Stores `user` under `key`, replacing what was stored under it.
fn store(v: &mut Vec<(String, MockUserConfig)>, key: String, user: MockUserConfig)
    requires
        entry_keys(old(v)@).no_duplicates(),
    ensures
        entry_keys(final(v)@).no_duplicates(),
        forall|x: Seq<char>|
            #[trigger] lookup(final(v)@, x) == if x == key@ {
                Some(user)
            } else {
                lookup(old(v)@, x)
            },
{
    let ghost v0 = v@;
    let ghost kv = key@;
    let ghost u = user;
    match find_key(v, key.as_str()) {
        Some(k) => {
            v.set(k, (key, user));
            proof {
                let v1 = v@;
                assert(entry_keys(v1) =~= entry_keys(v0));
                assert forall|x: Seq<char>|
                    #[trigger] lookup(v1, x) == if x == kv {
                        Some(u)
                    } else {
                        lookup(v0, x)
                    } by {
                    if x == kv {
                        lemma_lookup_at(v1, x, k as int);
                    } else {
                        assert forall|j: int| has_key(v1, x, j) <==> has_key(v0, x, j) by {}
                        if exists|j: int| has_key(v0, x, j) {
                            let j = choose|j: int| has_key(v0, x, j);
                            lemma_lookup_at(v0, x, j);
                            lemma_lookup_at(v1, x, j);
                        }
                    }
                }
            }
        },
        None => {
            v.push((key, user));
            proof {
                let v1 = v@;
                assert(entry_keys(v1) =~= entry_keys(v0).push(kv));
                assert forall|x: Seq<char>|
                    #[trigger] lookup(v1, x) == if x == kv {
                        Some(u)
                    } else {
                        lookup(v0, x)
                    } by {
                    if x == kv {
                        lemma_lookup_at(v1, x, v0.len() as int);
                    } else {
                        assert forall|j: int| has_key(v1, x, j) <==> has_key(v0, x, j) by {}
                        if exists|j: int| has_key(v0, x, j) {
                            let j = choose|j: int| has_key(v0, x, j);
                            lemma_lookup_at(v0, x, j);
                            lemma_lookup_at(v1, x, j);
                        }
                    }
                }
            }
        },
    }
}

/// Takes out the user stored under `key`, if any.
fn take(v: &mut Vec<(String, MockUserConfig)>, key: &str) -> (r: Option<MockUserConfig>)
    requires
        entry_keys(old(v)@).no_duplicates(),
    ensures
        entry_keys(final(v)@).no_duplicates(),
        r == lookup(old(v)@, key@),
        r is None ==> final(v)@ == old(v)@,
        forall|x: Seq<char>|
            #[trigger] lookup(final(v)@, x) == if x == key@ {
                None
            } else {
                lookup(old(v)@, x)
            },
{
    let ghost v0 = v@;
    match find_key(v, key) {
        Some(k) => {
            proof {
                lemma_lookup_at(v0, key@, k as int);
            }
            let (_, user) = v.remove(k);
            proof {
                let v1 = v@;
                assert(entry_keys(v1) =~= entry_keys(v0).remove(k as int));
                assert forall|x: Seq<char>|
                    #[trigger] lookup(v1, x) == if x == key@ {
                        None
                    } else {
                        lookup(v0, x)
                    } by {
                    if x == key@ {
                        assert forall|j: int| !has_key(v1, x, j) by {
                            if has_key(v1, x, j) {
                                if j < k {
                                    assert(entry_keys(v0)[j] == entry_keys(v0)[k as int]);
                                } else {
                                    assert(entry_keys(v0)[j + 1] == entry_keys(v0)[k as int]);
                                }
                            }
                        }
                    } else {
                        if exists|j: int| has_key(v0, x, j) {
                            let j = choose|j: int| has_key(v0, x, j);
                            lemma_lookup_at(v0, x, j);
                            if j < k {
                                assert(has_key(v1, x, j));
                                lemma_lookup_at(v1, x, j);
                            } else {
                                assert(j != k);
                                assert(has_key(v1, x, j - 1));
                                lemma_lookup_at(v1, x, j - 1);
                            }
                        } else {
                            assert forall|j: int| !has_key(v1, x, j) by {
                                if has_key(v1, x, j) {
                                    if j < k {
                                        assert(has_key(v0, x, j));
                                    } else {
                                        assert(has_key(v0, x, j + 1));
                                    }
                                }
                            }
                        }
                    }
                }
            }
            Some(user)
        },
        None => {
            assert(!exists|j: int| has_key(v0, key@, j));
            None
        },
    }
}

/// The mock server's state: the user each authorization code and each
/// access token stands for. Each list holds a key at most once.
pub struct MockOAuthState {
    pub codes: Vec<(String, MockUserConfig)>,
    pub tokens: Vec<(String, MockUserConfig)>,
}

/// Calls `uuid::Uuid::new_v4`, as an integer. The value is random.
#[verifier::external_body]
fn new_uuid() -> u128 {
    uuid::Uuid::new_v4().as_u128()
}

impl MockOAuthState {
    pub open spec fn wf(&self) -> bool {
        &&& entry_keys(self.codes@).no_duplicates()
        &&& entry_keys(self.tokens@).no_duplicates()
    }

    /// A state with no codes and no tokens.
    pub fn new() -> (r: MockOAuthState)
        ensures
            r.wf(),
            forall|x: Seq<char>| #[trigger] lookup(r.codes@, x) is None,
            forall|x: Seq<char>| #[trigger] lookup(r.tokens@, x) is None,
    {
        let r = MockOAuthState { codes: Vec::new(), tokens: Vec::new() };
        proof {
            assert(entry_keys(r.codes@) =~= Seq::<Seq<char>>::empty());
            assert(entry_keys(r.tokens@) =~= Seq::<Seq<char>>::empty());
        }
        r
    }

    /// Remembers which user an authorization code signs in.
    pub fn store_code(&mut self, code: String, user: MockUserConfig)
        requires
            old(self).wf(),
        ensures
            final(self).wf(),
            forall|x: Seq<char>|
                #[trigger] lookup(final(self).codes@, x) == if x == code@ {
                    Some(user)
                } else {
                    lookup(old(self).codes@, x)
                },
            final(self).tokens@ == old(self).tokens@,
    {
        store(&mut self.codes, code, user);
    }

    /// Exchanges an authorization code for the access token `token`: the
    /// code is used up, and the token then stands for the code's user.
    /// Gives none, and changes nothing, for a code that is not stored.
    pub fn exchange_code_with(&mut self, code: &str, token: String) -> (r: Option<(String, MockUserConfig)>)
        requires
            old(self).wf(),
        ensures
            final(self).wf(),
            match lookup(old(self).codes@, code@) {
                Some(u) => {
                    &&& r matches Some((t, ru)) && t@ == token@ && ru == u
                    &&& forall|x: Seq<char>|
                        #[trigger] lookup(final(self).codes@, x) == if x == code@ {
                            None
                        } else {
                            lookup(old(self).codes@, x)
                        }
                    &&& forall|x: Seq<char>|
                        #[trigger] lookup(final(self).tokens@, x) == if x == token@ {
                            Some(u)
                        } else {
                            lookup(old(self).tokens@, x)
                        }
                },
                None => r is None && final(self).codes@ == old(self).codes@ && final(self).tokens@
                    == old(self).tokens@,
            },
    {
        match take(&mut self.codes, code) {
            Some(user) => {
                let copy = user.duplicate();
                let t = token.clone();
                store(&mut self.tokens, token, copy);
                Some((t, user))
            },
            None => None,
        }
    }

    /// Exchanges an authorization code for a fresh access token,
    /// "mock_token_" followed by a random UUID.
    pub fn exchange_code(&mut self, code: &str) -> (r: Option<(String, MockUserConfig)>)
        requires
            old(self).wf(),
        ensures
            final(self).wf(),
            match lookup(old(self).codes@, code@) {
                Some(u) => r matches Some((t, ru)) && ru == u && (exists|id: u128|
                    t@ == "mock_token_"@ + #[trigger] uuid_text(id)) && (forall|x: Seq<char>|
                    #[trigger] lookup(final(self).codes@, x) == if x == code@ {
                        None
                    } else {
                        lookup(old(self).codes@, x)
                    }) && (forall|x: Seq<char>|
                    #[trigger] lookup(final(self).tokens@, x) == if x == t@ {
                        Some(u)
                    } else {
                        lookup(old(self).tokens@, x)
                    }),
                None => r is None && final(self).codes@ == old(self).codes@ && final(self).tokens@
                    == old(self).tokens@,
            },
    {
        let id = new_uuid();
        let mut token = owned("mock_token_");
        let rest = uuid_string(id);
        token.append(rest.as_str());
        proof {
            reveal_strlit("mock_token_");
            assert(token@ == "mock_token_"@ + uuid_text(id));
        }
        self.exchange_code_with(code, token)
    }

    /// The user an access token stands for, if any.
    pub fn get_user(&self, token: &str) -> (r: Option<MockUserConfig>)
        requires
            self.wf(),
        ensures
            r == lookup(self.tokens@, token@),
    {
        match find_key(&self.tokens, token) {
            Some(k) => {
                proof {
                    lemma_lookup_at(self.tokens@, token@, k as int);
                }
                Some(self.tokens[k].1.duplicate())
            },
            None => {
                assert(!exists|j: int| has_key(self.tokens@, token@, j));
                None
            },
        }
    }
}

} // verus!
