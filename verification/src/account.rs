//! Account registry: the metadata and secret of each configured storage
//! account, with the migration that records written under the older layout need.
//! The host persists the registry (metadata in its configuration store,
//! secrets in the platform keychain) and mirrors every mutation.

use vstd::prelude::*;
use crate::errors::AppError;
use crate::provider::ProviderType;
use crate::sync_types::clone_opt_string;
use crate::text::str_eq;

verus! {

/// A configured storage account as callers see it.
pub struct Account {
    pub id: String,
    pub name: String,
    pub endpoint: String,
    pub access_key_id: String,
    pub provider_type: ProviderType,
    /// R2 only
    pub cloudflare_account_id: Option<String>,
    /// AWS S3
    pub region: Option<String>,
    /// Legacy field kept for callers that still read it
    pub account_id: Option<String>,
}

/// The stored metadata of one account; `legacy_account_id` survives from
/// records written before the provider-specific fields existed.
pub struct AccountMetadata {
    pub name: String,
    pub endpoint: String,
    pub access_key_id: String,
    pub provider_type: ProviderType,
    pub cloudflare_account_id: Option<String>,
    pub region: Option<String>,
    pub legacy_account_id: Option<String>,
}

/// One registry entry: id, metadata, and the secret access key.
pub struct StoredAccount {
    pub id: String,
    pub meta: AccountMetadata,
    pub secret: String,
}

/// First entry with the given id, if any.
pub open spec fn lookup_account(s: Seq<StoredAccount>, id: Seq<char>) -> Option<StoredAccount>
    decreases s.len(),
{
    if s.len() == 0 {
        None
    } else if s[0].id@ == id {
        Some(s[0])
    } else {
        lookup_account(s.drop_first(), id)
    }
}

/// No two entries share an id.
pub open spec fn account_ids_unique(s: Seq<StoredAccount>) -> bool {
    forall|i: int, j: int| 0 <= i < j < s.len() ==> s[i].id@ != s[j].id@
}

/// The registry with one id removed.
pub open spec fn accounts_without(s: Seq<StoredAccount>, id: Seq<char>) -> Seq<StoredAccount>
    decreases s.len(),
{
    if s.len() == 0 {
        Seq::empty()
    } else if s[0].id@ != id {
        seq![s[0]] + accounts_without(s.drop_first(), id)
    } else {
        accounts_without(s.drop_first(), id)
    }
}

/// `a` is the caller-facing view of metadata stored under `id`, with the
/// legacy migration applied: a missing Cloudflare account id falls back to
/// the legacy field.
pub open spec fn account_of_meta(id: String, meta: AccountMetadata, a: Account) -> bool {
    &&& a.id == id
    &&& a.name == meta.name
    &&& a.endpoint == meta.endpoint
    &&& a.access_key_id == meta.access_key_id
    &&& a.provider_type == meta.provider_type
    &&& a.cloudflare_account_id == (if meta.cloudflare_account_id is Some {
        meta.cloudflare_account_id
    } else {
        meta.legacy_account_id
    })
    &&& a.region == meta.region
    &&& a.account_id == meta.legacy_account_id
}

/// `a` is the caller-facing view of entry `st`.
pub open spec fn account_of(st: StoredAccount, a: Account) -> bool {
    account_of_meta(st.id, st.meta, a)
}

/// Skipping entries that do not match leaves the lookup unchanged.
proof fn lemma_lookup_account_skip(s: Seq<StoredAccount>, id: Seq<char>, i: int)
    requires
        0 <= i <= s.len(),
        forall|j: int| 0 <= j < i ==> s[j].id@ != id,
    ensures
        lookup_account(s, id) == lookup_account(s.skip(i), id),
    decreases i,
{
    if i > 0 {
        lemma_lookup_account_skip(s.drop_first(), id, i - 1);
        assert(s.drop_first().skip(i - 1) =~= s.skip(i));
    } else {
        assert(s.skip(0) =~= s);
    }
}

/// Updating entry `i` in place (same id) changes only that id's lookup.
proof fn lemma_lookup_account_update(s: Seq<StoredAccount>, i: int, x: StoredAccount, id: Seq<char>)
    requires
        0 <= i < s.len(),
        account_ids_unique(s),
        x.id@ == s[i].id@,
    ensures
        lookup_account(s.update(i, x), id) == (if s[i].id@ == id {
            Some(x)
        } else {
            lookup_account(s, id)
        }),
    decreases s.len(),
{
    if i == 0 {
        assert(s.update(0, x)[0] == x);
        if x.id@ != id {
            assert(s.update(0, x).drop_first() =~= s.drop_first());
        }
    } else {
        assert(s.update(i, x)[0] == s[0]);
        assert(s.update(i, x).drop_first() =~= s.drop_first().update(i - 1, x));
        assert(account_ids_unique(s.drop_first())) by {
            assert(forall|a: int, b: int| 0 <= a < b < s.drop_first().len()
                ==> s.drop_first()[a] == s[a + 1] && s.drop_first()[b] == s[b + 1]);
        };
        lemma_lookup_account_update(s.drop_first(), i - 1, x, id);
    }
}

/// Appending an entry only affects the lookup of an id the registry lacked.
proof fn lemma_lookup_account_push(s: Seq<StoredAccount>, x: StoredAccount, id: Seq<char>)
    ensures
        lookup_account(s.push(x), id) == (if lookup_account(s, id) is Some {
            lookup_account(s, id)
        } else if x.id@ == id {
            Some(x)
        } else {
            None::<StoredAccount>
        }),
    decreases s.len(),
{
    if s.len() == 0 {
        assert(s.push(x).len() == 1);
        assert(s.push(x)[0] == x);
        assert(s.push(x).drop_first() =~= Seq::<StoredAccount>::empty());
        assert(lookup_account(s, id) is None);
        if x.id@ != id {
            assert(lookup_account(s.push(x), id)
                == lookup_account(s.push(x).drop_first(), id));
        }
    } else {
        assert(s.push(x)[0] == s[0]);
        assert(s.push(x).drop_first() =~= s.drop_first().push(x));
        lemma_lookup_account_push(s.drop_first(), x, id);
        if s[0].id@ == id {
            assert(lookup_account(s.push(x), id) == Some(s[0]));
        } else {
            assert(lookup_account(s.push(x), id) == lookup_account(s.drop_first().push(x), id));
            assert(lookup_account(s, id) == lookup_account(s.drop_first(), id));
        }
    }
}

/// A failed lookup means no entry has that id.
proof fn lemma_lookup_account_none(s: Seq<StoredAccount>, id: Seq<char>)
    requires
        lookup_account(s, id) is None,
    ensures
        forall|i: int| 0 <= i < s.len() ==> s[i].id@ != id,
    decreases s.len(),
{
    if s.len() > 0 {
        lemma_lookup_account_none(s.drop_first(), id);
        assert(forall|i: int| 1 <= i < s.len() ==> s[i] == s.drop_first()[i - 1]);
    }
}

/// Removing one id: survivors come from the registry and have other ids; ids
/// stay unique; other ids' lookups are unchanged.
proof fn lemma_accounts_without_ok(s: Seq<StoredAccount>, id: Seq<char>, q: Seq<char>)
    requires
        account_ids_unique(s),
    ensures
        account_ids_unique(accounts_without(s, id)),
        lookup_account(accounts_without(s, id), q) == (if q == id {
            None::<StoredAccount>
        } else {
            lookup_account(s, q)
        }),
    decreases s.len(),
{
    if s.len() > 0 {
        assert(account_ids_unique(s.drop_first())) by {
            assert(forall|a: int, b: int| 0 <= a < b < s.drop_first().len()
                ==> s.drop_first()[a] == s[a + 1] && s.drop_first()[b] == s[b + 1]);
        };
        lemma_accounts_without_ok(s.drop_first(), id, q);
        if s[0].id@ != id {
            let f = accounts_without(s, id);
            assert(f[0] == s[0]);
            assert(f.drop_first() =~= accounts_without(s.drop_first(), id));
            lemma_accounts_without_elems(s.drop_first(), id);
            assert(account_ids_unique(f)) by {
                assert forall|a: int, b: int| 0 <= a < b < f.len()
                    implies f[a].id@ != f[b].id@ by {
                    if a == 0 {
                        let j = choose|j: int| 0 <= j < s.drop_first().len()
                            && s.drop_first()[j] == accounts_without(s.drop_first(), id)[b - 1];
                        assert(s[j + 1] == s.drop_first()[j]);
                    } else {
                        assert(f[a] == accounts_without(s.drop_first(), id)[a - 1]);
                        assert(f[b] == accounts_without(s.drop_first(), id)[b - 1]);
                    }
                };
            };
        }
    }
}

/// Every survivor of a removal comes from the registry.
proof fn lemma_accounts_without_elems(s: Seq<StoredAccount>, id: Seq<char>)
    ensures
        forall|k: int| 0 <= k < accounts_without(s, id).len()
            ==> exists|j: int| 0 <= j < s.len() && s[j] == #[trigger] accounts_without(s, id)[k],
    decreases s.len(),
{
    if s.len() > 0 {
        lemma_accounts_without_elems(s.drop_first(), id);
        assert forall|k: int| 0 <= k < accounts_without(s, id).len()
            implies exists|j: int| 0 <= j < s.len()
                && s[j] == #[trigger] accounts_without(s, id)[k] by {
            if s[0].id@ != id {
                if k == 0 {
                    assert(accounts_without(s, id)[0] == s[0]);
                } else {
                    assert(accounts_without(s, id)[k] == accounts_without(s.drop_first(), id)[k - 1]);
                    let j = choose|j: int| 0 <= j < s.drop_first().len()
                        && s.drop_first()[j] == accounts_without(s.drop_first(), id)[k - 1];
                    assert(s[j + 1] == s.drop_first()[j]);
                }
            } else {
                assert(accounts_without(s, id)[k] == accounts_without(s.drop_first(), id)[k]);
                let j = choose|j: int| 0 <= j < s.drop_first().len()
                    && s.drop_first()[j] == accounts_without(s.drop_first(), id)[k];
                assert(s[j + 1] == s.drop_first()[j]);
            }
        };
    }
}

/// Relies on uuid's `Uuid::new_v4` and its `Display` (hyphenated form, 36
/// characters): a fresh random account identifier. The value is random, so
/// nothing is promised beyond its length.
#[verifier::external_body]
fn new_account_id() -> (r: String)
    ensures
        r@.len() == 36,
{
    uuid::Uuid::new_v4().to_string()
}

/// Exact copy of an account's metadata.
fn clone_metadata(m: &AccountMetadata) -> (r: AccountMetadata)
    ensures
        r == *m,
{
    AccountMetadata {
        name: m.name.clone(),
        endpoint: m.endpoint.clone(),
        access_key_id: m.access_key_id.clone(),
        provider_type: m.provider_type,
        cloudflare_account_id: clone_opt_string(&m.cloudflare_account_id),
        region: clone_opt_string(&m.region),
        legacy_account_id: clone_opt_string(&m.legacy_account_id),
    }
}

/// The caller-facing view of one entry, with the legacy migration applied:
/// an old R2 record that predates `cloudflare_account_id` carries it in the
/// legacy field instead.
pub fn metadata_to_account(id: String, meta: &AccountMetadata) -> (r: Account)
    ensures
        account_of_meta(id, *meta, r),
        r.id == id,
{
    let cloudflare_account_id = match &meta.cloudflare_account_id {
        Some(c) => Some(c.clone()),
        None => clone_opt_string(&meta.legacy_account_id),
    };
    Account {
        id,
        name: meta.name.clone(),
        endpoint: meta.endpoint.clone(),
        access_key_id: meta.access_key_id.clone(),
        provider_type: meta.provider_type,
        cloudflare_account_id,
        region: clone_opt_string(&meta.region),
        account_id: clone_opt_string(&meta.legacy_account_id),
    }
}

/// The account registry. Ids are unique; the host keeps the durable copy.
pub struct CredentialsManager {
    pub accounts: Vec<StoredAccount>,
}

impl CredentialsManager {
    /// Unique ids.
    pub open spec fn wf(&self) -> bool {
        account_ids_unique(self.accounts@)
    }

    /// An empty registry.
    pub fn new() -> (r: CredentialsManager)
        ensures
            r.wf(),
            r.accounts@.len() == 0,
    {
        CredentialsManager { accounts: Vec::new() }
    }

    /// Index of the entry with the given id.
    fn find_account_index(&self, id: &str) -> (r: Option<usize>)
        ensures
            match r {
                Some(i) => i < self.accounts@.len() && self.accounts@[i as int].id@ == id@
                    && lookup_account(self.accounts@, id@) == Some(self.accounts@[i as int]),
                None => lookup_account(self.accounts@, id@) is None,
            },
    {
        let n = self.accounts.len();
        let mut i: usize = 0;
        while i < n
            invariant
                n == self.accounts@.len(),
                i <= n,
                forall|j: int| 0 <= j < i ==> self.accounts@[j].id@ != id@,
            decreases n - i,
        {
            if str_eq(self.accounts[i].id.as_str(), id) {
                proof {
                    lemma_lookup_account_skip(self.accounts@, id@, i as int);
                }
                return Some(i);
            }
            i = i + 1;
        }
        proof {
            lemma_lookup_account_skip(self.accounts@, id@, n as int);
        }
        None
    }

    /// Register an account under a fresh random id, storing its metadata and
    /// secret, and hand back the caller-facing view. If the random id should
    /// collide with an existing one, the existing entry is replaced, as an
    /// insert into a keyed table would.
    pub fn add_account(
        &mut self,
        name: String,
        endpoint: String,
        access_key_id: String,
        secret_access_key: String,
        provider_type: ProviderType,
        cloudflare_account_id: Option<String>,
        region: Option<String>,
    ) -> (r: Account)
        requires
            old(self).wf(),
        ensures
            final(self).wf(),
            lookup_account(final(self).accounts@, r.id@) matches Some(st) && ({
                &&& st.meta.name@ == name@
                &&& st.meta.endpoint@ == endpoint@
                &&& st.meta.access_key_id@ == access_key_id@
                &&& st.meta.provider_type == provider_type
                &&& st.meta.cloudflare_account_id.deep_view() == cloudflare_account_id.deep_view()
                &&& st.meta.region.deep_view() == region.deep_view()
                &&& st.meta.legacy_account_id is None
                &&& st.secret@ == secret_access_key@
                &&& account_of(st, r)
            }),
            forall|q: Seq<char>| q != r.id@
                ==> lookup_account(final(self).accounts@, q) == lookup_account(old(self).accounts@, q),
    {
        let id = new_account_id();
        let meta = AccountMetadata {
            name,
            endpoint,
            access_key_id,
            provider_type,
            cloudflare_account_id,
            region,
            legacy_account_id: None,
        };
        let entry = StoredAccount {
            id: id.clone(),
            meta: clone_metadata(&meta),
            secret: secret_access_key,
        };
        match self.find_account_index(id.as_str()) {
            Some(i) => {
                proof {
                    let s = self.accounts@;
                    assert forall|q: Seq<char>| true implies lookup_account(s.update(i as int, entry), q)
                        == (if s[i as int].id@ == q {
                            Some(entry)
                        } else {
                            lookup_account(s, q)
                        }) by {
                        lemma_lookup_account_update(s, i as int, entry, q);
                    };
                    assert(account_ids_unique(s.update(i as int, entry))) by {
                        assert(forall|k: int| 0 <= k < s.len() && k != i
                            ==> s.update(i as int, entry)[k] == s[k]);
                        assert(s.update(i as int, entry)[i as int] == entry);
                    };
                }
                self.accounts.set(i, entry);
            },
            None => {
                proof {
                    let s = self.accounts@;
                    assert forall|q: Seq<char>| true implies lookup_account(s.push(entry), q)
                        == (if lookup_account(s, q) is Some {
                            lookup_account(s, q)
                        } else if entry.id@ == q {
                            Some(entry)
                        } else {
                            None::<StoredAccount>
                        }) by {
                        lemma_lookup_account_push(s, entry, q);
                    };
                    lemma_lookup_account_none(s, entry.id@);
                    assert(account_ids_unique(s.push(entry))) by {
                        assert(forall|k: int| 0 <= k < s.len() ==> s.push(entry)[k] == s[k]);
                        assert(s.push(entry)[s.len() as int] == entry);
                    };
                }
                self.accounts.push(entry);
            },
        }
        metadata_to_account(id, &meta)
    }

    /// The caller-facing views of every account, in registry order.
    pub fn list_accounts(&self) -> (r: Result<Vec<Account>, AppError>)
        ensures
            r matches Ok(v) && v@.len() == self.accounts@.len()
                && forall|k: int| 0 <= k < v@.len()
                    ==> account_of(self.accounts@[k], #[trigger] v@[k]),
    {
        let mut out: Vec<Account> = Vec::new();
        let n = self.accounts.len();
        let mut i: usize = 0;
        while i < n
            invariant
                n == self.accounts@.len(),
                i <= n,
                out@.len() == i,
                forall|k: int| 0 <= k < i ==> account_of(self.accounts@[k], #[trigger] out@[k]),
            decreases n - i,
        {
            let st = &self.accounts[i];
            out.push(metadata_to_account(st.id.clone(), &st.meta));
            i = i + 1;
        }
        Ok(out)
    }

    /// The caller-facing view of one account; a missing id is NotFound.
    pub fn get_account(&self, id: &str) -> (r: Result<Account, AppError>)
        ensures
            match r {
                Ok(a) => lookup_account(self.accounts@, id@) matches Some(st) && account_of(st, a),
                Err(e) => lookup_account(self.accounts@, id@) is None
                    && (e matches AppError::NotFound(m) && m@ == "Account not found: "@ + id@),
            },
            r is Ok <==> lookup_account(self.accounts@, id@) is Some,
    {
        match self.find_account_index(id) {
            Some(i) => {
                let st = &self.accounts[i];
                Ok(metadata_to_account(st.id.clone(), &st.meta))
            },
            None => {
                let mut m = String::from_str("Account not found: ");
                m.append(id);
                Err(AppError::NotFound(m))
            },
        }
    }

    /// The secret access key of one account; a missing id is a credential
    /// error.
    pub fn get_secret_key(&self, account_id: &str) -> (r: Result<String, AppError>)
        ensures
            match r {
                Ok(s) => lookup_account(self.accounts@, account_id@) matches Some(st)
                    && s@ == st.secret@,
                Err(e) => lookup_account(self.accounts@, account_id@) is None
                    && (e matches AppError::Credential(m)
                        && m@ == "Failed to get secret key: "@ + account_id@),
            },
            r is Ok <==> lookup_account(self.accounts@, account_id@) is Some,
    {
        match self.find_account_index(account_id) {
            Some(i) => Ok(self.accounts[i].secret.clone()),
            None => {
                let mut m = String::from_str("Failed to get secret key: ");
                m.append(account_id);
                Err(AppError::Credential(m))
            },
        }
    }

    /// Remove an account and its secret; removing an unknown id succeeds and
    /// changes nothing.
    pub fn remove_account(&mut self, id: &str) -> (r: Result<(), AppError>)
        requires
            old(self).wf(),
        ensures
            final(self).wf(),
            r is Ok,
            final(self).accounts@ == accounts_without(old(self).accounts@, id@),
            lookup_account(final(self).accounts@, id@) is None,
            forall|q: Seq<char>| q != id@
                ==> lookup_account(final(self).accounts@, q) == lookup_account(old(self).accounts@, q),
    {
        let ghost old_accounts = self.accounts@;
        let mut out: Vec<StoredAccount> = Vec::new();
        proof {
            assert(self.accounts@.skip(0) =~= self.accounts@);
            assert(Seq::<StoredAccount>::empty() + accounts_without(self.accounts@, id@)
                =~= accounts_without(self.accounts@, id@));
        }
        let n = self.accounts.len();
        let mut i: usize = 0;
        while i < n
            invariant
                n == self.accounts@.len(),
                i <= n,
                accounts_without(self.accounts@, id@)
                    == out@ + accounts_without(self.accounts@.skip(i as int), id@),
            decreases n - i,
        {
            let st = &self.accounts[i];
            proof {
                assert(self.accounts@.skip(i as int)[0] == self.accounts@[i as int]);
                assert(self.accounts@.skip(i as int).drop_first()
                    =~= self.accounts@.skip(i as int + 1));
            }
            if !str_eq(st.id.as_str(), id) {
                let c = StoredAccount {
                    id: st.id.clone(),
                    meta: clone_metadata(&st.meta),
                    secret: st.secret.clone(),
                };
                proof {
                    assert(c == self.accounts@[i as int]);
                    assert(accounts_without(self.accounts@.skip(i as int), id@)
                        =~= seq![self.accounts@[i as int]]
                            + accounts_without(self.accounts@.skip(i as int + 1), id@));
                    assert((out@ + seq![c]) + accounts_without(self.accounts@.skip(i as int + 1), id@)
                        =~= out@ + accounts_without(self.accounts@.skip(i as int), id@));
                }
                out.push(c);
            }
            i = i + 1;
        }
        proof {
            assert(self.accounts@.skip(n as int) =~= Seq::<StoredAccount>::empty());
            assert(out@ + accounts_without(self.accounts@.skip(n as int), id@) =~= out@);
        }
        self.accounts = out;
        proof {
            lemma_accounts_without_ok(old_accounts, id@, id@);
            assert forall|q: Seq<char>| q != id@ implies lookup_account(self.accounts@, q)
                == lookup_account(old_accounts, q) by {
                lemma_accounts_without_ok(old_accounts, id@, q);
            };
        }
        Ok(())
    }

    /// Update an account in place: each given field replaces the stored one,
    /// each absent field is kept; a given secret replaces the stored secret.
    /// Returns the refreshed caller-facing view; an unknown id is NotFound.
    pub fn update_account(
        &mut self,
        id: &str,
        name: Option<String>,
        endpoint: Option<String>,
        access_key_id: Option<String>,
        secret_access_key: Option<String>,
        provider_type: Option<ProviderType>,
        cloudflare_account_id: Option<String>,
        region: Option<String>,
    ) -> (r: Result<Account, AppError>)
        requires
            old(self).wf(),
        ensures
            final(self).wf(),
            match r {
                Ok(a) => lookup_account(old(self).accounts@, id@) matches Some(t) && ({
                    &&& lookup_account(final(self).accounts@, id@) matches Some(st)
                    &&& st.id == t.id
                    &&& st.meta.name == (if name is Some { name.unwrap() } else { t.meta.name })
                    &&& st.meta.endpoint == (if endpoint is Some { endpoint.unwrap() } else { t.meta.endpoint })
                    &&& st.meta.access_key_id == (if access_key_id is Some {
                        access_key_id.unwrap()
                    } else {
                        t.meta.access_key_id
                    })
                    &&& st.meta.provider_type == (if provider_type is Some {
                        provider_type.unwrap()
                    } else {
                        t.meta.provider_type
                    })
                    &&& st.meta.cloudflare_account_id == (if cloudflare_account_id is Some {
                        cloudflare_account_id
                    } else {
                        t.meta.cloudflare_account_id
                    })
                    &&& st.meta.region == (if region is Some { region } else { t.meta.region })
                    &&& st.meta.legacy_account_id == t.meta.legacy_account_id
                    &&& st.secret == (if secret_access_key is Some {
                        secret_access_key.unwrap()
                    } else {
                        t.secret
                    })
                    &&& account_of(st, a)
                }),
                Err(e) => lookup_account(old(self).accounts@, id@) is None
                    && *final(self) == *old(self)
                    && (e matches AppError::NotFound(m) && m@ == "Account not found: "@ + id@),
            },
            r is Ok <==> lookup_account(old(self).accounts@, id@) is Some,
            forall|q: Seq<char>| q != id@
                ==> lookup_account(final(self).accounts@, q) == lookup_account(old(self).accounts@, q),
    {
        match self.find_account_index(id) {
            Some(i) => {
                let t = &self.accounts[i];
                let mut meta = clone_metadata(&t.meta);
                let mut secret = t.secret.clone();
                if let Some(v) = name {
                    meta.name = v;
                }
                if let Some(v) = endpoint {
                    meta.endpoint = v;
                }
                if let Some(v) = access_key_id {
                    meta.access_key_id = v;
                }
                if let Some(v) = provider_type {
                    meta.provider_type = v;
                }
                if cloudflare_account_id.is_some() {
                    meta.cloudflare_account_id = cloudflare_account_id;
                }
                if region.is_some() {
                    meta.region = region;
                }
                if let Some(v) = secret_access_key {
                    secret = v;
                }
                let entry = StoredAccount {
                    id: t.id.clone(),
                    meta: clone_metadata(&meta),
                    secret,
                };
                proof {
                    let s = self.accounts@;
                    assert forall|q: Seq<char>| true implies lookup_account(s.update(i as int, entry), q)
                        == (if s[i as int].id@ == q {
                            Some(entry)
                        } else {
                            lookup_account(s, q)
                        }) by {
                        lemma_lookup_account_update(s, i as int, entry, q);
                    };
                    assert(account_ids_unique(s.update(i as int, entry))) by {
                        assert(forall|k: int| 0 <= k < s.len() && k != i
                            ==> s.update(i as int, entry)[k] == s[k]);
                        assert(s.update(i as int, entry)[i as int] == entry);
                    };
                }
                let a = metadata_to_account(entry.id.clone(), &entry.meta);
                self.accounts.set(i, entry);
                Ok(a)
            },
            None => {
                let mut m = String::from_str("Account not found: ");
                m.append(id);
                Err(AppError::NotFound(m))
            },
        }
    }
}

} // verus!
