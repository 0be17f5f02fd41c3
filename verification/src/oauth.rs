//! Which saved Codex credential the runtime uses. The auth stores are read
//! by the host; the library decides, per store in read order (the official
//! Codex home first, then the legacy fallback), what kind of login it holds
//! and which secret it yields.
use vstd::prelude::*;

use crate::path::{join_path, parent_path, path_parent};
use crate::text::{is_blank, is_blank_str, starts_with};

verus! {

#[derive(Clone, Copy, Debug, PartialEq, Eq, Structural)]
pub enum SavedCodexAuthMode {
    ApiKey,
    Chatgpt,
}

/// What an auth store holds: the declared login mode (as its variant name),
/// the API key and the ChatGPT access token, where present.
#[derive(Clone, Debug, PartialEq, Eq)]
pub struct SavedAuth {
    pub auth_mode: Option<String>,
    pub openai_api_key: Option<String>,
    pub access_token: Option<String>,
}

pub open spec fn non_blank(o: Option<String>) -> bool {
    o matches Some(s) && !is_blank(s@)
}

/// The login kind of a store: as declared (`ApiKey`, or a mode whose name
/// starts with `Chatgpt`), else a non-blank access token means ChatGPT and
/// a non-blank API key means an API key.
pub open spec fn auth_mode_of(auth: SavedAuth) -> Option<SavedCodexAuthMode> {
    if auth.auth_mode matches Some(m) && m@ == "ApiKey"@ {
        Some(SavedCodexAuthMode::ApiKey)
    } else if auth.auth_mode matches Some(m) && starts_with(m@, "Chatgpt"@) {
        Some(SavedCodexAuthMode::Chatgpt)
    } else if non_blank(auth.access_token) {
        Some(SavedCodexAuthMode::Chatgpt)
    } else if non_blank(auth.openai_api_key) {
        Some(SavedCodexAuthMode::ApiKey)
    } else {
        None
    }
}

fn is_non_blank(o: &Option<String>) -> (b: bool)
    ensures
        b == non_blank(*o),
{
    match o {
        Some(s) => !is_blank_str(s.as_str()),
        None => false,
    }
}

/// The login kind a store holds.
pub fn detect_saved_auth_mode(auth: &SavedAuth) -> (r: Option<SavedCodexAuthMode>)
    ensures
        r == auth_mode_of(*auth),
{
    proof {
        reveal_strlit("ApiKey");
        reveal_strlit("Chatgpt");
    }
    if let Some(m) = &auth.auth_mode {
        let mv = crate::text::chars_of(m.as_str());
        if crate::text::eq_str(&mv, "ApiKey") {
            return Some(SavedCodexAuthMode::ApiKey);
        }
        if crate::text::starts_with_str(&mv, "Chatgpt") {
            return Some(SavedCodexAuthMode::Chatgpt);
        }
    }
    if is_non_blank(&auth.access_token) {
        return Some(SavedCodexAuthMode::Chatgpt);
    }
    if is_non_blank(&auth.openai_api_key) {
        return Some(SavedCodexAuthMode::ApiKey);
    }
    None
}

/// The secret a store yields: the API key of an API-key login, the access
/// token of a ChatGPT login, when that value is non-blank.
pub open spec fn credential_of(auth: SavedAuth) -> Option<Seq<char>> {
    match auth_mode_of(auth) {
        Some(SavedCodexAuthMode::ApiKey) => if non_blank(auth.openai_api_key) {
            Some(auth.openai_api_key->0@)
        } else {
            None
        },
        Some(SavedCodexAuthMode::Chatgpt) => if non_blank(auth.access_token) {
            Some(auth.access_token->0@)
        } else {
            None
        },
        None => None,
    }
}

/// The credential of the first store, in read order, that yields one.
pub open spec fn first_credential(stores: Seq<Option<SavedAuth>>) -> Option<Seq<char>>
    decreases stores.len(),
{
    if stores.len() == 0 {
        None
    } else {
        match stores[0] {
            Some(a) => match credential_of(a) {
                Some(c) => Some(c),
                None => first_credential(stores.drop_first()),
            },
            None => first_credential(stores.drop_first()),
        }
    }
}

pub open spec fn missing_credential_message() -> Seq<char> {
    "Codex login finished but auth storage did not contain an API key or access token"@
}

/// The saved credential: from the first store (absent stores skipped)
/// that yields one; an error when none does.
pub fn load_saved_credential(stores: &Vec<Option<SavedAuth>>) -> (r: Result<String, String>)
    ensures
        match first_credential(stores@) {
            Some(c) => r matches Ok(s) && s@ == c,
            None => r matches Err(m) && m@ == missing_credential_message(),
        },
{
    let mut i: usize = 0;
    assert(stores@.skip(0) =~= stores@);
    while i < stores.len()
        invariant
            i <= stores.len(),
            first_credential(stores@) == first_credential(stores@.skip(i as int)),
        decreases stores.len() - i,
    {
        assert(stores@.skip(i as int).drop_first() =~= stores@.skip(i + 1));
        assert(stores@.skip(i as int)[0] == stores@[i as int]);
        if let Some(auth) = &stores[i] {
            match detect_saved_auth_mode(auth) {
                Some(SavedCodexAuthMode::ApiKey) => {
                    if is_non_blank(&auth.openai_api_key) {
                        if let Some(k) = &auth.openai_api_key {
                            return Ok(k.clone());
                        }
                    }
                },
                Some(SavedCodexAuthMode::Chatgpt) => {
                    if is_non_blank(&auth.access_token) {
                        if let Some(t) = &auth.access_token {
                            return Ok(t.clone());
                        }
                    }
                },
                None => {},
            }
        }
        i += 1;
    }
    assert(stores@.skip(i as int) =~= Seq::<Option<SavedAuth>>::empty());
    Err("Codex login finished but auth storage did not contain an API key or access token".to_owned())
}

/// Whether a store holds a usable login: a non-blank API key or access
/// token.
pub open spec fn holds_auth(auth: SavedAuth) -> bool {
    non_blank(auth.openai_api_key) || non_blank(auth.access_token)
}

pub open spec fn store_holds_auth(o: Option<SavedAuth>) -> bool {
    o matches Some(a) && holds_auth(a)
}

pub open spec fn store_mode(o: Option<SavedAuth>) -> Option<SavedCodexAuthMode> {
    match o {
        Some(a) => auth_mode_of(a),
        None => None,
    }
}

/// Whether some store holds a usable login.
pub open spec fn stores_hold_auth(stores: Seq<Option<SavedAuth>>) -> bool {
    exists|i: int| 0 <= i < stores.len() && #[trigger] store_holds_auth(stores[i])
}

/// What the manager answers when asked whether a login is saved: the
/// remembered answer if there is one, else what the stores hold.
pub open spec fn saved_auth_answer(cache: Option<bool>, stores: Seq<Option<SavedAuth>>) -> bool {
    match cache {
        Some(v) => v,
        None => stores_hold_auth(stores),
    }
}

/// Whether some store holds a usable login.
pub fn has_saved_auth(stores: &Vec<Option<SavedAuth>>) -> (b: bool)
    ensures
        b == stores_hold_auth(stores@),
{
    let mut i: usize = 0;
    while i < stores.len()
        invariant
            i <= stores.len(),
            forall|k: int| 0 <= k < i ==> !#[trigger] store_holds_auth(stores@[k]),
        decreases stores.len() - i,
    {
        if let Some(auth) = &stores[i] {
            if is_non_blank(&auth.openai_api_key) || is_non_blank(&auth.access_token) {
                assert(store_holds_auth(stores@[i as int]));
                return true;
            }
        }
        i += 1;
    }
    false
}

/// The login kind of the first store, in read order, that declares or
/// implies one.
pub fn saved_auth_mode(stores: &Vec<Option<SavedAuth>>) -> (r: Option<SavedCodexAuthMode>)
    ensures
        match r {
            Some(m) => exists|i: int|
                0 <= i < stores@.len() && #[trigger] store_mode(stores@[i]) == Some(m) && forall|k: int|
                    0 <= k < i ==> #[trigger] store_mode(stores@[k]) is None,
            None => forall|k: int| 0 <= k < stores@.len() ==> #[trigger] store_mode(stores@[k]) is None,
        },
{
    let mut i: usize = 0;
    while i < stores.len()
        invariant
            i <= stores.len(),
            forall|k: int| 0 <= k < i ==> #[trigger] store_mode(stores@[k]) is None,
        decreases stores.len() - i,
    {
        if let Some(auth) = &stores[i] {
            if let Some(m) = detect_saved_auth_mode(auth) {
                assert(store_mode(stores@[i as int]) == Some(m));
                return Some(m);
            }
        }
        i += 1;
    }
    None
}

/// Whether logging out must also clear the legacy store: only when it is
/// another directory than the official one.
pub fn clears_legacy_home(codex_home: &str, legacy_codex_home: &str) -> (b: bool)
    ensures
        b == (codex_home@ != legacy_codex_home@),
{
    !crate::text::eq_str(&crate::text::chars_of(codex_home), legacy_codex_home)
}

/// The message shown when a pasted API key is empty.
pub fn api_key_from_input(input: &str) -> (r: Result<String, String>)
    ensures
        is_blank(input@) ==> (r matches Err(m) && m@ == "API key input was empty"@),
        !is_blank(input@) ==> (r matches Ok(k) && k@ == crate::text::trim(input@)),
{
    let t = crate::text::trim_str(input);
    if is_blank_str(input) {
        Err("API key input was empty".to_owned())
    } else {
        Ok(t)
    }
}

/// The login manager's state: the official and the legacy auth store
/// directories, and what it remembers of whether a login is saved (unknown
/// until the stores are read, then the answer until it is invalidated).
pub struct OAuthManager {
    pub codex_home: String,
    pub legacy_codex_home: String,
    pub saved_auth_available: Option<bool>,
}

impl OAuthManager {
    /// A manager over the two store directories, with nothing known yet.
    pub fn for_homes(codex_home: String, legacy_codex_home: String) -> (r: Self)
        ensures
            r.codex_home == codex_home,
            r.legacy_codex_home == legacy_codex_home,
            r.saved_auth_available is None,
    {
        OAuthManager { codex_home, legacy_codex_home, saved_auth_available: None }
    }

    /// A manager for the RARA configuration directory `config_dir`: the
    /// official Codex home is `.codex` beside it (under its parent, or under
    /// it when it has none), the legacy store is its `codex-auth`.
    pub fn new_for_config_dir(config_dir: &str) -> (r: Self)
        ensures
            r.codex_home@ == match parent_path(config_dir@) {
                Some(p) => join_path(p, ".codex"@),
                None => join_path(config_dir@, ".codex"@),
            },
            r.legacy_codex_home@ == join_path(config_dir@, "codex-auth"@),
            r.saved_auth_available is None,
    {
        let dir = crate::text::chars_of(config_dir);
        let codex_home = match path_parent(config_dir) {
            Some(p) => crate::path::join_path_str(&crate::text::chars_of(p.as_str()), ".codex"),
            None => crate::path::join_path_str(&dir, ".codex"),
        };
        let legacy = crate::path::join_path_str(&dir, "codex-auth");
        OAuthManager::for_homes(
            crate::text::string_from_chars(&codex_home),
            crate::text::string_from_chars(&legacy),
        )
    }

    /// The official Codex home, where logins are read first and saved.
    pub fn codex_home(&self) -> (r: &str)
        ensures
            r@ == self.codex_home@,
    {
        self.codex_home.as_str()
    }

    /// The legacy store, read after the official home.
    pub fn legacy_codex_home(&self) -> (r: &str)
        ensures
            r@ == self.legacy_codex_home@,
    {
        self.legacy_codex_home.as_str()
    }

    /// The remembered answer, if any.
    pub fn saved_auth_cache(&self) -> (r: Option<bool>)
        ensures
            r == self.saved_auth_available,
    {
        self.saved_auth_available
    }

    /// Forgets the answer: the stores are read again next time.
    pub fn invalidate_saved_auth_cache(&mut self)
        ensures
            final(self).saved_auth_available is None,
            final(self).codex_home == old(self).codex_home,
            final(self).legacy_codex_home == old(self).legacy_codex_home,
    {
        self.saved_auth_available = None;
    }

    /// Whether logging out must also clear the legacy store.
    pub fn clears_legacy_home(&self) -> (b: bool)
        ensures
            b == (self.codex_home@ != self.legacy_codex_home@),
    {
        clears_legacy_home(self.codex_home.as_str(), self.legacy_codex_home.as_str())
    }

    /// Whether a login is saved: the remembered answer, or else the answer
    /// of the stores (read by the host, in read order, and passed in),
    /// which is then remembered.
    pub fn has_saved_auth(&mut self, stores: &Vec<Option<SavedAuth>>) -> (b: bool)
        ensures
            b == saved_auth_answer(old(self).saved_auth_available, stores@),
            final(self).saved_auth_available == Some(b),
            final(self).codex_home == old(self).codex_home,
            final(self).legacy_codex_home == old(self).legacy_codex_home,
    {
        if let Some(v) = self.saved_auth_available {
            return v;
        }
        let b = has_saved_auth(stores);
        self.saved_auth_available = Some(b);
        b
    }

    /// The saved credential of the stores (read by the host and passed
    /// in); a found credential is remembered as a saved login.
    pub fn load_saved_credential(&mut self, stores: &Vec<Option<SavedAuth>>) -> (r: Result<String, String>)
        ensures
            match first_credential(stores@) {
                Some(c) => r matches Ok(s) && s@ == c && final(self).saved_auth_available == Some(true),
                None => r matches Err(m) && m@ == missing_credential_message()
                    && final(self).saved_auth_available == old(self).saved_auth_available,
            },
            final(self).codex_home == old(self).codex_home,
            final(self).legacy_codex_home == old(self).legacy_codex_home,
    {
        let r = load_saved_credential(stores);
        if r.is_ok() {
            self.saved_auth_available = Some(true);
        }
        r
    }
}

/// Once answered, whether a login is saved stays the remembered answer
/// whatever the stores come to hold; after the answer is forgotten
/// (`invalidate_saved_auth_cache`), the next question reads the stores, so a
/// login saved meanwhile is seen.
pub proof fn law_saved_auth_is_cached_until_invalidated(
    answered: OAuthManager,
    invalidated: OAuthManager,
    stores: Seq<Option<SavedAuth>>,
)
    requires
        answered.saved_auth_available is Some,
        invalidated.saved_auth_available is None,
    ensures
        saved_auth_answer(answered.saved_auth_available, stores) == answered.saved_auth_available->0,
        saved_auth_answer(invalidated.saved_auth_available, stores) == stores_hold_auth(stores),
{
}

} // verus!
