//! The store of named secrets: each value is sealed under the master key,
//! and the store is kept as a vector sorted strictly by name, which makes
//! names unique and listing ordered.
use vstd::prelude::*;

use crate::crypto::{decrypt, encrypt, open_blob, sealed, KEY_LEN, MAX_PLAINTEXT_LEN};
use crate::error::VaultError;
use crate::text::{
    lemma_text_lt_irreflexive, lemma_text_lt_total,
    lemma_text_lt_transitive, text_eq, text_less, text_lt,
};
use vstd::utf8::{decode_utf8, encode_utf8, valid_utf8};

verus! {

/// Seconds in a day.
pub const SECS_PER_DAY: i64 = 86400;

/// A named secret: its value sealed under the master key, and an optional
/// expiry in seconds since the Unix epoch.
#[derive(Debug, Clone)]
pub struct Secret {
    pub name: String,
    pub encrypted_value: Vec<u8>,
    pub expires_at: Option<i64>,
}

/// What a store remembers of a secret besides its name.
pub open spec fn model(s: Secret) -> (Seq<u8>, Option<i64>) {
    (s.encrypted_value@, s.expires_at)
}

/// Past its expiry at time `now`: strictly later than `expires_at`.
pub open spec fn expired(expires_at: Option<i64>, now: int) -> bool {
    match expires_at {
        Some(e) => now > e,
        None => false,
    }
}

/// Whole days from `now` until `e`, rounded down.
pub open spec fn days_left(e: int, now: int) -> int {
    (e - now) / (SECS_PER_DAY as int)
}

/// The expiry of a secret added at `now` for `days` days, clamped to the
/// largest timestamp.
pub open spec fn expiry_after(now: int, days: Option<u32>) -> Option<i64> {
    match days {
        Some(d) => if now + d * SECS_PER_DAY > i64::MAX {
            Some(i64::MAX)
        } else {
            Some((now + d * SECS_PER_DAY) as i64)
        },
        None => None,
    }
}

/// The text shown for a secret's expiry, given the days left.
pub open spec fn expiry_text(days: Option<int>) -> Seq<char> {
    match days {
        None => "∞ Permanent"@,
        Some(d) => if d < 0 {
            "⚠️ EXPIRED"@
        } else if d == 0 {
            "⚠️ Expires today"@
        } else if d == 1 {
            "⚠️ Expires tomorrow"@
        } else if d <= 7 {
            "⚠️ "@ + crate::text::int_text(d) + " days"@
        } else {
            crate::text::int_text(d) + " days"@
        },
    }
}

/// Relies on `SystemTime::now` for the seconds since the Unix epoch (zero
/// if the clock reads earlier).
#[verifier::external_body]
pub(crate) fn unix_now() -> (r: i64) {
    match std::time::SystemTime::now().duration_since(std::time::UNIX_EPOCH) {
        Ok(d) => d.as_secs() as i64,
        Err(_) => 0,
    }
}

impl Secret {
    /// Whether the secret is past its expiry at time `now`.
    pub fn is_expired_at(&self, now: i64) -> (r: bool)
        ensures
            r == expired(self.expires_at, now as int),
    {
        match self.expires_at {
            Some(e) => now > e,
            None => false,
        }
    }

    /// Whether the secret is past its expiry now.
    pub fn is_expired(&self) -> (r: bool)
        ensures
            self.expires_at is None ==> !r,
    {
        self.is_expired_at(unix_now())
    }

    /// Whole days left at time `now`, rounded down; `None` for a permanent
    /// secret.
    pub fn days_until_expiration_at(&self, now: i64) -> (r: Option<i64>)
        ensures
            match self.expires_at {
                Some(e) => r == Some(days_left(e as int, now as int) as i64),
                None => r is None,
            },
    {
        match self.expires_at {
            Some(e) => {
                let diff: i128 = (e as i128) - (now as i128);
                let q: i128 = if diff >= 0 {
                    diff / 86400
                } else {
                    -((-diff + 86399) / 86400)
                };
                proof {
                    let d = e as int - now as int;
                    if diff < 0 {
                        assert(-((-d + 86399) / 86400) == d / 86400) by (nonlinear_arith)
                            requires d < 0;
                    }
                }
                Some(q as i64)
            },
            None => None,
        }
    }

    /// Whole days left now, rounded down; `None` for a permanent secret.
    pub fn days_until_expiration(&self) -> (r: Option<i64>)
        ensures
            r is None <==> self.expires_at is None,
    {
        self.days_until_expiration_at(unix_now())
    }

    /// The expiry as shown to the user at time `now`.
    pub fn expiration_display_at(&self, now: i64) -> (r: String)
        ensures
            r@ == expiry_text(
                match self.expires_at {
                    Some(e) => Some(days_left(e as int, now as int)),
                    None => None,
                },
            ),
    {
        match self.days_until_expiration_at(now) {
            None => String::from_str("∞ Permanent"),
            Some(d) => if d < 0 {
                String::from_str("⚠️ EXPIRED")
            } else if d == 0 {
                String::from_str("⚠️ Expires today")
            } else if d == 1 {
                String::from_str("⚠️ Expires tomorrow")
            } else if d <= 7 {
                let t = crate::text::int_to_text(d);
                String::from_str("⚠️ ").concat(t.as_str()).concat(" days")
            } else {
                let t = crate::text::int_to_text(d);
                t.concat(" days")
            },
        }
    }

    /// The expiry as shown to the user now.
    pub fn expiration_display(&self) -> (r: String)
        ensures
            self.expires_at is None ==> r@ == "∞ Permanent"@,
    {
        self.expiration_display_at(unix_now())
    }
}


/// Names strictly ascending, hence unique.
pub open spec fn sorted_by_name(s: Seq<Secret>) -> bool {
    forall|i: int, j: int| 0 <= i < j < s.len() ==> text_lt(#[trigger] s[i].name@, #[trigger] s[j].name@)
}

/// Some entry of `s` is named `k`.
pub open spec fn has_name(s: Seq<Secret>, k: Seq<char>) -> bool {
    exists|i: int| 0 <= i < s.len() && s[i].name@ == k
}

/// The position of an entry named `k`.
pub open spec fn index_of(s: Seq<Secret>, k: Seq<char>) -> int {
    choose|i: int| 0 <= i < s.len() && s[i].name@ == k
}

/// The mapping from names to what is stored under them.
pub open spec fn entries(s: Seq<Secret>) -> Map<Seq<char>, (Seq<u8>, Option<i64>)> {
    Map::new(|k: Seq<char>| has_name(s, k), |k: Seq<char>| model(s[index_of(s, k)]))
}

/// In a sorted sequence the entry named like position `i` is at `i`.
proof fn lemma_index_unique(s: Seq<Secret>, i: int)
    requires
        sorted_by_name(s),
        0 <= i < s.len(),
    ensures
        has_name(s, s[i].name@),
        index_of(s, s[i].name@) == i,
        entries(s)[s[i].name@] == model(s[i]),
{
    assert(0 <= i < s.len() && s[i].name@ == s[i].name@);
    let j = index_of(s, s[i].name@);
    if j != i {
        lemma_text_lt_irreflexive(s[i].name@);
        if j < i {
            assert(text_lt(s[j].name@, s[i].name@));
        } else {
            assert(text_lt(s[i].name@, s[j].name@));
        }
    }
}

/// Inserting an entry at the position its name sorts to.
proof fn lemma_entries_insert(s: Seq<Secret>, p: int, e: Secret)
    requires
        sorted_by_name(s),
        0 <= p <= s.len(),
        forall|i: int| 0 <= i < p ==> text_lt(#[trigger] s[i].name@, e.name@),
        forall|i: int| p <= i < s.len() ==> text_lt(e.name@, #[trigger] s[i].name@),
    ensures
        sorted_by_name(s.insert(p, e)),
        entries(s.insert(p, e)) =~= entries(s).insert(e.name@, model(e)),
{
    let t = s.insert(p, e);
    assert forall|i: int, j: int| 0 <= i < j < t.len() implies text_lt(
        #[trigger] t[i].name@,
        #[trigger] t[j].name@,
    ) by {
        if j < p {
        } else if j == p {
        } else if i < p {
            lemma_text_lt_transitive(s[i].name@, e.name@, s[j - 1].name@);
        } else if i == p {
        } else {
        }
    }
    assert forall|k: Seq<char>| #[trigger] has_name(t, k) == (k == e.name@ || has_name(s, k)) by {
        if has_name(t, k) {
            let i = choose|i: int| 0 <= i < t.len() && t[i].name@ == k;
            if i < p {
                assert(s[i].name@ == k);
            } else if i > p {
                assert(s[i - 1].name@ == k);
            }
        }
        if has_name(s, k) {
            let i = choose|i: int| 0 <= i < s.len() && s[i].name@ == k;
            if i < p {
                assert(t[i].name@ == k);
            } else {
                assert(t[i + 1].name@ == k);
            }
        }
        if k == e.name@ {
            assert(t[p].name@ == k);
        }
    }
    assert forall|k: Seq<char>| #[trigger] entries(t).contains_key(k) implies entries(t)[k] == entries(
        s,
    ).insert(e.name@, model(e))[k] by {
        if k == e.name@ {
            lemma_index_unique(t, p);
        } else {
            let j = index_of(s, k);
            lemma_index_unique(s, j);
            if j < p {
                lemma_index_unique(t, j);
            } else {
                lemma_index_unique(t, j + 1);
            }
        }
    }
}

/// Replacing the entry at a position by one of the same name.
proof fn lemma_entries_update(s: Seq<Secret>, p: int, e: Secret)
    requires
        sorted_by_name(s),
        0 <= p < s.len(),
        s[p].name@ == e.name@,
    ensures
        sorted_by_name(s.update(p, e)),
        entries(s.update(p, e)) =~= entries(s).insert(e.name@, model(e)),
{
    let t = s.update(p, e);
    assert forall|i: int, j: int| 0 <= i < j < t.len() implies text_lt(
        #[trigger] t[i].name@,
        #[trigger] t[j].name@,
    ) by {
        assert(text_lt(s[i].name@, s[j].name@));
    }
    assert forall|k: Seq<char>| #[trigger] has_name(t, k) == has_name(s, k) by {
        if has_name(t, k) {
            let i = choose|i: int| 0 <= i < t.len() && t[i].name@ == k;
            assert(s[i].name@ == k);
        }
        if has_name(s, k) {
            let i = choose|i: int| 0 <= i < s.len() && s[i].name@ == k;
            assert(t[i].name@ == k);
        }
    }
    lemma_index_unique(s, p);
    assert forall|k: Seq<char>| #[trigger] entries(t).contains_key(k) implies entries(t)[k] == entries(
        s,
    ).insert(e.name@, model(e))[k] by {
        if k == e.name@ {
            lemma_index_unique(t, p);
        } else {
            let j = index_of(s, k);
            lemma_index_unique(s, j);
            lemma_index_unique(t, j);
        }
    }
}

/// Removing the entry at a position.
proof fn lemma_entries_remove(s: Seq<Secret>, p: int)
    requires
        sorted_by_name(s),
        0 <= p < s.len(),
    ensures
        sorted_by_name(s.remove(p)),
        entries(s.remove(p)) =~= entries(s).remove(s[p].name@),
{
    let t = s.remove(p);
    let n = s[p].name@;
    assert forall|i: int, j: int| 0 <= i < j < t.len() implies text_lt(
        #[trigger] t[i].name@,
        #[trigger] t[j].name@,
    ) by {
        if j < p {
        } else if i < p {
            assert(text_lt(s[i].name@, s[j + 1].name@));
        } else {
            assert(text_lt(s[i + 1].name@, s[j + 1].name@));
        }
    }
    assert forall|k: Seq<char>| #[trigger] has_name(t, k) == (k != n && has_name(s, k)) by {
        if has_name(t, k) {
            let i = choose|i: int| 0 <= i < t.len() && t[i].name@ == k;
            lemma_text_lt_irreflexive(n);
            if i < p {
                assert(s[i].name@ == k);
                assert(text_lt(s[i].name@, n));
            } else {
                assert(s[i + 1].name@ == k);
                assert(text_lt(n, s[i + 1].name@));
            }
        }
        if k != n && has_name(s, k) {
            let i = choose|i: int| 0 <= i < s.len() && s[i].name@ == k;
            if i < p {
                assert(t[i].name@ == k);
            } else {
                assert(t[i - 1].name@ == k);
            }
        }
    }
    assert forall|k: Seq<char>| #[trigger] entries(t).contains_key(k) implies entries(t)[k] == entries(
        s,
    ).remove(n)[k] by {
        let j = index_of(s, k);
        lemma_index_unique(s, j);
        if j < p {
            lemma_index_unique(t, j);
        } else {
            lemma_index_unique(t, j - 1);
        }
    }
}


/// What decrypting a sealed value yields: its UTF-8 text, or nothing when
/// the blob does not open under the key or is not UTF-8.
pub open spec fn plain_text(key: Seq<u8>, blob: Seq<u8>) -> Result<Seq<char>, VaultError> {
    match open_blob(key, blob) {
        None => Err(VaultError::Crypto),
        Some(p) => if valid_utf8(p) {
            Ok(decode_utf8(p))
        } else {
            Err(VaultError::CorruptStore)
        },
    }
}

/// What decrypting the secret named `name` yields: `NotFound` when there is
/// none, else the text of its sealed value.
pub open spec fn lookup_plain(
    m: Map<Seq<char>, (Seq<u8>, Option<i64>)>,
    key: Seq<u8>,
    name: Seq<char>,
) -> Result<Seq<char>, VaultError> {
    if !m.contains_key(name) {
        Err(VaultError::NotFound)
    } else {
        plain_text(key, m[name].0)
    }
}

/// The first failure, in name order, among the sealed values of `s`.
pub open spec fn first_failure(s: Seq<Secret>, key: Seq<u8>, e: VaultError) -> bool {
    exists|i: int|
        0 <= i < s.len() && plain_text(key, #[trigger] s[i].encrypted_value@) == Err::<
            Seq<char>,
            VaultError,
        >(e) && forall|j: int| 0 <= j < i ==> plain_text(key, #[trigger] s[j].encrypted_value@) is Ok
}

/// Relies on `String::from_utf8`: it accepts exactly valid UTF-8 and
/// decodes it.
#[verifier::external_body]
pub(crate) fn sealed_text(bytes: Vec<u8>) -> (r: Option<String>)
    ensures
        r is Some <==> valid_utf8(bytes@),
        r matches Some(t) ==> t@ == decode_utf8(bytes@),
{
    String::from_utf8(bytes).ok()
}

/// Relies on `Zeroize` for `Vec<u8>`, applied to the sealed value of each
/// secret: the bytes are overwritten with zeros and left empty; names and
/// expiries stay.
#[verifier::external_body]
fn scrub_sealed_values(secrets: &mut Vec<Secret>)
    ensures
        final(secrets)@.len() == old(secrets)@.len(),
        forall|i: int|
            0 <= i < final(secrets)@.len() ==> (#[trigger] final(secrets)@[i]).encrypted_value@.len()
                == 0 && final(secrets)@[i].name == old(secrets)@[i].name && final(secrets)@[i].expires_at
                == old(secrets)@[i].expires_at,
    opens_invariants none
    no_unwind
{
    for s in secrets.iter_mut() {
        zeroize::Zeroize::zeroize(&mut s.encrypted_value);
    }
}

/// The secrets, sorted by name, and the file that the store was loaded
/// from or is to be saved to.
#[derive(Debug, Clone)]
pub struct SecretsStore {
    pub secrets: Vec<Secret>,
    pub path: Option<String>,
}

impl Drop for SecretsStore {
    /// Every sealed value is scrubbed when the store goes away.
    fn drop(&mut self)
        opens_invariants none
        no_unwind
    {
        scrub_sealed_values(&mut self.secrets);
    }
}

impl View for SecretsStore {
    type V = Map<Seq<char>, (Seq<u8>, Option<i64>)>;

    open spec fn view(&self) -> Self::V {
        entries(self.secrets@)
    }
}

impl SecretsStore {
    /// The secrets are sorted strictly by name.
    pub open spec fn wf(&self) -> bool {
        sorted_by_name(self.secrets@)
    }

    /// An empty store bound to no file.
    pub fn new() -> (r: Self)
        ensures
            r.wf(),
            r@ == Map::<Seq<char>, (Seq<u8>, Option<i64>)>::empty(),
            r.secrets@.len() == 0,
            r.path is None,
    {
        let r = SecretsStore { secrets: Vec::new(), path: None };
        proof {
            assert(r@ =~= Map::<Seq<char>, (Seq<u8>, Option<i64>)>::empty());
        }
        r
    }

    /// An empty store bound to the file at `path`.
    pub fn bound_to(path: String) -> (r: Self)
        ensures
            r.wf(),
            r@ == Map::<Seq<char>, (Seq<u8>, Option<i64>)>::empty(),
            r.path == Some(path),
    {
        let mut r = Self::new();
        r.path = Some(path);
        r
    }

    /// Checks that the secrets are sorted strictly by name.
    pub fn is_well_formed(&self) -> (r: bool)
        ensures
            r == self.wf(),
    {
        let n = self.secrets.len();
        if n == 0 {
            return true;
        }
        let mut i: usize = 1;
        while i < n
            invariant
                n == self.secrets@.len(),
                1 <= i <= n,
                sorted_by_name(self.secrets@.take(i as int)),
            decreases n - i,
        {
            if !text_less(self.secrets[i - 1].name.as_str(), self.secrets[i].name.as_str()) {
                proof {
                    assert(!sorted_by_name(self.secrets@)) by {
                        if sorted_by_name(self.secrets@) {
                            assert(text_lt(self.secrets@[i - 1].name@, self.secrets@[i as int].name@));
                        }
                    }
                }
                return false;
            }
            proof {
                let s = self.secrets@;
                let t = s.take(i + 1);
                assert forall|a: int, b: int| 0 <= a < b < t.len() implies text_lt(
                    #[trigger] t[a].name@,
                    #[trigger] t[b].name@,
                ) by {
                    if b == i {
                        if a < i - 1 {
                            assert(s.take(i as int)[a] == s[a]);
                            assert(s.take(i as int)[i - 1] == s[i - 1]);
                            lemma_text_lt_transitive(s[a].name@, s[i - 1].name@, s[i as int].name@);
                        }
                    } else {
                        assert(s.take(i as int)[a] == s[a]);
                        assert(s.take(i as int)[b] == s[b]);
                    }
                }
            }
            i = i + 1;
        }
        proof {
            assert(self.secrets@.take(n as int) == self.secrets@);
        }
        true
    }

    /// The path of the file bound to this store.
    pub fn get_path(&self) -> (r: &String)
        requires
            self.path is Some,
        ensures
            self.path == Some(*r),
    {
        self.path.as_ref().unwrap()
    }

    /// Where `name` stands or would be inserted, and whether it is there.
    fn position(&self, name: &str) -> (r: (usize, bool))
        requires
            self.wf(),
        ensures
            r.0 <= self.secrets@.len(),
            forall|i: int| 0 <= i < r.0 ==> text_lt(#[trigger] self.secrets@[i].name@, name@),
            r.1 <==> has_name(self.secrets@, name@),
            r.1 ==> r.0 < self.secrets@.len() && self.secrets@[r.0 as int].name@ == name@,
            !r.1 ==> forall|i: int|
                r.0 <= i < self.secrets@.len() ==> text_lt(name@, #[trigger] self.secrets@[i].name@),
    {
        let n = self.secrets.len();
        let mut i: usize = 0;
        while i < n && text_less(self.secrets[i].name.as_str(), name)
            invariant
                n == self.secrets@.len(),
                i <= n,
                forall|j: int| 0 <= j < i ==> text_lt(#[trigger] self.secrets@[j].name@, name@),
            decreases n - i,
        {
            i = i + 1;
        }
        let found = i < n && text_eq(self.secrets[i].name.as_str(), name);
        proof {
            let s = self.secrets@;
            if !found && i < n {
                lemma_text_lt_total(s[i as int].name@, name@);
                assert forall|j: int| i <= j < s.len() implies text_lt(name@, #[trigger] s[j].name@) by {
                    if j > i {
                        lemma_text_lt_transitive(name@, s[i as int].name@, s[j].name@);
                    }
                }
            }
            if has_name(s, name@) && !found {
                let j = choose|j: int| 0 <= j < s.len() && s[j].name@ == name@;
                lemma_text_lt_irreflexive(name@);
                if j < i {
                    assert(text_lt(s[j].name@, name@));
                } else {
                    assert(text_lt(name@, s[j].name@));
                }
            }
            if found {
                assert(0 <= i < s.len() && s[i as int].name@ == name@);
            }
        }
        (i, found)
    }

    /// Inserts `secret`, replacing any entry of the same name.
    pub fn insert_entry(&mut self, secret: Secret)
        requires
            old(self).wf(),
        ensures
            final(self).wf(),
            final(self)@ == old(self)@.insert(secret.name@, model(secret)),
            final(self).path == old(self).path,
    {
        let (p, found) = self.position(secret.name.as_str());
        proof {
            if found {
                lemma_entries_update(self.secrets@, p as int, secret);
            } else {
                lemma_entries_insert(self.secrets@, p as int, secret);
            }
        }
        if found {
            self.secrets.set(p, secret);
        } else {
            self.secrets.insert(p, secret);
        }
    }

    /// Seals `value` under `key` and stores it as `name`, replacing any
    /// secret of that name. With `expiration_days` the secret expires that
    /// many days after `now`. Fails only when the value is too long to seal.
    pub fn add_secret_at(
        &mut self,
        name: String,
        value: String,
        expiration_days: Option<u32>,
        now: i64,
        key: &[u8],
    ) -> (r: Result<(), VaultError>)
        requires
            old(self).wf(),
            key@.len() == KEY_LEN,
        ensures
            final(self).wf(),
            final(self).path == old(self).path,
            encode_utf8(value@).len() <= MAX_PLAINTEXT_LEN <==> r is Ok,
            r is Ok ==> final(self)@.dom() == old(self)@.dom().insert(name@),
            r is Ok ==> forall|k: Seq<char>|
                k != name@ && #[trigger] old(self)@.contains_key(k) ==> final(self)@[k] == old(
                    self,
                )@[k],
            r is Ok ==> sealed(key@, encode_utf8(value@), final(self)@[name@].0),
            r is Ok ==> final(self)@[name@].1 == expiry_after(now as int, expiration_days),
            r is Err ==> *final(self) == *old(self) && r == Err::<(), VaultError>(VaultError::Crypto),
    {
        let sealed_value = match encrypt(value.as_str().as_bytes(), key) {
            Ok(v) => v,
            Err(_) => {
                return Err(VaultError::Crypto);
            },
        };
        let expires_at = match expiration_days {
            Some(d) => {
                let inc: i64 = (d as i64) * SECS_PER_DAY;
                if now > i64::MAX - inc {
                    Some(i64::MAX)
                } else {
                    Some(now + inc)
                }
            },
            None => None,
        };
        let secret = Secret { name, encrypted_value: sealed_value, expires_at };
        self.insert_entry(secret);
        Ok(())
    }

    /// Seals `value` under `key` and stores it as `name`, replacing any
    /// secret of that name, with an expiry counted from now.
    pub fn add_secret(
        &mut self,
        name: String,
        value: String,
        expiration_days: Option<u32>,
        key: &[u8],
    ) -> (r: Result<(), VaultError>)
        requires
            old(self).wf(),
            key@.len() == KEY_LEN,
        ensures
            final(self).wf(),
            final(self).path == old(self).path,
            encode_utf8(value@).len() <= MAX_PLAINTEXT_LEN <==> r is Ok,
            r is Ok ==> final(self)@.dom() == old(self)@.dom().insert(name@),
            r is Ok ==> forall|k: Seq<char>|
                k != name@ && #[trigger] old(self)@.contains_key(k) ==> final(self)@[k] == old(
                    self,
                )@[k],
            r is Ok ==> sealed(key@, encode_utf8(value@), final(self)@[name@].0),
            r is Ok ==> (expiration_days is None <==> final(self)@[name@].1 is None),
            r is Err ==> *final(self) == *old(self),
    {
        self.add_secret_at(name, value, expiration_days, unix_now(), key)
    }

    /// The secret named `name`, if any.
    pub fn get_secret(&self, name: &str) -> (r: Option<&Secret>)
        requires
            self.wf(),
        ensures
            r is Some <==> self@.contains_key(name@),
            r matches Some(x) ==> x.name@ == name@ && model(*x) == self@[name@],
    {
        let (p, found) = self.position(name);
        if found {
            proof {
                lemma_index_unique(self.secrets@, p as int);
            }
            Some(&self.secrets[p])
        } else {
            None
        }
    }

    /// All secrets, sorted strictly by name.
    pub fn list_secrets(&self) -> (r: Vec<&Secret>)
        requires
            self.wf(),
        ensures
            r@.len() == self.secrets@.len(),
            forall|i: int| 0 <= i < r@.len() ==> *r@[i] == self.secrets@[i],
            forall|i: int, j: int|
                0 <= i < j < r@.len() ==> text_lt(#[trigger] r@[i].name@, #[trigger] r@[j].name@),
            forall|k: Seq<char>| #[trigger] self@.contains_key(k) <==> exists|i: int| 0 <= i < r@.len() && r@[i].name@ == k,
    {
        let mut out: Vec<&Secret> = Vec::new();
        let mut i: usize = 0;
        while i < self.secrets.len()
            invariant
                i <= self.secrets@.len(),
                out@.len() == i,
                forall|j: int| 0 <= j < i ==> *out@[j] == self.secrets@[j],
            decreases self.secrets@.len() - i,
        {
            out.push(&self.secrets[i]);
            i = i + 1;
        }
        proof {
            assert forall|k: Seq<char>| #[trigger] self@.contains_key(k) <==> exists|i: int| 0 <= i < out@.len() && out@[i].name@ == k by {
                if self@.contains_key(k) {
                    let j = choose|j: int| 0 <= j < self.secrets@.len() && self.secrets@[j].name@ == k;
                    assert(out@[j].name@ == k);
                }
            }
        }
        out
    }

    /// Removes the secret named `name`, if any.
    pub fn delete_secret(&mut self, name: &str)
        requires
            old(self).wf(),
        ensures
            final(self).wf(),
            final(self)@ == old(self)@.remove(name@),
            final(self).path == old(self).path,
    {
        let (p, found) = self.position(name);
        if found {
            proof {
                lemma_entries_remove(self.secrets@, p as int);
            }
            self.secrets.remove(p);
        } else {
            proof {
                assert(self@ =~= self@.remove(name@));
            }
        }
    }

    /// The plaintext of the secret named `name`.
    pub fn decrypt_secret(&self, name: &str, key: &[u8]) -> (r: Result<String, VaultError>)
        requires
            self.wf(),
            key@.len() == KEY_LEN,
        ensures
            match lookup_plain(self@, key@, name@) {
                Ok(t) => r matches Ok(v) && v@ == t,
                Err(e) => r == Err::<String, VaultError>(e),
            },
    {
        match self.get_secret(name) {
            None => Err(VaultError::NotFound),
            Some(secret) => match decrypt(secret.encrypted_value.as_slice(), key) {
                Err(_) => Err(VaultError::Crypto),
                Ok(bytes) => match sealed_text(bytes) {
                    Some(t) => Ok(t),
                    None => Err(VaultError::CorruptStore),
                },
            },
        }
    }

    /// The plaintext of every secret, as (name, value) pairs sorted by
    /// name. Fails with the first failure in that order.
    pub fn decrypt_all(&self, key: &[u8]) -> (r: Result<Vec<(String, String)>, VaultError>)
        requires
            self.wf(),
            key@.len() == KEY_LEN,
        ensures
            r is Ok <==> forall|i: int|
                0 <= i < self.secrets@.len() ==> #[trigger] plain_text(
                    key@,
                    self.secrets@[i].encrypted_value@,
                ) is Ok,
            r matches Ok(v) ==> v@.len() == self.secrets@.len() && forall|i: int|
                0 <= i < v@.len() ==> (#[trigger] v@[i]).0@ == self.secrets@[i].name@ && plain_text(
                    key@,
                    self.secrets@[i].encrypted_value@,
                ) == Ok::<Seq<char>, VaultError>(v@[i].1@),
            r matches Err(e) ==> first_failure(self.secrets@, key@, e),
    {
        let mut out: Vec<(String, String)> = Vec::new();
        let mut i: usize = 0;
        while i < self.secrets.len()
            invariant
                self.wf(),
                key@.len() == KEY_LEN,
                i <= self.secrets@.len(),
                out@.len() == i,
                forall|j: int|
                    0 <= j < i ==> (#[trigger] out@[j]).0@ == self.secrets@[j].name@ && plain_text(
                        key@,
                        self.secrets@[j].encrypted_value@,
                    ) == Ok::<Seq<char>, VaultError>(out@[j].1@),
            decreases self.secrets@.len() - i,
        {
            let secret = &self.secrets[i];
            let bytes = match decrypt(secret.encrypted_value.as_slice(), key) {
                Ok(b) => b,
                Err(_) => {
                    proof {
                        assert(plain_text(key@, self.secrets@[i as int].encrypted_value@) is Err);
                        assert forall|j: int| 0 <= j < i implies plain_text(key@, #[trigger] self.secrets@[j].encrypted_value@) is Ok by {
                            assert(out@[j].0@ == self.secrets@[j].name@);
                        }
                    }
                    return Err(VaultError::Crypto);
                },
            };
            let text = match sealed_text(bytes) {
                Some(t) => t,
                None => {
                    proof {
                        assert(plain_text(key@, self.secrets@[i as int].encrypted_value@) is Err);
                        assert forall|j: int| 0 <= j < i implies plain_text(key@, #[trigger] self.secrets@[j].encrypted_value@) is Ok by {
                            assert(out@[j].0@ == self.secrets@[j].name@);
                        }
                    }
                    return Err(VaultError::CorruptStore);
                },
            };
            out.push((secret.name.clone(), text));
            i = i + 1;
        }
        proof {
            assert forall|j: int| 0 <= j < self.secrets@.len() implies #[trigger] plain_text(
                key@,
                self.secrets@[j].encrypted_value@,
            ) is Ok by {
                assert(out@[j].0@ == self.secrets@[j].name@);
            }
        }
        Ok(out)
    }

    /// A store bound to `path` holding `items`, inserted in order: a later
    /// item replaces an earlier one of the same name.
    pub fn from_entries(path: Option<String>, items: Vec<Secret>) -> (r: Self)
        ensures
            r.wf(),
            r@ == inserted_all(items@),
            r.path == path,
    {
        let mut store = SecretsStore { secrets: Vec::new(), path };
        let mut items = items;
        let ghost all = items@;
        let ghost n = all.len();
        proof {
            assert(store@ =~= Map::<Seq<char>, (Seq<u8>, Option<i64>)>::empty());
            assert(all.take(0) =~= Seq::<Secret>::empty());
            assert(all.skip(0) =~= all);
        }
        while items.len() > 0
            invariant
                store.wf(),
                store.path == path,
                n == all.len(),
                items@.len() <= n,
                items@ == all.skip(n - items@.len()),
                store@ == inserted_all(all.take(n - items@.len())),
            decreases items@.len(),
        {
            let ghost k = n - items@.len();
            let x = items.remove(0);
            proof {
                assert(all[k] == x);
                assert(all.take(k + 1).drop_last() == all.take(k));
                assert(all.take(k + 1).last() == x);
                assert(items@ =~= all.skip(k + 1));
            }
            store.insert_entry(x);
        }
        proof {
            assert(all.take(n as int) == all);
        }
        store
    }
}

/// The mapping left by inserting each secret of `s` in order into an empty
/// store, a later one replacing an earlier one of the same name.
pub open spec fn inserted_all(s: Seq<Secret>) -> Map<Seq<char>, (Seq<u8>, Option<i64>)>
    decreases s.len(),
{
    if s.len() == 0 {
        Map::empty()
    } else {
        inserted_all(s.drop_last()).insert(s.last().name@, model(s.last()))
    }
}

/// Reloading a store from the secrets it lists gives back the same
/// mapping from names to sealed values and expiries.
pub proof fn lemma_reload_same_entries(s: Seq<Secret>)
    requires
        sorted_by_name(s),
    ensures
        inserted_all(s) == entries(s),
    decreases s.len(),
{
    if s.len() == 0 {
        assert(entries(s) =~= Map::<Seq<char>, (Seq<u8>, Option<i64>)>::empty());
    } else {
        let p = s.drop_last();
        assert(sorted_by_name(p));
        lemma_reload_same_entries(p);
        assert(p.insert(p.len() as int, s.last()) =~= s);
        lemma_entries_insert(p, p.len() as int, s.last());
    }
}

/// Seals the serialized store for writing to its file.
pub fn seal_store(json: &[u8], key: &[u8]) -> (r: Result<Vec<u8>, VaultError>)
    requires
        key@.len() == KEY_LEN,
    ensures
        json@.len() <= MAX_PLAINTEXT_LEN <==> r is Ok,
        r matches Ok(b) ==> sealed(key@, json@, b@),
        r is Err ==> r == Err::<Vec<u8>, VaultError>(VaultError::Crypto),
{
    match encrypt(json, key) {
        Ok(b) => Ok(b),
        Err(_) => Err(VaultError::Crypto),
    }
}

/// Opens the bytes read from the store's file: a short, tampered or
/// foreign file is reported as a corrupt store.
pub fn open_store(file: &[u8], key: &[u8]) -> (r: Result<Vec<u8>, VaultError>)
    requires
        key@.len() == KEY_LEN,
    ensures
        r matches Ok(p) ==> open_blob(key@, file@) == Some(p@),
        r is Err ==> open_blob(key@, file@) is None && r == Err::<Vec<u8>, VaultError>(
            VaultError::CorruptStore,
        ),
{
    match decrypt(file, key) {
        Ok(p) => Ok(p),
        Err(_) => Err(VaultError::CorruptStore),
    }
}

/// A secret set to expire `d` whole days after `now` has `d` days left and
/// is not expired at `now`; one that expired a second before `now` is.
pub proof fn lemma_expiry_days(now: int, d: int)
    requires
        d >= 0,
    ensures
        days_left(now + d * SECS_PER_DAY, now) == d,
        now + d * SECS_PER_DAY <= i64::MAX && now >= i64::MIN ==> !expired(
            Some((now + d * SECS_PER_DAY) as i64),
            now,
        ),
        i64::MIN <= now - 1 ==> expired(Some((now - 1) as i64), now),
{
    assert((d * 86400) / 86400 == d) by (nonlinear_arith)
        requires d >= 0;
    assert(d * SECS_PER_DAY >= 0) by (nonlinear_arith)
        requires d >= 0;
}

} // verus!
