//! The blinded lookup table.
//!
//! The table never stores a configured name: it maps the digest of the
//! name's bytes followed by a 32-byte random secret to the command. A
//! presented name is hashed the same way and looked up, so a reader of the
//! table alone, without the secret, cannot enumerate the valid names. The
//! secret is drawn once when the table is built and lives as long as the
//! table; a table from another process, built under another secret, holds
//! unrelated keys.

use crate::bytes::bytes_eq;
use crate::config::WebhookDatabase;
use crate::error::{Error, ErrorKind};
use sha2::Digest;
use vstd::prelude::*;
use vstd::utf8::encode_utf8;

verus! {

/// The 32-byte digest that the hash function assigns to a byte sequence
pub uninterp spec fn digest_of(data: Seq<u8>) -> Seq<u8>;

/// The blinded key under which a name is stored and looked up: the digest
/// of the name's bytes followed by the secret
pub open spec fn blind(name: Seq<u8>, secret: Seq<u8>) -> Seq<u8> {
    digest_of(name + secret)
}

/// Relies on `sha2::Sha512_256` through `Digest::new`, `chain_update` and
/// `finalize`: chained updates hash the concatenation of their inputs, the
/// digest is a function of those bytes alone, and its output is 32 bytes.
#[verifier::external_body]
fn hash_with_secret(name: &[u8], secret: &[u8]) -> (r: Vec<u8>)
    ensures
        r@ == digest_of(name@ + secret@),
        r@.len() == 32,
{
    let digest = sha2::Sha512_256::new().chain_update(name).chain_update(secret).finalize();
    digest.to_vec()
}

/// Relies on `getrandom::getrandom`: on success the buffer is filled from
/// the operating system's random source. Nothing is promised of the bytes
/// beyond their count; two calls may differ.
#[verifier::external_body]
fn random_secret() -> (r: Option<Vec<u8>>)
    ensures
        r matches Some(s) ==> s@.len() == 32,
{
    let mut secret = [0u8; 32];
    match getrandom::getrandom(&mut secret) {
        Ok(()) => Some(secret.to_vec()),
        Err(_) => None,
    }
}

/// The per-row views of the table's storage
pub open spec fn views_of(entries: Seq<(Vec<u8>, String)>) -> Seq<(Seq<u8>, Seq<char>)> {
    Seq::new(entries.len(), |i: int| (entries[i].0@, entries[i].1@))
}

/// No two rows share a key
pub open spec fn unique_keys(entries: Seq<(Seq<u8>, Seq<char>)>) -> bool {
    forall|i: int, j: int| 0 <= i < j < entries.len() ==> entries[i].0 != entries[j].0
}

/// The mapping a row sequence holds: rows inserted in order, a later row
/// overriding an earlier one with an equal key
pub open spec fn table_of(entries: Seq<(Seq<u8>, Seq<char>)>) -> Map<Seq<u8>, Seq<char>>
    decreases entries.len(),
{
    if entries.len() == 0 {
        Map::empty()
    } else {
        table_of(entries.drop_last()).insert(entries.last().0, entries.last().1)
    }
}

/// The mapping the configured hooks induce under a secret: each name's
/// blinded key maps to its command, a later entry overriding an earlier
/// one whose key collides
pub open spec fn spec_blind_table(
    hooks: Seq<(Seq<char>, Seq<char>)>,
    secret: Seq<u8>,
) -> Map<Seq<u8>, Seq<char>> {
    table_of(Seq::new(hooks.len(), |i: int| (blind(encode_utf8(hooks[i].0), secret), hooks[i].1)))
}

/// What a lookup through a table with these contents and this secret
/// returns for a presented name
pub open spec fn spec_resolve(
    contents: Map<Seq<u8>, Seq<char>>,
    secret: Seq<u8>,
    name: Seq<u8>,
) -> Option<Seq<char>> {
    if contents.contains_key(blind(name, secret)) {
        Some(contents[blind(name, secret)])
    } else {
        None
    }
}

proof fn lemma_table_of_present(entries: Seq<(Seq<u8>, Seq<char>)>, i: int)
    requires
        unique_keys(entries),
        0 <= i < entries.len(),
    ensures
        table_of(entries).contains_key(entries[i].0),
        table_of(entries)[entries[i].0] == entries[i].1,
    decreases entries.len(),
{
    if i < entries.len() - 1 {
        assert(unique_keys(entries.drop_last()));
        lemma_table_of_present(entries.drop_last(), i);
        assert(entries.last().0 != entries[i].0);
    }
}

proof fn lemma_table_of_absent(entries: Seq<(Seq<u8>, Seq<char>)>, key: Seq<u8>)
    requires
        forall|j: int| 0 <= j < entries.len() ==> entries[j].0 != key,
    ensures
        !table_of(entries).contains_key(key),
    decreases entries.len(),
{
    if entries.len() > 0 {
        lemma_table_of_absent(entries.drop_last(), key);
    }
}

proof fn lemma_table_of_update(entries: Seq<(Seq<u8>, Seq<char>)>, i: int, value: Seq<char>)
    requires
        unique_keys(entries),
        0 <= i < entries.len(),
    ensures
        table_of(entries.update(i, (entries[i].0, value))) == table_of(entries).insert(
            entries[i].0,
            value,
        ),
    decreases entries.len(),
{
    let key = entries[i].0;
    let updated = entries.update(i, (key, value));
    if i == entries.len() - 1 {
        assert(updated.drop_last() =~= entries.drop_last());
        assert(updated.last() == (key, value));
        assert(table_of(entries.drop_last()).insert(key, value) =~= table_of(
            entries.drop_last(),
        ).insert(key, entries[i].1).insert(key, value));
    } else {
        assert(unique_keys(entries.drop_last()));
        assert(updated.last() == entries.last());
        assert(updated.drop_last() =~= entries.drop_last().update(i, (key, value)));
        lemma_table_of_update(entries.drop_last(), i, value);
        assert(entries.last().0 != key);
        assert(table_of(entries.drop_last()).insert(key, value).insert(
            entries.last().0,
            entries.last().1,
        ) =~= table_of(entries.drop_last()).insert(entries.last().0, entries.last().1).insert(
            key,
            value,
        ));
    }
}

/// Inserts a row, replacing the row with an equal key where one exists, so
/// that the storage keeps unique keys and the held mapping gains exactly
/// this key-to-value binding.
fn table_insert(entries: &mut Vec<(Vec<u8>, String)>, key: Vec<u8>, value: String)
    requires
        unique_keys(views_of(old(entries)@)),
    ensures
        unique_keys(views_of(final(entries)@)),
        table_of(views_of(final(entries)@)) == table_of(views_of(old(entries)@)).insert(
            key@,
            value@,
        ),
{
    let n: usize = entries.len();
    let mut i: usize = 0;
    while i < n
        invariant
            n == entries@.len(),
            i <= n,
            *entries == *old(entries),
            unique_keys(views_of(entries@)),
            forall|j: int| 0 <= j < i ==> views_of(entries@)[j].0 != key@,
        decreases n - i,
    {
        if bytes_eq(entries[i].0.as_slice(), key.as_slice()) {
            let ghost old_views = views_of(entries@);
            proof {
                lemma_table_of_update(old_views, i as int, value@);
            }
            entries[i] = (key, value);
            proof {
                assert(views_of(entries@) =~= old_views.update(
                    i as int,
                    (old_views[i as int].0, value@),
                ));
            }
            return;
        }
        i = i + 1;
    }
    let ghost old_views = views_of(entries@);
    entries.push((key, value));
    proof {
        assert(views_of(entries@) =~= old_views.push((key@, value@)));
        assert(views_of(entries@).drop_last() =~= old_views);
    }
}

/// The blinded table: a 32-byte secret and rows from blinded key to
/// command. Built once from the configured webhooks; read-only afterwards.
pub struct BlindedTable {
    secret: Vec<u8>,
    entries: Vec<(Vec<u8>, String)>,
}

impl BlindedTable {
    /// The blinding secret's bytes
    pub closed spec fn secret_view(self) -> Seq<u8> {
        self.secret@
    }

    /// The per-row views of the table's storage
    pub closed spec fn entry_views(self) -> Seq<(Seq<u8>, Seq<char>)> {
        views_of(self.entries@)
    }

    /// The mapping the table holds, from blinded key to command
    pub open spec fn contents(self) -> Map<Seq<u8>, Seq<char>> {
        table_of(self.entry_views())
    }

    /// Well-formed: a 32-byte secret and unique keys
    pub open spec fn wf(self) -> bool {
        self.secret_view().len() == 32 && unique_keys(self.entry_views())
    }

    /// Builds the table: draws a fresh secret and blinds every configured
    /// entry under it. Fails only where the random source fails, which is
    /// a configuration-time defect.
    pub fn build(webhooks: &WebhookDatabase) -> (r: Result<BlindedTable, Error>)
        ensures
            r matches Ok(t) ==> t.wf() && t.contents() == spec_blind_table(
                webhooks@,
                t.secret_view(),
            ),
            r matches Err(e) ==> e.kind == ErrorKind::Configuration,
    {
        let secret = match random_secret() {
            Some(s) => s,
            None => {
                return Err(
                    Error::new(
                        ErrorKind::Configuration,
                        "failed to create blinding secret".to_owned(),
                        None,
                    ),
                );
            },
        };
        let mut entries: Vec<(Vec<u8>, String)> = Vec::new();
        let n: usize = webhooks.hooks.len();
        let mut i: usize = 0;
        proof {
            assert(views_of(entries@) =~= Seq::<(Seq<u8>, Seq<char>)>::empty());
        }
        while i < n
            invariant
                n == webhooks.hooks@.len(),
                i <= n,
                secret@.len() == 32,
                unique_keys(views_of(entries@)),
                table_of(views_of(entries@)) == spec_blind_table(webhooks@.take(i as int), secret@),
            decreases n - i,
        {
            let name: &String = &webhooks.hooks[i].0;
            let key = hash_with_secret(name.as_str().as_bytes(), secret.as_slice());
            let command = webhooks.hooks[i].1.clone();
            let ghost before = views_of(entries@);
            let ghost key_view = key@;
            let ghost command_view = command@;
            table_insert(&mut entries, key, command);
            proof {
                let hv = webhooks@;
                let mapped = |k: int| (blind(encode_utf8(hv[k].0), secret@), hv[k].1);
                let prev_rows = Seq::new(i as nat, mapped);
                let cur_rows = Seq::new((i + 1) as nat, mapped);
                let prev_take = hv.take(i as int);
                let cur_take = hv.take(i as int + 1);
                assert(Seq::new(
                    prev_take.len(),
                    |k: int| (blind(encode_utf8(prev_take[k].0), secret@), prev_take[k].1),
                ) =~= prev_rows);
                assert(Seq::new(
                    cur_take.len(),
                    |k: int| (blind(encode_utf8(cur_take[k].0), secret@), cur_take[k].1),
                ) =~= cur_rows);
                assert(cur_rows.drop_last() =~= prev_rows);
                let hook_i = hv[i as int];
                assert(cur_rows.last() == (blind(encode_utf8(hook_i.0), secret@), hook_i.1));
                assert(key_view == blind(encode_utf8(hv[i as int].0), secret@));
                assert(command_view == hv[i as int].1);
                assert(table_of(views_of(entries@)) == table_of(before).insert(
                    key_view,
                    command_view,
                ));
                assert(table_of(cur_rows) == table_of(prev_rows).insert(key_view, command_view));
            }
            i = i + 1;
        }
        proof {
            assert(webhooks@.take(n as int) =~= webhooks@);
        }
        Ok(BlindedTable { secret, entries })
    }

    /// Resolves a presented name: its bytes are blinded with the table's
    /// secret and the key is looked up. An unknown name and a malformed
    /// one are the same negative outcome, so a caller learns nothing about
    /// which names are almost valid.
    pub fn resolve(&self, name: &[u8]) -> (r: Option<String>)
        requires
            self.wf(),
        ensures
            r matches Some(c) ==> spec_resolve(self.contents(), self.secret_view(), name@)
                == Some(c@),
            r is None ==> spec_resolve(self.contents(), self.secret_view(), name@) is None,
    {
        let key = hash_with_secret(name, self.secret.as_slice());
        let n: usize = self.entries.len();
        let mut i: usize = 0;
        while i < n
            invariant
                self.wf(),
                n == self.entries@.len(),
                i <= n,
                key@ == blind(name@, self.secret_view()),
                forall|j: int| 0 <= j < i ==> self.entry_views()[j].0 != key@,
            decreases n - i,
        {
            if bytes_eq(self.entries[i].0.as_slice(), key.as_slice()) {
                proof {
                    lemma_table_of_present(self.entry_views(), i as int);
                }
                return Some(self.entries[i].1.clone());
            }
            i = i + 1;
        }
        proof {
            lemma_table_of_absent(self.entry_views(), key@);
        }
        None
    }
}

/// Blinding determinism within one process: what a lookup returns is a
/// function of the table's contents, its secret and the presented name
/// alone, so repeated lookups of one name through one table agree.
pub proof fn lemma_resolve_deterministic(t1: BlindedTable, t2: BlindedTable, name: Seq<u8>)
    requires
        t1.contents() == t2.contents(),
        t1.secret_view() == t2.secret_view(),
    ensures
        spec_resolve(t1.contents(), t1.secret_view(), name) == spec_resolve(
            t2.contents(),
            t2.secret_view(),
            name,
        ),
{
}

/// No two configured names blind to the same key under this secret
pub open spec fn blinding_collision_free(
    hooks: Seq<(Seq<char>, Seq<char>)>,
    secret: Seq<u8>,
) -> bool {
    forall|i: int, j: int|
        0 <= i < j < hooks.len() ==> blind(encode_utf8(hooks[i].0), secret) != blind(
            encode_utf8(hooks[j].0),
            secret,
        )
}

/// The presented name's blinded key collides with no configured name's key
pub open spec fn blinds_fresh(
    hooks: Seq<(Seq<char>, Seq<char>)>,
    secret: Seq<u8>,
    name: Seq<u8>,
) -> bool {
    forall|j: int|
        0 <= j < hooks.len() ==> blind(name, secret) != blind(encode_utf8(hooks[j].0), secret)
}

/// Lookup correctness, positive half: where no two configured names blind
/// to the same key, the table built from the configuration maps each
/// configured name's key to exactly that name's command.
pub proof fn lemma_lookup_hit(hooks: Seq<(Seq<char>, Seq<char>)>, secret: Seq<u8>, i: int)
    requires
        blinding_collision_free(hooks, secret),
        0 <= i < hooks.len(),
    ensures
        spec_resolve(spec_blind_table(hooks, secret), secret, encode_utf8(hooks[i].0))
            == Some(hooks[i].1),
{
    let entries = Seq::new(hooks.len(), |k: int| (blind(encode_utf8(hooks[k].0), secret), hooks[k].1));
    assert(unique_keys(entries));
    lemma_table_of_present(entries, i);
}

/// Lookup correctness, negative half: a presented name whose blinded key
/// matches no configured name's key is not found. The hypothesis excludes
/// exactly the hash collisions: under one, the looked-up key is a
/// configured key, and an unconfigured name would resolve.
pub proof fn lemma_lookup_miss(
    hooks: Seq<(Seq<char>, Seq<char>)>,
    secret: Seq<u8>,
    name: Seq<u8>,
)
    requires
        blinds_fresh(hooks, secret, name),
    ensures
        spec_resolve(spec_blind_table(hooks, secret), secret, name) is None,
{
    let entries = Seq::new(hooks.len(), |k: int| (blind(encode_utf8(hooks[k].0), secret), hooks[k].1));
    lemma_table_of_absent(entries, blind(name, secret));
}

} // verus!
