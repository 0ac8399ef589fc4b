use vstd::prelude::*;

verus! {

/// The key under which an exchange's API key is stored.
pub const API_KEY: &'static str = "api_key";

/// The key under which an exchange's secret key is stored.
pub const SECRET_KEY: &'static str = "secret_key";

/// The default path of the main configuration file.
pub const CONFIG_PATH: &'static str = "config.toml";

/// The default path of the credentials file.
pub const CREDENTIALS_PATH: &'static str = "credentials.toml";

/// The credential fields of one exchange entry of the main configuration, each
/// as found there, if at all.
pub struct ExchangeCredentialFields {
    pub exchange_account_id: Option<String>,
    pub api_key: Option<String>,
    pub secret_key: Option<String>,
}

/// The credentials of one exchange account, as the credentials file keeps them.
pub struct Credentials {
    pub exchange_account_id: String,
    pub api_key: String,
    pub secret_key: String,
}

#[derive(Clone, Copy, Debug, PartialEq, Eq, Structural)]
pub enum SettingsError {
    /// The exchange entry at `index` names no exchange account.
    MissingExchangeAccountId { index: usize },
    /// The exchange entry at `index` lacks its account id, API key or secret key.
    IncompleteCredentials { index: usize },
    /// The credentials file holds nothing for the account of the entry at `index`.
    MissingCredentials { index: usize },
}

pub open spec fn opt_view(o: Option<String>) -> Option<Seq<char>> {
    match o {
        Some(s) => Some(s@),
        None => None,
    }
}

pub type FieldsView = (Option<Seq<char>>, Option<Seq<char>>, Option<Seq<char>>);

pub type CredentialsView = (Seq<char>, Seq<char>, Seq<char>);

impl View for ExchangeCredentialFields {
    type V = FieldsView;

    open spec fn view(&self) -> FieldsView {
        (opt_view(self.exchange_account_id), opt_view(self.api_key), opt_view(self.secret_key))
    }
}

impl View for Credentials {
    type V = CredentialsView;

    open spec fn view(&self) -> CredentialsView {
        (self.exchange_account_id@, self.api_key@, self.secret_key@)
    }
}

/// An entry that carries all three credential fields.
pub open spec fn complete(f: FieldsView) -> bool {
    f.0 is Some && f.1 is Some && f.2 is Some
}

/// The credentials of a complete entry.
pub open spec fn credentials_of(f: FieldsView) -> CredentialsView {
    (f.0.unwrap(), f.1.unwrap(), f.2.unwrap())
}

/// The API key and secret key that the credentials hold for an account; of two
/// records of one account the later stands.
pub open spec fn credentials_for(creds: Seq<CredentialsView>, id: Seq<char>) -> Option<
    (Seq<char>, Seq<char>),
>
    decreases creds.len(),
{
    if creds.len() == 0 {
        None
    } else if creds.last().0 == id {
        Some((creds.last().1, creds.last().2))
    } else {
        credentials_for(creds.drop_last(), id)
    }
}

/// The keys that loading gives each exchange entry, where every entry has an
/// account id with credentials.
pub open spec fn merged_keys(ids: Seq<Option<Seq<char>>>, creds: Seq<CredentialsView>) -> Option<
    Seq<(Seq<char>, Seq<char>)>,
> {
    if forall|i: int|
        0 <= i < ids.len() ==> (#[trigger] ids[i]) is Some && credentials_for(
            creds,
            ids[i].unwrap(),
        ) is Some {
        Some(Seq::new(ids.len(), |i: int| credentials_for(creds, ids[i].unwrap()).unwrap()))
    } else {
        None
    }
}

pub open spec fn credential_views(creds: Seq<Credentials>) -> Seq<CredentialsView> {
    creds.map_values(|c: Credentials| c@)
}

pub open spec fn id_views(ids: Seq<Option<String>>) -> Seq<Option<Seq<char>>> {
    ids.map_values(|o: Option<String>| opt_view(o))
}

/// The entry at `j` has an account id whose credentials hold these two keys.
pub open spec fn key_matches(
    ids: Seq<Option<Seq<char>>>,
    creds: Seq<CredentialsView>,
    j: int,
    api_key: Seq<char>,
    secret_key: Seq<char>,
) -> bool {
    ids[j] is Some && credentials_for(creds, ids[j].unwrap()) == Some((api_key, secret_key))
}

fn copy_string(s: &String) -> (r: String)
    ensures
        r@ == s@,
{
    s.clone()
}

/// Takes the credentials out of the exchange entries of a configuration that is
/// being saved, in the order of the entries. Fails on the first entry that lacks
/// one of the three fields.
pub fn extract_credentials(entries: &Vec<ExchangeCredentialFields>) -> (r: Result<
    Vec<Credentials>,
    SettingsError,
>)
    ensures
        r matches Ok(creds) ==> (forall|i: int| 0 <= i < entries@.len() ==> complete(
            #[trigger] entries@[i]@,
        )) && creds@.len() == entries@.len() && forall|i: int|
            0 <= i < creds@.len() ==> (#[trigger] creds@[i])@ == credentials_of(entries@[i]@),
        r matches Err(e) ==> exists|i: int|
            0 <= i < entries@.len() && !complete(#[trigger] entries@[i]@) && e == (
            SettingsError::IncompleteCredentials { index: i as usize })
                && forall|j: int| 0 <= j < i ==> complete(#[trigger] entries@[j]@),
{
    let mut out: Vec<Credentials> = Vec::new();
    let mut i: usize = 0;
    while i < entries.len()
        invariant
            i <= entries@.len(),
            out@.len() == i,
            forall|j: int| 0 <= j < i ==> complete(#[trigger] entries@[j]@),
            forall|j: int| 0 <= j < i ==> (#[trigger] out@[j])@ == credentials_of(entries@[j]@),
        decreases entries@.len() - i,
    {
        let e = &entries[i];
        match (&e.exchange_account_id, &e.api_key, &e.secret_key) {
            (Some(id), Some(api_key), Some(secret_key)) => {
                out.push(
                    Credentials {
                        exchange_account_id: copy_string(id),
                        api_key: copy_string(api_key),
                        secret_key: copy_string(secret_key),
                    },
                );
            },
            _ => {
                assert(!complete(entries@[i as int]@));
                return Err(SettingsError::IncompleteCredentials { index: i });
            },
        }
        i = i + 1;
    }
    Ok(out)
}

fn find_credentials(creds: &Vec<Credentials>, id: &String) -> (r: Option<(String, String)>)
    ensures
        r is Some <==> credentials_for(credential_views(creds@), id@) is Some,
        r matches Some(k) ==> credentials_for(credential_views(creds@), id@)
            == Some((k.0@, k.1@)),
{
    let ghost views = credential_views(creds@);
    let mut i: usize = creds.len();
    assert(views.take(views.len() as int) =~= views);
    while i > 0
        invariant
            i <= creds@.len(),
            views == credential_views(creds@),
            credentials_for(views, id@) == credentials_for(views.take(i as int), id@),
        decreases i,
    {
        let c = &creds[i - 1];
        proof {
            assert(views.take(i as int).drop_last() =~= views.take(i - 1));
            assert(views.take(i as int).last() == c@);
        }
        if c.exchange_account_id == *id {
            return Some((copy_string(&c.api_key), copy_string(&c.secret_key)));
        }
        i = i - 1;
    }
    None
}

/// Gives each exchange entry of a configuration that is being loaded the keys
/// that the credentials file holds for its account.
pub fn merge_credentials(
    exchange_account_ids: &Vec<Option<String>>,
    credentials: &Vec<Credentials>,
) -> (r: Result<Vec<(String, String)>, SettingsError>)
    ensures
        r is Ok <==> merged_keys(
            id_views(exchange_account_ids@),
            credential_views(credentials@),
        ) is Some,
        r matches Ok(keys) ==> merged_keys(
            id_views(exchange_account_ids@),
            credential_views(credentials@),
        ) == Some(keys@.map_values(|k: (String, String)| (k.0@, k.1@))),
        r matches Err(e) ==> exists|i: int|
            0 <= i < exchange_account_ids@.len() && (e == (SettingsError::MissingExchangeAccountId {
                index: i as usize,
            }) && exchange_account_ids@[i] is None || e == (SettingsError::MissingCredentials {
                index: i as usize,
            }) && exchange_account_ids@[i] is Some && credentials_for(
                credential_views(credentials@),
                exchange_account_ids@[i].unwrap()@,
            ) is None),
{
    let ghost ids = id_views(exchange_account_ids@);
    let ghost views = credential_views(credentials@);
    let mut out: Vec<(String, String)> = Vec::new();
    let mut i: usize = 0;
    while i < exchange_account_ids.len()
        invariant
            i <= exchange_account_ids@.len(),
            ids == id_views(exchange_account_ids@),
            views == credential_views(credentials@),
            out@.len() == i,
            forall|j: int|
                0 <= j < i ==> key_matches(ids, views, j, (#[trigger] out@[j]).0@, out@[j].1@),
        decreases exchange_account_ids@.len() - i,
    {
        let id = match &exchange_account_ids[i] {
            Some(id) => id,
            None => {
                return Err(SettingsError::MissingExchangeAccountId { index: i });
            },
        };
        let keys = match find_credentials(credentials, id) {
            Some(keys) => keys,
            None => {
                assert(ids[i as int] is Some);
                return Err(SettingsError::MissingCredentials { index: i });
            },
        };
        let ghost before = out@;
        out.push(keys);
        proof {
            assert(ids[i as int] == Some(id@));
            assert forall|j: int| 0 <= j <= i implies key_matches(
                ids,
                views,
                j,
                (#[trigger] out@[j]).0@,
                out@[j].1@,
            ) by {
                if j < i {
                    assert(out@[j] == before[j]);
                }
            }
        }
        i = i + 1;
    }
    proof {
        assert forall|j: int| 0 <= j < ids.len() implies ((#[trigger] ids[j]) is Some)
            && credentials_for(views, ids[j].unwrap()) is Some by {
            assert(key_matches(ids, views, j, out@[j].0@, out@[j].1@));
        }
        assert(merged_keys(ids, views).unwrap() =~= out@.map_values(
            |k: (String, String)| (k.0@, k.1@),
        ));
    }
    Ok(out)
}

/// With distinct account ids, the credentials hold each record's own keys for its account.
proof fn lemma_credentials_for_own(creds: Seq<CredentialsView>, i: int)
    requires
        0 <= i < creds.len(),
        forall|a: int, b: int| 0 <= a < b < creds.len() ==> #[trigger] creds[a].0 != #[trigger] creds[b].0,
    ensures
        credentials_for(creds, creds[i].0) == Some((creds[i].1, creds[i].2)),
    decreases creds.len(),
{
    if i < creds.len() - 1 {
        let init = creds.drop_last();
        assert forall|a: int, b: int| 0 <= a < b < init.len() implies #[trigger] init[a].0 != #[trigger] init[b].0 by {
            assert(init[a] == creds[a] && init[b] == creds[b]);
        }
        assert(creds.last() == creds[creds.len() - 1]);
        lemma_credentials_for_own(init, i);
        assert(init[i] == creds[i]);
    }
}

/// Saving then loading a configuration gives every exchange entry back the keys
/// that it had, where every entry carries an account id and both keys, and no two
/// entries share an account id.
pub proof fn lemma_save_then_load_restores_keys(entries: Seq<FieldsView>)
    requires
        forall|i: int| 0 <= i < entries.len() ==> complete(#[trigger] entries[i]),
        forall|a: int, b: int| 0 <= a < b < entries.len() ==> #[trigger] entries[a].0 != #[trigger] entries[b].0,
    ensures
        merged_keys(
            entries.map_values(|f: FieldsView| f.0),
            entries.map_values(|f: FieldsView| credentials_of(f)),
        ) == Some(entries.map_values(|f: FieldsView| (f.1.unwrap(), f.2.unwrap()))),
{
    let ids = entries.map_values(|f: FieldsView| f.0);
    let creds = entries.map_values(|f: FieldsView| credentials_of(f));
    assert forall|a: int, b: int| 0 <= a < b < creds.len() implies #[trigger] creds[a].0 != #[trigger] creds[b].0 by {
        assert(entries[a].0 != entries[b].0);
    }
    assert forall|i: int| 0 <= i < ids.len() implies ((#[trigger] ids[i]) is Some) && credentials_for(
        creds,
        ids[i].unwrap(),
    ) == Some((entries[i].1.unwrap(), entries[i].2.unwrap())) by {
        lemma_credentials_for_own(creds, i);
    }
    assert(merged_keys(ids, creds).unwrap() =~= entries.map_values(
        |f: FieldsView| (f.1.unwrap(), f.2.unwrap()),
    ));
}

} // verus!
