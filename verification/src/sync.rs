//! Bringing the database in line with the `.env` file: which records are
//! stored, which counted as added or updated, and which are deleted.
use vstd::prelude::*;
use crate::config::opt_view;
use crate::envparse::{lookup_var, var_value, vars_view};
use crate::text::{str_eq, to_string, views};

verus! {

/// A record written during a sync, and whether it existed before.
#[derive(Debug)]
pub struct StoredKey {
    pub key: String,
    pub existed: bool,
}

/// What a sync of one kind of record does.
#[derive(Debug)]
pub struct KeySyncPlan {
    /// Every record of the `.env` file is written, in order.
    pub store: Vec<StoredKey>,
    /// The database records missing from the `.env` file, in order.
    pub delete: Vec<String>,
    pub added: usize,
    pub updated: usize,
}

/// The records written: every `.env` key, marked with whether the database
/// had it.
pub open spec fn stored_keys(env: Seq<Seq<char>>, db: Seq<Seq<char>>) -> Seq<(Seq<char>, bool)> {
    env.map_values(|k: Seq<char>| (k, db.contains(k)))
}

/// The records deleted: the database keys the `.env` file lacks.
pub open spec fn deleted_keys(env: Seq<Seq<char>>, db: Seq<Seq<char>>) -> Seq<Seq<char>> {
    db.filter(|k: Seq<char>| !env.contains(k))
}

/// Number of `.env` keys the database lacked.
pub open spec fn added_count(env: Seq<Seq<char>>, db: Seq<Seq<char>>) -> nat {
    env.filter(|k: Seq<char>| !db.contains(k)).len()
}

/// Plain values of stored records.
pub open spec fn stored_view(v: Seq<StoredKey>) -> Seq<(Seq<char>, bool)> {
    v.map_values(|s: StoredKey| (s.key@, s.existed))
}

fn contains_string(v: &Vec<String>, k: &str) -> (r: bool)
    ensures
        r == views(v@).contains(k@),
{
    let mut i: usize = 0;
    while i < v.len()
        invariant
            i <= v@.len(),
            forall|j: int| 0 <= j < i ==> views(v@)[j] != k@,
        decreases v@.len() - i,
    {
        if str_eq(v[i].as_str(), k) {
            assert(views(v@)[i as int] == k@);
            return true;
        }
        i = i + 1;
    }
    false
}

/// Plans a sync of records named by `env_keys` (from the `.env` file) over
/// those named by `db_keys` (in the database): every `.env` record is
/// written, counted as updated when the database had it and as added
/// otherwise, and every database record the `.env` file lacks is deleted.
pub fn key_sync_plan(env_keys: &Vec<String>, db_keys: &Vec<String>) -> (r: KeySyncPlan)
    ensures
        stored_view(r.store@) == stored_keys(views(env_keys@), views(db_keys@)),
        views(r.delete@) == deleted_keys(views(env_keys@), views(db_keys@)),
        r.added == added_count(views(env_keys@), views(db_keys@)),
        r.added + r.updated == env_keys@.len(),
{
    let ghost ev = views(env_keys@);
    let ghost dv = views(db_keys@);
    let mut store: Vec<StoredKey> = Vec::new();
    let mut added: usize = 0;
    let mut updated: usize = 0;
    let mut i: usize = 0;
    while i < env_keys.len()
        invariant
            i <= env_keys@.len(),
            ev == views(env_keys@),
            dv == views(db_keys@),
            stored_view(store@) == stored_keys(ev.take(i as int), dv),
            added == added_count(ev.take(i as int), dv),
            added + updated == i,
        decreases env_keys@.len() - i,
    {
        let existed = contains_string(db_keys, env_keys[i].as_str());
        let ghost before = store@;
        let s = StoredKey { key: to_string(env_keys[i].as_str()), existed };
        store.push(s);
        proof {
            let t = ev.take(i + 1);
            assert(t =~= ev.take(i as int).push(ev[i as int]));
            assert(stored_view(store@) =~= stored_view(before).push((ev[i as int], existed)));
            assert(stored_keys(t, dv) =~= stored_keys(ev.take(i as int), dv).push((ev[i as int], existed)));
            let p = |k: Seq<char>| !dv.contains(k);
            assert(t.drop_last() =~= ev.take(i as int));
            reveal(Seq::filter);
            assert(t.filter(p) == if p(t.last()) {
                t.drop_last().filter(p).push(t.last())
            } else {
                t.drop_last().filter(p)
            });
        }
        if existed {
            updated = updated + 1;
        } else {
            added = added + 1;
        }
        i = i + 1;
    }
    assert(ev.take(env_keys@.len() as int) =~= ev);
    let mut delete: Vec<String> = Vec::new();
    let mut j: usize = 0;
    while j < db_keys.len()
        invariant
            j <= db_keys@.len(),
            ev == views(env_keys@),
            dv == views(db_keys@),
            views(delete@) == deleted_keys(ev, dv.take(j as int)),
        decreases db_keys@.len() - j,
    {
        let present = contains_string(env_keys, db_keys[j].as_str());
        proof {
            let t = dv.take(j + 1);
            assert(t.drop_last() =~= dv.take(j as int));
            assert(t.last() == dv[j as int]);
            reveal(Seq::filter);
        }
        if !present {
            let ghost before = delete@;
            delete.push(to_string(db_keys[j].as_str()));
            assert(views(delete@) =~= views(before).push(dv[j as int]));
        }
        j = j + 1;
    }
    assert(dv.take(db_keys@.len() as int) =~= dv);
    KeySyncPlan { store, delete, added, updated }
}

/// After a sync, the database holds exactly the `.env` records: what it had,
/// plus what was written, minus what was deleted, is what the `.env` file
/// names.
pub proof fn sync_leaves_env_keys(env: Seq<Seq<char>>, db: Seq<Seq<char>>, k: Seq<char>)
    ensures
        ((db.contains(k) || stored_keys(env, db).map_values(|s: (Seq<char>, bool)| s.0).contains(k))
            && !deleted_keys(env, db).contains(k)) <==> env.contains(k),
{
    let written = stored_keys(env, db).map_values(|s: (Seq<char>, bool)| s.0);
    assert(written =~= env);
    let p = |x: Seq<char>| !env.contains(x);
    if db.contains(k) && !env.contains(k) {
        let i = choose|i: int| 0 <= i < db.len() && db[i] == k;
        db.lemma_filter_contains(p, i);
    }
    if deleted_keys(env, db).contains(k) {
        let i = choose|i: int| 0 <= i < deleted_keys(env, db).len() && deleted_keys(env, db)[i] == k;
        db.lemma_filter_pred(p, i);
    }
}

/// A variable's value, or empty text when it is unset.
pub open spec fn value_or_empty(vars: Seq<(Seq<char>, Seq<char>)>, name: Seq<char>) -> Seq<char> {
    match var_value(vars, name) {
        Some(v) => v,
        None => Seq::empty(),
    }
}

/// The value of each managed setting taken from the environment: the
/// tailnet base from the `.env` configuration, `TAILNET_TLD` falling back to
/// `TLD`, every other setting from its own variable; unset is empty.
pub open spec fn setting_values(tailnet_base: Seq<char>, vars: Seq<(Seq<char>, Seq<char>)>) -> Seq<(Seq<char>, Seq<char>)> {
    seq![
        ("TAILNET_BASE"@, tailnet_base),
        ("TAILNET_TLD"@, match var_value(vars, "TAILNET_TLD"@) {
            Some(v) => v,
            None => value_or_empty(vars, "TLD"@),
        }),
        ("ACME_EMAIL"@, value_or_empty(vars, "ACME_EMAIL"@)),
        ("PIA_USERNAME"@, value_or_empty(vars, "PIA_USERNAME"@)),
        ("PIA_PASSWORD"@, value_or_empty(vars, "PIA_PASSWORD"@)),
        ("DOWNLOADS_PATH"@, value_or_empty(vars, "DOWNLOADS_PATH"@)),
        ("MOVIES_PATH"@, value_or_empty(vars, "MOVIES_PATH"@)),
        ("TV_PATH"@, value_or_empty(vars, "TV_PATH"@)),
        ("MOVIES_4K_PATH"@, value_or_empty(vars, "MOVIES_4K_PATH"@)),
        ("MUSIC_PATH"@, value_or_empty(vars, "MUSIC_PATH"@)),
        ("NGINX_PROXY_MANAGER_URL"@, value_or_empty(vars, "NGINX_PROXY_MANAGER_URL"@)),
        ("NGINX_PROXY_MANAGER_USERNAME"@, value_or_empty(vars, "NGINX_PROXY_MANAGER_USERNAME"@)),
        ("NGINX_PROXY_MANAGER_PASSWORD"@, value_or_empty(vars, "NGINX_PROXY_MANAGER_PASSWORD"@)),
    ]
}

/// The managed settings are, in order, `TAILNET_BASE`, `TAILNET_TLD`,
/// `ACME_EMAIL`, the PIA user name and password, the five media paths and
/// the three Nginx Proxy Manager settings.  The tailnet base comes from the
/// `.env` configuration, `TAILNET_TLD` from its own variable or else from
/// `TLD`, and every other setting from the variable of the same name, empty
/// when that variable is unset.
pub proof fn managed_settings_come_from_their_variables(tailnet_base: Seq<char>, vars: Seq<(Seq<char>, Seq<char>)>)
    ensures
        setting_values(tailnet_base, vars).map_values(|p: (Seq<char>, Seq<char>)| p.0) == seq![
            "TAILNET_BASE"@, "TAILNET_TLD"@, "ACME_EMAIL"@, "PIA_USERNAME"@, "PIA_PASSWORD"@,
            "DOWNLOADS_PATH"@, "MOVIES_PATH"@, "TV_PATH"@, "MOVIES_4K_PATH"@, "MUSIC_PATH"@,
            "NGINX_PROXY_MANAGER_URL"@, "NGINX_PROXY_MANAGER_USERNAME"@, "NGINX_PROXY_MANAGER_PASSWORD"@
        ],
        setting_values(tailnet_base, vars)[0].1 == tailnet_base,
        setting_values(tailnet_base, vars)[1].1 == match var_value(vars, "TAILNET_TLD"@) {
            Some(v) => v,
            None => match var_value(vars, "TLD"@) {
                Some(v) => v,
                None => Seq::empty(),
            },
        },
        forall|i: int| 2 <= i < setting_values(tailnet_base, vars).len() ==> {
            let p = #[trigger] setting_values(tailnet_base, vars)[i];
            p.1 == match var_value(vars, p.0) {
                Some(v) => v,
                None => Seq::<char>::empty(),
            }
        },
{
    let sv = setting_values(tailnet_base, vars);
    assert(sv.map_values(|p: (Seq<char>, Seq<char>)| p.0) =~= seq![
        "TAILNET_BASE"@, "TAILNET_TLD"@, "ACME_EMAIL"@, "PIA_USERNAME"@, "PIA_PASSWORD"@,
        "DOWNLOADS_PATH"@, "MOVIES_PATH"@, "TV_PATH"@, "MOVIES_4K_PATH"@, "MUSIC_PATH"@,
        "NGINX_PROXY_MANAGER_URL"@, "NGINX_PROXY_MANAGER_USERNAME"@, "NGINX_PROXY_MANAGER_PASSWORD"@
    ]);
}

/// Plain values of key/value pairs.
pub open spec fn pairs_view(v: Seq<(String, String)>) -> Seq<(Seq<char>, Seq<char>)> {
    v.map_values(|p: (String, String)| (p.0@, p.1@))
}

fn value_of(vars: &Vec<(String, String)>, name: &str) -> (r: String)
    ensures
        r@ == value_or_empty(vars_view(vars@), name@),
{
    match lookup_var(vars, name) {
        Some(v) => v,
        None => String::new(),
    }
}

fn push_pair(out: &mut Vec<(String, String)>, k: &str, v: String)
    ensures
        pairs_view(final(out)@) == pairs_view(old(out)@).push((k@, v@)),
{
    let ghost before = out@;
    out.push((to_string(k), v));
    assert(pairs_view(out@) =~= pairs_view(before).push((k@, v@)));
}

/// The value of each managed setting, read from the environment's variables.
pub fn managed_setting_values(tailnet_base: &str, vars: &Vec<(String, String)>) -> (r: Vec<(String, String)>)
    ensures
        pairs_view(r@) == setting_values(tailnet_base@, vars_view(vars@)),
{
    let mut out: Vec<(String, String)> = Vec::new();
    push_pair(&mut out, "TAILNET_BASE", to_string(tailnet_base));
    let tld = match lookup_var(vars, "TAILNET_TLD") {
        Some(v) => v,
        None => value_of(vars, "TLD"),
    };
    push_pair(&mut out, "TAILNET_TLD", tld);
    push_pair(&mut out, "ACME_EMAIL", value_of(vars, "ACME_EMAIL"));
    push_pair(&mut out, "PIA_USERNAME", value_of(vars, "PIA_USERNAME"));
    push_pair(&mut out, "PIA_PASSWORD", value_of(vars, "PIA_PASSWORD"));
    push_pair(&mut out, "DOWNLOADS_PATH", value_of(vars, "DOWNLOADS_PATH"));
    push_pair(&mut out, "MOVIES_PATH", value_of(vars, "MOVIES_PATH"));
    push_pair(&mut out, "TV_PATH", value_of(vars, "TV_PATH"));
    push_pair(&mut out, "MOVIES_4K_PATH", value_of(vars, "MOVIES_4K_PATH"));
    push_pair(&mut out, "MUSIC_PATH", value_of(vars, "MUSIC_PATH"));
    push_pair(&mut out, "NGINX_PROXY_MANAGER_URL", value_of(vars, "NGINX_PROXY_MANAGER_URL"));
    push_pair(&mut out, "NGINX_PROXY_MANAGER_USERNAME", value_of(vars, "NGINX_PROXY_MANAGER_USERNAME"));
    push_pair(&mut out, "NGINX_PROXY_MANAGER_PASSWORD", value_of(vars, "NGINX_PROXY_MANAGER_PASSWORD"));
    assert(pairs_view(out@) =~= setting_values(tailnet_base@, vars_view(vars@)));
    out
}

/// What a sync of settings does.
#[derive(Debug)]
pub struct SettingsSyncPlan {
    /// Settings written: those with a value, in order.
    pub set: Vec<(String, String)>,
    pub added: usize,
    pub updated: usize,
    /// Stored settings deleted: managed ones without a value.
    pub delete: Vec<String>,
}

/// The settings written: those with a non-empty value.
pub open spec fn settings_written(values: Seq<(Seq<char>, Seq<char>)>) -> Seq<(Seq<char>, Seq<char>)> {
    values.filter(|p: (Seq<char>, Seq<char>)| p.1.len() > 0)
}

/// Whether `k` is one of the given settings without a value.
pub open spec fn managed_without_value(values: Seq<(Seq<char>, Seq<char>)>, k: Seq<char>) -> bool {
    exists|i: int| 0 <= i < values.len() && values[i].0 == k && values[i].1.len() == 0
        && !(exists|j: int| 0 <= j < values.len() && values[j].0 == k && values[j].1.len() > 0)
}

/// The stored settings deleted: the stored keys that are managed but have no
/// value; rows without a key are left alone.
pub open spec fn settings_deleted(values: Seq<(Seq<char>, Seq<char>)>, stored: Seq<Option<Seq<char>>>) -> Seq<Seq<char>>
    decreases stored.len(),
{
    if stored.len() == 0 {
        seq![]
    } else {
        let rest = settings_deleted(values, stored.drop_last());
        match stored.last() {
            Some(k) => if managed_without_value(values, k) { rest.push(k) } else { rest },
            None => rest,
        }
    }
}

fn value_status(values: &Vec<(String, String)>, k: &str) -> (r: bool)
    ensures
        r == managed_without_value(pairs_view(values@), k@),
{
    let ghost vv = pairs_view(values@);
    let mut managed = false;
    let mut present = false;
    let mut i: usize = 0;
    while i < values.len()
        invariant
            i <= values@.len(),
            vv == pairs_view(values@),
            managed == exists|a: int| 0 <= a < i && vv[a].0 == k@ && vv[a].1.len() == 0,
            present == exists|a: int| 0 <= a < i && vv[a].0 == k@ && vv[a].1.len() > 0,
        decreases values@.len() - i,
    {
        if str_eq(values[i].0.as_str(), k) {
            assert(vv[i as int].0 == k@);
            if values[i].1.unicode_len() == 0 {
                managed = true;
            } else {
                present = true;
            }
        }
        proof {
            if managed {
                assert(exists|a: int| 0 <= a < i + 1 && vv[a].0 == k@ && vv[a].1.len() == 0);
            }
            if present {
                assert(exists|a: int| 0 <= a < i + 1 && vv[a].0 == k@ && vv[a].1.len() > 0);
            }
        }
        i = i + 1;
    }
    managed && !present
}

/// Plans a sync of settings: each setting with a value is written, counted
/// as updated when it was stored (`was_stored`, one entry per setting) and
/// as added otherwise; each stored row (`stored_keys`) whose key is a
/// managed setting without a value is deleted.
pub fn settings_sync_plan(values: &Vec<(String, String)>, was_stored: &Vec<bool>, stored_keys: &Vec<Option<String>>) -> (r: SettingsSyncPlan)
    requires
        was_stored@.len() == values@.len(),
    ensures
        pairs_view(r.set@) == settings_written(pairs_view(values@)),
        r.added + r.updated == r.set@.len(),
        views(r.delete@) == settings_deleted(
            pairs_view(values@),
            stored_keys@.map_values(|k: Option<String>| opt_view(k)),
        ),
{
    let ghost vv = pairs_view(values@);
    let mut set: Vec<(String, String)> = Vec::new();
    let mut added: usize = 0;
    let mut updated: usize = 0;
    let mut i: usize = 0;
    while i < values.len()
        invariant
            i <= values@.len(),
            was_stored@.len() == values@.len(),
            vv == pairs_view(values@),
            pairs_view(set@) == settings_written(vv.take(i as int)),
            added + updated == set@.len(),
            set@.len() <= i,
        decreases values@.len() - i,
    {
        proof {
            let t = vv.take(i + 1);
            assert(t.drop_last() =~= vv.take(i as int));
            assert(t.last() == vv[i as int]);
            reveal(Seq::filter);
        }
        if values[i].1.unicode_len() > 0 {
            let ghost before = set@;
            set.push((to_string(values[i].0.as_str()), to_string(values[i].1.as_str())));
            assert(pairs_view(set@) =~= pairs_view(before).push(vv[i as int]));
            if was_stored[i] {
                updated = updated + 1;
            } else {
                added = added + 1;
            }
        }
        i = i + 1;
    }
    assert(vv.take(values@.len() as int) =~= vv);
    let ghost sk = stored_keys@.map_values(|k: Option<String>| opt_view(k));
    let mut delete: Vec<String> = Vec::new();
    let mut j: usize = 0;
    while j < stored_keys.len()
        invariant
            j <= stored_keys@.len(),
            vv == pairs_view(values@),
            sk == stored_keys@.map_values(|k: Option<String>| opt_view(k)),
            views(delete@) == settings_deleted(vv, sk.take(j as int)),
        decreases stored_keys@.len() - j,
    {
        proof {
            let t = sk.take(j + 1);
            assert(t.drop_last() =~= sk.take(j as int));
            assert(t.last() == sk[j as int]);
        }
        match &stored_keys[j] {
            Some(k) => {
                if value_status(values, k.as_str()) {
                    let ghost before = delete@;
                    delete.push(to_string(k.as_str()));
                    assert(views(delete@) =~= views(before).push(k@));
                }
            },
            None => {},
        }
        j = j + 1;
    }
    assert(sk.take(stored_keys@.len() as int) =~= sk);
    SettingsSyncPlan { set, added, updated, delete }
}

} // verus!
