//! Configuration resolution from layered sources.
//!
//! A [`Source`] is a snapshot of the key/value pairs one configuration
//! source defines. Resolution consults the primary source first and, only
//! when some required key is still unset, a secondary source; a key already
//! set is never overwritten. The result is either a fully resolved
//! configuration or an error naming exactly what went wrong.

use vstd::prelude::*;

verus! {

/// The map a sequence of key/value definitions denotes: a later definition
/// of the same key wins.
pub open spec fn map_of(entries: Seq<(String, String)>) -> Map<Seq<char>, Seq<char>>
    decreases entries.len(),
{
    if entries.len() == 0 {
        Map::empty()
    } else {
        map_of(entries.drop_last()).insert(entries.last().0@, entries.last().1@)
    }
}

/// A snapshot of one configuration source: the key/value pairs it defines.
///
/// The resolver never reads the process environment or the fallback file
/// itself; the entrypoint snapshots each source into a `Source` and hands
/// it in, so resolution is a function of its arguments alone.
pub struct Source {
    entries: Vec<(String, String)>,
}

impl View for Source {
    type V = Map<Seq<char>, Seq<char>>;

    closed spec fn view(&self) -> Map<Seq<char>, Seq<char>> {
        map_of(self.entries@)
    }
}

impl Source {
    /// A source that defines no keys.
    pub fn new() -> (s: Source)
        ensures
            s@ == Map::<Seq<char>, Seq<char>>::empty(),
    {
        Source { entries: Vec::new() }
    }

    /// Record that this source defines `key` as `value`. A later definition
    /// of the same key replaces an earlier one, as in a process environment.
    pub fn insert(&mut self, key: String, value: String)
        ensures
            final(self)@ == old(self)@.insert(key@, value@),
    {
        proof {
            assert(self.entries@.push((key, value)).drop_last() =~= self.entries@);
        }
        self.entries.push((key, value));
    }

    /// Look up the value this source defines for `key`, if any.
    pub fn get(&self, key: &String) -> (r: Option<&String>)
        ensures
            match r {
                Some(v) => self@.contains_key(key@) && v@ == self@[key@],
                None => !self@.contains_key(key@),
            },
    {
        let mut i: usize = 0;
        let mut found: Option<&String> = None;
        while i < self.entries.len()
            invariant
                i <= self.entries.len(),
                match found {
                    Some(v) => map_of(self.entries@.take(i as int)).contains_key(key@)
                        && v@ == map_of(self.entries@.take(i as int))[key@],
                    None => !map_of(self.entries@.take(i as int)).contains_key(key@),
                },
            decreases self.entries.len() - i,
        {
            proof {
                assert(self.entries@.take(i + 1).drop_last() =~= self.entries@.take(i as int));
                assert(self.entries@.take(i + 1).last() == self.entries@[i as int]);
            }
            if self.entries[i].0 == *key {
                found = Some(&self.entries[i].1);
            }
            i = i + 1;
        }
        proof {
            assert(self.entries@.take(self.entries@.len() as int) =~= self.entries@);
        }
        found
    }
}

/// The sequence of key names a sequence of owned keys denotes.
pub open spec fn keys_view(keys: Seq<String>) -> Seq<Seq<char>> {
    keys.map_values(|k: String| k@)
}

/// The name an optional value denotes.
pub open spec fn opt_view(v: Option<String>) -> Option<Seq<char>> {
    match v {
        Some(s) => Some(s@),
        None => None,
    }
}

/// Which service variant is running; each variant has its own fixed set of
/// required configuration keys.
#[derive(Clone, Copy, PartialEq, Eq, Structural)]
pub enum ServiceVariant {
    Auth,
    Catalog,
}

/// The required configuration keys of a service variant, in their fixed
/// order: server bind address, database connection string, broker
/// consumer-group id, broker bootstrap address.
pub open spec fn spec_required_keys(variant: ServiceVariant) -> Seq<Seq<char>> {
    match variant {
        ServiceVariant::Auth => seq![
            "AUTH_SERVER"@,
            "AUTH_DATABASE_URL"@,
            "KAFKA_GROUP_ID"@,
            "KAFKA_BROKER"@,
        ],
        ServiceVariant::Catalog => seq![
            "SERVER"@,
            "DATABASE_URL"@,
            "KAFKA_GROUP_ID"@,
            "KAFKA_BROKER"@,
        ],
    }
}

impl ServiceVariant {
    /// The required configuration keys of this variant, in their fixed order.
    pub fn required_keys(&self) -> (keys: Vec<String>)
        ensures
            keys_view(keys@) == spec_required_keys(*self),
    {
        let mut keys: Vec<String> = Vec::new();
        match self {
            ServiceVariant::Auth => {
                keys.push(String::from_str("AUTH_SERVER"));
                keys.push(String::from_str("AUTH_DATABASE_URL"));
            }
            ServiceVariant::Catalog => {
                keys.push(String::from_str("SERVER"));
                keys.push(String::from_str("DATABASE_URL"));
            }
        }
        keys.push(String::from_str("KAFKA_GROUP_ID"));
        keys.push(String::from_str("KAFKA_BROKER"));
        proof {
            assert(keys_view(keys@) =~= spec_required_keys(*self));
        }
        keys
    }
}

/// A service's static settings, fully resolved: every field holds the value
/// of one required key. An `Env` is constructible only through resolution,
/// so downstream code never re-checks presence.
pub struct Env {
    pub server_address: String,
    pub db_connection_string: String,
    pub kafka_group_id: String,
    pub kafka_broker: String,
}

impl Env {
    /// The working set of a variant's required keys, each initially unset.
    pub fn list_of_variables(variant: ServiceVariant) -> (ws: Vec<(String, Option<String>)>)
        ensures
            ws@.len() == spec_required_keys(variant).len(),
            forall|i: int|
                0 <= i < ws@.len() ==> (#[trigger] ws@[i]).0@ == spec_required_keys(variant)[i]
                    && ws@[i].1 is None,
    {
        let keys = variant.required_keys();
        blank_working_set(&keys)
    }

    /// Whether some key of the working set is still unset.
    pub fn not_all_variables_exist(env_variables: &Vec<(String, Option<String>)>) -> (r: bool)
        ensures
            r == exists|i: int| 0 <= i < env_variables@.len() && (#[trigger] env_variables@[i]).1 is None,
    {
        let mut i: usize = 0;
        while i < env_variables.len()
            invariant
                i <= env_variables@.len(),
                forall|j: int| 0 <= j < i ==> (#[trigger] env_variables@[j]).1 is Some,
            decreases env_variables@.len() - i,
        {
            if env_variables[i].1.is_none() {
                return true;
            }
            i = i + 1;
        }
        false
    }

    /// Fill each still-unset key of the working set with the value `source`
    /// defines for it, if any; a key already set is never overwritten.
    pub fn read_all_variables(env_variables: &mut Vec<(String, Option<String>)>, source: &Source)
        ensures
            final(env_variables)@.len() == old(env_variables)@.len(),
            forall|i: int|
                0 <= i < old(env_variables)@.len() ==> (#[trigger] final(env_variables)@[i]).0
                    == old(env_variables)@[i].0,
            forall|i: int|
                0 <= i < old(env_variables)@.len() ==> merged_entry(
                    old(env_variables)@[i].1,
                    source@,
                    old(env_variables)@[i].0@,
                    (#[trigger] final(env_variables)@[i]).1,
                ),
    {
        let mut out: Vec<(String, Option<String>)> = Vec::new();
        let mut i: usize = 0;
        while i < env_variables.len()
            invariant
                i <= env_variables@.len(),
                out@.len() == i,
                forall|j: int|
                    0 <= j < i ==> (#[trigger] out@[j]).0 == env_variables@[j].0,
                forall|j: int|
                    0 <= j < i ==> merged_entry(
                        env_variables@[j].1,
                        source@,
                        env_variables@[j].0@,
                        (#[trigger] out@[j]).1,
                    ),
            decreases env_variables@.len() - i,
        {
            let key = env_variables[i].0.clone();
            let value = match &env_variables[i].1 {
                Some(v) => Some(v.clone()),
                None => match source.get(&key) {
                    Some(v) => Some(v.clone()),
                    None => None,
                },
            };
            out.push((key, value));
            i = i + 1;
        }
        *env_variables = out;
    }
}

/// How one working-set entry changes when a source is consulted: a value
/// already present stays; an unset one takes the source's value for the key,
/// or stays unset when the source does not define it.
pub open spec fn merged_entry(
    old_val: Option<String>,
    src: Map<Seq<char>, Seq<char>>,
    key: Seq<char>,
    new_val: Option<String>,
) -> bool {
    match old_val {
        Some(v) => new_val == Some(v),
        None => match new_val {
            Some(nv) => src.contains_key(key) && nv@ == src[key],
            None => !src.contains_key(key),
        },
    }
}

/// A working set over the given keys with every value unset.
fn blank_working_set(keys: &Vec<String>) -> (ws: Vec<(String, Option<String>)>)
    ensures
        ws@.len() == keys@.len(),
        forall|i: int|
            0 <= i < ws@.len() ==> (#[trigger] ws@[i]).0 == keys@[i] && ws@[i].1 is None,
{
    let mut ws: Vec<(String, Option<String>)> = Vec::new();
    let mut i: usize = 0;
    while i < keys.len()
        invariant
            i <= keys@.len(),
            ws@.len() == i,
            forall|j: int| 0 <= j < i ==> (#[trigger] ws@[j]).0 == keys@[j] && ws@[j].1 is None,
        decreases keys@.len() - i,
    {
        ws.push((keys[i].clone(), None));
        i = i + 1;
    }
    ws
}

/// The value a key resolves to under layered lookup: the primary source's
/// value when the primary source defines the key, else the secondary
/// source's, else none.
pub open spec fn spec_merged(
    primary: Map<Seq<char>, Seq<char>>,
    secondary: Map<Seq<char>, Seq<char>>,
    key: Seq<char>,
) -> Option<Seq<char>> {
    if primary.contains_key(key) {
        Some(primary[key])
    } else if secondary.contains_key(key) {
        Some(secondary[key])
    } else {
        None
    }
}

/// Whether the primary source alone defines every required key.
pub open spec fn all_in_primary(keys: Seq<Seq<char>>, primary: Map<Seq<char>, Seq<char>>) -> bool {
    forall|i: int| 0 <= i < keys.len() ==> primary.contains_key(#[trigger] keys[i])
}

/// Whether every required key is set after both sources are consulted.
pub open spec fn all_set_after(
    keys: Seq<Seq<char>>,
    primary: Map<Seq<char>, Seq<char>>,
    secondary: Map<Seq<char>, Seq<char>>,
) -> bool {
    forall|i: int| 0 <= i < keys.len() ==> spec_merged(primary, secondary, #[trigger] keys[i]) is Some
}

/// The required keys left unset after both sources, in required-key order.
pub open spec fn spec_unset_after(
    keys: Seq<Seq<char>>,
    primary: Map<Seq<char>, Seq<char>>,
    secondary: Map<Seq<char>, Seq<char>>,
) -> Seq<Seq<char>>
    decreases keys.len(),
{
    if keys.len() == 0 {
        Seq::empty()
    } else {
        spec_unset_after(keys.drop_last(), primary, secondary) + (
        if spec_merged(primary, secondary, keys.last()) is None {
            seq![keys.last()]
        } else {
            Seq::empty()
        })
    }
}

/// The map the secondary source denotes: empty when it could not be loaded.
pub open spec fn secondary_view(secondary: Option<&Source>) -> Map<Seq<char>, Seq<char>> {
    match secondary {
        Some(s) => s@,
        None => Map::empty(),
    }
}

/// The reported unset-key list is exact: it is empty iff every required key
/// is set after both sources, every entry of it is a required key whose
/// layered lookup is unset, and every required key whose layered lookup is
/// unset appears in it — no false positives, no false negatives.
pub proof fn lemma_unset_after_exact(
    keys: Seq<Seq<char>>,
    primary: Map<Seq<char>, Seq<char>>,
    secondary: Map<Seq<char>, Seq<char>>,
)
    ensures
        (spec_unset_after(keys, primary, secondary).len() == 0) <==> all_set_after(
            keys,
            primary,
            secondary,
        ),
        forall|j: int|
            0 <= j < spec_unset_after(keys, primary, secondary).len() ==> exists|i: int|
                0 <= i < keys.len() && #[trigger] spec_unset_after(keys, primary, secondary)[j]
                    == keys[i] && spec_merged(primary, secondary, keys[i]) is None,
        forall|i: int|
            0 <= i < keys.len() && spec_merged(primary, secondary, #[trigger] keys[i]) is None
                ==> spec_unset_after(keys, primary, secondary).contains(keys[i]),
    decreases keys.len(),
{
    if keys.len() == 0 {
    } else {
        let prefix = keys.drop_last();
        lemma_unset_after_exact(prefix, primary, secondary);
        assert(forall|i: int| 0 <= i < prefix.len() ==> #[trigger] keys[i] == prefix[i]);
        let u = spec_unset_after(keys, primary, secondary);
        let up = spec_unset_after(prefix, primary, secondary);
        if spec_merged(primary, secondary, keys.last()) is None {
            assert(u == up + seq![keys.last()]);
            assert(u.len() > 0);
            assert(!all_set_after(keys, primary, secondary));
            assert forall|i: int|
                0 <= i < keys.len() && spec_merged(primary, secondary, #[trigger] keys[i]) is None
            implies u.contains(keys[i]) by {
                if i < prefix.len() {
                    let j = choose|j: int| 0 <= j < up.len() && up[j] == prefix[i];
                    assert(u[j] == prefix[i]);
                } else {
                    assert(u[u.len() - 1] == keys[i]);
                }
            }
        } else {
            assert(u =~= up);
            assert(all_set_after(keys, primary, secondary) <==> all_set_after(
                prefix,
                primary,
                secondary,
            ));
            assert forall|i: int|
                0 <= i < keys.len() && spec_merged(primary, secondary, #[trigger] keys[i]) is None
            implies u.contains(keys[i]) by {
                let j = choose|j: int| 0 <= j < up.len() && up[j] == prefix[i];
                assert(u[j] == keys[i]);
            }
        }
    }
}

/// Why configuration resolution failed.
pub enum ConfigError {
    /// The secondary source was needed — some required key was unset after
    /// the primary source — but could not be loaded.
    SourceUnavailable,
    /// The named required keys were still unset after both sources.
    MissingRequiredKeys(Vec<String>),
}

/// A fully resolved configuration: each required key paired with the value
/// its layered lookup produced. Constructible only when every required key
/// has a value.
pub struct ResolvedConfig {
    entries: Vec<(String, String)>,
}

impl View for ResolvedConfig {
    type V = Seq<(Seq<char>, Seq<char>)>;

    closed spec fn view(&self) -> Seq<(Seq<char>, Seq<char>)> {
        self.entries@.map_values(|e: (String, String)| (e.0@, e.1@))
    }
}

impl ResolvedConfig {
    /// How many keys this configuration holds.
    pub fn len(&self) -> (n: usize)
        ensures
            n == self@.len(),
    {
        self.entries.len()
    }

    /// The key at position `i` of the required-key order.
    pub fn key_at(&self, i: usize) -> (k: &String)
        requires
            i < self@.len(),
        ensures
            k@ == self@[i as int].0,
    {
        &self.entries[i].0
    }

    /// The resolved value of the key at position `i`.
    pub fn value_at(&self, i: usize) -> (v: &String)
        requires
            i < self@.len(),
        ensures
            v@ == self@[i as int].1,
    {
        &self.entries[i].1
    }
}

/// The names of the working-set keys that are still unset, in working-set
/// order.
pub open spec fn spec_missing(ws: Seq<(String, Option<String>)>) -> Seq<Seq<char>>
    decreases ws.len(),
{
    if ws.len() == 0 {
        Seq::empty()
    } else {
        spec_missing(ws.drop_last()) + (
        if ws.last().1 is None {
            seq![ws.last().0@]
        } else {
            Seq::empty()
        })
    }
}

/// The unset keys of a working set, in order.
fn missing_of(ws: &Vec<(String, Option<String>)>) -> (m: Vec<String>)
    ensures
        keys_view(m@) == spec_missing(ws@),
{
    let mut m: Vec<String> = Vec::new();
    let mut i: usize = 0;
    while i < ws.len()
        invariant
            i <= ws@.len(),
            keys_view(m@) == spec_missing(ws@.take(i as int)),
        decreases ws@.len() - i,
    {
        proof {
            assert(ws@.take(i as int + 1).drop_last() =~= ws@.take(i as int));
            assert(ws@.take(i as int + 1).last() == ws@[i as int]);
        }
        if ws[i].1.is_none() {
            let ghost old_m = m@;
            m.push(ws[i].0.clone());
            proof {
                assert(keys_view(m@) =~= keys_view(old_m) + seq![ws@[i as int].0@]);
                assert(keys_view(m@) =~= spec_missing(ws@.take(i as int + 1)));
            }
        } else {
            proof {
                assert(spec_missing(ws@.take(i as int + 1)) =~= spec_missing(ws@.take(i as int)));
            }
        }
        i = i + 1;
    }
    proof {
        assert(ws@.take(ws@.len() as int) =~= ws@);
    }
    m
}

/// When every working-set value is the layered lookup of its key, the
/// unset-key report over the working set is the unset-key report over the
/// two sources.
proof fn lemma_missing_is_unset(
    ws: Seq<(String, Option<String>)>,
    keys: Seq<Seq<char>>,
    primary: Map<Seq<char>, Seq<char>>,
    secondary: Map<Seq<char>, Seq<char>>,
)
    requires
        ws.len() == keys.len(),
        forall|i: int|
            0 <= i < ws.len() ==> (#[trigger] ws[i]).0@ == keys[i] && opt_view(ws[i].1)
                == spec_merged(primary, secondary, keys[i]),
    ensures
        spec_missing(ws) == spec_unset_after(keys, primary, secondary),
    decreases ws.len(),
{
    if ws.len() == 0 {
        assert(spec_missing(ws) =~= spec_unset_after(keys, primary, secondary));
    } else {
        assert(forall|i: int| 0 <= i < ws.len() - 1 ==> #[trigger] ws.drop_last()[i] == ws[i]);
        assert(forall|i: int|
            0 <= i < keys.len() - 1 ==> #[trigger] keys.drop_last()[i] == keys[i]);
        lemma_missing_is_unset(ws.drop_last(), keys.drop_last(), primary, secondary);
        assert(ws.last() == ws[ws.len() - 1]);
        assert(opt_view(ws.last().1) == spec_merged(primary, secondary, keys.last()));
        assert(spec_missing(ws) =~= spec_unset_after(keys, primary, secondary));
    }
}

/// A resolved configuration whose every entry pairs a working-set key with
/// its (present) value.
fn config_of(ws: &Vec<(String, Option<String>)>) -> (cfg: ResolvedConfig)
    requires
        forall|i: int| 0 <= i < ws@.len() ==> (#[trigger] ws@[i]).1 is Some,
    ensures
        cfg@.len() == ws@.len(),
        forall|i: int|
            0 <= i < ws@.len() ==> (#[trigger] cfg@[i]).0 == ws@[i].0@ && Some(cfg@[i].1)
                == opt_view(ws@[i].1),
{
    let mut entries: Vec<(String, String)> = Vec::new();
    let mut i: usize = 0;
    while i < ws.len()
        invariant
            i <= ws@.len(),
            entries@.len() == i,
            forall|k: int| 0 <= k < ws@.len() ==> (#[trigger] ws@[k]).1 is Some,
            forall|j: int|
                0 <= j < i ==> (#[trigger] entries@[j]).0 == ws@[j].0 && Some(entries@[j].1@)
                    == opt_view(ws@[j].1),
        decreases ws@.len() - i,
    {
        let key = ws[i].0.clone();
        let value = match &ws[i].1 {
            Some(v) => v.clone(),
            None => unreached(),
        };
        entries.push((key, value));
        i = i + 1;
    }
    ResolvedConfig { entries }
}

/// Resolve the given required keys from the layered sources.
///
/// The primary source is consulted first; only when it leaves some key
/// unset is the secondary source consulted, and a key the primary source
/// sets is never overwritten. `secondary` is `None` when the secondary
/// source could not be loaded: that is fatal exactly when it was needed,
/// that is, when any key at all was left unset by the primary source.
pub fn resolve_keys(keys: &Vec<String>, primary: &Source, secondary: Option<&Source>) -> (r:
    Result<ResolvedConfig, ConfigError>)
    ensures
        r is Ok <==> (all_in_primary(keys_view(keys@), primary@) || (secondary is Some
            && all_set_after(keys_view(keys@), primary@, secondary_view(secondary)))),
        match r {
            Ok(cfg) => {
                &&& cfg@.len() == keys@.len()
                &&& (forall|i: int|
                    0 <= i < keys@.len() ==> (#[trigger] cfg@[i]).0 == keys@[i]@)
                &&& (forall|i: int|
                    0 <= i < keys@.len() ==> Some((#[trigger] cfg@[i]).1) == spec_merged(
                        primary@,
                        secondary_view(secondary),
                        keys@[i]@,
                    ))
                &&& (forall|i: int|
                    0 <= i < keys@.len() && primary@.contains_key(keys@[i]@)
                        ==> (#[trigger] cfg@[i]).1 == primary@[keys@[i]@])
            },
            Err(ConfigError::SourceUnavailable) => secondary is None && !all_in_primary(
                keys_view(keys@),
                primary@,
            ),
            Err(ConfigError::MissingRequiredKeys(m)) => {
                &&& secondary is Some
                &&& !all_set_after(keys_view(keys@), primary@, secondary_view(secondary))
                &&& keys_view(m@) == spec_unset_after(
                    keys_view(keys@),
                    primary@,
                    secondary_view(secondary),
                )
                &&& m@.len() > 0
            },
        },
{
    let ghost kv = keys_view(keys@);
    proof {
        assert(forall|i: int| 0 <= i < keys@.len() ==> kv[i] == (#[trigger] keys@[i])@);
    }
    let mut ws = blank_working_set(keys);
    let ghost ws0 = ws@;
    Env::read_all_variables(&mut ws, primary);
    let ghost ws1 = ws@;
    proof {
        assert forall|i: int| 0 <= i < kv.len() implies (#[trigger] ws1[i]).0@ == kv[i]
            && opt_view(ws1[i].1) == (if primary@.contains_key(kv[i]) {
            Some(primary@[kv[i]])
        } else {
            None
        }) by {
            assert(ws0[i].0 == keys@[i] && ws0[i].1 is None);
            assert(merged_entry(ws0[i].1, primary@, ws0[i].0@, ws1[i].1));
        };
    }
    if Env::not_all_variables_exist(&ws) {
        proof {
            let i = choose|i: int| 0 <= i < ws1.len() && (#[trigger] ws1[i]).1 is None;
            assert(!primary@.contains_key(kv[i]));
            assert(!all_in_primary(kv, primary@));
        }
        let sec = match secondary {
            None => {
                return Err(ConfigError::SourceUnavailable);
            },
            Some(s) => s,
        };
        Env::read_all_variables(&mut ws, sec);
        let ghost ws2 = ws@;
        proof {
            assert forall|i: int| 0 <= i < kv.len() implies (#[trigger] ws2[i]).0@ == kv[i]
                && opt_view(ws2[i].1) == spec_merged(primary@, sec@, kv[i]) by {
                assert(merged_entry(ws1[i].1, sec@, ws1[i].0@, ws2[i].1));
            };
        }
        if Env::not_all_variables_exist(&ws) {
            let m = missing_of(&ws);
            proof {
                lemma_missing_is_unset(ws2, kv, primary@, sec@);
                lemma_unset_after_exact(kv, primary@, sec@);
                let i = choose|i: int| 0 <= i < ws2.len() && (#[trigger] ws2[i]).1 is None;
                assert(spec_merged(primary@, sec@, kv[i]) is None);
                assert(!all_set_after(kv, primary@, sec@));
            }
            return Err(ConfigError::MissingRequiredKeys(m));
        }
        let cfg = config_of(&ws);
        proof {
            assert forall|i: int| 0 <= i < kv.len() implies spec_merged(primary@, sec@, kv[i])
                is Some by {
                assert(ws2[i].1 is Some);
            };
            assert(all_set_after(kv, primary@, sec@));
        }
        Ok(cfg)
    } else {
        proof {
            assert forall|i: int| 0 <= i < kv.len() implies primary@.contains_key(
                #[trigger] kv[i],
            ) by {
                assert((ws1[i]).1 is Some);
            };
            assert(all_in_primary(kv, primary@));
        }
        let cfg = config_of(&ws);
        Ok(cfg)
    }
}

impl Env {
    /// Resolve this variant's required keys from the layered sources and
    /// package the values as the service's static settings: server bind
    /// address, database connection string, broker consumer-group id and
    /// broker bootstrap address, in that order.
    pub fn resolve(variant: ServiceVariant, primary: &Source, secondary: Option<&Source>) -> (r:
        Result<Env, ConfigError>)
        ensures
            r is Ok <==> (all_in_primary(spec_required_keys(variant), primary@) || (secondary
                is Some && all_set_after(
                spec_required_keys(variant),
                primary@,
                secondary_view(secondary),
            ))),
            match r {
                Ok(env) => {
                    &&& Some(env.server_address@) == spec_merged(
                        primary@,
                        secondary_view(secondary),
                        spec_required_keys(variant)[0],
                    )
                    &&& Some(env.db_connection_string@) == spec_merged(
                        primary@,
                        secondary_view(secondary),
                        spec_required_keys(variant)[1],
                    )
                    &&& Some(env.kafka_group_id@) == spec_merged(
                        primary@,
                        secondary_view(secondary),
                        spec_required_keys(variant)[2],
                    )
                    &&& Some(env.kafka_broker@) == spec_merged(
                        primary@,
                        secondary_view(secondary),
                        spec_required_keys(variant)[3],
                    )
                },
                Err(ConfigError::SourceUnavailable) => secondary is None && !all_in_primary(
                    spec_required_keys(variant),
                    primary@,
                ),
                Err(ConfigError::MissingRequiredKeys(m)) => {
                    &&& secondary is Some
                    &&& !all_set_after(
                        spec_required_keys(variant),
                        primary@,
                        secondary_view(secondary),
                    )
                    &&& keys_view(m@) == spec_unset_after(
                        spec_required_keys(variant),
                        primary@,
                        secondary_view(secondary),
                    )
                    &&& m@.len() > 0
                },
            },
    {
        let keys = variant.required_keys();
        let ghost kv = spec_required_keys(variant);
        proof {
            assert(kv.len() == 4);
            assert(forall|i: int| 0 <= i < keys@.len() ==> kv[i] == (#[trigger] keys@[i])@);
        }
        match resolve_keys(&keys, primary, secondary) {
            Ok(cfg) => Ok(
                Env {
                    server_address: cfg.value_at(0).clone(),
                    db_connection_string: cfg.value_at(1).clone(),
                    kafka_group_id: cfg.value_at(2).clone(),
                    kafka_broker: cfg.value_at(3).clone(),
                },
            ),
            Err(e) => Err(e),
        }
    }
}

} // verus!
