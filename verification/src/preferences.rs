//! Launch settings that worked before, remembered per device and mode.
use vstd::prelude::*;
use crate::models::LaunchConfig;
use crate::text::{chars_of, copy_string, str_is};

verus! {

/// Settings that launched successfully.
pub struct LearnedProfile {
    pub max_size: u32,
    pub max_fps: u32,
    pub codec: String,
    pub audio: bool,
}

/// A learned profile as plain values.
pub struct LearnedView {
    pub max_size: u32,
    pub max_fps: u32,
    pub codec: Seq<char>,
    pub audio: bool,
}

impl View for LearnedProfile {
    type V = LearnedView;

    open spec fn view(&self) -> LearnedView {
        LearnedView {
            max_size: self.max_size,
            max_fps: self.max_fps,
            codec: self.codec@,
            audio: self.audio,
        }
    }
}

/// One remembered profile under its key.
pub struct StoredProfile {
    pub key: String,
    pub profile: LearnedProfile,
}

/// The remembered profiles; each key occurs once.
pub struct ProfileStore {
    pub profiles: Vec<StoredProfile>,
}

pub open spec fn key_sep() -> char {
    '\u{1f}'
}

/// The store key of a device and mode: serial, unit separator, mode.
pub open spec fn profile_key_spec(serial: Seq<char>, mode: Seq<char>) -> Seq<char> {
    serial + seq![key_sep()] + mode
}

pub fn profile_key(serial: &str, mode: &str) -> (r: String)
    ensures
        r@ == profile_key_spec(serial@, mode@),
{
    let mut r = String::from_str(serial);
    r.append("\u{1f}");
    assert("\u{1f}"@ == seq![key_sep()]) by {
        reveal_strlit("\u{1f}");
    }
    r.append(mode);
    r
}

impl ProfileStore {
    pub open spec fn keys(self) -> Seq<Seq<char>> {
        self.profiles@.map_values(|p: StoredProfile| p.key@)
    }

    /// Each key occurs once.
    pub open spec fn wf(self) -> bool {
        forall|i: int, j: int|
            0 <= i < j < self.profiles@.len() ==> self.profiles@[i].key@ != self.profiles@[j].key@
    }

    /// The store as a map from keys to profiles.
    pub open spec fn as_map(self) -> Map<Seq<char>, LearnedView> {
        Map::new(
            |k: Seq<char>| exists|i: int| 0 <= i < self.profiles@.len() && self.profiles@[i].key@ == k,
            |k: Seq<char>|
                self.profiles@[choose|i: int|
                    0 <= i < self.profiles@.len() && self.profiles@[i].key@ == k].profile@,
        )
    }

    pub fn new() -> (s: Self)
        ensures
            s.wf(),
            s.profiles@.len() == 0,
            s.as_map() == Map::<Seq<char>, LearnedView>::empty(),
    {
        let s = ProfileStore { profiles: Vec::new() };
        assert(s.as_map() =~= Map::<Seq<char>, LearnedView>::empty());
        s
    }

    fn index_of_key(&self, key: &String) -> (r: Option<usize>)
        ensures
            r matches Some(i) ==> i < self.profiles@.len() && self.profiles@[i as int].key@ == key@,
            r is None ==> forall|i: int|
                0 <= i < self.profiles@.len() ==> self.profiles@[i].key@ != key@,
    {
        let kc = chars_of(key.as_str());
        let mut i: usize = 0;
        while i < self.profiles.len()
            invariant
                i <= self.profiles@.len(),
                kc@ == key@,
                forall|j: int| 0 <= j < i ==> self.profiles@[j].key@ != key@,
            decreases self.profiles@.len() - i,
        {
            let c = chars_of(self.profiles[i].key.as_str());
            if crate::text::eq_chars(&c, &kc) {
                return Some(i);
            }
            i += 1;
        }
        None
    }
}

fn copy_profile(p: &LearnedProfile) -> (r: LearnedProfile)
    ensures
        r@ == p@,
{
    LearnedProfile { max_size: p.max_size, max_fps: p.max_fps, codec: copy_string(&p.codec), audio: p.audio }
}

/// The profile remembered for a device in a mode.
pub fn load_learned_profile(store: &ProfileStore, serial: &str, mode: &str) -> (r: Option<
    LearnedProfile,
>)
    requires
        store.wf(),
    ensures
        r matches Some(p) ==> store.as_map().contains_key(profile_key_spec(serial@, mode@))
            && store.as_map()[profile_key_spec(serial@, mode@)] == p@,
        r is None ==> !store.as_map().contains_key(profile_key_spec(serial@, mode@)),
{
    let key = profile_key(serial, mode);
    match store.index_of_key(&key) {
        Some(i) => {
            proof {
                let k = key@;
                assert(store.profiles@[i as int].key@ == k);
                let c = choose|j: int| 0 <= j < store.profiles@.len() && store.profiles@[j].key@ == k;
                assert(c == i as int);
            }
            Some(copy_profile(&store.profiles[i].profile))
        },
        None => None,
    }
}

/// Remembers the settings of a configuration that launched, under its device and mode.
pub fn remember_successful_profile(store: &mut ProfileStore, config: &LaunchConfig)
    requires
        old(store).wf(),
    ensures
        final(store).wf(),
        final(store).as_map() == old(store).as_map().insert(
            profile_key_spec(config.serial@, config.mode@),
            LearnedView {
                max_size: config.max_size,
                max_fps: config.max_fps,
                codec: config.codec@,
                audio: config.audio,
            },
        ),
{
    let key = profile_key(config.serial.as_str(), config.mode.as_str());
    let profile = LearnedProfile {
        max_size: config.max_size,
        max_fps: config.max_fps,
        codec: copy_string(&config.codec),
        audio: config.audio,
    };
    let ghost k = key@;
    let ghost v = profile@;
    let ghost before = *store;
    match store.index_of_key(&key) {
        Some(i) => {
            let ghost old_profiles = store.profiles@;
            let _ = store.profiles.remove(i);
            store.profiles.insert(i, StoredProfile { key: key, profile: profile });
            assert(store.profiles@ =~= old_profiles.update(i as int, StoredProfile { key: store.profiles@[i as int].key, profile: store.profiles@[i as int].profile }));
            assert(store.profiles@[i as int].key@ == k);
            assert forall|a: int, b: int| 0 <= a < b < store.profiles@.len() implies store.profiles@[a].key@ != store.profiles@[b].key@ by {
                if a != i && b != i {
                    assert(store.profiles@[a] == old_profiles[a]);
                    assert(store.profiles@[b] == old_profiles[b]);
                } else if a == i {
                    assert(store.profiles@[b] == old_profiles[b]);
                } else {
                    assert(store.profiles@[a] == old_profiles[a]);
                }
            }
            assert(store.as_map() =~= before.as_map().insert(k, v)) by {
                assert forall|q: Seq<char>| #[trigger] store.as_map().contains_key(q) == before.as_map().insert(k, v).contains_key(q) by {
                    if q == k {
                        assert(store.profiles@[i as int].key@ == k);
                    } else {
                        if store.as_map().contains_key(q) {
                            let j = choose|j: int| 0 <= j < store.profiles@.len() && store.profiles@[j].key@ == q;
                            assert(j != i);
                            assert(old_profiles[j].key@ == q);
                        }
                        if before.as_map().contains_key(q) {
                            let j = choose|j: int| 0 <= j < old_profiles.len() && old_profiles[j].key@ == q;
                            assert(j != i);
                            assert(store.profiles@[j].key@ == q);
                        }
                    }
                }
                assert forall|q: Seq<char>| #[trigger] store.as_map().contains_key(q) implies store.as_map()[q] == before.as_map().insert(k, v)[q] by {
                    let j = choose|j: int| 0 <= j < store.profiles@.len() && store.profiles@[j].key@ == q;
                    if q == k {
                        assert(j == i);
                    } else {
                        assert(j != i);
                        assert(old_profiles[j].key@ == q);
                        let j2 = choose|j2: int| 0 <= j2 < old_profiles.len() && old_profiles[j2].key@ == q;
                        assert(j2 == j);
                    }
                }
            }
        },
        None => {
            let ghost old_profiles = store.profiles@;
            store.profiles.push(StoredProfile { key: key, profile: profile });
            let ghost n = old_profiles.len();
            assert forall|a: int, b: int| 0 <= a < b < store.profiles@.len() implies store.profiles@[a].key@ != store.profiles@[b].key@ by {
                assert(store.profiles@[a] == old_profiles[a]);
                if b < n {
                    assert(store.profiles@[b] == old_profiles[b]);
                }
            }
            assert(store.as_map() =~= before.as_map().insert(k, v)) by {
                assert forall|q: Seq<char>| #[trigger] store.as_map().contains_key(q) == before.as_map().insert(k, v).contains_key(q) by {
                    if q == k {
                        assert(store.profiles@[n as int].key@ == k);
                    } else {
                        if store.as_map().contains_key(q) {
                            let j = choose|j: int| 0 <= j < store.profiles@.len() && store.profiles@[j].key@ == q;
                            assert(j != n);
                            assert(old_profiles[j].key@ == q);
                        }
                        if before.as_map().contains_key(q) {
                            let j = choose|j: int| 0 <= j < old_profiles.len() && old_profiles[j].key@ == q;
                            assert(store.profiles@[j].key@ == q);
                        }
                    }
                }
                assert forall|q: Seq<char>| #[trigger] store.as_map().contains_key(q) implies store.as_map()[q] == before.as_map().insert(k, v)[q] by {
                    let j = choose|j: int| 0 <= j < store.profiles@.len() && store.profiles@[j].key@ == q;
                    if q == k {
                        assert(j == n);
                    } else {
                        assert(j != n);
                        assert(old_profiles[j].key@ == q);
                        let j2 = choose|j2: int| 0 <= j2 < old_profiles.len() && old_profiles[j2].key@ == q;
                        assert(j2 == j);
                    }
                }
            }
        },
    }
}

/// Different phones or modes get different keys, as long as serials hold no unit separator.
pub proof fn lemma_profile_key_injective(s1: Seq<char>, m1: Seq<char>, s2: Seq<char>, m2: Seq<char>)
    requires
        !s1.contains(key_sep()),
        !s2.contains(key_sep()),
        profile_key_spec(s1, m1) == profile_key_spec(s2, m2),
    ensures
        s1 == s2,
        m1 == m2,
{
    let k = profile_key_spec(s1, m1);
    if s1.len() < s2.len() {
        assert(k[s1.len() as int] == key_sep());
        assert(k[s1.len() as int] == s2[s1.len() as int]);
        assert(s2.contains(key_sep()));
    } else if s2.len() < s1.len() {
        assert(k[s2.len() as int] == key_sep());
        assert(k[s2.len() as int] == s1[s2.len() as int]);
        assert(s1.contains(key_sep()));
    } else {
        assert(s1 =~= k.take(s1.len() as int));
        assert(s2 =~= k.take(s2.len() as int));
        assert(m1 =~= k.skip(s1.len() + 1int));
        assert(m2 =~= k.skip(s2.len() + 1int));
    }
}

/// After a profile is remembered for a phone and mode, loading it for that phone and mode
/// gives it back, and what is stored for any other key is unchanged.
pub proof fn lemma_remembered_profile_loads(
    m: Map<Seq<char>, LearnedView>,
    serial: Seq<char>,
    mode: Seq<char>,
    v: LearnedView,
    other: Seq<char>,
)
    requires
        other != profile_key_spec(serial, mode),
    ensures
        m.insert(profile_key_spec(serial, mode), v).contains_key(profile_key_spec(serial, mode)),
        m.insert(profile_key_spec(serial, mode), v)[profile_key_spec(serial, mode)] == v,
        m.insert(profile_key_spec(serial, mode), v).contains_key(other) == m.contains_key(other),
        m.contains_key(other) ==> m.insert(profile_key_spec(serial, mode), v)[other] == m[other],
{
}

} // verus!
