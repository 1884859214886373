//! Versioned key material.
//!
//! A store holds one key per version. The current version is the only
//! active one; a rotation adds the next version and leaves the earlier keys
//! readable until they are retired.

use crate::random::random_bytes;
use crate::time::Timestamp;
use std::collections::HashMap;
use vstd::prelude::*;
use vstd::slice::slice_to_vec;

verus! {

broadcast use vstd::std_specs::hash::group_hash_axioms;

#[derive(Debug, Clone, Copy, PartialEq, Eq, Structural)]
pub enum KeyStatus {
    Active,
    Rotating,
    Retired,
}

/// The key of one version.
#[derive(Debug)]
pub struct KeyVersion {
    pub version: u32,
    pub created_at: Timestamp,
    pub key_material: Vec<u8>,
    pub status: KeyStatus,
}

pub struct KeyVersionView {
    pub version: u32,
    pub created_at: Timestamp,
    pub key_material: Seq<u8>,
    pub status: KeyStatus,
}

impl View for KeyVersion {
    type V = KeyVersionView;

    open spec fn view(&self) -> KeyVersionView {
        KeyVersionView {
            version: self.version,
            created_at: self.created_at,
            key_material: self.key_material@,
            status: self.status,
        }
    }
}

impl Clone for KeyVersion {
    fn clone(&self) -> (copy: Self)
        ensures
            copy@ == self@,
    {
        KeyVersion {
            version: self.version,
            created_at: self.created_at,
            key_material: self.key_material.clone(),
            status: self.status,
        }
    }
}

/// The record of one rotation.
#[derive(Debug)]
pub struct KeyRotationEvent {
    pub timestamp: Timestamp,
    pub old_version: u32,
    pub new_version: u32,
    pub credentials_migrated: usize,
    pub status: String,
}

pub struct KeyRotationEventView {
    pub timestamp: Timestamp,
    pub old_version: u32,
    pub new_version: u32,
    pub credentials_migrated: usize,
    pub status: Seq<char>,
}

impl View for KeyRotationEvent {
    type V = KeyRotationEventView;

    open spec fn view(&self) -> KeyRotationEventView {
        KeyRotationEventView {
            timestamp: self.timestamp,
            old_version: self.old_version,
            new_version: self.new_version,
            credentials_migrated: self.credentials_migrated,
            status: self.status@,
        }
    }
}

impl Clone for KeyRotationEvent {
    fn clone(&self) -> (copy: Self)
        ensures
            copy == *self,
    {
        KeyRotationEvent {
            timestamp: self.timestamp,
            old_version: self.old_version,
            new_version: self.new_version,
            credentials_migrated: self.credentials_migrated,
            status: self.status.clone(),
        }
    }
}

pub struct KeyStore {
    current_version: u32,
    keys: HashMap<u32, KeyVersion>,
    rotation_history: Vec<KeyRotationEvent>,
}

pub struct KeyStoreView {
    pub current_version: u32,
    pub keys: Map<u32, KeyVersionView>,
    /// The recorded rotations, oldest first.
    pub history: Seq<KeyRotationEventView>,
}

/// The views of the keys of a map.
pub open spec fn key_views(keys: Map<u32, KeyVersion>) -> Map<u32, KeyVersionView> {
    keys.map_values(|k: KeyVersion| k@)
}

/// The views of a sequence of rotation events.
pub open spec fn rotation_views(events: Seq<KeyRotationEvent>) -> Seq<KeyRotationEventView> {
    events.map_values(|e: KeyRotationEvent| e@)
}

/// The length of a key in bytes.
pub const KEY_LEN: usize = 32;

impl KeyStoreView {
    /// The versions form a range that ends at the current one; each key is
    /// filed under its own version and is 32 bytes long; the current
    /// version is the only active one, all earlier ones are rotating.
    pub open spec fn well_formed(self) -> bool {
        &&& self.current_version >= 1
        &&& forall|v: u32| #[trigger]
            self.keys.contains_key(v) ==> {
                &&& 1 <= v <= self.current_version
                &&& self.keys[v].version == v
                &&& self.keys[v].key_material.len() == 32
                &&& self.keys[v].status == if v == self.current_version {
                    KeyStatus::Active
                } else {
                    KeyStatus::Rotating
                }
            }
        &&& forall|v: u32, w: u32|
            #![trigger self.keys.contains_key(v), self.keys.contains_key(w)]
            self.keys.contains_key(v) && v <= w <= self.current_version ==> self.keys.contains_key(w)
    }

    /// The key of `version`: its material, or why there is none.
    pub open spec fn key_of(self, version: u32, missing: Seq<char>) -> Result<Seq<u8>, Seq<char>> {
        if !self.keys.contains_key(version) {
            Err(missing)
        } else if self.keys[version].key_material.len() != 32 {
            Err("Invalid key material length"@)
        } else {
            Ok(self.keys[version].key_material)
        }
    }

    /// The store after a rotation at `now` that draws `material` for the
    /// new key: the current key turns to rotating, and the next version
    /// becomes the current, active one.
    pub open spec fn rotated(self, material: Seq<u8>, now: Timestamp) -> KeyStoreView {
        let next = (self.current_version + 1) as u32;
        let demoted = if self.keys.contains_key(self.current_version) {
            self.keys.insert(
                self.current_version,
                KeyVersionView { status: KeyStatus::Rotating, ..self.keys[self.current_version] },
            )
        } else {
            self.keys
        };
        KeyStoreView {
            current_version: next,
            keys: demoted.insert(
                next,
                KeyVersionView {
                    version: next,
                    created_at: now,
                    key_material: material,
                    status: KeyStatus::Active,
                },
            ),
            history: self.history,
        }
    }

    /// The versions that stay when all but the latest `keep_versions` are
    /// retired.
    pub open spec fn recent(self, keep_versions: u32) -> Set<u32> {
        Set::new(|v: u32| v + keep_versions > self.current_version)
    }

    /// The store after all but the latest `keep_versions` versions are
    /// retired.
    pub open spec fn retired(self, keep_versions: u32) -> KeyStoreView {
        KeyStoreView {
            current_version: self.current_version,
            keys: self.keys.restrict(self.recent(keep_versions)),
            history: self.history,
        }
    }
}

impl View for KeyStore {
    type V = KeyStoreView;

    closed spec fn view(&self) -> KeyStoreView {
        KeyStoreView {
            current_version: self.current_version,
            keys: key_views(self.keys@),
            history: rotation_views(self.rotation_history@),
        }
    }
}

/// A rotation moves to the next version, keeps every earlier key with its
/// material, and leaves the store well formed.
pub proof fn lemma_rotation_keeps_keys(store: KeyStoreView, material: Seq<u8>, now: Timestamp)
    requires
        store.well_formed(),
        store.current_version < u32::MAX,
        material.len() == 32,
    ensures
        store.rotated(material, now).current_version == store.current_version + 1,
        store.rotated(material, now).well_formed(),
        store.rotated(material, now).keys.contains_key(store.rotated(material, now).current_version),
        forall|v: u32| #[trigger]
            store.keys.contains_key(v) ==> store.rotated(material, now).keys.contains_key(v)
                && store.rotated(material, now).keys[v].key_material == store.keys[v].key_material,
        forall|v: u32| #[trigger]
            store.keys.contains_key(v) ==> store.rotated(material, now).key_of(v, Seq::empty())
                == store.key_of(v, Seq::empty()),
{
    let after = store.rotated(material, now);
    assert forall|v: u32, w: u32|
        #![trigger after.keys.contains_key(v), after.keys.contains_key(w)]
        after.keys.contains_key(v) && v <= w <= after.current_version implies after.keys.contains_key(
        w,
    ) by {
        if w != after.current_version && v != after.current_version {
            assert(store.keys.contains_key(v));
            assert(store.keys.contains_key(w));
        }
    }
}

/// Retiring keeps exactly the latest `keep_versions` versions, each with
/// its key as it was, and leaves the store well formed.
pub proof fn lemma_retire_keeps_recent(store: KeyStoreView, keep_versions: u32)
    requires
        store.well_formed(),
    ensures
        store.retired(keep_versions).well_formed(),
        forall|v: u32|
            #[trigger] store.retired(keep_versions).keys.contains_key(v) <==> store.keys.contains_key(v)
                && v + keep_versions > store.current_version,
        forall|v: u32| #[trigger]
            store.retired(keep_versions).keys.contains_key(v) ==> store.retired(keep_versions).keys[v]
                == store.keys[v],
        store.retired(keep_versions).keys.dom().finite() ==> store.retired(keep_versions).keys.dom().len()
            <= keep_versions,
{
    let after = store.retired(keep_versions);
    assert forall|v: u32, w: u32|
        #![trigger after.keys.contains_key(v), after.keys.contains_key(w)]
        after.keys.contains_key(v) && v <= w <= after.current_version implies after.keys.contains_key(
        w,
    ) by {
        assert(store.keys.contains_key(v));
        assert(store.keys.contains_key(w));
    }
    if after.keys.dom().finite() {
        lemma_versions_in_range(after.keys.dom(), store.current_version, keep_versions);
    }
}

/// A finite set of versions that all lie in the `span` versions up to `top`
/// has no more than `span` members.
proof fn lemma_versions_in_range(versions: Set<u32>, top: u32, span: u32)
    requires
        versions.finite(),
        forall|v: u32| versions.contains(v) ==> v <= top && v + span > top,
    ensures
        versions.len() <= span,
    decreases span,
{
    if span == 0 {
        assert(versions =~= Set::empty());
    } else {
        let low = (top - span + 1) as int;
        if low >= 0 && versions.contains(low as u32) {
            let rest = versions.remove(low as u32);
            lemma_versions_in_range(rest, top, (span - 1) as u32);
        } else {
            lemma_versions_in_range(versions, top, (span - 1) as u32);
        }
    }
}


/// Whether `got` is `want`, the key taken by its bytes and the error by its
/// text.
pub open spec fn key_is(got: Result<[u8; 32], String>, want: Result<Seq<u8>, Seq<char>>) -> bool {
    match got {
        Ok(key) => want == Ok::<Seq<u8>, Seq<char>>(key@),
        Err(message) => want == Err::<Seq<u8>, Seq<char>>(message@),
    }
}

/// The store that holds `material` as its first and only key.
pub open spec fn initial_store(material: Seq<u8>, now: Timestamp) -> KeyStoreView {
    KeyStoreView {
        current_version: 1,
        keys: Map::<u32, KeyVersionView>::empty().insert(
            1u32,
            KeyVersionView {
                version: 1,
                created_at: now,
                key_material: material,
                status: KeyStatus::Active,
            },
        ),
        history: Seq::empty(),
    }
}

/// The 32 bytes of `material`, where it holds exactly 32.
fn key_from_material(material: &Vec<u8>) -> (key: Option<[u8; 32]>)
    ensures
        key is Some <==> material@.len() == 32,
        key matches Some(bytes) ==> bytes@ == material@,
{
    if material.len() != KEY_LEN {
        return None;
    }
    let mut bytes = [0u8; 32];
    let mut i: usize = 0;
    while i < KEY_LEN
        invariant
            i <= 32,
            material@.len() == 32,
            forall|j: int| 0 <= j < i ==> bytes@[j] == material@[j],
        decreases 32 - i,
    {
        bytes[i] = material[i];
        i = i + 1;
    }
    assert(bytes@ =~= material@);
    Some(bytes)
}

impl KeyStore {
    #[verifier::type_invariant]
    closed spec fn inv(&self) -> bool {
        self@.well_formed()
    }

    /// A store whose first key, of version 1, is `material`, made at `now`.
    pub fn with_key(material: [u8; 32], now: Timestamp) -> (store: Self)
        ensures
            store@ == initial_store(material@, now),
            store@.well_formed(),
    {
        let mut keys: HashMap<u32, KeyVersion> = HashMap::new();
        let first = KeyVersion {
            version: 1,
            created_at: now,
            key_material: slice_to_vec(material.as_slice()),
            status: KeyStatus::Active,
        };
        keys.insert(1, first);
        assert(key_views(keys@) =~= initial_store(material@, now).keys);
        assert(rotation_views(Seq::<KeyRotationEvent>::empty()) =~= Seq::empty());
        Self { current_version: 1, keys, rotation_history: Vec::new() }
    }

    /// A store with one freshly drawn key of version 1.
    pub fn new() -> (store: Self)
        ensures
            exists|material: Seq<u8>, now: Timestamp|
                material.len() == 32 && now.within_clock_range() && store@
                    == #[trigger] initial_store(material, now),
            store@.well_formed(),
    {
        let material = random_bytes::<32>();
        let now = Timestamp::now();
        let store = Self::with_key(material, now);
        assert(store@ == initial_store(material@, now));
        store
    }

    /// Rotates to the next version with `material` as its key, at `now`.
    /// The current key turns to rotating and stays readable. Fails, and
    /// changes nothing, only where the version cannot be counted further.
    pub fn rotate_key_with(&mut self, material: [u8; 32], now: Timestamp) -> (result: Result<
        u32,
        String,
    >)
        ensures
            old(self)@.well_formed(),
            final(self)@.well_formed(),
            result is Ok <==> old(self)@.current_version < u32::MAX,
            result matches Ok(version) ==> version == old(self)@.current_version + 1 && final(self)@
                == old(self)@.rotated(material@, now),
            result matches Err(message) ==> message@ == "Key version overflow"@ && final(self)@
                == old(self)@,
    {
        proof {
            use_type_invariant(&*self);
        }
        let old_version = self.current_version;
        if old_version == u32::MAX {
            return Err("Key version overflow".to_string());
        }
        let new_version: u32 = old_version + 1;
        let ghost before = self@;
        proof {
            lemma_rotation_keeps_keys(before, material@, now);
        }
        let mut keys: HashMap<u32, KeyVersion> = HashMap::new();
        proof {
            assert(key_views(keys@) =~= Map::<u32, KeyVersionView>::empty());
        }
        core::mem::swap(&mut self.keys, &mut keys);
        assert(key_views(keys@) == before.keys);
        match keys.remove(&old_version) {
            Some(current) => {
                let demoted = KeyVersion {
                    version: current.version,
                    created_at: current.created_at,
                    key_material: current.key_material,
                    status: KeyStatus::Rotating,
                };
                keys.insert(old_version, demoted);
                assert(key_views(keys@) =~= before.keys.insert(
                    old_version,
                    KeyVersionView { status: KeyStatus::Rotating, ..before.keys[old_version] },
                ));
            },
            None => {
                assert(key_views(keys@) =~= before.keys);
            },
        }
        let ghost demoted_keys = key_views(keys@);
        let fresh = KeyVersion {
            version: new_version,
            created_at: now,
            key_material: slice_to_vec(material.as_slice()),
            status: KeyStatus::Active,
        };
        keys.insert(new_version, fresh);
        assert(key_views(keys@) =~= demoted_keys.insert(new_version, fresh@));
        assert(key_views(keys@) == before.rotated(material@, now).keys);
        self.current_version = new_version;
        core::mem::swap(&mut self.keys, &mut keys);
        Ok(new_version)
    }

    /// Rotates to the next version with a freshly drawn key.
    pub fn rotate_key(&mut self) -> (result: Result<u32, String>)
        ensures
            old(self)@.well_formed(),
            final(self)@.well_formed(),
            result is Ok <==> old(self)@.current_version < u32::MAX,
            result matches Ok(version) ==> version == old(self)@.current_version + 1 && exists|
                material: Seq<u8>,
                now: Timestamp,
            |
                material.len() == 32 && now.within_clock_range() && final(self)@
                    == #[trigger] old(self)@.rotated(material, now),
            result matches Ok(_) ==> forall|v: u32| #[trigger]
                old(self)@.keys.contains_key(v) ==> final(self)@.keys.contains_key(v)
                    && final(self)@.keys[v].key_material == old(self)@.keys[v].key_material,
            result matches Err(message) ==> message@ == "Key version overflow"@ && final(self)@
                == old(self)@,
    {
        let material = random_bytes::<32>();
        let now = Timestamp::now();
        proof {
            use_type_invariant(&*self);
            if self@.current_version < u32::MAX {
                lemma_rotation_keeps_keys(self@, material@, now);
            }
        }
        self.rotate_key_with(material, now)
    }

    /// The key of `version`: 32 bytes, or an error where the store holds
    /// no such version.
    pub fn get_key_by_version(&self, version: u32) -> (result: Result<[u8; 32], String>)
        ensures
            key_is(result, self@.key_of(version, "Key version not found"@)),
            result is Ok <==> self@.keys.contains_key(version),
            self@.well_formed(),
    {
        proof {
            use_type_invariant(self);
        }
        match self.keys.get(&version) {
            Some(key) => {
                assert(self@.keys[version] == key@);
                match key_from_material(&key.key_material) {
                    Some(bytes) => Ok(bytes),
                    None => Err("Invalid key material length".to_string()),
                }
            },
            None => Err("Key version not found".to_string()),
        }
    }

    /// The key of the current version.
    pub fn get_current_key(&self) -> (result: Result<[u8; 32], String>)
        ensures
            key_is(result, self@.key_of(self@.current_version, "Current key not found"@)),
            result is Ok <==> self@.keys.contains_key(self@.current_version),
            self@.well_formed(),
    {
        proof {
            use_type_invariant(self);
        }
        match self.keys.get(&self.current_version) {
            Some(key) => {
                assert(self@.keys[self.current_version] == key@);
                match key_from_material(&key.key_material) {
                    Some(bytes) => Ok(bytes),
                    None => Err("Invalid key material length".to_string()),
                }
            },
            None => Err("Current key not found".to_string()),
        }
    }

    /// Retires all but the latest `keep_versions` versions. The current
    /// version counts as one of them: with 1 only the active key stays,
    /// with 0 none.
    pub fn retire_old_keys(&mut self, keep_versions: u32)
        ensures
            old(self)@.well_formed(),
            final(self)@.well_formed(),
            final(self)@ == old(self)@.retired(keep_versions),
    {
        proof {
            use_type_invariant(&*self);
            lemma_retire_keeps_recent(self@, keep_versions);
        }
        let ghost before = self@;
        let current = self.current_version;
        if keep_versions >= current {
            assert(before.retired(keep_versions).keys =~= before.keys);
            return;
        }
        let top: u32 = current - keep_versions;
        let mut keys: HashMap<u32, KeyVersion> = HashMap::new();
        proof {
            assert(key_views(keys@) =~= Map::<u32, KeyVersionView>::empty());
        }
        core::mem::swap(&mut self.keys, &mut keys);
        let ghost all = keys@;
        let mut version: u32 = top;
        while version >= 1 && keys.contains_key(&version)
            invariant
                version <= top,
                top == current - keep_versions,
                key_views(all) == before.keys,
                before.well_formed(),
                before.current_version == current,
                keys@ == all.remove_keys(Set::new(|v: u32| version < v <= top)),
            decreases version,
        {
            keys.remove(&version);
            version = version - 1;
            assert(keys@ =~= all.remove_keys(Set::new(|v: u32| version < v <= top)));
        }
        proof {
            assert forall|v: u32| v <= version implies !all.contains_key(v) by {
                if all.contains_key(v) {
                    assert(before.keys.contains_key(v));
                    assert(v >= 1);
                    assert(!keys@.contains_key(version));
                    assert(!all.contains_key(version));
                    assert(before.keys.contains_key(version));
                }
            }
            assert(key_views(keys@) =~= before.retired(keep_versions).keys);
        }
        core::mem::swap(&mut self.keys, &mut keys);
    }

    /// Records at `now` that a rotation from `old_version` to `new_version`
    /// was completed and moved `migrated` credentials.
    pub fn log_rotation_at(&mut self, old_version: u32, new_version: u32, migrated: usize, now: Timestamp)
        ensures
            final(self)@ == (KeyStoreView {
                history: old(self)@.history.push(
                    KeyRotationEventView {
                        timestamp: now,
                        old_version,
                        new_version,
                        credentials_migrated: migrated,
                        status: "completed"@,
                    },
                ),
                ..old(self)@
            }),
    {
        proof {
            use_type_invariant(&*self);
        }
        let event = KeyRotationEvent {
            timestamp: now,
            old_version,
            new_version,
            credentials_migrated: migrated,
            status: "completed".to_string(),
        };
        let mut history: Vec<KeyRotationEvent> = Vec::new();
        core::mem::swap(&mut self.rotation_history, &mut history);
        let ghost before = rotation_views(history@);
        history.push(event);
        assert(rotation_views(history@) =~= before.push(event@));
        core::mem::swap(&mut self.rotation_history, &mut history);
    }

    /// Records a completed rotation at the instant of the system clock.
    pub fn log_rotation(&mut self, old_version: u32, new_version: u32, migrated: usize)
        ensures
            final(self)@.current_version == old(self)@.current_version,
            final(self)@.keys == old(self)@.keys,
            final(self)@.history.len() == old(self)@.history.len() + 1,
            final(self)@.history.drop_last() == old(self)@.history,
            final(self)@.history.last().old_version == old_version,
            final(self)@.history.last().new_version == new_version,
            final(self)@.history.last().credentials_migrated == migrated,
            final(self)@.history.last().status == "completed"@,
            final(self)@.history.last().timestamp.within_clock_range(),
    {
        let now = Timestamp::now();
        self.log_rotation_at(old_version, new_version, migrated, now);
        assert(self@.history.drop_last() =~= old(self)@.history);
    }

    pub fn get_current_version(&self) -> (version: u32)
        ensures
            version == self@.current_version,
    {
        self.current_version
    }

    /// The recorded rotations, oldest first.
    pub fn get_rotation_history(&self) -> (history: &[KeyRotationEvent])
        ensures
            rotation_views(history@) == self@.history,
    {
        self.rotation_history.as_slice()
    }

    /// The number of versions that the store holds.
    pub fn key_count(&self) -> (count: usize)
        ensures
            self@.keys.dom().finite(),
            count == self@.keys.dom().len(),
    {
        assert(self@.keys.dom() =~= self.keys@.dom());
        self.keys.len()
    }
}

} // verus!
