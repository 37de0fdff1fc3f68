//! The calls that this library makes into `fnv`, `dashmap` and std where
//! Verus has no specification of its own. Each item states what the called
//! code does; Verus takes these statements on trust.
use vstd::prelude::*;
use std::any::TypeId;
use std::hash::{Hash, Hasher};
use std::collections::HashMap;
use std::sync::Arc;
use dashmap::DashMap;
use fnv::{FnvBuildHasher, FnvHasher};
use crate::dispatch::Executable;
use crate::dispatch::route_table::RouteKey;

verus! {

#[verifier::external_type_specification]
#[verifier::external_body]
pub struct ExFnvHasher(FnvHasher);

#[verifier::external_type_specification]
#[verifier::external_body]
#[verifier::reject_recursive_types(H)]
pub struct ExBuildHasherDefault<H>(std::hash::BuildHasherDefault<H>);

#[verifier::external_type_specification]
#[verifier::external_body]
#[verifier::reject_recursive_types(K)]
#[verifier::reject_recursive_types(V)]
#[verifier::reject_recursive_types(S)]
pub struct ExDashMap<K, V, S>(DashMap<K, V, S>);

/// One step of 64-bit FNV-1a: the byte is xor-ed in, then the state is
/// multiplied by the FNV prime, wrapping.
pub open spec fn fnv1a_step(h: u64, b: u8) -> u64 {
    ((h ^ (b as u64)) as int * 0x100000001b3int) as u64
}

/// 64-bit FNV-1a from state `h` over `bytes`, in order.
pub open spec fn fnv1a(h: u64, bytes: Seq<u8>) -> u64
    decreases bytes.len(),
{
    if bytes.len() == 0 {
        h
    } else {
        fnv1a(fnv1a_step(h, bytes[0]), bytes.drop_first())
    }
}

/// The hash that `fnv::FnvHasher` finishes with after a string has been
/// written into it through `Hash`: FNV-1a from the offset basis over the
/// string's UTF-8 bytes and the terminating byte `0xff`.
pub open spec fn fnv_str_hash(s: Seq<char>) -> u64 {
    fnv1a(0xcbf29ce484222325u64, vstd::utf8::encode_utf8(s).push(0xffu8))
}

/// Hashes a string with `fnv::FnvHasher` (`Hash::hash`, then `finish`).
/// `Hash` for `str` writes the string's bytes, then the byte `0xff`;
/// `FnvHasher` starts from the FNV offset basis, takes each byte written by
/// FNV-1a with a wrapping multiply, and finishes with its state.
#[verifier::external_body]
pub(crate) fn fnv_hash_str(s: &str) -> (h: u64)
    ensures
        h == fnv_str_hash(s@),
{
    let mut hasher = FnvHasher::default();
    s.hash(&mut hasher);
    hasher.finish()
}

/// The entries of a `DashMap` from handler hashes to table positions.
pub uninterp spec fn index_entries(m: DashMap<u64, usize, FnvBuildHasher>) -> Map<u64, usize>;

/// `DashMap::with_hasher` with the default FNV hasher: an empty map.
#[verifier::external_body]
pub(crate) fn index_new() -> (m: DashMap<u64, usize, FnvBuildHasher>)
    ensures
        index_entries(m).dom().is_empty(),
{
    DashMap::with_hasher(FnvBuildHasher::default())
}

/// `DashMap::insert`: afterwards `key` maps to `value`, other keys keep
/// their values; the value that `key` had before is returned.
#[verifier::external_body]
pub(crate) fn index_insert(m: &mut DashMap<u64, usize, FnvBuildHasher>, key: u64, value: usize) -> (prev: Option<usize>)
    ensures
        index_entries(*final(m)) == index_entries(*old(m)).insert(key, value),
        prev == (if index_entries(*old(m)).dom().contains(key) {
            Some(index_entries(*old(m))[key])
        } else {
            None
        }),
{
    m.insert(key, value)
}

/// `DashMap::get`, with the value copied out of the read guard.
#[verifier::external_body]
pub(crate) fn index_get(m: &DashMap<u64, usize, FnvBuildHasher>, key: u64) -> (r: Option<usize>)
    ensures
        r == (if index_entries(*m).dom().contains(key) {
            Some(index_entries(*m)[key])
        } else {
            None
        }),
{
    m.get(&key).map(|e| *e.value())
}

/// `DashMap::contains_key`.
#[verifier::external_body]
pub(crate) fn index_contains(m: &DashMap<u64, usize, FnvBuildHasher>, key: u64) -> (b: bool)
    ensures
        b == index_entries(*m).dom().contains(key),
{
    m.contains_key(&key)
}

/// `DashMap::len`: the number of keys.
#[verifier::external_body]
pub(crate) fn index_len(m: &DashMap<u64, usize, FnvBuildHasher>) -> (n: usize)
    ensures
        index_entries(*m).dom().finite() ==> n == index_entries(*m).dom().len(),
{
    m.len()
}

/// `Arc::clone`: a second pointer to the same allocation, so the value it
/// points to is the same.
#[verifier::external_body]
pub(crate) fn arc_share<T>(a: &Arc<T>) -> (r: Arc<T>)
    ensures
        r == *a,
{
    Arc::clone(a)
}

/// The entries of a `DashMap` from route keys to executable lists, each key
/// taken by its view (method, path hash). `RouteKey` derives `Eq` and
/// `Hash` from its two fields, so two keys are the same entry exactly when
/// their views are equal.
pub uninterp spec fn route_entries(m: DashMap<RouteKey, Arc<Vec<Executable>>, FnvBuildHasher>) -> Map<(Seq<char>, u64), Arc<Vec<Executable>>>;

/// `DashMap::with_hasher` with the default FNV hasher: an empty map.
#[verifier::external_body]
pub(crate) fn route_map_new() -> (m: DashMap<RouteKey, Arc<Vec<Executable>>, FnvBuildHasher>)
    ensures
        route_entries(m).dom().is_empty(),
{
    DashMap::with_hasher(FnvBuildHasher::default())
}

/// `DashMap::insert`: afterwards `key` maps to `value`, other keys keep
/// their values.
#[verifier::external_body]
pub(crate) fn route_map_insert(m: &mut DashMap<RouteKey, Arc<Vec<Executable>>, FnvBuildHasher>, key: RouteKey, value: Arc<Vec<Executable>>)
    ensures
        route_entries(*final(m)) == route_entries(*old(m)).insert(key@, value),
{
    m.insert(key, value);
}

/// `DashMap::get`, with the `Arc` cloned out of the read guard: a pointer
/// to the same list.
#[verifier::external_body]
pub(crate) fn route_map_get(m: &DashMap<RouteKey, Arc<Vec<Executable>>, FnvBuildHasher>, key: &RouteKey) -> (r: Option<Arc<Vec<Executable>>>)
    ensures
        r == (if route_entries(*m).dom().contains(key@) {
            Some(route_entries(*m)[key@])
        } else {
            None
        }),
{
    m.get(key).map(|e| Arc::clone(e.value()))
}

/// `DashMap::contains_key`.
#[verifier::external_body]
pub(crate) fn route_map_contains(m: &DashMap<RouteKey, Arc<Vec<Executable>>, FnvBuildHasher>, key: &RouteKey) -> (b: bool)
    ensures
        b == route_entries(*m).dom().contains(key@),
{
    m.contains_key(key)
}

/// `DashMap::remove`: the key leaves the map and its value is returned.
#[verifier::external_body]
pub(crate) fn route_map_remove(m: &mut DashMap<RouteKey, Arc<Vec<Executable>>, FnvBuildHasher>, key: &RouteKey) -> (r: Option<Arc<Vec<Executable>>>)
    ensures
        route_entries(*final(m)) == route_entries(*old(m)).remove(key@),
        r == (if route_entries(*old(m)).dom().contains(key@) {
            Some(route_entries(*old(m))[key@])
        } else {
            None
        }),
{
    m.remove(key).map(|(_, v)| v)
}

/// `DashMap::clear`: no entry is left.
#[verifier::external_body]
pub(crate) fn route_map_clear(m: &mut DashMap<RouteKey, Arc<Vec<Executable>>, FnvBuildHasher>)
    ensures
        route_entries(*final(m)).dom().is_empty(),
{
    m.clear();
}

/// The entries of a `DashMap` from method names to table positions.
pub uninterp spec fn slot_entries(m: DashMap<String, usize, FnvBuildHasher>) -> Map<Seq<char>, usize>;

/// `DashMap::with_hasher` with the default FNV hasher: an empty map.
#[verifier::external_body]
pub(crate) fn slots_new() -> (m: DashMap<String, usize, FnvBuildHasher>)
    ensures
        slot_entries(m).dom().is_empty(),
{
    DashMap::with_hasher(FnvBuildHasher::default())
}

/// `DashMap::get` by a string slice, with the position copied out.
#[verifier::external_body]
pub(crate) fn slots_get(m: &DashMap<String, usize, FnvBuildHasher>, key: &str) -> (r: Option<usize>)
    ensures
        r == (if slot_entries(*m).dom().contains(key@) {
            Some(slot_entries(*m)[key@])
        } else {
            None
        }),
{
    m.get(key).map(|e| *e.value())
}

/// `DashMap::insert`: afterwards `key` maps to `value`, other keys keep
/// their values.
#[verifier::external_body]
pub(crate) fn slots_insert(m: &mut DashMap<String, usize, FnvBuildHasher>, key: String, value: usize)
    ensures
        slot_entries(*final(m)) == slot_entries(*old(m)).insert(key@, value),
{
    m.insert(key, value);
}

/// `HashMap::with_hasher` with the default FNV hasher: an empty map.
#[verifier::external_body]
pub(crate) fn fnv_map_new<V>() -> (m: HashMap<u64, V, FnvBuildHasher>)
    ensures
        m@.dom().is_empty(),
{
    HashMap::with_hasher(FnvBuildHasher::default())
}

/// `HashMap::insert` on a map with the FNV hasher: afterwards `key` maps to
/// `value`, other keys keep their values. FNV hashes each key the same way
/// every time, so the map behaves as a map.
#[verifier::external_body]
pub(crate) fn fnv_map_insert<V>(m: &mut HashMap<u64, V, FnvBuildHasher>, key: u64, value: V)
    ensures
        final(m)@ == old(m)@.insert(key, value),
{
    m.insert(key, value);
}

/// `HashMap::get` on a map with the FNV hasher.
#[verifier::external_body]
pub(crate) fn fnv_map_get<V>(m: &HashMap<u64, V, FnvBuildHasher>, key: u64) -> (r: Option<&V>)
    ensures
        match r {
            Some(v) => m@.dom().contains(key) && *v == m@[key],
            None => !m@.dom().contains(key),
        },
{
    m.get(&key)
}

#[verifier::external_type_specification]
#[verifier::external_body]
pub struct ExTypeId(TypeId);

/// Hashes a `TypeId` with `fnv::FnvHasher`. Type identities are fixed by
/// the compiler for each build, so nothing is claimed of the value.
#[verifier::external_body]
pub(crate) fn fnv_hash_type_id(type_id: &TypeId) -> u64 {
    let mut hasher = FnvHasher::default();
    type_id.hash(&mut hasher);
    hasher.finish()
}

/// The lower-case hexadecimal digit for `d`, between 0 and 15.
pub open spec fn hex_digit(d: int) -> char {
    if d < 10 {
        ('0' as int + d) as char
    } else {
        ('a' as int + d - 10) as char
    }
}

/// The 32 hexadecimal digits of a 128-bit value, most significant first.
pub open spec fn hex_digits(id: u128) -> Seq<char> {
    Seq::new(32, |k: int| hex_digit((id as int / vstd::arithmetic::power::pow(16, (31 - k) as nat)) % 16))
}

/// The hyphenated form of a UUID: its digits in groups of 8, 4, 4, 4 and
/// 12, joined by `-`.
pub open spec fn uuid_hyphenated(id: u128) -> Seq<char> {
    let d = hex_digits(id);
    d.subrange(0, 8) + seq!['-'] + d.subrange(8, 12) + seq!['-'] + d.subrange(12, 16)
        + seq!['-'] + d.subrange(16, 20) + seq!['-'] + d.subrange(20, 32)
}

/// `uuid::Uuid::from_u128`, then `to_string`: `Display` for `Uuid` writes
/// the hyphenated lower-case form of its big-endian bytes.
#[verifier::external_body]
pub(crate) fn uuid_text(id: u128) -> (s: String)
    ensures
        s@ == uuid_hyphenated(id),
{
    uuid::Uuid::from_u128(id).to_string()
}

/// A random (version 4, RFC 4122 variant) UUID by its 128-bit value: the
/// version field holds 4 and the two variant bits are `10`.
pub open spec fn is_v4_uuid(id: u128) -> bool {
    &&& (id >> 76u128) & 0xfu128 == 4u128
    &&& (id >> 62u128) & 0x3u128 == 2u128
}

/// `uuid::Uuid::new_v4()`, as its 128-bit value: random bits, with the
/// version and variant bits set for a version 4 UUID, which is all that is
/// claimed of it.
#[verifier::external_body]
pub(crate) fn new_uuid_v4() -> (id: u128)
    ensures
        is_v4_uuid(id),
{
    uuid::Uuid::new_v4().as_u128()
}

/// Whether `c` is a decimal digit.
pub open spec fn is_digit(c: char) -> bool {
    '0' <= c <= '9'
}

/// Whether every character of `s` is a decimal digit.
pub open spec fn all_digits(s: Seq<char>) -> bool {
    forall|i: int| 0 <= i < s.len() ==> is_digit(#[trigger] s[i])
}

/// Whether `s` is a date and time in RFC 3339 form with the offset
/// `+00:00` and `f` characters of fraction of a second (`.` and the digits,
/// none at all where `f` is 0): the year as four digits or, past 9999, as
/// `+` and its digits; then `-MM-DD`, `T`, `HH:MM:SS`, the fraction and the
/// offset.
pub open spec fn rfc3339_utc_with_fraction(s: Seq<char>, f: int) -> bool {
    let n = s.len() as int;
    let t = n - 6 - f - 8;
    let y = t - 7;
    &&& y >= 4
    &&& s.subrange(n - 6, n) == "+00:00"@
    &&& (f == 0 || (s[n - 6 - f] == '.' && all_digits(s.subrange(n - 5 - f, n - 6))))
    &&& all_digits(s.subrange(t, t + 2))
    &&& s[t + 2] == ':'
    &&& all_digits(s.subrange(t + 3, t + 5))
    &&& s[t + 5] == ':'
    &&& all_digits(s.subrange(t + 6, t + 8))
    &&& s[t - 1] == 'T'
    &&& s[y] == '-'
    &&& all_digits(s.subrange(y + 1, y + 3))
    &&& s[y + 3] == '-'
    &&& all_digits(s.subrange(y + 4, y + 6))
    &&& ((y == 4 && all_digits(s.subrange(0, 4))) || (y > 4 && s[0] == '+' && all_digits(s.subrange(1, y))))
}

/// Whether `s` is an RFC 3339 date and time at offset `+00:00`, with no
/// fraction of a second or with 3, 6 or 9 of its digits.
pub open spec fn is_rfc3339_utc(s: Seq<char>) -> bool {
    exists|f: int| (f == 0 || f == 4 || f == 7 || f == 10) && #[trigger] rfc3339_utc_with_fraction(s, f)
}

/// `chrono::Utc::now().to_rfc3339()`: the current time. It depends on the
/// clock, so only its form is claimed: chrono writes a UTC time (after the
/// Unix epoch; before it, the call panics) in RFC 3339 form with the offset
/// `+00:00` and as many digits of the fraction of a second (none, 3, 6 or
/// 9) as it needs.
#[verifier::external_body]
pub(crate) fn utc_now_rfc3339() -> (s: String)
    ensures
        is_rfc3339_utc(s@),
{
    chrono::Utc::now().to_rfc3339()
}

/// The entries of a `DashMap` from file names to shared contents.
pub uninterp spec fn file_entries(m: DashMap<String, Arc<String>, FnvBuildHasher>) -> Map<Seq<char>, Arc<String>>;

/// `DashMap::with_hasher` with the default FNV hasher: an empty map.
#[verifier::external_body]
pub(crate) fn files_new() -> (m: DashMap<String, Arc<String>, FnvBuildHasher>)
    ensures
        file_entries(m).dom().is_empty(),
{
    DashMap::with_hasher(FnvBuildHasher::default())
}

/// `DashMap::get` by a string slice, with the `Arc` cloned out of the read
/// guard: a pointer to the same contents.
#[verifier::external_body]
pub(crate) fn files_get(m: &DashMap<String, Arc<String>, FnvBuildHasher>, key: &str) -> (r: Option<Arc<String>>)
    ensures
        r == (if file_entries(*m).dom().contains(key@) {
            Some(file_entries(*m)[key@])
        } else {
            None
        }),
{
    m.get(key).map(|e| Arc::clone(e.value()))
}

/// `DashMap::insert`: afterwards `key` maps to `value`, other keys keep
/// their values.
#[verifier::external_body]
pub(crate) fn files_insert(m: &mut DashMap<String, Arc<String>, FnvBuildHasher>, key: String, value: Arc<String>)
    ensures
        file_entries(*final(m)) == file_entries(*old(m)).insert(key@, value),
{
    m.insert(key, value);
}

/// `String::push_str`: appends the characters of `string`.
pub assume_specification[ String::push_str ](s: &mut String, string: &str)
    ensures
        final(s)@ == old(s)@ + string@,
;

} // verus!
