//! The types and utility functions shared by the contracts: statuses, queries, audit
//! records, validation, time arithmetic, status predicates, and the small collection
//! helpers.
use vstd::prelude::*;
use crate::table::Table;
use vstd::utf8::{encode_utf8, is_char_boundary};

verus! {

/// Common status of a platform object.
#[derive(Debug, Clone, Copy, PartialEq, Eq, Structural)]
pub enum CommonStatus {
    Inactive,
    Active,
    Suspended,
    Completed,
    Cancelled,
}

/// Sort direction of a query.
#[derive(Debug, Clone, Copy, PartialEq, Eq, Structural)]
pub enum SortDirection {
    Ascending,
    Descending,
}

/// Pagination of a query result.
#[derive(Debug, Clone, Copy, PartialEq, Eq, Structural)]
pub struct Pagination {
    pub offset: u32,
    pub limit: u32,
    pub total: u32,
}

/// The kind of an event; `Other` carries its name.
pub enum EventType {
    Conference,
    Workshop,
    Meetup,
    Webinar,
    Concert,
    Sports,
    Other(String),
}

/// An entry of an audit log: when, who, what and the details.
pub struct AuditLog {
    pub timestamp: u64,
    pub actor: u64,
    pub action: String,
    pub details: String,
}

/// The parameters of a query: pagination, filters by field name, and sorting.
pub struct QueryParams {
    pub pagination: Option<Pagination>,
    pub filters: Vec<(String, String)>,
    pub sort_by: Option<String>,
    pub sort_direction: Option<SortDirection>,
}

/// Version, times and tags of a stored object.
pub struct Metadata {
    pub version: u32,
    pub created_at: u64,
    pub updated_at: u64,
    pub tags: Vec<String>,
}

/// Error kinds shared by the platform's services.
#[derive(Debug, Clone, Copy, PartialEq, Eq, Structural)]
pub enum CommonError {
    InvalidInput,
    Unauthorized,
    NotFound,
    AlreadyExists,
    InternalError,
    RateLimited,
    Maintenance,
}

/// Validation utilities.
pub struct ValidationUtils;

impl ValidationUtils {
    /// An address is always valid: addresses are valid by construction.
    pub fn validate_address(_address: u64) -> (r: bool)
        ensures
            r,
    {
        true
    }

    /// A symbol is valid when it is non-empty and at most 32 bytes long.
    pub fn validate_symbol(symbol: &str) -> (r: bool)
        ensures
            r == (symbol@.len() > 0 && encode_utf8(symbol@).len() <= 32),
    {
        let bytes = symbol.as_bytes();
        !symbol.is_empty() && bytes.len() <= 32
    }

    /// A string is valid when it is non-empty and at most `max_len` bytes long.
    pub fn validate_string(string: &str, max_len: usize) -> (r: bool)
        ensures
            r == (string@.len() > 0 && encode_utf8(string@).len() <= max_len),
    {
        let bytes = string.as_bytes();
        !string.is_empty() && bytes.len() <= max_len
    }

    /// An amount is valid when it is non-zero and at most `max_amount`.
    pub fn validate_amount(amount: u128, max_amount: u128) -> (r: bool)
        ensures
            r == (0 < amount && amount <= max_amount),
    {
        amount > 0 && amount <= max_amount
    }

    /// A timestamp is valid when it is not in the past and at most `max_future`
    /// seconds ahead of `current_time`.
    pub fn validate_timestamp(timestamp: u64, current_time: u64, max_future: u64) -> (r: bool)
        ensures
            r == (current_time <= timestamp && timestamp <= current_time + max_future),
    {
        timestamp >= current_time && timestamp - current_time <= max_future
    }
}

/// Time utilities.
pub struct TimeUtils;

impl TimeUtils {
    /// Adds a duration (in seconds) to a timestamp.
    pub fn add_duration(timestamp: u64, duration_seconds: u64) -> (r: u64)
        requires
            timestamp + duration_seconds <= u64::MAX,
        ensures
            r == timestamp + duration_seconds,
    {
        timestamp + duration_seconds
    }

    /// A timestamp is in the past when it is strictly before the current time.
    pub fn is_past(timestamp: u64, current_time: u64) -> (r: bool)
        ensures
            r == (timestamp < current_time),
    {
        timestamp < current_time
    }

    /// A timestamp is in the future when it is strictly after the current time.
    pub fn is_future(timestamp: u64, current_time: u64) -> (r: bool)
        ensures
            r == (timestamp > current_time),
    {
        timestamp > current_time
    }

    /// The absolute difference between two timestamps.
    pub fn time_diff(timestamp1: u64, timestamp2: u64) -> (r: u64)
        ensures
            r == abs_diff(timestamp1 as int, timestamp2 as int),
    {
        if timestamp1 > timestamp2 {
            timestamp1 - timestamp2
        } else {
            timestamp2 - timestamp1
        }
    }
}

/// The absolute difference of two integers.
pub open spec fn abs_diff(a: int, b: int) -> int {
    if a > b { a - b } else { b - a }
}

/// Status utilities.
pub struct StatusUtils;

impl StatusUtils {
    /// A status is active when it is `Active`.
    pub fn is_active(status: CommonStatus) -> (r: bool)
        ensures
            r == (status == CommonStatus::Active),
    {
        status == CommonStatus::Active
    }

    /// A status is terminal (can no longer change) when it is `Completed` or `Cancelled`.
    pub fn is_terminal(status: CommonStatus) -> (r: bool)
        ensures
            r == (status == CommonStatus::Completed || status == CommonStatus::Cancelled),
    {
        matches!(status, CommonStatus::Completed | CommonStatus::Cancelled)
    }

    /// A status allows modifications when it is `Active` or `Suspended`.
    pub fn allows_modifications(status: CommonStatus) -> (r: bool)
        ensures
            r == (status == CommonStatus::Active || status == CommonStatus::Suspended),
    {
        matches!(status, CommonStatus::Active | CommonStatus::Suspended)
    }
}

/// Storage keys of the data that every contract keeps.
#[derive(Debug, Clone, Copy, PartialEq, Eq, Structural)]
pub enum CommonDataKey {
    /// The logic version of the contract.
    Version,
    /// Timelock data for contract upgrades.
    UpgradeTimelock,
}

/// Whether `char::is_alphanumeric` holds of a character (Unicode's Alphabetic or Numeric).
pub uninterp spec fn char_is_alphanumeric(c: char) -> bool;

/// The string that `str::to_uppercase` returns (Unicode's full upper-case mapping).
pub uninterp spec fn upper_case(s: Seq<char>) -> Seq<char>;

/// The string that `str::to_lowercase` returns (Unicode's full lower-case mapping).
pub uninterp spec fn lower_case(s: Seq<char>) -> Seq<char>;

/// Calls `char::is_alphanumeric`; its result is named, not restated.
#[verifier::external_body]
fn char_alphanumeric(c: char) -> (r: bool)
    ensures
        r == char_is_alphanumeric(c),
{
    c.is_alphanumeric()
}

/// Calls `str::to_uppercase`; its result is named, not restated.
#[verifier::external_body]
fn str_to_uppercase(s: &str) -> (r: String)
    ensures
        r@ == upper_case(s@),
{
    s.to_uppercase()
}

/// Calls `str::to_lowercase`; its result is named, not restated.
#[verifier::external_body]
fn str_to_lowercase(s: &str) -> (r: String)
    ensures
        r@ == lower_case(s@),
{
    s.to_lowercase()
}

/// String utilities.
pub struct StringUtils;

impl StringUtils {
    /// Whether every character of the string is alphanumeric.
    pub fn is_alphanumeric(string: &str) -> (r: bool)
        ensures
            r == (forall|i: int| 0 <= i < string@.len() ==> #[trigger] char_is_alphanumeric(string@[i])),
    {
        let n = string.unicode_len();
        let mut i: usize = 0;
        while i < n
            invariant
                n == string@.len(),
                i <= n,
                forall|j: int| 0 <= j < i ==> #[trigger] char_is_alphanumeric(string@[j]),
            decreases n - i,
        {
            let c = string.get_char(i);
            if !char_alphanumeric(c) {
                return false;
            }
            i = i + 1;
        }
        true
    }

    /// The string cut down to its first `max_len` bytes, when it is longer; the cut
    /// must fall between two characters.
    pub fn truncate(string: &str, max_len: usize) -> (r: String)
        requires
            encode_utf8(string@).len() > max_len ==> is_char_boundary(encode_utf8(string@), max_len as int),
        ensures
            encode_utf8(r@) == (if encode_utf8(string@).len() <= max_len {
                encode_utf8(string@)
            } else {
                encode_utf8(string@).subrange(0, max_len as int)
            }),
            encode_utf8(string@).len() <= max_len ==> r@ == string@,
    {
        let bytes = string.as_bytes();
        if bytes.len() <= max_len {
            String::from_str(string)
        } else {
            let (head, _tail) = string.split_at(max_len);
            String::from_str(head)
        }
    }

    /// The string in upper case.
    pub fn to_uppercase(string: &str) -> (r: String)
        ensures
            r@ == upper_case(string@),
    {
        str_to_uppercase(string)
    }

    /// The string in lower case.
    pub fn to_lowercase(string: &str) -> (r: String)
        ensures
            r@ == lower_case(string@),
    {
        str_to_lowercase(string)
    }
}

/// The items of `s` with every repeated item after its first occurrence left out.
pub open spec fn dedup(s: Seq<u64>) -> Seq<u64>
    decreases s.len(),
{
    if s.len() == 0 {
        s
    } else {
        let prev = dedup(s.drop_last());
        if prev.contains(s.last()) { prev } else { prev.push(s.last()) }
    }
}

/// Vector utilities.
pub struct VecUtils;

impl VecUtils {
    /// Whether the vector holds the item.
    pub fn contains(vec: &Vec<u64>, item: u64) -> (r: bool)
        ensures
            r == vec@.contains(item),
    {
        let mut i: usize = 0;
        while i < vec.len()
            invariant
                i <= vec@.len(),
                forall|j: int| 0 <= j < i ==> vec@[j] != item,
            decreases vec@.len() - i,
        {
            if vec[i] == item {
                return true;
            }
            i = i + 1;
        }
        false
    }

    /// The items of the vector, each once, in the order of their first occurrence.
    pub fn remove_duplicates(vec: &Vec<u64>) -> (r: Vec<u64>)
        ensures
            r@ == dedup(vec@),
    {
        let mut result: Vec<u64> = Vec::new();
        let mut i: usize = 0;
        while i < vec.len()
            invariant
                i <= vec@.len(),
                result@ == dedup(vec@.subrange(0, i as int)),
            decreases vec@.len() - i,
        {
            let item = vec[i];
            proof {
                let s = vec@.subrange(0, i as int + 1);
                assert(s.drop_last() =~= vec@.subrange(0, i as int));
                assert(s.last() == item);
            }
            if !Self::contains(&result, item) {
                result.push(item);
            }
            i = i + 1;
        }
        assert(vec@.subrange(0, vec@.len() as int) =~= vec@);
        result
    }

    /// Whether the vector is empty.
    pub fn is_empty_or_invalid(vec: &Vec<u64>) -> (r: bool)
        ensures
            r == (vec@.len() == 0),
    {
        vec.len() == 0
    }
}

/// Map utilities.
pub struct MapUtils;

impl MapUtils {
    /// The value under `key`, or `default` when there is none.
    pub fn get_or_default<V: Copy>(map: &Table<V>, key: u64, default: V) -> (r: V)
        requires
            map.wf(),
        ensures
            r == (if map.map().dom().contains(key) { map.map()[key] } else { default }),
    {
        match map.find(key) {
            Some(i) => map.entries[i].1,
            None => default,
        }
    }

    /// Whether the map has a value under `key`.
    pub fn contains_key<V>(map: &Table<V>, key: u64) -> (r: bool)
        requires
            map.wf(),
        ensures
            r == map.map().dom().contains(key),
    {
        map.contains_key(key)
    }

    /// The union of two maps; where both hold a key, the second map's value wins.
    pub fn merge<V: Copy>(map1: &Table<V>, map2: &Table<V>) -> (r: Table<V>)
        requires
            map1.wf(),
            map2.wf(),
        ensures
            r.wf(),
            r.map() == map1.map().union_prefer_right(map2.map()),
    {
        let mut result: Table<V> = Table::new();
        let mut i: usize = 0;
        while i < map1.entries.len()
            invariant
                map1.wf(),
                result.wf(),
                i <= map1.entries@.len(),
                result.map() == prefix_map(map1.entries@, i as int),
            decreases map1.entries@.len() - i,
        {
            let (k, v) = map1.entries[i];
            result.insert(k, v);
            i = i + 1;
        }
        proof { lemma_prefix_map_full(*map1); }
        let mut j: usize = 0;
        while j < map2.entries.len()
            invariant
                map2.wf(),
                result.wf(),
                j <= map2.entries@.len(),
                result.map() == map1.map().union_prefer_right(prefix_map(map2.entries@, j as int)),
            decreases map2.entries@.len() - j,
        {
            let (k, v) = map2.entries[j];
            result.insert(k, v);
            proof {
                assert(result.map() =~= map1.map().union_prefer_right(prefix_map(map2.entries@, j as int + 1)));
            }
            j = j + 1;
        }
        proof { lemma_prefix_map_full(*map2); }
        assert(prefix_map(map2.entries@, 0) =~= Map::<u64, V>::empty());
        result
    }
}

/// The map made by inserting the first `n` entries in order (a later entry wins).
pub open spec fn prefix_map<V>(entries: Seq<(u64, V)>, n: int) -> Map<u64, V>
    decreases n,
{
    if n <= 0 {
        Map::empty()
    } else {
        prefix_map(entries, n - 1).insert(entries[n - 1].0, entries[n - 1].1)
    }
}

/// Inserting all the entries of a table, in order, gives back its map.
pub proof fn lemma_prefix_map_full<V>(t: Table<V>)
    requires
        t.wf(),
    ensures
        prefix_map(t.entries@, t.entries@.len() as int) == t.map(),
{
    let n = t.entries@.len() as int;
    lemma_prefix_map_part(t, n);
    let m = prefix_map(t.entries@, n);
    assert forall|k: u64| #[trigger] m.dom().contains(k) == t.map().dom().contains(k) by {
        if t.has(k) {
            t.lemma_pos(t.pos(k));
        }
    }
    assert forall|k: u64| t.map().dom().contains(k) implies #[trigger] m[k] == t.map()[k] by {
        t.lemma_pos(t.pos(k));
    }
    assert(m =~= t.map());
}

/// The first `n` entries of a table, inserted in order, give its map on their keys.
proof fn lemma_prefix_map_part<V>(t: Table<V>, n: int)
    requires
        t.wf(),
        0 <= n <= t.entries@.len(),
    ensures
        forall|k: u64| #[trigger] prefix_map(t.entries@, n).dom().contains(k)
            <==> exists|i: int| 0 <= i < n && t.entries@[i].0 == k,
        forall|i: int| 0 <= i < n ==> #[trigger] prefix_map(t.entries@, n)[t.entries@[i].0]
            == t.entries@[i].1,
    decreases n,
{
    if n > 0 {
        lemma_prefix_map_part(t, n - 1);
        let m = prefix_map(t.entries@, n);
        let p = prefix_map(t.entries@, n - 1);
        assert forall|k: u64| #[trigger] m.dom().contains(k)
            <==> exists|i: int| 0 <= i < n && t.entries@[i].0 == k by {
            if m.dom().contains(k) {
                if k == t.entries@[n - 1].0 {
                    assert(0 <= n - 1 < n && t.entries@[n - 1].0 == k);
                } else {
                    assert(p.dom().contains(k));
                    let i = choose|i: int| 0 <= i < n - 1 && t.entries@[i].0 == k;
                    assert(0 <= i < n && t.entries@[i].0 == k);
                }
            }
            if exists|i: int| 0 <= i < n && t.entries@[i].0 == k {
                let i = choose|i: int| 0 <= i < n && t.entries@[i].0 == k;
                if i < n - 1 {
                    assert(0 <= i < n - 1 && t.entries@[i].0 == k);
                    assert(p.dom().contains(k));
                }
            }
        }
        assert forall|i: int| 0 <= i < n implies #[trigger] m[t.entries@[i].0] == t.entries@[i].1 by {
            if i < n - 1 {
                assert(t.entries@[i].0 != t.entries@[n - 1].0);
            }
        }
    }
}

/// `a` may stand before `b` in the given direction.
pub open spec fn in_order(direction: SortDirection, a: u64, b: u64) -> bool {
    match direction {
        SortDirection::Ascending => a <= b,
        SortDirection::Descending => a >= b,
    }
}

/// The sequence is sorted in the given direction.
pub open spec fn sorted_in(s: Seq<u64>, direction: SortDirection) -> bool {
    forall|i: int, j: int| 0 <= i < j < s.len() ==> in_order(direction, #[trigger] s[i], #[trigger] s[j])
}

/// Whether `a` may stand before `b` in the given direction.
fn comes_before(direction: SortDirection, a: u64, b: u64) -> (r: bool)
    ensures
        r == in_order(direction, a, b),
{
    match direction {
        SortDirection::Ascending => a <= b,
        SortDirection::Descending => a >= b,
    }
}

/// Sorting utilities.
pub struct SortUtils;

impl SortUtils {
    /// Sorts a vector in the given direction: the result holds the same values, each
    /// as often, in that order.
    pub fn apply_sort_direction(vec: &mut Vec<u64>, direction: SortDirection)
        ensures
            final(vec)@.to_multiset() == old(vec)@.to_multiset(),
            sorted_in(final(vec)@, direction),
    {
        broadcast use vstd::seq_lib::group_to_multiset_ensures;
        let ghost src = vec@;
        let mut out: Vec<u64> = Vec::new();
        let mut i: usize = 0;
        while i < vec.len()
            invariant
                vec@ == src,
                i <= src.len(),
                out@.to_multiset() == src.take(i as int).to_multiset(),
                sorted_in(out@, direction),
            decreases src.len() - i,
        {
            let x = vec[i];
            let mut j: usize = 0;
            while j < out.len() && comes_before(direction, out[j], x)
                invariant
                    j <= out@.len(),
                    sorted_in(out@, direction),
                    forall|k: int| 0 <= k < j ==> in_order(direction, #[trigger] out@[k], x),
                decreases out@.len() - j,
            {
                j = j + 1;
            }
            let ghost o = out@;
            proof {
                if j < o.len() {
                    assert(!in_order(direction, o[j as int], x));
                    assert forall|k: int| j <= k < o.len() implies in_order(direction, x, #[trigger] o[k]) by {
                        if k > j {
                            assert(in_order(direction, o[j as int], o[k]));
                        }
                    }
                }
            }
            out.insert(j, x);
            proof {
                assert(out@ == o.insert(j as int, x));
                vstd::seq_lib::to_multiset_insert(o, j as int, x);
                assert(src.take(i + 1) == src.take(i as int).push(x));
                vstd::seq_lib::to_multiset_build(src.take(i as int), x);
                assert(sorted_in(out@, direction)) by {
                    assert forall|a: int, b: int| 0 <= a < b < out@.len() implies in_order(
                        direction,
                        #[trigger] out@[a],
                        #[trigger] out@[b],
                    ) by {
                        if a < j && b < j {
                            assert(out@[a] == o[a] && out@[b] == o[b]);
                        } else if a < j && b == j {
                            assert(out@[a] == o[a]);
                        } else if a < j {
                            assert(out@[a] == o[a] && out@[b] == o[b - 1]);
                            assert(in_order(direction, o[a], o[b - 1]));
                        } else if a == j {
                            assert(out@[b] == o[b - 1]);
                        } else {
                            assert(out@[a] == o[a - 1] && out@[b] == o[b - 1]);
                        }
                    }
                }
            }
            i = i + 1;
        }
        proof {
            assert(src.take(src.len() as int) == src);
        }
        *vec = out;
    }
}

} // verus!
