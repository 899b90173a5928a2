//! The time-boxed cache in front of the upstream catalogue: how entries are
//! keyed and stored, and when a stored entry is served instead of fetching.

use vstd::prelude::*;
use vstd::string::*;

use crate::text::{
    encode, encoded, is_code_char, lemma_encoded_chars, lemma_encoded_injective, lemma_split_at_mark,
    opt_text, str_eq,
};

verus! {

/// How long a stored entry is served: 240 days, about eight months.
pub const CACHE_TTL_SECS: u64 = 20736000;

/// The directory that holds one file per cache key.
pub const CACHE_DIR: &'static str = ".cache";

/// The mark that opens a parameter in a key, followed by its encoding.
pub const GIVEN: &'static str = "_";

/// The mark that stands in a key for a parameter that is not given.
pub const MISSING: &'static str = "-";

/// Whether an entry written at `timestamp` is still served at `now`.
pub open spec fn is_fresh(timestamp: u64, now: u64) -> bool {
    now - timestamp < CACHE_TTL_SECS
}

/// An optional key part: a given value is marked and encoded, so that it
/// holds neither mark; a missing one is the other mark.
pub open spec fn key_part(o: Option<Seq<char>>) -> Seq<char> {
    match o {
        Some(s) => GIVEN@ + encoded(s),
        None => MISSING@,
    }
}

/// The cache key of a list view.
pub open spec fn modules_key(
    language: Seq<char>,
    year: Option<Seq<char>>,
    job_id: Option<Seq<char>>,
) -> Seq<char> {
    "modules_"@ + encoded(language) + key_part(year) + key_part(job_id)
}

/// The cache key of a detail view.
pub open spec fn module_key(id: Seq<char>, language: Seq<char>) -> Seq<char> {
    "module_"@ + encoded(id) + key_part(Some(language))
}

/// The file that holds the entry of `key`: the key is encoded, so the file
/// lies directly in the cache directory.
pub open spec fn cache_path(key: Seq<char>) -> Seq<char> {
    CACHE_DIR@ + "/"@ + encoded(key) + ".json"@
}

/// What a cached call does.
#[derive(Debug, Clone, Copy, PartialEq, Eq, Structural)]
pub enum CacheStep {
    /// Caching is off: fetch, and store nothing.
    Bypass,
    /// Serve the stored entry; fetch nothing.
    Reuse,
    /// Fetch, and store the result if the fetch succeeds.
    Refresh,
}

/// The step for a call at `now`, given the write time of the stored entry.
pub open spec fn step_for(disabled: bool, stored: Option<u64>, now: u64) -> CacheStep {
    if disabled {
        CacheStep::Bypass
    } else {
        match stored {
            Some(ts) => if is_fresh(ts, now) {
                CacheStep::Reuse
            } else {
                CacheStep::Refresh
            },
            None => CacheStep::Refresh,
        }
    }
}

/// How many times a step runs the fetch.
pub open spec fn fetch_count(step: CacheStep) -> nat {
    if step is Reuse {
        0
    } else {
        1
    }
}

/// Whether a step writes the fetched value, given whether the fetch succeeded.
pub open spec fn writes(step: CacheStep, fetched: bool) -> bool {
    step is Refresh && fetched
}

/// The write time of the stored entry after a call that took `step` and wrote
/// at `written_at`, if it wrote.
pub open spec fn entry_after(
    step: CacheStep,
    stored: Option<u64>,
    fetched: bool,
    written_at: u64,
) -> Option<u64> {
    if writes(step, fetched) {
        Some(written_at)
    } else {
        stored
    }
}

/// The file that holds the entry of `cache_key`.
pub fn get_cache_path(cache_key: &str) -> (r: String)
    ensures
        r@ == cache_path(cache_key@),
{
    let mut path = String::from_str(CACHE_DIR);
    path.append("/");
    let name = encode(cache_key);
    path.append(name.as_str());
    path.append(".json");
    path
}

/// Whether an entry written at `timestamp` is still served at `now`, both in
/// seconds since the Unix epoch. An entry from the future counts as fresh.
pub fn is_cache_valid(timestamp: u64, now: u64) -> (r: bool)
    ensures
        r == is_fresh(timestamp, now),
{
    timestamp > now || now - timestamp < CACHE_TTL_SECS
}

/// Whether the cache-disable setting, where it is set, turns caching off:
/// only the value `true` does.
pub fn cache_disabled(setting: &Option<String>) -> (r: bool)
    ensures
        r == (opt_text(*setting) == Some("true"@)),
{
    match setting {
        Some(s) => str_eq(s.as_str(), "true"),
        None => false,
    }
}

/// The step of a call at `now`, given the write time of the entry stored
/// under its key, if there is one.
pub fn cache_step(disabled: bool, stored: Option<u64>, now: u64) -> (r: CacheStep)
    ensures
        r == step_for(disabled, stored, now),
{
    if disabled {
        return CacheStep::Bypass;
    }
    match stored {
        Some(ts) => if is_cache_valid(ts, now) {
            CacheStep::Reuse
        } else {
            CacheStep::Refresh
        },
        None => CacheStep::Refresh,
    }
}

/// Whether a call that took `step` writes what it fetched: only a refresh
/// whose fetch succeeded does, so a failure leaves the stored entry alone.
pub fn should_store(step: CacheStep, fetched: bool) -> (r: bool)
    ensures
        r == writes(step, fetched),
{
    match step {
        CacheStep::Refresh => fetched,
        _ => false,
    }
}

fn append_part(key: &mut String, o: &Option<String>)
    ensures
        final(key)@ == old(key)@ + key_part(opt_text(*o)),
{
    match o {
        Some(s) => {
            key.append(GIVEN);
            let code = encode(s.as_str());
            key.append(code.as_str());
        },
        None => key.append(MISSING),
    }
}

/// The cache key of a list view in `language`, filtered by year and job.
pub fn modules_cache_key(language: &str, year: &Option<String>, job_id: &Option<String>) -> (r:
    String)
    ensures
        r@ == modules_key(language@, opt_text(*year), opt_text(*job_id)),
{
    let mut key = String::from_str("modules_");
    let code = encode(language);
    key.append(code.as_str());
    append_part(&mut key, year);
    append_part(&mut key, job_id);
    key
}

/// The cache key of the detail view of module `id` in `language`.
pub fn module_cache_key(id: &str, language: &str) -> (r: String)
    ensures
        r@ == module_key(id@, language@),
{
    let mut key = String::from_str("module_");
    let code = encode(id);
    key.append(code.as_str());
    key.append(GIVEN);
    let lang = encode(language);
    key.append(lang.as_str());
    key
}

/// Two cached calls with the same key while caching is on, where the first
/// finds no fresh entry and its fetch succeeds: the fetch runs once if the
/// second call comes before the written entry reaches the TTL, and twice if
/// it comes after.
pub proof fn lemma_cache_reuse(stored: Option<u64>, t1: u64, written_at: u64, t2: u64)
    requires
        !(stored matches Some(ts) && is_fresh(ts, t1)),
        t1 <= written_at <= t2,
    ensures
        ({
            let first = step_for(false, stored, t1);
            let second = step_for(false, entry_after(first, stored, true, written_at), t2);
            fetch_count(first) + fetch_count(second) == if t2 - written_at < CACHE_TTL_SECS {
                1nat
            } else {
                2nat
            }
        }),
{
}

proof fn lemma_marks()
    ensures
        GIVEN@ =~= seq!['_'],
        MISSING@ =~= seq!['-'],
        !is_code_char('_'),
        !is_code_char('-'),
{
    reveal_strlit("_");
    reveal_strlit("-");
}

/// A key part followed by a rest that is empty or opens with a mark is
/// read back unambiguously.
proof fn lemma_parts_split(
    o1: Option<Seq<char>>,
    r1: Seq<char>,
    o2: Option<Seq<char>>,
    r2: Seq<char>,
)
    requires
        key_part(o1) + r1 == key_part(o2) + r2,
        r1.len() > 0 ==> !is_code_char(r1[0]),
        r2.len() > 0 ==> !is_code_char(r2[0]),
    ensures
        o1 == o2,
        r1 == r2,
{
    lemma_marks();
    let t1 = key_part(o1) + r1;
    let t2 = key_part(o2) + r2;
    assert(t1[0] == key_part(o1)[0]);
    assert(t2[0] == key_part(o2)[0]);
    match (o1, o2) {
        (Some(s1), Some(s2)) => {
            assert(t1.drop_first() =~= encoded(s1) + r1);
            assert(t2.drop_first() =~= encoded(s2) + r2);
            lemma_encoded_chars(s1);
            lemma_encoded_chars(s2);
            lemma_split_at_mark(encoded(s1), r1, encoded(s2), r2, |c: char| is_code_char(c));
            lemma_encoded_injective(s1, s2);
        },
        (None, None) => {
            assert(r1 =~= t1.drop_first());
            assert(r2 =~= t2.drop_first());
        },
        _ => {},
    }
}

/// Different list requests have different cache keys: equal keys mean the
/// same language, year and job.
pub proof fn lemma_modules_key_injective(
    l1: Seq<char>,
    y1: Option<Seq<char>>,
    j1: Option<Seq<char>>,
    l2: Seq<char>,
    y2: Option<Seq<char>>,
    j2: Option<Seq<char>>,
)
    requires
        modules_key(l1, y1, j1) == modules_key(l2, y2, j2),
    ensures
        l1 == l2,
        y1 == y2,
        j1 == j2,
{
    lemma_marks();
    let head = "modules_"@;
    let x1 = encoded(l1) + (key_part(y1) + key_part(j1));
    let x2 = encoded(l2) + (key_part(y2) + key_part(j2));
    assert(modules_key(l1, y1, j1) =~= head + x1);
    assert(modules_key(l2, y2, j2) =~= head + x2);
    assert(x1 =~= (head + x1).skip(head.len() as int));
    assert(x2 =~= (head + x2).skip(head.len() as int));
    lemma_encoded_chars(l1);
    lemma_encoded_chars(l2);
    assert((key_part(y1) + key_part(j1))[0] == key_part(y1)[0]);
    assert((key_part(y2) + key_part(j2))[0] == key_part(y2)[0]);
    lemma_split_at_mark(
        encoded(l1),
        key_part(y1) + key_part(j1),
        encoded(l2),
        key_part(y2) + key_part(j2),
        |c: char| is_code_char(c),
    );
    lemma_encoded_injective(l1, l2);
    lemma_parts_split(y1, key_part(j1), y2, key_part(j2));
    assert(key_part(j1) + Seq::<char>::empty() =~= key_part(j1));
    assert(key_part(j2) + Seq::<char>::empty() =~= key_part(j2));
    lemma_parts_split(j1, Seq::empty(), j2, Seq::empty());
}

/// Different detail requests have different cache keys: equal keys mean the
/// same module and language.
pub proof fn lemma_module_key_injective(id1: Seq<char>, l1: Seq<char>, id2: Seq<char>, l2: Seq<char>)
    requires
        module_key(id1, l1) == module_key(id2, l2),
    ensures
        id1 == id2,
        l1 == l2,
{
    lemma_marks();
    let head = "module_"@;
    let x1 = encoded(id1) + key_part(Some(l1));
    let x2 = encoded(id2) + key_part(Some(l2));
    assert(module_key(id1, l1) =~= head + x1);
    assert(module_key(id2, l2) =~= head + x2);
    assert(x1 =~= (head + x1).skip(head.len() as int));
    assert(x2 =~= (head + x2).skip(head.len() as int));
    lemma_encoded_chars(id1);
    lemma_encoded_chars(id2);
    lemma_split_at_mark(encoded(id1), key_part(Some(l1)), encoded(id2), key_part(Some(l2)), |c: char| is_code_char(c));
    lemma_encoded_injective(id1, id2);
    assert(key_part(Some(l1)) + Seq::<char>::empty() =~= key_part(Some(l1)));
    assert(key_part(Some(l2)) + Seq::<char>::empty() =~= key_part(Some(l2)));
    lemma_parts_split(Some(l1), Seq::empty(), Some(l2), Seq::empty());
}

/// No list request shares its cache key with a detail request.
pub proof fn lemma_list_and_detail_keys_differ(
    language: Seq<char>,
    year: Option<Seq<char>>,
    job_id: Option<Seq<char>>,
    id: Seq<char>,
    detail_language: Seq<char>,
)
    ensures
        modules_key(language, year, job_id) != module_key(id, detail_language),
{
    reveal_strlit("modules_");
    reveal_strlit("module_");
    let a = modules_key(language, year, job_id);
    let b = module_key(id, detail_language);
    assert(a[6] == 's');
    assert(b[6] == '_');
}

/// Different keys have different cache files, and each file lies directly
/// in the cache directory: its name holds no path separator.
pub proof fn lemma_cache_path_injective(k1: Seq<char>, k2: Seq<char>)
    ensures
        cache_path(k1) == cache_path(k2) ==> k1 == k2,
        forall|i: int| 0 <= i < encoded(k1).len() ==> #[trigger] encoded(k1)[i] != '/',
{
    lemma_encoded_chars(k1);
    if cache_path(k1) == cache_path(k2) {
        let head = CACHE_DIR@ + "/"@;
        let p1 = cache_path(k1);
        assert(p1 =~= head + (encoded(k1) + ".json"@));
        assert(cache_path(k2) =~= head + (encoded(k2) + ".json"@));
        assert(encoded(k1) + ".json"@ =~= p1.skip(head.len() as int));
        assert(encoded(k2) + ".json"@ =~= cache_path(k2).skip(head.len() as int));
        assert(encoded(k1) =~= (encoded(k1) + ".json"@).subrange(0, encoded(k1).len() as int));
        assert(encoded(k2) =~= (encoded(k2) + ".json"@).subrange(0, encoded(k2).len() as int));
        lemma_encoded_injective(k1, k2);
    }
}

} // verus!
