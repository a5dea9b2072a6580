//! Cache checks: whether a cached run of a task was made with the same
//! input, which cached run to reuse, and which old runs to drop. Files are
//! listed, read and copied by the caller.

use crate::blocking::{get_node_dir, node_dir};
use crate::nodes::Task;
use crate::run_task::new_uuid_string;
use crate::schemas::{Artifact, JsonValue, Parent, ParentKind, TaskOutput};
use crate::settings::Cfg;
use crate::state::{input_map, input_read, read_input_from_parents};
use crate::text::{join_path, path_join, str_eq};
use crate::workdirs::{count_folders_to_delete, folders_to_delete, get_task_cache_path, task_cache_path};
use vstd::prelude::*;

verus! {

/// Whether `serde_json` reads both texts as JSON and finds the two
/// `serde_json::Value`s equal.
pub uninterp spec fn json_texts_equal(a: Seq<char>, b: Seq<char>) -> bool;

/// Calls `serde_json::from_str` on each text and compares the two
/// `serde_json::Value`s with `==`. Claimed: the answer is
/// `json_texts_equal` of the two texts (false when either is not JSON).
#[verifier::external_body]
fn same_json_text(a: &str, b: &str) -> (r: bool)
    ensures
        r == json_texts_equal(a@, b@),
{
    match (serde_json::from_str::<serde_json::Value>(a), serde_json::from_str::<serde_json::Value>(b)) {
        (Ok(x), Ok(y)) => x == y,
        _ => false,
    }
}

/// Two JSON values are the same value: numbers, arrays and objects, which
/// are held as their JSON text, are compared as `serde_json` compares them.
pub open spec fn json_same(a: JsonValue, b: JsonValue) -> bool {
    match (a, b) {
        (JsonValue::Null, JsonValue::Null) => true,
        (JsonValue::Bool(x), JsonValue::Bool(y)) => x == y,
        (JsonValue::Text(x), JsonValue::Text(y)) => x@ == y@,
        (JsonValue::Json(x), JsonValue::Json(y)) => json_texts_equal(x@, y@),
        _ => false,
    }
}

/// Two inputs have the same keys, with the same value under each key.
pub open spec fn inputs_match(a: Map<Seq<char>, JsonValue>, b: Map<Seq<char>, JsonValue>) -> bool {
    &&& a.dom() == b.dom()
    &&& forall|k: Seq<char>| #[trigger] a.dom().contains(k) ==> json_same(a[k], b[k])
}

/// The cached input `cached` where each key of `ignore` that the current
/// input `input` has takes the current value, in the order of `ignore`.
pub open spec fn ignored_replaced(
    cached: Map<Seq<char>, JsonValue>,
    input: Map<Seq<char>, JsonValue>,
    ignore: Seq<String>,
) -> Map<Seq<char>, JsonValue>
    decreases ignore.len(),
{
    if ignore.len() == 0 {
        cached
    } else {
        let prev = ignored_replaced(cached, input, ignore.drop_last());
        let k = ignore.last()@;
        if input.dom().contains(k) {
            prev.insert(k, input[k])
        } else {
            prev
        }
    }
}

/// A cached run was made with the input `input`: the cached input, once
/// the ignored keys take the current values, is the current input.
pub open spec fn cache_input_matches(
    input: Map<Seq<char>, JsonValue>,
    ignore: Seq<String>,
    cached: Map<Seq<char>, JsonValue>,
) -> bool {
    inputs_match(input, ignored_replaced(cached, input, ignore))
}

/// A key is in an input list exactly when some entry has it.
pub proof fn lemma_input_map_dom(v: Seq<(String, JsonValue)>, k: Seq<char>)
    ensures
        input_map(v).dom().contains(k) <==> exists|i: int| 0 <= i < v.len() && #[trigger] v[i].0@ == k,
    decreases v.len(),
{
    if v.len() > 0 {
        lemma_input_map_dom(v.drop_last(), k);
        if input_map(v).dom().contains(k) && v.last().0@ != k {
            let i = choose|i: int| 0 <= i < v.drop_last().len() && #[trigger] v.drop_last()[i].0@ == k;
            assert(v[i].0@ == k);
        }
        if exists|i: int| 0 <= i < v.len() && #[trigger] v[i].0@ == k {
            let i = choose|i: int| 0 <= i < v.len() && #[trigger] v[i].0@ == k;
            if i < v.len() - 1 {
                assert(v.drop_last()[i].0@ == k);
            }
        }
    }
}

/// The entry of `v` that gives the value of `key`: the last one with that
/// key, if any.
pub fn find_key(v: &[(String, JsonValue)], key: &str) -> (r: Option<usize>)
    ensures
        match r {
            Some(i) => i < v@.len() && v@[i as int].0@ == key@ && input_map(v@).dom().contains(key@)
                && input_map(v@)[key@] == v@[i as int].1,
            None => !input_map(v@).dom().contains(key@),
        },
{
    let mut found: Option<usize> = None;
    let mut i: usize = 0;
    while i < v.len()
        invariant
            i <= v@.len(),
            match found {
                Some(j) => j < i && v@[j as int].0@ == key@ && input_map(v@.take(i as int)).dom().contains(
                    key@,
                ) && input_map(v@.take(i as int))[key@] == v@[j as int].1,
                None => !input_map(v@.take(i as int)).dom().contains(key@),
            },
        decreases v@.len() - i,
    {
        assert(v@.take(i + 1).drop_last() =~= v@.take(i as int));
        assert(v@.take(i + 1).last() == v@[i as int]);
        if str_eq(v[i].0.as_str(), key) {
            found = Some(i);
        }
        i = i + 1;
    }
    assert(v@.take(v@.len() as int) =~= v@);
    found
}

/// Whether two JSON values are the same value.
pub fn json_equal(a: &JsonValue, b: &JsonValue) -> (r: bool)
    ensures
        r == json_same(*a, *b),
{
    match (a, b) {
        (JsonValue::Null, JsonValue::Null) => true,
        (JsonValue::Bool(x), JsonValue::Bool(y)) => *x == *y,
        (JsonValue::Text(x), JsonValue::Text(y)) => str_eq(x.as_str(), y.as_str()),
        (JsonValue::Json(x), JsonValue::Json(y)) => same_json_text(x.as_str(), y.as_str()),
        _ => false,
    }
}

/// Whether two input lists stand for the same input.
pub fn inputs_equal(a: &[(String, JsonValue)], b: &[(String, JsonValue)]) -> (r: bool)
    ensures
        r == inputs_match(input_map(a@), input_map(b@)),
{
    let ghost ma = input_map(a@);
    let ghost mb = input_map(b@);
    let mut i: usize = 0;
    while i < a.len()
        invariant
            i <= a@.len(),
            ma == input_map(a@),
            mb == input_map(b@),
            forall|j: int|
                0 <= j < i ==> mb.dom().contains(#[trigger] a@[j].0@) && ma.dom().contains(a@[j].0@)
                    && json_same(ma[a@[j].0@], mb[a@[j].0@]),
        decreases a@.len() - i,
    {
        proof {
            lemma_input_map_dom(a@, a@[i as int].0@);
        }
        let ka = find_key(a, a[i].0.as_str());
        let kb = find_key(b, a[i].0.as_str());
        match (ka, kb) {
            (Some(x), Some(y)) => {
                if !json_equal(&a[x].1, &b[y].1) {
                    return false;
                }
            },
            (Some(_), None) => {
                return false;
            },
            (None, _) => {
                assert(false);
                return false;
            },
        }
        i = i + 1;
    }
    let mut j: usize = 0;
    while j < b.len()
        invariant
            j <= b@.len(),
            ma == input_map(a@),
            mb == input_map(b@),
            forall|l: int| 0 <= l < j ==> #[trigger] ma.dom().contains(b@[l].0@),
        decreases b@.len() - j,
    {
        if find_key(a, b[j].0.as_str()).is_none() {
            proof {
                lemma_input_map_dom(b@, b@[j as int].0@);
                assert(mb.dom().contains(b@[j as int].0@));
            }
            return false;
        }
        j = j + 1;
    }
    proof {
        assert forall|k: Seq<char>| ma.dom().contains(k) implies mb.dom().contains(k) && json_same(
            ma[k],
            mb[k],
        ) by {
            lemma_input_map_dom(a@, k);
            let l = choose|l: int| 0 <= l < a@.len() && #[trigger] a@[l].0@ == k;
            assert(mb.dom().contains(a@[l].0@));
        }
        assert forall|k: Seq<char>| mb.dom().contains(k) implies ma.dom().contains(k) by {
            lemma_input_map_dom(b@, k);
            let l = choose|l: int| 0 <= l < b@.len() && #[trigger] b@[l].0@ == k;
            assert(ma.dom().contains(b@[l].0@));
        }
        assert(ma.dom() =~= mb.dom());
    }
    true
}

/// Give the keys of `cache_ignore` that the input has their current value
/// in the cached input.
pub fn replace_cache_ignored_value(
    cached_input: &mut Vec<(String, JsonValue)>,
    input: &[(String, JsonValue)],
    cache_ignore: &[String],
)
    ensures
        input_map(final(cached_input)@) == ignored_replaced(
            input_map(old(cached_input)@),
            input_map(input@),
            cache_ignore@,
        ),
{
    let ghost start = input_map(cached_input@);
    let mut i: usize = 0;
    while i < cache_ignore.len()
        invariant
            i <= cache_ignore@.len(),
            start == input_map(old(cached_input)@),
            input_map(cached_input@) == ignored_replaced(
                start,
                input_map(input@),
                cache_ignore@.take(i as int),
            ),
        decreases cache_ignore@.len() - i,
    {
        assert(cache_ignore@.take(i + 1).drop_last() =~= cache_ignore@.take(i as int));
        assert(cache_ignore@.take(i + 1).last() == cache_ignore@[i as int]);
        if let Some(k) = find_key(input, cache_ignore[i].as_str()) {
            let ghost before = cached_input@;
            cached_input.push((cache_ignore[i].clone(), input[k].1.copied()));
            assert(cached_input@.drop_last() =~= before);
        }
        i = i + 1;
    }
    assert(cache_ignore@.take(cache_ignore@.len() as int) =~= cache_ignore@);
}

/// `f`, handed a string that reads `arg`, gave `r`.
pub open spec fn answered<T, F: Fn(String) -> T>(f: F, arg: Seq<char>, r: T) -> bool {
    exists|p: String| p@ == arg && #[trigger] f.ensures((p,), r)
}

/// `copy`, handed `src` and `dst`, gave `r`.
pub open spec fn copied_to<C: Fn(String, String) -> Result<u64, String>>(
    copy: C,
    src: Seq<char>,
    dst: Seq<char>,
    r: Result<u64, String>,
) -> bool {
    exists|a: String, b: String| a@ == src && b@ == dst && #[trigger] copy.ensures((a, b), r)
}

/// `exists_fn` found every artifact (`found`), or missed one of them.
pub open spec fn artifacts_found<E: Fn(String) -> bool>(
    arts: Seq<Artifact>,
    exists_fn: E,
    found: bool,
) -> bool {
    if found {
        forall|i: int| 0 <= i < arts.len() ==> #[trigger] answered(exists_fn, arts[i].path@, true)
    } else {
        exists|i: int| 0 <= i < arts.len() && #[trigger] answered(exists_fn, arts[i].path@, false)
    }
}

/// What checking one cached run in `path` gives: the error of reading its
/// input; `false` when its input does not match; the error of reading its
/// output; otherwise whether all its artifacts exist.
pub open spec fn cache_entry_checked<
    RI: Fn(String) -> Result<Vec<(String, JsonValue)>, String>,
    RO: Fn(String) -> Result<TaskOutput, String>,
    E: Fn(String) -> bool,
>(
    path: Seq<char>,
    input: Map<Seq<char>, JsonValue>,
    ignore: Seq<String>,
    read_input: RI,
    read_output: RO,
    exists_fn: E,
    r: Result<bool, String>,
) -> bool {
    exists|ci: Result<Vec<(String, JsonValue)>, String>|
        #[trigger] answered(read_input, path, ci) && match ci {
            Err(e) => r == Err::<bool, String>(e),
            Ok(c) => if !cache_input_matches(input, ignore, input_map(c@)) {
                r == Ok::<bool, String>(false)
            } else {
                exists|o: Result<TaskOutput, String>|
                    #[trigger] answered(read_output, path, o) && match o {
                        Err(e) => r == Err::<bool, String>(e),
                        Ok(out) => r is Ok && artifacts_found(out.artifacts@, exists_fn, r->Ok_0),
                    }
            },
        }
}

/// Check one cached run in `path` against the input (see
/// `cache_entry_checked`).
pub fn compare_single_cache<
    RI: Fn(String) -> Result<Vec<(String, JsonValue)>, String>,
    RO: Fn(String) -> Result<TaskOutput, String>,
    E: Fn(String) -> bool,
>(
    path: &String,
    input: &[(String, JsonValue)],
    cache_ignore: &[String],
    read_input: &RI,
    read_output: &RO,
    exists_fn: &E,
) -> (r: Result<bool, String>)
    requires
        forall|p: String| read_input.requires((p,)),
        forall|p: String| read_output.requires((p,)),
        forall|p: String| exists_fn.requires((p,)),
    ensures
        cache_entry_checked(
            path@,
            input_map(input@),
            cache_ignore@,
            *read_input,
            *read_output,
            *exists_fn,
            r,
        ),
{
    let p1 = path.clone();
    let ghost g1 = p1;
    let ci = read_input(p1);
    let ghost ci_g = ci;
    assert(read_input.ensures((g1,), ci));
    assert(answered(*read_input, path@, ci));
    let mut cached_input = match ci {
        Err(e) => {
            return Err(e);
        },
        Ok(c) => c,
    };
    replace_cache_ignored_value(&mut cached_input, input, cache_ignore);
    if !inputs_equal(input, cached_input.as_slice()) {
        return Ok(false);
    }
    assert(cache_input_matches(input_map(input@), cache_ignore@, input_map(ci_g->Ok_0@)));
    let p2 = path.clone();
    let ghost g2 = p2;
    let o = read_output(p2);
    let ghost o_g = o;
    assert(read_output.ensures((g2,), o));
    assert(answered(*read_output, path@, o));
    let output = match o {
        Err(e) => {
            return Err(e);
        },
        Ok(out) => out,
    };
    let ghost arts = output.artifacts@;
    let mut i: usize = 0;
    while i < output.artifacts.len()
        invariant
            i <= arts.len(),
            arts == output.artifacts@,
            forall|p: String| exists_fn.requires((p,)),
            forall|j: int| 0 <= j < i ==> #[trigger] answered(*exists_fn, arts[j].path@, true),
            answered(*read_input, path@, ci_g),
            answered(*read_output, path@, o_g),
            o_g == Ok::<TaskOutput, String>(output),
            ci_g is Ok,
            cache_input_matches(input_map(input@), cache_ignore@, input_map(ci_g->Ok_0@)),
        decreases arts.len() - i,
    {
        let ap = output.artifacts[i].path.clone();
        let ghost ga = ap;
        let found = exists_fn(ap);
        assert(exists_fn.ensures((ga,), found));
        if !found {
            assert(answered(*exists_fn, arts[i as int].path@, false));
            return Ok(false);
        }
        assert(answered(*exists_fn, arts[i as int].path@, true));
        i = i + 1;
    }
    Ok(true)
}

/// The entry `entry` of a cache folder was passed over: it is no folder,
/// or the check of the cached run in it did not succeed.
pub open spec fn entry_rejected<
    D: Fn(String) -> bool,
    RI: Fn(String) -> Result<Vec<(String, JsonValue)>, String>,
    RO: Fn(String) -> Result<TaskOutput, String>,
    E: Fn(String) -> bool,
>(
    entry: Seq<char>,
    input: Map<Seq<char>, JsonValue>,
    ignore: Seq<String>,
    is_dir: D,
    read_input: RI,
    read_output: RO,
    exists_fn: E,
) -> bool {
    ||| answered(is_dir, entry, false)
    ||| answered(is_dir, entry, true) && exists|s: Result<bool, String>|
        s != Ok::<bool, String>(true) && #[trigger] cache_entry_checked(
            entry,
            input,
            ignore,
            read_input,
            read_output,
            exists_fn,
            s,
        )
}

/// The entry `entry` of a cache folder is a folder whose cached run
/// matches the input.
pub open spec fn entry_accepted<
    D: Fn(String) -> bool,
    RI: Fn(String) -> Result<Vec<(String, JsonValue)>, String>,
    RO: Fn(String) -> Result<TaskOutput, String>,
    E: Fn(String) -> bool,
>(
    entry: Seq<char>,
    input: Map<Seq<char>, JsonValue>,
    ignore: Seq<String>,
    is_dir: D,
    read_input: RI,
    read_output: RO,
    exists_fn: E,
) -> bool {
    &&& answered(is_dir, entry, true)
    &&& cache_entry_checked(
        entry,
        input,
        ignore,
        read_input,
        read_output,
        exists_fn,
        Ok::<bool, String>(true),
    )
}

/// What searching the cache folder `cache_path` gives: the error of
/// listing it; otherwise the first entry, in the order listed, that holds
/// a matching cached run, or none.
pub open spec fn cache_searched<
    L: Fn(String) -> Result<Vec<String>, String>,
    D: Fn(String) -> bool,
    RI: Fn(String) -> Result<Vec<(String, JsonValue)>, String>,
    RO: Fn(String) -> Result<TaskOutput, String>,
    E: Fn(String) -> bool,
>(
    cache_path: Seq<char>,
    input: Map<Seq<char>, JsonValue>,
    ignore: Seq<String>,
    list_dir: L,
    is_dir: D,
    read_input: RI,
    read_output: RO,
    exists_fn: E,
    r: Result<Option<String>, String>,
) -> bool {
    exists|l: Result<Vec<String>, String>|
        #[trigger] answered(list_dir, cache_path, l) && match l {
            Err(e) => r == Err::<Option<String>, String>(e),
            Ok(entries) => match r {
                Err(_) => false,
                Ok(None) => forall|i: int|
                    0 <= i < entries.len() ==> #[trigger] entry_rejected(
                        entries@[i]@,
                        input,
                        ignore,
                        is_dir,
                        read_input,
                        read_output,
                        exists_fn,
                    ),
                Ok(Some(p)) => exists|i: int|
                    0 <= i < entries.len() && p@ == entries@[i]@ && #[trigger] entry_accepted(
                        entries@[i]@,
                        input,
                        ignore,
                        is_dir,
                        read_input,
                        read_output,
                        exists_fn,
                    ) && forall|j: int|
                        0 <= j < i ==> #[trigger] entry_rejected(
                            entries@[j]@,
                            input,
                            ignore,
                            is_dir,
                            read_input,
                            read_output,
                            exists_fn,
                        ),
            },
        }
}

/// Find, in the cache folder of a task, a cached run made with the input
/// (see `cache_searched`).
pub fn compare_input_with_cache<
    L: Fn(String) -> Result<Vec<String>, String>,
    D: Fn(String) -> bool,
    RI: Fn(String) -> Result<Vec<(String, JsonValue)>, String>,
    RO: Fn(String) -> Result<TaskOutput, String>,
    E: Fn(String) -> bool,
>(
    input: &[(String, JsonValue)],
    cache_path: &String,
    cache_ignore: &[String],
    list_dir: &L,
    is_dir: &D,
    read_input: &RI,
    read_output: &RO,
    exists_fn: &E,
) -> (r: Result<Option<String>, String>)
    requires
        forall|p: String| list_dir.requires((p,)),
        forall|p: String| is_dir.requires((p,)),
        forall|p: String| read_input.requires((p,)),
        forall|p: String| read_output.requires((p,)),
        forall|p: String| exists_fn.requires((p,)),
    ensures
        cache_searched(
            cache_path@,
            input_map(input@),
            cache_ignore@,
            *list_dir,
            *is_dir,
            *read_input,
            *read_output,
            *exists_fn,
            r,
        ),
{
    let ghost m = input_map(input@);
    let lp = cache_path.clone();
    let ghost gl = lp;
    let l = list_dir(lp);
    let ghost l_g = l;
    assert(list_dir.ensures((gl,), l));
    assert(answered(*list_dir, cache_path@, l));
    let entries = match l {
        Err(e) => {
            return Err(e);
        },
        Ok(v) => v,
    };
    let mut i: usize = 0;
    while i < entries.len()
        invariant
            i <= entries@.len(),
            m == input_map(input@),
            l_g == Ok::<Vec<String>, String>(entries),
            answered(*list_dir, cache_path@, l_g),
            forall|p: String| is_dir.requires((p,)),
            forall|p: String| read_input.requires((p,)),
            forall|p: String| read_output.requires((p,)),
            forall|p: String| exists_fn.requires((p,)),
            forall|j: int|
                0 <= j < i ==> #[trigger] entry_rejected(
                    entries@[j]@,
                    m,
                    cache_ignore@,
                    *is_dir,
                    *read_input,
                    *read_output,
                    *exists_fn,
                ),
        decreases entries@.len() - i,
    {
        let ep = entries[i].clone();
        let ghost ge = ep;
        let d = is_dir(ep);
        assert(is_dir.ensures((ge,), d));
        assert(answered(*is_dir, entries@[i as int]@, d));
        if d {
            let s = compare_single_cache(
                &entries[i],
                input,
                cache_ignore,
                read_input,
                read_output,
                exists_fn,
            );
            match s {
                Ok(true) => {
                    let found = entries[i].clone();
                    assert(entry_accepted(
                        entries@[i as int]@,
                        m,
                        cache_ignore@,
                        *is_dir,
                        *read_input,
                        *read_output,
                        *exists_fn,
                    ));
                    let r = Ok(Some(found));
                    assert(l_g->Ok_0@ == entries@);
                    return r;
                },
                _ => {
                    assert(entry_rejected(
                        entries@[i as int]@,
                        m,
                        cache_ignore@,
                        *is_dir,
                        *read_input,
                        *read_output,
                        *exists_fn,
                    ));
                },
            }
        } else {
            assert(entry_rejected(
                entries@[i as int]@,
                m,
                cache_ignore@,
                *is_dir,
                *read_input,
                *read_output,
                *exists_fn,
            ));
        }
        i = i + 1;
    }
    Ok(None)
}

/// What validating the cache gives: a matching cached run was found in
/// `cache_path` and copied into `dst_path`.
pub open spec fn cache_validated<
    L: Fn(String) -> Result<Vec<String>, String>,
    D: Fn(String) -> bool,
    RI: Fn(String) -> Result<Vec<(String, JsonValue)>, String>,
    RO: Fn(String) -> Result<TaskOutput, String>,
    E: Fn(String) -> bool,
    C: Fn(String, String) -> Result<u64, String>,
>(
    cache_path: Seq<char>,
    dst_path: Seq<char>,
    input: Map<Seq<char>, JsonValue>,
    ignore: Seq<String>,
    list_dir: L,
    is_dir: D,
    read_input: RI,
    read_output: RO,
    exists_fn: E,
    copy: C,
    r: bool,
) -> bool {
    exists|s: Result<Option<String>, String>|
        #[trigger] cache_searched(
            cache_path,
            input,
            ignore,
            list_dir,
            is_dir,
            read_input,
            read_output,
            exists_fn,
            s,
        ) && match s {
            Ok(Some(p)) => exists|c: Result<u64, String>|
                #[trigger] copied_to(copy, p@, dst_path, c) && r == c is Ok,
            _ => !r,
        }
}

/// Look for a cached run made with the input and copy it into
/// `dst_path` (see `cache_validated`).
pub fn validate_cache<
    L: Fn(String) -> Result<Vec<String>, String>,
    D: Fn(String) -> bool,
    RI: Fn(String) -> Result<Vec<(String, JsonValue)>, String>,
    RO: Fn(String) -> Result<TaskOutput, String>,
    E: Fn(String) -> bool,
    C: Fn(String, String) -> Result<u64, String>,
>(
    input: &[(String, JsonValue)],
    cache_path: &String,
    dst_path: &String,
    cache_ignore: &[String],
    list_dir: &L,
    is_dir: &D,
    read_input: &RI,
    read_output: &RO,
    exists_fn: &E,
    copy: &C,
) -> (r: bool)
    requires
        forall|p: String| list_dir.requires((p,)),
        forall|p: String| is_dir.requires((p,)),
        forall|p: String| read_input.requires((p,)),
        forall|p: String| read_output.requires((p,)),
        forall|p: String| exists_fn.requires((p,)),
        forall|a: String, b: String| copy.requires((a, b)),
    ensures
        cache_validated(
            cache_path@,
            dst_path@,
            input_map(input@),
            cache_ignore@,
            *list_dir,
            *is_dir,
            *read_input,
            *read_output,
            *exists_fn,
            *copy,
            r,
        ),
{
    let s = compare_input_with_cache(
        input,
        cache_path,
        cache_ignore,
        list_dir,
        is_dir,
        read_input,
        read_output,
        exists_fn,
    );
    match s {
        Ok(Some(path)) => {
            let ghost gp = path;
            let dst = dst_path.clone();
            let ghost gd = dst;
            let c = copy(path, dst);
            assert(copy.ensures((gp, gd), c));
            assert(copied_to(*copy, gp@, dst_path@, c));
            c.is_ok()
        },
        _ => false,
    }
}

/// The task takes the output of a parent as input, so its input is known
/// only when it runs.
pub open spec fn is_dynamic(parents: Seq<Parent>) -> bool {
    exists|i: int| 0 <= i < parents.len() && (#[trigger] parents[i]).kind is Output
}

/// Whether some parent of the task hands it its output.
pub fn has_output_parent(parents: &[Parent]) -> (r: bool)
    ensures
        r == is_dynamic(parents@),
{
    let mut i: usize = 0;
    while i < parents.len()
        invariant
            i <= parents@.len(),
            forall|j: int| 0 <= j < i ==> !((#[trigger] parents@[j]).kind is Output),
        decreases parents@.len() - i,
    {
        if let ParentKind::Output { .. } = &parents[i].kind {
            assert(parents@[i as int].kind is Output);
            return true;
        }
        i = i + 1;
    }
    false
}

/// Check, before a run, whether a cacheable task would be taken from the
/// cache: a task with no dynamic input whose static input `input` matches
/// a cached run.
pub fn check_caching<
    L: Fn(String) -> Result<Vec<String>, String>,
    D: Fn(String) -> bool,
    RI: Fn(String) -> Result<Vec<(String, JsonValue)>, String>,
    RO: Fn(String) -> Result<TaskOutput, String>,
    E: Fn(String) -> bool,
>(
    task: &Task,
    cfg: &Cfg,
    input: &[(String, JsonValue)],
    list_dir: &L,
    is_dir: &D,
    read_input: &RI,
    read_output: &RO,
    exists_fn: &E,
) -> (r: bool)
    requires
        forall|p: String| list_dir.requires((p,)),
        forall|p: String| is_dir.requires((p,)),
        forall|p: String| read_input.requires((p,)),
        forall|p: String| read_output.requires((p,)),
        forall|p: String| exists_fn.requires((p,)),
    ensures
        !task.cache || is_dynamic(task.parents@) ==> !r,
        task.cache && !is_dynamic(task.parents@) ==> exists|s: Result<Option<String>, String>|
            #[trigger] cache_searched(
                task_cache_path(*task, cfg.cachedir@, cfg.local_cachedir@),
                input_map(input@),
                task.cache_ignore@,
                *list_dir,
                *is_dir,
                *read_input,
                *read_output,
                *exists_fn,
                s,
            ) && r == (s matches Ok(Some(_))),
{
    if !task.cache {
        return false;
    }
    if has_output_parent(task.parents.as_slice()) {
        return false;
    }
    let cache_path = get_task_cache_path(task, cfg);
    let s = compare_input_with_cache(
        input,
        &cache_path,
        task.cache_ignore.as_slice(),
        list_dir,
        is_dir,
        read_input,
        read_output,
        exists_fn,
    );
    match s {
        Ok(Some(_)) => true,
        _ => false,
    }
}

/// What validating the cache of a task before it runs gives: nothing for
/// a task that is not cached; otherwise its input is read from its parents
/// and, if that succeeds, the cache is validated into its node directory.
pub open spec fn task_cache_validated<
    R: Fn(String) -> Result<JsonValue, String>,
    L: Fn(String) -> Result<Vec<String>, String>,
    D: Fn(String) -> bool,
    RI: Fn(String) -> Result<Vec<(String, JsonValue)>, String>,
    RO: Fn(String) -> Result<TaskOutput, String>,
    E: Fn(String) -> bool,
    C: Fn(String, String) -> Result<u64, String>,
>(
    task: Task,
    cfg: Cfg,
    read: R,
    list_dir: L,
    is_dir: D,
    read_input: RI,
    read_output: RO,
    exists_fn: E,
    copy: C,
    r: bool,
) -> bool {
    if !task.cache {
        !r
    } else {
        exists|inp: Result<Vec<(String, JsonValue)>, String>|
            #[trigger] input_read(task, cfg.dagdir@, read, inp) && match inp {
                Err(_) => !r,
                Ok(v) => cache_validated(
                    task_cache_path(task, cfg.cachedir@, cfg.local_cachedir@),
                    node_dir(cfg.dagdir@, task.uid as nat),
                    input_map(v@),
                    task.cache_ignore@,
                    list_dir,
                    is_dir,
                    read_input,
                    read_output,
                    exists_fn,
                    copy,
                    r,
                ),
            }
    }
}

/// Validate the cache of a task before it runs (see
/// `task_cache_validated`). When the cache is used, its folder is touched
/// by `touch`, whose failure does not change the answer.
pub fn submit_validate_cache<
    R: Fn(String) -> Result<JsonValue, String>,
    L: Fn(String) -> Result<Vec<String>, String>,
    D: Fn(String) -> bool,
    RI: Fn(String) -> Result<Vec<(String, JsonValue)>, String>,
    RO: Fn(String) -> Result<TaskOutput, String>,
    E: Fn(String) -> bool,
    C: Fn(String, String) -> Result<u64, String>,
    T: Fn(String) -> Result<(), String>,
>(
    task: &Task,
    cfg: &Cfg,
    read: &R,
    list_dir: &L,
    is_dir: &D,
    read_input: &RI,
    read_output: &RO,
    exists_fn: &E,
    copy: &C,
    touch: &T,
) -> (r: bool)
    requires
        forall|p: String| read.requires((p,)),
        forall|p: String| list_dir.requires((p,)),
        forall|p: String| is_dir.requires((p,)),
        forall|p: String| read_input.requires((p,)),
        forall|p: String| read_output.requires((p,)),
        forall|p: String| exists_fn.requires((p,)),
        forall|a: String, b: String| copy.requires((a, b)),
        forall|p: String| touch.requires((p,)),
    ensures
        task_cache_validated(
            *task,
            *cfg,
            *read,
            *list_dir,
            *is_dir,
            *read_input,
            *read_output,
            *exists_fn,
            *copy,
            r,
        ),
        r ==> exists|t: Result<(), String>|
            #[trigger] answered(*touch, task_cache_path(*task, cfg.cachedir@, cfg.local_cachedir@), t),
{
    if !task.cache {
        return false;
    }
    let inp = read_input_from_parents(task, cfg.dagdir.as_str(), read);
    let input = match inp {
        Err(_) => {
            return false;
        },
        Ok(v) => v,
    };
    let dst_path = get_node_dir(cfg.dagdir.as_str(), task.uid);
    let cache_path = get_task_cache_path(task, cfg);
    let res = validate_cache(
        input.as_slice(),
        &cache_path,
        &dst_path,
        task.cache_ignore.as_slice(),
        list_dir,
        is_dir,
        read_input,
        read_output,
        exists_fn,
        copy,
    );
    if res {
        let ghost gc = cache_path;
        let t = touch(cache_path);
        assert(touch.ensures((gc,), t));
        assert(answered(*touch, gc@, t));
    }
    res
}

/// Names of artifacts, separated by a comma and a space.
pub open spec fn artifact_names(artifacts: Seq<Artifact>) -> Seq<char>
    decreases artifacts.len(),
{
    if artifacts.len() == 0 {
        Seq::empty()
    } else if artifacts.len() == 1 {
        artifacts[0].name@
    } else {
        artifact_names(artifacts.drop_last()) + ", "@ + artifacts.last().name@
    }
}

/// Names of artifacts, separated by a comma and a space.
pub fn get_artifacts(artifacts: &[Artifact]) -> (r: String)
    ensures
        r@ == artifact_names(artifacts@),
{
    let mut r = String::new();
    let mut i: usize = 0;
    while i < artifacts.len()
        invariant
            i <= artifacts@.len(),
            r@ == artifact_names(artifacts@.take(i as int)),
        decreases artifacts@.len() - i,
    {
        assert(artifacts@.take(i + 1).drop_last() =~= artifacts@.take(i as int));
        assert(artifacts@.take(i + 1).last() == artifacts@[i as int]);
        if i > 0 {
            r.append(", ");
        }
        r.append(artifacts[i].name.as_str());
        i = i + 1;
    }
    assert(artifacts@.take(artifacts@.len() as int) =~= artifacts@);
    r
}

/// `remove` succeeded on the folder `p`.
pub open spec fn removed<X: Fn(String) -> Result<(), String>>(remove: X, p: Seq<char>) -> bool {
    exists|x: Result<(), String>| x is Ok && #[trigger] answered(remove, p, x)
}

/// `remove` succeeded on each of the first `n` folders of `dirs`.
pub open spec fn removed_first<X: Fn(String) -> Result<(), String>>(
    dirs: Seq<String>,
    n: int,
    remove: X,
) -> bool {
    forall|i: int| 0 <= i < n ==> #[trigger] removed(remove, dirs[i]@)
}

/// What dropping old cached runs in `base` gives, before one is added: a
/// missing folder is left alone; otherwise its runs are listed, oldest
/// first, and as many of the oldest are removed as keep at most
/// `cache_size` runs with the new one (0: no limit). The first error of
/// the listing or of a removal is returned.
pub open spec fn old_cache_deleted<
    D: Fn(String) -> bool,
    S: Fn(String) -> Result<Vec<String>, String>,
    X: Fn(String) -> Result<(), String>,
>(base: Seq<char>, cache_size: usize, is_dir: D, subfolders: S, remove: X, r: Result<(), String>) -> bool {
    ||| answered(is_dir, base, false) && r is Ok
    ||| answered(is_dir, base, true) && exists|l: Result<Vec<String>, String>|
        #[trigger] answered(subfolders, base, l) && match l {
            Err(e) => r == Err::<(), String>(e),
            Ok(dirs) => {
                let n = folders_to_delete(dirs@.len(), cache_size as nat);
                match r {
                    Ok(_) => removed_first(dirs@, n as int, remove),
                    Err(e) => exists|k: int|
                        0 <= k < n && removed_first(dirs@, k, remove) && #[trigger] answered(
                            remove,
                            dirs@[k]@,
                            Err::<(), String>(e),
                        ),
                }
            },
        }
}

/// Drop the oldest cached runs of a task (see `old_cache_deleted`).
pub fn delete_old_cache<
    D: Fn(String) -> bool,
    S: Fn(String) -> Result<Vec<String>, String>,
    X: Fn(String) -> Result<(), String>,
>(base_dst_path: &String, cache_size: usize, is_dir: &D, subfolders: &S, remove: &X) -> (r: Result<
    (),
    String,
>)
    requires
        forall|p: String| is_dir.requires((p,)),
        forall|p: String| subfolders.requires((p,)),
        forall|p: String| remove.requires((p,)),
    ensures
        old_cache_deleted(base_dst_path@, cache_size, *is_dir, *subfolders, *remove, r),
{
    let bp = base_dst_path.clone();
    let ghost gb = bp;
    let d = is_dir(bp);
    assert(is_dir.ensures((gb,), d));
    assert(answered(*is_dir, base_dst_path@, d));
    if !d {
        return Ok(());
    }
    let sp = base_dst_path.clone();
    let ghost gs = sp;
    let l = subfolders(sp);
    let ghost l_g = l;
    assert(subfolders.ensures((gs,), l));
    assert(answered(*subfolders, base_dst_path@, l));
    let dirs = match l {
        Err(e) => {
            return Err(e);
        },
        Ok(v) => v,
    };
    let ndel = count_folders_to_delete(dirs.len(), cache_size);
    let mut i: usize = 0;
    while i < ndel
        invariant
            i <= ndel <= dirs@.len(),
            ndel == folders_to_delete(dirs@.len(), cache_size as nat),
            l_g == Ok::<Vec<String>, String>(dirs),
            answered(*is_dir, base_dst_path@, true),
            answered(*subfolders, base_dst_path@, l_g),
            forall|p: String| remove.requires((p,)),
            removed_first(dirs@, i as int, *remove),
        decreases ndel - i,
    {
        let dp = dirs[i].clone();
        let ghost gd = dp;
        let x = remove(dp);
        let ghost gx = x;
        assert(remove.ensures((gd,), x));
        assert(answered(*remove, dirs@[i as int]@, x));
        if let Err(e) = x {
            assert(l_g->Ok_0@ == dirs@);
            return Err(e);
        }
        assert(gx is Ok);
        assert(removed(*remove, dirs@[i as int]@));
        i = i + 1;
    }
    assert(l_g->Ok_0@ == dirs@);
    Ok(())
}

/// What saving a run into the cache gives: old runs are dropped (see
/// `old_cache_deleted`), then the node directory `src` is copied into a
/// new folder of `base`, named by a fresh random id of 36 characters.
pub open spec fn cache_saved<
    D: Fn(String) -> bool,
    S: Fn(String) -> Result<Vec<String>, String>,
    X: Fn(String) -> Result<(), String>,
    C: Fn(String, String) -> Result<u64, String>,
>(
    src: Seq<char>,
    base: Seq<char>,
    cache_size: usize,
    is_dir: D,
    subfolders: S,
    remove: X,
    copy: C,
    r: Result<u64, String>,
) -> bool {
    exists|d: Result<(), String>|
        #[trigger] old_cache_deleted(base, cache_size, is_dir, subfolders, remove, d) && match d {
            Err(e) => r == Err::<u64, String>(e),
            Ok(_) => exists|h: Seq<char>|
                h.len() == 36 && #[trigger] copied_to(copy, src, path_join(base, h), r),
        }
}

/// Save the run of a task into its cache (see `cache_saved`).
pub fn find_and_save_cache<
    D: Fn(String) -> bool,
    S: Fn(String) -> Result<Vec<String>, String>,
    X: Fn(String) -> Result<(), String>,
    C: Fn(String, String) -> Result<u64, String>,
>(
    src_path: &String,
    base_dst_path: &String,
    cache_size: usize,
    is_dir: &D,
    subfolders: &S,
    remove: &X,
    copy: &C,
) -> (r: Result<u64, String>)
    requires
        forall|p: String| is_dir.requires((p,)),
        forall|p: String| subfolders.requires((p,)),
        forall|p: String| remove.requires((p,)),
        forall|a: String, b: String| copy.requires((a, b)),
    ensures
        cache_saved(
            src_path@,
            base_dst_path@,
            cache_size,
            *is_dir,
            *subfolders,
            *remove,
            *copy,
            r,
        ),
{
    let hash = new_uuid_string();
    let dst_path = join_path(base_dst_path.as_str(), hash.as_str());
    let d = delete_old_cache(base_dst_path, cache_size, is_dir, subfolders, remove);
    if let Err(e) = d {
        return Err(e);
    }
    let src = src_path.clone();
    let ghost (gs, gd) = (src, dst_path);
    let r = copy(src, dst_path);
    assert(copy.ensures((gs, gd), r));
    assert(copied_to(*copy, src_path@, path_join(base_dst_path@, hash@), r));
    r
}

} // verus!
