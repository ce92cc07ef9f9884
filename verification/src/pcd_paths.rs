use vstd::prelude::*;
use crate::text::{parse_u32, parse_u32_spec, strip_prefix, strip_prefix_spec};
use crate::order::{stable_order, stably_sorts, key_before, lemma_stable_order_unique, lemma_sorted_keys_keep_order};

verus! {

/// What `Path::extension` gives for a path written as text: the part of the
/// file name after its last dot, if the name has one that does not start it.
pub uninterp spec fn extension_of(path: Seq<char>) -> Option<Seq<char>>;

/// What `Path::file_stem` gives for a path written as text: the file name
/// without its extension, if the path has a file name.
pub uninterp spec fn file_stem_of(path: Seq<char>) -> Option<Seq<char>>;

/// `std::path::Path::extension` of the path, as text. A path given as text has
/// an extension that is text too, so the conversion never loses it.
#[verifier::external_body]
fn path_extension(path: &str) -> (ext: Option<String>)
    ensures
        ext matches Some(e) ==> extension_of(path@) == Some(e@),
        ext is None ==> extension_of(path@) is None,
{
    std::path::Path::new(path).extension().and_then(|e| e.to_str()).map(|e| e.to_string())
}

/// `std::path::Path::file_stem` of the path, as text. A path given as text has
/// a stem that is text too, so the conversion never loses it.
#[verifier::external_body]
fn path_file_stem(path: &str) -> (stem: Option<String>)
    ensures
        stem matches Some(s) ==> file_stem_of(path@) == Some(s@),
        stem is None ==> file_stem_of(path@) is None,
{
    std::path::Path::new(path).file_stem().and_then(|s| s.to_str()).map(|s| s.to_string())
}

/// Whether two strings hold the same characters.
pub fn str_eq(a: &str, b: &str) -> (eq: bool)
    ensures
        eq == (a@ == b@),
{
    let n = a.unicode_len();
    if n != b.unicode_len() {
        return false;
    }
    let mut i: usize = 0;
    while i < n
        invariant
            i <= n,
            n == a@.len(),
            n == b@.len(),
            forall|j: int| 0 <= j < i ==> a@[j] == b@[j],
        decreases n - i,
    {
        if a.get_char(i) != b.get_char(i) {
            return false;
        }
        i = i + 1;
    }
    assert(a@ =~= b@);
    true
}

/// The extension of point-cloud files.
pub open spec fn pcd_extension() -> Seq<char> {
    seq!['p', 'c', 'd']
}

/// A path names a point-cloud file: its extension is exactly `pcd`.
pub open spec fn is_pcd_path(path: Seq<char>) -> bool {
    extension_of(path) == Some(pcd_extension())
}

/// Whether an extension, as `Path::extension` gives it, is `pcd`.
pub fn is_pcd_extension(ext: Option<&str>) -> (b: bool)
    ensures
        b == (ext matches Some(e) && e@ == pcd_extension()),
{
    match ext {
        Some(e) => {
            let pcd = "pcd";
            proof {
                reveal_strlit("pcd");
                assert(pcd@ =~= pcd_extension());
            }
            str_eq(e, pcd)
        },
        None => false,
    }
}

/// Whether a path names a point-cloud file.
pub fn is_pcd_file(path: &str) -> (b: bool)
    ensures
        b == is_pcd_path(path@),
{
    let ext = path_extension(path);
    match ext {
        Some(e) => is_pcd_extension(Some(e.as_str())),
        None => is_pcd_extension(None),
    }
}

/// The number a file stem carries after `<data_type>_`, or 0 when the stem is
/// missing, does not start that way, or the rest is not a `u32`.
pub open spec fn key_from_stem(stem: Option<Seq<char>>, data_type: Seq<char>) -> u32 {
    let name = match stem {
        Some(s) => s,
        None => Seq::empty(),
    };
    match strip_prefix_spec(name, data_type.push('_')) {
        Some(rest) => match parse_u32_spec(rest) {
            Some(v) => v,
            None => 0,
        },
        None => 0,
    }
}

/// The key a point-cloud path is ordered by.
pub open spec fn path_key(path: Seq<char>, data_type: Seq<char>) -> u32 {
    key_from_stem(file_stem_of(path), data_type)
}

/// The number a file stem (as `Path::file_stem` gives it) carries after
/// `<data_type>_`; 0 when there is none.
pub fn sort_key_from_stem(stem: Option<&str>, data_type: &str) -> (key: u32)
    ensures
        key == key_from_stem(match stem { Some(s) => Some(s@), None => None }, data_type@),
{
    let name: &str = match stem {
        Some(s) => s,
        None => "",
    };
    proof {
        reveal_strlit("");
    }
    let mut prefix = data_type.to_owned();
    let underscore = "_";
    proof {
        reveal_strlit("_");
    }
    prefix.append(underscore);
    assert(prefix@ =~= data_type@.push('_'));
    match strip_prefix(name, prefix.as_str()) {
        Some(rest) => match parse_u32(rest) {
            Some(v) => v,
            None => 0,
        },
        None => 0,
    }
}

/// The key a point-cloud path is ordered by: the number after
/// `<data_type>_` in its file stem, or 0.
pub fn pcd_sort_key(path: &str, data_type: &str) -> (key: u32)
    ensures
        key == path_key(path@, data_type@),
{
    let stem = path_file_stem(path);
    match stem {
        Some(s) => sort_key_from_stem(Some(s.as_str()), data_type),
        None => sort_key_from_stem(None, data_type),
    }
}

/// The point-cloud paths among `paths`, in their order.
pub open spec fn pcd_paths_of(paths: Seq<String>) -> Seq<String> {
    paths.filter(|p: String| is_pcd_path(p@))
}

/// The keys of `paths`, one per path.
pub open spec fn keys_of(paths: Seq<String>, data_type: Seq<char>) -> Seq<u32> {
    paths.map_values(|p: String| path_key(p@, data_type))
}

/// `output` is `input` sorted stably by path key.
pub open spec fn sorted_by_path_key(input: Seq<String>, output: Seq<String>, data_type: Seq<char>) -> bool {
    exists|order: Seq<usize>| #[trigger] stably_sorts(keys_of(input, data_type), order)
        && output == order.map_values(|i: usize| input[i as int])
}

/// Keeps the paths that name point-cloud files, in their order.
pub fn select_pcd_paths(paths: &Vec<String>) -> (selected: Vec<String>)
    ensures
        selected@ == pcd_paths_of(paths@),
{
    let mut selected: Vec<String> = Vec::new();
    let mut i: usize = 0;
    while i < paths.len()
        invariant
            i <= paths@.len(),
            selected@ == pcd_paths_of(paths@.take(i as int)),
        decreases paths@.len() - i,
    {
        proof {
            reveal_with_fuel(Seq::<_>::filter, 1);
            assert(paths@.take(i + 1).drop_last() =~= paths@.take(i as int));
            assert(paths@.take(i + 1).last() == paths@[i as int]);
        }
        if is_pcd_file(paths[i].as_str()) {
            selected.push(paths[i].clone());
        }
        i = i + 1;
    }
    assert(paths@.take(paths@.len() as int) =~= paths@);
    selected
}

/// Sorts paths stably by their key (see `pcd_sort_key`).
pub fn sort_paths_by_key(paths: &Vec<String>, data_type: &str) -> (sorted: Vec<String>)
    ensures
        sorted_by_path_key(paths@, sorted@, data_type@),
{
    let mut keys: Vec<u32> = Vec::new();
    let mut i: usize = 0;
    while i < paths.len()
        invariant
            i <= paths@.len(),
            keys@ == keys_of(paths@.take(i as int), data_type@),
        decreases paths@.len() - i,
    {
        let k = pcd_sort_key(paths[i].as_str(), data_type);
        keys.push(k);
        assert(keys_of(paths@.take(i + 1), data_type@) =~= keys_of(paths@.take(i as int), data_type@).push(k));
        i = i + 1;
    }
    assert(paths@.take(paths@.len() as int) =~= paths@);
    let order = stable_order(&keys);
    let mut sorted: Vec<String> = Vec::new();
    let mut j: usize = 0;
    while j < order.len()
        invariant
            j <= order@.len(),
            stably_sorts(keys@, order@),
            keys@.len() == paths@.len(),
            sorted@ =~= order@.take(j as int).map_values(|q: usize| paths@[q as int]),
        decreases order@.len() - j,
    {
        let q = order[j];
        sorted.push(paths[q].clone());
        assert(order@.take(j + 1) =~= order@.take(j as int).push(q));
        j = j + 1;
    }
    assert(order@.take(order@.len() as int) =~= order@);
    assert(stably_sorts(keys_of(paths@, data_type@), order@));
    sorted
}

/// The point-cloud files among the entries of a directory, ordered by the
/// number after `<data_type>_` in their file stems (files without one count
/// as 0); files with equal numbers keep the order they were listed in.
pub fn order_pcd_paths(entries: &Vec<String>, data_type: &str) -> (ordered: Vec<String>)
    ensures
        sorted_by_path_key(pcd_paths_of(entries@), ordered@, data_type@),
{
    let selected = select_pcd_paths(entries);
    sort_paths_by_key(&selected, data_type)
}

/// Selection keeps exactly the point-cloud paths: every path it returns names
/// a point-cloud file, and every point-cloud path of the input is among them.
pub proof fn lemma_selection_keeps_pcd_paths(paths: Seq<String>)
    ensures
        forall|i: int| 0 <= i < pcd_paths_of(paths).len() ==> is_pcd_path(#[trigger] pcd_paths_of(paths)[i]@),
        forall|i: int| 0 <= i < paths.len() && is_pcd_path(paths[i]@) ==> #[trigger] pcd_paths_of(paths).contains(paths[i]),
        forall|x: String| #[trigger] pcd_paths_of(paths).contains(x) ==> paths.contains(x),
        pcd_paths_of(paths).len() <= paths.len(),
{
    let pred = |p: String| is_pcd_path(p@);
    assert forall|i: int| 0 <= i < pcd_paths_of(paths).len() implies is_pcd_path(#[trigger] pcd_paths_of(paths)[i]@) by {
        paths.lemma_filter_pred(pred, i);
    }
    assert forall|i: int| 0 <= i < paths.len() && is_pcd_path(paths[i]@) implies #[trigger] pcd_paths_of(paths).contains(paths[i]) by {
        paths.lemma_filter_contains(pred, i);
    }
    assert forall|x: String| #[trigger] pcd_paths_of(paths).contains(x) implies paths.contains(x) by {
        paths.lemma_filter_contains_rev(pred, x);
    }
    paths.lemma_filter_len(pred);
}

/// Sorting by key rearranges the paths without adding or losing any, and
/// leaves their keys in ascending order.
pub proof fn lemma_sorted_paths_rearrange(input: Seq<String>, output: Seq<String>, data_type: Seq<char>)
    requires
        input.len() <= usize::MAX,
        sorted_by_path_key(input, output, data_type),
    ensures
        output.len() == input.len(),
        forall|i: int, j: int| 0 <= i <= j < output.len() ==> path_key(#[trigger] output[i]@, data_type) <= path_key(#[trigger] output[j]@, data_type),
        forall|x: String| #[trigger] input.contains(x) ==> output.contains(x),
        forall|x: String| #[trigger] output.contains(x) ==> input.contains(x),
{
    let keys = keys_of(input, data_type);
    let order = choose|order: Seq<usize>| #[trigger] stably_sorts(keys, order)
        && output == order.map_values(|i: usize| input[i as int]);
    assert forall|i: int, j: int| 0 <= i <= j < output.len() implies path_key(#[trigger] output[i]@, data_type) <= path_key(#[trigger] output[j]@, data_type) by {
        assert(output[i] == input[order[i] as int]);
        assert(output[j] == input[order[j] as int]);
        assert(keys[order[i] as int] == path_key(input[order[i] as int]@, data_type));
        assert(keys[order[j] as int] == path_key(input[order[j] as int]@, data_type));
        if i < j {
            assert(key_before(keys, order[i] as int, order[j] as int));
        }
    }
    assert forall|x: String| #[trigger] input.contains(x) implies output.contains(x) by {
        let k = choose|k: int| 0 <= k < input.len() && input[k] == x;
        assert(order.contains(k as usize));
        let q = choose|q: int| 0 <= q < order.len() && order[q] == k as usize;
        assert(order[q] as int == k);
        assert(output[q] == input[order[q] as int]);
    }
    assert forall|x: String| #[trigger] output.contains(x) implies input.contains(x) by {
        let q = choose|q: int| 0 <= q < output.len() && output[q] == x;
        assert(output[q] == input[order[q] as int]);
    }
}

/// Sorting by key has one outcome: two sorted arrangements of the same paths
/// are the same.
pub proof fn lemma_sorted_paths_unique(input: Seq<String>, a: Seq<String>, b: Seq<String>, data_type: Seq<char>)
    requires
        sorted_by_path_key(input, a, data_type),
        sorted_by_path_key(input, b, data_type),
    ensures
        a == b,
{
    let keys = keys_of(input, data_type);
    let oa = choose|order: Seq<usize>| #[trigger] stably_sorts(keys, order)
        && a == order.map_values(|i: usize| input[i as int]);
    let ob = choose|order: Seq<usize>| #[trigger] stably_sorts(keys, order)
        && b == order.map_values(|i: usize| input[i as int]);
    lemma_stable_order_unique(keys, oa, ob);
}

proof fn lemma_selection_of_pcd_paths_is_identity(paths: Seq<String>)
    requires
        forall|i: int| 0 <= i < paths.len() ==> is_pcd_path(#[trigger] paths[i]@),
    ensures
        pcd_paths_of(paths) == paths,
    decreases paths.len(),
{
    reveal_with_fuel(Seq::<_>::filter, 1);
    if paths.len() > 0 {
        let rest = paths.drop_last();
        assert forall|i: int| 0 <= i < rest.len() implies is_pcd_path(#[trigger] rest[i]@) by {
            assert(rest[i] == paths[i]);
        }
        lemma_selection_of_pcd_paths_is_identity(rest);
        assert(is_pcd_path(paths.last()@));
        assert(rest.push(paths.last()) =~= paths);
    } else {
        assert(paths.filter(|p: String| is_pcd_path(p@)) == paths);
    }
}

/// Ordering the point-cloud paths of a directory listing a second time
/// changes nothing.
pub proof fn lemma_ordering_is_idempotent(entries: Seq<String>, once: Seq<String>, twice: Seq<String>, data_type: Seq<char>)
    requires
        entries.len() <= usize::MAX,
        sorted_by_path_key(pcd_paths_of(entries), once, data_type),
        sorted_by_path_key(pcd_paths_of(once), twice, data_type),
    ensures
        twice == once,
{
    lemma_selection_keeps_pcd_paths(entries);
    lemma_sorted_paths_rearrange(pcd_paths_of(entries), once, data_type);
    assert forall|i: int| 0 <= i < once.len() implies is_pcd_path(#[trigger] once[i]@) by {
        assert(once.contains(once[i]));
        assert(pcd_paths_of(entries).contains(once[i]));
        let k = choose|k: int| 0 <= k < pcd_paths_of(entries).len() && pcd_paths_of(entries)[k] == once[i];
        assert(is_pcd_path(pcd_paths_of(entries)[k]@));
    }
    lemma_selection_of_pcd_paths_is_identity(once);
    let keys = keys_of(once, data_type);
    let order = choose|order: Seq<usize>| #[trigger] stably_sorts(keys, order)
        && twice == order.map_values(|i: usize| once[i as int]);
    assert forall|i: int, j: int| 0 <= i <= j < keys.len() implies keys[i] <= keys[j] by {
        assert(keys[i] == path_key(once[i]@, data_type));
        assert(keys[j] == path_key(once[j]@, data_type));
    }
    lemma_sorted_keys_keep_order(keys, order);
    assert(twice =~= once);
}

/// A path is a point-cloud path exactly when its extension is `pcd`; the
/// directory it lies in, absolute or relative, plays no part.
pub proof fn lemma_pcd_path_is_extension(path: Seq<char>)
    ensures
        is_pcd_path(path) <==> extension_of(path) == Some(seq!['p', 'c', 'd']),
{
    assert(pcd_extension() =~= seq!['p', 'c', 'd']);
}

/// Selection keeps a single path exactly when its extension is `pcd`, and
/// keeps a list whose paths all have that extension whole.
pub proof fn lemma_selection_by_extension(p: String, paths: Seq<String>)
    ensures
        extension_of(p@) == Some(seq!['p', 'c', 'd']) ==> pcd_paths_of(seq![p]) == seq![p],
        extension_of(p@) != Some(seq!['p', 'c', 'd']) ==> pcd_paths_of(seq![p]) == Seq::<String>::empty(),
        (forall|i: int| 0 <= i < paths.len() ==> extension_of(#[trigger] paths[i]@) == Some(seq!['p', 'c', 'd']))
            ==> pcd_paths_of(paths) == paths,
        forall|i: int| 0 <= i < paths.len() && extension_of(paths[i]@) == Some(seq!['p', 'c', 'd'])
            ==> #[trigger] pcd_paths_of(paths).contains(paths[i]),
        forall|i: int| 0 <= i < pcd_paths_of(paths).len()
            ==> extension_of(#[trigger] pcd_paths_of(paths)[i]@) == Some(seq!['p', 'c', 'd']),
{
    assert(pcd_extension() =~= seq!['p', 'c', 'd']);
    reveal_with_fuel(Seq::<_>::filter, 2);
    assert(seq![p].drop_last() =~= Seq::<String>::empty());
    if forall|i: int| 0 <= i < paths.len() ==> extension_of(#[trigger] paths[i]@) == Some(seq!['p', 'c', 'd']) {
        assert forall|i: int| 0 <= i < paths.len() implies is_pcd_path(#[trigger] paths[i]@) by {
            assert(extension_of(paths[i]@) == Some(seq!['p', 'c', 'd']));
        }
        lemma_selection_of_pcd_paths_is_identity(paths);
    }
    lemma_selection_keeps_pcd_paths(paths);
}

/// A stem `<data_type>_<n>`, with `n` written in base ten, has key `n`; a stem
/// that does not start with `<data_type>_`, or no stem, has key 0.
pub proof fn lemma_numbered_stem_key(data_type: Seq<char>, n: u32, other: Seq<char>)
    ensures
        key_from_stem(Some(data_type.push('_') + crate::text::decimal(n as nat)), data_type) == n,
        !(data_type.push('_').len() <= other.len() && other.take((data_type.len() + 1) as int) == data_type.push('_'))
            ==> key_from_stem(Some(other), data_type) == 0,
        key_from_stem(None, data_type) == 0,
{
    let pre = data_type.push('_');
    let stem = pre + crate::text::decimal(n as nat);
    assert(stem.take(pre.len() as int) =~= pre);
    assert(stem.skip(pre.len() as int) =~= crate::text::decimal(n as nat));
    crate::text::lemma_parse_decimal_roundtrip(n);
}

/// Selecting from two listings one after the other gives the two selections
/// one after the other: selection keeps the listed order.
pub proof fn lemma_selection_keeps_listed_order(a: Seq<String>, b: Seq<String>)
    ensures
        pcd_paths_of(a + b) == pcd_paths_of(a) + pcd_paths_of(b),
{
    Seq::filter_distributes_over_add(a, b, |p: String| is_pcd_path(p@));
}

} // verus!
