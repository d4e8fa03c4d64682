//! The manifest model: package metadata and the dependency map.

use crate::specifier::{joined, PackageSpecifier};
use vstd::prelude::*;

verus! {

/// The `[package]` table of a manifest.
#[derive(Clone, Debug, PartialEq, Eq)]
pub struct PackageInfo {
    pub name: String,
    pub version: String,
    pub description: String,
    pub author: String,
}

/// The mathematical value of a [`PackageInfo`].
pub struct PackageInfoView {
    pub name: Seq<char>,
    pub version: Seq<char>,
    pub description: Seq<char>,
    pub author: Seq<char>,
}

impl View for PackageInfo {
    type V = PackageInfoView;

    open spec fn view(&self) -> PackageInfoView {
        PackageInfoView {
            name: self.name@,
            version: self.version@,
            description: self.description@,
            author: self.author@,
        }
    }
}

/// The key of the pair at `i` is `key`.
pub open spec fn has_key_at(pairs: Seq<(String, String)>, key: Seq<char>, i: int) -> bool {
    0 <= i < pairs.len() && pairs[i].0@ == key
}

/// No key stands at two places.
pub open spec fn keys_distinct(pairs: Seq<(String, String)>) -> bool {
    forall|i: int, j: int| 0 <= i < j < pairs.len() ==> pairs[i].0@ != pairs[j].0@
}

/// Some place at which `key` stands, if it stands anywhere.
pub open spec fn place_of(pairs: Seq<(String, String)>, key: Seq<char>) -> int {
    choose|i: int| has_key_at(pairs, key, i)
}

/// The map that a list of pairs with distinct keys stands for.
pub open spec fn map_of(pairs: Seq<(String, String)>) -> Map<Seq<char>, Seq<char>> {
    Map::new(
        |key: Seq<char>| exists|i: int| has_key_at(pairs, key, i),
        |key: Seq<char>| pairs[place_of(pairs, key)].1@,
    )
}

/// The keys of a list of pairs, in the order of the list.
pub open spec fn keys_of(pairs: Seq<(String, String)>) -> Seq<Seq<char>> {
    Seq::new(pairs.len(), |i: int| pairs[i].0@)
}

/// The map that results when the pairs are inserted one after the other into
/// an empty map: of two pairs with one key the later one counts.
pub open spec fn inserted_in_order(pairs: Seq<(String, String)>) -> Map<Seq<char>, Seq<char>>
    decreases pairs.len(),
{
    if pairs.len() == 0 {
        Map::empty()
    } else {
        inserted_in_order(pairs.drop_last()).insert(pairs.last().0@, pairs.last().1@)
    }
}

/// With distinct keys, a key stands at one place only.
proof fn lemma_place_of(pairs: Seq<(String, String)>, key: Seq<char>, i: int)
    requires
        keys_distinct(pairs),
        has_key_at(pairs, key, i),
    ensures
        place_of(pairs, key) == i,
        map_of(pairs).contains_key(key),
        map_of(pairs)[key] == pairs[i].1@,
{
    let j = place_of(pairs, key);
    assert(has_key_at(pairs, key, j));
    if j < i {
        assert(pairs[j].0@ != pairs[i].0@);
    } else if i < j {
        assert(pairs[i].0@ != pairs[j].0@);
    }
}

/// Two lists that hold the same texts at the same places stand for one map.
proof fn lemma_same_texts(a: Seq<(String, String)>, b: Seq<(String, String)>)
    requires
        a.len() == b.len(),
        forall|i: int| 0 <= i < a.len() ==> a[i].0@ == b[i].0@ && a[i].1@ == b[i].1@,
        keys_distinct(a),
    ensures
        keys_distinct(b),
        map_of(a) == map_of(b),
{
    assert forall|i: int, j: int| 0 <= i < j < b.len() implies b[i].0@ != b[j].0@ by {
        assert(a[i].0@ != a[j].0@);
    }
    assert forall|key: Seq<char>| map_of(a).contains_key(key) <==> map_of(b).contains_key(
        key,
    ) by {
        if map_of(a).contains_key(key) {
            assert(has_key_at(b, key, place_of(a, key)));
        }
        if map_of(b).contains_key(key) {
            assert(has_key_at(a, key, place_of(b, key)));
        }
    }
    assert forall|key: Seq<char>| map_of(a).contains_key(key) implies map_of(a)[key] == map_of(
        b,
    )[key] by {
        let at = place_of(a, key);
        assert(has_key_at(b, key, at));
        lemma_place_of(a, key, at);
        lemma_place_of(b, key, at);
    }
    assert(map_of(a) =~= map_of(b));
}

/// The map of a list with distinct keys is the map of the list without its
/// last pair, with that pair inserted.
proof fn lemma_map_of_last(pairs: Seq<(String, String)>)
    requires
        keys_distinct(pairs),
        pairs.len() > 0,
    ensures
        keys_distinct(pairs.drop_last()),
        map_of(pairs) == map_of(pairs.drop_last()).insert(pairs.last().0@, pairs.last().1@),
{
    let front = pairs.drop_last();
    let last = pairs.len() - 1;
    let wanted = map_of(front).insert(pairs.last().0@, pairs.last().1@);
    assert forall|i: int, j: int| 0 <= i < j < front.len() implies front[i].0@ != front[j].0@ by {
        assert(pairs[i].0@ != pairs[j].0@);
    }
    assert forall|key: Seq<char>| map_of(pairs).contains_key(key) <==> wanted.contains_key(
        key,
    ) by {
        if map_of(pairs).contains_key(key) {
            let at = place_of(pairs, key);
            if at != last {
                assert(has_key_at(front, key, at));
            }
        }
        if map_of(front).contains_key(key) {
            assert(has_key_at(pairs, key, place_of(front, key)));
        }
        if key == pairs.last().0@ {
            assert(has_key_at(pairs, key, last));
        }
    }
    assert forall|key: Seq<char>| map_of(pairs).contains_key(key) implies map_of(pairs)[key]
        == wanted[key] by {
        let at = place_of(pairs, key);
        lemma_place_of(pairs, key, at);
        if at != last {
            assert(has_key_at(front, key, at));
            lemma_place_of(front, key, at);
            assert(pairs[at].0@ != pairs[last].0@);
        }
    }
    assert(map_of(pairs) =~= wanted);
}

/// Law: where no key occurs twice, inserting the pairs one after the other
/// gives the map that the list stands for.
pub proof fn lemma_inserted_distinct(pairs: Seq<(String, String)>)
    requires
        keys_distinct(pairs),
    ensures
        inserted_in_order(pairs) == map_of(pairs),
    decreases pairs.len(),
{
    if pairs.len() == 0 {
        assert(map_of(pairs) =~= Map::<Seq<char>, Seq<char>>::empty());
    } else {
        lemma_map_of_last(pairs);
        lemma_inserted_distinct(pairs.drop_last());
    }
}

/// The keys of a list of pairs, each once, in the order in which they first
/// occur.
pub open spec fn first_keys(pairs: Seq<(String, String)>) -> Seq<Seq<char>>
    decreases pairs.len(),
{
    if pairs.len() == 0 {
        Seq::empty()
    } else {
        let before = first_keys(pairs.drop_last());
        if before.contains(pairs.last().0@) {
            before
        } else {
            before.push(pairs.last().0@)
        }
    }
}

/// The dependencies of a manifest: version strings under `author/name` keys.
///
/// No key occurs twice, and the keys keep the order in which they were first
/// inserted.
#[derive(Debug)]
pub struct Dependencies {
    pairs: Vec<(String, String)>,
}

impl View for Dependencies {
    type V = Map<Seq<char>, Seq<char>>;

    closed spec fn view(&self) -> Map<Seq<char>, Seq<char>> {
        map_of(self.pairs@)
    }
}

impl Clone for Dependencies {
    fn clone(&self) -> (copy: Dependencies)
        ensures
            copy@ == self@,
            copy.order() == self.order(),
    {
        proof {
            use_type_invariant(self);
        }
        let pairs = copy_of(&self.pairs);
        proof {
            lemma_same_texts(self.pairs@, pairs@);
            assert(keys_of(pairs@) =~= keys_of(self.pairs@));
        }
        Dependencies { pairs }
    }
}

impl Dependencies {
    #[verifier::type_invariant]
    spec fn well_formed(&self) -> bool {
        keys_distinct(self.pairs@)
    }

    /// The keys in the order in which they were first inserted.
    pub closed spec fn order(&self) -> Seq<Seq<char>> {
        keys_of(self.pairs@)
    }

    /// The empty dependency map.
    pub fn new() -> (deps: Dependencies)
        ensures
            deps@ == Map::<Seq<char>, Seq<char>>::empty(),
            deps.order() == Seq::<Seq<char>>::empty(),
    {
        let deps = Dependencies { pairs: Vec::new() };
        assert(deps@ =~= Map::<Seq<char>, Seq<char>>::empty());
        assert(deps.order() =~= Seq::<Seq<char>>::empty());
        deps
    }

    /// The number of dependencies.
    pub fn len(&self) -> (n: usize)
        ensures
            n == self.order().len(),
            self@.dom().finite(),
            n == self@.dom().len(),
    {
        proof {
            use_type_invariant(self);
            let keys = keys_of(self.pairs@);
            assert(keys.no_duplicates());
            keys.unique_seq_to_set();
            assert(keys.to_set() =~= self@.dom()) by {
                assert forall|key: Seq<char>| keys.to_set().contains(key) <==> self@.dom().contains(
                    key,
                ) by {
                    if keys.contains(key) {
                        let at = choose|at: int| 0 <= at < keys.len() && keys[at] == key;
                        assert(has_key_at(self.pairs@, key, at));
                    }
                    if self@.dom().contains(key) {
                        let at = place_of(self.pairs@, key);
                        assert(keys[at] == key);
                    }
                }
            }
        }
        self.pairs.len()
    }

    /// Whether there is no dependency at all.
    pub fn is_empty(&self) -> (empty: bool)
        ensures
            empty == (self.order().len() == 0),
            empty == (self@ == Map::<Seq<char>, Seq<char>>::empty()),
    {
        proof {
            if self.pairs@.len() == 0 {
                assert(self@ =~= Map::<Seq<char>, Seq<char>>::empty());
            } else {
                assert(has_key_at(self.pairs@, self.pairs@[0].0@, 0));
                assert(self@.contains_key(self.pairs@[0].0@));
            }
        }
        self.pairs.len() == 0
    }

    /// The version recorded under `key`, if there is one.
    pub fn get(&self, key: &str) -> (version: Option<&str>)
        ensures
            match version {
                Some(v) => self@.contains_key(key@) && self@[key@] == v@,
                None => !self@.contains_key(key@),
            },
    {
        proof {
            use_type_invariant(self);
        }
        let owned = key.to_owned();
        match find_key(&self.pairs, &owned) {
            Some(i) => {
                proof {
                    lemma_place_of(self.pairs@, key@, i as int);
                }
                Some(self.pairs[i].1.as_str())
            },
            None => None,
        }
    }

    /// Whether a version is recorded under `key`.
    pub fn contains_key(&self, key: &str) -> (found: bool)
        ensures
            found == self@.contains_key(key@),
    {
        self.get(key).is_some()
    }

    /// The keys, in the order in which they were first inserted. Each key of
    /// the map is listed once.
    pub fn keys(&self) -> (keys: Vec<String>)
        ensures
            keys@.len() == self.order().len(),
            forall|i: int| 0 <= i < keys@.len() ==> keys@[i]@ == self.order()[i],
            forall|i: int, j: int| 0 <= i < j < keys@.len() ==> keys@[i]@ != keys@[j]@,
            forall|key: Seq<char>| self@.contains_key(key) <==> self.order().contains(key),
    {
        proof {
            use_type_invariant(self);
        }
        let mut keys: Vec<String> = Vec::new();
        let mut i: usize = 0;
        while i < self.pairs.len()
            invariant
                i <= self.pairs.len(),
                keys@.len() == i,
                forall|k: int| 0 <= k < i ==> keys@[k]@ == self.pairs@[k].0@,
            decreases self.pairs.len() - i,
        {
            keys.push(self.pairs[i].0.clone());
            i += 1;
        }
        proof {
            lemma_order_lists_keys(*self);
        }
        keys
    }

    /// The dependencies as a list of key and version, in the order of
    /// [`Dependencies::keys`]. No key occurs twice in it, and
    /// [`Dependencies::from_pairs`] makes the same map of it again.
    pub fn to_pairs(&self) -> (pairs: Vec<(String, String)>)
        ensures
            pairs@.len() == self.order().len(),
            keys_distinct(pairs@),
            inserted_in_order(pairs@) == self@,
            forall|i: int|
                0 <= i < pairs@.len() ==> pairs@[i].0@ == self.order()[i] && self@.contains_key(
                    pairs@[i].0@,
                ) && self@[pairs@[i].0@] == pairs@[i].1@,
    {
        proof {
            use_type_invariant(self);
        }
        let pairs = copy_of(&self.pairs);
        proof {
            assert(keys_distinct(pairs@) && inserted_in_order(pairs@) == self@) by {
                lemma_same_texts(self.pairs@, pairs@);
                lemma_inserted_distinct(pairs@);
            }
            assert forall|k: int| 0 <= k < pairs@.len() implies pairs@[k].0@ == self.order()[k]
                && self@.contains_key(pairs@[k].0@) && self@[pairs@[k].0@] == pairs@[k].1@ by {
                lemma_place_of(self.pairs@, self.pairs@[k].0@, k);
            }
        }
        pairs
    }

    /// The map that results when the pairs are inserted one after the other:
    /// of two pairs with one key the later one counts, and a key stands where
    /// it first occurred.
    pub fn from_pairs(pairs: &Vec<(String, String)>) -> (deps: Dependencies)
        ensures
            deps@ == inserted_in_order(pairs@),
            deps.order() == first_keys(pairs@),
    {
        let mut deps = Dependencies::new();
        let mut i: usize = 0;
        while i < pairs.len()
            invariant
                i <= pairs.len(),
                deps@ == inserted_in_order(pairs@.take(i as int)),
                deps.order() == first_keys(pairs@.take(i as int)),
            decreases pairs.len() - i,
        {
            proof {
                let next = pairs@.take(i + 1);
                assert(next.drop_last() =~= pairs@.take(i as int));
                assert(next.last() == pairs@[i as int]);
                lemma_order_lists_keys(deps);
            }
            deps.insert(pairs[i].0.clone(), pairs[i].1.clone());
            i += 1;
        }
        proof {
            assert(pairs@.take(i as int) =~= pairs@);
        }
        deps
    }

    /// Records `version` under `key`. A version already recorded under that
    /// key is overwritten and the key keeps its place; a new key goes to the
    /// end. No other key is touched.
    pub fn insert(&mut self, key: String, version: String)
        ensures
            final(self)@ == old(self)@.insert(key@, version@),
            final(self).order() == if old(self)@.contains_key(key@) {
                old(self).order()
            } else {
                old(self).order().push(key@)
            },
    {
        proof {
            use_type_invariant(&*self);
        }
        let mut pairs: Vec<(String, String)> = Vec::new();
        core::mem::swap(&mut self.pairs, &mut pairs);
        insert_pair(&mut pairs, key, version);
        core::mem::swap(&mut self.pairs, &mut pairs);
    }
}

/// A list that holds the same texts at the same places.
fn copy_of(pairs: &Vec<(String, String)>) -> (copy: Vec<(String, String)>)
    ensures
        copy@.len() == pairs@.len(),
        forall|i: int|
            0 <= i < pairs@.len() ==> pairs@[i].0@ == copy@[i].0@ && pairs@[i].1@ == copy@[i].1@,
{
    let mut copy: Vec<(String, String)> = Vec::new();
    let mut i: usize = 0;
    while i < pairs.len()
        invariant
            i <= pairs.len(),
            copy@.len() == i,
            forall|k: int|
                0 <= k < i ==> pairs@[k].0@ == copy@[k].0@ && pairs@[k].1@ == copy@[k].1@,
        decreases pairs.len() - i,
    {
        copy.push((pairs[i].0.clone(), pairs[i].1.clone()));
        i += 1;
    }
    copy
}

/// The place of `key` among the pairs, if it is there.
fn find_key(pairs: &Vec<(String, String)>, key: &String) -> (place: Option<usize>)
    ensures
        match place {
            Some(i) => has_key_at(pairs@, key@, i as int),
            None => forall|i: int| !has_key_at(pairs@, key@, i),
        },
{
    let mut i: usize = 0;
    while i < pairs.len()
        invariant
            i <= pairs.len(),
            forall|k: int| 0 <= k < i ==> pairs@[k].0@ != key@,
        decreases pairs.len() - i,
    {
        if pairs[i].0 == *key {
            return Some(i);
        }
        i += 1;
    }
    None
}

/// Overwrites the pair with this key, or appends a new pair.
fn insert_pair(pairs: &mut Vec<(String, String)>, key: String, version: String)
    requires
        keys_distinct(old(pairs)@),
    ensures
        keys_distinct(final(pairs)@),
        map_of(final(pairs)@) == map_of(old(pairs)@).insert(key@, version@),
        keys_of(final(pairs)@) == if map_of(old(pairs)@).contains_key(key@) {
            keys_of(old(pairs)@)
        } else {
            keys_of(old(pairs)@).push(key@)
        },
{
    let ghost before = pairs@;
    let ghost k = key@;
    let ghost v = version@;
    let found = find_key(pairs, &key);
    let ghost place: int = match found {
        Some(i) => i as int,
        None => before.len() as int,
    };
    match found {
        Some(i) => {
            pairs.set(i, (key, version));
            proof {
                lemma_place_of(before, k, place);
                assert(keys_of(pairs@) =~= keys_of(before));
            }
        },
        None => {
            pairs.push((key, version));
            proof {
                assert(keys_of(pairs@) =~= keys_of(before).push(k));
            }
        },
    }
    proof {
        let after = pairs@;
        assert(has_key_at(after, k, place));
        assert forall|j: int| 0 <= j < after.len() && j != place implies after[j] == before[j]
            && has_key_at(before, after[j].0@, j) && after[j].0@ != k by {
            if found is Some {
                if j < place {
                    assert(before[j].0@ != before[place].0@);
                } else {
                    assert(before[place].0@ != before[j].0@);
                }
            } else {
                assert(!has_key_at(before, k, j));
            }
        }
        assert(keys_distinct(after)) by {
            assert forall|a: int, b: int| 0 <= a < b < after.len() implies after[a].0@
                != after[b].0@ by {
                if a != place && b != place {
                    assert(before[a].0@ != before[b].0@);
                }
            }
        }
        lemma_place_of(after, k, place);
        let wanted = map_of(before).insert(k, v);
        assert forall|q: Seq<char>| map_of(after).contains_key(q) <==> wanted.contains_key(
            q,
        ) by {
            if map_of(after).contains_key(q) && q != k {
                let j = place_of(after, q);
                assert(has_key_at(before, q, j));
            }
            if map_of(before).contains_key(q) && q != k {
                let j = place_of(before, q);
                assert(has_key_at(after, q, j));
            }
        }
        assert forall|q: Seq<char>| map_of(after).contains_key(q) implies map_of(after)[q]
            == wanted[q] by {
            if q != k {
                let j = place_of(after, q);
                assert(has_key_at(after, q, j));
                lemma_place_of(after, q, j);
                lemma_place_of(before, q, j);
            }
        }
        assert(map_of(after) =~= wanted);
    }
}

/// A manifest: the optional package metadata and the dependencies.
#[derive(Clone, Debug)]
pub struct PackageConfig {
    pub package: Option<PackageInfo>,
    pub dependencies: Dependencies,
}

/// The mathematical value of a [`PackageConfig`].
pub struct PackageConfigView {
    pub package: Option<PackageInfoView>,
    pub dependencies: Map<Seq<char>, Seq<char>>,
}

impl View for PackageConfig {
    type V = PackageConfigView;

    open spec fn view(&self) -> PackageConfigView {
        PackageConfigView {
            package: match self.package {
                Some(info) => Some(info@),
                None => None,
            },
            dependencies: self.dependencies@,
        }
    }
}

/// The manifest with `version` recorded for the package `author/name`.
pub open spec fn merged(
    manifest: PackageConfigView,
    author: Seq<char>,
    name: Seq<char>,
    version: Seq<char>,
) -> PackageConfigView {
    PackageConfigView {
        package: manifest.package,
        dependencies: manifest.dependencies.insert(joined(author, name), version),
    }
}

impl PackageConfig {
    /// The manifest of a project that has none yet: no metadata and no
    /// dependencies.
    pub fn empty() -> (manifest: PackageConfig)
        ensures
            manifest@.package is None,
            manifest@.dependencies == Map::<Seq<char>, Seq<char>>::empty(),
            manifest.dependencies.order() == Seq::<Seq<char>>::empty(),
    {
        PackageConfig { package: None, dependencies: Dependencies::new() }
    }

    /// Records `version` for the package that `specifier` names, under the
    /// key `author/name`. A version recorded before under that key is
    /// overwritten and the key keeps its place; a new key goes to the end.
    /// The metadata and every other dependency stay as they are.
    pub fn merge(self, specifier: &PackageSpecifier, version: &str) -> (manifest: PackageConfig)
        ensures
            manifest@ == merged(self@, specifier@.author, specifier@.name, version@),
            manifest.dependencies.order() == if self@.dependencies.contains_key(
                joined(specifier@.author, specifier@.name),
            ) {
                self.dependencies.order()
            } else {
                self.dependencies.order().push(joined(specifier@.author, specifier@.name))
            },
    {
        let mut manifest = self;
        manifest.dependencies.insert(specifier.dependency_key(), version.to_owned());
        manifest
    }
}

/// Law: the order of a dependency map lists the keys of the map and nothing
/// else. (That it lists each key once is what [`Dependencies::keys`] and
/// [`Dependencies::len`] say of every map there is.)
pub proof fn lemma_order_lists_keys(deps: Dependencies)
    ensures
        forall|key: Seq<char>| deps@.contains_key(key) <==> deps.order().contains(key),
{
    let order = deps.order();
    assert forall|key: Seq<char>| deps@.contains_key(key) <==> order.contains(key) by {
        if deps@.contains_key(key) {
            let at = place_of(deps.pairs@, key);
            assert(order[at] == key);
        }
        if order.contains(key) {
            let at = choose|at: int| 0 <= at < order.len() && order[at] == key;
            assert(has_key_at(deps.pairs@, key, at));
        }
    }
}

/// Law: merging a package into a manifest records its version and leaves
/// every other key as it was, present or absent, with the value it had.
pub proof fn lemma_merge_touches_one_key(
    manifest: PackageConfigView,
    author: Seq<char>,
    name: Seq<char>,
    version: Seq<char>,
    other: Seq<char>,
)
    requires
        other != joined(author, name),
    ensures
        merged(manifest, author, name, version).package == manifest.package,
        merged(manifest, author, name, version).dependencies.contains_key(joined(author, name)),
        merged(manifest, author, name, version).dependencies[joined(author, name)] == version,
        merged(manifest, author, name, version).dependencies.contains_key(other)
            == manifest.dependencies.contains_key(other),
        manifest.dependencies.contains_key(other) ==> merged(
            manifest,
            author,
            name,
            version,
        ).dependencies[other] == manifest.dependencies[other],
{
}

/// Law: of two merges under one key the later one counts, and merging what
/// is already recorded changes nothing.
pub proof fn lemma_merge_last_wins(
    manifest: PackageConfigView,
    author: Seq<char>,
    name: Seq<char>,
    first: Seq<char>,
    second: Seq<char>,
)
    ensures
        merged(merged(manifest, author, name, first), author, name, second) == merged(
            manifest,
            author,
            name,
            second,
        ),
        manifest.dependencies.contains_key(joined(author, name))
            && manifest.dependencies[joined(author, name)] == first ==> merged(
            manifest,
            author,
            name,
            first,
        ) == manifest,
{
    let key = joined(author, name);
    assert(manifest.dependencies.insert(key, first).insert(key, second)
        =~= manifest.dependencies.insert(key, second));
    if manifest.dependencies.contains_key(key) && manifest.dependencies[key] == first {
        assert(manifest.dependencies.insert(key, first) =~= manifest.dependencies);
    }
}

} // verus!
