//! The released packages that local packages are compared with.

use vstd::prelude::*;

use crate::order::{lemma_text_order, place_of, text_le, text_order, texts};
use crate::package::{Package, PackageView};
use crate::text::{clone_opt, clone_texts, is_text, opt_text};

verus! {

/// A released package.
#[derive(Debug, PartialEq)]
pub struct RegistryPackage {
    pub package: Package,
    /// The commit that the package was released at, if it is known.
    sha1: Option<String>,
}

/// What a released package stands for.
pub ghost struct RegistryPackageView {
    pub package: PackageView,
    pub sha1: Option<Seq<char>>,
}

impl View for RegistryPackage {
    type V = RegistryPackageView;

    closed spec fn view(&self) -> RegistryPackageView {
        RegistryPackageView { package: self.package@, sha1: opt_text(self.sha1) }
    }
}

impl RegistryPackage {
    pub fn new(package: Package, sha1: Option<String>) -> (r: Self)
        ensures
            r@ == (RegistryPackageView { package: package@, sha1: opt_text(sha1) }),
    {
        RegistryPackage { package, sha1 }
    }

    /// The commit that the package was released at.
    pub fn published_at_sha1(&self) -> (r: Option<&str>)
        ensures
            match r {
                Some(s) => self@.sha1 == Some(s@),
                None => self@.sha1 is None,
            },
    {
        match &self.sha1 {
            Some(s) => Some(s.as_str()),
            None => None,
        }
    }

    /// The package itself.
    pub fn package(&self) -> (r: &Package)
        ensures
            r@ == self@.package,
    {
        &self.package
    }
}

impl Clone for RegistryPackage {
    fn clone(&self) -> (r: Self)
        ensures
            r@ == self@,
    {
        RegistryPackage { package: self.package.clone(), sha1: clone_opt(&self.sha1) }
    }
}

/// What a list of released packages stands for.
pub open spec fn released(v: Seq<RegistryPackage>) -> Seq<RegistryPackageView> {
    v.map_values(|p: RegistryPackage| p@)
}

/// Released packages by name. The names are kept in order, each of them once.
#[derive(Debug, PartialEq)]
pub struct PackageMap {
    names: Vec<String>,
    values: Vec<RegistryPackage>,
}

/// The values that go with the names.
spec fn by_name(names: Seq<Seq<char>>, values: Seq<RegistryPackageView>) -> Map<
    Seq<char>,
    RegistryPackageView,
> {
    Map::new(|k: Seq<char>| names.contains(k), |k: Seq<char>| values[names.index_of(k)])
}

/// Names in order, none of them twice.
spec fn strictly_sorted(names: Seq<Seq<char>>) -> bool {
    forall|i: int, j: int|
        0 <= i < j < names.len() ==> text_le(#[trigger] names[i], #[trigger] names[j]) && names[i]
            != names[j]
}

impl View for PackageMap {
    type V = Map<Seq<char>, RegistryPackageView>;

    closed spec fn view(&self) -> Map<Seq<char>, RegistryPackageView> {
        by_name(texts(self.names@), released(self.values@))
    }
}

impl PackageMap {
    #[verifier::type_invariant]
    spec fn wf(self) -> bool {
        self.names@.len() == self.values@.len() && strictly_sorted(texts(self.names@))
    }

    /// No packages.
    pub fn new() -> (r: Self)
        ensures
            r@ == Map::<Seq<char>, RegistryPackageView>::empty(),
    {
        let r = PackageMap { names: Vec::new(), values: Vec::new() };
        assert(r@ =~= Map::<Seq<char>, RegistryPackageView>::empty());
        r
    }

    /// The names, in order.
    pub fn names(&self) -> (r: &Vec<String>)
        ensures
            texts(r@).to_set() == self@.dom(),
            forall|i: int, j: int|
                0 <= i < j < r@.len() ==> text_le(#[trigger] r@[i]@, #[trigger] r@[j]@) && r@[i]@
                    != r@[j]@,
    {
        proof {
            use_type_invariant(self);
            assert(texts(self.names@).to_set() =~= self@.dom());
            assert forall|i: int, j: int| 0 <= i < j < self.names@.len() implies text_le(
                #[trigger] self.names@[i]@,
                #[trigger] self.names@[j]@,
            ) && self.names@[i]@ != self.names@[j]@ by {
                assert(text_le(texts(self.names@)[i], texts(self.names@)[j]));
            }
        }
        &self.names
    }

    /// The package with the given name.
    pub fn get(&self, name: &str) -> (r: Option<&RegistryPackage>)
        ensures
            match r {
                Some(p) => self@.contains_key(name@) && p@ == self@[name@],
                None => !self@.contains_key(name@),
            },
    {
        proof {
            use_type_invariant(self);
        }
        let mut i: usize = 0;
        while i < self.names.len()
            invariant
                i <= self.names@.len(),
                self.names@.len() == self.values@.len(),
                strictly_sorted(texts(self.names@)),
                forall|k: int| 0 <= k < i ==> #[trigger] texts(self.names@)[k] != name@,
            decreases self.names@.len() - i,
        {
            assert(texts(self.names@)[i as int] == self.names@[i as int]@);
            if is_text(self.names[i].as_str(), name) {
                proof {
                    lemma_index(texts(self.names@), i as int);
                }
                return Some(&self.values[i]);
            }
            i += 1;
        }
        None
    }

    /// Puts a package under a name, in place of what was there.
    pub fn insert(&mut self, name: String, value: RegistryPackage)
        ensures
            final(self)@ == old(self)@.insert(name@, value@),
    {
        proof {
            use_type_invariant(&*self);
        }
        let mut all = PackageMap::new();
        proof {
            use_type_invariant(&all);
        }
        std::mem::swap(&mut all, self);
        *self = put(all.names, all.values, name, value);
    }

    /// Puts all packages of another map into this one.
    pub fn extend(&mut self, other: PackageMap)
        ensures
            final(self)@ == old(self)@.union_prefer_right(other@),
    {
        proof {
            use_type_invariant(&other);
        }
        let ghost before = self@;
        let ghost all = texts(other.names@);
        let ghost vals = released(other.values@);
        let mut i: usize = 0;
        assert(self@ =~= before.union_prefer_right(by_name(all.take(0), vals)));
        while i < other.names.len()
            invariant
                i <= other.names@.len(),
                other.names@.len() == other.values@.len(),
                all == texts(other.names@),
                vals == released(other.values@),
                strictly_sorted(all),
                self@ == before.union_prefer_right(by_name(all.take(i as int), vals)),
            decreases other.names@.len() - i,
        {
            let ghost now = self@;
            self.insert(other.names[i].clone(), other.values[i].clone());
            proof {
                let head = all.take(i as int);
                let next = all.take(i + 1);
                assert(next =~= head.push(all[i as int]));
                assert(all[i as int] == other.names@[i as int]@);
                assert(vals[i as int] == other.values@[i as int]@);
                assert forall|k: int| 0 <= k < i implies head.index_of(#[trigger] head[k]) == k
                    && next.index_of(head[k]) == k by {
                    lemma_distinct_prefix(all, i as int);
                    lemma_distinct_prefix(all, i + 1);
                    lemma_index(head, k);
                    assert(next[k] == head[k]);
                    lemma_index(next, k);
                }
                lemma_distinct_prefix(all, i + 1);
                lemma_index(next, i as int);
                assert(by_name(next, vals) =~= by_name(head, vals).insert(
                    all[i as int],
                    vals[i as int],
                )) by {
                    assert forall|k: Seq<char>| next.contains(k) <==> head.contains(k) || k
                        == all[i as int] by {
                        if head.contains(k) {
                            let j = head.index_of(k);
                            assert(next[j] == k);
                        }
                        if k == all[i as int] {
                            assert(next[i as int] == k);
                        }
                        if next.contains(k) && k != all[i as int] {
                            let j = next.index_of(k);
                            assert(head[j] == k);
                        }
                    }
                    assert forall|k: Seq<char>| head.contains(k) implies by_name(next, vals)[k]
                        == by_name(head, vals).insert(all[i as int], vals[i as int])[k] by {
                        let j = head.index_of(k);
                        assert(head[j] == k);
                        assert(k != all[i as int]) by {
                            assert(head[j] == all[j]);
                        }
                    }
                }
                assert(self@ =~= before.union_prefer_right(by_name(next, vals)));
            }
            i += 1;
        }
        assert(all.take(all.len() as int) =~= all);
    }
}

impl Clone for PackageMap {
    fn clone(&self) -> (r: Self)
        ensures
            r@ == self@,
    {
        proof {
            use_type_invariant(self);
        }
        let names = clone_texts(&self.names);
        let values = self.values.clone();
        assert(released(values@) =~= released(self.values@));
        assert(texts(names@).len() == names@.len());
        PackageMap { names, values }
    }
}

/// The released packages that local packages are compared with, by name.
#[derive(Debug, PartialEq)]
pub struct PackagesCollection {
    packages: PackageMap,
}

impl View for PackagesCollection {
    type V = Map<Seq<char>, RegistryPackageView>;

    closed spec fn view(&self) -> Map<Seq<char>, RegistryPackageView> {
        self.packages@
    }
}

impl Default for PackagesCollection {
    fn default() -> (r: Self)
        ensures
            r@ == Map::<Seq<char>, RegistryPackageView>::empty(),
    {
        PackagesCollection { packages: PackageMap::new() }
    }
}

impl Clone for PackagesCollection {
    fn clone(&self) -> (r: Self)
        ensures
            r@ == self@,
    {
        PackagesCollection { packages: self.packages.clone() }
    }
}

impl PackagesCollection {
    /// The same collection with other packages in it.
    pub fn with_packages(self, packages: PackageMap) -> (r: Self)
        ensures
            r@ == packages@,
    {
        PackagesCollection { packages }
    }

    /// The released package with the given name.
    pub fn get_registry_package(&self, package_name: &str) -> (r: Option<&RegistryPackage>)
        ensures
            match r {
                Some(p) => self@.contains_key(package_name@) && p@ == self@[package_name@],
                None => !self@.contains_key(package_name@),
            },
    {
        self.packages.get(package_name)
    }
}

/// In a list without repetition the index of an element is where it stands.
proof fn lemma_index(names: Seq<Seq<char>>, i: int)
    requires
        0 <= i < names.len(),
        strictly_sorted(names),
    ensures
        names.contains(names[i]),
        names.index_of(names[i]) == i,
{
    let j = names.index_of(names[i]);
    assert(names[j] == names[i]);
    if i < j {
        assert(names[i] != names[j]);
    } else if j < i {
        assert(names[j] != names[i]);
    }
}

proof fn lemma_distinct_prefix(names: Seq<Seq<char>>, n: int)
    requires
        0 <= n <= names.len(),
        strictly_sorted(names),
    ensures
        strictly_sorted(names.take(n)),
{
}

/// The map with one entry more.
fn put(
    names: Vec<String>,
    values: Vec<RegistryPackage>,
    name: String,
    value: RegistryPackage,
) -> (r: PackageMap)
    requires
        names@.len() == values@.len(),
        strictly_sorted(texts(names@)),
    ensures
        r@ == by_name(texts(names@), released(values@)).insert(name@, value@),
{
    let mut names = names;
    let mut values = values;
    let ghost old_names = texts(names@);
    let ghost old_values = released(values@);
    proof {
        lemma_text_order();
        assert forall|i: int, j: int| 0 <= i < j < old_names.len() implies #[trigger] text_order()(
            old_names[i],
            old_names[j],
        ) by {}
    }
    let at = place_of(&names, &name);
    if at > 0 && is_text(names[at - 1].as_str(), name.as_str()) {
        let last: usize = at - 1;
        values.set(last, value);
        let r = PackageMap { names, values };
        proof {
            let k0 = last as int;
            assert(released(r.values@) =~= old_values.update(k0, value@));
            assert(old_names[k0] == name@);
            lemma_index(old_names, k0);
            assert(r@ =~= by_name(old_names, old_values).insert(name@, value@)) by {
                assert forall|k: Seq<char>| old_names.contains(k) && k != name@ implies r@[k]
                    == by_name(old_names, old_values)[k] by {
                    let j = old_names.index_of(k);
                    assert(old_names[j] == k);
                }
            }
        }
        r
    } else {
        proof {
            if at > 0 {
                assert(old_names[at - 1] == names@[at - 1]@);
            }
        }
        names.insert(at, name);
        values.insert(at, value);
        proof {
            let new_names = old_names.insert(at as int, name@);
            assert(texts(names@) =~= new_names);
            assert(released(values@) =~= old_values.insert(at as int, value@));
            lemma_insert_name(old_names, name@, at as int);
        }
        let r = PackageMap { names, values };
        proof {
            let new_names = old_names.insert(at as int, name@);
            let new_values = old_values.insert(at as int, value@);
            lemma_index(new_names, at as int);
            assert(new_names[at as int] == name@);
            assert(r@ =~= by_name(old_names, old_values).insert(name@, value@)) by {
                assert forall|k: Seq<char>| #[trigger] new_names.contains(k) <==> old_names.contains(k)
                    || k == name@ by {
                    if old_names.contains(k) {
                        let j = old_names.index_of(k);
                        if j < at {
                            assert(new_names[j] == k);
                        } else {
                            assert(new_names[j + 1] == k);
                        }
                    }
                    if new_names.contains(k) && k != name@ {
                        let j = new_names.index_of(k);
                        if j < at {
                            assert(old_names[j] == k);
                        } else {
                            assert(old_names[j - 1] == k);
                        }
                    }
                }
                assert forall|k: Seq<char>| old_names.contains(k) && k != name@ implies r@[k]
                    == by_name(old_names, old_values)[k] by {
                    let j = old_names.index_of(k);
                    assert(old_names[j] == k);
                    if j < at {
                        assert(new_names[j] == k);
                        lemma_index(new_names, j);
                    } else {
                        assert(new_names[j + 1] == k);
                        lemma_index(new_names, j + 1);
                    }
                }
            }
        }
        r
    }
}

proof fn lemma_insert_name(names: Seq<Seq<char>>, name: Seq<char>, at: int)
    requires
        0 <= at <= names.len(),
        strictly_sorted(names),
        forall|i: int| 0 <= i < at ==> text_le(#[trigger] names[i], name),
        forall|i: int| at <= i < names.len() ==> text_le(name, #[trigger] names[i]),
        at > 0 ==> names[at - 1] != name,
        at < names.len() ==> names[at] != name,
    ensures
        strictly_sorted(names.insert(at, name)),
{
    lemma_text_order();
    let le = text_order();
    let new = names.insert(at, name);
    assert forall|i: int, j: int| 0 <= i < j < new.len() implies text_le(
        #[trigger] new[i],
        #[trigger] new[j],
    ) && new[i] != new[j] by {
        let i0 = if i < at { i } else { i - 1 };
        let j0 = if j < at { j } else { j - 1 };
        if i != at && j != at {
            assert(text_le(names[i0], names[j0]));
        } else if j == at {
            assert(text_le(names[i0], name));
            if names[i0] == name && i0 < at - 1 {
                assert(text_le(names[i0], names[at - 1]) && names[i0] != names[at - 1]);
                assert(le(names[at - 1], name));
                assert(le(name, names[at - 1]));
            }
        } else {
            assert(text_le(name, names[j0]));
            if names[j0] == name && j0 > at {
                assert(text_le(names[at], names[j0]) && names[at] != names[j0]);
                assert(le(name, names[at]));
                assert(le(names[at], name));
            }
        }
    }
}

} // verus!
