//! Package records: the parsed identity, version and metadata of one
//! installed package, and the name-keyed record index of one
//! environment.

use vstd::prelude::*;
use crate::text::clone_opt_text;
use crate::text::clone_texts;
use crate::text::str_eq;
use crate::version::clone_version;
use crate::version::Version;
use crate::version::VersionView;

verus! {

/// One installed package: name, semantic version, optional
/// description, and free-form dependency identifiers.
#[derive(Debug, Clone, PartialEq)]
pub struct Package {
    pub name: String,
    pub version: Version,
    pub description: Option<String>,
    pub dependencies: Vec<String>,
}

/// Specification-level image of a `Package`.
#[verifier::ext_equal]
pub struct PackageView {
    pub name: Seq<char>,
    pub version: VersionView,
    pub description: Option<Seq<char>>,
    pub dependencies: Seq<Seq<char>>,
}

impl View for Package {
    type V = PackageView;

    open spec fn view(&self) -> PackageView {
        PackageView {
            name: self.name@,
            version: self.version@,
            description: self.description.deep_view(),
            dependencies: self.dependencies.deep_view(),
        }
    }
}

impl DeepView for Package {
    type V = PackageView;

    open spec fn deep_view(&self) -> PackageView {
        self.view()
    }
}

/// Clones a package record, keeping its view.
pub fn clone_package(p: &Package) -> (r: Package)
    ensures
        r@ == p@,
{
    let r = Package {
        name: p.name.clone(),
        version: clone_version(&p.version),
        description: clone_opt_text(&p.description),
        dependencies: clone_texts(&p.dependencies),
    };
    proof {
        assert(r@ =~= p@);
    }
    r
}

/// The first record of a given name, if any.
pub open spec fn find_package(s: Seq<PackageView>, n: Seq<char>) -> Option<PackageView>
    decreases s.len(),
{
    if s.len() == 0 {
        None
    } else if s[0].name == n {
        Some(s[0])
    } else {
        find_package(s.drop_first(), n)
    }
}

/// The index with every record of a given name removed.
pub open spec fn drop_record(s: Seq<PackageView>, n: Seq<char>) -> Seq<PackageView>
    decreases s.len(),
{
    if s.len() == 0 {
        s
    } else if s.last().name == n {
        drop_record(s.drop_last(), n)
    } else {
        drop_record(s.drop_last(), n).push(s.last())
    }
}

/// The index with one record stored under its name, superseding any
/// earlier record of that name.
pub open spec fn upsert_record(s: Seq<PackageView>, p: PackageView) -> Seq<PackageView> {
    drop_record(s, p.name).push(p)
}

/// Finds the first record of a given name, handing back its position.
pub fn find_record_index(v: &Vec<Package>, name: &str) -> (r: Option<usize>)
    ensures
        match r {
            Some(i) => {
                &&& i < v@.len()
                &&& v.deep_view()[i as int].name == name@
                &&& forall|j: int| 0 <= j < i ==> v.deep_view()[j].name != name@
                &&& find_package(v.deep_view(), name@) == Some(v.deep_view()[i as int])
            },
            None => find_package(v.deep_view(), name@) is None,
        },
{
    proof {
        assert(v.deep_view().skip(0) =~= v.deep_view());
    }
    let mut i: usize = 0;
    while i < v.len()
        invariant
            i <= v.len(),
            v.deep_view().len() == v@.len(),
            forall|j: int| 0 <= j < i ==> v.deep_view()[j].name != name@,
            find_package(v.deep_view(), name@) == find_package(
                v.deep_view().skip(i as int),
                name@,
            ),
        decreases v.len() - i,
    {
        proof {
            assert(v.deep_view().skip(i as int)[0] == v.deep_view()[i as int]);
            assert(v.deep_view()[i as int] == v@[i as int].deep_view());
        }
        if str_eq(v[i].name.as_str(), name) {
            return Some(i);
        }
        proof {
            assert(v.deep_view().skip(i as int).drop_first() =~= v.deep_view().skip(i + 1));
        }
        i = i + 1;
    }
    assert(v.deep_view().skip(v@.len() as int).len() == 0);
    None
}

/// Removes every record of a given name from an index.
fn remove_record(v: &mut Vec<Package>, name: &str)
    ensures
        final(v).deep_view() == drop_record(old(v).deep_view(), name@),
{
    let mut out: Vec<Package> = Vec::new();
    let mut i: usize = 0;
    while i < v.len()
        invariant
            i <= v.len(),
            *v == *old(v),
            v.deep_view().len() == v@.len(),
            out.deep_view() =~= drop_record(v.deep_view().take(i as int), name@),
        decreases v.len() - i,
    {
        proof {
            assert(v.deep_view()[i as int] == v@[i as int].deep_view());
            assert(v.deep_view().take(i + 1).drop_last() =~= v.deep_view().take(i as int));
            assert(v.deep_view().take(i + 1).last() == v.deep_view()[i as int]);
        }
        if !str_eq(v[i].name.as_str(), name) {
            let item = clone_package(&v[i]);
            let ghost iview = item@;
            let ghost pre_out = out;
            out.push(item);
            proof {
                crate::deep::lemma_deep_push_last(pre_out, out);
                assert(iview == v@[i as int].deep_view());
                assert(out.deep_view() =~= drop_record(v.deep_view().take(i + 1), name@));
            }
        }
        i = i + 1;
    }
    proof {
        assert(v.deep_view().take(v@.len() as int) =~= v.deep_view());
    }
    *v = out;
}

/// Stores a record in an index under its name, superseding any
/// earlier record of that name.
pub fn store_record(v: &mut Vec<Package>, p: Package)
    ensures
        final(v).deep_view() == upsert_record(old(v).deep_view(), p@),
{
    let ghost pview = p@;
    remove_record(v, p.name.as_str());
    let ghost mid = *v;
    v.push(p);
    proof {
        crate::deep::lemma_deep_push_last(mid, *v);
        assert(v.deep_view() =~= upsert_record(old(v).deep_view(), pview));
    }
}

} // verus!
