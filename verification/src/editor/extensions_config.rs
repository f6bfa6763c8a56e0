//! The persisted list of enabled extensions, and which extensions to enable at startup.

use vstd::prelude::*;
use crate::api::lifecycle::ExtensionCatalog;
use crate::keyed::texts;

verus! {

/// The stored form of the enabled list: the names of the enabled extensions.
pub struct ExtensionsConfig {
    pub enabled: Vec<String>,
}

impl ExtensionsConfig {
    /// An empty list.
    pub fn default() -> (r: Self)
        ensures
            r.enabled@.len() == 0,
    {
        ExtensionsConfig { enabled: Vec::new() }
    }
}

/// Whether a name occurs in a list of names.
pub open spec fn listed(l: Seq<Seq<char>>) -> spec_fn(Seq<char>) -> bool {
    |n: Seq<char>| l.contains(n)
}

/// The names to enable at startup: the catalog's names, in catalog order, that the
/// persisted list holds; every catalog name when no list was persisted yet (first run).
pub open spec fn to_enable(catalog_names: Seq<Seq<char>>, persisted: Option<Seq<Seq<char>>>) -> Seq<Seq<char>> {
    match persisted {
        None => catalog_names,
        Some(l) => catalog_names.filter(listed(l)),
    }
}

fn contains_name(list: &Vec<String>, name: &String) -> (r: bool)
    ensures
        r == texts(list@).contains(name@),
{
    let mut i: usize = 0;
    while i < list.len()
        invariant
            0 <= i <= list.len(),
            forall|j: int| 0 <= j < i ==> texts(list@)[j] != name@,
        decreases list.len() - i,
    {
        if list[i] == *name {
            assert(texts(list@)[i as int] == name@);
            return true;
        }
        i += 1;
    }
    false
}

/// Decides which extensions to enable at startup from the catalog and the persisted list.
pub fn extensions_to_enable<C>(catalog: &ExtensionCatalog<C>, persisted: &Option<Vec<String>>) -> (r: Vec<String>)
    ensures
        texts(r@) == to_enable(
            catalog.names(),
            match persisted {
                Some(l) => Some(texts(l@)),
                None => None,
            },
        ),
{
    let available = catalog.iter();
    match persisted {
        None => available,
        Some(list) => {
            let ghost names = texts(available@);
            let ghost keep = listed(texts(list@));
            let mut r: Vec<String> = Vec::new();
            let mut i: usize = 0;
            while i < available.len()
                invariant
                    0 <= i <= available.len(),
                    names == texts(available@),
                    keep == listed(texts(list@)),
                    texts(r@) == names.take(i as int).filter(keep),
                decreases available.len() - i,
            {
                proof {
                    assert(names.take(i + 1) =~= names.take(i as int).push(names[i as int]));
                    names.take(i as int).lemma_filter_push(names[i as int], keep);
                }
                if contains_name(list, &available[i]) {
                    let ghost before = r@;
                    r.push(available[i].clone());
                    assert(texts(r@) =~= texts(before).push(names[i as int]));
                }
                i += 1;
            }
            assert(names.take(available.len() as int) =~= names);
            r
        },
    }
}


/// Reading back a persisted list enables exactly the catalog's extensions that the list
/// names; with no list, every catalog extension.
pub proof fn law_enabled_list_round_trip(catalog_names: Seq<Seq<char>>, persisted: Seq<Seq<char>>)
    ensures
        forall|n: Seq<char>|
            #[trigger] to_enable(catalog_names, Some(persisted)).contains(n) <==> (catalog_names.contains(n)
                && persisted.contains(n)),
        to_enable(catalog_names, None) == catalog_names,
{
    let keep = listed(persisted);
    let f = catalog_names.filter(keep);
    catalog_names.filter_lemma(keep);
    assert forall|n: Seq<char>| #[trigger] f.contains(n) <==> (catalog_names.contains(n) && persisted.contains(n)) by {
        if f.contains(n) {
            let i = choose|i: int| 0 <= i < f.len() && f[i] == n;
            assert(keep(f[i]));
            catalog_names.lemma_filter_contains_rev(keep, n);
        }
        if catalog_names.contains(n) && persisted.contains(n) {
            let i = choose|i: int| 0 <= i < catalog_names.len() && catalog_names[i] == n;
            assert(keep(catalog_names[i]));
        }
    }
}
} // verus!
