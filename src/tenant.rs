//! The tenant registry: the configured domains, each keying one isolated
//! comment store, looked up by the request's `Origin`.

use vstd::prelude::*;
use crate::fault::Fault;
use crate::text::{has_prefix, replace_all, replace_text, same_text, starts_with};

verus! {

/// The configured tenant domains, in configuration order. The store of the
/// tenant at index `i` is the `i`-th store the caller opened.
pub struct TenantRegistry {
    domains: Vec<String>,
}

impl View for TenantRegistry {
    type V = Seq<Seq<char>>;

    closed spec fn view(&self) -> Seq<Seq<char>> {
        self.domains@.map_values(|d: String| d@)
    }
}

/// Some domain starts with `origin` and is itself a prefix of `url`.
pub open spec fn in_scope_of(domains: Seq<Seq<char>>, origin: Seq<char>, url: Seq<char>) -> bool {
    exists|i: int| 0 <= i < domains.len() && has_prefix(#[trigger] domains[i], origin) && has_prefix(url, domains[i])
}

/// The on-disk name of a tenant's store: the domain without its
/// `http://` or `https://` markers.
pub open spec fn store_name_of(domain: Seq<char>) -> Seq<char> {
    replace_all(replace_all(domain, "http://"@, ""@), "https://"@, ""@)
}

impl TenantRegistry {
    /// A registry over `domains`, each kept once, in the order of its first
    /// occurrence; `None` when there is none, which is a configuration the
    /// service cannot start with.
    pub fn new(domains: Vec<String>) -> (r: Option<TenantRegistry>)
        ensures
            r is None <==> domains@.len() == 0,
            r matches Some(reg) ==> {
                &&& reg@.no_duplicates()
                &&& forall|d: Seq<char>|
                    reg@.contains(d) <==> domains@.map_values(|s: String| s@).contains(d)
            },
    {
        if domains.len() == 0 {
            return None;
        }
        let ghost dv = domains@.map_values(|s: String| s@);
        let mut kept: Vec<String> = Vec::new();
        let mut i: usize = 0;
        while i < domains.len()
            invariant
                i <= domains@.len(),
                dv == domains@.map_values(|s: String| s@),
                forall|a: int, b: int|
                    0 <= a < kept@.len() && 0 <= b < kept@.len() && a != b ==> (#[trigger] kept@[a])@
                        != (#[trigger] kept@[b])@,
                forall|k: int|
                    #![trigger dv[k]]
                    0 <= k < i ==> exists|j: int| 0 <= j < kept@.len() && (#[trigger] kept@[j])@ == dv[k],
                forall|j: int| 0 <= j < kept@.len() ==> exists|k: int| 0 <= k < i && (#[trigger] kept@[j])@ == dv[k],
            decreases domains@.len() - i,
        {
            assert(dv[i as int] == domains@[i as int]@);
            if !contains_text(&kept, domains[i].as_str()) {
                let d = domains[i].clone();
                let ghost before = kept@;
                kept.push(d);
                assert(kept@[before.len() as int]@ == dv[i as int]);
                assert forall|j: int| 0 <= j < kept@.len() implies exists|k: int|
                    0 <= k < i + 1 && (#[trigger] kept@[j])@ == dv[k] by {
                    if j < before.len() {
                        assert(kept@[j] == before[j]);
                    } else {
                        assert(kept@[j]@ == dv[i as int]);
                    }
                }
                assert forall|k: int| #![trigger dv[k]] 0 <= k < i + 1 implies exists|j: int|
                    0 <= j < kept@.len() && (#[trigger] kept@[j])@ == dv[k] by {
                    if k < i {
                        let j = choose|j: int| 0 <= j < before.len() && (#[trigger] before[j])@ == dv[k];
                        assert(kept@[j] == before[j]);
                    } else {
                        assert(kept@[before.len() as int]@ == dv[k]);
                    }
                }
            }
            i = i + 1;
        }
        let reg = TenantRegistry { domains: kept };
        assert forall|d: Seq<char>| reg@.contains(d) <==> dv.contains(d) by {
            if reg@.contains(d) {
                let j = choose|j: int| 0 <= j < reg@.len() && reg@[j] == d;
                assert(reg@[j] == kept@[j]@);
                let k = choose|k: int| 0 <= k < domains@.len() && (#[trigger] kept@[j])@ == dv[k];
                assert(dv[k] == d);
            }
            if dv.contains(d) {
                let k = choose|k: int| 0 <= k < dv.len() && dv[k] == d;
                let j = choose|j: int| 0 <= j < kept@.len() && (#[trigger] kept@[j])@ == dv[k];
                assert(reg@[j] == d);
            }
        }
        assert(reg@.no_duplicates()) by {
            assert forall|a: int, b: int| 0 <= a < reg@.len() && 0 <= b < reg@.len() && a != b implies reg@[a]
                != reg@[b] by {
                assert(reg@[a] == kept@[a]@ && reg@[b] == kept@[b]@);
            }
        }
        Some(reg)
    }

    /// The number of tenants.
    pub fn len(&self) -> (r: usize)
        ensures
            r == self@.len(),
    {
        self.domains.len()
    }

    /// The domain of tenant `i`.
    pub fn domain(&self, i: usize) -> (r: &str)
        requires
            i < self@.len(),
        ensures
            r@ == self@[i as int],
    {
        self.domains[i].as_str()
    }

    /// The tenant whose domain is exactly `origin`; a missing or unknown
    /// origin is a bad origin.
    pub fn resolve(&self, origin: Option<&str>) -> (r: Result<usize, Fault>)
        ensures
            origin is None ==> r == Err::<usize, Fault>(Fault::BadOrigin),
            origin matches Some(o) ==> match r {
                Ok(i) => i < self@.len() && self@[i as int] == o@,
                Err(e) => e == Fault::BadOrigin && !self@.contains(o@),
            },
    {
        let o = match origin {
            Some(o) => o,
            None => return Err(Fault::BadOrigin),
        };
        let mut i: usize = 0;
        while i < self.domains.len()
            invariant
                i <= self@.len(),
                self@.len() == self.domains@.len(),
                origin == Some(o),
                forall|k: int| 0 <= k < i ==> self@[k] != o@,
            decreases self@.len() - i,
        {
            assert(self@[i as int] == self.domains@[i as int]@);
            if same_text(self.domains[i].as_str(), o) {
                return Ok(i);
            }
            i = i + 1;
        }
        Err(Fault::BadOrigin)
    }

    /// Whether `url` lies under a tenant domain that itself starts with
    /// `origin`.
    pub fn in_scope(&self, origin: &str, url: &str) -> (r: bool)
        ensures
            r == in_scope_of(self@, origin@, url@),
    {
        let mut i: usize = 0;
        while i < self.domains.len()
            invariant
                i <= self@.len(),
                self@.len() == self.domains@.len(),
                forall|k: int|
                    0 <= k < i ==> !(has_prefix(#[trigger] self@[k], origin@) && has_prefix(url@, self@[k])),
            decreases self@.len() - i,
        {
            let d = self.domains[i].as_str();
            assert(self@[i as int] == d@);
            if starts_with(d, origin) && starts_with(url, d) {
                return true;
            }
            i = i + 1;
        }
        false
    }
}

/// Whether some string of `v` holds the characters of `s`.
fn contains_text(v: &Vec<String>, s: &str) -> (r: bool)
    ensures
        r == exists|j: int| 0 <= j < v@.len() && (#[trigger] v@[j])@ == s@,
{
    let mut i: usize = 0;
    while i < v.len()
        invariant
            i <= v@.len(),
            forall|j: int| 0 <= j < i ==> (#[trigger] v@[j])@ != s@,
        decreases v@.len() - i,
    {
        if same_text(v[i].as_str(), s) {
            return true;
        }
        i = i + 1;
    }
    false
}

/// The on-disk name of the store of `domain`.
pub fn store_name(domain: &str) -> (r: String)
    ensures
        r@ == store_name_of(domain@),
{
    proof {
        reveal_strlit("http://");
        reveal_strlit("https://");
    }
    let plain = replace_text(domain, "http://", "");
    replace_text(plain.as_str(), "https://", "")
}

} // verus!
