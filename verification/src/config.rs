//! The configuration model.
//!
//! A parsed, immutable description of the front door: a filesystem root,
//! a mapping from root domain to subdomain labels and their relative
//! serving paths, the certificate contact email, and the certificate
//! cache directory. The reserved label `root` stands for the bare root
//! domain itself; any other label `l` under root domain `d` yields the
//! fully-qualified hostname `l.d`.

use vstd::prelude::*;

verus! {

/// One subdomain entry under a root domain: a label and the serving path
/// resolved against the filesystem root.
pub struct SubdomainEntry {
    pub label: String,
    pub path: String,
}

/// All subdomain entries configured under one root domain.
pub struct DomainGroup {
    pub root_domain: String,
    pub entries: Vec<SubdomainEntry>,
}

/// The whole parsed configuration, immutable after process start.
pub struct Config {
    pub root_dir: String,
    pub certcache_dir: String,
    pub cert_email: String,
    pub domains: Vec<DomainGroup>,
}

/// The reserved subdomain label that stands for the bare root domain.
pub open spec fn root_label() -> Seq<char> {
    seq!['r', 'o', 'o', 't']
}

/// The fully-qualified hostname a `(rootDomain, label)` pair derives:
/// the root domain itself for the reserved label, else `label.rootDomain`.
pub open spec fn derived_hostname(label: Seq<char>, root_domain: Seq<char>) -> Seq<char> {
    if label == root_label() {
        root_domain
    } else {
        label + seq!['.'] + root_domain
    }
}

/// The hostname derived by the configuration pair at group `i`, entry `j`.
pub open spec fn pair_hostname(c: Config, i: int, j: int) -> Seq<char> {
    derived_hostname(c.domains[i].entries[j].label@, c.domains[i].root_domain@)
}

/// Whether `(i, j)` indexes a configured `(rootDomain, label)` pair.
pub open spec fn valid_pair(c: Config, i: int, j: int) -> bool {
    0 <= i < c.domains.len() && 0 <= j < c.domains[i].entries.len()
}

/// No two configured pairs derive the same hostname. Duplicate derived
/// hostnames are a configuration error: silently letting one entry
/// overwrite another is not acceptable.
pub open spec fn hostnames_unique(c: Config) -> bool {
    forall|i1: int, j1: int, i2: int, j2: int|
        valid_pair(c, i1, j1) && valid_pair(c, i2, j2) && (i1 != i2 || j1 != j2) ==> pair_hostname(
            c,
            i1,
            j1,
        ) != pair_hostname(c, i2, j2)
}

/// Derive the fully-qualified hostname for one configured pair.
pub fn derive_hostname(label: &String, root_domain: &String) -> (r: String)
    ensures
        r@ == derived_hostname(label@, root_domain@),
{
    proof {
        reveal_strlit("root");
        assert("root"@ =~= root_label());
    }
    let reserved: String = "root".to_owned();
    if *label == reserved {
        root_domain.clone()
    } else {
        let r = label.clone().concat(".").concat(root_domain.as_str());
        proof {
            reveal_strlit(".");
            assert("."@ =~= seq!['.']);
        }
        r
    }
}

/// The result of resolving a configured serving path against the
/// filesystem root: an absolute path stands alone; a relative one is
/// appended after the root, with a separator unless one is already there.
pub open spec fn joined_path(root: Seq<char>, rel: Seq<char>) -> Seq<char> {
    if rel.len() > 0 && rel[0] == '/' {
        rel
    } else if root.len() == 0 {
        rel
    } else if root.last() == '/' {
        root + rel
    } else {
        root + seq!['/'] + rel
    }
}

/// Resolve a configured serving path against the filesystem root.
pub fn join_path(root: &String, rel: &String) -> (r: String)
    ensures
        r@ == joined_path(root@, rel@),
{
    proof {
        reveal_strlit("/");
        assert("/"@ =~= seq!['/']);
    }
    let rel_len: usize = rel.as_str().unicode_len();
    if rel_len > 0 && rel.as_str().get_char(0) == '/' {
        rel.clone()
    } else {
        let root_len: usize = root.as_str().unicode_len();
        if root_len == 0 {
            rel.clone()
        } else if root.as_str().get_char(root_len - 1) == '/' {
            root.clone().concat(rel.as_str())
        } else {
            root.clone().concat("/").concat(rel.as_str())
        }
    }
}

} // verus!
