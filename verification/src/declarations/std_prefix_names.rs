//! The four prefixes every OWL document may rely on.

use vstd::prelude::*;

verus! {

/// A prefix name (with its trailing colon) and the IRI it abbreviates (in
/// angle brackets).
#[derive(Debug, PartialEq)]
pub struct PrefixObject<'a> {
    pub prefix_name: &'a str,
    pub prefix_iri: &'a str,
}

impl<'a> PrefixObject<'a> {
    pub fn new(prefix_name: &'a str, prefix_iri: &'a str) -> (p: PrefixObject<'a>)
        ensures
            p.prefix_name@ == prefix_name@,
            p.prefix_iri@ == prefix_iri@,
    {
        PrefixObject { prefix_name, prefix_iri }
    }
}

/// The standard prefixes, each carrying its name and IRI.
#[derive(Debug, PartialEq)]
pub enum OwlStdPrefix<'a> {
    Rdf(PrefixObject<'a>),
    Rdfs(PrefixObject<'a>),
    Xsd(PrefixObject<'a>),
    Owl(PrefixObject<'a>),
}

pub fn get_rdf_prefix<'a>() -> (p: OwlStdPrefix<'a>)
    ensures
        p matches OwlStdPrefix::Rdf(o) && o.prefix_name@ == "rdf:"@ && o.prefix_iri@
            == "<http://www.w3.org/1999/02/22-rdf-syntax-ns#>"@,
{
    OwlStdPrefix::Rdf(
        PrefixObject {
            prefix_name: "rdf:",
            prefix_iri: "<http://www.w3.org/1999/02/22-rdf-syntax-ns#>",
        },
    )
}

pub fn get_rdfs_prefix<'a>() -> (p: OwlStdPrefix<'a>)
    ensures
        p matches OwlStdPrefix::Rdfs(o) && o.prefix_name@ == "rdfs:"@ && o.prefix_iri@
            == "<http://www.w3.org/2000/01/rdf-schema#>"@,
{
    OwlStdPrefix::Rdfs(
        PrefixObject {
            prefix_name: "rdfs:",
            prefix_iri: "<http://www.w3.org/2000/01/rdf-schema#>",
        },
    )
}

pub fn get_xsd_prefix<'a>() -> (p: OwlStdPrefix<'a>)
    ensures
        p matches OwlStdPrefix::Xsd(o) && o.prefix_name@ == "xsd:"@ && o.prefix_iri@
            == "<http://www.w3.org/2001/XMLSchema#>"@,
{
    OwlStdPrefix::Xsd(
        PrefixObject { prefix_name: "xsd:", prefix_iri: "<http://www.w3.org/2001/XMLSchema#>" },
    )
}

pub fn get_owl_prefix<'a>() -> (p: OwlStdPrefix<'a>)
    ensures
        p matches OwlStdPrefix::Owl(o) && o.prefix_name@ == "owl:"@ && o.prefix_iri@
            == "<http://www.w3.org/2002/07/owl#>"@,
{
    OwlStdPrefix::Owl(
        PrefixObject { prefix_name: "owl:", prefix_iri: "<http://www.w3.org/2002/07/owl#>" },
    )
}

} // verus!
