//! The framework invariants an agent is given, one document per package.
use vstd::prelude::*;

verus! {

/// The invariants documents of the framework's packages.
#[derive(Debug, Clone)]
pub struct InvariantDocs {
    pub core: String,
    pub agent: String,
    pub cli: String,
    pub orm: String,
    pub schema: String,
    pub test: String,
    pub utils: String,
    pub fmt: String,
    pub bench: String,
    pub montrs: String,
}

/// The package names the invariants are listed under, in order.
pub open spec fn invariant_keys() -> Seq<Seq<char>> {
    seq!["core"@, "agent"@, "cli"@, "orm"@, "schema"@, "test"@, "utils"@, "fmt"@, "bench"@, "montrs"@]
}

/// The documents in the order of `invariant_keys`.
pub open spec fn invariant_texts(d: InvariantDocs) -> Seq<Seq<char>> {
    seq![d.core@, d.agent@, d.cli@, d.orm@, d.schema@, d.test@, d.utils@, d.fmt@, d.bench@, d.montrs@]
}

/// The invariants of every package, keyed by the package's name.
pub fn get_framework_invariants(docs: &InvariantDocs) -> (m: Vec<(String, String)>)
    ensures
        m@.len() == 10,
        forall|i: int| 0 <= i < 10 ==> (#[trigger] m@[i]).0@ == invariant_keys()[i] && m@[i].1@ == invariant_texts(*docs)[i],
{
    let m = vec![
        ("core".to_owned(), docs.core.clone()),
        ("agent".to_owned(), docs.agent.clone()),
        ("cli".to_owned(), docs.cli.clone()),
        ("orm".to_owned(), docs.orm.clone()),
        ("schema".to_owned(), docs.schema.clone()),
        ("test".to_owned(), docs.test.clone()),
        ("utils".to_owned(), docs.utils.clone()),
        ("fmt".to_owned(), docs.fmt.clone()),
        ("bench".to_owned(), docs.bench.clone()),
        ("montrs".to_owned(), docs.montrs.clone()),
    ];
    m
}

} // verus!
