//! The read-only facade over a built database: lookup, subparameter
//! retrieval, tree construction, applicability filtering and querying.

use vstd::prelude::*;

use crate::assoc::assoc_get;
use crate::database::{resolve_names, DbV, LoadedDatabase};
use crate::parameter::{Parameter, ParamV};
use crate::probe::SystemProbe;
use crate::query::{matches_query_spec, query_matches, QueryParameters};

verus! {

/// Per-vendor history of one parameter.
#[derive(Debug)]
pub struct VendorVersion {
    pub introduced: Option<String>,
    pub commit: Option<String>,
    pub notes: Option<String>,
}

/// Mainline and per-vendor history of one parameter.
#[derive(Debug)]
pub struct VersionInfo {
    pub introduced: Option<String>,
    pub commit: Option<String>,
    pub last_modified: Option<String>,
    pub last_modified_commit: Option<String>,
    pub vendors: Vec<(String, Vec<(String, VendorVersion)>)>,
}

/// One parameter together with its surroundings, for presentation.
#[derive(Debug)]
pub struct ParameterInfo {
    pub parameter: Parameter,
    pub subparameters: Vec<Parameter>,
    pub applicable: bool,
    pub version_info: VersionInfo,
}

/// A parameter with its nested subparameters, keyed by child name.
pub struct ParameterTree {
    pub root: Parameter,
    pub children: Vec<(String, ParameterTree)>,
}

/// The queryable, immutable view of the merged parameter database.
pub struct ParameterCatalog {
    pub database: LoadedDatabase,
}

impl View for ParameterCatalog {
    type V = DbV;

    open spec fn view(&self) -> DbV {
        self.database@
    }
}

impl ParameterCatalog {
    /// Wraps a built database.
    pub fn from_database(database: LoadedDatabase) -> (r: ParameterCatalog)
        ensures
            r@ == database@,
    {
        ParameterCatalog { database }
    }

    /// All parameters, in database order.
    pub fn parameters(&self) -> (r: Vec<&Parameter>)
        ensures
            r@.len() == self@.parameters.len(),
            forall|i: int| 0 <= i < r@.len() ==> #[trigger] r@[i]@ == self@.parameters[i].1,
    {
        self.database.all_parameters()
    }

    /// The record stored under `name`, if any.
    pub fn get_parameter(&self, name: &str) -> (r: Option<&Parameter>)
        ensures
            match r {
                Some(p) => assoc_get(self@.parameters, name@) == Some(p@),
                None => assoc_get(self@.parameters, name@) is None,
            },
    {
        self.database.get_parameter(name)
    }

    /// The records of the children listed under `parent_name`.
    pub fn get_subparameters(&self, parent_name: &str) -> (r: Vec<&Parameter>)
        ensures
            r@.map_values(|p: &Parameter| p@) == match assoc_get(
                self@.subparameter_index,
                parent_name@,
            ) {
                Some(children) => resolve_names(self@.parameters, children),
                None => Seq::<ParamV>::empty(),
            },
    {
        self.database.get_subparameters(parent_name)
    }

    /// The parameters that match a filter, judged against the probed system
    /// state.
    #[verifier::loop_isolation(false)]
    pub fn query_parameters(&self, query: &QueryParameters, probe: &SystemProbe) -> (r: Vec<
        &Parameter,
    >)
        ensures
            r@.map_values(|p: &Parameter| p@) == self@.parameters.map_values(
                |e: (Seq<char>, ParamV)| e.1,
            ).filter(|pv: ParamV| matches_query_spec(query@, pv, probe)),
    {
        let ghost all = self@.parameters.map_values(|e: (Seq<char>, ParamV)| e.1);
        let mut out: Vec<&Parameter> = Vec::new();
        let mut i: usize = 0;
        proof {
            assert(out@.map_values(|p: &Parameter| p@) =~= all.take(0).filter(
                |pv: ParamV| matches_query_spec(query@, pv, probe),
            ));
        }
        while i < self.database.parameters.len()
            invariant
                i <= self.database.parameters@.len(),
                all.len() == self.database.parameters@.len(),
                forall|j: int| 0 <= j < all.len() ==> all[j] == self@.parameters[j].1,
                out@.map_values(|p: &Parameter| p@) == all.take(i as int).filter(
                    |pv: ParamV| matches_query_spec(query@, pv, probe),
                ),
            decreases self.database.parameters@.len() - i,
        {
            proof {
                assert(all.take(i + 1).drop_last() =~= all.take(i as int));
                assert(all.take(i + 1).last() == all[i as int]);
                reveal_with_fuel(Seq::filter, 2);
            }
            let p = &self.database.parameters[i].1;
            let keep = query_matches(query, p, probe);
            let ghost prev = out@.map_values(|q: &Parameter| q@);
            if keep {
                out.push(p);
                proof {
                    assert(out@.map_values(|q: &Parameter| q@) =~= prev.push(p@));
                }
            }
            proof {
                assert(out@.map_values(|q: &Parameter| q@) =~= all.take(i + 1).filter(
                    |pv: ParamV| matches_query_spec(query@, pv, probe),
                ));
            }
            i = i + 1;
        }
        proof {
            assert(all.take(all.len() as int) =~= all);
        }
        out
    }

    /// The parameters whose selector tags are all satisfied by the probe.
    #[verifier::loop_isolation(false)]
    pub fn get_applicable_parameters(&self, probe: &SystemProbe) -> (r: Vec<&Parameter>)
        ensures
            r@.map_values(|p: &Parameter| p@) == self@.parameters.map_values(
                |e: (Seq<char>, ParamV)| e.1,
            ).filter(|pv: ParamV| crate::query::applicable_spec(pv, probe)),
    {
        let ghost all = self@.parameters.map_values(|e: (Seq<char>, ParamV)| e.1);
        let mut out: Vec<&Parameter> = Vec::new();
        let mut i: usize = 0;
        proof {
            assert(out@.map_values(|p: &Parameter| p@) =~= all.take(0).filter(
                |pv: ParamV| crate::query::applicable_spec(pv, probe),
            ));
        }
        while i < self.database.parameters.len()
            invariant
                i <= self.database.parameters@.len(),
                all.len() == self.database.parameters@.len(),
                forall|j: int| 0 <= j < all.len() ==> all[j] == self@.parameters[j].1,
                out@.map_values(|p: &Parameter| p@) == all.take(i as int).filter(
                    |pv: ParamV| crate::query::applicable_spec(pv, probe),
                ),
            decreases self.database.parameters@.len() - i,
        {
            proof {
                assert(all.take(i + 1).drop_last() =~= all.take(i as int));
                assert(all.take(i + 1).last() == all[i as int]);
                reveal_with_fuel(Seq::filter, 2);
            }
            let p = &self.database.parameters[i].1;
            let keep = crate::query::applicable_exec(p, probe);
            let ghost prev = out@.map_values(|q: &Parameter| q@);
            if keep {
                out.push(p);
                proof {
                    assert(out@.map_values(|q: &Parameter| q@) =~= prev.push(p@));
                }
            }
            proof {
                assert(out@.map_values(|q: &Parameter| q@) =~= all.take(i + 1).filter(
                    |pv: ParamV| crate::query::applicable_spec(pv, probe),
                ));
            }
            i = i + 1;
        }
        proof {
            assert(all.take(all.len() as int) =~= all);
        }
        out
    }

    /// Length of the longest parameter name; nesting can never be deeper,
    /// because every child name is strictly longer than its parent's.
    fn longest_name(&self) -> (r: usize)
        ensures
            forall|i: int|
                0 <= i < self@.parameters.len() ==> #[trigger] self@.parameters[i].0.len()
                    <= r as nat,
    {
        let mut best: usize = 0;
        let mut i: usize = 0;
        while i < self.database.parameters.len()
            invariant
                i <= self.database.parameters@.len(),
                forall|j: int|
                    0 <= j < i ==> #[trigger] self@.parameters[j].0.len() <= best as nat,
            decreases self.database.parameters@.len() - i,
        {
            let n = self.database.parameters[i].0.as_str().unicode_len();
            if n > best {
                best = n;
            }
            i = i + 1;
        }
        best
    }

    /// The tree rooted at `name`: the record itself, and below it one tree
    /// per subparameter, keyed by child name. Deeper levels follow the
    /// subparameter index; in a built database nesting is bounded by name
    /// length, which the starting depth covers.
    pub fn build_parameter_tree(&self, name: &str) -> (r: Option<ParameterTree>)
        ensures
            r is Some <==> assoc_get(self@.parameters, name@) is Some,
            r matches Some(t) ==> assoc_get(self@.parameters, name@) == Some(t.root@),
            r matches Some(t) ==> forall|i: int|
                0 <= i < t.children@.len() ==> assoc_get(
                    self@.parameters,
                    (#[trigger] t.children@[i]).0@,
                ) == Some(t.children@[i].1.root@),
    {
        let depth = self.longest_name();
        self.build_tree_depth(name, depth)
    }

    #[verifier::loop_isolation(false)]
    fn build_tree_depth(&self, name: &str, depth: usize) -> (r: Option<ParameterTree>)
        ensures
            r is Some <==> assoc_get(self@.parameters, name@) is Some,
            r matches Some(t) ==> assoc_get(self@.parameters, name@) == Some(t.root@),
            r matches Some(t) ==> forall|i: int|
                0 <= i < t.children@.len() ==> assoc_get(
                    self@.parameters,
                    (#[trigger] t.children@[i]).0@,
                ) == Some(t.children@[i].1.root@),
        decreases depth,
    {
        let root = match self.get_parameter(name) {
            Some(p) => p.clone(),
            None => {
                return None;
            },
        };
        let mut children: Vec<(String, ParameterTree)> = Vec::new();
        if depth > 0 {
            let mut i: usize = 0;
            while i < self.database.subparameter_index.len()
                invariant
                    i <= self.database.subparameter_index@.len(),
                    forall|k: int|
                        0 <= k < children@.len() ==> assoc_get(
                            self@.parameters,
                            (#[trigger] children@[k]).0@,
                        ) == Some(children@[k].1.root@),
                decreases self.database.subparameter_index@.len() - i,
            {
                if crate::strutil::string_eq_str(&self.database.subparameter_index[i].0, name) {
                    let names = &self.database.subparameter_index[i].1;
                    let mut j: usize = 0;
                    while j < names.len()
                        invariant
                            j <= names@.len(),
                            forall|k: int|
                                0 <= k < children@.len() ==> assoc_get(
                                    self@.parameters,
                                    (#[trigger] children@[k]).0@,
                                ) == Some(children@[k].1.root@),
                        decreases names@.len() - j,
                    {
                        match self.build_tree_depth(names[j].as_str(), depth - 1) {
                            Some(t) => {
                                children.push((names[j].clone(), t));
                            },
                            None => (),
                        }
                        j = j + 1;
                    }
                    break ;
                }
                i = i + 1;
            }
        }
        Some(ParameterTree { root, children })
    }
}

} // verus!
