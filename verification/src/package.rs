//! The report-driven manifest type: the same `package.json` document model
//! as `Project`, with the accessors the batch flow uses.  Its dependency
//! accessors demand the mapping's presence outright instead of returning an
//! optional one.

use vstd::prelude::*;

use crate::entries::{distinct_keys, find_key, has_pkey, pairs_view, replace_val};
use crate::json::{json_text, parse_json, parsed_json, to_pretty};
use crate::project::{
    compose_version, composed, dep_key, dev_key, extract_section, has_skey,
    lemma_section_keys_distinct, root_frame, section_view, update_section, ManifestError,
};
use crate::report::Report;

verus! {

/// A `package.json` document, with both dependency mappings mirrored.
pub struct PackageJson {
    values: serde_json::Value,
    deps: Option<Vec<(String, String)>>,
    dev_deps: Option<Vec<(String, String)>>,
}

/// The keys of an entry list.
pub open spec fn keys_of(es: Seq<(Seq<char>, Seq<char>)>) -> Seq<Seq<char>> {
    es.map_values(|p: (Seq<char>, Seq<char>)| p.0)
}

impl PackageJson {
    /// The runtime dependency entries, in document order.
    pub closed spec fn dep_entries(self) -> Option<Seq<(Seq<char>, Seq<char>)>> {
        match self.deps {
            Some(es) => Some(pairs_view(es@)),
            None => None,
        }
    }

    /// The development dependency entries, in document order.
    pub closed spec fn dev_entries(self) -> Option<Seq<(Seq<char>, Seq<char>)>> {
        match self.dev_deps {
            Some(es) => Some(pairs_view(es@)),
            None => None,
        }
    }

    /// The underlying document tree.
    pub closed spec fn doc(self) -> serde_json::Value {
        self.values
    }

    /// Both mirrors agree with the document.
    pub closed spec fn wf(self) -> bool {
        &&& Self::sect_wf(self.dep_entries(), self.values, dep_key())
        &&& Self::sect_wf(self.dev_entries(), self.values, dev_key())
    }

    /// One section mirror agrees with the document.
    pub open spec fn sect_wf(
        mirror: Option<Seq<(Seq<char>, Seq<char>)>>,
        v: serde_json::Value,
        key: Seq<char>,
    ) -> bool {
        match mirror {
            Some(es) => {
                &&& section_view(v, key) == Some(es)
                &&& distinct_keys(es)
            },
            None => section_view(v, key) is None,
        }
    }

    /// Parse a manifest text, exactly as `Project::new` does.
    pub fn new(contents: &str) -> (r: Result<PackageJson, ManifestError>)
        ensures
            match r {
                Ok(p) => {
                    &&& parsed_json(contents@) == Some(p.doc())
                    &&& p.wf()
                    &&& p.dep_entries() == section_view(p.doc(), dep_key())
                    &&& p.dev_entries() == section_view(p.doc(), dev_key())
                },
                Err(e) => e == ManifestError::ParseError && parsed_json(contents@) is None,
            },
    {
        match parse_json(contents) {
            Ok(values) => {
                let deps = extract_section(&values, "dependencies");
                let dev_deps = extract_section(&values, "devDependencies");
                Ok(PackageJson { values, deps, dev_deps })
            },
            Err(_) => Err(ManifestError::ParseError),
        }
    }

    /// The runtime dependency mapping, which the caller must know to be
    /// present.
    pub fn dependencies(&self) -> (r: &Vec<(String, String)>)
        requires
            self.dep_entries() is Some,
        ensures
            self.dep_entries() == Some(pairs_view(r@)),
    {
        match &self.deps {
            Some(es) => es,
            None => vstd::pervasive::unreached(),
        }
    }

    /// The development dependency mapping, which the caller must know to be
    /// present.
    pub fn dev_dependencies(&self) -> (r: &Vec<(String, String)>)
        requires
            self.dev_entries() is Some,
        ensures
            self.dev_entries() == Some(pairs_view(r@)),
    {
        match &self.dev_deps {
            Some(es) => es,
            None => vstd::pervasive::unreached(),
        }
    }

    /// The names of every dependency, runtime first, then development.
    pub fn all_dependency_keys_iter(&self) -> (r: Vec<String>)
        requires
            self.dep_entries() is Some,
            self.dev_entries() is Some,
        ensures
            names_of(r@) == keys_of(self.dep_entries().unwrap()) + keys_of(
                self.dev_entries().unwrap(),
            ),
    {
        let mut out: Vec<String> = Vec::new();
        push_keys(&mut out, self.dependencies());
        push_keys(&mut out, self.dev_dependencies());
        proof {
            assert(names_of(out@) =~= keys_of(self.dep_entries().unwrap()) + keys_of(
                self.dev_entries().unwrap(),
            ));
        }
        out
    }

    /// Every dependency entry, runtime first, then development.
    pub fn all_dependencies_iter(&self) -> (r: Vec<(String, String)>)
        requires
            self.dep_entries() is Some,
            self.dev_entries() is Some,
        ensures
            pairs_view(r@) == self.dep_entries().unwrap() + self.dev_entries().unwrap(),
    {
        let mut out: Vec<(String, String)> = Vec::new();
        push_entries(&mut out, self.dependencies());
        push_entries(&mut out, self.dev_dependencies());
        proof {
            assert(pairs_view(out@) =~= self.dep_entries().unwrap() + self.dev_entries().unwrap());
        }
        out
    }

    /// Replace one dependency's version with what the report records: the
    /// recorded range symbol put in front of the latest version, written to
    /// the runtime entry of that name if there is one, else to the
    /// development entry, else nowhere.
    pub fn update_dependency_version(&mut self, report: Report)
        requires
            old(self).wf(),
            report.range_symbol matches Some(c) ==> c == '^' || c == '~',
        ensures
            final(self).wf(),
            spec_update_pj(
                *old(self),
                *final(self),
                report.package_name@,
                compose_version(report.range_symbol, report.latest_version@),
            ),
    {
        let new_value = composed(report.range_symbol, &report.latest_version);
        proof {
            lemma_section_keys_distinct();
        }
        let ghost nv = compose_version(report.range_symbol, report.latest_version@);
        let name_owned: String = report.package_name;
        let in_deps = match &self.deps {
            Some(es) => find_key(es, &name_owned),
            None => None,
        };
        if let Some(i) = in_deps {
            proof {
                crate::entries::lemma_has_pkey_index(old(self).deps.unwrap()@, name_owned@);
            }
            update_section(
                &mut self.values,
                &mut self.deps,
                "dependencies",
                &name_owned,
                i,
                &new_value,
            );
            proof {
                let es_old = old(self).dep_entries().unwrap();
                assert(has_skey(old(self).dep_entries(), name_owned@));
                assert(self.dep_entries() == Some(replace_val(es_old, name_owned@, nv)));
                assert(Self::sect_wf(self.dev_entries(), self.values, dev_key())) by {
                    assert(crate::json::field_of(self.values, dev_key())
                        == crate::json::field_of(old(self).values, dev_key()));
                }
            }
            return ;
        }
        proof {
            if old(self).deps is Some {
                crate::entries::lemma_has_pkey_index(old(self).deps.unwrap()@, name_owned@);
            }
            assert(!has_skey(old(self).dep_entries(), name_owned@));
        }
        let in_dev = match &self.dev_deps {
            Some(es) => find_key(es, &name_owned),
            None => None,
        };
        if let Some(i) = in_dev {
            proof {
                crate::entries::lemma_has_pkey_index(old(self).dev_deps.unwrap()@, name_owned@);
            }
            update_section(
                &mut self.values,
                &mut self.dev_deps,
                "devDependencies",
                &name_owned,
                i,
                &new_value,
            );
            proof {
                let es_old = old(self).dev_entries().unwrap();
                assert(has_skey(old(self).dev_entries(), name_owned@));
                assert(self.dev_entries() == Some(replace_val(es_old, name_owned@, nv)));
                assert(Self::sect_wf(self.dep_entries(), self.values, dep_key())) by {
                    assert(crate::json::field_of(self.values, dep_key())
                        == crate::json::field_of(old(self).values, dep_key()));
                }
            }
        } else {
            proof {
                if old(self).dev_deps is Some {
                    crate::entries::lemma_has_pkey_index(old(self).dev_deps.unwrap()@, name_owned@);
                }
                assert(!has_skey(old(self).dev_entries(), name_owned@));
                assert(*final(self) == *old(self));
            }
        }
    }

    /// Render the document back to pretty-printed text for persisting.
    pub fn write_to_file(&self) -> (r: String)
        ensures
            r@ == json_text(self.doc()),
            parsed_json(r@) == Some(self.doc()),
    {
        to_pretty(&self.values)
    }
}

/// How one report application relates the document after to the one before.
pub open spec fn spec_update_pj(
    pre: PackageJson,
    post: PackageJson,
    name: Seq<char>,
    nv: Seq<char>,
) -> bool {
    if has_skey(pre.dep_entries(), name) {
        &&& post.dep_entries() == Some(replace_val(pre.dep_entries().unwrap(), name, nv))
        &&& post.dev_entries() == pre.dev_entries()
        &&& root_frame(pre.doc(), post.doc(), dep_key())
    } else if has_skey(pre.dev_entries(), name) {
        &&& post.dev_entries() == Some(replace_val(pre.dev_entries().unwrap(), name, nv))
        &&& post.dep_entries() == pre.dep_entries()
        &&& root_frame(pre.doc(), post.doc(), dev_key())
    } else {
        post == pre
    }
}

/// The views of a list of owned names.
pub open spec fn names_of(s: Seq<String>) -> Seq<Seq<char>> {
    s.map_values(|x: String| x@)
}

/// Append the keys of `es` to `out`.
fn push_keys(out: &mut Vec<String>, es: &Vec<(String, String)>)
    ensures
        names_of(final(out)@) == names_of(old(out)@) + keys_of(pairs_view(es@)),
{
    let mut i: usize = 0;
    while i < es.len()
        invariant
            i <= es@.len(),
            out@.len() == old(out)@.len() + i,
            forall|j: int| 0 <= j < old(out)@.len() ==> out@[j] == old(out)@[j],
            forall|j: int|
                old(out)@.len() <= j < out@.len() ==> (#[trigger] out@[j])@ == es@[j - old(
                    out,
                )@.len()].0@,
        decreases es@.len() - i,
    {
        out.push(es[i].0.clone());
        i = i + 1;
    }
    proof {
        assert(names_of(out@) =~= names_of(old(out)@) + keys_of(pairs_view(es@)));
    }
}

/// Append the entries of `es` to `out`.
fn push_entries(out: &mut Vec<(String, String)>, es: &Vec<(String, String)>)
    ensures
        pairs_view(final(out)@) == pairs_view(old(out)@) + pairs_view(es@),
{
    let mut i: usize = 0;
    while i < es.len()
        invariant
            i <= es@.len(),
            out@.len() == old(out)@.len() + i,
            forall|j: int| 0 <= j < old(out)@.len() ==> out@[j] == old(out)@[j],
            forall|j: int|
                old(out)@.len() <= j < out@.len() ==> (#[trigger] out@[j]).0@ == es@[j - old(
                    out,
                )@.len()].0@ && out@[j].1@ == es@[j - old(out)@.len()].1@,
        decreases es@.len() - i,
    {
        let k = es[i].0.clone();
        let v = es[i].1.clone();
        out.push((k, v));
        i = i + 1;
    }
    proof {
        assert(pairs_view(out@) =~= pairs_view(old(out)@) + pairs_view(es@));
    }
}

} // verus!
