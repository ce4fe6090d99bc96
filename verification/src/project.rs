//! The manifest model: loads a `package.json` text, answers queries about its
//! dependency mappings, rewrites single dependency versions, and renders the
//! document back to text.  The document tree itself is kept opaque so that
//! fields the library does not model survive a load/write cycle unchanged;
//! the two dependency mappings are mirrored as ordered entry lists that all
//! verified reasoning works on.

use vstd::prelude::*;
use vstd::string::StringExecFns;

use crate::entries::{distinct_keys, find_key, has_pkey, pairs_view, replace_val};
use crate::json::{
    field_of, get_entries, get_field, get_str, json_text, obj_entries, parse_json, parsed_json,
    raw_entries_view, set_entry_string, str_of, string_entries_of, to_pretty,
};

verus! {

/// An error of the manifest model: the text is not well-formed JSON, or a
/// required top-level field is absent (or not a string).
#[derive(Clone, Copy, PartialEq, Eq, Structural, Debug)]
pub enum ManifestError {
    ParseError,
    MissingFieldError,
}

/// The key of the runtime dependency mapping.
pub open spec fn dep_key() -> Seq<char> {
    "dependencies"@
}

/// The key of the development dependency mapping.
pub open spec fn dev_key() -> Seq<char> {
    "devDependencies"@
}

/// The two section keys differ.
pub proof fn lemma_section_keys_distinct()
    ensures
        dep_key() != dev_key(),
{
    reveal_strlit("dependencies");
    reveal_strlit("devDependencies");
    assert(dep_key().len() == 12);
    assert(dev_key().len() == 15);
}

/// The entries of the section of `v` under `key`, when that section is an
/// object all of whose values are strings; `None` otherwise.
pub open spec fn section_view(v: serde_json::Value, key: Seq<char>) -> Option<
    Seq<(Seq<char>, Seq<char>)>,
> {
    match field_of(v, key) {
        Some(f) => string_entries_of(f),
        None => None,
    }
}

/// `o` holds an entry list that has key `k`.
pub open spec fn has_skey(o: Option<Seq<(Seq<char>, Seq<char>)>>, k: Seq<char>) -> bool {
    o matches Some(es) && has_pkey(es, k)
}

/// `version` with the range prefix put back in front, if one was recorded.
pub open spec fn compose_version(prefix: Option<char>, version: Seq<char>) -> Seq<char> {
    match prefix {
        Some(c) => seq![c] + version,
        None => version,
    }
}

/// Every field of the document other than the section under `sect` keeps its
/// value, and the root object keeps its keys and their order.
pub open spec fn root_frame(
    pre: serde_json::Value,
    post: serde_json::Value,
    sect: Seq<char>,
) -> bool {
    &&& forall|k: Seq<char>| k != sect ==> #[trigger] field_of(post, k) == field_of(pre, k)
    &&& match obj_entries(pre) {
        Some(r0) => obj_entries(post) matches Some(r1) && {
            &&& r1.len() == r0.len()
            &&& forall|i: int| 0 <= i < r0.len() ==> (#[trigger] r1[i]).0 == r0[i].0
            &&& forall|i: int|
                0 <= i < r0.len() && r0[i].0 != sect ==> (#[trigger] r1[i]).1 == r0[i].1
        },
        None => true,
    }
}

/// Every field of the document other than the two dependency sections keeps
/// its value.
pub open spec fn sections_frame(pre: serde_json::Value, post: serde_json::Value) -> bool {
    forall|k: Seq<char>|
        k != dep_key() && k != dev_key() ==> #[trigger] field_of(post, k) == field_of(pre, k)
}

/// A project read from a `package.json` document.
pub struct Project {
    values: serde_json::Value,
    deps: Option<Vec<(String, String)>>,
    dev_deps: Option<Vec<(String, String)>>,
}

impl Project {
    /// The runtime dependency entries, in document order.
    pub closed spec fn dep_entries(self) -> Option<Seq<(Seq<char>, Seq<char>)>> {
        match self.deps {
            Some(es) => Some(pairs_view(es@)),
            None => None,
        }
    }

    /// The development dependency entries, in document order.
    pub closed spec fn dev_entries(self) -> Option<Seq<(Seq<char>, Seq<char>)>> {
        match self.dev_deps {
            Some(es) => Some(pairs_view(es@)),
            None => None,
        }
    }

    /// The underlying document tree.
    pub closed spec fn doc(self) -> serde_json::Value {
        self.values
    }

    /// One section mirror agrees with the document: when the mirror is
    /// present it is exactly the section's entries, with distinct keys; when
    /// it is absent the document has no such well-shaped section.
    pub open spec fn sect_wf(
        mirror: Option<Seq<(Seq<char>, Seq<char>)>>,
        v: serde_json::Value,
        key: Seq<char>,
    ) -> bool {
        match mirror {
            Some(es) => {
                &&& section_view(v, key) == Some(es)
                &&& distinct_keys(es)
            },
            None => section_view(v, key) is None,
        }
    }

    /// Both mirrors agree with the document.
    pub closed spec fn wf(self) -> bool {
        &&& Self::sect_wf(self.dep_entries(), self.values, dep_key())
        &&& Self::sect_wf(self.dev_entries(), self.values, dev_key())
    }

    /// Parse a manifest text.  Succeeds exactly on well-formed JSON; each
    /// dependency mapping that is present as an object of strings is mirrored
    /// in document order with its original values.
    pub fn new(contents: &str) -> (r: Result<Project, ManifestError>)
        ensures
            match r {
                Ok(p) => {
                    &&& parsed_json(contents@) == Some(p.doc())
                    &&& p.wf()
                    &&& p.dep_entries() == section_view(p.doc(), dep_key())
                    &&& p.dev_entries() == section_view(p.doc(), dev_key())
                },
                Err(e) => e == ManifestError::ParseError && parsed_json(contents@) is None,
            },
    {
        match parse_json(contents) {
            Ok(values) => {
                let deps = extract_section(&values, "dependencies");
                let dev_deps = extract_section(&values, "devDependencies");
                Ok(Project { values, deps, dev_deps })
            },
            Err(_) => Err(ManifestError::ParseError),
        }
    }

    /// The runtime dependency mapping, or `None` when the document has no
    /// well-shaped one.
    pub fn dependencies(&self) -> (r: Option<&Vec<(String, String)>>)
        ensures
            match r {
                Some(es) => self.dep_entries() == Some(pairs_view(es@)),
                None => self.dep_entries() is None,
            },
    {
        self.deps.as_ref()
    }

    /// The development dependency mapping, or `None` when the document has no
    /// well-shaped one.
    pub fn dev_dependencies(&self) -> (r: Option<&Vec<(String, String)>>)
        ensures
            match r {
                Some(es) => self.dev_entries() == Some(pairs_view(es@)),
                None => self.dev_entries() is None,
            },
    {
        self.dev_deps.as_ref()
    }

    /// The top-level `name` field; `MissingFieldError` when it is absent or
    /// not a string.
    pub fn name(&self) -> (r: Result<String, ManifestError>)
        ensures
            match r {
                Ok(s) => field_of(self.doc(), "name"@) matches Some(f) && str_of(f) == Some(s@),
                Err(e) => e == ManifestError::MissingFieldError && !(field_of(self.doc(), "name"@)
                    matches Some(f) && str_of(f) is Some),
            },
    {
        match get_field(&self.values, "name") {
            Some(f) => match get_str(f) {
                Some(s) => Ok(s),
                None => Err(ManifestError::MissingFieldError),
            },
            None => Err(ManifestError::MissingFieldError),
        }
    }

    /// The top-level `version` field; `MissingFieldError` when it is absent
    /// or not a string.
    pub fn version(&self) -> (r: Result<String, ManifestError>)
        ensures
            match r {
                Ok(s) => field_of(self.doc(), "version"@) matches Some(f) && str_of(f) == Some(
                    s@,
                ),
                Err(e) => e == ManifestError::MissingFieldError && !(field_of(
                    self.doc(),
                    "version"@,
                ) matches Some(f) && str_of(f) is Some),
            },
    {
        match get_field(&self.values, "version") {
            Some(f) => match get_str(f) {
                Some(s) => Ok(s),
                None => Err(ManifestError::MissingFieldError),
            },
            None => Err(ManifestError::MissingFieldError),
        }
    }

    /// Replace the version of one dependency with `range_prefix` + `version`.
    /// The name is looked up first in the runtime mapping, else in the
    /// development mapping (first match wins — a name present in both only
    /// ever updates the runtime entry); a name found in neither leaves the
    /// project untouched.  Keys, entry order, and every other field of the
    /// document are preserved.
    pub fn update_dependency_version(
        &mut self,
        name: &str,
        version: &String,
        range_prefix: Option<char>,
    )
        requires
            old(self).wf(),
            range_prefix matches Some(c) ==> c == '^' || c == '~',
        ensures
            final(self).wf(),
            spec_update(*old(self), *final(self), name@, compose_version(range_prefix, version@)),
    {
        let new_value = composed(range_prefix, version);
        proof {
            lemma_section_keys_distinct();
        }
        let ghost nv = compose_version(range_prefix, version@);
        let name_owned: String = name.to_owned();
        let in_deps = match &self.deps {
            Some(es) => find_key(es, &name_owned),
            None => None,
        };
        if let Some(i) = in_deps {
            proof {
                crate::entries::lemma_has_pkey_index(old(self).deps.unwrap()@, name@);
            }
            update_section(
                &mut self.values,
                &mut self.deps,
                "dependencies",
                &name_owned,
                i,
                &new_value,
            );
            proof {
                let es_old = old(self).dep_entries().unwrap();
                assert(has_skey(old(self).dep_entries(), name@));
                assert(self.dep_entries() == Some(replace_val(es_old, name@, nv)));
                assert(Self::sect_wf(self.dev_entries(), self.values, dev_key())) by {
                    assert(field_of(self.values, dev_key()) == field_of(
                        old(self).values,
                        dev_key(),
                    ));
                }
            }
            return ;
        }
        proof {
            if old(self).deps is Some {
                crate::entries::lemma_has_pkey_index(old(self).deps.unwrap()@, name@);
            }
            assert(!has_skey(old(self).dep_entries(), name@));
        }
        let in_dev = match &self.dev_deps {
            Some(es) => find_key(es, &name_owned),
            None => None,
        };
        if let Some(i) = in_dev {
            proof {
                crate::entries::lemma_has_pkey_index(old(self).dev_deps.unwrap()@, name@);
            }
            update_section(
                &mut self.values,
                &mut self.dev_deps,
                "devDependencies",
                &name_owned,
                i,
                &new_value,
            );
            proof {
                let es_old = old(self).dev_entries().unwrap();
                assert(has_skey(old(self).dev_entries(), name@));
                assert(self.dev_entries() == Some(replace_val(es_old, name@, nv)));
                assert(Self::sect_wf(self.dep_entries(), self.values, dep_key())) by {
                    assert(field_of(self.values, dep_key()) == field_of(
                        old(self).values,
                        dep_key(),
                    ));
                }
            }
        } else {
            proof {
                if old(self).dev_deps is Some {
                    crate::entries::lemma_has_pkey_index(old(self).dev_deps.unwrap()@, name@);
                }
                assert(!has_skey(old(self).dev_entries(), name@));
                assert(*final(self) == *old(self));
            }
        }
    }

    /// Render the document back to pretty-printed text.  Parsing the result
    /// yields the same tree back, so a load/write cycle with no mutations
    /// preserves the document.
    pub fn to_json_text(&self) -> (r: String)
        ensures
            r@ == json_text(self.doc()),
            parsed_json(r@) == Some(self.doc()),
    {
        to_pretty(&self.values)
    }
}

/// How one `update_dependency_version` call relates the project after the
/// call to the one before, for a composed new value `nv`.
pub open spec fn spec_update(pre: Project, post: Project, name: Seq<char>, nv: Seq<char>) -> bool {
    if has_skey(pre.dep_entries(), name) {
        &&& post.dep_entries() == Some(replace_val(pre.dep_entries().unwrap(), name, nv))
        &&& post.dev_entries() == pre.dev_entries()
        &&& root_frame(pre.doc(), post.doc(), dep_key())
    } else if has_skey(pre.dev_entries(), name) {
        &&& post.dev_entries() == Some(replace_val(pre.dev_entries().unwrap(), name, nv))
        &&& post.dep_entries() == pre.dep_entries()
        &&& root_frame(pre.doc(), post.doc(), dev_key())
    } else {
        post == pre
    }
}

/// Build `range_prefix` + `version` as an owned string.
pub(crate) fn composed(range_prefix: Option<char>, version: &String) -> (r: String)
    requires
        range_prefix matches Some(c) ==> c == '^' || c == '~',
    ensures
        r@ == compose_version(range_prefix, version@),
{
    match range_prefix {
        Some(c) => {
            let mut s = String::new();
            if c == '^' {
                s.append("^");
            } else {
                s.append("~");
            }
            s.append(version.as_str());
            proof {
                reveal_strlit("^");
                reveal_strlit("~");
                assert(s@ =~= compose_version(range_prefix, version@));
            }
            s
        },
        None => version.clone(),
    }
}

/// Extract one dependency section as an owned entry list: `Some` exactly when
/// the section is present as an object all of whose values are strings.
pub(crate) fn extract_section(v: &serde_json::Value, key: &str) -> (r: Option<Vec<(String, String)>>)
    ensures
        match r {
            Some(es) => section_view(*v, key@) == Some(pairs_view(es@)) && distinct_keys(
                pairs_view(es@),
            ),
            None => section_view(*v, key@) is None,
        },
{
    let f = match get_field(v, key) {
        Some(f) => f,
        None => {
            return None;
        },
    };
    let raw = match get_entries(f) {
        Some(raw) => raw,
        None => {
            return None;
        },
    };
    let ghost raw_view = raw_entries_view(raw@);
    let mut out: Vec<(String, String)> = Vec::new();
    let mut i: usize = 0;
    while i < raw.len()
        invariant
            0 <= i <= raw@.len(),
            raw_view == raw_entries_view(raw@),
            field_of(*v, key@) == Some(*f),
            obj_entries(*f) == Some(raw_view),
            raw_view.len() == raw@.len(),
            out@.len() == i,
            forall|j: int|
                0 <= j < i ==> str_of(#[trigger] raw_view[j].1) == Some(out@[j].1@) && out@[j].0@
                    == raw_view[j].0,
        decreases raw@.len() - i,
    {
        let (k, val) = &raw[i];
        match get_str(val) {
            Some(s) => {
                out.push((k.clone(), s));
            },
            None => {
                proof {
                    assert(str_of(raw_view[i as int].1) is None);
                    assert(string_entries_of(*f) is None);
                }
                return None;
            },
        }
        i = i + 1;
    }
    proof {
        assert(forall|j: int| 0 <= j < raw_view.len() ==> str_of(#[trigger] raw_view[j].1) is Some);
        assert(string_entries_of(*f) == Some(pairs_view(out@))) by {
            assert(string_entries_of(*f) matches Some(sv) && sv =~= pairs_view(out@));
        }
        assert(distinct_keys(pairs_view(out@)));
    }
    Some(out)
}

/// Write the new value of one entry through to the document and to its
/// mirror.  `idx` is the first position of `name` in the mirror.
pub(crate) fn update_section(
    values: &mut serde_json::Value,
    mirror: &mut Option<Vec<(String, String)>>,
    section: &str,
    name: &String,
    idx: usize,
    new_value: &String,
)
    requires
        (*old(mirror)) matches Some(es) && 0 <= idx < es@.len() && es@[idx as int].0@ == name@,
        ({
            let es = pairs_view((*old(mirror)).unwrap()@);
            &&& section_view(*old(values), section@) == Some(es)
            &&& distinct_keys(es)
        }),
    ensures
        ({
            let es = pairs_view((*old(mirror)).unwrap()@);
            &&& (*final(mirror)) matches Some(m2) && pairs_view(m2@) =~= replace_val(
                es,
                name@,
                new_value@,
            )
            &&& section_view(*final(values), section@) == Some(replace_val(es, name@, new_value@))
            &&& distinct_keys(replace_val(es, name@, new_value@))
            &&& root_frame(*old(values), *final(values), section@)
        }),
{
    let ghost es = pairs_view((*old(mirror)).unwrap()@);
    let ghost f0 = field_of(*old(values), section@).unwrap();
    let ghost es0 = obj_entries(f0).unwrap();
    proof {
        // The section object's raw entries line up with the string view.
        assert(string_entries_of(f0) == Some(es));
        assert(es0.len() == es.len());
        assert(forall|i: int| 0 <= i < es0.len() ==> (#[trigger] es0[i]).0 == es[i].0);
        assert(es0[idx as int].0 == name@);
    }
    let ok = set_entry_string(values, section, name.as_str(), new_value.as_str());
    proof {
        assert(crate::json::obj_has_key(es0, name@));
        assert(ok);
        let f1 = field_of(*values, section@).unwrap();
        let es1 = obj_entries(f1).unwrap();
        assert(forall|i: int| 0 <= i < es1.len() ==> str_of(#[trigger] es1[i].1) is Some) by {
            assert(forall|i: int|
                0 <= i < es0.len() && es0[i].0 != name@ ==> str_of(#[trigger] es1[i].1) == str_of(
                    es0[i].1,
                ));
        }
        assert(string_entries_of(f1) matches Some(sv1) && sv1 =~= replace_val(
            es,
            name@,
            new_value@,
        ));
        assert(distinct_keys(replace_val(es, name@, new_value@)));
    }
    if let Some(m) = mirror {
        m[idx].1 = new_value.clone();
        proof {
            assert(pairs_view(m@) =~= replace_val(es, name@, new_value@));
        }
    }
}

/// A well-formed project's mirrored sections have pairwise-distinct keys.
pub proof fn lemma_wf_entries(p: Project)
    requires
        p.wf(),
    ensures
        p.dep_entries() matches Some(es) ==> distinct_keys(es),
        p.dev_entries() matches Some(es) ==> distinct_keys(es),
{
}

/// Law: writing a loaded document with no mutations and loading the written
/// text again yields the same document tree with the same dependency views.
pub fn write_then_load(p: &Project) -> (q: Project)
    requires
        p.wf(),
    ensures
        q.doc() == p.doc(),
        q.dep_entries() == p.dep_entries(),
        q.dev_entries() == p.dev_entries(),
        q.wf(),
{
    let text = p.to_json_text();
    match Project::new(text.as_str()) {
        Ok(q) => q,
        Err(_) => {
            proof {
                assert(false);
            }
            vstd::pervasive::unreached()
        },
    }
}

} // verus!
