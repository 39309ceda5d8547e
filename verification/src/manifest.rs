//! The manifest model: an ordered list of ticket specifications plus
//! optional workflow metadata, immutable after load.  Reading the file
//! and deserializing it happen outside this crate; validation and every
//! rule derived from the manifest are here.

use vstd::prelude::*;
use vstd::string::StrSliceExecFns;
use crate::errors::WorkflowError;
use crate::paths::extension_spec;
use crate::paths::extension_of;
use crate::paths::file_stem_spec;
use crate::paths::file_stem_of;
use crate::paths::is_absolute;
use crate::paths::is_absolute_spec;
use crate::paths::join_spec;
use crate::paths::parent_dir;
use crate::paths::parent_dir_spec;
use crate::paths::path_join;
use crate::text::str_eq;

verus! {

/// View of an optional string as an optional character sequence.
pub open spec fn opt_view(o: Option<String>) -> Option<Seq<char>> {
    match o {
        Some(s) => Some(s@),
        None => None,
    }
}

pub struct TicketSpecView {
    pub id: Seq<char>,
    pub summary: Seq<char>,
    pub requirements: Seq<Seq<char>>,
    pub working_dir: Option<Seq<char>>,
    pub prompt: Option<Seq<char>>,
    pub review_prompt: Option<Seq<char>>,
}

/// One unit of work described by the manifest.
#[derive(Debug, Clone)]
pub struct TicketSpec {
    pub id: String,
    pub summary: String,
    pub requirements: Vec<String>,
    pub working_dir: Option<String>,
    pub prompt: Option<String>,
    pub review_prompt: Option<String>,
}

impl View for TicketSpec {
    type V = TicketSpecView;

    open spec fn view(&self) -> TicketSpecView {
        TicketSpecView {
            id: self.id@,
            summary: self.summary@,
            requirements: self.requirements@.map_values(|s: String| s@),
            working_dir: opt_view(self.working_dir),
            prompt: opt_view(self.prompt),
            review_prompt: opt_view(self.review_prompt),
        }
    }
}

pub struct WorkflowManifestView {
    pub source_path: Seq<char>,
    pub name: Option<Seq<char>>,
    pub overview: Option<Seq<char>>,
    pub tickets: Seq<TicketSpecView>,
}

/// The loaded description of a whole workflow.
#[derive(Debug, Clone)]
pub struct WorkflowManifest {
    pub source_path: String,
    pub name: Option<String>,
    pub overview: Option<String>,
    pub tickets: Vec<TicketSpec>,
}

impl View for WorkflowManifest {
    type V = WorkflowManifestView;

    open spec fn view(&self) -> WorkflowManifestView {
        WorkflowManifestView {
            source_path: self.source_path@,
            name: opt_view(self.name),
            overview: opt_view(self.overview),
            tickets: self.tickets@.map_values(|t: TicketSpec| t@),
        }
    }
}

impl Default for WorkflowManifest {
    fn default() -> (r: WorkflowManifest)
        ensures
            r@.source_path.len() == 0,
            r@.name is None,
            r@.overview is None,
            r@.tickets.len() == 0,
    {
        WorkflowManifest {
            source_path: String::new(),
            name: None,
            overview: None,
            tickets: Vec::new(),
        }
    }
}

/// No two tickets share an id.
pub open spec fn unique_ids(tickets: Seq<TicketSpecView>) -> bool {
    forall|i: int, j: int|
        0 <= i < j < tickets.len() ==> tickets[i].id != tickets[j].id
}

/// The declared workflow name, or the manifest file's stem, or
/// `workflow` when both are empty.
pub open spec fn workflow_name_spec(m: WorkflowManifestView) -> Seq<char> {
    match m.name {
        Some(n) => n,
        None => {
            let stem = file_stem_spec(m.source_path);
            if stem.len() == 0 {
                "workflow"@
            } else {
                stem
            }
        },
    }
}

/// A ticket's working directory: its own if absolute, joined onto the
/// manifest directory if relative, the manifest directory if absent.
pub open spec fn resolved_working_dir_spec(t: TicketSpecView, manifest_dir: Seq<char>) -> Seq<
    char,
> {
    match t.working_dir {
        Some(p) => if is_absolute_spec(p) {
            p
        } else {
            join_spec(manifest_dir, p)
        },
        None => manifest_dir,
    }
}

impl TicketSpec {
    /// Resolve this ticket's working directory against the directory
    /// holding the manifest.
    pub fn resolved_working_dir(&self, manifest_dir: &str) -> (r: String)
        ensures
            r@ == resolved_working_dir_spec(self@, manifest_dir@),
    {
        match &self.working_dir {
            Some(p) => {
                if is_absolute(p.as_str()) {
                    p.clone()
                } else {
                    path_join(manifest_dir, p.as_str())
                }
            },
            None => manifest_dir.to_owned(),
        }
    }
}

impl WorkflowManifest {
    /// The directory containing the manifest file.
    pub fn manifest_dir(&self) -> (r: String)
        ensures
            r@ == parent_dir_spec(self@.source_path),
    {
        parent_dir(self.source_path.as_str())
    }

    /// The workflow's display name.
    pub fn workflow_name(&self) -> (r: String)
        ensures
            r@ == workflow_name_spec(self@),
    {
        match &self.name {
            Some(n) => n.clone(),
            None => {
                let stem = file_stem_of(self.source_path.as_str());
                if stem.as_str().unicode_len() == 0 {
                    "workflow".to_owned()
                } else {
                    stem
                }
            },
        }
    }

    /// Reject a manifest with no tickets or with a repeated ticket id.
    pub fn validate(&self) -> (r: Result<(), WorkflowError>)
        ensures
            r is Ok <==> (self@.tickets.len() > 0 && unique_ids(self@.tickets)),
            match r {
                Ok(_) => true,
                Err(e) => match e {
                    WorkflowError::EmptyManifest => self@.tickets.len() == 0,
                    WorkflowError::DuplicateTicketId { ticket_id } => self@.tickets.len() > 0
                        && exists|i: int, j: int|
                            0 <= i < j < self@.tickets.len() && self@.tickets[i].id
                                == self@.tickets[j].id && self@.tickets[j].id == ticket_id@,
                    _ => false,
                },
            },
    {
        let n: usize = self.tickets.len();
        if n == 0 {
            return Err(WorkflowError::EmptyManifest);
        }
        let mut j: usize = 1;
        while j < n
            invariant
                1 <= j <= n,
                n == self@.tickets.len(),
                forall|a: int, b: int| 0 <= a < b < j ==> self@.tickets[a].id != self@.tickets[b].id,
            decreases n - j,
        {
            let mut i: usize = 0;
            while i < j
                invariant
                    0 <= i <= j < n,
                    n == self@.tickets.len(),
                    forall|a: int| 0 <= a < i ==> self@.tickets[a].id != self@.tickets[j as int].id,
                decreases j - i,
            {
                if str_eq(self.tickets[i].id.as_str(), self.tickets[j].id.as_str()) {
                    proof {
                        assert(self@.tickets[i as int].id == self.tickets@[i as int]@.id);
                        assert(self@.tickets[j as int].id == self.tickets@[j as int]@.id);
                        assert(self@.tickets[i as int].id == self@.tickets[j as int].id);
                    }
                    return Err(
                        WorkflowError::DuplicateTicketId { ticket_id: self.tickets[j].id.clone() },
                    );
                }
                i = i + 1;
            }
            j = j + 1;
        }
        Ok(())
    }
}

/// The deserialization format a manifest path calls for.
#[derive(Debug, Clone, Copy, PartialEq, Eq, Structural)]
pub enum ManifestFormat {
    Yaml,
    Toml,
    /// An unrecognized extension: YAML is tried first, then TOML.
    Unknown,
}

/// Case-insensitive equality against a lowercase ASCII pattern.
pub open spec fn eq_nocase(a: Seq<char>, lower: Seq<char>) -> bool {
    a.len() == lower.len() && forall|i: int|
        0 <= i < a.len() ==> #[trigger] char_eq_nocase(a[i], lower[i])
}

pub open spec fn char_eq_nocase(c: char, lower: char) -> bool {
    c == lower || ('A' <= c && c <= 'Z' && c as u32 + 32 == lower as u32)
}

/// The format selected by a manifest path's extension.
pub open spec fn manifest_format_spec(p: Seq<char>) -> ManifestFormat {
    let e = extension_spec(p);
    if eq_nocase(e, "yml"@) || eq_nocase(e, "yaml"@) {
        ManifestFormat::Yaml
    } else if eq_nocase(e, "toml"@) || eq_nocase(e, "tml"@) {
        ManifestFormat::Toml
    } else {
        ManifestFormat::Unknown
    }
}

fn eq_nocase_exec(a: &str, lower: &str) -> (r: bool)
    ensures
        r == eq_nocase(a@, lower@),
{
    let na: usize = a.unicode_len();
    let nl: usize = lower.unicode_len();
    if na != nl {
        return false;
    }
    let mut i: usize = 0;
    while i < na
        invariant
            na == a@.len(),
            na == lower@.len(),
            i <= na,
            forall|j: int| 0 <= j < i ==> #[trigger] char_eq_nocase(a@[j], lower@[j]),
        decreases na - i,
    {
        let c = a.get_char(i);
        let l = lower.get_char(i);
        if !(c == l || ('A' <= c && c <= 'Z' && (c as u32) + 32 == (l as u32))) {
            proof {
                assert(!char_eq_nocase(a@[i as int], lower@[i as int]));
            }
            return false;
        }
        i = i + 1;
    }
    true
}

/// Select the manifest deserialization format from the path's extension.
pub fn manifest_format_for(path: &str) -> (r: ManifestFormat)
    ensures
        r == manifest_format_spec(path@),
{
    let e = extension_of(path);
    if eq_nocase_exec(e.as_str(), "yml") || eq_nocase_exec(e.as_str(), "yaml") {
        ManifestFormat::Yaml
    } else if eq_nocase_exec(e.as_str(), "toml") || eq_nocase_exec(e.as_str(), "tml") {
        ManifestFormat::Toml
    } else {
        ManifestFormat::Unknown
    }
}

} // verus!
