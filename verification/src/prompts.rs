//! Generated prompt text for the worker and review sessions.  Prompts
//! are assembled from manifest fields and layout paths, word-wrapped to
//! a fixed column width of 100 for log readability, and trimmed.

use vstd::prelude::*;
use crate::layout::WorkflowLayout;
use crate::layout::ticket_dir_name;
use crate::manifest::TicketSpec;
use crate::manifest::TicketSpecView;
use crate::manifest::WorkflowManifest;
use crate::manifest::WorkflowManifestView;
use crate::paths::join_spec;
use crate::text::chars_of;
use crate::text::is_space;
use crate::text::is_space_char;
use crate::text::string_of;

verus! {

/// What `textwrap::wrap` returns for a text at a display width: a
/// sequence of lines.  The result depends on the text and width alone.
pub uninterp spec fn wrap_of(text: Seq<char>, width: int) -> Seq<Seq<char>>;

/// Relies on textwrap::wrap: breaks text into lines at most `width`
/// display columns wide.
#[verifier::external_body]
fn wrap_text(text: &str, width: usize) -> (r: Vec<String>)
    ensures
        r@.map_values(|l: String| l@) == wrap_of(text@, width as int),
{
    textwrap::wrap(text, width).into_iter().map(|l| l.into_owned()).collect()
}

/// `s` without its trailing whitespace.
pub open spec fn trim_end_spec(s: Seq<char>) -> Seq<char>
    decreases s.len(),
{
    if s.len() > 0 && is_space(s.last()) {
        trim_end_spec(s.drop_last())
    } else {
        s
    }
}

/// `s` without its leading whitespace.
pub open spec fn trim_start_spec(s: Seq<char>) -> Seq<char>
    decreases s.len(),
{
    if s.len() > 0 && is_space(s[0]) {
        trim_start_spec(s.subrange(1, s.len() as int))
    } else {
        s
    }
}

/// `s` without leading and trailing whitespace.
pub open spec fn trim_spec(s: Seq<char>) -> Seq<char> {
    trim_start_spec(trim_end_spec(s))
}

/// Wrapped lines rendered one per line, each without trailing spaces.
pub open spec fn rendered_lines(lines: Seq<Seq<char>>) -> Seq<char>
    decreases lines.len(),
{
    if lines.len() == 0 {
        Seq::empty()
    } else {
        rendered_lines(lines.drop_last()) + trim_end_spec(lines.last()) + seq!['\n']
    }
}

/// Sections wrapped at width 100 and separated by blank lines.
pub open spec fn rendered_sections(sections: Seq<Seq<char>>) -> Seq<char>
    decreases sections.len(),
{
    if sections.len() == 0 {
        Seq::empty()
    } else {
        rendered_sections(sections.drop_last()) + rendered_lines(wrap_of(sections.last(), 100))
            + seq!['\n']
    }
}

/// The requirements as a bulleted list, one `- ` line per entry.
pub open spec fn bullet_lines(reqs: Seq<Seq<char>>) -> Seq<char>
    decreases reqs.len(),
{
    if reqs.len() == 0 {
        Seq::empty()
    } else if reqs.len() == 1 {
        "- "@ + reqs[0]
    } else {
        bullet_lines(reqs.drop_last()) + seq!['\n'] + "- "@ + reqs.last()
    }
}

/// The whole generated text for a list of sections: each section
/// wrapped and rendered, the result trimmed at both ends.
pub open spec fn wrap_sections_spec(sections: Seq<Seq<char>>) -> Seq<char> {
    trim_spec(rendered_sections(sections))
}

fn trim_end_chars(v: &mut Vec<char>)
    ensures
        final(v)@ == trim_end_spec(old(v)@),
{
    while v.len() > 0 && is_space_char(v[v.len() - 1])
        invariant
            trim_end_spec(v@) == trim_end_spec(old(v)@),
        decreases v.len(),
    {
        v.pop();
    }
}

fn trim_start_chars(v: &mut Vec<char>)
    ensures
        final(v)@ == trim_start_spec(old(v)@),
{
    while v.len() > 0 && is_space_char(v[0])
        invariant
            trim_start_spec(v@) == trim_start_spec(old(v)@),
        decreases v.len(),
    {
        let ghost before = v@;
        v.remove(0);
        proof {
            assert(v@ =~= before.subrange(1, before.len() as int));
        }
    }
}

/// Wrap each section at width 100, strip trailing spaces per line,
/// separate sections by blank lines, and trim the whole.
pub fn wrap_sections(sections: &Vec<String>) -> (r: String)
    ensures
        r@ == wrap_sections_spec(sections@.map_values(|s: String| s@)),
{
    let ghost views = sections@.map_values(|s: String| s@);
    let mut out: Vec<char> = Vec::new();
    let n: usize = sections.len();
    let mut i: usize = 0;
    while i < n
        invariant
            i <= n,
            n == sections@.len(),
            views == sections@.map_values(|s: String| s@),
            out@ == rendered_sections(views.take(i as int)),
        decreases n - i,
    {
        let lines = wrap_text(sections[i].as_str(), 100);
        let ghost line_views = lines@.map_values(|l: String| l@);
        proof {
            assert(line_views == wrap_of(views[i as int], 100));
        }
        let ghost section_start = out@;
        let m: usize = lines.len();
        let mut j: usize = 0;
        while j < m
            invariant
                j <= m,
                m == lines@.len(),
                line_views == lines@.map_values(|l: String| l@),
                out@ == section_start + rendered_lines(line_views.take(j as int)),
            decreases m - j,
        {
            let mut lv = chars_of(lines[j].as_str());
            trim_end_chars(&mut lv);
            let ghost before = out@;
            out.append(&mut lv);
            out.push('\n');
            proof {
                assert(line_views.take(j + 1).drop_last() =~= line_views.take(j as int));
                assert(line_views.take(j + 1).last() == lines@[j as int]@);
                assert(out@ =~= before + trim_end_spec(lines@[j as int]@) + seq!['\n']);
                assert(out@ =~= section_start + rendered_lines(line_views.take(j + 1)));
            }
            j = j + 1;
        }
        out.push('\n');
        proof {
            assert(line_views.take(m as int) =~= line_views);
            assert(views.take(i + 1).drop_last() =~= views.take(i as int));
            assert(views.take(i + 1).last() == views[i as int]);
            assert(out@ =~= rendered_sections(views.take(i + 1)));
        }
        i = i + 1;
    }
    proof {
        assert(views.take(n as int) =~= views);
    }
    trim_end_chars(&mut out);
    trim_start_chars(&mut out);
    string_of(&out)
}

/// The sections of a generated worker prompt: the overview when there
/// is one, the ticket line, the requirements when there are any, and
/// the instruction naming the ticket's patch directory.
pub open spec fn worker_sections_spec(
    m: WorkflowManifestView,
    t: TicketSpecView,
    root: Seq<char>,
) -> Seq<Seq<char>> {
    let patch_dir = join_spec(join_spec(root, ticket_dir_name(t.id)), "patches"@);
    (match m.overview {
        Some(ov) => seq!["Workflow overview:\n"@ + ov + "\n"@],
        None => Seq::<Seq<char>>::empty(),
    }) + seq!["Ticket "@ + t.id + ": "@ + t.summary + "\n"@] + (if t.requirements.len() > 0 {
        seq!["Requirements:\n"@ + bullet_lines(t.requirements) + "\n"@]
    } else {
        Seq::<Seq<char>>::empty()
    }) + seq![
        "Work inside the repository directory and save any generated patches or notes under "@
            + patch_dir + ". Log your progress clearly."@,
    ]
}

/// The generated worker prompt.
pub open spec fn worker_prompt_spec(
    m: WorkflowManifestView,
    t: TicketSpecView,
    root: Seq<char>,
) -> Seq<char> {
    wrap_sections_spec(worker_sections_spec(m, t, root))
}

/// The sections of a generated review prompt: the overview when there
/// is one, the review instruction naming the ticket, the requirements
/// as an acceptance checklist, and a pointer to the worker's log.
pub open spec fn review_sections_spec(
    m: WorkflowManifestView,
    t: TicketSpecView,
    root: Seq<char>,
) -> Seq<Seq<char>> {
    let worker_log = join_spec(join_spec(root, ticket_dir_name(t.id)), "worker.log"@);
    (match m.overview {
        Some(ov) => seq!["Workflow overview:\n"@ + ov + "\n"@],
        None => Seq::<Seq<char>>::empty(),
    }) + seq![
        "Review ticket "@ + t.id + " ("@ + t.summary + ") for correctness and completeness."@,
    ] + (if t.requirements.len() > 0 {
        seq![
            "Confirm that the following requirements are satisfied:\n"@ + bullet_lines(
                t.requirements,
            ) + "\n"@,
        ]
    } else {
        Seq::<Seq<char>>::empty()
    }) + seq![
        "Consult the worker log at "@ + worker_log
            + " and ensure all changes are tested. Provide a concise approval or list blocking issues."@,
    ]
}

/// The generated review prompt.
pub open spec fn review_prompt_spec(
    m: WorkflowManifestView,
    t: TicketSpecView,
    root: Seq<char>,
) -> Seq<char> {
    wrap_sections_spec(review_sections_spec(m, t, root))
}

fn bullet_text(reqs: &Vec<String>) -> (r: Vec<char>)
    ensures
        r@ == bullet_lines(reqs@.map_values(|s: String| s@)),
{
    let ghost views = reqs@.map_values(|s: String| s@);
    let mut r: Vec<char> = Vec::new();
    let n: usize = reqs.len();
    let mut i: usize = 0;
    while i < n
        invariant
            i <= n,
            n == reqs@.len(),
            views == reqs@.map_values(|s: String| s@),
            r@ == bullet_lines(views.take(i as int)),
        decreases n - i,
    {
        let ghost before = r@;
        if i > 0 {
            r.push('\n');
        }
        let mut b = chars_of("- ");
        r.append(&mut b);
        let mut c = chars_of(reqs[i].as_str());
        r.append(&mut c);
        proof {
            assert(views.take(i + 1).drop_last() =~= views.take(i as int));
            assert(views.take(i + 1).last() == views[i as int]);
            if i == 0 {
                assert(r@ =~= "- "@ + views[0]);
                assert(r@ =~= bullet_lines(views.take(1)));
            } else {
                assert(r@ =~= before + seq!['\n'] + "- "@ + views[i as int]);
                assert(r@ =~= bullet_lines(views.take(i + 1)));
            }
        }
        i = i + 1;
    }
    proof {
        assert(views.take(n as int) =~= views);
    }
    r
}

fn overview_section(overview: &String) -> (r: String)
    ensures
        r@ == "Workflow overview:\n"@ + overview@ + "\n"@,
{
    let mut v = chars_of("Workflow overview:\n");
    let mut o = chars_of(overview.as_str());
    v.append(&mut o);
    v.push('\n');
    proof {
        reveal_strlit("\n");
        assert("\n"@ =~= seq!['\n']);
        assert(v@ =~= "Workflow overview:\n"@ + overview@ + "\n"@);
    }
    string_of(&v)
}

/// Assemble the generated worker prompt for one ticket.
pub fn build_worker_prompt(
    manifest: &WorkflowManifest,
    ticket: &TicketSpec,
    layout: &WorkflowLayout,
) -> (r: String)
    ensures
        r@ == worker_prompt_spec(manifest@, ticket@, layout.root_spec()),
{
    let ghost spec_sections = worker_sections_spec(manifest@, ticket@, layout.root_spec());
    let mut sections: Vec<String> = Vec::new();
    match &manifest.overview {
        Some(ov) => {
            sections.push(overview_section(ov));
        },
        None => {},
    }
    let mut v = chars_of("Ticket ");
    let mut idv = chars_of(ticket.id.as_str());
    v.append(&mut idv);
    let mut sep = chars_of(": ");
    v.append(&mut sep);
    let mut sm = chars_of(ticket.summary.as_str());
    v.append(&mut sm);
    v.push('\n');
    proof {
        reveal_strlit("\n");
        assert("\n"@ =~= seq!['\n']);
        assert(v@ =~= "Ticket "@ + ticket@.id + ": "@ + ticket@.summary + "\n"@);
    }
    sections.push(string_of(&v));
    if ticket.requirements.len() > 0 {
        let mut rv = chars_of("Requirements:\n");
        let mut bl = bullet_text(&ticket.requirements);
        rv.append(&mut bl);
        rv.push('\n');
        proof {
            reveal_strlit("\n");
            assert("\n"@ =~= seq!['\n']);
            assert(rv@ =~= "Requirements:\n"@ + bullet_lines(ticket@.requirements) + "\n"@);
        }
        sections.push(string_of(&rv));
    }
    let patch_dir = layout.patch_dir(ticket.id.as_str());
    let mut iv = chars_of(
        "Work inside the repository directory and save any generated patches or notes under ",
    );
    let mut pd = chars_of(patch_dir.as_str());
    iv.append(&mut pd);
    let mut tail = chars_of(". Log your progress clearly.");
    iv.append(&mut tail);
    sections.push(string_of(&iv));
    proof {
        assert(sections@.map_values(|s: String| s@) =~= spec_sections);
    }
    wrap_sections(&sections)
}

/// Assemble the generated review prompt for one ticket.
pub fn build_review_prompt(
    manifest: &WorkflowManifest,
    ticket: &TicketSpec,
    layout: &WorkflowLayout,
) -> (r: String)
    ensures
        r@ == review_prompt_spec(manifest@, ticket@, layout.root_spec()),
{
    let ghost spec_sections = review_sections_spec(manifest@, ticket@, layout.root_spec());
    let mut sections: Vec<String> = Vec::new();
    match &manifest.overview {
        Some(ov) => {
            sections.push(overview_section(ov));
        },
        None => {},
    }
    let mut v = chars_of("Review ticket ");
    let mut idv = chars_of(ticket.id.as_str());
    v.append(&mut idv);
    let mut sep = chars_of(" (");
    v.append(&mut sep);
    let mut sm = chars_of(ticket.summary.as_str());
    v.append(&mut sm);
    let mut tail = chars_of(") for correctness and completeness.");
    v.append(&mut tail);
    sections.push(string_of(&v));
    if ticket.requirements.len() > 0 {
        let mut rv = chars_of("Confirm that the following requirements are satisfied:\n");
        let mut bl = bullet_text(&ticket.requirements);
        rv.append(&mut bl);
        rv.push('\n');
        proof {
            reveal_strlit("\n");
            assert("\n"@ =~= seq!['\n']);
            assert(rv@ =~= "Confirm that the following requirements are satisfied:\n"@
                + bullet_lines(ticket@.requirements) + "\n"@);
        }
        sections.push(string_of(&rv));
    }
    let worker_log = layout.worker_log_path(ticket.id.as_str());
    let mut iv = chars_of("Consult the worker log at ");
    let mut wl = chars_of(worker_log.as_str());
    iv.append(&mut wl);
    let mut t2 = chars_of(
        " and ensure all changes are tested. Provide a concise approval or list blocking issues.",
    );
    iv.append(&mut t2);
    sections.push(string_of(&iv));
    proof {
        assert(sections@.map_values(|s: String| s@) =~= spec_sections);
    }
    wrap_sections(&sections)
}

/// The worker prompt actually sent: the ticket's explicit override, or
/// the generated one.
pub fn worker_prompt_for(
    manifest: &WorkflowManifest,
    ticket: &TicketSpec,
    layout: &WorkflowLayout,
) -> (r: String)
    ensures
        r@ == match ticket@.prompt {
            Some(p) => p,
            None => worker_prompt_spec(manifest@, ticket@, layout.root_spec()),
        },
{
    match &ticket.prompt {
        Some(p) => p.clone(),
        None => build_worker_prompt(manifest, ticket, layout),
    }
}

/// The review prompt actually sent: the ticket's explicit override, or
/// the generated one.
pub fn review_prompt_for(
    manifest: &WorkflowManifest,
    ticket: &TicketSpec,
    layout: &WorkflowLayout,
) -> (r: String)
    ensures
        r@ == match ticket@.review_prompt {
            Some(p) => p,
            None => review_prompt_spec(manifest@, ticket@, layout.root_spec()),
        },
{
    match &ticket.review_prompt {
        Some(p) => p.clone(),
        None => build_review_prompt(manifest, ticket, layout),
    }
}

} // verus!
