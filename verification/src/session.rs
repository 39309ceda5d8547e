//! One external session: the request value handed to the launcher, the
//! exact argument vector the executable is invoked with, the structured
//! log text written for every invocation, and the result the caller
//! interprets.  Spawning the process itself happens outside this crate.

use vstd::prelude::*;
use crate::manifest::opt_view;
use crate::num::code_debug;
use crate::num::code_debug_text;
use crate::text::chars_of;
use crate::text::string_of;

verus! {

pub struct SessionRequestView {
    pub prompt: Seq<char>,
    pub working_dir: Seq<char>,
    pub log_path: Seq<char>,
    pub model: Option<Seq<char>>,
}

/// Everything one session invocation needs, passed once.
#[derive(Debug, Clone)]
pub struct SessionRequest {
    pub prompt: String,
    pub working_dir: String,
    pub log_path: String,
    pub model: Option<String>,
}

impl View for SessionRequest {
    type V = SessionRequestView;

    open spec fn view(&self) -> SessionRequestView {
        SessionRequestView {
            prompt: self.prompt@,
            working_dir: self.working_dir@,
            log_path: self.log_path@,
            model: opt_view(self.model),
        }
    }
}

/// What a finished session reports back.
#[derive(Debug, Clone)]
pub struct SessionResult {
    pub success: bool,
    pub status_code: Option<i32>,
    pub stdout: String,
    pub stderr: String,
}

impl SessionResult {
    /// Interpret a child process's exit: success means exit code zero;
    /// a non-zero code or a signal death is a normal, unsuccessful
    /// outcome, not an error.
    pub fn from_output(status_code: Option<i32>, stdout: String, stderr: String) -> (r:
        SessionResult)
        ensures
            r.success == (status_code == Some(0i32)),
            r.status_code == status_code,
            r.stdout@ == stdout@,
            r.stderr@ == stderr@,
    {
        let success = match status_code {
            Some(c) => c == 0,
            None => false,
        };
        SessionResult { success, status_code, stdout, stderr }
    }
}

/// Launches sessions against one executable with fixed configuration
/// overrides.
#[derive(Debug, Clone)]
pub struct SessionLauncher {
    codex_bin: String,
    config_overrides: Vec<String>,
}

/// The `-c <override>` flag pairs, in order.
pub open spec fn override_flags(overrides: Seq<Seq<char>>) -> Seq<Seq<char>>
    decreases overrides.len(),
{
    if overrides.len() == 0 {
        Seq::empty()
    } else {
        override_flags(overrides.drop_last()) + seq!["-c"@, overrides.last()]
    }
}

/// The optional `-m <model>` flag pair.
pub open spec fn model_flags(model: Option<Seq<char>>) -> Seq<Seq<char>> {
    match model {
        Some(m) => seq!["-m"@, m],
        None => Seq::empty(),
    }
}

/// The full argument vector a session is invoked with: the `exec`
/// sub-operation, the configuration overrides, the repo-check skip, an
/// optional model override, the working directory, and the prompt last.
pub open spec fn session_args_spec(
    overrides: Seq<Seq<char>>,
    req: SessionRequestView,
) -> Seq<Seq<char>> {
    seq!["exec"@] + override_flags(overrides) + seq!["--skip-git-repo-check"@] + model_flags(
        req.model,
    ) + seq!["-C"@, req.working_dir, req.prompt]
}

impl SessionLauncher {
    pub closed spec fn bin_spec(&self) -> Seq<char> {
        self.codex_bin@
    }

    pub closed spec fn overrides_spec(&self) -> Seq<Seq<char>> {
        self.config_overrides@.map_values(|s: String| s@)
    }

    pub fn new(codex_bin: String, config_overrides: Vec<String>) -> (r: SessionLauncher)
        ensures
            r.bin_spec() == codex_bin@,
            r.overrides_spec() == config_overrides@.map_values(|s: String| s@),
    {
        SessionLauncher { codex_bin, config_overrides }
    }

    /// The executable this launcher invokes.
    pub fn codex_bin(&self) -> (r: &str)
        ensures
            r@ == self.bin_spec(),
    {
        self.codex_bin.as_str()
    }

    /// Build the exact argument vector for one request.
    pub fn session_args(&self, request: &SessionRequest) -> (args: Vec<String>)
        ensures
            args@.map_values(|s: String| s@) == session_args_spec(self.overrides_spec(), request@),
    {
        let mut args: Vec<String> = Vec::new();
        args.push("exec".to_owned());
        proof {
            assert(args@.map_values(|s: String| s@) =~= seq!["exec"@]);
        }
        let n: usize = self.config_overrides.len();
        let mut i: usize = 0;
        while i < n
            invariant
                i <= n,
                n == self.config_overrides@.len(),
                args@.map_values(|s: String| s@) =~= seq!["exec"@] + override_flags(
                    self.overrides_spec().take(i as int),
                ),
            decreases n - i,
        {
            let ghost prev = args@.map_values(|s: String| s@);
            args.push("-c".to_owned());
            args.push(self.config_overrides[i].clone());
            proof {
                assert(args@.map_values(|s: String| s@) =~= prev + seq![
                    "-c"@,
                    self.config_overrides@[i as int]@,
                ]);
                assert(self.overrides_spec().take(i + 1).drop_last() =~= self.overrides_spec()
                    .take(i as int));
                assert(self.overrides_spec().take(i + 1).last() == self.config_overrides@[
                    i as int]@);
                assert(override_flags(self.overrides_spec().take(i + 1)) == override_flags(
                    self.overrides_spec().take(i as int),
                ) + seq!["-c"@, self.config_overrides@[i as int]@]);
                assert(args@.map_values(|s: String| s@) =~= seq!["exec"@] + override_flags(
                    self.overrides_spec().take(i + 1),
                ));
            }
            i = i + 1;
        }
        proof {
            assert(self.overrides_spec().take(n as int) =~= self.overrides_spec());
        }
        args.push("--skip-git-repo-check".to_owned());
        match &request.model {
            Some(m) => {
                args.push("-m".to_owned());
                args.push(m.clone());
            },
            None => {},
        }
        args.push("-C".to_owned());
        args.push(request.working_dir.clone());
        args.push(request.prompt.clone());
        proof {
            assert(args@.map_values(|s: String| s@) =~= session_args_spec(
                self.overrides_spec(),
                request@,
            ));
        }
        args
    }
}

/// The structured log text written for every session, successful or
/// not: the prompt, the exit status, then the captured output streams
/// under separate headers.
pub open spec fn session_log_spec(
    prompt: Seq<char>,
    status_code: Option<i32>,
    stdout: Seq<char>,
    stderr: Seq<char>,
) -> Seq<char> {
    "# Prompt\n"@ + prompt + "\n\n# Exit Status: "@ + code_debug(status_code) + "\n\n## STDOUT\n"@
        + stdout + (if stdout.len() == 0 || stdout.last() != '\n' {
        "\n"@
    } else {
        Seq::empty()
    }) + "\n## STDERR\n"@ + stderr + "\n"@
}

/// Render the log text for one finished session.
pub fn render_session_log(
    prompt: &str,
    status_code: Option<i32>,
    stdout: &str,
    stderr: &str,
) -> (r: String)
    ensures
        r@ == session_log_spec(prompt@, status_code, stdout@, stderr@),
{
    let mut v = chars_of("# Prompt\n");
    let mut p = chars_of(prompt);
    v.append(&mut p);
    let mut a = chars_of("\n\n# Exit Status: ");
    v.append(&mut a);
    let mut c = chars_of(code_debug_text(status_code).as_str());
    v.append(&mut c);
    let mut b = chars_of("\n\n## STDOUT\n");
    v.append(&mut b);
    proof {
        assert(v@ =~= "# Prompt\n"@ + prompt@ + "\n\n# Exit Status: "@ + code_debug(status_code)
            + "\n\n## STDOUT\n"@);
    }
    let ghost head = v@;
    let mut o = chars_of(stdout);
    let add_newline = if o.len() == 0 {
        true
    } else {
        o[o.len() - 1] != '\n'
    };
    v.append(&mut o);
    if add_newline {
        v.push('\n');
    }
    proof {
        reveal_strlit("\n");
        assert("\n"@ =~= seq!['\n']);
        assert(v@ =~= head + stdout@ + (if stdout@.len() == 0 || stdout@.last() != '\n' {
            "\n"@
        } else {
            Seq::<char>::empty()
        }));
    }
    let ghost mid = v@;
    let mut d = chars_of("\n## STDERR\n");
    v.append(&mut d);
    let mut e = chars_of(stderr);
    v.append(&mut e);
    v.push('\n');
    proof {
        reveal_strlit("\n");
        assert("\n"@ =~= seq!['\n']);
        assert(v@ =~= mid + "\n## STDERR\n"@ + stderr@ + "\n"@);
        assert(v@ =~= session_log_spec(prompt@, status_code, stdout@, stderr@));
    }
    string_of(&v)
}

} // verus!
