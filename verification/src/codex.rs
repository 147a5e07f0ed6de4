//! Backend selection, invocation arguments, the stale-resume retry
//! heuristic, and the bookkeeping of one streaming backend attempt.

use vstd::prelude::*;

use crate::events::{views_of, EventSpec, StreamMessage};
use crate::text::{
    contains_chars, contains_seq, i64_dec_chars, lower_chars, spec_i64_dec, spec_lower,
    spec_trim, str_to_chars, string_of_chars, trim_chars,
};

verus! {

/// Run-time options fixed at process start: which backend drives the
/// conversation and whether sandboxing is bypassed.
#[derive(Debug, Clone, Copy, PartialEq, Eq, Structural)]
pub struct ExecutionOptions {
    pub use_omx: bool,
    pub madmax: bool,
}

impl Default for ExecutionOptions {
    /// Codex backend, sandbox on.
    fn default() -> (opts: Self)
        ensures
            !opts.use_omx,
            !opts.madmax,
    {
        ExecutionOptions { use_omx: false, madmax: false }
    }
}

/// Record the chosen execution options.
pub fn configure_execution(use_omx: bool, madmax: bool) -> (opts: ExecutionOptions)
    ensures
        opts.use_omx == use_omx,
        opts.madmax == madmax,
{
    ExecutionOptions { use_omx, madmax }
}

/// The two interchangeable CLI backends.
#[derive(Debug, Clone, Copy, PartialEq, Eq, Structural)]
pub enum BackendKind {
    Codex,
    Omx,
}

/// The backend the options select.
pub fn backend_kind(opts: &ExecutionOptions) -> (kind: BackendKind)
    ensures
        kind == (if opts.use_omx {
            BackendKind::Omx
        } else {
            BackendKind::Codex
        }),
{
    if opts.use_omx {
        BackendKind::Omx
    } else {
        BackendKind::Codex
    }
}

/// The executable name of a backend.
pub fn ai_binary_name(kind: BackendKind) -> (name: &'static str)
    ensures
        name@ == (if kind is Codex {
            "codex"@
        } else {
            "omx"@
        }),
{
    match kind {
        BackendKind::Codex => "codex",
        BackendKind::Omx => "omx",
    }
}

/// Whether this build supports driving an AI backend. The backends are
/// driven over Unix process pipes, which every target this library builds
/// for provides.
pub fn is_ai_supported() -> (r: bool)
    ensures
        r,
{
    true
}

/// A character a backend session or thread identifier may contain.
pub open spec fn valid_session_id_char(c: char) -> bool {
    ('a' <= c && c <= 'z') || ('A' <= c && c <= 'Z') || ('0' <= c && c <= '9') || c == '_'
        || c == '-'
}

/// A well-formed session identifier: non-empty, at most 64 characters,
/// alphanumerics, underscore and hyphen only.
pub open spec fn spec_valid_session_id(s: Seq<char>) -> bool {
    1 <= s.len() <= 64 && forall|i: int| 0 <= i < s.len() ==> valid_session_id_char(s[i])
}

/// Validate a session/thread identifier before it is placed on a command
/// line.
pub fn is_valid_session_id(session_id: &str) -> (r: bool)
    ensures
        r == spec_valid_session_id(session_id@),
{
    let v = str_to_chars(session_id);
    if v.len() == 0 || v.len() > 64 {
        return false;
    }
    let mut i: usize = 0;
    while i < v.len()
        invariant
            v@ == session_id@,
            i <= v@.len(),
            1 <= v@.len() <= 64,
            forall|j: int| 0 <= j < i ==> valid_session_id_char(v@[j]),
        decreases v.len() - i,
    {
        let c = v[i];
        let ok = ('a' <= c && c <= 'z') || ('A' <= c && c <= 'Z') || ('0' <= c && c <= '9')
            || c == '_' || c == '-';
        if !ok {
            assert(!valid_session_id_char(v@[i as int]));
            return false;
        }
        i = i + 1;
    }
    true
}

/// Error text for a malformed session identifier.
pub open spec fn invalid_session_error() -> Seq<char> {
    "Invalid session ID format"@
}

/// The arguments the Codex backend is invoked with: working directory,
/// sandbox flags, `exec`, then either resumption of a session or a fresh
/// start, with JSON streaming and the prompt on standard input.
pub open spec fn spec_codex_args(
    opts: ExecutionOptions,
    sid: Option<Seq<char>>,
    wd: Seq<char>,
) -> Seq<Seq<char>> {
    (seq!["-C"@, wd]) + (if opts.madmax {
        seq!["--dangerously-bypass-approvals-and-sandbox"@]
    } else {
        seq!["--sandbox"@, "danger-full-access"@, "-a"@, "never"@]
    }) + seq!["exec"@] + (match sid {
        Some(s) => seq!["resume"@, s, "--json"@, "-"@],
        None => seq!["--json"@, "--skip-git-repo-check"@, "-"@],
    })
}

/// The arguments the OMX backend is invoked with; OMX takes `--cd` and a
/// native bypass alias but otherwise forwards Codex-compatible flags.
pub open spec fn spec_omx_args(
    opts: ExecutionOptions,
    sid: Option<Seq<char>>,
    wd: Seq<char>,
) -> Seq<Seq<char>> {
    (seq!["--cd"@, wd]) + (if opts.madmax {
        seq!["--madmax"@]
    } else {
        seq!["--sandbox"@, "danger-full-access"@, "-a"@, "never"@]
    }) + seq!["exec"@] + (match sid {
        Some(s) => seq!["resume"@, s, "--json"@, "-"@],
        None => seq!["--json"@, "--skip-git-repo-check"@, "-"@],
    })
}

/// The view of an argument vector.
pub open spec fn strings_view(v: Seq<String>) -> Seq<Seq<char>> {
    v.map_values(|s: String| s@)
}

/// The view of an optional borrowed string.
pub open spec fn opt_str_view(s: Option<&str>) -> Option<Seq<char>> {
    match s {
        Some(t) => Some(t@),
        None => None,
    }
}

/// Build the Codex invocation arguments; a supplied session identifier is
/// validated first and a malformed one is rejected.
pub fn codex_args(opts: &ExecutionOptions, session_id: Option<&str>, working_dir: &str) -> (r:
    Result<Vec<String>, String>)
    ensures
        match r {
            Ok(args) => (match session_id {
                Some(s) => spec_valid_session_id(s@),
                None => true,
            }) && strings_view(args@) == spec_codex_args(*opts, opt_str_view(session_id), working_dir@),
            Err(e) => session_id matches Some(s) && !spec_valid_session_id(s@) && e@
                == invalid_session_error(),
        },
{
    let mut args: Vec<String> = Vec::new();
    args.push("-C".to_owned());
    args.push(working_dir.to_owned());
    if opts.madmax {
        args.push("--dangerously-bypass-approvals-and-sandbox".to_owned());
    } else {
        args.push("--sandbox".to_owned());
        args.push("danger-full-access".to_owned());
        args.push("-a".to_owned());
        args.push("never".to_owned());
    }
    args.push("exec".to_owned());
    match session_id {
        Some(sid) => {
            if !is_valid_session_id(sid) {
                return Err("Invalid session ID format".to_owned());
            }
            args.push("resume".to_owned());
            args.push(sid.to_owned());
            args.push("--json".to_owned());
            args.push("-".to_owned());
        }
        None => {
            args.push("--json".to_owned());
            args.push("--skip-git-repo-check".to_owned());
            args.push("-".to_owned());
        }
    }
    assert(strings_view(args@) =~~= spec_codex_args(*opts, opt_str_view(session_id), working_dir@));
    Ok(args)
}

/// Build the OMX invocation arguments; a supplied session identifier is
/// validated first and a malformed one is rejected.
pub fn omx_args(opts: &ExecutionOptions, session_id: Option<&str>, working_dir: &str) -> (r:
    Result<Vec<String>, String>)
    ensures
        match r {
            Ok(args) => (match session_id {
                Some(s) => spec_valid_session_id(s@),
                None => true,
            }) && strings_view(args@) == spec_omx_args(*opts, opt_str_view(session_id), working_dir@),
            Err(e) => session_id matches Some(s) && !spec_valid_session_id(s@) && e@
                == invalid_session_error(),
        },
{
    let mut args: Vec<String> = Vec::new();
    args.push("--cd".to_owned());
    args.push(working_dir.to_owned());
    if opts.madmax {
        args.push("--madmax".to_owned());
    } else {
        args.push("--sandbox".to_owned());
        args.push("danger-full-access".to_owned());
        args.push("-a".to_owned());
        args.push("never".to_owned());
    }
    args.push("exec".to_owned());
    match session_id {
        Some(sid) => {
            if !is_valid_session_id(sid) {
                return Err("Invalid session ID format".to_owned());
            }
            args.push("resume".to_owned());
            args.push(sid.to_owned());
            args.push("--json".to_owned());
            args.push("-".to_owned());
        }
        None => {
            args.push("--json".to_owned());
            args.push("--skip-git-repo-check".to_owned());
            args.push("-".to_owned());
        }
    }
    assert(strings_view(args@) =~~= spec_omx_args(*opts, opt_str_view(session_id), working_dir@));
    Ok(args)
}

/// The invocation arguments of whichever backend is selected.
pub open spec fn spec_backend_args(
    backend: BackendKind,
    opts: ExecutionOptions,
    sid: Option<Seq<char>>,
    wd: Seq<char>,
) -> Seq<Seq<char>> {
    match backend {
        BackendKind::Codex => spec_codex_args(opts, sid, wd),
        BackendKind::Omx => spec_omx_args(opts, sid, wd),
    }
}

/// Dispatch argument building to the selected backend.
pub fn backend_args(
    backend: BackendKind,
    opts: &ExecutionOptions,
    session_id: Option<&str>,
    working_dir: &str,
) -> (r: Result<Vec<String>, String>)
    ensures
        match r {
            Ok(args) => (match session_id {
                Some(s) => spec_valid_session_id(s@),
                None => true,
            }) && strings_view(args@) == spec_backend_args(
                backend,
                *opts,
                opt_str_view(session_id),
                working_dir@,
            ),
            Err(e) => session_id matches Some(s) && !spec_valid_session_id(s@) && e@
                == invalid_session_error(),
        },
{
    match backend {
        BackendKind::Codex => codex_args(opts, session_id, working_dir),
        BackendKind::Omx => omx_args(opts, session_id, working_dir),
    }
}

/// The fixed phrases whose presence in lowercased backend stderr marks a
/// stale-resume failure.
pub open spec fn spec_known_resume_patterns() -> Seq<Seq<char>> {
    seq![
        "failed to resume"@,
        "could not resume"@,
        "cannot resume"@,
        "can't resume"@,
        "unable to resume"@,
        "invalid value for '--resume'"@,
        "invalid value for \"--resume\""@,
        "thread not found"@,
        "session not found"@,
        "conversation not found"@,
        "unknown thread"@,
        "unknown session"@,
        "no such thread"@,
        "no such session"@,
        "expired thread"@,
        "expired session"@,
    ]
}

/// The looser heuristic: the text talks about resumption and hints that
/// something is missing, invalid or expired.
pub open spec fn spec_resume_context_hint(lower: Seq<char>) -> bool {
    (contains_seq(lower, "--resume"@) || contains_seq(lower, "resume "@)) && (contains_seq(
        lower,
        "not found"@,
    ) || contains_seq(lower, "does not exist"@) || contains_seq(lower, "unknown"@) || contains_seq(
        lower,
        "no such"@,
    ) || contains_seq(lower, "expired"@) || contains_seq(lower, "invalid"@))
}

/// Whether stderr text marks a failure that a retry without resumption can
/// recover from: one of the known phrases occurs in the lowercased text,
/// or the looser resume-context heuristic matches.
pub open spec fn spec_retryable_resume_error(s: Seq<char>) -> bool {
    let lower = spec_lower(s);
    (exists|k: int|
        0 <= k < spec_known_resume_patterns().len() && contains_seq(
            lower,
            spec_known_resume_patterns()[k],
        )) || spec_resume_context_hint(lower)
}

/// Decide whether stderr text reports a stale resumed session.
///
/// This is a best-effort textual heuristic against backend wording, not a
/// correctness boundary.
pub fn is_retryable_resume_error(stderr_output: &str) -> (r: bool)
    ensures
        r == spec_retryable_resume_error(stderr_output@),
{
    let chars = str_to_chars(stderr_output);
    let lower = lower_chars(&chars);
    let patterns = make_known_resume_patterns();
    let mut k: usize = 0;
    while k < patterns.len()
        invariant
            patterns@.len() == spec_known_resume_patterns().len(),
            forall|j: int| 0 <= j < patterns@.len() ==> patterns@[j]@
                == spec_known_resume_patterns()[j] && patterns@[j]@.len() >= 1,
            k <= patterns@.len(),
            lower@ == spec_lower(stderr_output@),
            forall|j: int| 0 <= j < k ==> !contains_seq(lower@, spec_known_resume_patterns()[j]),
        decreases patterns@.len() - k,
    {
        let p = str_to_chars(patterns[k]);
        if contains_chars(&lower, &p) {
            return true;
        }
        k = k + 1;
    }
    proof {
        reveal_strlit("--resume");
        reveal_strlit("resume ");
        reveal_strlit("not found");
        reveal_strlit("does not exist");
        reveal_strlit("unknown");
        reveal_strlit("no such");
        reveal_strlit("expired");
        reveal_strlit("invalid");
    }
    let has_resume_context = contains_lit(&lower, "--resume") || contains_lit(&lower, "resume ");
    let has_hint = contains_lit(&lower, "not found") || contains_lit(&lower, "does not exist")
        || contains_lit(&lower, "unknown") || contains_lit(&lower, "no such") || contains_lit(
        &lower,
        "expired",
    ) || contains_lit(&lower, "invalid");
    has_resume_context && has_hint
}

/// Whether `s` contains the characters of a non-empty literal.
fn contains_lit(s: &Vec<char>, lit: &str) -> (r: bool)
    requires
        lit@.len() >= 1,
    ensures
        r == contains_seq(s@, lit@),
{
    let p = str_to_chars(lit);
    contains_chars(s, &p)
}

/// The known stale-resume phrases in executable form.
fn make_known_resume_patterns() -> (r: Vec<&'static str>)
    ensures
        r@.len() == spec_known_resume_patterns().len(),
        forall|j: int| 0 <= j < r@.len() ==> r@[j]@ == spec_known_resume_patterns()[j]
            && r@[j]@.len() >= 1,
{
    let mut v: Vec<&'static str> = Vec::new();
    v.push("failed to resume");
    v.push("could not resume");
    v.push("cannot resume");
    v.push("can't resume");
    v.push("unable to resume");
    v.push("invalid value for '--resume'");
    v.push("invalid value for \"--resume\"");
    v.push("thread not found");
    v.push("session not found");
    v.push("conversation not found");
    v.push("unknown thread");
    v.push("unknown session");
    v.push("no such thread");
    v.push("no such session");
    v.push("expired thread");
    v.push("expired session");
    proof {
        reveal_strlit("failed to resume");
        reveal_strlit("could not resume");
        reveal_strlit("cannot resume");
        reveal_strlit("can't resume");
        reveal_strlit("unable to resume");
        reveal_strlit("invalid value for '--resume'");
        reveal_strlit("invalid value for \"--resume\"");
        reveal_strlit("thread not found");
        reveal_strlit("session not found");
        reveal_strlit("conversation not found");
        reveal_strlit("unknown thread");
        reveal_strlit("unknown session");
        reveal_strlit("no such thread");
        reveal_strlit("no such session");
        reveal_strlit("expired thread");
        reveal_strlit("expired session");
    }
    v
}

} // verus!

verus! {

/// The view of an optional owned string.
pub open spec fn opt_string_view(s: Option<String>) -> Option<Seq<char>> {
    match s {
        Some(t) => Some(t@),
        None => None,
    }
}

/// The collected result of one non-streaming backend run.
#[derive(Debug, Clone)]
pub struct CodexResponse {
    pub success: bool,
    pub response: Option<String>,
    pub session_id: Option<String>,
    pub error: Option<String>,
}

/// Token for cooperative cancellation of one in-flight turn: a flag the
/// attempt runner polls, and the child process id once it is known, so an
/// external cancel request can signal the process.
///
/// The library models the token's state; sharing it across tasks is the
/// embedding program's concern.
#[derive(Debug, Clone)]
pub struct CancelToken {
    pub cancelled: bool,
    pub child_pid: Option<u32>,
}

impl CancelToken {
    /// A fresh token: not cancelled, no process known yet.
    pub fn new() -> (t: Self)
        ensures
            !t.cancelled,
            t.child_pid is None,
    {
        CancelToken { cancelled: false, child_pid: None }
    }
}

/// What one finished (non-cancelled) backend attempt reported.
#[derive(Debug)]
pub struct StreamingAttemptOutcome {
    /// Whether a terminal `Done` event was forwarded.
    pub done_sent: bool,
    /// The last session id an `Init` event carried.
    pub last_session_id: Option<String>,
    /// Whether the process exited successfully.
    pub status_success: bool,
    /// The process exit code, where the platform reported one.
    pub status_code: Option<i32>,
    /// Everything the process wrote to its error stream.
    pub stderr_output: String,
    /// How many normalized events the attempt emitted.
    pub emitted_message_count: usize,
}

/// The per-attempt state the runner threads through each output line.
#[derive(Debug)]
pub struct AttemptProgress {
    pub last_session_id: Option<String>,
    pub done_sent: bool,
    pub emitted_message_count: usize,
}

impl AttemptProgress {
    /// Fresh state for one attempt.
    pub fn new() -> (p: Self)
        ensures
            progress_model(p) == (None::<Seq<char>>, false, 0int),
    {
        AttemptProgress { last_session_id: None, done_sent: false, emitted_message_count: 0 }
    }
}

/// The mathematical state of an attempt: last seen session id, whether a
/// `Done` was forwarded, and how many events were emitted.
pub open spec fn progress_model(p: AttemptProgress) -> (Option<Seq<char>>, bool, int) {
    (opt_string_view(p.last_session_id), p.done_sent, p.emitted_message_count as int)
}

/// How one normalized event changes the attempt state, and what is
/// forwarded for it: an `Init` updates the last seen session id, a `Done`
/// with no session id of its own is completed with the last seen one and
/// marks the attempt done; the count saturates at the machine limit.
pub open spec fn spec_attempt_step(st: (Option<Seq<char>>, bool, int), e: EventSpec) -> (
    (Option<Seq<char>>, bool, int),
    EventSpec,
) {
    let n = if st.2 < usize::MAX {
        st.2 + 1
    } else {
        st.2
    };
    match e {
        EventSpec::Init { session_id } => ((Some(session_id), st.1, n), e),
        EventSpec::Done { result, session_id } => {
            let sid = match session_id {
                None => st.0,
                Some(s) => Some(s),
            };
            ((st.0, true, n), EventSpec::Done { result, session_id: sid })
        },
        _ => ((st.0, st.1, n), e),
    }
}

/// `spec_attempt_step` folded over a whole event sequence.
pub open spec fn spec_attempt_steps(st: (Option<Seq<char>>, bool, int), es: Seq<EventSpec>) -> (
    (Option<Seq<char>>, bool, int),
    Seq<EventSpec>,
)
    decreases es.len(),
{
    if es.len() == 0 {
        (st, Seq::empty())
    } else {
        let (st1, e1) = spec_attempt_step(st, es[0]);
        let (st2, rest) = spec_attempt_steps(st1, es.drop_first());
        (st2, seq![e1] + rest)
    }
}

proof fn lemma_attempt_steps_snoc(st: (Option<Seq<char>>, bool, int), es: Seq<EventSpec>, e: EventSpec)
    ensures
        spec_attempt_steps(st, es.push(e)) == ({
            let (st1, out1) = spec_attempt_steps(st, es);
            let (st2, e2) = spec_attempt_step(st1, e);
            (st2, out1.push(e2))
        }),
    decreases es.len(),
{
    if es.len() == 0 {
        assert(es.push(e)[0] == e);
        assert(es.push(e).drop_first() =~= Seq::<EventSpec>::empty());
        let (st1, e1) = spec_attempt_step(st, e);
        assert(spec_attempt_steps(st1, Seq::<EventSpec>::empty()) == (st1, Seq::<EventSpec>::empty()));
        assert(seq![e1] + Seq::<EventSpec>::empty() =~= Seq::<EventSpec>::empty().push(e1));
    } else {
        assert(es.push(e)[0] == es[0]);
        assert(es.push(e).drop_first() =~= es.drop_first().push(e));
        let (st1, e1) = spec_attempt_step(st, es[0]);
        lemma_attempt_steps_snoc(st1, es.drop_first(), e);
        let (stm, outm) = spec_attempt_steps(st1, es.drop_first());
        let (stf, ef) = spec_attempt_step(stm, e);
        assert(seq![e1] + outm.push(ef) =~= (seq![e1] + outm).push(ef));
    }
}

/// What processing one raw output line does to the attempt state, and the
/// events it forwards: blank lines and lines that are not valid JSON are
/// protocol noise and forward nothing.
pub open spec fn spec_process_line(st: (Option<Seq<char>>, bool, int), line: Seq<char>) -> (
    (Option<Seq<char>>, bool, int),
    Seq<EventSpec>,
) {
    let t = crate::text::spec_trim(line);
    if t.len() == 0 {
        (st, Seq::empty())
    } else {
        match crate::json::spec_parse_json(t) {
            None => (st, Seq::empty()),
            Some(j) => spec_attempt_steps(st, crate::events::spec_normalize(j)),
        }
    }
}

/// Clone an optional session id.
fn clone_opt_string(o: &Option<String>) -> (r: Option<String>)
    ensures
        r == *o,
{
    match o {
        Some(s) => Some(s.clone()),
        None => None,
    }
}

/// Count one more emitted event, saturating at the machine limit.
fn bump_count(progress: &mut AttemptProgress)
    ensures
        final(progress).emitted_message_count as int == (if old(progress).emitted_message_count
            < usize::MAX {
            old(progress).emitted_message_count + 1
        } else {
            old(progress).emitted_message_count as int
        }),
        final(progress).last_session_id == old(progress).last_session_id,
        final(progress).done_sent == old(progress).done_sent,
{
    if progress.emitted_message_count < usize::MAX {
        progress.emitted_message_count = progress.emitted_message_count + 1;
    }
}

/// Process one raw line of backend output: trim it, skip it if blank or
/// malformed, otherwise normalize it and thread every produced event
/// through the attempt state, completing `Done` events with the last seen
/// session id. The returned events are what the attempt forwards.
pub fn process_stream_line(progress: &mut AttemptProgress, line: &str) -> (out: Vec<StreamMessage>)
    ensures
        ({
            let (st2, outs) = spec_process_line(progress_model(*old(progress)), line@);
            progress_model(*final(progress)) == st2 && views_of(out@) == outs
        }),
{
    let chars = str_to_chars(line);
    let trimmed = trim_chars(&chars);
    if trimmed.len() == 0 {
        let out: Vec<StreamMessage> = Vec::new();
        assert(views_of(out@) =~= Seq::<EventSpec>::empty());
        return out;
    }
    let ts = string_of_chars(&trimmed);
    let parsed = crate::json::parse_json_line(ts.as_str());
    match parsed {
        None => {
            let out: Vec<StreamMessage> = Vec::new();
            assert(views_of(out@) =~= Seq::<EventSpec>::empty());
            out
        }
        Some(v) => {
            let msgs = crate::events::parse_codex_stream_line(&v);
            let ghost es = views_of(msgs@);
            let ghost st0 = progress_model(*progress);
            let mut out: Vec<StreamMessage> = Vec::new();
            let mut i: usize = 0;
            proof {
                assert(es.take(0) =~= Seq::<EventSpec>::empty());
                assert(views_of(out@) =~= Seq::<EventSpec>::empty());
            }
            while i < msgs.len()
                invariant
                    i <= msgs@.len(),
                    es == views_of(msgs@),
                    es.len() == msgs@.len(),
                    forall|k: int| 0 <= k < es.len() ==> es[k] == msgs@[k]@,
                    (progress_model(*progress), views_of(out@)) == spec_attempt_steps(
                        st0,
                        es.take(i as int),
                    ),
                decreases msgs@.len() - i,
            {
                proof {
                    lemma_attempt_steps_snoc(st0, es.take(i as int), es[i as int]);
                    assert(es.take(i + 1 as int) =~= es.take(i as int).push(es[i as int]));
                }
                match &msgs[i] {
                    StreamMessage::Init { session_id } => {
                        progress.last_session_id = Some(session_id.clone());
                        bump_count(progress);
                        out.push(StreamMessage::Init { session_id: session_id.clone() });
                    }
                    StreamMessage::Done { result, session_id } => {
                        let sid: Option<String> = match session_id {
                            Some(s) => Some(s.clone()),
                            None => clone_opt_string(&progress.last_session_id),
                        };
                        progress.done_sent = true;
                        bump_count(progress);
                        out.push(StreamMessage::Done { result: result.clone(), session_id: sid });
                    }
                    StreamMessage::Text { content } => {
                        bump_count(progress);
                        out.push(StreamMessage::Text { content: content.clone() });
                    }
                    StreamMessage::ToolUse { name, input } => {
                        bump_count(progress);
                        out.push(StreamMessage::ToolUse { name: name.clone(), input: input.clone() });
                    }
                    StreamMessage::ToolResult { content, is_error } => {
                        bump_count(progress);
                        out.push(StreamMessage::ToolResult {
                            content: content.clone(),
                            is_error: *is_error,
                        });
                    }
                    StreamMessage::TaskNotification { task_id, status, summary } => {
                        bump_count(progress);
                        out.push(StreamMessage::TaskNotification {
                            task_id: task_id.clone(),
                            status: status.clone(),
                            summary: summary.clone(),
                        });
                    }
                    StreamMessage::Error { message } => {
                        bump_count(progress);
                        out.push(StreamMessage::Error { message: message.clone() });
                    }
                }
                proof {
                    assert((progress_model(*progress), views_of(out@)) =~~= spec_attempt_steps(
                        st0,
                        es.take(i + 1 as int),
                    ));
                }
                i = i + 1;
            }
            proof {
                assert(es.take(es.len() as int) =~= es);
            }
            out
        }
    }
}

} // verus!

verus! {

/// How one normalized event changes the collected response: text chunks
/// accumulate separated by newlines, the session id follows `Init` and
/// `Done` events, a blank accumulation falls back to a non-blank `Done`
/// result, and the last `Error` is kept.
pub open spec fn spec_collect_step(
    st: (Seq<char>, Option<Seq<char>>, Option<Seq<char>>),
    e: EventSpec,
) -> (Seq<char>, Option<Seq<char>>, Option<Seq<char>>) {
    match e {
        EventSpec::Init { session_id } => (st.0, Some(session_id), st.2),
        EventSpec::Text { content } => (
            if st.0.len() > 0 {
                st.0 + seq!['\n'] + content
            } else {
                content
            },
            st.1,
            st.2,
        ),
        EventSpec::Done { result, session_id } => (
            if spec_trim(st.0).len() == 0 && spec_trim(result).len() > 0 {
                result
            } else {
                st.0
            },
            match session_id {
                Some(s) => Some(s),
                None => st.1,
            },
            st.2,
        ),
        EventSpec::Error { message } => (st.0, st.1, Some(message)),
        _ => st,
    }
}

/// `spec_collect_step` folded over a whole event sequence.
pub open spec fn spec_collect_steps(
    st: (Seq<char>, Option<Seq<char>>, Option<Seq<char>>),
    es: Seq<EventSpec>,
) -> (Seq<char>, Option<Seq<char>>, Option<Seq<char>>)
    decreases es.len(),
{
    if es.len() == 0 {
        st
    } else {
        spec_collect_steps(spec_collect_step(st, es[0]), es.drop_first())
    }
}

proof fn lemma_collect_steps_snoc(
    st: (Seq<char>, Option<Seq<char>>, Option<Seq<char>>),
    es: Seq<EventSpec>,
    e: EventSpec,
)
    ensures
        spec_collect_steps(st, es.push(e)) == spec_collect_step(spec_collect_steps(st, es), e),
    decreases es.len(),
{
    if es.len() == 0 {
        assert(es.push(e)[0] == e);
        assert(es.push(e).drop_first() =~= Seq::<EventSpec>::empty());
        assert(spec_collect_steps(spec_collect_step(st, e), Seq::<EventSpec>::empty())
            == spec_collect_step(st, e));
        assert(spec_collect_steps(st, Seq::<EventSpec>::empty()) == st);
    } else {
        assert(es.push(e)[0] == es[0]);
        assert(es.push(e).drop_first() =~= es.drop_first().push(e));
        lemma_collect_steps_snoc(spec_collect_step(st, es[0]), es.drop_first(), e);
    }
}

/// The response a finished event stream collects to, starting from an
/// optional prior session id: on any `Error` event the run is a failure
/// whose response is the accumulated text unless blank; otherwise a
/// success whose response is the accumulated text, trimmed.
pub open spec fn spec_collect_response(es: Seq<EventSpec>, sid0: Option<Seq<char>>) -> (
    bool,
    Option<Seq<char>>,
    Option<Seq<char>>,
    Option<Seq<char>>,
) {
    let st = spec_collect_steps((Seq::empty(), sid0, None), es);
    match st.2 {
        Some(e) => (
            false,
            if spec_trim(st.0).len() == 0 {
                None
            } else {
                Some(st.0)
            },
            st.1,
            Some(e),
        ),
        None => (true, Some(spec_trim(st.0)), st.1, None),
    }
}

impl View for CodexResponse {
    type V = (bool, Option<Seq<char>>, Option<Seq<char>>, Option<Seq<char>>);

    open spec fn view(&self) -> Self::V {
        (
            self.success,
            opt_string_view(self.response),
            opt_string_view(self.session_id),
            opt_string_view(self.error),
        )
    }
}

/// Fold a finished stream of normalized events into one collected
/// response, as the non-streaming entry point reports it.
pub fn collect_response(msgs: &Vec<StreamMessage>, session_id: Option<&str>) -> (r: CodexResponse)
    ensures
        r@ == spec_collect_response(views_of(msgs@), opt_str_view(session_id)),
{
    let ghost es = views_of(msgs@);
    let ghost st0 = (
        Seq::<char>::empty(),
        opt_str_view(session_id),
        None::<Seq<char>>,
    );
    let mut resp: Vec<char> = Vec::new();
    let mut sid: Option<String> = match session_id {
        Some(s) => Some(s.to_owned()),
        None => None,
    };
    let mut err: Option<String> = None;
    let mut i: usize = 0;
    proof {
        assert(es.take(0) =~= Seq::<EventSpec>::empty());
    }
    while i < msgs.len()
        invariant
            i <= msgs@.len(),
            es == views_of(msgs@),
            es.len() == msgs@.len(),
            forall|k: int| 0 <= k < es.len() ==> es[k] == msgs@[k]@,
            (resp@, opt_string_view(sid), opt_string_view(err)) == spec_collect_steps(
                st0,
                es.take(i as int),
            ),
        decreases msgs@.len() - i,
    {
        proof {
            lemma_collect_steps_snoc(st0, es.take(i as int), es[i as int]);
            assert(es.take(i + 1 as int) =~= es.take(i as int).push(es[i as int]));
        }
        match &msgs[i] {
            StreamMessage::Init { session_id: s } => {
                sid = Some(s.clone());
            }
            StreamMessage::Text { content } => {
                if resp.len() > 0 {
                    resp.push('\n');
                }
                let mut cc = str_to_chars(content.as_str());
                resp.append(&mut cc);
                proof {
                    assert((resp@, opt_string_view(sid), opt_string_view(err)) =~~= spec_collect_steps(
                        st0,
                        es.take(i + 1 as int),
                    ));
                }
            }
            StreamMessage::Done { result, session_id: s } => {
                let resp_trimmed = trim_chars(&resp);
                let result_chars = str_to_chars(result.as_str());
                let result_trimmed = trim_chars(&result_chars);
                if resp_trimmed.len() == 0 && result_trimmed.len() > 0 {
                    resp = result_chars;
                }
                if let Some(s2) = s {
                    sid = Some(s2.clone());
                }
            }
            StreamMessage::Error { message } => {
                err = Some(message.clone());
            }
            StreamMessage::ToolUse { .. } => {}
            StreamMessage::ToolResult { .. } => {}
            StreamMessage::TaskNotification { .. } => {}
        }
        proof {
            assert((resp@, opt_string_view(sid), opt_string_view(err)) =~~= spec_collect_steps(
                st0,
                es.take(i + 1 as int),
            ));
        }
        i = i + 1;
    }
    proof {
        assert(es.take(es.len() as int) =~= es);
    }
    match err {
        Some(e) => {
            let resp_trimmed = trim_chars(&resp);
            let response = if resp_trimmed.len() == 0 {
                None
            } else {
                Some(string_of_chars(&resp))
            };
            CodexResponse { success: false, response, session_id: sid, error: Some(e) }
        }
        None => {
            let trimmed = trim_chars(&resp);
            CodexResponse {
                success: true,
                response: Some(string_of_chars(&trimmed)),
                session_id: sid,
                error: None,
            }
        }
    }
}

/// Whether a finished attempt calls for the one-shot retry without
/// resumption: a non-cancelled failure of a resumed session, before any
/// retry, that emitted no events and whose stderr matches the
/// stale-resume heuristic.
pub fn should_retry_without_resume(
    outcome: &StreamingAttemptOutcome,
    had_resume: bool,
    retried: bool,
) -> (r: bool)
    ensures
        r == (!outcome.status_success && had_resume && !retried
            && outcome.emitted_message_count == 0 && spec_retryable_resume_error(
            outcome.stderr_output@,
        )),
{
    !outcome.status_success && had_resume && !retried && outcome.emitted_message_count == 0
        && is_retryable_resume_error(outcome.stderr_output.as_str())
}

/// How `Debug` prints an optional exit code.
pub open spec fn spec_opt_code_text(c: Option<i32>) -> Seq<char> {
    match c {
        Some(n) => "Some("@ + spec_i64_dec(n as int) + ")"@,
        None => "None"@,
    }
}

/// The diagnostic for a failed attempt: the trimmed stderr text when any,
/// else a synthesized exit-code message. `None` for a successful attempt.
pub fn attempt_failure_message(outcome: &StreamingAttemptOutcome, binary_name: &str) -> (r: Option<
    String,
>)
    ensures
        match r {
            Some(m) => !outcome.status_success && m@ == (if spec_trim(
                outcome.stderr_output@,
            ).len() > 0 {
                spec_trim(outcome.stderr_output@)
            } else {
                binary_name@ + " exited with code "@ + spec_opt_code_text(outcome.status_code)
            }),
            None => outcome.status_success,
        },
{
    if outcome.status_success {
        return None;
    }
    let stderr_chars = str_to_chars(outcome.stderr_output.as_str());
    let trimmed = trim_chars(&stderr_chars);
    if trimmed.len() > 0 {
        Some(string_of_chars(&trimmed))
    } else {
        let mut m = str_to_chars(binary_name);
        let mut tail = str_to_chars(" exited with code ");
        m.append(&mut tail);
        match outcome.status_code {
            Some(code) => {
                let mut open = str_to_chars("Some(");
                m.append(&mut open);
                let mut digits = i64_dec_chars(code as i64);
                m.append(&mut digits);
                m.push(')');
                proof {
                    reveal_strlit(")");
                    assert(m@ =~= binary_name@ + " exited with code "@ + spec_opt_code_text(
                        outcome.status_code,
                    ));
                }
            }
            None => {
                let mut none_text = str_to_chars("None");
                m.append(&mut none_text);
                assert(m@ =~= binary_name@ + " exited with code "@ + spec_opt_code_text(
                    outcome.status_code,
                ));
            }
        }
        Some(string_of_chars(&m))
    }
}

/// The `Done` event to synthesize when an attempt finished without
/// forwarding one, carrying the last known session id; `None` when the
/// attempt already forwarded its own.
pub fn pending_done_message(outcome: &StreamingAttemptOutcome) -> (r: Option<StreamMessage>)
    ensures
        match r {
            Some(m) => !outcome.done_sent && m@ == (EventSpec::Done {
                result: Seq::<char>::empty(),
                session_id: opt_string_view(outcome.last_session_id),
            }),
            None => outcome.done_sent,
        },
{
    if outcome.done_sent {
        None
    } else {
        let sid = clone_opt_string(&outcome.last_session_id);
        let r = StreamMessage::Done { result: "".to_owned(), session_id: sid };
        proof {
            reveal_strlit("");
            assert(""@ =~= Seq::<char>::empty());
        }
        Some(r)
    }
}

} // verus!

verus! {

/// Stderr whose lowercased text contains the phrase "thread not found"
/// is always recognized by the stale-resume heuristic.
pub proof fn lemma_thread_not_found_is_retryable(s: Seq<char>)
    requires
        contains_seq(spec_lower(s), "thread not found"@),
    ensures
        spec_retryable_resume_error(s),
{
    assert(spec_known_resume_patterns()[7] == "thread not found"@);
    assert(contains_seq(spec_lower(s), spec_known_resume_patterns()[7]));
}

} // verus!

verus! {

/// The instructions prepended to every prompt unless the caller supplies
/// its own system prompt.
pub fn default_system_prompt() -> (r: &'static str)
    ensures
        r@ == spec_default_system_prompt(),
{
    "You are a terminal coding assistant running through Codex/OMX CLI.\nBe concise. Focus on practical, safe, non-interactive execution.\nRespond in the same language as the user.\n\nSECURITY RULES (MUST FOLLOW):\n- NEVER execute destructive commands like rm -rf, format, mkfs, dd, etc.\n- NEVER modify system files in /etc, /sys, /proc, /boot\n- NEVER execute commands that could harm the system or compromise security\n- If a request seems dangerous, explain the risk and suggest a safer alternative\n\nBASH EXECUTION RULES (MUST FOLLOW):\n- All commands MUST run non-interactively without user input\n- Use -y, --yes, or --non-interactive flags where applicable\n- Use -m flag for commit messages (e.g. git commit -m \"message\")\n- Disable pagers with --no-pager or pipe to cat\n- NEVER use commands that open editors (vim, nano, etc.)\n- NEVER use commands that wait for stdin without arguments\n- NEVER use interactive flags like -i"
}

/// The default system prompt's text.
pub open spec fn spec_default_system_prompt() -> Seq<char> {
    "You are a terminal coding assistant running through Codex/OMX CLI.\nBe concise. Focus on practical, safe, non-interactive execution.\nRespond in the same language as the user.\n\nSECURITY RULES (MUST FOLLOW):\n- NEVER execute destructive commands like rm -rf, format, mkfs, dd, etc.\n- NEVER modify system files in /etc, /sys, /proc, /boot\n- NEVER execute commands that could harm the system or compromise security\n- If a request seems dangerous, explain the risk and suggest a safer alternative\n\nBASH EXECUTION RULES (MUST FOLLOW):\n- All commands MUST run non-interactively without user input\n- Use -y, --yes, or --non-interactive flags where applicable\n- Use -m flag for commit messages (e.g. git commit -m \"message\")\n- Disable pagers with --no-pager or pipe to cat\n- NEVER use commands that open editors (vim, nano, etc.)\n- NEVER use commands that wait for stdin without arguments\n- NEVER use interactive flags like -i"@
}

/// The system prompt a turn runs with: the default where none is given,
/// none where an empty one is given, the given one otherwise.
pub open spec fn spec_effective_system_prompt(sp: Option<Seq<char>>) -> Option<Seq<char>> {
    match sp {
        None => Some(spec_default_system_prompt()),
        Some(s) => if s.len() == 0 {
            None
        } else {
            Some(s)
        },
    }
}

/// The full prompt handed to the backend: the system section, the tool
/// constraint section where tools are restricted, and the user prompt,
/// separated by blank lines.
pub open spec fn spec_build_full_prompt(
    prompt: Seq<char>,
    sp: Option<Seq<char>>,
    tools: Option<Seq<Seq<char>>>,
) -> Seq<char> {
    let sys = spec_effective_system_prompt(sp);
    let tool_section = match tools {
        Some(ts) => if ts.len() > 0 {
            Some(
                "TOOL CONSTRAINT:\nOnly use the following tools when needed: "@
                    + crate::text::spec_join_sep(ts, ", "@),
            )
        } else {
            None
        },
        None => None,
    };
    match (sys, tool_section) {
        (Some(a), Some(b)) => "SYSTEM:\n"@ + a + "\n\n"@ + b + "\n\n"@ + prompt,
        (Some(a), None) => "SYSTEM:\n"@ + a + "\n\n"@ + prompt,
        (None, Some(b)) => b + "\n\n"@ + prompt,
        (None, None) => prompt,
    }
}

/// Assemble the full prompt for one turn.
pub fn build_full_prompt(
    prompt: &str,
    system_prompt: Option<&str>,
    allowed_tools: Option<&Vec<String>>,
) -> (r: String)
    ensures
        r@ == spec_build_full_prompt(
            prompt@,
            opt_str_view(system_prompt),
            match allowed_tools {
                Some(v) => Some(crate::text::string_views(v@)),
                None => None,
            },
        ),
{
    let mut out: Vec<char> = Vec::new();
    let has_sys: bool;
    match system_prompt {
        None => {
            has_sys = true;
            append_lit(&mut out, "SYSTEM:\n");
            let mut d = str_to_chars(default_system_prompt());
            out.append(&mut d);
        }
        Some(sp) => {
            if sp.unicode_len() == 0 {
                has_sys = false;
            } else {
                has_sys = true;
                append_lit(&mut out, "SYSTEM:\n");
                let mut d = str_to_chars(sp);
                out.append(&mut d);
            }
        }
    }
    let mut has_tools = false;
    match allowed_tools {
        Some(tools) => {
            if tools.len() > 0 {
                has_tools = true;
                if has_sys {
                    append_lit(&mut out, "\n\n");
                }
                append_lit(&mut out, "TOOL CONSTRAINT:\nOnly use the following tools when needed: ");
                let joined = crate::text::join_strings(tools, ", ");
                let mut j = str_to_chars(joined.as_str());
                out.append(&mut j);
            }
        }
        None => {}
    }
    if has_sys || has_tools {
        append_lit(&mut out, "\n\n");
    }
    let mut p = str_to_chars(prompt);
    out.append(&mut p);
    proof {
        assert(out@ =~= spec_build_full_prompt(
            prompt@,
            opt_str_view(system_prompt),
            match allowed_tools {
                Some(v) => Some(crate::text::string_views(v@)),
                None => None,
            },
        ));
    }
    string_of_chars(&out)
}

/// Append the characters of a literal.
fn append_lit(out: &mut Vec<char>, lit: &str)
    ensures
        final(out)@ == old(out)@ + lit@,
{
    let mut sc = str_to_chars(lit);
    out.append(&mut sc);
}

} // verus!
