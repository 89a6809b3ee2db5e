//! The options of a persistent terminal session, read from `key=value`
//! arguments and checked for consistency before anything is started.

use vstd::prelude::*;
use vstd::string::StrSliceExecFns;
use vstd::string::StringSliceAdditionalSpecFns;

use crate::args::{
    ArgError, arg_texts, arg_value, has_prefix, parse_display_number, parse_u64, parse_usize, spec_arg_value,
    spec_parse_display_number, spec_parse_unsigned, split_on,
};

verus! {

broadcast use vstd::seq_lib::group_seq_properties;

/// Why the session options were refused.
#[derive(Clone, Copy, Debug, PartialEq, Eq, Structural)]
pub enum SessionConfigError {
    /// A display or number that does not parse.
    Arg(ArgError),
    /// `--max-ticks` outside 1..=1000000.
    MaxTicksOutOfRange,
    /// `--terminal-exec-arg` without `--terminal-exec`.
    TerminalExecArgWithoutExec,
    /// More than 32 terminal arguments, or one longer than 4096 bytes.
    TooManyTerminalExecArgs,
    /// `--wm-process-arg` without `--wm-process`.
    WmProcessArgWithoutProcess,
    /// Native scanout asked for without the environment opting in.
    NativeScanoutNotEnabled,
    /// More than 16 input devices, or one that is not an absolute path.
    InvalidInputDevices,
    /// Both `--inject-text` and `--expect-physical-text`.
    ConflictingInputProofs,
    /// `--terminal-exec` together with an input proof.
    TerminalExecWithInputProof,
    /// An input proof with neither `--max-runtime-ms` nor `--max-ticks`.
    UnboundedInputProof,
    /// `--expect-physical-text` without `--input-devices`.
    PhysicalTextWithoutDevices,
    /// `--expect-physical-pointer` without `--expect-physical-text`.
    PointerWithoutPhysicalText,
    /// `--exit-after-input-proof` without an input proof.
    ExitWithoutInputProof,
    /// Proof text that is not 1 to 24 lowercase ASCII letters.
    InvalidProofText,
}

/// The options of a persistent terminal session.
#[derive(Clone, Debug, PartialEq, Eq)]
pub struct PersistentXtermSessionConfig {
    pub display: String,
    pub display_number: u32,
    pub terminal: String,
    pub terminal_exec: Option<String>,
    pub terminal_exec_args: Vec<String>,
    pub max_runtime_msec: Option<u64>,
    pub max_ticks: Option<usize>,
    pub inject_text: Option<String>,
    pub expect_physical_text: Option<String>,
    pub expect_physical_pointer: bool,
    pub exit_after_input_proof: bool,
    pub input_devices: Vec<String>,
    pub native_scanout: bool,
    pub wm_process: Option<String>,
    pub wm_process_args: Vec<String>,
}

/// The options as plain values.
pub struct SessionConfigView {
    pub display: Seq<char>,
    pub display_number: u32,
    pub terminal: Seq<char>,
    pub terminal_exec: Option<Seq<char>>,
    pub terminal_exec_args: Seq<Seq<char>>,
    pub max_runtime_msec: Option<u64>,
    pub max_ticks: Option<usize>,
    pub inject_text: Option<Seq<char>>,
    pub expect_physical_text: Option<Seq<char>>,
    pub expect_physical_pointer: bool,
    pub exit_after_input_proof: bool,
    pub input_devices: Seq<Seq<char>>,
    pub native_scanout: bool,
    pub wm_process: Option<Seq<char>>,
    pub wm_process_args: Seq<Seq<char>>,
}

pub open spec fn text_of(s: Option<String>) -> Option<Seq<char>> {
    match s {
        Some(t) => Some(t@),
        None => None,
    }
}

pub open spec fn texts_of(v: Seq<String>) -> Seq<Seq<char>> {
    v.map_values(|s: String| s@)
}

impl View for PersistentXtermSessionConfig {
    type V = SessionConfigView;

    open spec fn view(&self) -> SessionConfigView {
        SessionConfigView {
            display: self.display@,
            display_number: self.display_number,
            terminal: self.terminal@,
            terminal_exec: text_of(self.terminal_exec),
            terminal_exec_args: texts_of(self.terminal_exec_args@),
            max_runtime_msec: self.max_runtime_msec,
            max_ticks: self.max_ticks,
            inject_text: text_of(self.inject_text),
            expect_physical_text: text_of(self.expect_physical_text),
            expect_physical_pointer: self.expect_physical_pointer,
            exit_after_input_proof: self.exit_after_input_proof,
            input_devices: texts_of(self.input_devices@),
            native_scanout: self.native_scanout,
            wm_process: text_of(self.wm_process),
            wm_process_args: texts_of(self.wm_process_args@),
        }
    }
}

/// The rest of every argument that starts with `prefix`, in order.
pub open spec fn prefixed_values(args: Seq<Seq<char>>, prefix: Seq<char>) -> Seq<Seq<char>>
    decreases args.len(),
{
    if args.len() == 0 {
        Seq::empty()
    } else {
        let rest = prefixed_values(args.drop_last(), prefix);
        if has_prefix(args.last(), prefix) {
            rest.push(args.last().subrange(prefix.len() as int, args.last().len() as int))
        } else {
            rest
        }
    }
}

/// The UTF-8 length of a text.
pub open spec fn byte_len(t: Seq<char>) -> nat {
    vstd::utf8::encode_utf8(t).len()
}

/// Text an input proof can type: 1 to 24 lowercase ASCII letters.
pub open spec fn proof_text_ok(t: Seq<char>) -> bool {
    &&& 0 < t.len() <= 24
    &&& forall|i: int| 0 <= i < t.len() ==> 'a' <= #[trigger] t[i] <= 'z'
}

/// An absolute path: it starts at the root.
pub open spec fn absolute_path(p: Seq<char>) -> bool {
    p.len() > 0 && p[0] == '/'
}

/// Parsing an optional number argument.
pub open spec fn optional_number(value: Option<Seq<char>>, max: nat) -> Result<Option<nat>, SessionConfigError> {
    match value {
        None => Ok(None),
        Some(v) => match spec_parse_unsigned(vstd::utf8::encode_utf8(v), max) {
            Some(n) => Ok(Some(n)),
            None => Err(SessionConfigError::Arg(ArgError::InvalidNumber)),
        },
    }
}

/// The options `args` name, before any check; numbers that do not parse
/// are left out.
pub open spec fn options_of(args: Seq<Seq<char>>) -> SessionConfigView {
    let display = match spec_arg_value(args, "--display"@) {
        Some(d) => d,
        None => ":77"@,
    };
    SessionConfigView {
        display,
        display_number: match spec_parse_display_number(vstd::utf8::encode_utf8(display)) {
            Ok(n) => n,
            Err(_) => 0,
        },
        terminal: match spec_arg_value(args, "--terminal"@) {
            Some(t) => t,
            None => "xterm"@,
        },
        terminal_exec: spec_arg_value(args, "--terminal-exec"@),
        terminal_exec_args: prefixed_values(args, "--terminal-exec-arg="@),
        max_runtime_msec: match optional_number(spec_arg_value(args, "--max-runtime-ms"@), u64::MAX as nat) {
            Ok(Some(n)) => Some(n as u64),
            _ => None,
        },
        max_ticks: match optional_number(spec_arg_value(args, "--max-ticks"@), usize::MAX as nat) {
            Ok(Some(n)) => Some(n as usize),
            _ => None,
        },
        inject_text: spec_arg_value(args, "--inject-text"@),
        expect_physical_text: spec_arg_value(args, "--expect-physical-text"@),
        expect_physical_pointer: args.contains("--expect-physical-pointer"@),
        exit_after_input_proof: args.contains("--exit-after-input-proof"@),
        input_devices: match spec_arg_value(args, "--input-devices"@) {
            Some(v) => split_on(v, ','),
            None => Seq::empty(),
        },
        native_scanout: args.contains("--native-scanout"@),
        wm_process: spec_arg_value(args, "--wm-process"@),
        wm_process_args: prefixed_values(args, "--wm-process-arg="@),
    }
}

/// The first display or number in `args` that does not parse: the
/// display, then `--max-runtime-ms`, then `--max-ticks`.
pub open spec fn parse_error(args: Seq<Seq<char>>) -> Option<SessionConfigError> {
    let display = match spec_arg_value(args, "--display"@) {
        Some(d) => d,
        None => ":77"@,
    };
    match spec_parse_display_number(vstd::utf8::encode_utf8(display)) {
        Err(e) => Some(SessionConfigError::Arg(e)),
        Ok(_) => match optional_number(spec_arg_value(args, "--max-runtime-ms"@), u64::MAX as nat) {
            Err(e) => Some(e),
            Ok(_) => match optional_number(spec_arg_value(args, "--max-ticks"@), usize::MAX as nat) {
                Err(e) => Some(e),
                Ok(_) => None,
            },
        },
    }
}

/// The first rule the options break, in the order the session checks them.
pub open spec fn rule_error(o: SessionConfigView, native_scanout_enabled: bool) -> Option<SessionConfigError> {
    let proof_text = match o.inject_text {
        Some(t) => Some(t),
        None => o.expect_physical_text,
    };
    if o.max_ticks matches Some(t) && (t == 0 || t > 1_000_000) {
        Some(SessionConfigError::MaxTicksOutOfRange)
    } else if o.terminal_exec is None && o.terminal_exec_args.len() > 0 {
        Some(SessionConfigError::TerminalExecArgWithoutExec)
    } else if o.terminal_exec_args.len() > 32 || exists|i: int|
        0 <= i < o.terminal_exec_args.len() && byte_len(#[trigger] o.terminal_exec_args[i]) > 4096 {
        Some(SessionConfigError::TooManyTerminalExecArgs)
    } else if o.wm_process is None && o.wm_process_args.len() > 0 {
        Some(SessionConfigError::WmProcessArgWithoutProcess)
    } else if o.native_scanout && !native_scanout_enabled {
        Some(SessionConfigError::NativeScanoutNotEnabled)
    } else if o.input_devices.len() > 16 || exists|i: int|
        0 <= i < o.input_devices.len() && !absolute_path(#[trigger] o.input_devices[i]) {
        Some(SessionConfigError::InvalidInputDevices)
    } else if o.inject_text is Some && o.expect_physical_text is Some {
        Some(SessionConfigError::ConflictingInputProofs)
    } else if o.terminal_exec is Some && (o.inject_text is Some || o.expect_physical_text is Some) {
        Some(SessionConfigError::TerminalExecWithInputProof)
    } else if (o.inject_text is Some || o.expect_physical_text is Some) && o.max_runtime_msec is None
        && o.max_ticks is None {
        Some(SessionConfigError::UnboundedInputProof)
    } else if o.expect_physical_text is Some && o.input_devices.len() == 0 {
        Some(SessionConfigError::PhysicalTextWithoutDevices)
    } else if o.expect_physical_pointer && o.expect_physical_text is None {
        Some(SessionConfigError::PointerWithoutPhysicalText)
    } else if o.exit_after_input_proof && o.inject_text is None && o.expect_physical_text is None {
        Some(SessionConfigError::ExitWithoutInputProof)
    } else if proof_text matches Some(t) && !proof_text_ok(t) {
        Some(SessionConfigError::InvalidProofText)
    } else {
        None
    }
}

/// The session options for `args`: the first value that does not parse,
/// else the first rule they break, else the options.
pub open spec fn spec_session_config(args: Seq<Seq<char>>, native_scanout_enabled: bool) -> Result<
    SessionConfigView,
    SessionConfigError,
> {
    match parse_error(args) {
        Some(e) => Err(e),
        None => match rule_error(options_of(args), native_scanout_enabled) {
            Some(e) => Err(e),
            None => Ok(options_of(args)),
        },
    }
}

/// Whether `a` and `b` are the same text.
fn same_text(a: &str, b: &str) -> (same: bool)
    ensures
        same == (a@ == b@),
{
    let n = a.unicode_len();
    if n != b.unicode_len() {
        return false;
    }
    let mut i: usize = 0;
    while i < n
        invariant
            n == a@.len(),
            n == b@.len(),
            i <= n,
            forall|j: int| 0 <= j < i ==> a@[j] == b@[j],
        decreases n - i,
    {
        if a.get_char(i) != b.get_char(i) {
            return false;
        }
        i = i + 1;
    }
    assert(a@ =~= b@);
    true
}

/// Whether `text` starts with `prefix`.
fn starts_with_text(text: &str, prefix: &str) -> (found: bool)
    ensures
        found == has_prefix(text@, prefix@),
{
    let n = prefix.unicode_len();
    let m = text.unicode_len();
    if n > m {
        return false;
    }
    let mut i: usize = 0;
    while i < n
        invariant
            n == prefix@.len(),
            m == text@.len(),
            n <= m,
            i <= n,
            forall|j: int| 0 <= j < i ==> text@[j] == prefix@[j],
        decreases n - i,
    {
        if text.get_char(i) != prefix.get_char(i) {
            assert(text@.subrange(0, n as int)[i as int] != prefix@[i as int]);
            return false;
        }
        i = i + 1;
    }
    assert(text@.subrange(0, n as int) =~= prefix@);
    true
}

/// Whether one of the arguments is exactly `flag`.
pub(crate) fn has_flag(args: &[String], flag: &str) -> (found: bool)
    ensures
        found == arg_texts(args@).contains(flag@),
{
    let ghost texts = arg_texts(args@);
    let mut i: usize = 0;
    while i < args.len()
        invariant
            i <= args@.len(),
            texts == arg_texts(args@),
            texts.len() == args@.len(),
            forall|j: int| 0 <= j < i ==> texts[j] != flag@,
        decreases args@.len() - i,
    {
        if same_text(args[i].as_str(), flag) {
            assert(texts[i as int] == flag@);
            return true;
        }
        i = i + 1;
    }
    false
}

/// The rest of every argument that starts with `prefix`, in order.
pub(crate) fn values_with_prefix(args: &[String], prefix: &str) -> (values: Vec<String>)
    ensures
        texts_of(values@) == prefixed_values(arg_texts(args@), prefix@),
{
    let ghost texts = arg_texts(args@);
    let mut values: Vec<String> = Vec::new();
    let mut i: usize = 0;
    while i < args.len()
        invariant
            i <= args@.len(),
            texts == arg_texts(args@),
            texts.len() == args@.len(),
            texts_of(values@) == prefixed_values(texts.subrange(0, i as int), prefix@),
        decreases args@.len() - i,
    {
        let arg = args[i].as_str();
        assert(texts.subrange(0, i + 1).drop_last() =~= texts.subrange(0, i as int));
        assert(texts.subrange(0, i + 1).last() == arg@);
        if starts_with_text(arg, prefix) {
            let n = prefix.unicode_len();
            let m = arg.unicode_len();
            let rest = arg.substring_char(n, m).to_owned();
            values.push(rest);
            assert(texts_of(values@) =~= prefixed_values(texts.subrange(0, i as int), prefix@).push(
                arg@.subrange(prefix@.len() as int, arg@.len() as int),
            ));
        }
        i = i + 1;
    }
    assert(texts.subrange(0, args@.len() as int) =~= texts);
    values
}

/// `value` cut at every comma.
pub(crate) fn split_commas(value: &str) -> (pieces: Vec<String>)
    ensures
        texts_of(pieces@) == split_on(value@, ','),
{
    let n = value.unicode_len();
    let ghost s = value@;
    let mut pieces: Vec<String> = Vec::new();
    let mut start: usize = 0;
    let mut i: usize = 0;
    assert(s.subrange(0, 0) =~= Seq::<char>::empty());
    assert(texts_of(pieces@).push(s.subrange(0, 0)) =~= seq![Seq::<char>::empty()]);
    while i < n
        invariant
            n == s.len(),
            s == value@,
            start <= i <= n,
            split_on(s.subrange(0, i as int), ',') == texts_of(pieces@).push(s.subrange(start as int, i as int)),
        decreases n - i,
    {
        let ghost done = texts_of(pieces@);
        assert(s.subrange(0, i + 1).drop_last() =~= s.subrange(0, i as int));
        assert(s.subrange(0, i + 1).last() == s[i as int]);
        let c = value.get_char(i);
        if c == ',' {
            let piece = value.substring_char(start, i).to_owned();
            pieces.push(piece);
            assert(texts_of(pieces@) =~= done.push(s.subrange(start as int, i as int)));
            start = i + 1;
            assert(s.subrange(start as int, start as int) =~= Seq::<char>::empty());
        } else {
            assert(s.subrange(start as int, i + 1) =~= s.subrange(start as int, i as int).push(c));
            assert(done.push(s.subrange(start as int, i as int)).update(done.len() as int, s.subrange(start as int, i + 1))
                =~= done.push(s.subrange(start as int, i + 1)));
        }
        i = i + 1;
    }
    let ghost done = texts_of(pieces@);
    let last = value.substring_char(start, n).to_owned();
    pieces.push(last);
    assert(texts_of(pieces@) =~= done.push(s.subrange(start as int, n as int)));
    assert(s.subrange(0, n as int) =~= s);
    pieces
}

/// Whether no piece is longer than 4096 bytes.
pub(crate) fn all_within_bytes(values: &Vec<String>) -> (ok: bool)
    ensures
        ok == !exists|i: int| 0 <= i < values@.len() && byte_len(#[trigger] texts_of(values@)[i]) > 4096,
{
    let ghost texts = texts_of(values@);
    let mut i: usize = 0;
    while i < values.len()
        invariant
            i <= values@.len(),
            texts == texts_of(values@),
            forall|j: int| 0 <= j < i ==> byte_len(#[trigger] texts[j]) <= 4096,
        decreases values@.len() - i,
    {
        let v = values[i].as_str();
        if v.as_bytes().len() > 4096 {
            assert(byte_len(texts[i as int]) > 4096);
            return false;
        }
        i = i + 1;
    }
    true
}

/// Whether every piece is an absolute path.
fn all_absolute(values: &Vec<String>) -> (ok: bool)
    ensures
        ok == !exists|i: int| 0 <= i < values@.len() && !absolute_path(#[trigger] texts_of(values@)[i]),
{
    let ghost texts = texts_of(values@);
    let mut i: usize = 0;
    while i < values.len()
        invariant
            i <= values@.len(),
            texts == texts_of(values@),
            forall|j: int| 0 <= j < i ==> absolute_path(#[trigger] texts[j]),
        decreases values@.len() - i,
    {
        let v = values[i].as_str();
        if v.unicode_len() == 0 || v.get_char(0) != '/' {
            assert(!absolute_path(texts[i as int]));
            return false;
        }
        i = i + 1;
    }
    true
}

/// Whether `text` is 1 to 24 lowercase ASCII letters.
fn check_proof_text(text: &str) -> (ok: bool)
    ensures
        ok == proof_text_ok(text@),
{
    let n = text.unicode_len();
    if n == 0 || n > 24 {
        return false;
    }
    let mut i: usize = 0;
    while i < n
        invariant
            n == text@.len(),
            i <= n,
            forall|j: int| 0 <= j < i ==> 'a' <= #[trigger] text@[j] <= 'z',
        decreases n - i,
    {
        let c = text.get_char(i);
        if c < 'a' || c > 'z' {
            return false;
        }
        i = i + 1;
    }
    true
}

fn optional_u64(value: &Option<String>) -> (n: Result<Option<u64>, SessionConfigError>)
    ensures
        match optional_number(text_of(*value), u64::MAX as nat) {
            Ok(Some(v)) => n == Ok::<Option<u64>, SessionConfigError>(Some(v as u64)),
            Ok(None) => n == Ok::<Option<u64>, SessionConfigError>(None),
            Err(e) => n == Err::<Option<u64>, SessionConfigError>(e),
        },
{
    match value {
        None => Ok(None),
        Some(v) => match parse_u64(v.as_str()) {
            Ok(n) => Ok(Some(n)),
            Err(e) => Err(SessionConfigError::Arg(e)),
        },
    }
}

fn optional_usize(value: &Option<String>) -> (n: Result<Option<usize>, SessionConfigError>)
    ensures
        match optional_number(text_of(*value), usize::MAX as nat) {
            Ok(Some(v)) => n == Ok::<Option<usize>, SessionConfigError>(Some(v as usize)),
            Ok(None) => n == Ok::<Option<usize>, SessionConfigError>(None),
            Err(e) => n == Err::<Option<usize>, SessionConfigError>(e),
        },
{
    match value {
        None => Ok(None),
        Some(v) => match parse_usize(v.as_str()) {
            Ok(n) => Ok(Some(n)),
            Err(e) => Err(SessionConfigError::Arg(e)),
        },
    }
}

impl PersistentXtermSessionConfig {
    /// The first rule these options break, in the order the session checks them.
    pub fn rule_error(&self, native_scanout_enabled: bool) -> (error: Option<SessionConfigError>)
        ensures
            error == rule_error(self@, native_scanout_enabled),
    {
        match self.max_ticks {
            Some(t) => {
                if t == 0 || t > 1_000_000 {
                    return Some(SessionConfigError::MaxTicksOutOfRange);
                }
            },
            None => {},
        }
        if self.terminal_exec.is_none() && self.terminal_exec_args.len() > 0 {
            return Some(SessionConfigError::TerminalExecArgWithoutExec);
        }
        if self.terminal_exec_args.len() > 32 || !all_within_bytes(&self.terminal_exec_args) {
            return Some(SessionConfigError::TooManyTerminalExecArgs);
        }
        if self.wm_process.is_none() && self.wm_process_args.len() > 0 {
            return Some(SessionConfigError::WmProcessArgWithoutProcess);
        }
        if self.native_scanout && !native_scanout_enabled {
            return Some(SessionConfigError::NativeScanoutNotEnabled);
        }
        let absolute_ok = all_absolute(&self.input_devices);
        if self.input_devices.len() > 16 || !absolute_ok {
            return Some(SessionConfigError::InvalidInputDevices);
        }
        let inject = self.inject_text.is_some();
        let expect = self.expect_physical_text.is_some();
        if inject && expect {
            return Some(SessionConfigError::ConflictingInputProofs);
        }
        if self.terminal_exec.is_some() && (inject || expect) {
            return Some(SessionConfigError::TerminalExecWithInputProof);
        }
        if (inject || expect) && self.max_runtime_msec.is_none() && self.max_ticks.is_none() {
            return Some(SessionConfigError::UnboundedInputProof);
        }
        if expect && self.input_devices.len() == 0 {
            return Some(SessionConfigError::PhysicalTextWithoutDevices);
        }
        if self.expect_physical_pointer && !expect {
            return Some(SessionConfigError::PointerWithoutPhysicalText);
        }
        if self.exit_after_input_proof && !inject && !expect {
            return Some(SessionConfigError::ExitWithoutInputProof);
        }
        let proof_text_valid = match &self.inject_text {
            Some(t) => check_proof_text(t.as_str()),
            None => match &self.expect_physical_text {
                Some(t) => check_proof_text(t.as_str()),
                None => true,
            },
        };
        if !proof_text_valid {
            return Some(SessionConfigError::InvalidProofText);
        }
        None
    }

    /// Reads and checks the session options; `native_scanout_enabled` says
    /// whether the environment opted in to real scanout.
    pub fn from_args(args: &[String], native_scanout_enabled: bool) -> (config: Result<
        PersistentXtermSessionConfig,
        SessionConfigError,
    >)
        ensures
            match config {
                Ok(c) => spec_session_config(arg_texts(args@), native_scanout_enabled) == Ok::<
                    SessionConfigView,
                    SessionConfigError,
                >(c@),
                Err(e) => spec_session_config(arg_texts(args@), native_scanout_enabled) == Err::<
                    SessionConfigView,
                    SessionConfigError,
                >(e),
            },
    {
        let ghost texts = arg_texts(args@);
        let display = match arg_value(args, "--display") {
            Some(d) => d,
            None => ":77".to_owned(),
        };
        let display_number = match parse_display_number(display.as_str()) {
            Ok(n) => n,
            Err(e) => return Err(SessionConfigError::Arg(e)),
        };
        let max_runtime_msec = optional_u64(&arg_value(args, "--max-runtime-ms"))?;
        let max_ticks = optional_usize(&arg_value(args, "--max-ticks"))?;
        let ghost devices_spec = match spec_arg_value(texts, "--input-devices"@) {
            Some(v) => split_on(v, ','),
            None => Seq::<Seq<char>>::empty(),
        };
        let input_devices = match arg_value(args, "--input-devices") {
            Some(v) => split_commas(v.as_str()),
            None => {
                let empty: Vec<String> = Vec::new();
                assert(texts_of(empty@) =~= Seq::<Seq<char>>::empty());
                empty
            },
        };
        let config = PersistentXtermSessionConfig {
            display,
            display_number,
            terminal: match arg_value(args, "--terminal") {
                Some(t) => t,
                None => "xterm".to_owned(),
            },
            terminal_exec: arg_value(args, "--terminal-exec"),
            terminal_exec_args: values_with_prefix(args, "--terminal-exec-arg="),
            max_runtime_msec,
            max_ticks,
            inject_text: arg_value(args, "--inject-text"),
            expect_physical_text: arg_value(args, "--expect-physical-text"),
            expect_physical_pointer: has_flag(args, "--expect-physical-pointer"),
            exit_after_input_proof: has_flag(args, "--exit-after-input-proof"),
            input_devices,
            native_scanout: has_flag(args, "--native-scanout"),
            wm_process: arg_value(args, "--wm-process"),
            wm_process_args: values_with_prefix(args, "--wm-process-arg="),
        };
        assert(config@ == options_of(texts));
        match config.rule_error(native_scanout_enabled) {
            Some(e) => Err(e),
            None => Ok(config),
        }
    }

    /// Whether an input proof was asked for.
    pub fn input_proof_requested(&self) -> (requested: bool)
        ensures
            requested == (self.inject_text is Some || self.expect_physical_text is Some),
    {
        self.inject_text.is_some() || self.expect_physical_text.is_some()
    }
}

} // verus!
