//! The options of a Wayland client session, read from `key=value`
//! arguments: the client to run, the proof it should show, and a resize
//! that must fit inside the output.

use std::collections::BTreeSet;
use vstd::prelude::*;
use vstd::string::StrSliceExecFns;
use vstd::string::StringSliceAdditionalSpecFns;

use crate::args::{
    ArgError, arg_texts, arg_value, increasing, keycodes_in_order, parse_keycodes, parse_size, parse_u64, spec_arg_value, spec_parse_keycodes,
    spec_parse_size, spec_parse_unsigned, split_on,
};
use crate::input_proof::InputProofExpectations;
use crate::protocol::Size;
use crate::session_config::{
    all_within_bytes, byte_len, has_flag, prefixed_values, split_commas, text_of, texts_of, values_with_prefix,
};

verus! {

/// The texts of `texts` that are not empty, in order.
pub open spec fn non_empty_texts(texts: Seq<Seq<char>>) -> Seq<Seq<char>> {
    texts.filter(|t: Seq<char>| t.len() > 0)
}

/// Keeps the texts that are not empty, in order.
fn drop_empty_texts(texts: Vec<String>) -> (kept: Vec<String>)
    ensures
        texts_of(kept@) == non_empty_texts(texts_of(texts@)),
{
    let ghost keep = |t: Seq<char>| t.len() > 0;
    let ghost all = texts_of(texts@);
    let mut kept: Vec<String> = Vec::new();
    let mut i: usize = 0;
    while i < texts.len()
        invariant
            i <= texts@.len(),
            all == texts_of(texts@),
            keep == (|t: Seq<char>| t.len() > 0),
            texts_of(kept@) == all.subrange(0, i as int).filter(keep),
        decreases texts@.len() - i,
    {
        proof {
            assert(all.subrange(0, i + 1) =~= all.subrange(0, i as int).push(all[i as int]));
            all.subrange(0, i as int).lemma_filter_push(all[i as int], keep);
        }
        let text = &texts[i];
        if text.as_str().unicode_len() > 0 {
            kept.push(text.clone());
            assert(texts_of(kept@) =~= texts_of(kept@.drop_last()).push(kept@.last()@));
        }
        i = i + 1;
    }
    assert(all.subrange(0, all.len() as int) =~= all);
    kept
}

/// Why the Wayland session options were refused.
#[derive(Clone, Copy, Debug, PartialEq, Eq, Structural)]
pub enum WaylandConfigError {
    /// No `--client=PATH`.
    MissingClient,
    /// More than 64 client arguments, or one longer than 4096 bytes.
    TooManyClientArgs,
    /// A number, size or keycode list that does not parse.
    Arg(ArgError),
    /// A resize that is not positive, not inside the output, or the output's own size.
    InvalidResize,
}

/// The options of a Wayland client session.
#[derive(Clone, Debug, PartialEq, Eq)]
pub struct WaylandSessionConfig {
    pub client: String,
    pub client_args: Vec<String>,
    pub display_name: String,
    pub max_runtime_msec: Option<u64>,
    pub resize: Option<Size>,
    pub resize_after_msec: u64,
    pub input_devices: Vec<String>,
    pub expect_input_pixel_change: bool,
    pub expect_input_presentation: bool,
    pub expect_pointer_input: bool,
    pub expected_keycodes: BTreeSet<u32>,
    pub max_input_latency_msec: u64,
    pub native_scanout: bool,
}

/// The options as plain values.
pub struct WaylandConfigView {
    pub client: Seq<char>,
    pub client_args: Seq<Seq<char>>,
    pub display_name: Seq<char>,
    pub max_runtime_msec: Option<u64>,
    pub resize: Option<Size>,
    pub resize_after_msec: u64,
    pub input_devices: Seq<Seq<char>>,
    pub expect_input_pixel_change: bool,
    pub expect_input_presentation: bool,
    pub expect_pointer_input: bool,
    pub expected_keycodes: Set<u32>,
    pub max_input_latency_msec: u64,
    pub native_scanout: bool,
}

impl View for WaylandSessionConfig {
    type V = WaylandConfigView;

    open spec fn view(&self) -> WaylandConfigView {
        WaylandConfigView {
            client: self.client@,
            client_args: texts_of(self.client_args@),
            display_name: self.display_name@,
            max_runtime_msec: self.max_runtime_msec,
            resize: self.resize,
            resize_after_msec: self.resize_after_msec,
            input_devices: texts_of(self.input_devices@),
            expect_input_pixel_change: self.expect_input_pixel_change,
            expect_input_presentation: self.expect_input_presentation,
            expect_pointer_input: self.expect_pointer_input,
            expected_keycodes: self.expected_keycodes@,
            max_input_latency_msec: self.max_input_latency_msec,
            native_scanout: self.native_scanout,
        }
    }
}

/// An optional `u64` argument, or the number that does not parse.
pub open spec fn optional_u64_arg(value: Option<Seq<char>>) -> Result<Option<u64>, ArgError> {
    match value {
        None => Ok(None),
        Some(t) => match spec_parse_unsigned(vstd::utf8::encode_utf8(t), u64::MAX as nat) {
            Some(n) => Ok(Some(n as u64)),
            None => Err(ArgError::InvalidNumber),
        },
    }
}

/// An optional `WIDTHxHEIGHT` argument.
pub open spec fn optional_size_arg(value: Option<Seq<char>>) -> Result<Option<Size>, ArgError> {
    match value {
        None => Ok(None),
        Some(t) => match spec_parse_size(vstd::utf8::encode_utf8(t)) {
            Ok(s) => Ok(Some(s)),
            Err(e) => Err(e),
        },
    }
}

/// An optional keycode list; no list asks for no keycodes.
pub open spec fn optional_keycodes_arg(value: Option<Seq<char>>) -> Result<Set<u32>, ArgError> {
    match value {
        None => Ok(Set::empty()),
        Some(t) => spec_parse_keycodes(vstd::utf8::encode_utf8(t)),
    }
}

/// Client arguments the session accepts: at most 64, each at most 4096 bytes.
pub open spec fn client_args_ok(client_args: Seq<Seq<char>>) -> bool {
    client_args.len() <= 64 && forall|i: int| 0 <= i < client_args.len() ==> byte_len(#[trigger] client_args[i]) <= 4096
}

/// The options for `args`, read in order: the client, its arguments, the
/// runtime limit, the resize, the resize delay (750 ms by default), the
/// input devices, the proof flags, the expected keycodes and the latency
/// limit (100 ms by default). The first that is missing or does not parse
/// decides the error. The display defaults to `default_display`.
pub open spec fn spec_wayland_config(args: Seq<Seq<char>>, default_display: Seq<char>) -> Result<
    WaylandConfigView,
    WaylandConfigError,
> {
    let client_args = prefixed_values(args, "--client-arg="@);
    match spec_arg_value(args, "--client"@) {
        None => Err(WaylandConfigError::MissingClient),
        Some(client) => if !client_args_ok(client_args) {
            Err(WaylandConfigError::TooManyClientArgs)
        } else {
            match optional_u64_arg(spec_arg_value(args, "--max-runtime-ms"@)) {
                Err(e) => Err(WaylandConfigError::Arg(e)),
                Ok(max_runtime_msec) => match optional_size_arg(spec_arg_value(args, "--resize"@)) {
                    Err(e) => Err(WaylandConfigError::Arg(e)),
                    Ok(resize) => match optional_u64_arg(spec_arg_value(args, "--resize-after-ms"@)) {
                        Err(e) => Err(WaylandConfigError::Arg(e)),
                        Ok(resize_after) => match optional_keycodes_arg(spec_arg_value(args, "--expect-keycodes"@)) {
                            Err(e) => Err(WaylandConfigError::Arg(e)),
                            Ok(expected_keycodes) => match optional_u64_arg(
                                spec_arg_value(args, "--max-input-latency-ms"@),
                            ) {
                                Err(e) => Err(WaylandConfigError::Arg(e)),
                                Ok(max_latency) => Ok(
                                    WaylandConfigView {
                                        client,
                                        client_args,
                                        display_name: match spec_arg_value(args, "--wayland-display"@) {
                                            Some(d) => d,
                                            None => default_display,
                                        },
                                        max_runtime_msec,
                                        resize,
                                        resize_after_msec: match resize_after {
                                            Some(n) => n,
                                            None => 750,
                                        },
                                        input_devices: match spec_arg_value(args, "--input-devices"@) {
                                            Some(v) => non_empty_texts(split_on(v, ',')),
                                            None => Seq::empty(),
                                        },
                                        expect_input_pixel_change: args.contains("--expect-input-pixel-change"@),
                                        expect_input_presentation: args.contains("--expect-input-presentation"@),
                                        expect_pointer_input: args.contains("--expect-pointer-input"@),
                                        expected_keycodes,
                                        max_input_latency_msec: match max_latency {
                                            Some(n) => n,
                                            None => 100,
                                        },
                                        native_scanout: args.contains("--native-scanout"@),
                                    },
                                ),
                            },
                        },
                    },
                },
            }
        },
    }
}

/// A resize the output can show: positive, inside the output, and not the
/// output's own size.
pub open spec fn resize_fits(resize: Option<Size>, output: Size) -> bool {
    match resize {
        None => true,
        Some(s) => !(s.width <= 0 || s.height <= 0 || s.width > output.width || s.height > output.height || s
            == output),
    }
}

fn optional_u64(value: Option<String>) -> (n: Result<Option<u64>, ArgError>)
    ensures
        n == optional_u64_arg(text_of(value)),
{
    match value {
        None => Ok(None),
        Some(v) => match parse_u64(v.as_str()) {
            Ok(n) => Ok(Some(n)),
            Err(e) => Err(e),
        },
    }
}

impl WaylandSessionConfig {
    /// Reads the session options; `default_display` names the Wayland
    /// display when `--wayland-display` does not.
    pub fn from_args(args: &[String], default_display: String) -> (config: Result<
        WaylandSessionConfig,
        WaylandConfigError,
    >)
        ensures
            match config {
                Ok(c) => spec_wayland_config(arg_texts(args@), default_display@) == Ok::<
                    WaylandConfigView,
                    WaylandConfigError,
                >(c@),
                Err(e) => spec_wayland_config(arg_texts(args@), default_display@) == Err::<
                    WaylandConfigView,
                    WaylandConfigError,
                >(e),
            },
    {
        let ghost texts = arg_texts(args@);
        let client = match arg_value(args, "--client") {
            Some(c) => c,
            None => return Err(WaylandConfigError::MissingClient),
        };
        let client_args = values_with_prefix(args, "--client-arg=");
        if client_args.len() > 64 || !all_within_bytes(&client_args) {
            return Err(WaylandConfigError::TooManyClientArgs);
        }
        let display_name = match arg_value(args, "--wayland-display") {
            Some(d) => d,
            None => default_display,
        };
        let max_runtime_msec = match optional_u64(arg_value(args, "--max-runtime-ms")) {
            Ok(n) => n,
            Err(e) => return Err(WaylandConfigError::Arg(e)),
        };
        let resize = match arg_value(args, "--resize") {
            Some(v) => match parse_size(v.as_str()) {
                Ok(s) => Some(s),
                Err(e) => return Err(WaylandConfigError::Arg(e)),
            },
            None => None,
        };
        let resize_after_msec = match optional_u64(arg_value(args, "--resize-after-ms")) {
            Ok(Some(n)) => n,
            Ok(None) => 750,
            Err(e) => return Err(WaylandConfigError::Arg(e)),
        };
        let input_devices = match arg_value(args, "--input-devices") {
            Some(v) => drop_empty_texts(split_commas(v.as_str())),
            None => {
                let empty: Vec<String> = Vec::new();
                assert(texts_of(empty@) =~= Seq::<Seq<char>>::empty());
                empty
            },
        };
        let expect_input_pixel_change = has_flag(args, "--expect-input-pixel-change");
        let expect_input_presentation = has_flag(args, "--expect-input-presentation");
        let expect_pointer_input = has_flag(args, "--expect-pointer-input");
        let expected_keycodes = match arg_value(args, "--expect-keycodes") {
            Some(v) => match parse_keycodes(v.as_str()) {
                Ok(k) => k,
                Err(e) => return Err(WaylandConfigError::Arg(e)),
            },
            None => BTreeSet::new(),
        };
        let max_input_latency_msec = match optional_u64(arg_value(args, "--max-input-latency-ms")) {
            Ok(Some(n)) => n,
            Ok(None) => 100,
            Err(e) => return Err(WaylandConfigError::Arg(e)),
        };
        let config = WaylandSessionConfig {
            client,
            client_args,
            display_name,
            max_runtime_msec,
            resize,
            resize_after_msec,
            input_devices,
            expect_input_pixel_change,
            expect_input_presentation,
            expect_pointer_input,
            expected_keycodes,
            max_input_latency_msec,
            native_scanout: has_flag(args, "--native-scanout"),
        };
        Ok(config)
    }

    /// Refuses a resize the output of `output_size` cannot show.
    pub fn check_resize(&self, output_size: Size) -> (checked: Result<(), WaylandConfigError>)
        ensures
            checked is Ok <==> resize_fits(self.resize, output_size),
            checked is Err ==> checked == Err::<(), WaylandConfigError>(WaylandConfigError::InvalidResize),
    {
        match self.resize {
            Some(s) => {
                if s.width <= 0 || s.height <= 0 || s.width > output_size.width || s.height > output_size.height || (
                s.width == output_size.width && s.height == output_size.height) {
                    return Err(WaylandConfigError::InvalidResize);
                }
            },
            None => {},
        }
        Ok(())
    }

    /// What the run's input proof must show.
    pub fn input_expectations(&self) -> (expectations: InputProofExpectations)
        ensures
            expectations.expect_input_pixel_change == self.expect_input_pixel_change,
            expectations.expect_input_presentation == self.expect_input_presentation,
            expectations.expect_pointer_input == self.expect_pointer_input,
            increasing(expectations.expected_keycodes@),
            expectations.expected_keycodes@.to_set() == self.expected_keycodes@,
            expectations.max_input_latency_msec == self.max_input_latency_msec,
    {
        InputProofExpectations {
            expect_input_pixel_change: self.expect_input_pixel_change,
            expect_input_presentation: self.expect_input_presentation,
            expect_pointer_input: self.expect_pointer_input,
            expected_keycodes: keycodes_in_order(&self.expected_keycodes),
            max_input_latency_msec: self.max_input_latency_msec,
        }
    }
}

} // verus!
