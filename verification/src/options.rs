//! Export options: transformer representation, case mode and shunt control mode.

use vstd::prelude::*;
use crate::num::{push_decimal, spec_decimal};
use crate::text::{eq_str, spec_lower, spec_trim, lower_chars, push_chars, push_str, str_chars, trim_chars, string_of};

verus! {

/// How 3-winding transformers are represented in the exported tables.
#[derive(Debug, Clone, Copy, PartialEq, Eq, Structural)]
pub enum TransformerRepresentationMode {
    /// Each 3-winding unit as three 2-winding legs around a star bus.
    Expanded,
    /// 3-winding units in their own table.
    Native3W,
}

impl Default for TransformerRepresentationMode {
    fn default() -> (r: Self)
        ensures
            r == TransformerRepresentationMode::Native3W,
    {
        TransformerRepresentationMode::Native3W
    }
}

pub open spec fn spec_mode_str(m: TransformerRepresentationMode) -> Seq<char> {
    match m {
        TransformerRepresentationMode::Expanded => "expanded"@,
        TransformerRepresentationMode::Native3W => "native_3w"@,
    }
}

/// The mode named by a command-line value: trimmed, letter case ignored;
/// `expanded`, or `native`, `native_3w`, `native-3w`.
pub open spec fn spec_mode_from_cli(value: Seq<char>) -> Option<TransformerRepresentationMode> {
    let v = spec_lower(spec_trim(value));
    if v == "expanded"@ {
        Some(TransformerRepresentationMode::Expanded)
    } else if v == "native"@ || v == "native_3w"@ || v == "native-3w"@ {
        Some(TransformerRepresentationMode::Native3W)
    } else {
        None
    }
}

impl TransformerRepresentationMode {
    /// The stable metadata token of the mode.
    pub fn as_stable_str(self) -> (r: &'static str)
        ensures
            r@ == spec_mode_str(self),
    {
        match self {
            TransformerRepresentationMode::Expanded => "expanded",
            TransformerRepresentationMode::Native3W => "native_3w",
        }
    }

    /// Reads a `--transformer-mode` value.
    pub fn from_cli_value(value: &str) -> (r: Option<Self>)
        ensures
            r == spec_mode_from_cli(value@),
    {
        let chars = str_chars(value);
        let t = trim_chars(&chars);
        let v = lower_chars(&t);
        if eq_str(&v, "expanded") {
            Some(TransformerRepresentationMode::Expanded)
        } else if eq_str(&v, "native") || eq_str(&v, "native_3w") || eq_str(&v, "native-3w") {
            Some(TransformerRepresentationMode::Native3W)
        } else {
            None
        }
    }
}

// ---------------------------------------------------------------------------
// Case mode
// ---------------------------------------------------------------------------

/// The case modes a caller may request.
pub open spec fn spec_allowed_case_mode(t: Seq<char>) -> bool {
    t == "flat_start_planning"@ || t == "warm_start_planning"@ || t == "solved_snapshot"@ || t
        == "hour_ahead_advisory"@
}

/// The case mode of a case from the flatness of its buses (each bus at 1.0 pu and
/// 0 degrees): flat start when there is at least one bus and all are flat.
pub open spec fn spec_detect_case_mode(flat: Seq<bool>) -> Seq<char> {
    if flat.len() > 0 && forall|i: int| 0 <= i < flat.len() ==> #[trigger] flat[i] {
        "flat_start_planning"@
    } else {
        "warm_start_planning"@
    }
}

/// `flat_start_planning` when every bus is flat (and there is one), else
/// `warm_start_planning`.
pub fn detect_case_mode(flat: &Vec<bool>) -> (r: &'static str)
    ensures
        r@ == spec_detect_case_mode(flat@),
{
    if flat.len() == 0 {
        return "warm_start_planning";
    }
    let mut i: usize = 0;
    while i < flat.len()
        invariant
            i <= flat.len(),
            forall|k: int| 0 <= k < i ==> flat@[k],
        decreases flat.len() - i,
    {
        if !flat[i] {
            return "warm_start_planning";
        }
        i = i + 1;
    }
    "flat_start_planning"
}

/// Errors of the export preparation.
pub enum ExportError {
    /// A `case_mode` override outside the allowed set (the raw value).
    InvalidCaseMode(String),
    /// No nominal kV for a required column (field, bus, opposite bus).
    MissingNominalKv(String, u32, u32),
    /// Expanded mode with in-service 3-winding rows (their count).
    ActiveThreeWindingInExpandedMode(usize),
    /// Native 3-winding mode with in-service star-leg rows (their count).
    ActiveStarLegsInNativeMode(usize),
    /// Optional `scenario_context` rows were supplied.
    ScenarioContextUnsupported,
}

/// The text of an export error.
pub open spec fn spec_error_message(e: ExportError) -> Seq<char> {
    match e {
        ExportError::InvalidCaseMode(raw) => "invalid case_mode override '"@ + raw@
            + "'; expected one of: flat_start_planning, warm_start_planning, solved_snapshot, hour_ahead_advisory"@,
        ExportError::MissingNominalKv(field, p, o) => "schema requires non-null "@ + field@
            + "; no valid nominal kV found for bus "@ + spec_decimal(p as nat)
            + " or opposite bus "@ + spec_decimal(o as nat),
        ExportError::ActiveThreeWindingInExpandedMode(n) =>
            "export invariant violation: transformer mode 'expanded' requires zero active transformers_3w rows, found "@
            + spec_decimal(n as nat),
        ExportError::ActiveStarLegsInNativeMode(n) =>
            "export invariant violation: transformer mode 'native_3w' forbids active star-leg transformers_2w rows, found "@
            + spec_decimal(n as nat),
        ExportError::ScenarioContextUnsupported =>
            "scenario_context_rows is non-empty, but optional `scenario_context` root emission is unsupported in this build's Arrow IPC path. Omit scenario_context_rows for standard PSLF exports."@,
    }
}

impl ExportError {
    /// The error's message.
    pub fn message(&self) -> (r: String)
        ensures
            r@ == spec_error_message(*self),
    {
        let mut s = String::new();
        match self {
            ExportError::InvalidCaseMode(raw) => {
                push_str(&mut s, "invalid case_mode override '");
                push_str(&mut s, raw.as_str());
                push_str(
                    &mut s,
                    "'; expected one of: flat_start_planning, warm_start_planning, solved_snapshot, hour_ahead_advisory",
                );
            },
            ExportError::MissingNominalKv(field, p, o) => {
                push_str(&mut s, "schema requires non-null ");
                push_str(&mut s, field.as_str());
                push_str(&mut s, "; no valid nominal kV found for bus ");
                push_decimal(&mut s, *p as u64);
                push_str(&mut s, " or opposite bus ");
                push_decimal(&mut s, *o as u64);
            },
            ExportError::ActiveThreeWindingInExpandedMode(n) => {
                push_str(
                    &mut s,
                    "export invariant violation: transformer mode 'expanded' requires zero active transformers_3w rows, found ",
                );
                push_decimal(&mut s, *n as u64);
            },
            ExportError::ActiveStarLegsInNativeMode(n) => {
                push_str(
                    &mut s,
                    "export invariant violation: transformer mode 'native_3w' forbids active star-leg transformers_2w rows, found ",
                );
                push_decimal(&mut s, *n as u64);
            },
            ExportError::ScenarioContextUnsupported => {
                push_str(
                    &mut s,
                    "scenario_context_rows is non-empty, but optional `scenario_context` root emission is unsupported in this build's Arrow IPC path. Omit scenario_context_rows for standard PSLF exports.",
                );
            },
        }
        s
    }
}

/// The case mode to export: a trimmed override when it is one of the allowed modes
/// (an error when it is not), else the mode detected from bus flatness.
pub open spec fn spec_resolve_case_mode(over: Option<Seq<char>>, flat: Seq<bool>) -> Option<
    Seq<char>,
> {
    match over {
        Some(raw) => if spec_allowed_case_mode(spec_trim(raw)) {
            Some(spec_trim(raw))
        } else {
            None
        },
        None => Some(spec_detect_case_mode(flat)),
    }
}

pub fn resolve_case_mode(case_mode_override: Option<&str>, flat: &Vec<bool>) -> (r: Result<
    String,
    ExportError,
>)
    ensures
        match r {
            Ok(m) => spec_resolve_case_mode(
                match case_mode_override {
                    Some(o) => Some(o@),
                    None => None,
                },
                flat@,
            ) == Some(m@),
            Err(e) => spec_resolve_case_mode(
                match case_mode_override {
                    Some(o) => Some(o@),
                    None => None,
                },
                flat@,
            ) is None && (e matches ExportError::InvalidCaseMode(raw) && raw@
                == case_mode_override.unwrap()@),
        },
{
    match case_mode_override {
        Some(raw) => {
            let chars = str_chars(raw);
            let token = trim_chars(&chars);
            if eq_str(&token, "flat_start_planning") || eq_str(&token, "warm_start_planning")
                || eq_str(&token, "solved_snapshot") || eq_str(&token, "hour_ahead_advisory") {
                let mut s = String::new();
                push_chars(&mut s, &token);
                Ok(s)
            } else {
                Err(ExportError::InvalidCaseMode(string_of(raw)))
            }
        },
        None => Ok(string_of(detect_case_mode(flat))),
    }
}

/// The shunt control mode handed to the solver: a non-empty trimmed override, no
/// mode for an empty one, else `planning_full` for the planning case modes.
pub open spec fn spec_default_shunt_control_mode(case_mode: Seq<char>, over: Option<Seq<char>>) -> Option<
    Seq<char>,
> {
    match over {
        Some(raw) => if spec_trim(raw).len() == 0 {
            None
        } else {
            Some(spec_trim(raw))
        },
        None => if case_mode == "flat_start_planning"@ || case_mode == "warm_start_planning"@
            || case_mode == "hour_ahead_advisory"@ {
            Some("planning_full"@)
        } else {
            None
        },
    }
}

pub fn resolved_default_shunt_control_mode(case_mode: &str, override_opt: Option<&str>) -> (r:
    Option<String>)
    ensures
        match r {
            Some(m) => spec_default_shunt_control_mode(
                case_mode@,
                match override_opt {
                    Some(o) => Some(o@),
                    None => None,
                },
            ) == Some(m@),
            None => spec_default_shunt_control_mode(
                case_mode@,
                match override_opt {
                    Some(o) => Some(o@),
                    None => None,
                },
            ) is None,
        },
{
    match override_opt {
        Some(raw) => {
            let chars = str_chars(raw);
            let t = trim_chars(&chars);
            if t.len() == 0 {
                None
            } else {
                let mut s = String::new();
                push_chars(&mut s, &t);
                Some(s)
            }
        },
        None => {
            let m = str_chars(case_mode);
            if eq_str(&m, "flat_start_planning") || eq_str(&m, "warm_start_planning") || eq_str(
                &m,
                "hour_ahead_advisory",
            ) {
                Some(string_of("planning_full"))
            } else {
                None
            }
        },
    }
}

/// Reading back the stable token of a mode gives the mode.
pub proof fn law_mode_token_roundtrip(m: TransformerRepresentationMode)
    ensures
        spec_mode_from_cli(spec_mode_str(m)) == Some(m),
{
    reveal_strlit("expanded");
    reveal_strlit("native_3w");
    reveal_strlit("native");
    reveal_strlit("native-3w");
    let s = spec_mode_str(m);
    assert(spec_trim(s) == s) by {
        assert(!crate::text::spec_is_whitespace(s[0]));
        assert(!crate::text::spec_is_whitespace(s.last()));
    }
    assert(spec_lower(s) =~= s);
}

/// An export's case mode is always one of the allowed modes.
pub proof fn law_resolved_case_mode_allowed(over: Option<Seq<char>>, flat: Seq<bool>)
    ensures
        spec_resolve_case_mode(over, flat) matches Some(m) ==> spec_allowed_case_mode(m),
{
}

/// Without overrides, a detected case mode is a planning mode and hands the
/// solver the `planning_full` shunt control mode.
pub proof fn law_detected_mode_hands_off_planning_shunts(flat: Seq<bool>)
    ensures
        spec_resolve_case_mode(None, flat) == Some(spec_detect_case_mode(flat)),
        spec_default_shunt_control_mode(spec_detect_case_mode(flat), None) == Some(
            "planning_full"@,
        ),
{
}


/// The detected case mode is a flat start exactly when there is a bus and every
/// bus is flat: one bus off 1.0 pu / 0 degrees, wherever it stands, makes it a
/// warm start, and adding a bus that is not flat never gives a flat start.
pub proof fn law_case_mode_detection(flat: Seq<bool>, i: int)
    ensures
        0 <= i < flat.len() && !flat[i] ==> spec_detect_case_mode(flat) == "warm_start_planning"@,
        flat.len() == 0 ==> spec_detect_case_mode(flat) == "warm_start_planning"@,
        (flat.len() > 0 && forall|k: int| 0 <= k < flat.len() ==> flat[k])
            ==> spec_detect_case_mode(flat) == "flat_start_planning"@,
        spec_detect_case_mode(flat.push(false)) == "warm_start_planning"@,
        spec_detect_case_mode(seq![false] + flat) == "warm_start_planning"@,
{
    assert(!flat.push(false)[flat.len() as int]);
    assert(!(seq![false] + flat)[0]);
}

/// The planning case modes hand the solver `planning_full` shunt control when no
/// override is given; a solved snapshot gets no shunt control mode; a non-blank
/// override is always used, trimmed.
pub proof fn law_shunt_control_handoff(case_mode: Seq<char>, raw: Seq<char>)
    ensures
        spec_default_shunt_control_mode("flat_start_planning"@, None) == Some("planning_full"@),
        spec_default_shunt_control_mode("warm_start_planning"@, None) == Some("planning_full"@),
        spec_default_shunt_control_mode("hour_ahead_advisory"@, None) == Some("planning_full"@),
        spec_default_shunt_control_mode("solved_snapshot"@, None) is None,
        spec_trim(raw).len() > 0 ==> spec_default_shunt_control_mode(case_mode, Some(raw)) == Some(
            spec_trim(raw),
        ),
{
    reveal_strlit("solved_snapshot");
    reveal_strlit("flat_start_planning");
    reveal_strlit("warm_start_planning");
    reveal_strlit("hour_ahead_advisory");
    assert("solved_snapshot"@ != "flat_start_planning"@) by {
        assert("solved_snapshot"@[0] != "flat_start_planning"@[0]);
    }
    assert("solved_snapshot"@ != "warm_start_planning"@) by {
        assert("solved_snapshot"@[0] != "warm_start_planning"@[0]);
    }
    assert("solved_snapshot"@ != "hour_ahead_advisory"@) by {
        assert("solved_snapshot"@[0] != "hour_ahead_advisory"@[0]);
    }
}


/// The command line accepts `expanded` for the expanded representation and
/// `native`, `native_3w` or `native-3w` for the native one, in any letter case
/// and with surrounding blanks; any other value is refused.
pub proof fn law_mode_cli_values(value: Seq<char>)
    ensures
        ({
            let v = spec_lower(spec_trim(value));
            &&& v == "expanded"@ ==> spec_mode_from_cli(value) == Some(
                TransformerRepresentationMode::Expanded,
            )
            &&& (v == "native"@ || v == "native_3w"@ || v == "native-3w"@) ==> spec_mode_from_cli(
                value,
            ) == Some(TransformerRepresentationMode::Native3W)
            &&& !(v == "expanded"@ || v == "native"@ || v == "native_3w"@ || v == "native-3w"@)
                ==> spec_mode_from_cli(value) is None
        }),
{
    reveal_strlit("expanded");
    reveal_strlit("native");
    reveal_strlit("native_3w");
    reveal_strlit("native-3w");
    assert("expanded"@ != "native"@) by {
        assert("expanded"@.len() != "native"@.len());
    }
    assert("expanded"@ != "native_3w"@) by {
        assert("expanded"@.len() != "native_3w"@.len());
    }
    assert("expanded"@ != "native-3w"@) by {
        assert("expanded"@.len() != "native-3w"@.len());
    }
}

/// An override that is one of the four case modes once trimmed is taken as that
/// mode; any other override is refused.
pub proof fn law_case_mode_override(raw: Seq<char>, flat: Seq<bool>)
    ensures
        ({
            let t = spec_trim(raw);
            let allowed = t == "flat_start_planning"@ || t == "warm_start_planning"@ || t
                == "solved_snapshot"@ || t == "hour_ahead_advisory"@;
            &&& allowed ==> spec_resolve_case_mode(Some(raw), flat) == Some(t)
            &&& !allowed ==> spec_resolve_case_mode(Some(raw), flat) is None
        }),
{
}

} // verus!
