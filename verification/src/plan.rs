//! The decisions of one export: everything that is written besides the
//! real-valued columns, decided from the parsed case, its dynamic generators,
//! the flatness of its buses and the caller's options.

use vstd::prelude::*;
use crate::dyd::{dyd_generators_view, strings_view, DydGeneratorRecord};
use crate::epc::{records_view, EpcCase};
use crate::export::{
    classify_bus_types, compute_case_fingerprint, compute_ibr_subtype_by_generator, entries_view,
    infer_scenario_tags, infer_study_purpose, spec_bus_types, spec_case_fingerprint,
    spec_ibr_entries, spec_infer_scenario_tags, spec_infer_study_purpose, BusType,
    IbrSubtypeEntry,
};
use crate::fields::opt_text;
use crate::options::{
    resolve_case_mode, resolved_default_shunt_control_mode, spec_default_shunt_control_mode,
    spec_resolve_case_mode, ExportError, TransformerRepresentationMode,
};
use crate::text::string_of;

verus! {

/// What the caller asks of an export.
pub struct ExportOptions {
    pub transformer_representation_mode: TransformerRepresentationMode,
    /// Replaces the study purpose inferred from the title.
    pub study_purpose: Option<String>,
    /// Replace the scenario tags inferred from the title, when there are any.
    pub scenario_tags: Vec<String>,
    pub case_mode_override: Option<String>,
    pub default_shunt_control_mode_override: Option<String>,
    /// How many optional `scenario_context` rows were supplied (none can be written).
    pub scenario_context_row_count: usize,
}

impl Default for ExportOptions {
    fn default() -> (r: Self)
        ensures
            r.transformer_representation_mode == TransformerRepresentationMode::Native3W,
            r.study_purpose is None,
            r.scenario_tags@.len() == 0,
            r.case_mode_override is None,
            r.default_shunt_control_mode_override is None,
            r.scenario_context_row_count == 0,
    {
        ExportOptions {
            transformer_representation_mode: TransformerRepresentationMode::Native3W,
            study_purpose: None,
            scenario_tags: Vec::new(),
            case_mode_override: None,
            default_shunt_control_mode_override: None,
            scenario_context_row_count: 0,
        }
    }
}

/// The decided values of one export.
pub struct ExportPlan {
    pub case_fingerprint: String,
    pub case_mode: String,
    /// The IBR subtype of each in-service inverter-based unit.
    pub ibr_subtypes: Vec<IbrSubtypeEntry>,
    /// The interchange type of each bus record, in record order.
    pub bus_types: Vec<BusType>,
    pub study_purpose: Option<String>,
    pub scenario_tags: Vec<String>,
    pub default_shunt_control_mode: Option<String>,
    /// Whether some in-service unit is inverter-based.
    pub has_ibr: bool,
}

/// An export cannot carry `scenario_context` rows.
pub fn check_scenario_context(options: &ExportOptions) -> (r: Result<(), ExportError>)
    ensures
        r is Ok <==> options.scenario_context_row_count == 0,
        r matches Err(e) ==> e is ScenarioContextUnsupported,
{
    if options.scenario_context_row_count > 0 {
        Err(ExportError::ScenarioContextUnsupported)
    } else {
        Ok(())
    }
}

/// The caller's study purpose, else the one the title names.
pub open spec fn spec_study_purpose(given: Option<Seq<char>>, title: Seq<char>) -> Option<Seq<char>> {
    match given {
        Some(p) => Some(p),
        None => spec_infer_study_purpose(title),
    }
}

/// The caller's scenario tags when there are any, else those the title names.
pub open spec fn spec_scenario_tags(given: Seq<Seq<char>>, title: Seq<char>) -> Seq<Seq<char>> {
    if given.len() == 0 {
        spec_infer_scenario_tags(title)
    } else {
        given
    }
}

fn copy_strings(v: &Vec<String>) -> (r: Vec<String>)
    ensures
        strings_view(r@) == strings_view(v@),
{
    let mut r: Vec<String> = Vec::new();
    let mut i: usize = 0;
    while i < v.len()
        invariant
            i <= v@.len(),
            strings_view(r@) == strings_view(v@).subrange(0, i as int),
        decreases v@.len() - i,
    {
        let s = string_of(v[i].as_str());
        let ghost before = strings_view(r@);
        r.push(s);
        assert(strings_view(r@) =~= before.push(v@[i as int]@));
        assert(strings_view(v@).subrange(0, i + 1) =~= strings_view(v@).subrange(0, i as int).push(
            v@[i as int]@,
        ));
        i = i + 1;
    }
    assert(strings_view(v@).subrange(0, v@.len() as int) =~= strings_view(v@));
    r
}

/// The decisions of an export. `flat` tells, for each bus, whether it sits at
/// 1.0 pu and 0 degrees. Fails when `scenario_context` rows were supplied, then
/// when the case-mode override is not an allowed mode.
pub fn plan_export(
    case: &EpcCase,
    dyd_generators: &Vec<DydGeneratorRecord>,
    flat: &Vec<bool>,
    options: &ExportOptions,
) -> (r: Result<ExportPlan, ExportError>)
    ensures
        match r {
            Ok(p) => {
                &&& options.scenario_context_row_count == 0
                &&& spec_resolve_case_mode(opt_text(options.case_mode_override), flat@) == Some(
                    p.case_mode@,
                )
                &&& p.case_fingerprint@ == spec_case_fingerprint(
                    case.title@,
                    records_view(case.records@),
                )
                &&& entries_view(p.ibr_subtypes@) == spec_ibr_entries(
                    records_view(case.records@),
                    dyd_generators_view(dyd_generators@),
                )
                &&& p.bus_types@ == spec_bus_types(records_view(case.records@))
                &&& opt_text(p.study_purpose) == spec_study_purpose(
                    opt_text(options.study_purpose),
                    case.title@,
                )
                &&& strings_view(p.scenario_tags@) == spec_scenario_tags(
                    strings_view(options.scenario_tags@),
                    case.title@,
                )
                &&& opt_text(p.default_shunt_control_mode) == spec_default_shunt_control_mode(
                    p.case_mode@,
                    opt_text(options.default_shunt_control_mode_override),
                )
                &&& p.has_ibr == (p.ibr_subtypes@.len() > 0)
            },
            Err(e) => {
                ||| options.scenario_context_row_count > 0 && e is ScenarioContextUnsupported
                ||| {
                    &&& options.scenario_context_row_count == 0
                    &&& spec_resolve_case_mode(opt_text(options.case_mode_override), flat@) is None
                    &&& e matches ExportError::InvalidCaseMode(raw) && opt_text(
                        options.case_mode_override,
                    ) == Some(raw@)
                }
            },
        },
{
    check_scenario_context(options)?;
    let case_fingerprint = compute_case_fingerprint(case);
    let case_mode = match &options.case_mode_override {
        Some(raw) => resolve_case_mode(Some(raw.as_str()), flat)?,
        None => resolve_case_mode(None, flat)?,
    };
    let ibr_subtypes = compute_ibr_subtype_by_generator(case, dyd_generators);
    let bus_types = classify_bus_types(case);
    let study_purpose = match &options.study_purpose {
        Some(p) => Some(string_of(p.as_str())),
        None => infer_study_purpose(case.title.as_str()),
    };
    let scenario_tags = if options.scenario_tags.len() == 0 {
        infer_scenario_tags(case.title.as_str())
    } else {
        copy_strings(&options.scenario_tags)
    };
    let default_shunt_control_mode = match &options.default_shunt_control_mode_override {
        Some(o) => resolved_default_shunt_control_mode(case_mode.as_str(), Some(o.as_str())),
        None => resolved_default_shunt_control_mode(case_mode.as_str(), None),
    };
    let has_ibr = ibr_subtypes.len() > 0;
    Ok(
        ExportPlan {
            case_fingerprint,
            case_mode,
            ibr_subtypes,
            bus_types,
            study_purpose,
            scenario_tags,
            default_shunt_control_mode,
            has_ibr,
        },
    )
}

} // verus!
