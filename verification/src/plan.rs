//! The plan of a pattern computation: which terms make up the pattern for
//! the current state, which files are probed for them, and which scale
//! factor quantizes the sum. The caller loads the files and does the
//! arithmetic, term by term in the order of the fields.

use crate::calibration::scale_factor;
use crate::calibration::scale_factor_of;
use crate::calibration::ScaleError;
use crate::dispatch::Context;
use crate::resolve::base_candidates_of;
use crate::resolve::flatness_candidates_of;
use crate::schema::PatternParams;
use crate::schema::SpotPattern;
use crate::text::texts;
use vstd::prelude::*;

verus! {

/// Where the base term of a pattern comes from.
#[derive(Debug, Clone, PartialEq, Eq)]
pub enum BaseTerm {
    /// A spot, computed over the frame.
    Spot(SpotPattern),
    /// An uploaded pattern, read from the file of that name without
    /// probing.
    Custom(String),
    /// A file-based pattern, read from the first of these files that is
    /// there.
    Probe(Vec<String>),
}

/// The terms of a pattern, in the order in which they are added.
#[derive(Debug, PartialEq, Eq)]
pub struct PatternPlan {
    /// The size of the frame.
    pub size: (u32, u32),
    /// The wavelength that the grating and the lens are computed for.
    pub wavelength: u32,
    /// The base term.
    pub base: BaseTerm,
    /// The correction files to probe, where the correction is added.
    pub flatness: Option<Vec<String>>,
    /// The power of the lens term, where there is one.
    pub fresnel: Option<u32>,
    /// The bit pattern of the scale factor, or why there is none.
    pub scale: Result<u32, ScaleError>,
    /// Whether the quantized pattern is also kept as an image.
    pub save_image: bool,
}

/// The base term that a pattern selector asks for, given the configured
/// extensions.
pub open spec fn is_base_term_of(
    pattern: PatternParams,
    extensions: Seq<Seq<char>>,
    term: BaseTerm,
) -> bool {
    match pattern {
        PatternParams::Spot { spot } => term == BaseTerm::Spot(spot),
        PatternParams::Custom { custom } => term matches BaseTerm::Custom(name) && name@
            == custom.filename@,
        PatternParams::Base { base } => term matches BaseTerm::Probe(names) && texts(names@)
            == base_candidates_of(base, extensions),
    }
}

/// `plan` is the plan of the pattern for the state and the configuration
/// of `context`. The correction is planned where the configuration asks for
/// it, the lens term where the power is not zero.
pub open spec fn is_plan_of(context: Context, plan: PatternPlan) -> bool {
    let extensions = texts(context.config.image_file_extensions@);
    &&& plan.size == context.config.screen.size
    &&& plan.wavelength == context.state.wavelength
    &&& is_base_term_of(context.state.pattern_params, extensions, plan.base)
    &&& plan.flatness is Some == context.config.compute_pattern.add_flatness_correction
    &&& plan.flatness matches Some(names) ==> texts(names@) == flatness_candidates_of(
        context.state.wavelength,
        extensions,
    )
    &&& plan.fresnel == (if context.state.fresnel != 0 {
        Some(context.state.fresnel)
    } else {
        None
    })
    &&& plan.scale == scale_factor_of(
        context.config.compute_pattern.slm_calib_scaling.known_wavelengths@,
        context.config.compute_pattern.slm_calib_scaling.scale_factor_bits@,
        context.state.wavelength,
    )
    &&& plan.save_image == (context.config.compute_pattern.debug matches Some(d)
        && d.save_computed_to_image)
}

/// The file names that a base term probes or reads, as texts.
pub open spec fn base_names(term: BaseTerm) -> Seq<Seq<char>> {
    match term {
        BaseTerm::Spot(_) => Seq::empty(),
        BaseTerm::Custom(name) => seq![name@],
        BaseTerm::Probe(names) => texts(names@),
    }
}

/// Two plans of one context agree: they name the same terms, the same files
/// in the same order, and the same scale factor.
pub proof fn lemma_plan_is_determined(context: Context, first: PatternPlan, second: PatternPlan)
    requires
        is_plan_of(context, first),
        is_plan_of(context, second),
    ensures
        first.size == second.size,
        first.wavelength == second.wavelength,
        first.base is Spot ==> first.base == second.base,
        first.base is Custom == second.base is Custom,
        first.base is Probe == second.base is Probe,
        base_names(first.base) == base_names(second.base),
        first.flatness is Some == second.flatness is Some,
        first.flatness matches Some(a) ==> second.flatness matches Some(b) && texts(a@) == texts(
            b@,
        ),
        first.fresnel == second.fresnel,
        first.scale == second.scale,
        first.save_image == second.save_image,
{
}

impl Context {
    /// The plan of the pattern for the current state.
    pub fn pattern_plan(&self) -> (plan: PatternPlan)
        ensures
            is_plan_of(*self, plan),
    {
        let base: BaseTerm = match &self.state.pattern_params {
            PatternParams::Spot { spot } => BaseTerm::Spot(*spot),
            PatternParams::Custom { custom } => BaseTerm::Custom(custom.filename.clone()),
            PatternParams::Base { base } => BaseTerm::Probe(self.base_candidates(base)),
        };
        let flatness: Option<Vec<String>> = if self.config.compute_pattern.add_flatness_correction {
            Some(self.flatness_candidates(self.state.wavelength))
        } else {
            None
        };
        let fresnel: Option<u32> = if self.state.fresnel != 0 {
            Some(self.state.fresnel)
        } else {
            None
        };
        PatternPlan {
            size: self.config.screen.size,
            wavelength: self.state.wavelength,
            base,
            flatness,
            fresnel,
            scale: scale_factor(
                &self.config.compute_pattern.slm_calib_scaling,
                self.state.wavelength,
            ),
            save_image: self.config.compute_pattern.saves_computed_image(),
        }
    }
}

} // verus!
