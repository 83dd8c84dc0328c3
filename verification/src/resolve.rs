//! File-name resolution: which file names are probed for a correction or a
//! pattern, in which order, and which of them is taken. The caller probes the
//! directory and reports, for each candidate in order, whether the file is
//! there; the first that is there wins.

use crate::dispatch::Context;
use crate::schema::BasePattern;
use crate::schema::PatternParams;
use crate::text::decimal;
use crate::text::decimal_string;
use crate::text::texts;
use vstd::prelude::*;
use vstd::string::*;

verus! {

/// Why no file could be named.
#[derive(Debug, Clone, PartialEq, Eq)]
pub enum ResolveError {
    /// None of the correction files for this wavelength is there.
    NoFlatnessPattern { wavelength: u32 },
    /// None of the files with this stem is there.
    NoBasePattern { stem: String },
    /// The spot pattern is computed and has no file.
    SpotHasNoFile,
}

/// The name of the correction file of a wavelength: the factory variant or
/// the plain one, with the extension appended as it stands.
pub open spec fn flatness_name(wavelength: u32, factory: bool, extension: Seq<char>) -> Seq<char> {
    "flatness_wavelength_"@ + decimal(wavelength as nat) + (if factory {
        "_factory"@
    } else {
        Seq::<char>::empty()
    }) + extension
}

/// The correction files probed for a wavelength, in order: the factory
/// variant with each extension, then the plain variant with each extension.
pub open spec fn flatness_candidates_of(wavelength: u32, extensions: Seq<Seq<char>>) -> Seq<
    Seq<char>,
> {
    Seq::new(
        2 * extensions.len(),
        |i: int|
            if i < extensions.len() {
                flatness_name(wavelength, true, extensions[i])
            } else {
                flatness_name(wavelength, false, extensions[i - extensions.len()])
            },
    )
}

/// The plain variant of candidate `i` of a wavelength: the same extension,
/// without the factory mark.
pub open spec fn plain_variant_of(wavelength: u32, extensions: Seq<Seq<char>>, i: int) -> Seq<
    char,
> {
    flatness_name(
        wavelength,
        false,
        extensions[if i < extensions.len() {
            i
        } else {
            i - extensions.len()
        }],
    )
}

/// The stem of a pattern file: the family name and, for each of the first
/// `n` properties, an underscore, the property, an underscore and its value.
pub open spec fn base_stem_of(name: Seq<char>, properties: Seq<(String, String)>, n: int) -> Seq<
    char,
>
    decreases n,
{
    if n <= 0 {
        name
    } else {
        base_stem_of(name, properties, n - 1) + "_"@ + properties[n - 1].0@ + "_"@ + properties[n
            - 1].1@
    }
}

/// The pattern files probed for a file-based pattern, in order: the stem, a
/// dot and each extension.
pub open spec fn base_candidates_of(base: BasePattern, extensions: Seq<Seq<char>>) -> Seq<
    Seq<char>,
> {
    Seq::new(
        extensions.len(),
        |i: int|
            base_stem_of(base.filename@, base.properties@, base.properties@.len() as int) + "."@
                + extensions[i],
    )
}

/// `i` is the first of `count` candidates whose file is there. A candidate
/// without a report counts as absent.
pub open spec fn is_first_hit(present: Seq<bool>, count: int, i: int) -> bool {
    &&& 0 <= i < count
    &&& i < present.len()
    &&& present[i]
    &&& forall|j: int| 0 <= j < i ==> !#[trigger] present[j]
}

/// Whether the file of any of `count` candidates is there.
pub open spec fn any_hit(present: Seq<bool>, count: int) -> bool {
    exists|i: int| is_first_hit(present, count, i)
}

/// The first of `count` candidates whose file is there.
pub fn first_present(present: &Vec<bool>, count: usize) -> (found: Option<usize>)
    ensures
        match found {
            Some(i) => is_first_hit(present@, count as int, i as int),
            None => !any_hit(present@, count as int),
        },
{
    let mut i: usize = 0;
    while i < count && i < present.len()
        invariant
            forall|j: int| 0 <= j < i && j < present@.len() ==> !#[trigger] present@[j],
            i <= present@.len(),
        decreases count - i,
    {
        if present[i] {
            return Some(i);
        }
        i += 1;
    }
    assert forall|k: int| !is_first_hit(present@, count as int, k) by {
        if 0 <= k < count && k < present@.len() {
            assert(!present@[k]);
        }
    }
    None
}

/// The stem of the files of a file-based pattern.
pub fn base_stem(base: &BasePattern) -> (stem: String)
    ensures
        stem@ == base_stem_of(base.filename@, base.properties@, base.properties@.len() as int),
{
    let mut stem: String = base.filename.clone();
    let mut k: usize = 0;
    while k < base.properties.len()
        invariant
            k <= base.properties@.len(),
            stem@ == base_stem_of(base.filename@, base.properties@, k as int),
        decreases base.properties@.len() - k,
    {
        stem.append("_");
        stem.append(base.properties[k].0.as_str());
        stem.append("_");
        stem.append(base.properties[k].1.as_str());
        k += 1;
    }
    stem
}

impl Context {
    /// The correction files to probe for a wavelength, in order.
    pub fn flatness_candidates(&self, wavelength: u32) -> (names: Vec<String>)
        ensures
            texts(names@) == flatness_candidates_of(
                wavelength,
                texts(self.config.image_file_extensions@),
            ),
    {
        let extensions: &Vec<String> = &self.config.image_file_extensions;
        let mut prefix: String = String::from_str("flatness_wavelength_");
        let number: String = decimal_string(wavelength as u64);
        prefix.append(number.as_str());
        let mut names: Vec<String> = Vec::new();
        let mut i: usize = 0;
        while i < extensions.len()
            invariant
                i <= extensions@.len(),
                prefix@ == "flatness_wavelength_"@ + decimal(wavelength as nat),
                names@.len() == i,
                forall|j: int|
                    0 <= j < i ==> (#[trigger] names@[j])@ == flatness_name(
                        wavelength,
                        true,
                        extensions@[j]@,
                    ),
            decreases extensions@.len() - i,
        {
            let mut name: String = prefix.clone();
            name.append("_factory");
            name.append(extensions[i].as_str());
            names.push(name);
            i += 1;
        }
        let mut k: usize = 0;
        while k < extensions.len()
            invariant
                k <= extensions@.len(),
                prefix@ == "flatness_wavelength_"@ + decimal(wavelength as nat),
                names@.len() == extensions@.len() + k,
                forall|j: int|
                    0 <= j < extensions@.len() ==> (#[trigger] names@[j])@ == flatness_name(
                        wavelength,
                        true,
                        extensions@[j]@,
                    ),
                forall|j: int|
                    0 <= j < k ==> (#[trigger] names@[extensions@.len() + j])@ == flatness_name(
                        wavelength,
                        false,
                        extensions@[j]@,
                    ),
            decreases extensions@.len() - k,
        {
            let mut name: String = prefix.clone();
            name.append(extensions[k].as_str());
            proof {
                assert(name@ =~= flatness_name(wavelength, false, extensions@[k as int]@));
            }
            names.push(name);
            k += 1;
        }
        proof {
            let wanted = flatness_candidates_of(wavelength, texts(extensions@));
            assert(texts(names@).len() == wanted.len());
            assert forall|j: int| 0 <= j < wanted.len() implies texts(names@)[j] == wanted[j] by {
                if j >= extensions@.len() {
                    assert(names@[extensions@.len() + (j - extensions@.len())]@ == wanted[j]);
                }
            }
            assert(texts(names@) =~= wanted);
        }
        names
    }

    /// The name of the correction file for a wavelength: that of the first
    /// candidate whose file is there, as `present` reports them in order.
    pub fn get_file_path_for_flatness_corr_pattern(
        &self,
        wavelength: u32,
        present: &Vec<bool>,
    ) -> (name: Result<String, ResolveError>)
        ensures
            match name {
                Ok(n) => exists|i: int|
                    #[trigger] is_first_hit(
                        present@,
                        2 * (self.config.image_file_extensions@.len() as int),
                        i,
                    ) && n@ == flatness_candidates_of(
                        wavelength,
                        texts(self.config.image_file_extensions@),
                    )[i],
                Err(e) => e == (ResolveError::NoFlatnessPattern { wavelength }) && !any_hit(
                    present@,
                    2 * (self.config.image_file_extensions@.len() as int),
                ),
            },
    {
        let names: Vec<String> = self.flatness_candidates(wavelength);
        assert(texts(names@).len() == names@.len());
        match first_present(present, names.len()) {
            Some(i) => {
                let name: String = names[i].clone();
                assert(texts(names@)[i as int] == name@);
                Ok(name)
            },
            None => Err(ResolveError::NoFlatnessPattern { wavelength }),
        }
    }

    /// The name under which a merged correction is stored: the plain variant
    /// of the correction file that was found, with the same extension.
    pub fn merged_correction_name(&self, wavelength: u32, present: &Vec<bool>) -> (name: Result<
        String,
        ResolveError,
    >)
        ensures
            match name {
                Ok(n) => exists|i: int|
                    #[trigger] is_first_hit(
                        present@,
                        2 * (self.config.image_file_extensions@.len() as int),
                        i,
                    ) && n@ == plain_variant_of(
                        wavelength,
                        texts(self.config.image_file_extensions@),
                        i,
                    ),
                Err(e) => e == (ResolveError::NoFlatnessPattern { wavelength }) && !any_hit(
                    present@,
                    2 * (self.config.image_file_extensions@.len() as int),
                ),
            },
    {
        let names: Vec<String> = self.flatness_candidates(wavelength);
        let count: usize = self.config.image_file_extensions.len();
        assert(texts(names@).len() == names@.len());
        match first_present(present, names.len()) {
            Some(i) => {
                let plain: usize = if i < count {
                    i + count
                } else {
                    i
                };
                let name: String = names[plain].clone();
                assert(texts(names@)[plain as int] == name@);
                Ok(name)
            },
            None => Err(ResolveError::NoFlatnessPattern { wavelength }),
        }
    }

    /// The pattern files to probe for a file-based pattern, in order.
    pub fn base_candidates(&self, base: &BasePattern) -> (names: Vec<String>)
        ensures
            texts(names@) == base_candidates_of(*base, texts(self.config.image_file_extensions@)),
    {
        let extensions: &Vec<String> = &self.config.image_file_extensions;
        let mut stem: String = base_stem(base);
        stem.append(".");
        let mut names: Vec<String> = Vec::new();
        let mut i: usize = 0;
        while i < extensions.len()
            invariant
                i <= extensions@.len(),
                stem@ == base_stem_of(
                    base.filename@,
                    base.properties@,
                    base.properties@.len() as int,
                ) + "."@,
                names@.len() == i,
                forall|j: int|
                    0 <= j < i ==> (#[trigger] names@[j])@ == stem@ + extensions@[j]@,
            decreases extensions@.len() - i,
        {
            let mut name: String = stem.clone();
            name.append(extensions[i].as_str());
            names.push(name);
            i += 1;
        }
        assert(texts(names@) =~= base_candidates_of(*base, texts(extensions@)));
        names
    }

    /// The name of the file of a pattern. An uploaded pattern is named by
    /// its own file name, without probing; a file-based pattern by the first
    /// candidate whose file is there, as `present` reports them in order;
    /// the spot has no file.
    pub fn get_file_path_for_base_corr_pattern(
        &self,
        pattern: &PatternParams,
        present: &Vec<bool>,
    ) -> (name: Result<String, ResolveError>)
        ensures
            match *pattern {
                PatternParams::Spot { .. } => name == Err::<String, ResolveError>(
                    ResolveError::SpotHasNoFile,
                ),
                PatternParams::Custom { custom } => name matches Ok(n) && n@ == custom.filename@,
                PatternParams::Base { base } => match name {
                    Ok(n) => exists|i: int|
                        #[trigger] is_first_hit(present@, self.config.image_file_extensions@.len() as int, i)
                            && n@ == base_candidates_of(
                            base,
                            texts(self.config.image_file_extensions@),
                        )[i],
                    Err(e) => e matches ResolveError::NoBasePattern { stem } && stem@
                        == base_stem_of(
                        base.filename@,
                        base.properties@,
                        base.properties@.len() as int,
                    ) && !any_hit(present@, self.config.image_file_extensions@.len() as int),
                },
            },
    {
        match pattern {
            PatternParams::Spot { .. } => Err(ResolveError::SpotHasNoFile),
            PatternParams::Custom { custom } => Ok(custom.filename.clone()),
            PatternParams::Base { base } => {
                let names: Vec<String> = self.base_candidates(base);
                assert(texts(names@).len() == names@.len());
                match first_present(present, names.len()) {
                    Some(i) => {
                        let name: String = names[i].clone();
                        assert(texts(names@)[i as int] == name@);
                        Ok(name)
                    },
                    None => Err(ResolveError::NoBasePattern { stem: base_stem(base) }),
                }
            },
        }
    }
}

} // verus!
