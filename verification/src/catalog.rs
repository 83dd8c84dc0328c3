//! The pattern catalog: the families of pattern files, the properties of
//! each family in the order in which they were first seen, and the values
//! observed for each property.

use crate::schema::APattern;
use crate::schema::APatternProp;
use crate::schema::AvailablePatterns;
use crate::text::first_at;
use crate::text::file_stem;
use crate::text::find_text;
use crate::text::is_first_at;
use crate::text::lemma_lex_total;
use crate::text::lemma_lex_transitive;
use crate::text::lemma_split_on_nonempty;
use crate::text::lex_lt;
use crate::text::occurs;
use crate::text::split;
use crate::text::split_on;
use crate::text::stem_of;
use crate::text::text_lt;
use crate::text::texts;
use vstd::prelude::*;
use vstd::string::*;

verus! {

/// What a family holds: `values[i]` are the values observed for
/// `properties[i]`, in the order in which they were met.
pub struct FamilyView {
    pub properties: Seq<Seq<char>>,
    pub values: Seq<Seq<Seq<char>>>,
}

/// What a catalog holds: `families[i]` is the family named `names[i]`.
pub struct CatalogView {
    pub names: Seq<Seq<char>>,
    pub families: Seq<FamilyView>,
}

impl View for APattern {
    type V = FamilyView;

    open spec fn view(&self) -> FamilyView {
        FamilyView {
            properties: texts(self.properties@),
            values: Seq::new(
                self.property_values@.len(),
                |i: int| texts(self.property_values@[i].values@),
            ),
        }
    }
}

impl View for AvailablePatterns {
    type V = CatalogView;

    open spec fn view(&self) -> CatalogView {
        CatalogView {
            names: texts(self.pattern_names@),
            families: Seq::new(self.patterns@.len(), |i: int| self.patterns@[i]@),
        }
    }
}

/// The family name under which uploaded patterns are listed.
pub open spec fn custom_family() -> Seq<char> {
    "custom"@
}

/// The one property of the family of uploaded patterns.
pub open spec fn custom_property() -> Seq<char> {
    "filename"@
}

/// A family in which every property occurs once and has its list of values.
pub open spec fn family_wf(f: FamilyView) -> bool {
    &&& f.values.len() == f.properties.len()
    &&& forall|i: int, j: int|
        0 <= i < j < f.properties.len() ==> f.properties[i] != f.properties[j]
}

/// A catalog whose names stand in strictly rising lexical order, each beside
/// a well-formed family.
pub open spec fn catalog_wf(c: CatalogView) -> bool {
    &&& c.families.len() == c.names.len()
    &&& forall|i: int, j: int| 0 <= i < j < c.names.len() ==> lex_lt(c.names[i], c.names[j])
    &&& forall|i: int| 0 <= i < c.families.len() ==> family_wf(#[trigger] c.families[i])
}

/// The catalog of no files.
pub open spec fn empty_catalog() -> CatalogView {
    CatalogView { names: Seq::empty(), families: Seq::empty() }
}

/// The family after one more value was observed for a property: a property
/// not seen before is added behind the others.
pub open spec fn record(f: FamilyView, property: Seq<char>, value: Seq<char>) -> FamilyView {
    if occurs(f.properties, property) {
        let i = first_at(f.properties, property);
        FamilyView { properties: f.properties, values: f.values.update(i, f.values[i].push(value)) }
    } else {
        FamilyView {
            properties: f.properties.push(property),
            values: f.values.push(seq![value]),
        }
    }
}

/// `p` is where `name` belongs among the sorted `names`: behind every name
/// that comes before it, and in front of the others.
pub open spec fn is_insertion_point(names: Seq<Seq<char>>, name: Seq<char>, p: int) -> bool {
    &&& 0 <= p <= names.len()
    &&& forall|j: int| 0 <= j < p ==> lex_lt(#[trigger] names[j], name)
    &&& p < names.len() ==> !lex_lt(names[p], name)
}

/// The catalog with a family of that name: an unknown name gets an empty
/// family, at its place in lexical order.
pub open spec fn with_family(c: CatalogView, name: Seq<char>) -> CatalogView {
    if occurs(c.names, name) {
        c
    } else {
        let p = choose|p: int| is_insertion_point(c.names, name, p);
        CatalogView {
            names: c.names.insert(p, name),
            families: c.families.insert(
                p,
                FamilyView { properties: Seq::empty(), values: Seq::empty() },
            ),
        }
    }
}

/// The catalog after one more value was observed for a property of the
/// family `name`, which the catalog holds.
pub open spec fn with_value(
    c: CatalogView,
    name: Seq<char>,
    property: Seq<char>,
    value: Seq<char>,
) -> CatalogView {
    let i = first_at(c.names, name);
    CatalogView { names: c.names, families: c.families.update(i, record(c.families[i], property, value)) }
}

/// The catalog after the first `pairs` property-value pairs of a file's
/// tokens were recorded for the family `name`. Token 0 is the family name;
/// pair `k` is made of the tokens `2k - 1` and `2k`.
pub open spec fn with_pairs(
    c: CatalogView,
    name: Seq<char>,
    tokens: Seq<Seq<char>>,
    pairs: int,
) -> CatalogView
    decreases pairs,
{
    if pairs <= 0 {
        c
    } else {
        with_value(
            with_pairs(c, name, tokens, pairs - 1),
            name,
            tokens[2 * pairs - 1],
            tokens[2 * pairs],
        )
    }
}

/// The catalog after a pattern file with that stem. The stem is split at
/// underscores into the family name and property-value pairs; a stem whose
/// last property has no value leaves the catalog as it is.
pub open spec fn with_file(c: CatalogView, stem: Seq<char>) -> CatalogView {
    let tokens = split_on(stem, '_');
    if tokens.len() % 2 == 0 {
        c
    } else {
        with_pairs(with_family(c, tokens[0]), tokens[0], tokens, (tokens.len() - 1) / 2)
    }
}

/// The catalog after the first `n` pattern files, each taken by the stem
/// of its name.
pub open spec fn with_files(c: CatalogView, files: Seq<Seq<char>>, n: int) -> CatalogView
    decreases n,
{
    if n <= 0 {
        c
    } else {
        with_file(with_files(c, files, n - 1), stem_of(files[n - 1]))
    }
}

/// The catalog after an uploaded pattern with that file name.
pub open spec fn with_custom(c: CatalogView, file_name: Seq<char>) -> CatalogView {
    with_value(with_family(c, custom_family()), custom_family(), custom_property(), file_name)
}

/// The catalog after the first `n` uploaded patterns.
pub open spec fn with_customs(c: CatalogView, file_names: Seq<Seq<char>>, n: int) -> CatalogView
    decreases n,
{
    if n <= 0 {
        c
    } else {
        with_custom(with_customs(c, file_names, n - 1), file_names[n - 1])
    }
}

/// The catalog of a directory: of the names of its pattern files and the
/// names of its uploaded patterns, each in the order of the scan.
pub open spec fn catalog_of(files: Seq<Seq<char>>, customs: Seq<Seq<char>>) -> CatalogView {
    with_customs(
        with_files(empty_catalog(), files, files.len() as int),
        customs,
        customs.len() as int,
    )
}

impl APattern {
    /// A family without properties.
    pub fn new() -> (family: APattern)
        ensures
            family@ == (FamilyView { properties: Seq::empty(), values: Seq::empty() }),
            family_wf(family@),
    {
        let family = APattern { properties: Vec::new(), property_values: Vec::new() };
        assert(family@.properties =~= Seq::empty());
        assert(family@.values =~= Seq::empty());
        family
    }

    /// Records one more value for a property.
    pub fn add_value(&mut self, property: &str, value: &str)
        requires
            family_wf(old(self)@),
        ensures
            final(self)@ == record(old(self)@, property@, value@),
            family_wf(final(self)@),
    {
        let ghost before = self@;
        match find_text(&self.properties, property) {
            Some(i) => {
                let mut prop: APatternProp = self.property_values.remove(i);
                let ghost earlier = texts(prop.values@);
                prop.values.push(String::from_str(value));
                assert(texts(prop.values@) =~= earlier.push(value@));
                self.property_values.insert(i, prop);
                proof {
                    let after = record(before, property@, value@);
                    assert(self@.properties =~= after.properties);
                    assert(earlier == before.values[i as int]);
                    assert(self@.values.len() == after.values.len());
                    assert forall|k: int| 0 <= k < self@.values.len() implies self@.values[k]
                        == after.values[k] by {
                        if k != i {
                            assert(self@.values[k] == before.values[k]);
                        }
                    }
                    assert(self@.values =~= after.values);
                }
            },
            None => {
                self.properties.push(String::from_str(property));
                let mut values: Vec<String> = Vec::new();
                values.push(String::from_str(value));
                self.property_values.push(APatternProp { values });
                proof {
                    let after = record(before, property@, value@);
                    assert(self@.properties =~= after.properties);
                    assert(self@.values.len() == after.values.len());
                    assert(self@.values[before.values.len() as int] =~= seq![value@]);
                    assert(self@.values =~= after.values);
                    assert forall|i: int, j: int|
                        0 <= i < j < self@.properties.len() implies self@.properties[i]
                        != self@.properties[j] by {
                        if j == before.properties.len() {
                            assert(texts(old(self).properties@)[i] == before.properties[i]);
                        } else {
                            assert(before.properties[i] != before.properties[j]);
                        }
                    }
                }
            },
        }
    }
}

impl AvailablePatterns {
    /// The catalog of no files.
    pub fn new() -> (catalog: AvailablePatterns)
        ensures
            catalog@ == empty_catalog(),
            catalog_wf(catalog@),
    {
        let catalog = AvailablePatterns { pattern_names: Vec::new(), patterns: Vec::new() };
        assert(catalog@.names =~= Seq::empty());
        assert(catalog@.families =~= Seq::empty());
        catalog
    }

    /// Makes sure that the catalog holds a family of that name, and returns
    /// the place of the family.
    pub fn ensure_family(&mut self, name: &str) -> (place: usize)
        requires
            catalog_wf(old(self)@),
        ensures
            final(self)@ == with_family(old(self)@, name@),
            catalog_wf(final(self)@),
            is_first_at(final(self)@.names, name@, place as int),
            first_at(final(self)@.names, name@) == place,
    {
        let ghost before = self@;
        match find_text(&self.pattern_names, name) {
            Some(i) => i,
            None => {
                let mut p: usize = 0;
                while p < self.pattern_names.len() && text_lt(self.pattern_names[p].as_str(), name)
                    invariant
                        *self == *old(self),
                        before == self@,
                        p <= self.pattern_names@.len(),
                        forall|j: int| 0 <= j < p ==> lex_lt(#[trigger] before.names[j], name@),
                    decreases self.pattern_names@.len() - p,
                {
                    assert(before.names[p as int] == self.pattern_names@[p as int]@);
                    p += 1;
                }
                proof {
                    if p < before.names.len() {
                        assert(before.names[p as int] == self.pattern_names@[p as int]@);
                    }
                    assert(is_insertion_point(before.names, name@, p as int));
                    let q = choose|q: int| is_insertion_point(before.names, name@, q);
                    if q < p {
                        assert(lex_lt(before.names[q], name@));
                    } else if p < q {
                        assert(lex_lt(before.names[p as int], name@));
                    }
                    assert(q == p);
                }
                self.pattern_names.insert(p, String::from_str(name));
                self.patterns.insert(p, APattern::new());
                proof {
                    let after = with_family(before, name@);
                    assert(self@.names =~= after.names);
                    assert(self@.families =~= after.families);
                    assert forall|j: int| p <= j < before.names.len() implies lex_lt(
                        name@,
                        #[trigger] before.names[j],
                    ) by {
                        assert(before.names[p as int] != name@);
                        lemma_lex_total(before.names[p as int], name@);
                        if j > p {
                            lemma_lex_transitive(name@, before.names[p as int], before.names[j]);
                        }
                    }
                    assert forall|i: int, j: int| 0 <= i < j < after.names.len() implies lex_lt(
                        after.names[i],
                        after.names[j],
                    ) by {
                        if i < p && j < p {
                            assert(lex_lt(before.names[i], before.names[j]));
                        } else if i < p && j == p {
                            assert(lex_lt(before.names[i], name@));
                        } else if i < p {
                            assert(lex_lt(before.names[i], before.names[j - 1]));
                        } else if i == p {
                            assert(lex_lt(name@, before.names[j - 1]));
                        } else {
                            assert(lex_lt(before.names[i - 1], before.names[j - 1]));
                        }
                    }
                    assert forall|i: int| 0 <= i < after.families.len() implies family_wf(
                        #[trigger] after.families[i],
                    ) by {
                        if i < p {
                            assert(family_wf(before.families[i]));
                        } else if i > p {
                            assert(family_wf(before.families[i - 1]));
                        }
                    }
                    assert(is_first_at(after.names, name@, p as int));
                }
                p
            },
        }
    }

    /// Records one more value for a property of the family at `place`.
    pub fn add_value(&mut self, place: usize, property: &str, value: &str)
        requires
            catalog_wf(old(self)@),
            place < old(self)@.names.len(),
        ensures
            final(self)@ == with_value(
                old(self)@,
                old(self)@.names[place as int],
                property@,
                value@,
            ),
            catalog_wf(final(self)@),
            final(self)@.names == old(self)@.names,
    {
        let ghost before = self@;
        let ghost name = before.names[place as int];
        proof {
            assert(is_first_at(before.names, name, place as int)) by {
                assert forall|j: int| 0 <= j < place implies #[trigger] before.names[j] != name by {
                    assert(lex_lt(before.names[j], name));
                    crate::text::lemma_lex_irreflexive(name);
                }
            }
            assert(first_at(before.names, name) == place);
            assert(family_wf(before.families[place as int]));
        }
        let mut family: APattern = self.patterns.remove(place);
        family.add_value(property, value);
        self.patterns.insert(place, family);
        proof {
            let after = with_value(before, name, property@, value@);
            assert(self@.names =~= after.names);
            assert(self@.families =~= after.families);
            assert forall|i: int| 0 <= i < after.families.len() implies family_wf(
                #[trigger] after.families[i],
            ) by {
                if i != place {
                    assert(family_wf(before.families[i]));
                }
            }
        }
    }

    /// Records a pattern file by its stem.
    pub fn add_file(&mut self, stem: &str)
        requires
            catalog_wf(old(self)@),
        ensures
            final(self)@ == with_file(old(self)@, stem@),
            catalog_wf(final(self)@),
    {
        let tokens: Vec<String> = split(stem, '_');
        proof {
            lemma_split_on_nonempty(stem@, '_');
        }
        if tokens.len() % 2 == 0 {
            return ;
        }
        let ghost start = self@;
        let ghost toks = texts(tokens@);
        let ghost name = toks[0];
        let place: usize = self.ensure_family(tokens[0].as_str());
        let pairs: usize = (tokens.len() - 1) / 2;
        let mut k: usize = 0;
        while k < pairs
            invariant
                toks == texts(tokens@),
                toks == split_on(stem@, '_'),
                name == toks[0],
                pairs == (tokens@.len() - 1) / 2,
                tokens@.len() % 2 == 1,
                k <= pairs,
                catalog_wf(self@),
                is_first_at(self@.names, name, place as int),
                self@ == with_pairs(with_family(start, name), name, toks, k as int),
            decreases pairs - k,
        {
            self.add_value(place, tokens[2 * k + 1].as_str(), tokens[2 * k + 2].as_str());
            proof {
                assert(toks[2 * (k + 1) - 1] == tokens@[2 * k + 1]@);
                assert(toks[2 * (k + 1)] == tokens@[2 * k + 2]@);
            }
            k += 1;
        }
    }

    /// Records an uploaded pattern by its file name.
    pub fn add_custom(&mut self, file_name: &str)
        requires
            catalog_wf(old(self)@),
        ensures
            final(self)@ == with_custom(old(self)@, file_name@),
            catalog_wf(final(self)@),
    {
        let place: usize = self.ensure_family("custom");
        self.add_value(place, "filename", file_name);
    }
}

/// Builds the catalog of a directory from the names of its pattern files and
/// the names of its uploaded patterns, each in the order of the scan.
pub fn build_catalog(files: &Vec<String>, customs: &Vec<String>) -> (catalog: AvailablePatterns)
    ensures
        catalog@ == catalog_of(texts(files@), texts(customs@)),
        catalog_wf(catalog@),
{
    let mut catalog: AvailablePatterns = AvailablePatterns::new();
    let mut i: usize = 0;
    while i < files.len()
        invariant
            i <= files@.len(),
            catalog_wf(catalog@),
            catalog@ == with_files(empty_catalog(), texts(files@), i as int),
        decreases files@.len() - i,
    {
        let stem: String = file_stem(files[i].as_str());
        catalog.add_file(stem.as_str());
        assert(texts(files@)[i as int] == files@[i as int]@);
        i += 1;
    }
    let ghost scanned = catalog@;
    let mut j: usize = 0;
    while j < customs.len()
        invariant
            j <= customs@.len(),
            catalog_wf(catalog@),
            catalog@ == with_customs(scanned, texts(customs@), j as int),
        decreases customs@.len() - j,
    {
        catalog.add_custom(customs[j].as_str());
        assert(texts(customs@)[j as int] == customs@[j as int]@);
        j += 1;
    }
    catalog
}

} // verus!
