//! The output surface the emission backend is keyed by: the target
//! language selector, and the per-output path computation and template
//! context for the two generated files.  Rendering the context through a
//! template engine, and writing the result out, is the surrounding
//! application's job.
use vstd::prelude::*;
use crate::grammar::GrammarFile;
use crate::node_types::{NodeTypesFile, all_field_names, def_names, super_defs, regular_defs,
    terminal_defs};
use crate::order::{sort_uniq, view_strings};
use crate::emission::{EmissionRequest, EmissionUnit, UnitView, view_units};
use vstd::string::StringExecFns;

verus! {

/// One concrete target binding language.
#[derive(Clone, Copy, Debug, PartialEq, Eq, Structural)]
pub enum ForLanguage {
    Rust,
}

impl Default for ForLanguage {
    fn default() -> (r: Self)
        ensures
            r == ForLanguage::Rust,
    {
        ForLanguage::Rust
    }
}

/// The output directory component of a language.
pub open spec fn language_dir(l: ForLanguage) -> Seq<char> {
    match l {
        ForLanguage::Rust => "rust"@,
    }
}

/// The file extension of a language.
pub open spec fn language_ext(l: ForLanguage) -> Seq<char> {
    match l {
        ForLanguage::Rust => "rs"@,
    }
}

impl ForLanguage {
    /// The name of the language, as selectors spell it.
    pub fn as_str(&self) -> (r: &'static str)
        ensures
            r@ == language_dir(*self),
    {
        match self {
            ForLanguage::Rust => "rust",
        }
    }

    /// Parses a language selector; `Some` exactly for the known names.
    pub fn parse(s: &str) -> (r: Option<ForLanguage>)
        ensures
            match r {
                Some(l) => l == ForLanguage::Rust && s@ == "rust"@,
                None => s@ != "rust"@,
            },
    {
        if crate::order::str_eq(s, "rust") {
            Some(ForLanguage::Rust)
        } else {
            None
        }
    }

    /// The directory the language's bindings are written under.
    pub fn output_dir(&self) -> (r: &'static str)
        ensures
            r@ == language_dir(*self),
    {
        match self {
            ForLanguage::Rust => "rust",
        }
    }

    /// The extension of the language's source files.
    pub fn file_extension(&self) -> (r: &'static str)
        ensures
            r@ == language_ext(*self),
    {
        match self {
            ForLanguage::Rust => "rs",
        }
    }
}

/// The path `<base>/<dir>/<file>.<ext>` an output lands at, with the
/// directory part replaced wholesale by an override when one is given.
pub open spec fn output_path(
    base: Seq<char>,
    file: Seq<char>,
    l: ForLanguage,
    override_dir: Option<Seq<char>>,
) -> Seq<char> {
    (match override_dir {
        Some(d) => d,
        None => base + "/"@ + language_dir(l),
    }) + "/"@ + file + "."@ + language_ext(l)
}

/// Builds `output_path` for one output file.
fn build_output_path(
    base: &str,
    file: &str,
    for_language: ForLanguage,
    override_directory: Option<&String>,
) -> (r: String)
    ensures
        r@ == output_path(
            base@,
            file@,
            for_language,
            match override_directory {
                Some(d) => Some(d@),
                None => None::<Seq<char>>,
            },
        ),
{
    let mut out = match override_directory {
        Some(d) => d.clone(),
        None => {
            let mut s = String::from_str(base);
            s.append("/");
            s.append(for_language.output_dir());
            s
        },
    };
    out.append("/");
    out.append(file);
    out.append(".");
    out.append(for_language.file_extension());
    out
}

/// The names of the compound units of a request, in emission order.
pub open spec fn compound_unit_names(units: Seq<UnitView>) -> Seq<Seq<char>>
    decreases units.len(),
{
    if units.len() == 0 {
        Seq::empty()
    } else {
        compound_unit_names(units.drop_last()) + (match units.last() {
            UnitView::Compound { name, .. } => seq![name],
            _ => Seq::empty(),
        })
    }
}

/// The names of the leaf units of a request, in emission order.
pub open spec fn leaf_unit_names(units: Seq<UnitView>) -> Seq<Seq<char>>
    decreases units.len(),
{
    if units.len() == 0 {
        Seq::empty()
    } else {
        leaf_unit_names(units.drop_last()) + (match units.last() {
            UnitView::Leaf { name } => seq![name],
            _ => Seq::empty(),
        })
    }
}

/// The values the constants template is filled with: the classified name
/// sets of the node-types document, each sorted and deduplicated.
#[derive(Clone, Debug)]
pub struct ConstantsContext {
    pub super_node_names: Vec<String>,
    pub node_names: Vec<String>,
    pub field_names: Vec<String>,
    pub terminal_names: Vec<String>,
}

/// The constants output: a file of name constants generated from the
/// node-types document.
#[derive(Clone, Debug, PartialEq)]
pub struct ConstantsFile;

impl ConstantsFile {
    /// The stem of the generated file.
    pub fn default_file_name(&self) -> (r: &'static str)
        ensures
            r@ == "nodes"@,
    {
        "nodes"
    }

    /// The directory the generated file lands under by default.
    pub fn default_directory(&self) -> (r: &'static str)
        ensures
            r@ == "bindings"@,
    {
        "bindings"
    }

    /// The full path of the generated file.
    pub fn file_path(&self, for_language: ForLanguage, override_directory: Option<&String>) -> (r:
        String)
        ensures
            r@ == output_path(
                "bindings"@,
                "nodes"@,
                for_language,
                match override_directory {
                    Some(d) => Some(d@),
                    None => None::<Seq<char>>,
                },
            ),
    {
        build_output_path("bindings", "nodes", for_language, override_directory)
    }

    /// The template context of the constants file.
    pub fn context(&self, input: &NodeTypesFile) -> (r: ConstantsContext)
        ensures
            view_strings(r.super_node_names@) == sort_uniq(def_names(super_defs(input@))),
            view_strings(r.node_names@) == sort_uniq(def_names(regular_defs(input@))),
            view_strings(r.field_names@) == sort_uniq(all_field_names(input@)),
            view_strings(r.terminal_names@) == sort_uniq(def_names(terminal_defs(input@))),
    {
        ConstantsContext {
            super_node_names: input.super_type_node_type_names(),
            node_names: input.regular_node_type_names(),
            field_names: input.field_names(),
            terminal_names: input.terminal_node_type_names(),
        }
    }
}

/// The values the wrapper template is filled with: the grammar's name and
/// the compound and value node types of the emission request.
#[derive(Clone, Debug)]
pub struct WrapperContext {
    pub name: String,
    pub compound_nodes: Vec<String>,
    pub value_nodes: Vec<String>,
}

/// The wrapper output: a type-safe wrapper around the concrete syntax
/// tree, generated from the grammar and the emission request.
#[derive(Clone, Debug, PartialEq)]
pub struct WrapperFile;

impl WrapperFile {
    /// The stem of the generated file.
    pub fn default_file_name(&self) -> (r: &'static str)
        ensures
            r@ == "wrapper"@,
    {
        "wrapper"
    }

    /// The directory the generated file lands under by default.
    pub fn default_directory(&self) -> (r: &'static str)
        ensures
            r@ == "bindings"@,
    {
        "bindings"
    }

    /// The full path of the generated file.
    pub fn file_path(&self, for_language: ForLanguage, override_directory: Option<&String>) -> (r:
        String)
        ensures
            r@ == output_path(
                "bindings"@,
                "wrapper"@,
                for_language,
                match override_directory {
                    Some(d) => Some(d@),
                    None => None::<Seq<char>>,
                },
            ),
    {
        build_output_path("bindings", "wrapper", for_language, override_directory)
    }

    /// The template context of the wrapper file.
    pub fn context(&self, grammar: &GrammarFile, request: &EmissionRequest) -> (r: WrapperContext)
        ensures
            r.name@ == grammar@.name,
            view_strings(r.compound_nodes@) == compound_unit_names(request@),
            view_strings(r.value_nodes@) == leaf_unit_names(request@),
    {
        let units = request.units();
        let ghost uv = request@;
        let mut compound_nodes: Vec<String> = Vec::new();
        let mut value_nodes: Vec<String> = Vec::new();
        proof {
            assert(uv.subrange(0, 0) =~= Seq::<UnitView>::empty());
            assert(view_strings(compound_nodes@) =~= compound_unit_names(uv.subrange(0, 0)));
            assert(view_strings(value_nodes@) =~= leaf_unit_names(uv.subrange(0, 0)));
        }
        let mut i: usize = 0;
        while i < units.len()
            invariant
                0 <= i <= units@.len(),
                uv == view_units(units@),
                view_strings(compound_nodes@) == compound_unit_names(uv.subrange(0, i as int)),
                view_strings(value_nodes@) == leaf_unit_names(uv.subrange(0, i as int)),
            decreases units@.len() - i,
        {
            proof {
                let u = uv.subrange(0, i as int);
                let u1 = uv.subrange(0, i as int + 1);
                assert(u1.drop_last() =~= u);
                assert(u1.last() == uv[i as int]);
                assert(uv[i as int] == units@[i as int]@);
            }
            match &units[i] {
                EmissionUnit::Compound { name, fields: _ } => {
                    compound_nodes.push(name.clone());
                    proof {
                        assert(view_strings(compound_nodes@) =~= compound_unit_names(uv.subrange(
                            0,
                            i as int,
                        )) + seq![name@]);
                        assert(leaf_unit_names(uv.subrange(0, i as int + 1)) =~= leaf_unit_names(
                            uv.subrange(0, i as int),
                        ));
                    }
                },
                EmissionUnit::Leaf { name } => {
                    value_nodes.push(name.clone());
                    proof {
                        assert(view_strings(value_nodes@) =~= leaf_unit_names(uv.subrange(
                            0,
                            i as int,
                        )) + seq![name@]);
                        assert(compound_unit_names(uv.subrange(0, i as int + 1))
                            =~= compound_unit_names(uv.subrange(0, i as int)));
                    }
                },
                EmissionUnit::Union { name: _, variants: _ } => {
                    proof {
                        assert(compound_unit_names(uv.subrange(0, i as int + 1))
                            =~= compound_unit_names(uv.subrange(0, i as int)));
                        assert(leaf_unit_names(uv.subrange(0, i as int + 1)) =~= leaf_unit_names(
                            uv.subrange(0, i as int),
                        ));
                    }
                },
            }
            i = i + 1;
        }
        proof {
            assert(uv.subrange(0, uv.len() as int) =~= uv);
        }
        WrapperContext { name: String::from_str(grammar.name().as_str()), compound_nodes, value_nodes }
    }
}

} // verus!
