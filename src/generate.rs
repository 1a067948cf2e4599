//! Resolution of the names given to the `generate` command.
use vstd::prelude::*;

use crate::config::{strings_view, Category, Configuration, Element, Tool, UnknownEntity};

verus! {

/// A resolved request to write out the templates of several tools.
#[derive(Debug, Clone)]
pub struct Arguments {
    pub tools: Vec<Tool>,
    pub platform: Element,
    pub language: Element,
}

/// Every name of `kinds` resolves to a tool.
pub open spec fn all_known(cfg: Configuration, kinds: Seq<Seq<char>>) -> bool {
    forall|k: int| 0 <= k < kinds.len() ==> (#[trigger] cfg.tool_named(kinds[k])) is Some
}

/// `kinds[i]` is the first name of `kinds` that resolves to no tool.
pub open spec fn first_unknown(cfg: Configuration, kinds: Seq<Seq<char>>, i: int) -> bool {
    &&& 0 <= i < kinds.len()
    &&& cfg.tool_named(kinds[i]) is None
    &&& forall|k: int| 0 <= k < i ==> (#[trigger] cfg.tool_named(kinds[k])) is Some
}

impl Arguments {
    /// Resolves `kinds` in order, then the platform, then the language
    /// against `cfg`; the first name that resolves to nothing is the error.
    pub fn resolve(cfg: &Configuration, kinds: &Vec<String>, platform: &str, language: &str) -> (r:
        Result<Arguments, UnknownEntity>)
        ensures
            forall|i: int|
                #[trigger] first_unknown(*cfg, strings_view(kinds@), i) ==> (r is Err
                    && r->Err_0.category == Category::Tool && r->Err_0.name@ == kinds@[i]@),
            all_known(*cfg, strings_view(kinds@)) && cfg.platform_named(platform@) is None ==> (
            r is Err && r->Err_0.category == Category::Platform && r->Err_0.name@ == platform@),
            all_known(*cfg, strings_view(kinds@)) && cfg.platform_named(platform@) is Some
                && cfg.language_named(language@) is None ==> (r is Err && r->Err_0.category
                == Category::Language && r->Err_0.name@ == language@),
            r is Ok <==> (all_known(*cfg, strings_view(kinds@)) && cfg.platform_named(platform@) is Some
                && cfg.language_named(language@) is Some),
            r is Ok ==> (r->Ok_0.tools@.len() == kinds@.len() && (forall|k: int|
                0 <= k < kinds@.len() ==> Some(#[trigger] r->Ok_0.tools@[k]@) == cfg.tool_named(
                    kinds@[k]@,
                )) && Some(r->Ok_0.platform@) == cfg.platform_named(platform@) && Some(
                r->Ok_0.language@,
            ) == cfg.language_named(language@)),
    {
        let ghost names = strings_view(kinds@);
        let mut tools: Vec<Tool> = Vec::new();
        let mut i: usize = 0;
        while i < kinds.len()
            invariant
                i <= kinds.len(),
                names == strings_view(kinds@),
                tools@.len() == i,
                forall|k: int| 0 <= k < i ==> Some(#[trigger] tools@[k]@) == cfg.tool_named(kinds@[k]@),
                forall|k: int| 0 <= k < i ==> (#[trigger] cfg.tool_named(names[k])) is Some,
            decreases kinds.len() - i,
        {
            assert(names[i as int] == kinds@[i as int]@);
            match cfg.find_tool(kinds[i].as_str()) {
                Some(t) => {
                    tools.push(t);
                },
                None => {
                    proof {
                        assert(first_unknown(*cfg, names, i as int));
                        assert forall|j: int| #[trigger] first_unknown(*cfg, names, j) implies j == i by {
                            if j < i {
                                assert(cfg.tool_named(names[j]) is Some);
                            } else if j > i {
                                assert(cfg.tool_named(names[i as int]) is Some);
                            }
                        }
                    }
                    return Err(UnknownEntity { category: Category::Tool, name: kinds[i].clone() });
                },
            }
            i = i + 1;
        }
        assert(forall|j: int| !#[trigger] first_unknown(*cfg, names, j));
        let platform = match cfg.find_platform(platform) {
            Some(p) => p,
            None => {
                return Err(UnknownEntity { category: Category::Platform, name: platform.to_owned() });
            },
        };
        let language = match cfg.find_language(language) {
            Some(l) => l,
            None => {
                return Err(UnknownEntity { category: Category::Language, name: language.to_owned() });
            },
        };
        Ok(Arguments { tools, platform, language })
    }
}

} // verus!
