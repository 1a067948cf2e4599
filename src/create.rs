//! Resolution of the names given to the `create` command.
use vstd::prelude::*;

use crate::config::{Category, Configuration, Element, Tool, UnknownEntity};

verus! {

/// A resolved request to store a template body.
#[derive(Debug, Clone)]
pub struct Arguments {
    pub tool: Tool,
    pub platform: Element,
    pub language: Element,
    pub data: String,
}

impl Arguments {
    /// Resolves the tool, platform and language names against `cfg`, in that
    /// order; the first that resolves to nothing is the error.
    pub fn resolve(cfg: &Configuration, tool: &str, platform: &str, language: &str, data: String) -> (r:
        Result<Arguments, UnknownEntity>)
        ensures
            cfg.tool_named(tool@) is None ==> (r is Err && r->Err_0.category == Category::Tool
                && r->Err_0.name@ == tool@),
            cfg.tool_named(tool@) is Some && cfg.platform_named(platform@) is None ==> (r is Err
                && r->Err_0.category == Category::Platform && r->Err_0.name@ == platform@),
            cfg.tool_named(tool@) is Some && cfg.platform_named(platform@) is Some
                && cfg.language_named(language@) is None ==> (r is Err && r->Err_0.category
                == Category::Language && r->Err_0.name@ == language@),
            r is Ok <==> (cfg.tool_named(tool@) is Some && cfg.platform_named(platform@) is Some
                && cfg.language_named(language@) is Some),
            r is Ok ==> (Some(r->Ok_0.tool@) == cfg.tool_named(tool@) && Some(r->Ok_0.platform@)
                == cfg.platform_named(platform@) && Some(r->Ok_0.language@) == cfg.language_named(
                language@,
            ) && r->Ok_0.data@ == data@),
    {
        let found_tool = cfg.find_tool(tool);
        let tool = match found_tool {
            Some(t) => t,
            None => {
                return Err(UnknownEntity { category: Category::Tool, name: tool.to_owned() });
            },
        };
        let found_platform = cfg.find_platform(platform);
        let platform = match found_platform {
            Some(p) => p,
            None => {
                return Err(UnknownEntity { category: Category::Platform, name: platform.to_owned() });
            },
        };
        let found_language = cfg.find_language(language);
        let language = match found_language {
            Some(l) => l,
            None => {
                return Err(UnknownEntity { category: Category::Language, name: language.to_owned() });
            },
        };
        Ok(Arguments { tool, platform, language, data })
    }
}

} // verus!
