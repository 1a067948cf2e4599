//! The registry of known tools, languages and platforms.
use vstd::prelude::*;

verus! {

/// The category of a registry entity.
#[derive(Debug, Clone, Copy, PartialEq, Eq)]
pub enum Category {
    Tool,
    Platform,
    Language,
}

/// A requested name that no entity of its category answers to.
#[derive(Debug, Clone)]
pub struct UnknownEntity {
    pub category: Category,
    pub name: String,
}

/// The mathematical value of an [`Element`]: its canonical name and its aliases.
pub struct ElementModel {
    pub name: Seq<char>,
    pub aliases: Seq<Seq<char>>,
}

/// The mathematical value of a [`Tool`].
pub struct ToolModel {
    pub element: ElementModel,
    pub filename: Seq<char>,
}

/// A named entity: a canonical name and the other names it answers to.
#[derive(Debug, Clone)]
pub struct Element {
    pub name: String,
    pub aliases: Vec<String>,
}

/// A tool: a named entity and the file that a template of it is written to.
#[derive(Debug, Clone)]
pub struct Tool {
    pub element: Element,
    pub filename: String,
}

/// The three ordered lists of entities that names are resolved against.
#[derive(Debug, Clone)]
pub struct Configuration {
    pub languages: Vec<Element>,
    pub platforms: Vec<Element>,
    pub tools: Vec<Tool>,
}

pub open spec fn strings_view(v: Seq<String>) -> Seq<Seq<char>> {
    v.map_values(|s: String| s@)
}

impl View for Element {
    type V = ElementModel;

    open spec fn view(&self) -> ElementModel {
        ElementModel { name: self.name@, aliases: strings_view(self.aliases@) }
    }
}

impl View for Tool {
    type V = ToolModel;

    open spec fn view(&self) -> ToolModel {
        ToolModel { element: self.element@, filename: self.filename@ }
    }
}

/// The name of the wildcard language and platform.
pub open spec fn any_name() -> Seq<char> {
    "any"@
}

/// The wildcard entity: named `any`, without aliases.
pub open spec fn sentinel() -> ElementModel {
    ElementModel { name: any_name(), aliases: Seq::empty() }
}

/// `e` answers to `n`, by its name or by one of its aliases.
pub open spec fn answers_to(e: ElementModel, n: Seq<char>) -> bool {
    e.name == n || e.aliases.contains(n)
}

/// The first of `es[i..]` that answers to `n`.
pub open spec fn find_from(es: Seq<ElementModel>, n: Seq<char>, i: int) -> Option<ElementModel>
    decreases es.len() - i,
{
    if i < 0 || i >= es.len() {
        None
    } else if answers_to(es[i], n) {
        Some(es[i])
    } else {
        find_from(es, n, i + 1)
    }
}

/// The first of `ts[i..]` that answers to `n`.
pub open spec fn find_tool_from(ts: Seq<ToolModel>, n: Seq<char>, i: int) -> Option<ToolModel>
    decreases ts.len() - i,
{
    if i < 0 || i >= ts.len() {
        None
    } else if answers_to(ts[i].element, n) {
        Some(ts[i])
    } else {
        find_tool_from(ts, n, i + 1)
    }
}

/// No name is answered to by two entities of `es`.
pub open spec fn unambiguous(es: Seq<ElementModel>) -> bool {
    forall|i: int, j: int, n: Seq<char>|
        0 <= i < j < es.len() && #[trigger] answers_to(es[i], n) ==> !#[trigger] answers_to(es[j], n)
}

pub open spec fn elements_view(v: Seq<Element>) -> Seq<ElementModel> {
    v.map_values(|e: Element| e@)
}

pub open spec fn tools_view(v: Seq<Tool>) -> Seq<ToolModel> {
    v.map_values(|t: Tool| t@)
}

pub open spec fn tool_elements(ts: Seq<ToolModel>) -> Seq<ElementModel> {
    ts.map_values(|t: ToolModel| t.element)
}

pub open spec fn option_element_view(o: Option<Element>) -> Option<ElementModel> {
    match o {
        Some(e) => Some(e@),
        None => None,
    }
}

pub open spec fn option_tool_view(o: Option<Tool>) -> Option<ToolModel> {
    match o {
        Some(t) => Some(t@),
        None => None,
    }
}

fn copy_strings(v: &Vec<String>) -> (r: Vec<String>)
    ensures
        strings_view(r@) == strings_view(v@),
{
    let mut r: Vec<String> = Vec::new();
    let mut i: usize = 0;
    while i < v.len()
        invariant
            i <= v.len(),
            r@.len() == i,
            forall|m: int| 0 <= m < i ==> r@[m]@ == v@[m]@,
        decreases v.len() - i,
    {
        r.push(v[i].clone());
        i = i + 1;
    }
    assert(strings_view(r@) =~= strings_view(v@));
    r
}

impl Element {
    /// Builds an entity from its name and its aliases.
    pub fn new(name: &str, aliases: Vec<String>) -> (r: Element)
        ensures
            r@ == (ElementModel { name: name@, aliases: strings_view(aliases@) }),
    {
        Element { name: name.to_owned(), aliases }
    }

    /// The wildcard entity `any`.
    pub fn any() -> (r: Element)
        ensures
            r@ == sentinel(),
    {
        proof {
            reveal_strlit("any");
        }
        let r = Element { name: "any".to_owned(), aliases: Vec::new() };
        assert(r@.aliases =~= Seq::<Seq<char>>::empty());
        assert(r@.name =~= any_name());
        r
    }

    /// A copy whose value is this entity's.
    pub fn duplicate(&self) -> (r: Element)
        ensures
            r@ == self@,
    {
        Element { name: self.name.clone(), aliases: copy_strings(&self.aliases) }
    }

    /// Whether this entity answers to `name`, by its name or by an alias.
    pub fn answers_to(&self, name: &String) -> (r: bool)
        ensures
            r == answers_to(self@, name@),
    {
        if self.name == *name {
            return true;
        }
        let mut k: usize = 0;
        while k < self.aliases.len()
            invariant
                k <= self.aliases.len(),
                forall|m: int| 0 <= m < k ==> self.aliases@[m]@ != name@,
            decreases self.aliases.len() - k,
        {
            if self.aliases[k] == *name {
                assert(strings_view(self.aliases@)[k as int] == name@);
                return true;
            }
            k = k + 1;
        }
        proof {
            if self@.aliases.contains(name@) {
                let m = choose|m: int| 0 <= m < self@.aliases.len() && self@.aliases[m] == name@;
                assert(self.aliases@[m]@ == name@);
            }
        }
        false
    }
}

impl Tool {
    /// A copy whose value is this tool's.
    pub fn duplicate(&self) -> (r: Tool)
        ensures
            r@ == self@,
    {
        Tool { element: self.element.duplicate(), filename: self.filename.clone() }
    }
}

/// The first entity of `es` that answers to `name`, copied.
fn find_element(es: &Vec<Element>, name: &String) -> (r: Option<Element>)
    ensures
        option_element_view(r) == find_from(elements_view(es@), name@, 0),
{
    let mut i: usize = 0;
    while i < es.len()
        invariant
            i <= es.len(),
            find_from(elements_view(es@), name@, 0) == find_from(elements_view(es@), name@, i as int),
        decreases es.len() - i,
    {
        if es[i].answers_to(name) {
            return Some(es[i].duplicate());
        }
        i = i + 1;
    }
    None
}

impl Configuration {
    /// What a lookup of tool `n` gives.
    pub open spec fn tool_named(&self, n: Seq<char>) -> Option<ToolModel> {
        find_tool_from(tools_view(self.tools@), n, 0)
    }

    /// What a lookup of language `n` gives: `any` is the wildcard.
    pub open spec fn language_named(&self, n: Seq<char>) -> Option<ElementModel> {
        if n == any_name() {
            Some(sentinel())
        } else {
            find_from(elements_view(self.languages@), n, 0)
        }
    }

    /// What a lookup of platform `n` gives: `any` is the wildcard.
    pub open spec fn platform_named(&self, n: Seq<char>) -> Option<ElementModel> {
        if n == any_name() {
            Some(sentinel())
        } else {
            find_from(elements_view(self.platforms@), n, 0)
        }
    }

    /// Every name resolves to at most one entity of its category, and no
    /// language or platform claims the wildcard's name.
    pub open spec fn wf(&self) -> bool {
        &&& unambiguous(elements_view(self.languages@))
        &&& unambiguous(elements_view(self.platforms@))
        &&& unambiguous(tool_elements(tools_view(self.tools@)))
        &&& forall|i: int|
            0 <= i < self.languages@.len() ==> !answers_to(#[trigger] self.languages@[i]@, any_name())
        &&& forall|i: int|
            0 <= i < self.platforms@.len() ==> !answers_to(#[trigger] self.platforms@[i]@, any_name())
    }

    /// The place of the configuration document under the application's data root.
    pub fn path(root: &str) -> (r: String)
        ensures
            r@ == root@ + seq!['/'] + config_file_name(),
    {
        proof {
            reveal_strlit("/config.yml");
        }
        let r = root.to_owned().concat("/config.yml");
        assert(r@ =~= root@ + seq!['/'] + config_file_name());
        r
    }

    /// The tool that answers to `name`: the first one, in order.
    pub fn find_tool(&self, name: &str) -> (r: Option<Tool>)
        ensures
            option_tool_view(r) == self.tool_named(name@),
    {
        find_tool_in(&self.tools, &name.to_owned())
    }

    /// The language that answers to `name`; `any` is always the wildcard.
    pub fn find_language(&self, name: &str) -> (r: Option<Element>)
        ensures
            option_element_view(r) == self.language_named(name@),
    {
        find_entity(&self.languages, name)
    }

    /// The platform that answers to `name`; `any` is always the wildcard.
    pub fn find_platform(&self, name: &str) -> (r: Option<Element>)
        ensures
            option_element_view(r) == self.platform_named(name@),
    {
        find_entity(&self.platforms, name)
    }
}

pub open spec fn config_file_name() -> Seq<char> {
    seq!['c', 'o', 'n', 'f', 'i', 'g', '.', 'y', 'm', 'l']
}

/// The first tool of `ts` that answers to `name`, copied.
fn find_tool_in(ts: &Vec<Tool>, name: &String) -> (r: Option<Tool>)
    ensures
        option_tool_view(r) == find_tool_from(tools_view(ts@), name@, 0),
{
    let mut i: usize = 0;
    while i < ts.len()
        invariant
            i <= ts.len(),
            find_tool_from(tools_view(ts@), name@, 0) == find_tool_from(tools_view(ts@), name@, i as int),
        decreases ts.len() - i,
    {
        if ts[i].element.answers_to(name) {
            assert(tools_view(ts@)[i as int] == ts@[i as int]@);
            return Some(ts[i].duplicate());
        }
        i = i + 1;
    }
    None
}

/// Resolution for languages and platforms: the wildcard, else the first match.
fn find_entity(es: &Vec<Element>, name: &str) -> (r: Option<Element>)
    ensures
        name@ == any_name() ==> option_element_view(r) == Some(sentinel()),
        name@ != any_name() ==> option_element_view(r) == find_from(elements_view(es@), name@, 0),
{
    let name = name.to_owned();
    let any = "any".to_owned();
    proof {
        reveal_strlit("any");
        assert(any@ =~= any_name());
    }
    if name == any {
        return Some(Element::any());
    }
    find_element(es, &name)
}

impl Default for Element {
    /// The wildcard entity `any`.
    fn default() -> (r: Element)
        ensures
            r@ == sentinel(),
    {
        Element::any()
    }
}

/// The languages of the built-in registry.
pub open spec fn default_languages() -> Seq<ElementModel> {
    seq![ElementModel { name: "rust"@, aliases: seq!["rs"@] }]
}

/// The platforms of the built-in registry.
pub open spec fn default_platforms() -> Seq<ElementModel> {
    seq![ElementModel { name: "x86"@, aliases: seq!["x86_64"@, "x64"@] }]
}

/// The tools of the built-in registry.
pub open spec fn default_tools() -> Seq<ToolModel> {
    seq![
        ToolModel {
            element: ElementModel { name: "docker"@, aliases: seq!["dockerfile"@] },
            filename: "Dockerfile"@,
        },
        ToolModel {
            element: ElementModel { name: "drone"@, aliases: seq!["drone.yml"@, ".drone.yml"@] },
            filename: ".drone.yml"@,
        },
    ]
}

impl Default for Configuration {
    /// The built-in registry, written out when none exists yet.
    fn default() -> (r: Configuration)
        ensures
            elements_view(r.languages@) == default_languages(),
            elements_view(r.platforms@) == default_platforms(),
            tools_view(r.tools@) == default_tools(),
            r.wf(),
    {
        let languages = vec![Element::new("rust", vec!["rs".to_owned()])];
        let platforms = vec![Element::new("x86", vec!["x86_64".to_owned(), "x64".to_owned()])];
        let docker = Tool {
            element: Element::new("docker", vec!["dockerfile".to_owned()]),
            filename: "Dockerfile".to_owned(),
        };
        let drone = Tool {
            element: Element::new("drone", vec!["drone.yml".to_owned(), ".drone.yml".to_owned()]),
            filename: ".drone.yml".to_owned(),
        };
        let tools = vec![docker, drone];
        let r = Configuration { languages, platforms, tools };
        assert(strings_view(r.languages@[0].aliases@) =~= seq!["rs"@]);
        assert(strings_view(r.platforms@[0].aliases@) =~= seq!["x86_64"@, "x64"@]);
        assert(strings_view(r.tools@[0].element.aliases@) =~= seq!["dockerfile"@]);
        assert(strings_view(r.tools@[1].element.aliases@) =~= seq!["drone.yml"@, ".drone.yml"@]);
        assert(elements_view(r.languages@) =~= default_languages());
        assert(elements_view(r.platforms@) =~= default_platforms());
        assert(tools_view(r.tools@) =~= default_tools());
        proof {
            lemma_default_wf(r);
        }
        r
    }
}

proof fn lemma_default_wf(r: Configuration)
    requires
        elements_view(r.languages@) == default_languages(),
        elements_view(r.platforms@) == default_platforms(),
        tools_view(r.tools@) == default_tools(),
    ensures
        r.wf(),
{
    reveal_strlit("any");
    reveal_strlit("rust");
    reveal_strlit("rs");
    reveal_strlit("x86");
    reveal_strlit("x86_64");
    reveal_strlit("x64");
    reveal_strlit("docker");
    reveal_strlit("dockerfile");
    reveal_strlit("drone");
    reveal_strlit("drone.yml");
    reveal_strlit(".drone.yml");
    assert(any_name().len() == 3 && "rust"@.len() == 4 && "rs"@.len() == 2);
    assert(any_name()[1] == 'n' && "x86"@[1] == '8' && "x86_64"@.len() == 6 && "x64"@[1] == '6');
    let ts = tool_elements(tools_view(r.tools@));
    assert(ts.len() == 2);
    assert(ts[0] == default_tools()[0].element);
    assert(ts[1] == default_tools()[1].element);
    assert forall|n: Seq<char>| answers_to(ts[0], n) implies !answers_to(ts[1], n) by {
        assert(ts[0].aliases =~= seq!["dockerfile"@]);
        assert(ts[1].aliases =~= seq!["drone.yml"@, ".drone.yml"@]);
        assert(n == "docker"@ || n == "dockerfile"@) by {
            if ts[0].aliases.contains(n) {
                let k = choose|k: int| 0 <= k < ts[0].aliases.len() && ts[0].aliases[k] == n;
                assert(k == 0);
            }
        }
        if answers_to(ts[1], n) {
            assert(n == "drone"@ || n == "drone.yml"@ || n == ".drone.yml"@) by {
                if ts[1].aliases.contains(n) {
                    let k = choose|k: int| 0 <= k < ts[1].aliases.len() && ts[1].aliases[k] == n;
                    assert(k == 0 || k == 1);
                }
            }
            assert(n[0] == 'd');
            assert(n.len() == 10 ==> n[0] == '.');
        }
    }
    assert forall|i: int| 0 <= i < r.languages@.len() implies !answers_to(
        #[trigger] r.languages@[i]@,
        any_name(),
    ) by {
        assert(elements_view(r.languages@)[i] == r.languages@[i]@);
        let e = r.languages@[i]@;
        assert(elements_view(r.languages@).len() == 1);
        assert(i == 0);
        assert(e == default_languages()[0]);
        assert(e.aliases =~= seq!["rs"@]);
        if e.aliases.contains(any_name()) {
            let k = choose|k: int| 0 <= k < e.aliases.len() && e.aliases[k] == any_name();
            assert(k == 0);
        }
    }
    assert forall|i: int| 0 <= i < r.platforms@.len() implies !answers_to(
        #[trigger] r.platforms@[i]@,
        any_name(),
    ) by {
        assert(elements_view(r.platforms@)[i] == r.platforms@[i]@);
        let e = r.platforms@[i]@;
        assert(elements_view(r.platforms@).len() == 1);
        assert(i == 0);
        assert(e == default_platforms()[0]);
        assert(e.aliases =~= seq!["x86_64"@, "x64"@]);
        if e.aliases.contains(any_name()) {
            let k = choose|k: int| 0 <= k < e.aliases.len() && e.aliases[k] == any_name();
            assert(k == 0 || k == 1);
            assert(e.aliases[k][1] != 'n');
        }
    }
}

proof fn lemma_find_from(es: Seq<ElementModel>, i: int, n: Seq<char>, k: int)
    requires
        unambiguous(es),
        0 <= k <= i < es.len(),
        answers_to(es[i], n),
    ensures
        find_from(es, n, k) == Some(es[i]),
    decreases i - k,
{
    if k < i {
        assert(!answers_to(es[k], n)) by {
            if answers_to(es[k], n) {
                assert(!answers_to(es[i], n));
            }
        }
        lemma_find_from(es, i, n, k + 1);
    }
}

/// In an unambiguous list, the entity at `i` is what a lookup of any name it
/// answers to finds.
pub proof fn lemma_found_by_any_of_its_names(es: Seq<ElementModel>, i: int, n: Seq<char>)
    requires
        unambiguous(es),
        0 <= i < es.len(),
        answers_to(es[i], n),
    ensures
        find_from(es, n, 0) == Some(es[i]),
{
    lemma_find_from(es, i, n, 0);
}

proof fn lemma_find_tool_from(ts: Seq<ToolModel>, i: int, n: Seq<char>, k: int)
    requires
        unambiguous(tool_elements(ts)),
        0 <= k <= i < ts.len(),
        answers_to(ts[i].element, n),
    ensures
        find_tool_from(ts, n, k) == Some(ts[i]),
    decreases i - k,
{
    if k < i {
        assert(!answers_to(ts[k].element, n)) by {
            let es = tool_elements(ts);
            assert(es[k] == ts[k].element && es[i] == ts[i].element);
            if answers_to(es[k], n) {
                assert(!answers_to(es[i], n));
            }
        }
        lemma_find_tool_from(ts, i, n, k + 1);
    }
}

/// A language of a well-formed registry is found by its name and by each of
/// its aliases alike.
pub proof fn lemma_language_name_and_alias(cfg: &Configuration, i: int, alias: Seq<char>)
    requires
        cfg.wf(),
        0 <= i < cfg.languages@.len(),
        cfg.languages@[i]@.aliases.contains(alias),
    ensures
        cfg.language_named(cfg.languages@[i]@.name) == Some(cfg.languages@[i]@),
        cfg.language_named(alias) == Some(cfg.languages@[i]@),
{
    let es = elements_view(cfg.languages@);
    assert(es[i] == cfg.languages@[i]@);
    assert(!answers_to(cfg.languages@[i]@, any_name()));
    lemma_found_by_any_of_its_names(es, i, cfg.languages@[i]@.name);
    lemma_found_by_any_of_its_names(es, i, alias);
}

/// A platform of a well-formed registry is found by its name and by each of
/// its aliases alike.
pub proof fn lemma_platform_name_and_alias(cfg: &Configuration, i: int, alias: Seq<char>)
    requires
        cfg.wf(),
        0 <= i < cfg.platforms@.len(),
        cfg.platforms@[i]@.aliases.contains(alias),
    ensures
        cfg.platform_named(cfg.platforms@[i]@.name) == Some(cfg.platforms@[i]@),
        cfg.platform_named(alias) == Some(cfg.platforms@[i]@),
{
    let es = elements_view(cfg.platforms@);
    assert(es[i] == cfg.platforms@[i]@);
    assert(!answers_to(cfg.platforms@[i]@, any_name()));
    lemma_found_by_any_of_its_names(es, i, cfg.platforms@[i]@.name);
    lemma_found_by_any_of_its_names(es, i, alias);
}

/// A tool of a well-formed registry is found by its name and by each of its
/// aliases alike.
pub proof fn lemma_tool_name_and_alias(cfg: &Configuration, i: int, alias: Seq<char>)
    requires
        cfg.wf(),
        0 <= i < cfg.tools@.len(),
        cfg.tools@[i]@.element.aliases.contains(alias),
    ensures
        cfg.tool_named(cfg.tools@[i]@.element.name) == Some(cfg.tools@[i]@),
        cfg.tool_named(alias) == Some(cfg.tools@[i]@),
{
    let ts = tools_view(cfg.tools@);
    assert(ts[i] == cfg.tools@[i]@);
    lemma_find_tool_from(ts, i, cfg.tools@[i]@.element.name, 0);
    lemma_find_tool_from(ts, i, alias, 0);
}

/// Whatever the registry holds, `any` names the wildcard language and platform.
pub proof fn lemma_any_is_the_wildcard(cfg: &Configuration)
    ensures
        cfg.language_named(any_name()) == Some(sentinel()),
        cfg.platform_named(any_name()) == Some(sentinel()),
{
}

} // verus!
