//! The registry of tools, with their definitions and schema checks.

use vstd::prelude::*;

use crate::engine::error::{ErrorView, ExecutionError};
use crate::engine::tool::{Tool, ToolDefinition};
use crate::json::{to_value, Json, JsonView};
use crate::protocol::model::{descriptors_view, DescriptorView, ToolDescriptor};
use crate::text::{
    lemma_text_less_irreflexive, lemma_text_less_transitive, sorted_unique, text_less, texts,
};
use crate::text_map::TextMap;

verus! {

/// Whether `jsonschema` compiles a schema.
pub uninterp spec fn schema_compiles(schema: JsonView) -> bool;

/// The first violation that `jsonschema` reports for a value under a schema
/// that compiles, as a sentence; `None` where the value satisfies the schema.
pub uninterp spec fn schema_violation(schema: JsonView, value: JsonView) -> Option<Seq<char>>;

/// `jsonschema::validator_for` compiles a schema, or fails with an error, whose
/// sentence is returned. Whether it fails depends on the schema alone, since no
/// resolver for outside references is built in, and is named
/// [`schema_compiles`]. The wording is left out: of several references that
/// cannot be resolved, any may be the one that the sentence tells of.
#[verifier::external_body]
pub(crate) fn schema_refusal(schema: &Json) -> (error: Option<String>)
    ensures
        error is None <==> schema_compiles(schema@),
{
    jsonschema::validator_for(&to_value(schema)).err().map(|error| error.to_string())
}

/// `jsonschema::validate` compiles a schema, which panics where the schema is
/// invalid, and reports the first violation of it. The sentence depends on the
/// schema and the value alone and is named [`schema_violation`].
#[verifier::external_body]
pub(crate) fn first_violation(schema: &Json, value: &Json) -> (violation: Option<String>)
    requires
        schema_compiles(schema@),
    ensures
        match violation {
            Some(sentence) => schema_violation(schema@, value@) == Some(sentence@),
            None => schema_violation(schema@, value@) is None,
        },
{
    jsonschema::validate(&to_value(schema), &to_value(value)).err().map(|error| error.to_string())
}

/// Turns the answer of the schema check into the answer to the caller.
pub fn validation_outcome(tool: &str, violation: Option<String>) -> (outcome: Result<
    (),
    ExecutionError,
>)
    ensures
        match (outcome, violation) {
            (Ok(_), None) => true,
            (Err(error), Some(sentence)) => error@ == (ErrorView::ToolValidation {
                tool: tool@,
                message: sentence@,
            }),
            _ => false,
        },
{
    match violation {
        None => Ok(()),
        Some(message) => Err(ExecutionError::ToolValidation { tool: tool.to_owned(), message }),
    }
}

/// A tool with its cached definition. Whether its input schema compiles is
/// found out once; an invalid schema disables the check.
pub struct RegisteredTool<T> {
    implementation: T,
    definition: ToolDefinition,
    checked: bool,
}

/// What is registered under a name.
#[verifier::ext_equal]
pub struct RegisteredView<T> {
    pub implementation: T,
    pub definition: DescriptorView,
}

impl<T> View for RegisteredTool<T> {
    type V = RegisteredView<T>;

    closed spec fn view(&self) -> RegisteredView<T> {
        RegisteredView { implementation: self.implementation, definition: self.definition@ }
    }
}

/// What the schema check of a tool says of some arguments.
pub open spec fn argument_violation(
    definition: DescriptorView,
    arguments: JsonView,
) -> Option<Seq<char>> {
    if schema_compiles(definition.input_schema) {
        schema_violation(definition.input_schema, arguments)
    } else {
        None
    }
}

impl<T> RegisteredTool<T> {
    #[verifier::type_invariant]
    spec fn well_formed(self) -> bool {
        self.checked == schema_compiles(self.definition.input_schema@)
    }

    fn new(implementation: T, definition: ToolDefinition) -> (tool: Self)
        ensures
            tool@.implementation == implementation,
            tool@.definition == definition@,
    {
        let checked = schema_refusal(&definition.input_schema).is_none();
        RegisteredTool { implementation, definition, checked }
    }

    pub fn implementation(&self) -> (implementation: &T)
        ensures
            *implementation == self@.implementation,
    {
        &self.implementation
    }

    pub fn definition(&self) -> (definition: &ToolDefinition)
        ensures
            definition@ == self@.definition,
    {
        &self.definition
    }

    /// Checks the arguments against the declared input schema. A schema that
    /// does not compile disables the check.
    pub fn validate_arguments(&self, arguments: &Json) -> (outcome: Result<(), ExecutionError>)
        ensures
            match outcome {
                Ok(_) => argument_violation(self@.definition, arguments@) is None,
                Err(error) => argument_violation(self@.definition, arguments@) matches Some(
                    sentence,
                ) && error@ == (ErrorView::ToolValidation {
                    tool: self@.definition.name,
                    message: sentence,
                }),
            },
    {
        proof {
            use_type_invariant(self);
        }
        let violation = if self.checked {
            first_violation(&self.definition.input_schema, arguments)
        } else {
            None
        };
        validation_outcome(self.definition.name.as_str(), violation)
    }
}

/// The tools by name.
pub struct ToolRegistry<T> {
    tools: TextMap<RegisteredTool<T>>,
}

impl<T> View for ToolRegistry<T> {
    type V = Map<Seq<char>, RegisteredView<T>>;

    closed spec fn view(&self) -> Map<Seq<char>, RegisteredView<T>> {
        Map::new(|name: Seq<char>| self.tools@.contains_key(name), |name: Seq<char>| self.tools@[name]@)
    }
}

/// Whether every tool stands under its own name.
pub open spec fn named_by_definition<T>(tools: Map<Seq<char>, RegisteredView<T>>) -> bool {
    forall|name: Seq<char>| #[trigger]
        tools.contains_key(name) ==> tools[name].definition.name == name
}

/// Whether `list` describes exactly the tools, in the order of their names.
pub open spec fn describes<T>(
    list: Seq<DescriptorView>,
    tools: Map<Seq<char>, RegisteredView<T>>,
) -> bool {
    &&& forall|i: int, j: int|
        0 <= i < j < list.len() ==> text_less((#[trigger] list[i]).name, (#[trigger] list[j]).name)
    &&& forall|i: int|
        0 <= i < list.len() ==> tools.contains_key((#[trigger] list[i]).name)
            && tools[list[i].name].definition == list[i]
    &&& forall|name: Seq<char>| #[trigger]
        tools.contains_key(name) ==> exists|i: int|
            0 <= i < list.len() && (#[trigger] list[i]).name == name
}

impl<T> ToolRegistry<T> {
    #[verifier::type_invariant]
    spec fn well_formed(self) -> bool {
        named_by_definition(self@)
    }

    /// A registry without tools.
    pub fn new() -> (registry: Self)
        ensures
            registry@ == Map::<Seq<char>, RegisteredView<T>>::empty(),
    {
        let registry = ToolRegistry { tools: TextMap::new() };
        assert(registry@ =~= Map::<Seq<char>, RegisteredView<T>>::empty());
        registry
    }

    /// Registers `tool` under the name of `definition`; a tool that had the name
    /// is replaced.
    pub fn register_defined(&mut self, tool: T, definition: ToolDefinition)
        ensures
            final(self)@ == old(self)@.insert(
                definition@.name,
                (RegisteredView { implementation: tool, definition: definition@ }),
            ),
    {
        proof {
            use_type_invariant(&*self);
        }
        let name = definition.name.clone();
        let entry = RegisteredTool::new(tool, definition);
        let mut tools: TextMap<RegisteredTool<T>> = TextMap::new();
        std::mem::swap(&mut tools, &mut self.tools);
        tools.insert(name, entry);
        proof {
            let after = ToolRegistry { tools };
            assert(after@ =~= old(self)@.insert(
                definition@.name,
                RegisteredView { implementation: tool, definition: definition@ },
            ));
        }
        self.tools = tools;
    }

    /// Registers `tool` under the name it declares.
    pub fn register(&mut self, tool: T) where T: Tool
        ensures
            exists|definition: ToolDefinition| #[trigger]
                call_ensures(T::definition, (&tool,), definition) && final(self)@ == old(
                    self,
                )@.insert(
                    definition@.name,
                    (RegisteredView { implementation: tool, definition: definition@ }),
                ),
    {
        let definition = tool.definition();
        self.register_defined(tool, definition);
    }

    /// The tool named `name`.
    pub fn resolve(&self, name: &str) -> (tool: Result<&RegisteredTool<T>, ExecutionError>)
        ensures
            match tool {
                Ok(tool) => self@.contains_pair(name@, tool@),
                Err(error) => !self@.contains_key(name@) && error@ == ErrorView::ToolNotFound(
                    name@,
                ),
            },
    {
        match self.tools.get(name) {
            Some(tool) => Ok(tool),
            None => Err(ExecutionError::ToolNotFound(name.to_owned())),
        }
    }

    /// The implementation of the tool named `name`.
    pub fn get(&self, name: &str) -> (tool: Result<&T, ExecutionError>)
        ensures
            match tool {
                Ok(tool) => self@.contains_key(name@) && self@[name@].implementation == *tool,
                Err(error) => !self@.contains_key(name@) && error@ == ErrorView::ToolNotFound(
                    name@,
                ),
            },
    {
        match self.resolve(name) {
            Ok(tool) => Ok(tool.implementation()),
            Err(error) => Err(error),
        }
    }

    /// The definition of the tool named `name`.
    pub fn definition(&self, name: &str) -> (definition: Result<&ToolDefinition, ExecutionError>)
        ensures
            match definition {
                Ok(definition) => self@.contains_key(name@) && self@[name@].definition
                    == definition@ && definition@.name == name@,
                Err(error) => !self@.contains_key(name@) && error@ == ErrorView::ToolNotFound(
                    name@,
                ),
            },
    {
        proof {
            use_type_invariant(self);
        }
        match self.resolve(name) {
            Ok(tool) => Ok(tool.definition()),
            Err(error) => Err(error),
        }
    }

    /// What the tools declare, in the order of their names.
    pub fn list(&self) -> (list: Vec<ToolDescriptor>)
        ensures
            describes(descriptors_view(list@), self@),
    {
        proof {
            use_type_invariant(self);
        }
        let keys = self.tools.keys();
        let names = sorted_unique(&keys);
        let ghost all = texts(names@);
        proof {
            assert forall|name: Seq<char>| #[trigger]
                self@.contains_key(name) <==> all.contains(name) by {
                assert(self.tools@.contains_key(name) <==> texts(keys@).contains(name));
            }
        }
        let mut list: Vec<ToolDescriptor> = Vec::new();
        let mut i: usize = 0;
        while i < names.len()
            invariant
                i <= names@.len(),
                list@.len() == i,
                all == texts(names@),
                named_by_definition(self@),
                forall|name: Seq<char>| #[trigger]
                    self@.contains_key(name) <==> all.contains(name),
                forall|j: int|
                    0 <= j < i ==> (#[trigger] list@[j])@.name == all[j] && list@[j]@
                        == self@[all[j]].definition,
            decreases names.len() - i,
        {
            assert(all[i as int] == names@[i as int]@);
            assert(all.contains(all[i as int]));
            assert(self@.contains_key(all[i as int]));
            if let Some(tool) = self.tools.get(names[i].as_str()) {
                list.push(tool.definition().descriptor());
            }
            i += 1;
        }
        proof {
            let described = descriptors_view(list@);
            assert(forall|j: int|
                0 <= j < described.len() ==> (#[trigger] described[j]).name == all[j]);
            assert forall|name: Seq<char>| #[trigger] self@.contains_key(name) implies exists|
                j: int,
            |
                0 <= j < described.len() && (#[trigger] described[j]).name == name by {
                let j = choose|j: int| 0 <= j < all.len() && all[j] == name;
                assert(described[j].name == name);
            }
            assert forall|j: int| 0 <= j < described.len() implies self@.contains_key(
                (#[trigger] described[j]).name,
            ) by {
                assert(all.contains(all[j]));
            }
        }
        list
    }
}

/// A tool that was registered is found under its name, and every other tool is
/// found as before.
pub proof fn law_registered_tool_is_found<T>(
    tools: Map<Seq<char>, RegisteredView<T>>,
    tool: RegisteredView<T>,
    other: Seq<char>,
)
    ensures
        ({
            let after = tools.insert(tool.definition.name, tool);
            &&& after.contains_pair(tool.definition.name, tool)
            &&& other != tool.definition.name ==> (after.contains_key(other)
                <==> tools.contains_key(other))
            &&& other != tool.definition.name && tools.contains_key(other) ==> after[other]
                == tools[other]
        }),
{
}

/// Discovery does not depend on the order of registration: two registries with
/// the same tools are listed alike.
pub proof fn law_listing_is_determined_by_the_tools<T>(
    tools: Map<Seq<char>, RegisteredView<T>>,
    a: Seq<DescriptorView>,
    b: Seq<DescriptorView>,
)
    requires
        describes(a, tools),
        describes(b, tools),
    ensures
        a == b,
{
    assert(a.take(0) =~= b.take(0));
    lemma_same_names(tools, a, b, 0);
    assert(a =~= b);
}

/// From position `n` on, two listings that agree before it are the same.
proof fn lemma_same_names<T>(
    tools: Map<Seq<char>, RegisteredView<T>>,
    a: Seq<DescriptorView>,
    b: Seq<DescriptorView>,
    n: int,
)
    requires
        describes(a, tools),
        describes(b, tools),
        0 <= n <= a.len(),
        n <= b.len(),
        a.take(n) == b.take(n),
    ensures
        a == b,
    decreases a.len() - n,
{
    if n == a.len() {
        if n < b.len() {
            assert(tools.contains_key(b[n].name));
            let j = choose|j: int| 0 <= j < a.len() && (#[trigger] a[j]).name == b[n].name;
            assert(a.take(n)[j] == b.take(n)[j]);
            assert(text_less(b[j].name, b[n].name));
            lemma_text_less_irreflexive(b[n].name);
        }
        assert(a.take(n) =~= a);
        assert(b.take(n) =~= b);
    } else {
        assert(tools.contains_key(a[n].name));
        let j = choose|j: int| 0 <= j < b.len() && (#[trigger] b[j]).name == a[n].name;
        if j < n {
            assert(a.take(n)[j] == a[j] && b.take(n)[j] == b[j]);
            assert(text_less(a[j].name, a[n].name));
            lemma_text_less_irreflexive(a[n].name);
        }
        assert(tools.contains_key(b[n].name));
        let k = choose|k: int| 0 <= k < a.len() && (#[trigger] a[k]).name == b[n].name;
        if k < n {
            assert(a.take(n)[k] == a[k] && b.take(n)[k] == b[k]);
            assert(text_less(b[k].name, b[n].name));
            lemma_text_less_irreflexive(b[n].name);
        }
        if j > n && k > n {
            assert(text_less(b[n].name, b[j].name));
            assert(text_less(a[n].name, a[k].name));
            lemma_text_less_transitive(a[n].name, b[n].name, a[n].name);
            lemma_text_less_irreflexive(a[n].name);
        }
        assert(a[n].name == b[n].name);
        assert(a[n] == b[n]);
        assert(a.take(n + 1) =~= a.take(n).push(a[n]));
        assert(b.take(n + 1) =~= b.take(n).push(b[n]));
        lemma_same_names(tools, a, b, n + 1);
    }
}

/// Arguments are held to the schema that the tool declares, wherever that schema
/// compiles; one that does not holds them to nothing.
pub proof fn law_arguments_are_held_to_the_schema(definition: DescriptorView, arguments: JsonView)
    ensures
        schema_compiles(definition.input_schema) ==> argument_violation(definition, arguments)
            == schema_violation(definition.input_schema, arguments),
        !schema_compiles(definition.input_schema) ==> argument_violation(definition, arguments)
            is None,
{
}

/// A listing holds the definition of every registered tool, and of no other.
pub proof fn law_listings_hold_every_definition<T>(
    list: Seq<DescriptorView>,
    tools: Map<Seq<char>, RegisteredView<T>>,
    name: Seq<char>,
    i: int,
)
    requires
        describes(list, tools),
    ensures
        tools.contains_key(name) ==> list.contains(tools[name].definition),
        0 <= i < list.len() ==> tools.contains_key(list[i].name) && tools[list[i].name].definition
            == list[i],
{
    if tools.contains_key(name) {
        let k = choose|k: int| 0 <= k < list.len() && (#[trigger] list[k]).name == name;
        assert(list[k] == tools[name].definition);
    }
}

} // verus!
