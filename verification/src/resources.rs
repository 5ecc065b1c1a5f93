//! The resources that the server offers to clients, and their registry.

use vstd::prelude::*;

verus! {

/// What every resource says of itself.
pub trait ResourceProvider {
    /// The URI under which the resource is read.
    fn uri(&self) -> &'static str;

    /// The name shown to people.
    fn name(&self) -> &'static str;

    /// What the resource is for.
    fn description(&self) -> &'static str;

    /// The MIME type of the content.
    fn mime_type(&self) -> &'static str;

    /// The listing entry of the resource, for content of `size` bytes.
    fn meta(&self, size: u32) -> ResourceMeta;

    /// What reading the resource gives, for the text `content`.
    fn read(&self, content: String) -> ReadResult;
}

/// The server's instructions and guidelines.
#[derive(Clone, Copy, Debug, PartialEq, Eq, Structural)]
pub struct InstructionsResource;

/// The URI of the instructions.
pub open spec fn instructions_uri() -> Seq<char> {
    "surrealmcp://instructions"@
}

impl ResourceProvider for InstructionsResource {
    fn uri(&self) -> (r: &'static str)
        ensures
            r@ == instructions_uri(),
    {
        "surrealmcp://instructions"
    }

    fn name(&self) -> (r: &'static str)
        ensures
            r@ == "SurrealMCP Instructions"@,
    {
        "SurrealMCP Instructions"
    }

    fn description(&self) -> (r: &'static str)
        ensures
            r@ == "Full instructions and guidelines for the SurrealDB MCP server"@,
    {
        "Full instructions and guidelines for the SurrealDB MCP server"
    }

    fn mime_type(&self) -> (r: &'static str)
        ensures
            r@ == "text/markdown"@,
    {
        "text/markdown"
    }

    fn meta(&self, size: u32) -> (m: ResourceMeta)
        ensures
            is_instructions_entry(m, size),
    {
        instructions_meta(self, size)
    }

    fn read(&self, content: String) -> (r: ReadResult)
        ensures
            r.contents@.len() == 1,
            r.contents@[0].uri@ == instructions_uri(),
            r.contents@[0].text == content,
    {
        let mut contents: Vec<TextContents> = Vec::with_capacity(1);
        contents.push(TextContents { uri: String::from_str(self.uri()), text: content });
        ReadResult { contents }
    }
}

/// What a listing says of a resource.
#[derive(Debug, PartialEq, Eq)]
pub struct ResourceMeta {
    pub uri: String,
    pub name: String,
    pub title: Option<String>,
    pub mime_type: Option<String>,
    pub description: Option<String>,
    /// The length of the content in bytes.
    pub size: Option<u32>,
}

/// Whether `m` is the listing entry of the instructions for content of
/// `size` bytes: their URI, their name as name and as title, their MIME
/// type, their description, and the size.
pub open spec fn is_instructions_entry(m: ResourceMeta, size: u32) -> bool {
    &&& m.uri@ == instructions_uri()
    &&& m.name@ == "SurrealMCP Instructions"@
    &&& m.title matches Some(t) && t@ == "SurrealMCP Instructions"@
    &&& m.mime_type matches Some(t) && t@ == "text/markdown"@
    &&& m.description matches Some(t) && t@
        == "Full instructions and guidelines for the SurrealDB MCP server"@
    &&& m.size == Some(size)
}

/// The listing entry of the instructions, for content of `size` bytes.
pub fn instructions_meta(resource: &InstructionsResource, size: u32) -> (m: ResourceMeta)
    ensures
        is_instructions_entry(m, size),
{
    ResourceMeta {
        uri: String::from_str(resource.uri()),
        name: String::from_str(resource.name()),
        title: Some(String::from_str(resource.name())),
        mime_type: Some(String::from_str(resource.mime_type())),
        description: Some(String::from_str(resource.description())),
        size: Some(size),
    }
}

/// Registry of all available resources.
#[derive(Clone, Copy, Debug, PartialEq, Eq, Structural)]
pub struct ResourceRegistry;

impl ResourceRegistry {
    /// All resources on offer: the instructions, and nothing else.
    pub fn get_providers() -> (r: Vec<InstructionsResource>)
        ensures
            r@ == seq![InstructionsResource],
    {
        let mut providers: Vec<InstructionsResource> = Vec::with_capacity(1);
        providers.push(InstructionsResource);
        assert(providers@ =~= seq![InstructionsResource]);
        providers
    }

    /// The resource that is read under `uri`, where there is one.
    pub fn find_by_uri(uri: &str) -> (r: Option<InstructionsResource>)
        ensures
            r is Some <==> uri@ == instructions_uri(),
    {
        let wanted = String::from_str(uri);
        let providers = Self::get_providers();
        let mut i: usize = 0;
        while i < providers.len()
            invariant
                i <= providers.len(),
                providers@ == seq![InstructionsResource],
                wanted@ == uri@,
                i > 0 ==> uri@ != instructions_uri(),
            decreases providers.len() - i,
        {
            let candidate = String::from_str(providers[i].uri());
            if candidate == wanted {
                return Some(providers[i]);
            }
            i += 1;
        }
        None
    }
}

/// The content of a resource as it is handed to a reader.
#[derive(Debug, PartialEq, Eq)]
pub struct TextContents {
    pub uri: String,
    pub text: String,
}

/// What reading a resource gives.
#[derive(Debug, PartialEq, Eq)]
pub struct ReadResult {
    pub contents: Vec<TextContents>,
}

/// Lists all available resources: the instructions alone, whose content
/// has `instructions_size` bytes.
pub fn list_resources(instructions_size: u32) -> (r: Vec<ResourceMeta>)
    ensures
        r@.len() == 1,
        is_instructions_entry(r@[0], instructions_size),
{
    let providers = ResourceRegistry::get_providers();
    let mut listing: Vec<ResourceMeta> = Vec::with_capacity(providers.len());
    let mut i: usize = 0;
    while i < providers.len()
        invariant
            i <= providers.len(),
            listing.len() == i,
            forall|k: int|
                0 <= k < i ==> is_instructions_entry(#[trigger] listing@[k], instructions_size),
        decreases providers.len() - i,
    {
        listing.push(providers[i].meta(instructions_size));
        i += 1;
    }
    listing
}

/// Reads the resource under `uri`: the instructions, whose text is
/// `instructions`, where `uri` is theirs, and nothing under any other.
pub fn read_resource(uri: &str, instructions: String) -> (r: Option<ReadResult>)
    ensures
        r is Some <==> uri@ == instructions_uri(),
        r matches Some(read) ==> read.contents@.len() == 1 && read.contents@[0].uri@ == uri@
            && read.contents@[0].text == instructions,
{
    match ResourceRegistry::find_by_uri(uri) {
        Some(provider) => Some(provider.read(instructions)),
        None => None,
    }
}

} // verus!
