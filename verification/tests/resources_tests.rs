use surrealmcp::resources::{
    instructions_meta, list_resources, read_resource, InstructionsResource, ResourceProvider,
    ResourceRegistry,
};

#[test]
fn test_instructions_resource() {
    let resource = InstructionsResource;
    assert_eq!(resource.uri(), "surrealmcp://instructions");
    assert_eq!(resource.name(), "SurrealMCP Instructions");
    assert_eq!(resource.mime_type(), "text/markdown");
    assert_eq!(
        resource.description(),
        "Full instructions and guidelines for the SurrealDB MCP server"
    );

    let meta = instructions_meta(&resource, 2048);
    assert_eq!(meta.uri, "surrealmcp://instructions");
    assert_eq!(meta.name, "SurrealMCP Instructions");
    assert_eq!(meta.title, Some("SurrealMCP Instructions".to_string()));
    assert_eq!(meta.mime_type, Some("text/markdown".to_string()));
    assert_eq!(meta.size, Some(2048));
}

#[test]
fn test_resource_registry() {
    let providers = ResourceRegistry::get_providers();
    assert!(!providers.is_empty());
    assert_eq!(providers[0].uri(), "surrealmcp://instructions");

    let found = ResourceRegistry::find_by_uri("surrealmcp://instructions");
    assert!(found.is_some());
    assert_eq!(found.unwrap().uri(), "surrealmcp://instructions");

    let not_found = ResourceRegistry::find_by_uri("surrealmcp://non-existent");
    assert!(not_found.is_none());
}

#[test]
fn test_list_resources() {
    let resources = list_resources(2048);
    assert!(!resources.is_empty());
    assert_eq!(resources[0].uri, "surrealmcp://instructions");
    assert_eq!(resources.len(), 1);
    assert_eq!(resources[0].size, Some(2048));
}

#[test]
fn test_read_resource() {
    let result = read_resource("surrealmcp://instructions", "# Instructions".to_string());
    assert!(result.is_some());
    let contents = result.unwrap().contents;
    assert_eq!(contents.len(), 1);
    assert_eq!(contents[0].uri, "surrealmcp://instructions");
    assert_eq!(contents[0].text, "# Instructions");
    assert_eq!(read_resource("surrealmcp://non-existent", "# Instructions".to_string()), None);
}

#[test]
fn listing_entry_is_complete() {
    let entry = InstructionsResource.meta(77);
    assert_eq!(entry, instructions_meta(&InstructionsResource, 77));
    let listed = list_resources(77);
    assert_eq!(listed, vec![instructions_meta(&InstructionsResource, 77)]);
    assert_eq!(listed[0].title, Some("SurrealMCP Instructions".to_string()));
    assert_eq!(listed[0].mime_type, Some("text/markdown".to_string()));
    assert_eq!(
        listed[0].description,
        Some("Full instructions and guidelines for the SurrealDB MCP server".to_string())
    );
}

#[test]
fn provider_reads_its_content_under_its_uri() {
    let read = InstructionsResource.read("text".to_string());
    assert_eq!(read.contents.len(), 1);
    assert_eq!(read.contents[0].uri, "surrealmcp://instructions");
    assert_eq!(read.contents[0].text, "text");
    assert_eq!(Some(read), read_resource("surrealmcp://instructions", "text".to_string()));
}
