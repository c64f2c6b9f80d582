//! MSBuild project files.

use synapse::indexer::dotnet::parse_csproj;

#[test]
fn parses_self_closing_references() {
    let xml = r#"
        <Project Sdk="Microsoft.NET.Sdk">
          <ItemGroup>
            <ProjectReference Include="..\Core\Core.csproj" />
            <PackageReference Include="Serilog" Version="3.1.1" />
            <PackageReference Include="Newtonsoft.Json" />
          </ItemGroup>
        </Project>
    "#;
    let d = parse_csproj(xml).unwrap();
    assert_eq!(
        d.project_references,
        vec![r"..\Core\Core.csproj".to_string()]
    );
    assert_eq!(d.package_references.len(), 2);
    assert_eq!(d.package_references[0].name, "Serilog");
    assert_eq!(d.package_references[0].version.as_deref(), Some("3.1.1"));
    assert_eq!(d.package_references[1].name, "Newtonsoft.Json");
    assert_eq!(d.package_references[1].version, None);
}

#[test]
fn parses_child_version_element() {
    let xml = r#"
        <Project>
          <ItemGroup>
            <PackageReference Include="Serilog">
              <Version>2.10.0</Version>
            </PackageReference>
          </ItemGroup>
        </Project>
    "#;
    let d = parse_csproj(xml).unwrap();
    assert_eq!(d.package_references.len(), 1);
    assert_eq!(d.package_references[0].name, "Serilog");
    assert_eq!(d.package_references[0].version.as_deref(), Some("2.10.0"));
}

#[test]
fn child_version_overrides_missing_attribute() {
    let xml = r#"
        <Project>
          <ProjectReference Include="a.csproj"></ProjectReference>
          <PackageReference Include="Foo" Version="1.0.0">
            <Version>2.0.0</Version>
          </PackageReference>
        </Project>
    "#;
    let d = parse_csproj(xml).unwrap();
    assert_eq!(d.project_references, vec!["a.csproj".to_string()]);
    assert_eq!(d.package_references[0].version.as_deref(), Some("2.0.0"));
}

#[test]
fn empty_input_is_ok() {
    let d = parse_csproj("").unwrap();
    assert!(d.project_references.is_empty());
    assert!(d.package_references.is_empty());
}
