use dotnet_lens::parser::{parse, ParseError};
use dotnet_lens::{PackageReference, Project, ProjectLanguage, ProjectReference};

#[test]
fn parse_valid_csproj() {
    // given
    let content = r#"
<Project Sdk="Microsoft.NET.Sdk">

  <PropertyGroup>
    <OutputType>Exe</OutputType>
    <TargetFramework>net8.0</TargetFramework>
    <ImplicitUsings>enable</ImplicitUsings>
  </PropertyGroup>

  <PropertyGroup>
    <Nullable>enable</Nullable>
  </PropertyGroup>

  <ItemGroup>
    <PackageReference Include="Microsoft.Extensions.Configuration" Version="8.0.0" />
  </ItemGroup>

  <ItemGroup>
    <PackageReference Include="Microsoft.Extensions.Hosting" Version="8.0.0" />
  </ItemGroup>

  <ItemGroup>
    <ProjectReference Include="..\FsharpConsole\FsharpConsole.fsproj" />
  </ItemGroup>

</Project>
"#;

    let project_path = "./TestProject.csproj";

    // when
    let parsed_project = parse(content.as_bytes(), project_path, false).unwrap();

    // then
    let expected_project = Project::from_parts(
        "TestProject".to_string(),
        ProjectLanguage::CSharp,
        String::from(project_path),
        Some("net8.0".to_string()),
        vec![ProjectReference::new(
            "FsharpConsole".to_string(),
            String::from("../FsharpConsole/FsharpConsole.fsproj"),
        )],
        vec![
            PackageReference::new(
                "Microsoft.Extensions.Configuration".to_string(),
                "8.0.0".to_string(),
            ),
            PackageReference::new(
                "Microsoft.Extensions.Hosting".to_string(),
                "8.0.0".to_string(),
            ),
        ],
    );

    assert_eq!(parsed_project, expected_project);
}

#[test]
fn parse_valid_fsproj() {
    // given
    let content = r#"
<Project Sdk="Microsoft.NET.Sdk">

  <PropertyGroup>
    <OutputType>Exe</OutputType>
    <TargetFramework>net8.0</TargetFramework>
  </PropertyGroup>

  <ItemGroup>
    <Compile Include="Program.fs" />
  </ItemGroup>

  <ItemGroup>
    <PackageReference Include="Microsoft.Extensions.Configuration" Version="8.0.0" />
  </ItemGroup>

  <ItemGroup>
    <ProjectReference Include="..\VbConsole\VbConsole.vbproj" />
  </ItemGroup>

</Project>
"#;

    let project_path = "./TestProject.fsproj";

    // when
    let parsed_project = parse(content.as_bytes(), project_path, false).unwrap();

    // then
    let expected_project = Project::from_parts(
        "TestProject".to_string(),
        ProjectLanguage::FSharp,
        String::from(project_path),
        Some("net8.0".to_string()),
        vec![ProjectReference::new(
            "VbConsole".to_string(),
            String::from("../VbConsole/VbConsole.vbproj"),
        )],
        vec![PackageReference::new(
            "Microsoft.Extensions.Configuration".to_string(),
            "8.0.0".to_string(),
        )],
    );

    assert_eq!(parsed_project, expected_project);
}

#[test]
fn parse_valid_vbproj() {
    // given
    let content = r#"
<Project Sdk="Microsoft.NET.Sdk">

  <PropertyGroup>
    <OutputType>Exe</OutputType>
    <RootNamespace>VbConsole</RootNamespace>
    <TargetFramework>net8.0</TargetFramework>
  </PropertyGroup>

  <ItemGroup>
    <PackageReference Include="Microsoft.Extensions.Configuration" Version="8.0.0" />
  </ItemGroup>

  <ItemGroup>
    <ProjectReference Include="..\FsharpConsole\FsharpConsole.fsproj" />
  </ItemGroup>

</Project>
"#;

    let project_path = "./TestProject.vbproj";

    // when
    let parsed_project = parse(content.as_bytes(), project_path, false).unwrap();

    // then
    let expected_project = Project::from_parts(
        "TestProject".to_string(),
        ProjectLanguage::VB,
        String::from(project_path),
        Some("net8.0".to_string()),
        vec![ProjectReference::new(
            "FsharpConsole".to_string(),
            String::from("../FsharpConsole/FsharpConsole.fsproj"),
        )],
        vec![PackageReference::new(
            "Microsoft.Extensions.Configuration".to_string(),
            "8.0.0".to_string(),
        )],
    );

    assert_eq!(parsed_project, expected_project);
}

#[test]
fn invalid_xml() {
    // given
    let content = r#"
<Project Sdk="Microsoft.NET.Sdk">

  <PropertyGroup>
    <OutputType>Exe</OutputType>

  <ItemGroup>
    <PackageReference Include="Microsoft.Extensions.Configuration" Version="8.0.0" />
  </ItemGroup>

  <ItemGroup>
    <ProjectReference Include="..\FsharpConsole\FsharpConsole.fsproj" />
  </ItemGroup>

</Project>
"#;

    let project_path = "./TestProject.vbproj";

    // when
    let parsed_project = parse(content.as_bytes(), project_path, false);

    // then
    if let Err(error) = parsed_project {
        assert!(matches!(error, ParseError::IoError(_)));

        return;
    }

    unreachable!()
}

#[test]
fn missing_field() {
    // given
    let content = r#"
<Project Sdk="Microsoft.NET.Sdk">

  <ItemGroup>
    <PackageReference Include="Microsoft.Extensions.Configuration" />
  </ItemGroup>

  <ItemGroup>
    <ProjectReference Include="..\FsharpConsole\FsharpConsole.fsproj" />
  </ItemGroup>

</Project>
"#;

    let project_path = "./TestProject.vbproj";

    // when
    let parsed_project = parse(content.as_bytes(), project_path, false);

    // then
    if let Err(error) = parsed_project {
        assert!(matches!(error, ParseError::DeserializationError));

        return;
    }

    unreachable!()
}

#[test]
fn path_is_not_a_file() {
    // given
    let content = "";

    let project_path = "./";

    // when
    let parsed_project = parse(content.as_bytes(), project_path, true);

    // then
    if let Err(error) = parsed_project {
        assert!(matches!(error, ParseError::PathIsNotAFile));

        return;
    }

    unreachable!()
}

#[test]
fn path_is_not_a_project() {
    // given
    let content = "";

    let project_path = "./TestProject.txt";

    // when
    let parsed_project = parse(content.as_bytes(), project_path, false);

    // then
    if let Err(error) = parsed_project {
        assert!(matches!(error, ParseError::FileIsNotAProject));

        return;
    }

    unreachable!()
}

#[test]
fn path_does_not_have_a_name() {
    // given
    let content = "";

    let project_path = "./.csproj";

    // when
    let parsed_project = parse(content.as_bytes(), project_path, false);

    // then
    if let Err(error) = parsed_project {
        assert!(matches!(error, ParseError::FileIsNotAProject));

        return;
    }

    unreachable!()
}
