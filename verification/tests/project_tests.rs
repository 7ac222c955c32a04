use fsharp_tools::Error;
use fsharp_tools::Project;

fn with_version_doc() -> String {
    "<?xml version=\"1.0\" encoding=\"utf-8\"?>\n<Project Sdk=\"Microsoft.NET.Sdk\">\n  <PropertyGroup>\n    <OutputType>Exe</OutputType>\n    <TargetFramework>net6.0</TargetFramework>\n  </PropertyGroup>\n  <ItemGroup>\n    <Compile Include=\"One.fs\" />\n    <Compile Include=\"Two.fs\" />\n    <Compile Include=\"Three.fs\" />\n    <Compile Include=\"Four.fs\" />\n    <Compile Include=\"Five.fs\" />\n  </ItemGroup>\n</Project>\n"
    .to_string()
}

fn without_version_doc() -> String {
    "<Project Sdk=\"Microsoft.NET.Sdk\">\n  <PropertyGroup>\n    <OutputType>Exe</OutputType>\n  </PropertyGroup>\n  <ItemGroup>\n    <Compile Include=\"One.fs\" />\n    <Compile Include=\"Two.fs\" />\n    <Compile Include=\"Three.fs\" />\n    <Compile Include=\"Four.fs\" />\n    <Compile Include=\"Five.fs\" />\n  </ItemGroup>\n</Project>\n"
    .to_string()
}

#[test]
fn xml_parse() {
    let files = Project::open(with_version_doc()).get_files().unwrap();
    assert_eq!(
        files,
        vec![
            "One".to_string(),
            "Two".to_string(),
            "Three".to_string(),
            "Four".to_string(),
            "Five".to_string(),
        ]
    );

    let files = Project::open(without_version_doc()).get_files().unwrap();
    assert_eq!(
        files,
        vec![
            "One".to_string(),
            "Two".to_string(),
            "Three".to_string(),
            "Four".to_string(),
            "Five".to_string(),
        ]
    );
}

#[test]
fn set_files() {
    let original = "<?xml version=\"1.0\" encoding=\"utf-8\"?>\n<Project Sdk=\"Microsoft.NET.Sdk\">\n  <PropertyGroup>\n    <OutputType>Exe</OutputType>\n  </PropertyGroup>\n  <ItemGroup>\n    <Compile Include=\"Old.fs\" />\n  </ItemGroup>\n</Project>"
    .to_string();
    let expected = "<?xml version=\"1.0\" encoding=\"utf-8\"?>\n<Project Sdk=\"Microsoft.NET.Sdk\">\n  <PropertyGroup>\n    <OutputType>Exe</OutputType>\n  </PropertyGroup>\n  <ItemGroup>\n    <Compile Include=\"FileA.fs\" />\n    <Compile Include=\"FileB.fs\" />\n    <Compile Include=\"FileC.fs\" />\n  </ItemGroup>\n</Project>";

    let files = vec!["FileA".to_string(), "FileB".to_string(), "FileC".to_string()];
    let result = Project::open(original).with_files(&files).unwrap();

    assert_eq!(result.content, expected);
    assert_eq!(result.get_files().unwrap(), files);
}

#[test]
fn ignore_empty_lines() {
    let input = r#"
        <Project Sdk="Microsoft.NET.Sdk">
          <PropertyGroup>
            <OutputType>Exe</OutputType>
            <TargetFramework>net6.0</TargetFramework>
            <GenerateProgramFile>false</GenerateProgramFile>
          </PropertyGroup>
          <ItemGroup>
            <Compile Include="One.fs" />
            <Compile Include="Two.fs" />
            <Compile Include="Three.fs" />
            <Content Include="paket.references" />
          </ItemGroup>
          <ItemGroup>
            <ProjectReference Include="../dependency.fsproj" />
          </ItemGroup>
          <Import Project="..\..\.paket\Paket.Restore.targets" />
        </Project>
    "#
    .to_string();

    let names = vec![
        "a".to_string(),
        "b".to_string(),
        "".to_string(),
        " ".to_string(),
        "                ".to_string(),
        "c".to_string(),
    ];
    let written = Project::open(input).with_files(&names).unwrap();
    let files = written.get_files().unwrap();

    assert_eq!(files, vec!["a".to_string(), "b".to_string(), "c".to_string()]);
}

#[test]
fn get_file_name() {
    let path = "files/projects/set_files_expected.fsproj";

    assert_eq!(
        fsharp_tools::get_file_name(&path),
        Some("set_files_expected".to_owned())
    );
}

#[test]
fn get_file_name_edges() {
    assert_eq!(fsharp_tools::get_file_name(""), None);
    assert_eq!(fsharp_tools::get_file_name("/"), None);
    assert_eq!(fsharp_tools::get_file_name("a/.."), None);
    assert_eq!(fsharp_tools::get_file_name("a/b/"), Some("b".to_string()));
    assert_eq!(fsharp_tools::get_file_name(".hidden"), Some(".hidden".to_string()));
    assert_eq!(
        fsharp_tools::get_file_name("dir/archive.tar.gz"),
        Some("archive.tar".to_string())
    );
}

#[test]
fn reorder_preserves_other_groups() {
    // A property group and one item group: writing the entries reversed
    // reorders only the compile-entry lines.
    let original = "<?xml version=\"1.0\" encoding=\"utf-8\"?>\n<Project Sdk=\"Microsoft.NET.Sdk\">\n  <PropertyGroup>\n    <OutputType>Exe</OutputType>\n  </PropertyGroup>\n  <ItemGroup>\n    <Compile Include=\"One.fs\" />\n    <Compile Include=\"Two.fs\" />\n  </ItemGroup>\n</Project>\n"
    .to_string();
    let expected = "<?xml version=\"1.0\" encoding=\"utf-8\"?>\n<Project Sdk=\"Microsoft.NET.Sdk\">\n  <PropertyGroup>\n    <OutputType>Exe</OutputType>\n  </PropertyGroup>\n  <ItemGroup>\n    <Compile Include=\"Two.fs\" />\n    <Compile Include=\"One.fs\" />\n  </ItemGroup>\n</Project>\n";

    let project = Project::open(original);
    assert_eq!(
        project.get_files().unwrap(),
        vec!["One".to_string(), "Two".to_string()]
    );

    let names = vec!["Two".to_string(), "One".to_string()];
    let result = project.with_files(&names).unwrap();
    assert_eq!(result.content, expected);
    assert_eq!(result.get_files().unwrap(), names);
}

#[test]
fn blank_names_written_as_two_entries() {
    let original = "<?xml version=\"1.0\" encoding=\"utf-8\"?>\n<Project Sdk=\"Microsoft.NET.Sdk\">\n  <ItemGroup>\n    <Compile Include=\"Old.fs\" />\n  </ItemGroup>\n</Project>\n"
    .to_string();
    let names = vec![
        "a".to_string(),
        "".to_string(),
        "   ".to_string(),
        "b".to_string(),
    ];
    let result = Project::open(original).with_files(&names).unwrap();

    assert_eq!(
        result.get_files().unwrap(),
        vec!["a".to_string(), "b".to_string()]
    );
    assert_eq!(result.content.matches("<Compile").count(), 2);
    let a_pos = result.content.find("Include=\"a.fs\"").unwrap();
    let b_pos = result.content.find("Include=\"b.fs\"").unwrap();
    assert!(a_pos < b_pos);
}

#[test]
fn blank_filtering_matches_prefiltered_input() {
    let original = with_version_doc();
    let with_blanks = vec![
        "a".to_string(),
        "".to_string(),
        "  ".to_string(),
        "b".to_string(),
    ];
    let without_blanks = vec!["a".to_string(), "b".to_string()];

    let first = Project::open(original.clone()).with_files(&with_blanks).unwrap();
    let second = Project::open(original).with_files(&without_blanks).unwrap();

    assert_eq!(first.content, second.content);
}

#[test]
fn noop_edit_is_idempotent() {
    let project = Project::open(with_version_doc());
    let names = project.get_files().unwrap();
    let written = project.with_files(&names).unwrap();

    assert_eq!(written.get_files().unwrap(), names);
}

#[test]
fn no_eligible_group_is_untouched() {
    let original = "<?xml version=\"1.0\" encoding=\"utf-8\"?>\n<Project Sdk=\"Microsoft.NET.Sdk\">\n  <PropertyGroup>\n    <OutputType>Exe</OutputType>\n  </PropertyGroup>\n</Project>\n"
    .to_string();
    let names = vec!["New".to_string()];
    let result = Project::open(original).with_files(&names).unwrap();

    assert_eq!(result.get_files().unwrap(), Vec::<String>::new());
    assert_eq!(result.content.matches("<Compile").count(), 0);
}

#[test]
fn missing_extension_is_reported() {
    let original = "<Project Sdk=\"Microsoft.NET.Sdk\">\n  <ItemGroup>\n    <Compile Include=\"NoExt\" />\n  </ItemGroup>\n</Project>\n"
    .to_string();
    let err = Project::open(original).get_files().unwrap_err();

    assert!(matches!(&err, Error::FileError(_)));
    assert_eq!(err.message(), "missing extension for NoExt");
}

#[test]
fn entry_without_file_attribute_is_reported() {
    let original = "<Project Sdk=\"Microsoft.NET.Sdk\">\n  <ItemGroup>\n    <Compile />\n  </ItemGroup>\n</Project>\n"
    .to_string();
    let err = Project::open(original).get_files().unwrap_err();

    assert!(matches!(&err, Error::FileError(_)));
    assert_eq!(err.message(), "compile entry without a file attribute");
}

#[test]
fn unparseable_text_is_a_parse_error() {
    let err = Project::open("not a manifest".to_string()).get_files().unwrap_err();
    assert!(matches!(err, Error::ParseError(_)));

    let err = Project::open(String::new()).get_files().unwrap_err();
    assert!(matches!(err, Error::ParseError(_)));

    let err = Project::open("not a manifest".to_string())
        .with_files(&vec!["a".to_string()])
        .unwrap_err();
    assert!(matches!(err, Error::ParseError(_)));
}

#[test]
fn file_error_wraps_a_message() {
    let err = Error::file_error("cannot open".to_string());
    assert!(matches!(&err, Error::FileError(_)));
    assert_eq!(err.message(), "cannot open");
}

#[test]
fn error_messages_carry_through() {
    assert_eq!(Error::LockError("stuck".to_string()).message(), "stuck");
    assert_eq!(Error::IOError("broken pipe".to_string()).message(), "broken pipe");
    assert_eq!(Error::ParseError("bad".to_string()).message(), "bad");
}

#[test]
fn derive_indent_reads_the_first_indented_line() {
    let two_spaces = Project::open("<a>\n  <b />\n</a>\n".to_string());
    assert_eq!(two_spaces.derive_indent(), Some("  ".to_string()));

    let tabs = Project::open("<a>\n\t\t<b />\n</a>\n".to_string());
    assert_eq!(tabs.derive_indent(), Some("\t\t".to_string()));

    let flat = Project::open("<a>\n<b />\n</a>\n".to_string());
    assert_eq!(flat.derive_indent(), None);
}

#[test]
fn explicit_indent_is_used_when_writing() {
    let original = "<Project Sdk=\"Microsoft.NET.Sdk\">\n    <ItemGroup>\n        <Compile Include=\"Old.fs\" />\n    </ItemGroup>\n</Project>\n"
    .to_string();
    let mut project = Project::open(original);
    let indent = project.derive_indent().unwrap();
    assert_eq!(indent, "    ");
    project.set_indent_string(indent);

    let result = project.with_files(&vec!["New".to_string()]).unwrap();
    assert!(result.content.contains("        <Compile Include=\"New.fs\" />"));
}

#[test]
fn open_with_indent_stores_the_unit() {
    let project = Project::open_with_indent("<a />".to_string(), "\t".to_string());
    assert_eq!(project.indent_string, Some("\t".to_string()));
    assert_eq!(project.content, "<a />");
}

#[test]
fn fix_start_and_end_restores_first_line_and_ending() {
    // The fresh text's first line gives way to the original's, and the
    // original's trailing line feed is restored.
    let fresh = Project::open("<?xml?>\n<a>\n  <b />\n</a>".to_string());
    let original = Project::open("<?xml version=\"1.0\"?>\n<old />\n".to_string());
    let fixed = fresh.fix_start_and_end(&original).unwrap();
    assert_eq!(fixed.content, "<?xml version=\"1.0\"?>\n<a>\n  <b />\n</a>\n");

    // Without a trailing line feed in the original, one is stripped.
    let original = Project::open("<?xml version=\"1.0\"?>\n<old />".to_string());
    let fresh = Project::open("<?xml?>\n<a />\n".to_string());
    let fixed = fresh.fix_start_and_end(&original).unwrap();
    assert_eq!(fixed.content, "<?xml version=\"1.0\"?>\n<a />");

    // Either side empty gives the empty text.
    let fixed = Project::open(String::new())
        .fix_start_and_end(&Project::open("<a />".to_string()))
        .unwrap();
    assert_eq!(fixed.content, "");
}
