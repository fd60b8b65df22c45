use litho::project_name::{
    extract_from_cargo_toml, extract_from_csproj, extract_from_csproj_xml,
    extract_from_package_json, extract_from_pom_xml, extract_from_pyproject_toml,
    extract_project_name_from_config_files, get_project_name, infer_project_name, is_blank,
    CsprojFile, ProjectFiles,
};

fn s(x: &str) -> Option<String> {
    Some(x.to_string())
}

fn files() -> ProjectFiles {
    ProjectFiles {
        cargo_toml: None,
        package_json: None,
        pyproject_toml: None,
        pom_xml: None,
        csproj_files: vec![],
        dir_name: "my-dir".to_string(),
    }
}

#[test]
fn cargo_basic() {
    let c = "[package]\nname = \"my-crate\"\nversion = \"0.1.0\"\n";
    assert_eq!(extract_from_cargo_toml(c), s("my-crate"));
}

#[test]
fn cargo_only_package_section() {
    let c = "[workspace]\nname = \"ws\"\n[package]\nversion = \"1\"\nname = 'pkg'\n";
    assert_eq!(extract_from_cargo_toml(c), s("pkg"));
    let c = "[package]\nversion = \"1\"\n[dependencies]\nname = \"dep\"\n";
    assert_eq!(extract_from_cargo_toml(c), None);
    let c = "[package]\n[package.metadata]\nname = \"m\"\n";
    assert_eq!(extract_from_cargo_toml(c), None);
    assert_eq!(extract_from_cargo_toml(""), None);
    assert_eq!(extract_from_cargo_toml("name = \"x\""), None);
}

#[test]
fn cargo_value_rules() {
    assert_eq!(extract_from_cargo_toml("[package]\nname = \"\"\nname = \"second\""), s("second"));
    assert_eq!(extract_from_cargo_toml("[package]\nname = \"a=b\""), s("a"));
    assert_eq!(extract_from_cargo_toml("[package]\nnamespace = \"x\""), s("x"));
    assert_eq!(extract_from_cargo_toml("[package]\nname=plain"), s("plain"));
    assert_eq!(extract_from_cargo_toml("[package]\nname \"no-equals\""), None);
}

#[test]
fn cargo_line_endings_and_spaces() {
    assert_eq!(extract_from_cargo_toml("[package]\r\nname = \"crlf\"\r\n"), s("crlf"));
    assert_eq!(extract_from_cargo_toml("  [package]  \n\tname = \"tab\""), s("tab"));
    assert_eq!(
        extract_from_cargo_toml("[package]\n\u{3000}name = \"wide\"\u{3000}"),
        s("wide")
    );
}

#[test]
fn package_json_rules() {
    let c = "{\n  \"name\": \"my-app\",\n  \"version\": \"1.0.0\"\n}\n";
    assert_eq!(extract_from_package_json(c), s("my-app"));
    assert_eq!(extract_from_package_json("{\"name\": \"x\"}"), None);
    assert_eq!(extract_from_package_json("  \"name\": \"@scope/pkg\","), s("@scope/pkg"));
    assert_eq!(extract_from_package_json("\"name\": \"a:b\","), s("a"));
    assert_eq!(extract_from_package_json("\"name\": \"\",\n\"name\": \"z\""), s("z"));
    assert_eq!(extract_from_package_json("\"name\": 'single',"), s("single"));
    assert_eq!(extract_from_package_json("\"version\": \"1\""), None);
}

#[test]
fn pyproject_rules() {
    assert_eq!(extract_from_pyproject_toml("[project]\nname = \"py-proj\""), s("py-proj"));
    assert_eq!(extract_from_pyproject_toml("[tool.poetry]\nname = 'poet'"), s("poet"));
    let c = "[build-system]\nname = \"no\"\n[project]\nversion=\"1\"\n[tool.other]\nname = \"no2\"\n";
    assert_eq!(extract_from_pyproject_toml(c), None);
    assert_eq!(extract_from_pyproject_toml("[project]\n[tool.poetry]\nname = \"p\""), s("p"));
}

#[test]
fn pom_rules() {
    let c = "<project>\n  <artifactId>art</artifactId>\n  <name>Nice Name</name>\n</project>";
    assert_eq!(extract_from_pom_xml(c), s("art"));
    assert_eq!(extract_from_pom_xml("<name>N</name>"), s("N"));
    assert_eq!(extract_from_pom_xml("<name></name>\n<artifactId>a</artifactId>"), s("a"));
    assert_eq!(extract_from_pom_xml("<name><name>x</name></name>"), s("x"));
    assert_eq!(extract_from_pom_xml("<groupId>g</groupId>"), None);
}

#[test]
fn csproj_rules() {
    let xml = "<PropertyGroup>\n<PackageId>pkg</PackageId>\n<AssemblyName>asm</AssemblyName>";
    assert_eq!(extract_from_csproj_xml(xml), s("pkg"));
    assert_eq!(
        extract_from_csproj(&vec![CsprojFile { file_stem: s("App"), content: xml.to_string() }]),
        s("App")
    );
    assert_eq!(
        extract_from_csproj(&vec![
            CsprojFile { file_stem: None, content: xml.to_string() },
            CsprojFile { file_stem: s("B"), content: String::new() },
        ]),
        s("pkg")
    );
    assert_eq!(
        extract_from_csproj(&vec![
            CsprojFile { file_stem: None, content: "<x/>".to_string() },
            CsprojFile { file_stem: s("B"), content: String::new() },
        ]),
        s("B")
    );
    assert_eq!(extract_from_csproj(&vec![]), None);
}

#[test]
fn manifest_precedence() {
    let mut f = files();
    f.package_json = s("\"name\": \"npm-name\",");
    f.pom_xml = s("<name>maven</name>");
    assert_eq!(extract_project_name_from_config_files(&f), s("npm-name"));
    f.cargo_toml = s("[package]\nversion = \"1\"");
    assert_eq!(extract_project_name_from_config_files(&f), s("npm-name"));
    f.cargo_toml = s("[package]\nname = \"rusty\"");
    assert_eq!(extract_project_name_from_config_files(&f), s("rusty"));
    let mut g = files();
    g.csproj_files = vec![CsprojFile { file_stem: s("Dotnet"), content: String::new() }];
    g.pyproject_toml = s("[project]\nname = \"py\"");
    assert_eq!(extract_project_name_from_config_files(&g), s("py"));
    g.pyproject_toml = None;
    assert_eq!(extract_project_name_from_config_files(&g), s("Dotnet"));
}

#[test]
fn inferred_name_falls_back_to_directory() {
    assert_eq!(infer_project_name(&files()), "my-dir");
    let mut f = files();
    f.pom_xml = s("<artifactId>pom-art</artifactId>");
    assert_eq!(infer_project_name(&f), "pom-art");
}

#[test]
fn configured_name_wins_unless_blank() {
    let mut f = files();
    f.cargo_toml = s("[package]\nname = \"rusty\"");
    assert_eq!(get_project_name(&s(" Configured "), &f), " Configured ");
    assert_eq!(get_project_name(&s(" \t\n"), &f), "rusty");
    assert_eq!(get_project_name(&s(""), &f), "rusty");
    assert_eq!(get_project_name(&None, &f), "rusty");
    assert_eq!(get_project_name(&None, &files()), "my-dir");
}

#[test]
fn blank_strings() {
    assert!(is_blank(""));
    assert!(is_blank(" \t\r\n\u{a0}\u{2003}"));
    assert!(!is_blank(" x "));
}

#[test]
fn first_name_found_wins() {
    let head = "[package]\nname = \"first\"\n";
    let tail = "name = \"second\"\n[package]\nname = \"third\"\n";
    assert_eq!(extract_from_cargo_toml(&format!("{}{}", head, tail)), extract_from_cargo_toml(head));
    let head = "\"name\": \"one\",\n";
    let tail = "\"name\": \"two\",\n";
    assert_eq!(extract_from_package_json(&format!("{}{}", head, tail)), s("one"));
    let head = "[tool.poetry]\nname = \"p1\"\n";
    let tail = "[project]\nname = \"p2\"\n";
    assert_eq!(extract_from_pyproject_toml(&format!("{}{}", head, tail)), s("p1"));
    let head = "<artifactId>a1</artifactId>\n";
    let tail = "<name>n1</name>\n";
    assert_eq!(extract_from_pom_xml(&format!("{}{}", head, tail)), s("a1"));
}
