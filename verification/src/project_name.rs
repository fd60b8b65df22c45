//! Finding a project's name: in the configuration, in the manifest files of
//! the common build tools (Cargo, npm, Python packaging, Maven, MSBuild), or
//! in the name of the project's directory.
//!
//! Each manifest is read line by line, the way a person would skim it: no
//! full TOML, JSON or XML parser is involved, and the rules below are the
//! whole of what is recognised.
use vstd::prelude::*;

use crate::text::{
    chars_of, is_whitespace, lemma_lines_append, lemma_lines_two, lemma_split_second_at,
    lemma_take_until_none, lemma_trim_end_skips, lemma_trim_keeps, lemma_trim_start_skips,
    take_until, trim_by, trim_end_by, trim_start_by, contains_range, ends_with_range, equals_range, has_prefix, has_suffix, lines,
    next_line, split_second, split_second_range, starts_with_range, strip_prefix_all,
    strip_prefix_all_range, strip_suffix_all, strip_suffix_all_range, trim, trim_char,
    trim_range, CharPattern,
};

verus! {

// ---------------------------------------------------------------------------
// Specification
// ---------------------------------------------------------------------------

/// The view of an optional string.
pub open spec fn option_view(o: Option<String>) -> Option<Seq<char>> {
    match o {
        Some(s) => Some(s@),
        None => None,
    }
}

/// `piece` stands somewhere in `whole`, as one contiguous run.
pub open spec fn occurs_in(piece: Seq<char>, whole: Seq<char>) -> bool {
    exists|i: int, j: int| 0 <= i <= j <= whole.len() && whole.subrange(i, j) == piece
}

/// A line that opens a section header (`[...]`).
pub open spec fn opens_section(line: Seq<char>) -> bool {
    line.len() > 0 && line[0] == '['
}

/// The value of a `key = "value"` line: what follows the first `=` (up to a
/// second one), trimmed, then stripped of double and then of single quotes;
/// `None` where there is no `=` or nothing is left.
pub open spec fn toml_string_value(line: Seq<char>) -> Option<Seq<char>> {
    match split_second(line, '=') {
        Some(part) => {
            let v = trim_char(trim_char(trim(part), '"'), '\'');
            if v.len() > 0 {
                Some(v)
            } else {
                None
            }
        },
        None => None,
    }
}

/// The value of a `"key": "value",` line: what follows the first `:` (up to a
/// second one), trimmed, then stripped of commas, double quotes and single
/// quotes in turn; `None` where there is no `:` or nothing is left.
pub open spec fn json_string_value(line: Seq<char>) -> Option<Seq<char>> {
    match split_second(line, ':') {
        Some(part) => {
            let v = trim_char(trim_char(trim_char(trim(part), ','), '"'), '\'');
            if v.len() > 0 {
                Some(v)
            } else {
                None
            }
        },
        None => None,
    }
}

/// The text of a one-line element `<tag>text</tag>`: a line that begins with
/// `open` and ends with `close`, with every leading `open` and then every
/// trailing `close` removed; `None` where the line is not of that form or
/// nothing is left.
pub open spec fn xml_element_text(line: Seq<char>, open: Seq<char>, close: Seq<char>) -> Option<
    Seq<char>,
> {
    if has_prefix(line, open) && has_suffix(line, close) {
        let v = strip_suffix_all(strip_prefix_all(line, open), close);
        if v.len() > 0 {
            Some(v)
        } else {
            None
        }
    } else {
        None
    }
}

/// Scan of `Cargo.toml` lines: the first `name = ...` line with a non-empty
/// value inside a `[package]` section.
pub open spec fn cargo_scan(ls: Seq<Seq<char>>, in_package: bool) -> Option<Seq<char>>
    decreases ls.len(),
{
    if ls.len() == 0 {
        None
    } else {
        let line = trim(ls[0]);
        let rest = ls.drop_first();
        if line == "[package]"@ {
            cargo_scan(rest, true)
        } else if opens_section(line) && in_package {
            cargo_scan(rest, false)
        } else if in_package && has_prefix(line, "name"@) && line.contains('=')
            && toml_string_value(line) is Some {
            toml_string_value(line)
        } else {
            cargo_scan(rest, in_package)
        }
    }
}

/// The package name that `Cargo.toml` text gives.
pub open spec fn cargo_toml_name(content: Seq<char>) -> Option<Seq<char>> {
    cargo_scan(lines(content), false)
}

/// Scan of `package.json` lines: the first line that begins with `"name"`
/// and holds a `:` with a non-empty value.
pub open spec fn package_json_scan(ls: Seq<Seq<char>>) -> Option<Seq<char>>
    decreases ls.len(),
{
    if ls.len() == 0 {
        None
    } else {
        let line = trim(ls[0]);
        if has_prefix(line, "\"name\""@) && line.contains(':') && json_string_value(line) is Some {
            json_string_value(line)
        } else {
            package_json_scan(ls.drop_first())
        }
    }
}

/// The package name that `package.json` text gives.
pub open spec fn package_json_name(content: Seq<char>) -> Option<Seq<char>> {
    package_json_scan(lines(content))
}

/// Scan of `pyproject.toml` lines: the first `name = ...` line with a
/// non-empty value inside a `[project]` or a `[tool.poetry]` section.
pub open spec fn pyproject_scan(ls: Seq<Seq<char>>, in_project: bool, in_poetry: bool) -> Option<
    Seq<char>,
>
    decreases ls.len(),
{
    if ls.len() == 0 {
        None
    } else {
        let line = trim(ls[0]);
        let rest = ls.drop_first();
        if line == "[project]"@ {
            pyproject_scan(rest, true, false)
        } else if line == "[tool.poetry]"@ {
            pyproject_scan(rest, false, true)
        } else if opens_section(line) && (in_project || in_poetry) {
            pyproject_scan(rest, false, false)
        } else if (in_project || in_poetry) && has_prefix(line, "name"@) && line.contains('=')
            && toml_string_value(line) is Some {
            toml_string_value(line)
        } else {
            pyproject_scan(rest, in_project, in_poetry)
        }
    }
}

/// The project name that `pyproject.toml` text gives.
pub open spec fn pyproject_toml_name(content: Seq<char>) -> Option<Seq<char>> {
    pyproject_scan(lines(content), false, false)
}

/// Scan of XML lines for the first one-line element with non-empty text,
/// trying the first tag before the second on each line.
pub open spec fn xml_scan(
    ls: Seq<Seq<char>>,
    open1: Seq<char>,
    close1: Seq<char>,
    open2: Seq<char>,
    close2: Seq<char>,
) -> Option<Seq<char>>
    decreases ls.len(),
{
    if ls.len() == 0 {
        None
    } else {
        let line = trim(ls[0]);
        if xml_element_text(line, open1, close1) is Some {
            xml_element_text(line, open1, close1)
        } else if xml_element_text(line, open2, close2) is Some {
            xml_element_text(line, open2, close2)
        } else {
            xml_scan(ls.drop_first(), open1, close1, open2, close2)
        }
    }
}

/// The project name that `pom.xml` text gives: `<name>`, else `<artifactId>`.
pub open spec fn pom_xml_name(content: Seq<char>) -> Option<Seq<char>> {
    xml_scan(lines(content), "<name>"@, "</name>"@, "<artifactId>"@, "</artifactId>"@)
}

/// The project name that `.csproj` text gives: `<AssemblyName>`, else
/// `<PackageId>`.
pub open spec fn csproj_xml_name(content: Seq<char>) -> Option<Seq<char>> {
    xml_scan(
        lines(content),
        "<AssemblyName>"@,
        "</AssemblyName>"@,
        "<PackageId>"@,
        "</PackageId>"@,
    )
}

/// A readable `.csproj` file of the project directory.
pub struct CsprojFile {
    /// The file's name without its extension, where it is valid UTF-8.
    pub file_stem: Option<String>,
    /// The file's text.
    pub content: String,
}

/// The name that the `.csproj` files give, taken in the order given: the
/// first file's stem; a file without one gives what its text names.
pub open spec fn csproj_scan(files: Seq<CsprojFile>) -> Option<Seq<char>>
    decreases files.len(),
{
    if files.len() == 0 {
        None
    } else {
        match files[0].file_stem {
            Some(stem) => Some(stem@),
            None => match csproj_xml_name(files[0].content@) {
                Some(n) => Some(n),
                None => csproj_scan(files.drop_first()),
            },
        }
    }
}

/// What the project directory holds that the name can come from.
pub struct ProjectFiles {
    /// Text of `Cargo.toml`, where it exists and could be read.
    pub cargo_toml: Option<String>,
    /// Text of `package.json`, where it exists and could be read.
    pub package_json: Option<String>,
    /// Text of `pyproject.toml`, where it exists and could be read.
    pub pyproject_toml: Option<String>,
    /// Text of `pom.xml`, where it exists and could be read.
    pub pom_xml: Option<String>,
    /// The readable `.csproj` files, in the order the directory lists them.
    pub csproj_files: Vec<CsprojFile>,
    /// The last component of the project path (empty where it has none).
    pub dir_name: String,
}

/// What a manifest's text gives, where the manifest is there.
pub open spec fn manifest_name(
    content: Option<String>,
    parse: spec_fn(Seq<char>) -> Option<Seq<char>>,
) -> Option<Seq<char>> {
    match content {
        Some(c) => parse(c@),
        None => None,
    }
}

/// The name that the manifests give, in order of precedence: Cargo, npm,
/// Python, Maven, MSBuild.
pub open spec fn config_files_name(f: ProjectFiles) -> Option<Seq<char>> {
    let cargo = manifest_name(f.cargo_toml, |c: Seq<char>| cargo_toml_name(c));
    let npm = manifest_name(f.package_json, |c: Seq<char>| package_json_name(c));
    let python = manifest_name(f.pyproject_toml, |c: Seq<char>| pyproject_toml_name(c));
    let maven = manifest_name(f.pom_xml, |c: Seq<char>| pom_xml_name(c));
    if cargo is Some {
        cargo
    } else if npm is Some {
        npm
    } else if python is Some {
        python
    } else if maven is Some {
        maven
    } else {
        csproj_scan(f.csproj_files@)
    }
}

/// The inferred name: what the manifests give, else the directory's name.
pub open spec fn inferred_name(f: ProjectFiles) -> Seq<char> {
    match config_files_name(f) {
        Some(n) => n,
        None => f.dir_name@,
    }
}

/// The project name: the configured one where it is not blank, else the
/// inferred one.
pub open spec fn project_name(configured: Option<String>, f: ProjectFiles) -> Seq<char> {
    match configured {
        Some(n) => if trim(n@).len() > 0 {
            n@
        } else {
            inferred_name(f)
        },
        None => inferred_name(f),
    }
}

// ---------------------------------------------------------------------------
// The first name found wins
// ---------------------------------------------------------------------------

proof fn lemma_split_lines(l1: Seq<Seq<char>>, l2: Seq<Seq<char>>)
    requires
        l1.len() > 0,
    ensures
        (l1 + l2)[0] == l1[0],
        (l1 + l2).drop_first() == l1.drop_first() + l2,
{
    assert((l1 + l2).drop_first() =~= l1.drop_first() + l2);
}

proof fn lemma_cargo_scan_append(l1: Seq<Seq<char>>, l2: Seq<Seq<char>>, in_package: bool)
    requires
        cargo_scan(l1, in_package) is Some,
    ensures
        cargo_scan(l1 + l2, in_package) == cargo_scan(l1, in_package),
    decreases l1.len(),
{
    lemma_split_lines(l1, l2);
    let line = trim(l1[0]);
    let rest = l1.drop_first();
    if line == "[package]"@ {
        lemma_cargo_scan_append(rest, l2, true);
    } else if opens_section(line) && in_package {
        lemma_cargo_scan_append(rest, l2, false);
    } else if in_package && has_prefix(line, "name"@) && line.contains('=')
        && toml_string_value(line) is Some {
    } else {
        lemma_cargo_scan_append(rest, l2, in_package);
    }
}

proof fn lemma_package_json_scan_append(l1: Seq<Seq<char>>, l2: Seq<Seq<char>>)
    requires
        package_json_scan(l1) is Some,
    ensures
        package_json_scan(l1 + l2) == package_json_scan(l1),
    decreases l1.len(),
{
    lemma_split_lines(l1, l2);
    let line = trim(l1[0]);
    if !(has_prefix(line, "\"name\""@) && line.contains(':') && json_string_value(line) is Some) {
        lemma_package_json_scan_append(l1.drop_first(), l2);
    }
}

proof fn lemma_pyproject_scan_append(
    l1: Seq<Seq<char>>,
    l2: Seq<Seq<char>>,
    in_project: bool,
    in_poetry: bool,
)
    requires
        pyproject_scan(l1, in_project, in_poetry) is Some,
    ensures
        pyproject_scan(l1 + l2, in_project, in_poetry) == pyproject_scan(l1, in_project, in_poetry),
    decreases l1.len(),
{
    lemma_split_lines(l1, l2);
    let line = trim(l1[0]);
    let rest = l1.drop_first();
    if line == "[project]"@ {
        lemma_pyproject_scan_append(rest, l2, true, false);
    } else if line == "[tool.poetry]"@ {
        lemma_pyproject_scan_append(rest, l2, false, true);
    } else if opens_section(line) && (in_project || in_poetry) {
        lemma_pyproject_scan_append(rest, l2, false, false);
    } else if (in_project || in_poetry) && has_prefix(line, "name"@) && line.contains('=')
        && toml_string_value(line) is Some {
    } else {
        lemma_pyproject_scan_append(rest, l2, in_project, in_poetry);
    }
}

proof fn lemma_xml_scan_append(
    l1: Seq<Seq<char>>,
    l2: Seq<Seq<char>>,
    open1: Seq<char>,
    close1: Seq<char>,
    open2: Seq<char>,
    close2: Seq<char>,
)
    requires
        xml_scan(l1, open1, close1, open2, close2) is Some,
    ensures
        xml_scan(l1 + l2, open1, close1, open2, close2) == xml_scan(l1, open1, close1, open2, close2),
    decreases l1.len(),
{
    lemma_split_lines(l1, l2);
    let line = trim(l1[0]);
    if !(xml_element_text(line, open1, close1) is Some) && !(xml_element_text(
        line,
        open2,
        close2,
    ) is Some) {
        lemma_xml_scan_append(l1.drop_first(), l2, open1, close1, open2, close2);
    }
}

/// In `Cargo.toml` the first name found wins: whatever lines follow the one
/// that gives it do not change the name.
pub proof fn lemma_cargo_first_name_wins(a: Seq<char>, b: Seq<char>)
    requires
        a.len() > 0,
        a.last() == '\n',
        cargo_toml_name(a) is Some,
    ensures
        cargo_toml_name(a + b) == cargo_toml_name(a),
{
    lemma_lines_append(a, b);
    lemma_cargo_scan_append(lines(a), lines(b), false);
}

/// In `package.json` the first name found wins.
pub proof fn lemma_package_json_first_name_wins(a: Seq<char>, b: Seq<char>)
    requires
        a.len() > 0,
        a.last() == '\n',
        package_json_name(a) is Some,
    ensures
        package_json_name(a + b) == package_json_name(a),
{
    lemma_lines_append(a, b);
    lemma_package_json_scan_append(lines(a), lines(b));
}

/// In `pyproject.toml` the first name found wins.
pub proof fn lemma_pyproject_first_name_wins(a: Seq<char>, b: Seq<char>)
    requires
        a.len() > 0,
        a.last() == '\n',
        pyproject_toml_name(a) is Some,
    ensures
        pyproject_toml_name(a + b) == pyproject_toml_name(a),
{
    lemma_lines_append(a, b);
    lemma_pyproject_scan_append(lines(a), lines(b), false, false);
}

/// In `pom.xml` and in `.csproj` text the first name found wins.
pub proof fn lemma_xml_first_name_wins(a: Seq<char>, b: Seq<char>)
    requires
        a.len() > 0,
        a.last() == '\n',
    ensures
        pom_xml_name(a) is Some ==> pom_xml_name(a + b) == pom_xml_name(a),
        csproj_xml_name(a) is Some ==> csproj_xml_name(a + b) == csproj_xml_name(a),
{
    lemma_lines_append(a, b);
    if pom_xml_name(a) is Some {
        lemma_xml_scan_append(
            lines(a),
            lines(b),
            "<name>"@,
            "</name>"@,
            "<artifactId>"@,
            "</artifactId>"@,
        );
    }
    if csproj_xml_name(a) is Some {
        lemma_xml_scan_append(
            lines(a),
            lines(b),
            "<AssemblyName>"@,
            "</AssemblyName>"@,
            "<PackageId>"@,
            "</PackageId>"@,
        );
    }
}

// ---------------------------------------------------------------------------
// A quoted name is read whole
// ---------------------------------------------------------------------------

/// A name value as manifests usually write it: non-empty, with no
/// whitespace, no quotes and none of the separators `=`, `:`, `,`.
pub open spec fn is_plain_value(v: Seq<char>) -> bool {
    &&& v.len() > 0
    &&& forall|i: int|
        0 <= i < v.len() ==> {
            let c = #[trigger] v[i];
            &&& !is_whitespace(c)
            &&& c != '"'
            &&& c != '\''
            &&& c != '='
            &&& c != ':'
            &&& c != ','
        }
}

/// Stripping the quotes around a plain value gives the value.
proof fn lemma_unquote(v: Seq<char>, q: char)
    requires
        is_plain_value(v),
        q == '"' || q == '\'',
    ensures
        trim_char(seq![q] + v + seq![q], q) == v,
        trim_char(v, q) == v,
{
    let pat = CharPattern::Exactly(q);
    assert(v[0] == v[0]);
    assert(v[v.len() - 1] == v.last());
    lemma_trim_keeps(v, pat);
    lemma_trim_start_skips(seq![q], v + seq![q], pat);
    assert(seq![q] + v + seq![q] =~= seq![q] + (v + seq![q]));
    assert((v + seq![q])[0] == v[0]);
    assert(trim_start_by(v + seq![q], pat) == v + seq![q]);
    lemma_trim_end_skips(v, seq![q], pat);
    assert(trim_end_by(v, pat) == v);
}

/// The line `name = "v"`.
pub open spec fn toml_name_line(v: Seq<char>) -> Seq<char> {
    "name = \""@ + v + "\""@
}

/// What the scans need to know of the line `name = "v"`.
proof fn lemma_toml_name_line(v: Seq<char>)
    requires
        is_plain_value(v),
    ensures
        ({
            let line = toml_name_line(v);
            &&& trim(line) == line
            &&& !opens_section(line)
            &&& has_prefix(line, "name"@)
            &&& line.contains('=')
            &&& toml_string_value(line) == Some(v)
            &&& line != "[package]"@
            &&& line != "[project]"@
            &&& line != "[tool.poetry]"@
            &&& forall|i: int| 0 <= i < line.len() ==> line[i] != '\n'
            &&& line.last() != '\r'
        }),
{
    reveal_strlit("name = \"");
    reveal_strlit("\"");
    reveal_strlit("name");
    reveal_strlit("[package]");
    reveal_strlit("[project]");
    reveal_strlit("[tool.poetry]");
    let head = seq!['n', 'a', 'm', 'e', ' ', '=', ' ', '"'];
    let q = seq!['"'];
    let line = toml_name_line(v);
    assert(line =~= head + v + q);
    assert(line[0] == 'n');
    assert(line.last() == '"');
    assert(line[5] == '=');
    assert(v[0] == v[0]);
    assert(v[v.len() - 1] == v.last());
    lemma_trim_keeps(line, CharPattern::Whitespace);
    assert(line.subrange(0, 4) =~= "name"@);
    assert forall|i: int| 0 <= i < line.len() implies line[i] != '\n' by {
        if 8 <= i < 8 + v.len() {
            assert(line[i] == v[i - 8]);
        }
    }
    assert forall|i: int| 0 <= i < 5 implies line[i] != '=' by {}
    lemma_split_second_at(line, '=', 5);
    let p = line.skip(6);
    assert(p =~= seq![' '] + (seq!['"'] + v + q));
    assert forall|i: int| 0 <= i < p.len() implies p[i] != '=' by {
        if 2 <= i < 2 + v.len() {
            assert(p[i] == v[i - 2]);
        }
    }
    lemma_take_until_none(p, '=');
    let r = seq!['"'] + v + q;
    lemma_trim_start_skips(seq![' '], r, CharPattern::Whitespace);
    assert(r[0] == '"');
    assert(r.last() == '"');
    lemma_trim_keeps(r, CharPattern::Whitespace);
    assert(trim(p) == r);
    lemma_unquote(v, '"');
    lemma_unquote(v, '\'');
    assert(line[0] != "[package]"@[0]);
    assert(line[0] != "[project]"@[0]);
    assert(line[0] != "[tool.poetry]"@[0]);
}

/// In `Cargo.toml`, a `[package]` section whose first line is
/// `name = "v"` gives the name `v`, whole, whatever follows.
pub proof fn lemma_cargo_reads_whole_name(v: Seq<char>, rest: Seq<char>)
    requires
        is_plain_value(v),
    ensures
        cargo_toml_name("[package]\nname = \""@ + v + "\"\n"@ + rest) == Some(v),
{
    reveal_strlit("[package]\nname = \"");
    reveal_strlit("\"\n");
    reveal_strlit("[package]");
    reveal_strlit("name = \"");
    reveal_strlit("\"");
    let h = "[package]"@;
    let line = toml_name_line(v);
    let nl = seq!['\n'];
    lemma_toml_name_line(v);
    assert("[package]\nname = \""@ + v + "\"\n"@ + rest =~= h + nl + (line + nl + rest));
    lemma_lines_two(h, line, rest);
    let ls = lines(h + nl + (line + nl + rest));
    assert(h[0] == '[' && h.last() == ']');
    lemma_trim_keeps(h, CharPattern::Whitespace);
    assert(ls[0] == h);
    assert(ls.drop_first() =~= seq![line] + lines(rest));
    assert(ls.drop_first()[0] == line);
    assert(trim(ls[0]) == "[package]"@);
    assert(cargo_scan(ls.drop_first(), true) == Some(v));
    assert(cargo_scan(ls, false) == Some(v));
}

/// In `pyproject.toml`, a `[project]` or a `[tool.poetry]` section whose
/// first line is `name = "v"` gives the name `v`, whole, whatever follows.
pub proof fn lemma_pyproject_reads_whole_name(v: Seq<char>, rest: Seq<char>)
    requires
        is_plain_value(v),
    ensures
        pyproject_toml_name("[project]\nname = \""@ + v + "\"\n"@ + rest) == Some(v),
        pyproject_toml_name("[tool.poetry]\nname = \""@ + v + "\"\n"@ + rest) == Some(v),
{
    reveal_strlit("[project]\nname = \"");
    reveal_strlit("[tool.poetry]\nname = \"");
    reveal_strlit("\"\n");
    reveal_strlit("[project]");
    reveal_strlit("[tool.poetry]");
    reveal_strlit("name = \"");
    reveal_strlit("\"");
    let line = toml_name_line(v);
    let nl = seq!['\n'];
    lemma_toml_name_line(v);

    let h = "[project]"@;
    assert("[project]\nname = \""@ + v + "\"\n"@ + rest =~= h + nl + (line + nl + rest));
    lemma_lines_two(h, line, rest);
    let ls = lines(h + nl + (line + nl + rest));
    assert(h[0] == '[' && h.last() == ']');
    lemma_trim_keeps(h, CharPattern::Whitespace);
    assert(ls[0] == h);
    assert(ls.drop_first() =~= seq![line] + lines(rest));
    assert(ls.drop_first()[0] == line);
    assert(trim(ls[0]) == "[project]"@);
    assert(pyproject_scan(ls.drop_first(), true, false) == Some(v));
    assert(pyproject_scan(ls, false, false) == Some(v));

    let g = "[tool.poetry]"@;
    assert("[tool.poetry]\nname = \""@ + v + "\"\n"@ + rest =~= g + nl + (line + nl + rest));
    lemma_lines_two(g, line, rest);
    let gs = lines(g + nl + (line + nl + rest));
    assert(g[0] == '[' && g.last() == ']');
    lemma_trim_keeps(g, CharPattern::Whitespace);
    assert(g.len() != h.len());
    assert(gs[0] == g);
    assert(gs.drop_first() =~= seq![line] + lines(rest));
    assert(gs.drop_first()[0] == line);
    assert(trim(gs[0]) != "[project]"@);
    assert(trim(gs[0]) == "[tool.poetry]"@);
    assert(pyproject_scan(gs.drop_first(), false, true) == Some(v));
    assert(pyproject_scan(gs, false, false) == Some(v));
}

/// The line `"name": "v",` without its indentation.
pub open spec fn json_name_line(v: Seq<char>) -> Seq<char> {
    "\"name\": \""@ + v + "\","@
}

/// What the scan needs to know of the line `  "name": "v",`.
proof fn lemma_json_name_line(v: Seq<char>)
    requires
        is_plain_value(v),
    ensures
        ({
            let line = seq![' ', ' '] + json_name_line(v);
            &&& trim(line) == json_name_line(v)
            &&& has_prefix(json_name_line(v), "\"name\""@)
            &&& json_name_line(v).contains(':')
            &&& json_string_value(json_name_line(v)) == Some(v)
            &&& forall|i: int| 0 <= i < line.len() ==> line[i] != '\n'
            &&& line.last() != '\r'
        }),
{
    reveal_strlit("\"name\": \"");
    reveal_strlit("\",");
    reveal_strlit("\"name\"");
    let head = seq!['"', 'n', 'a', 'm', 'e', '"', ':', ' ', '"'];
    let tail = seq!['"', ','];
    let m = json_name_line(v);
    let line = seq![' ', ' '] + m;
    assert(m =~= head + v + tail);
    assert(m[0] == '"');
    assert(m.last() == ',');
    assert(m[6] == ':');
    assert(v[0] == v[0]);
    assert(v[v.len() - 1] == v.last());
    lemma_trim_start_skips(seq![' ', ' '], m, CharPattern::Whitespace);
    lemma_trim_keeps(m, CharPattern::Whitespace);
    assert(line.last() == m.last());
    assert(m.subrange(0, 6) =~= "\"name\""@);
    assert forall|i: int| 0 <= i < line.len() implies line[i] != '\n' by {
        if 11 <= i < 11 + v.len() {
            assert(line[i] == v[i - 11]);
        }
    }
    assert forall|i: int| 0 <= i < 6 implies m[i] != ':' by {}
    lemma_split_second_at(m, ':', 6);
    let p = m.skip(7);
    let r = seq!['"'] + v + seq!['"'];
    assert(p =~= seq![' '] + (r + seq![',']));
    assert forall|i: int| 0 <= i < p.len() implies p[i] != ':' by {
        if 2 <= i < 2 + v.len() {
            assert(p[i] == v[i - 2]);
        }
    }
    lemma_take_until_none(p, ':');
    let rc = r + seq![','];
    lemma_trim_start_skips(seq![' '], rc, CharPattern::Whitespace);
    assert(rc[0] == '"');
    assert(rc.last() == ',');
    lemma_trim_keeps(rc, CharPattern::Whitespace);
    assert(trim(p) == rc);
    assert(r[0] == '"');
    assert(r.last() == '"');
    lemma_trim_end_skips(r, seq![','], CharPattern::Exactly(','));
    lemma_trim_keeps(r, CharPattern::Exactly(','));
    assert(trim_start_by(rc, CharPattern::Exactly(',')) == rc);
    assert(trim_char(rc, ',') == r);
    lemma_unquote(v, '"');
    lemma_unquote(v, '\'');
}

/// In `package.json`, a line `"name": "v",` (indented by two spaces) right
/// after the opening `{` gives the name `v`, whole, whatever follows.
pub proof fn lemma_package_json_reads_whole_name(v: Seq<char>, rest: Seq<char>)
    requires
        is_plain_value(v),
    ensures
        package_json_name("{\n  \"name\": \""@ + v + "\",\n"@ + rest) == Some(v),
{
    reveal_strlit("{\n  \"name\": \"");
    reveal_strlit("\",\n");
    reveal_strlit("{");
    reveal_strlit("\"name\": \"");
    reveal_strlit("\",");
    reveal_strlit("\"name\"");
    let h = "{"@;
    let line = seq![' ', ' '] + json_name_line(v);
    let nl = seq!['\n'];
    lemma_json_name_line(v);
    assert("{\n  \"name\": \""@ + v + "\",\n"@ + rest =~= h + nl + (line + nl + rest));
    lemma_lines_two(h, line, rest);
    let ls = lines(h + nl + (line + nl + rest));
    lemma_trim_keeps(h, CharPattern::Whitespace);
    assert(ls[0] == h);
    assert(!has_prefix(h, "\"name\""@));
    assert(ls.drop_first() =~= seq![line] + lines(rest));
    assert(ls.drop_first()[0] == line);
    assert(trim(ls[0]) == h);
    assert(package_json_scan(ls.drop_first()) == Some(v));
    assert(package_json_scan(ls) == Some(v));
}

/// The first `.csproj` file's stem, where it has one, is the name, whole.
pub proof fn lemma_csproj_stem_is_name(files: Seq<CsprojFile>)
    requires
        files.len() > 0,
        files[0].file_stem is Some,
    ensures
        csproj_scan(files) == Some(files[0].file_stem->0@),
{
}

/// A manifest that gives no name does not decide the project name: the
/// result is what the other sources give; and a name that any source gives
/// is found, the earlier manifest winning.
pub proof fn lemma_silent_manifest_falls_through(f: ProjectFiles)
    ensures
        f.cargo_toml matches Some(c) ==> (cargo_toml_name(c@) is None ==> config_files_name(f)
            == config_files_name((ProjectFiles { cargo_toml: None, ..f }))),
        f.package_json matches Some(c) ==> (package_json_name(c@) is None ==> config_files_name(f)
            == config_files_name((ProjectFiles { package_json: None, ..f }))),
        f.pyproject_toml matches Some(c) ==> (pyproject_toml_name(c@) is None ==> config_files_name(
            f,
        ) == config_files_name((ProjectFiles { pyproject_toml: None, ..f }))),
        f.pom_xml matches Some(c) ==> (pom_xml_name(c@) is None ==> config_files_name(f)
            == config_files_name((ProjectFiles { pom_xml: None, ..f }))),
        f.cargo_toml matches Some(c) ==> (cargo_toml_name(c@) is Some ==> config_files_name(f)
            == cargo_toml_name(c@)),
        f.package_json matches Some(c) ==> (package_json_name(c@) is Some ==> config_files_name(
            f,
        ) is Some),
        f.pyproject_toml matches Some(c) ==> (pyproject_toml_name(c@) is Some ==> config_files_name(
            f,
        ) is Some),
        f.pom_xml matches Some(c) ==> (pom_xml_name(c@) is Some ==> config_files_name(f) is Some),
        csproj_scan(f.csproj_files@) is Some ==> config_files_name(f) is Some,
        config_files_name(f) is None ==> inferred_name(f) == f.dir_name@,
{
}

/// The manifests are tried in order: the first that gives a name decides;
/// where none of `Cargo.toml`, `package.json`, `pyproject.toml`, `pom.xml`
/// gives one, the `.csproj` files decide.
pub proof fn lemma_manifest_precedence(f: ProjectFiles)
    ensures
        ({
            let cargo_silent = f.cargo_toml matches Some(c) ==> cargo_toml_name(c@) is None;
            let npm_silent = f.package_json matches Some(c) ==> package_json_name(c@) is None;
            let python_silent = f.pyproject_toml matches Some(c) ==> pyproject_toml_name(c@) is None;
            let maven_silent = f.pom_xml matches Some(c) ==> pom_xml_name(c@) is None;
            &&& cargo_silent ==> (f.package_json matches Some(c) ==> (package_json_name(c@) is Some
                ==> config_files_name(f) == package_json_name(c@)))
            &&& cargo_silent && npm_silent ==> (f.pyproject_toml matches Some(c) ==> (
            pyproject_toml_name(c@) is Some ==> config_files_name(f) == pyproject_toml_name(c@)))
            &&& cargo_silent && npm_silent && python_silent ==> (f.pom_xml matches Some(c) ==> (
            pom_xml_name(c@) is Some ==> config_files_name(f) == pom_xml_name(c@)))
            &&& cargo_silent && npm_silent && python_silent && maven_silent ==> config_files_name(f)
                == csproj_scan(f.csproj_files@)
        }),
{
}

/// A `.csproj` file without a stem whose text names nothing does not decide:
/// the remaining files do.
pub proof fn lemma_csproj_silent_file_falls_through(files: Seq<CsprojFile>)
    requires
        files.len() > 0,
        files[0].file_stem is None,
    ensures
        csproj_xml_name(files[0].content@) is None ==> csproj_scan(files) == csproj_scan(
            files.drop_first(),
        ),
        csproj_xml_name(files[0].content@) is Some ==> csproj_scan(files) == csproj_xml_name(
            files[0].content@,
        ),
{
}

// ---------------------------------------------------------------------------
// Lines that do not count
// ---------------------------------------------------------------------------

/// A line without line breaks, ended by `'\n'`, is the first line.
proof fn lemma_lines_cons(l: Seq<char>, rest: Seq<char>)
    requires
        forall|i: int| 0 <= i < l.len() ==> l[i] != '\n',
        l.len() == 0 || l.last() != '\r',
    ensures
        lines(l + "\n"@ + rest) == seq![l] + lines(rest),
{
    reveal_strlit("\n");
    assert("\n"@ =~= seq!['\n']);
    crate::text::lemma_lines_one(l);
    lemma_lines_append(l + seq!['\n'], rest);
}

/// Before any `[package]` header, a line other than `[package]` does not
/// count in `Cargo.toml`, whatever it says.
pub proof fn lemma_cargo_skips_lines_outside_package(l: Seq<char>, rest: Seq<char>)
    requires
        forall|i: int| 0 <= i < l.len() ==> l[i] != '\n',
        l.len() == 0 || l.last() != '\r',
        trim(l) != "[package]"@,
    ensures
        cargo_toml_name(l + "\n"@ + rest) == cargo_toml_name(rest),
{
    lemma_lines_cons(l, rest);
    let ls = lines(l + "\n"@ + rest);
    assert(ls[0] == l);
    assert(ls.drop_first() =~= lines(rest));
}

/// A section header right after `[package]` closes it: nothing that the
/// `[package]` line opened counts.
pub proof fn lemma_cargo_package_ends_at_next_section(l: Seq<char>, rest: Seq<char>)
    requires
        forall|i: int| 0 <= i < l.len() ==> l[i] != '\n',
        l.len() == 0 || l.last() != '\r',
        opens_section(trim(l)),
        trim(l) != "[package]"@,
    ensures
        cargo_toml_name("[package]\n"@ + l + "\n"@ + rest) == cargo_toml_name(rest),
{
    reveal_strlit("[package]\n");
    reveal_strlit("[package]");
    let h = "[package]"@;
    assert("[package]\n"@ =~= h + "\n"@) by {
        reveal_strlit("\n");
    }
    assert(forall|i: int| 0 <= i < h.len() ==> h[i] != '\n');
    lemma_lines_cons(l, rest);
    lemma_lines_cons(h, l + "\n"@ + rest);
    assert("[package]\n"@ + l + "\n"@ + rest =~= h + "\n"@ + (l + "\n"@ + rest));
    let ls = lines(h + "\n"@ + (l + "\n"@ + rest));
    assert(ls =~= seq![h, l] + lines(rest));
    assert(h[0] == '[' && h.last() == ']');
    lemma_trim_keeps(h, CharPattern::Whitespace);
    assert(ls[0] == h);
    assert(ls.drop_first() =~= seq![l] + lines(rest));
    assert(ls.drop_first()[0] == l);
    assert((seq![l] + lines(rest)).drop_first() =~= lines(rest));
    assert(cargo_scan(ls.drop_first(), true) == cargo_scan(lines(rest), false));
}

/// Outside `[project]` and `[tool.poetry]`, a line other than those headers
/// does not count in `pyproject.toml`.
pub proof fn lemma_pyproject_skips_lines_outside_sections(l: Seq<char>, rest: Seq<char>)
    requires
        forall|i: int| 0 <= i < l.len() ==> l[i] != '\n',
        l.len() == 0 || l.last() != '\r',
        trim(l) != "[project]"@,
        trim(l) != "[tool.poetry]"@,
    ensures
        pyproject_toml_name(l + "\n"@ + rest) == pyproject_toml_name(rest),
{
    lemma_lines_cons(l, rest);
    let ls = lines(l + "\n"@ + rest);
    assert(ls[0] == l);
    assert(ls.drop_first() =~= lines(rest));
}

/// In `package.json` a line that does not begin with `"name"` does not count.
pub proof fn lemma_package_json_skips_other_lines(l: Seq<char>, rest: Seq<char>)
    requires
        forall|i: int| 0 <= i < l.len() ==> l[i] != '\n',
        l.len() == 0 || l.last() != '\r',
        !has_prefix(trim(l), "\"name\""@),
    ensures
        package_json_name(l + "\n"@ + rest) == package_json_name(rest),
{
    lemma_lines_cons(l, rest);
    let ls = lines(l + "\n"@ + rest);
    assert(ls[0] == l);
    assert(ls.drop_first() =~= lines(rest));
}

// ---------------------------------------------------------------------------
// One-line XML elements are read whole
// ---------------------------------------------------------------------------

/// Text that can stand between an opening and a closing tag: non-empty, on
/// one line, neither beginning with `<` nor ending with `>`.
pub open spec fn is_element_text(v: Seq<char>) -> bool {
    &&& v.len() > 0
    &&& v[0] != '<'
    &&& v.last() != '>'
    &&& forall|i: int| 0 <= i < v.len() ==> v[i] != '\n'
}

/// `open v close` has the text `v`.
proof fn lemma_element_text(open: Seq<char>, close: Seq<char>, v: Seq<char>)
    requires
        open.len() > 0,
        close.len() > 0,
        v.len() > 0,
        v[0] != open[0],
        v.last() != close.last(),
    ensures
        xml_element_text(open + v + close, open, close) == Some(v),
{
    let s = open + v + close;
    assert(s.subrange(0, open.len() as int) =~= open);
    assert(s.subrange(s.len() - close.len(), s.len() as int) =~= close);
    let t = s.skip(open.len() as int);
    assert(t =~= v + close);
    assert(t.len() >= open.len() ==> t.subrange(0, open.len() as int)[0] == v[0]);
    assert(!has_prefix(t, open));
    assert(strip_prefix_all(t, open) == t);
    assert(has_prefix(s, open));
    assert(strip_prefix_all(s, open) == strip_prefix_all(s.skip(open.len() as int), open));
    assert(strip_prefix_all(s, open) == t);
    assert(t.take(t.len() - close.len()) =~= v);
    assert(v.len() >= close.len() ==> v.subrange(v.len() - close.len(), v.len() as int)[close.len()
        - 1] == v.last());
    assert(!has_suffix(v, close));
    assert(strip_suffix_all(v, close) == v);
    assert(t.subrange(t.len() - close.len(), t.len() as int) =~= close);
    assert(has_suffix(t, close));
    assert(strip_suffix_all(t, close) == strip_suffix_all(t.take(t.len() - close.len()), close));
    assert(strip_suffix_all(t, close) == v);
}

/// The one-line element `open v close`, ended by `'\n'`, as the first line.
proof fn lemma_xml_first_element(
    v: Seq<char>,
    rest: Seq<char>,
    open: Seq<char>,
    close: Seq<char>,
    o1: Seq<char>,
    c1: Seq<char>,
    o2: Seq<char>,
    c2: Seq<char>,
)
    requires
        is_element_text(v),
        open.len() > 0 && open[0] == '<',
        close.len() > 0 && close.last() == '>',
        forall|i: int| 0 <= i < open.len() ==> open[i] != '\n',
        forall|i: int| 0 <= i < close.len() ==> close[i] != '\n',
        (open == o1 && close == c1) || (open == o2 && close == c2 && !has_prefix(
            open + v + close,
            o1,
        )),
    ensures
        xml_scan(lines(open + v + close + "\n"@ + rest), o1, c1, o2, c2) == Some(v),
{
    let line = open + v + close;
    assert forall|i: int| 0 <= i < line.len() implies line[i] != '\n' by {
        if i < open.len() {
            assert(line[i] == open[i]);
        } else if i < open.len() + v.len() {
            assert(line[i] == v[i - open.len()]);
        } else {
            assert(line[i] == close[i - open.len() - v.len()]);
        }
    }
    assert(line.last() == close.last());
    assert(line[0] == open[0]);
    lemma_lines_cons(line, rest);
    lemma_trim_keeps(line, CharPattern::Whitespace);
    lemma_element_text(open, close, v);
    let ls = lines(line + "\n"@ + rest);
    assert(ls[0] == line);
}

/// In `pom.xml` a first line `<name>v</name>` or `<artifactId>v</artifactId>`
/// gives the name `v`, whole, whatever follows.
pub proof fn lemma_pom_reads_whole_name(v: Seq<char>, rest: Seq<char>)
    requires
        is_element_text(v),
    ensures
        pom_xml_name("<name>"@ + v + "</name>\n"@ + rest) == Some(v),
        pom_xml_name("<artifactId>"@ + v + "</artifactId>\n"@ + rest) == Some(v),
{
    reveal_strlit("<name>");
    reveal_strlit("</name>");
    reveal_strlit("</name>\n");
    reveal_strlit("<artifactId>");
    reveal_strlit("</artifactId>");
    reveal_strlit("</artifactId>\n");
    reveal_strlit("\n");
    let (o1, c1, o2, c2) = ("<name>"@, "</name>"@, "<artifactId>"@, "</artifactId>"@);
    assert("<name>"@ + v + "</name>\n"@ + rest =~= o1 + v + c1 + "\n"@ + rest);
    assert("<artifactId>"@ + v + "</artifactId>\n"@ + rest =~= o2 + v + c2 + "\n"@ + rest);
    lemma_xml_first_element(v, rest, o1, c1, o1, c1, o2, c2);
    assert((o2 + v + c2).subrange(0, o1.len() as int)[1] != o1[1]);
    lemma_xml_first_element(v, rest, o2, c2, o1, c1, o2, c2);
}

/// In `.csproj` text a first line `<AssemblyName>v</AssemblyName>` or
/// `<PackageId>v</PackageId>` gives the name `v`, whole, whatever follows.
pub proof fn lemma_csproj_xml_reads_whole_name(v: Seq<char>, rest: Seq<char>)
    requires
        is_element_text(v),
    ensures
        csproj_xml_name("<AssemblyName>"@ + v + "</AssemblyName>\n"@ + rest) == Some(v),
        csproj_xml_name("<PackageId>"@ + v + "</PackageId>\n"@ + rest) == Some(v),
{
    reveal_strlit("<AssemblyName>");
    reveal_strlit("</AssemblyName>");
    reveal_strlit("</AssemblyName>\n");
    reveal_strlit("<PackageId>");
    reveal_strlit("</PackageId>");
    reveal_strlit("</PackageId>\n");
    reveal_strlit("\n");
    let (o1, c1, o2, c2) = ("<AssemblyName>"@, "</AssemblyName>"@, "<PackageId>"@, "</PackageId>"@);
    assert("<AssemblyName>"@ + v + "</AssemblyName>\n"@ + rest =~= o1 + v + c1 + "\n"@ + rest);
    assert("<PackageId>"@ + v + "</PackageId>\n"@ + rest =~= o2 + v + c2 + "\n"@ + rest);
    lemma_xml_first_element(v, rest, o1, c1, o1, c1, o2, c2);
    assert((o2 + v + c2).subrange(0, o1.len() as int)[1] != o1[1]);
    lemma_xml_first_element(v, rest, o2, c2, o1, c1, o2, c2);
}

/// In `pom.xml` a line that holds neither element does not count.
pub proof fn lemma_pom_skips_other_lines(l: Seq<char>, rest: Seq<char>)
    requires
        forall|i: int| 0 <= i < l.len() ==> l[i] != '\n',
        l.len() == 0 || l.last() != '\r',
        !has_prefix(trim(l), "<name>"@),
        !has_prefix(trim(l), "<artifactId>"@),
    ensures
        pom_xml_name(l + "\n"@ + rest) == pom_xml_name(rest),
{
    lemma_lines_cons(l, rest);
    let ls = lines(l + "\n"@ + rest);
    assert(ls[0] == l);
    assert(ls.drop_first() =~= lines(rest));
}

// ---------------------------------------------------------------------------
// Implementation
// ---------------------------------------------------------------------------

/// The range of `s` that holds `toml_string_value(s[lo..hi])`.
fn toml_value_range(s: &Vec<char>, lo: usize, hi: usize) -> (r: Option<(usize, usize)>)
    requires
        lo <= hi <= s.len(),
    ensures
        match r {
            Some((x, y)) => lo <= x <= y <= hi && toml_string_value(
                s@.subrange(lo as int, hi as int),
            ) == Some(s@.subrange(x as int, y as int)),
            None => toml_string_value(s@.subrange(lo as int, hi as int)) is None,
        },
{
    match split_second_range(s, lo, hi, '=') {
        None => None,
        Some((u, v)) => {
            let (a, b) = trim_range(s, u, v, CharPattern::Whitespace);
            let (a, b) = trim_range(s, a, b, CharPattern::Exactly('"'));
            let (a, b) = trim_range(s, a, b, CharPattern::Exactly('\''));
            if a < b {
                Some((a, b))
            } else {
                None
            }
        },
    }
}

/// The range of `s` that holds `json_string_value(s[lo..hi])`.
fn json_value_range(s: &Vec<char>, lo: usize, hi: usize) -> (r: Option<(usize, usize)>)
    requires
        lo <= hi <= s.len(),
    ensures
        match r {
            Some((x, y)) => lo <= x <= y <= hi && json_string_value(
                s@.subrange(lo as int, hi as int),
            ) == Some(s@.subrange(x as int, y as int)),
            None => json_string_value(s@.subrange(lo as int, hi as int)) is None,
        },
{
    match split_second_range(s, lo, hi, ':') {
        None => None,
        Some((u, v)) => {
            let (a, b) = trim_range(s, u, v, CharPattern::Whitespace);
            let (a, b) = trim_range(s, a, b, CharPattern::Exactly(','));
            let (a, b) = trim_range(s, a, b, CharPattern::Exactly('"'));
            let (a, b) = trim_range(s, a, b, CharPattern::Exactly('\''));
            if a < b {
                Some((a, b))
            } else {
                None
            }
        },
    }
}

/// The range of `s` that holds `xml_element_text(s[lo..hi], open, close)`.
fn xml_element_range(s: &Vec<char>, lo: usize, hi: usize, open: &Vec<char>, close: &Vec<char>) -> (r:
    Option<(usize, usize)>)
    requires
        lo <= hi <= s.len(),
    ensures
        match r {
            Some((x, y)) => lo <= x <= y <= hi && xml_element_text(
                s@.subrange(lo as int, hi as int),
                open@,
                close@,
            ) == Some(s@.subrange(x as int, y as int)),
            None => xml_element_text(s@.subrange(lo as int, hi as int), open@, close@) is None,
        },
{
    if starts_with_range(s, lo, hi, open) && ends_with_range(s, lo, hi, close) {
        let a = strip_prefix_all_range(s, lo, hi, open);
        let b = strip_suffix_all_range(s, a, hi, close);
        if a < b {
            Some((a, b))
        } else {
            None
        }
    } else {
        None
    }
}

/// The string that `content[x..y]` holds.
fn piece(content: &str, x: usize, y: usize) -> (r: String)
    requires
        x <= y <= content@.len(),
    ensures
        r@ == content@.subrange(x as int, y as int),
{
    String::from_str(content.substring_char(x, y))
}

/// The package name in the `[package]` section of `Cargo.toml` text.
pub fn extract_from_cargo_toml(content: &str) -> (r: Option<String>)
    ensures
        option_view(r) == cargo_toml_name(content@),
        r matches Some(n) ==> n@.len() > 0 && occurs_in(n@, content@),
{
    let s = chars_of(content);
    let package = chars_of("[package]");
    let name = chars_of("name");
    let mut pos: usize = 0;
    let mut in_package = false;
    assert(s@.skip(0) =~= s@);
    while pos < s.len()
        invariant
            pos <= s.len(),
            s@ == content@,
            package@ == "[package]"@,
            name@ == "name"@,
            cargo_scan(lines(s@.skip(pos as int)), in_package) == cargo_toml_name(content@),
        decreases s.len() - pos,
    {
        let (end, next) = next_line(&s, pos);
        let ghost ls = lines(s@.skip(pos as int));
        assert(ls[0] == s@.subrange(pos as int, end as int));
        assert(ls.drop_first() =~= lines(s@.skip(next as int)));
        let (a, b) = trim_range(&s, pos, end, CharPattern::Whitespace);
        if equals_range(&s, a, b, &package) {
            in_package = true;
        } else if a < b && s[a] == '[' && in_package {
            in_package = false;
        } else if in_package && starts_with_range(&s, a, b, &name) && contains_range(
            &s,
            a,
            b,
            '=',
        ) {
            if let Some((x, y)) = toml_value_range(&s, a, b) {
                return Some(piece(content, x, y));
            }
        }
        pos = next;
    }
    assert(s@.skip(pos as int) =~= Seq::<char>::empty());
    None
}


/// The package name that `package.json` text gives, read line by line.
pub fn extract_from_package_json(content: &str) -> (r: Option<String>)
    ensures
        option_view(r) == package_json_name(content@),
        r matches Some(n) ==> n@.len() > 0 && occurs_in(n@, content@),
{
    let s = chars_of(content);
    let key = chars_of("\"name\"");
    let mut pos: usize = 0;
    assert(s@.skip(0) =~= s@);
    while pos < s.len()
        invariant
            pos <= s.len(),
            s@ == content@,
            key@ == "\"name\""@,
            package_json_scan(lines(s@.skip(pos as int))) == package_json_name(content@),
        decreases s.len() - pos,
    {
        let (end, next) = next_line(&s, pos);
        let ghost ls = lines(s@.skip(pos as int));
        assert(ls[0] == s@.subrange(pos as int, end as int));
        assert(ls.drop_first() =~= lines(s@.skip(next as int)));
        let (a, b) = trim_range(&s, pos, end, CharPattern::Whitespace);
        if starts_with_range(&s, a, b, &key) && contains_range(&s, a, b, ':') {
            if let Some((x, y)) = json_value_range(&s, a, b) {
                return Some(piece(content, x, y));
            }
        }
        pos = next;
    }
    assert(s@.skip(pos as int) =~= Seq::<char>::empty());
    None
}

/// The project name in the `[project]` or `[tool.poetry]` section of
/// `pyproject.toml` text.
pub fn extract_from_pyproject_toml(content: &str) -> (r: Option<String>)
    ensures
        option_view(r) == pyproject_toml_name(content@),
        r matches Some(n) ==> n@.len() > 0 && occurs_in(n@, content@),
{
    let s = chars_of(content);
    let project = chars_of("[project]");
    let poetry = chars_of("[tool.poetry]");
    let name = chars_of("name");
    let mut pos: usize = 0;
    let mut in_project = false;
    let mut in_poetry = false;
    assert(s@.skip(0) =~= s@);
    while pos < s.len()
        invariant
            pos <= s.len(),
            s@ == content@,
            project@ == "[project]"@,
            poetry@ == "[tool.poetry]"@,
            name@ == "name"@,
            pyproject_scan(lines(s@.skip(pos as int)), in_project, in_poetry)
                == pyproject_toml_name(content@),
        decreases s.len() - pos,
    {
        let (end, next) = next_line(&s, pos);
        let ghost ls = lines(s@.skip(pos as int));
        assert(ls[0] == s@.subrange(pos as int, end as int));
        assert(ls.drop_first() =~= lines(s@.skip(next as int)));
        let (a, b) = trim_range(&s, pos, end, CharPattern::Whitespace);
        if equals_range(&s, a, b, &project) {
            in_project = true;
            in_poetry = false;
        } else if equals_range(&s, a, b, &poetry) {
            in_poetry = true;
            in_project = false;
        } else if a < b && s[a] == '[' && (in_project || in_poetry) {
            in_project = false;
            in_poetry = false;
        } else if (in_project || in_poetry) && starts_with_range(&s, a, b, &name)
            && contains_range(&s, a, b, '=') {
            if let Some((x, y)) = toml_value_range(&s, a, b) {
                return Some(piece(content, x, y));
            }
        }
        pos = next;
    }
    assert(s@.skip(pos as int) =~= Seq::<char>::empty());
    None
}

/// The text of the first one-line `open1 ... close1` element, or else
/// `open2 ... close2` element, with non-empty text, line by line.
fn first_xml_element(content: &str, open1: &str, close1: &str, open2: &str, close2: &str) -> (r:
    Option<String>)
    ensures
        option_view(r) == xml_scan(lines(content@), open1@, close1@, open2@, close2@),
        r matches Some(n) ==> n@.len() > 0 && occurs_in(n@, content@),
{
    let s = chars_of(content);
    let o1 = chars_of(open1);
    let c1 = chars_of(close1);
    let o2 = chars_of(open2);
    let c2 = chars_of(close2);
    let mut pos: usize = 0;
    assert(s@.skip(0) =~= s@);
    while pos < s.len()
        invariant
            pos <= s.len(),
            s@ == content@,
            o1@ == open1@,
            c1@ == close1@,
            o2@ == open2@,
            c2@ == close2@,
            xml_scan(lines(s@.skip(pos as int)), open1@, close1@, open2@, close2@) == xml_scan(
                lines(content@),
                open1@,
                close1@,
                open2@,
                close2@,
            ),
        decreases s.len() - pos,
    {
        let (end, next) = next_line(&s, pos);
        let ghost ls = lines(s@.skip(pos as int));
        assert(ls[0] == s@.subrange(pos as int, end as int));
        assert(ls.drop_first() =~= lines(s@.skip(next as int)));
        let (a, b) = trim_range(&s, pos, end, CharPattern::Whitespace);
        if let Some((x, y)) = xml_element_range(&s, a, b, &o1, &c1) {
            return Some(piece(content, x, y));
        }
        if let Some((x, y)) = xml_element_range(&s, a, b, &o2, &c2) {
            return Some(piece(content, x, y));
        }
        pos = next;
    }
    assert(s@.skip(pos as int) =~= Seq::<char>::empty());
    None
}

/// The project name in `pom.xml` text: a `<name>` line, else an
/// `<artifactId>` line, whichever comes first.
pub fn extract_from_pom_xml(content: &str) -> (r: Option<String>)
    ensures
        option_view(r) == pom_xml_name(content@),
        r matches Some(n) ==> n@.len() > 0 && occurs_in(n@, content@),
{
    first_xml_element(content, "<name>", "</name>", "<artifactId>", "</artifactId>")
}

/// The project name in `.csproj` text: an `<AssemblyName>` line, else a
/// `<PackageId>` line, whichever comes first.
pub fn extract_from_csproj_xml(content: &str) -> (r: Option<String>)
    ensures
        option_view(r) == csproj_xml_name(content@),
        r matches Some(n) ==> n@.len() > 0 && occurs_in(n@, content@),
{
    first_xml_element(
        content,
        "<AssemblyName>",
        "</AssemblyName>",
        "<PackageId>",
        "</PackageId>",
    )
}

/// The project name that the `.csproj` files give.
pub fn extract_from_csproj(files: &Vec<CsprojFile>) -> (r: Option<String>)
    ensures
        option_view(r) == csproj_scan(files@),
        files@.len() > 0 && files@[0].file_stem is Some ==> r == files@[0].file_stem,
{
    let mut i: usize = 0;
    assert(files@.skip(0) =~= files@);
    while i < files.len()
        invariant
            i <= files.len(),
            csproj_scan(files@.skip(i as int)) == csproj_scan(files@),
            i > 0 ==> files@[0].file_stem is None,
        decreases files.len() - i,
    {
        let file = &files[i];
        assert(files@.skip(i as int)[0] == files@[i as int]);
        assert(files@.skip(i as int).drop_first() =~= files@.skip(i + 1));
        match &file.file_stem {
            Some(stem) => {
                return Some(stem.clone());
            },
            None => {
                let found = extract_from_csproj_xml(file.content.as_str());
                if found.is_some() {
                    return found;
                }
            },
        }
        i = i + 1;
    }
    assert(files@.skip(i as int) =~= Seq::<CsprojFile>::empty());
    None
}

/// The project name that the manifests give, in order of precedence:
/// `Cargo.toml`, `package.json`, `pyproject.toml`, `pom.xml`, `.csproj`.
pub fn extract_project_name_from_config_files(files: &ProjectFiles) -> (r: Option<String>)
    ensures
        option_view(r) == config_files_name(*files),
{
    if let Some(c) = &files.cargo_toml {
        let n = extract_from_cargo_toml(c.as_str());
        if n.is_some() {
            return n;
        }
    }
    if let Some(c) = &files.package_json {
        let n = extract_from_package_json(c.as_str());
        if n.is_some() {
            return n;
        }
    }
    if let Some(c) = &files.pyproject_toml {
        let n = extract_from_pyproject_toml(c.as_str());
        if n.is_some() {
            return n;
        }
    }
    if let Some(c) = &files.pom_xml {
        let n = extract_from_pom_xml(c.as_str());
        if n.is_some() {
            return n;
        }
    }
    extract_from_csproj(&files.csproj_files)
}

/// The project name that the manifests give, else the directory's name.
pub fn infer_project_name(files: &ProjectFiles) -> (r: String)
    ensures
        r@ == inferred_name(*files),
{
    match extract_project_name_from_config_files(files) {
        Some(n) => n,
        None => files.dir_name.clone(),
    }
}

/// Whether `s` holds nothing but whitespace.
pub fn is_blank(s: &str) -> (b: bool)
    ensures
        b == (trim(s@).len() == 0),
{
    let v = chars_of(s);
    let (a, b) = trim_range(&v, 0, v.len(), CharPattern::Whitespace);
    assert(v@.subrange(0, v@.len() as int) =~= v@);
    a == b
}

/// The project name: the configured one, unchanged, where it is not blank;
/// else the inferred one.
pub fn get_project_name(configured: &Option<String>, files: &ProjectFiles) -> (r: String)
    ensures
        r@ == project_name(*configured, *files),
        *configured matches Some(n) ==> (trim(n@).len() > 0 ==> r@ == n@),
{
    if let Some(name) = configured {
        if !is_blank(name.as_str()) {
            return name.clone();
        }
    }
    infer_project_name(files)
}

} // verus!
