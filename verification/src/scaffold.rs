//! Project scaffolding: the skeleton files, build and run scripts and
//! `.gitignore` that `create_project` writes for each language.

use vstd::prelude::*;
use crate::paths::{excluded_dirs, is_ascii_alnum, join_path, push_path};
use crate::text::{
    alphanumeric, ascii_lower, ascii_upper_char, chars_of, is_alphanumeric, is_ascii_text, lowercase, lowercase_of, non_empty,
    non_empty_parts, push_chars, push_str, replace_all, replace_chars, str_eq, string_of,
    to_uppercase, uppercase_of,
};

verus! {

// ── language helpers ────────────────────────────────────────────────────────

/// The Java package identifier of a project: its lower-cased name with
/// every non-alphanumeric character dropped.
pub open spec fn pkg_id_of(name: Seq<char>) -> Seq<char> {
    lowercase_of(name).filter(|c: char| alphanumeric(c))
}

/// The Java package identifier of a project name.
pub fn java_pkg_id(name: &str) -> (r: String)
    ensures
        r@ == pkg_id_of(name@),
        is_ascii_text(name@) ==> r@ == pkg_id_ascii(name@),
{
    let lower = lowercase(name);
    let s = chars_of(lower.as_str());
    let mut out: Vec<char> = Vec::new();
    let mut i: usize = 0;
    assert(s@.take(0) =~= Seq::<char>::empty());
    reveal_with_fuel(Seq::<_>::filter, 1);
    proof {
        if is_ascii_text(name@) {
            crate::text::law_ascii_lower_is_idempotent(name@);
        }
    }
    while i < s.len()
        invariant
            i <= s.len(),
            s@ == lowercase_of(name@),
            is_ascii_text(name@) ==> s@ == ascii_lower(name@) && is_ascii_text(s@),
            is_ascii_text(name@) ==> out@ == s@.take(i as int).filter(|c: char| is_ascii_alnum(c)),
            out@ == s@.take(i as int).filter(|c: char| alphanumeric(c)),
        decreases s.len() - i,
    {
        assert(s@.take(i + 1).drop_last() =~= s@.take(i as int));
        assert(s@.take(i + 1).last() == s@[i as int]);
        reveal_with_fuel(Seq::<_>::filter, 1);
        if is_alphanumeric(s[i]) {
            out.push(s[i]);
        }
        i = i + 1;
    }
    assert(s@.take(s.len() as int) =~= s@);
    string_of(&out)
}

/// The pieces of `s` between non-alphanumeric characters (empty pieces
/// included).
pub open spec fn alnum_pieces(s: Seq<char>) -> Seq<Seq<char>>
    decreases s.len(),
{
    if s.len() == 0 {
        seq![Seq::<char>::empty()]
    } else if !alphanumeric(s.last()) {
        alnum_pieces(s.drop_last()).push(Seq::<char>::empty())
    } else {
        let r = alnum_pieces(s.drop_last());
        r.update(r.len() - 1, r.last().push(s.last()))
    }
}

/// A word with its first character upper-cased.
pub open spec fn capitalized(w: Seq<char>) -> Seq<char> {
    if w.len() == 0 {
        w
    } else {
        uppercase_of(w[0]) + w.drop_first()
    }
}

/// The words, each capitalised, run together.
pub open spec fn concat_capitalized(words: Seq<Seq<char>>) -> Seq<char>
    decreases words.len(),
{
    if words.len() == 0 {
        Seq::empty()
    } else {
        concat_capitalized(words.drop_last()) + capitalized(words.last())
    }
}

/// The Java class name of a project: the alphanumeric runs of its name,
/// each capitalised, run together ("my-app" → "MyApp").
pub open spec fn class_name_of(name: Seq<char>) -> Seq<char> {
    concat_capitalized(non_empty(alnum_pieces(name)))
}

/// `pkg_id_of` for an ASCII name: lower-cased letter by letter, keeping
/// letters and digits.
pub open spec fn pkg_id_ascii(name: Seq<char>) -> Seq<char> {
    ascii_lower(name).filter(|c: char| is_ascii_alnum(c))
}

/// `alnum_pieces` for ASCII text: the pieces between characters other than
/// letters and digits.
pub open spec fn ascii_pieces(s: Seq<char>) -> Seq<Seq<char>>
    decreases s.len(),
{
    if s.len() == 0 {
        seq![Seq::<char>::empty()]
    } else if !is_ascii_alnum(s.last()) {
        ascii_pieces(s.drop_last()).push(Seq::<char>::empty())
    } else {
        let r = ascii_pieces(s.drop_last());
        r.update(r.len() - 1, r.last().push(s.last()))
    }
}

/// The words, each with its first letter upper-cased ASCII-wise, run
/// together.
pub open spec fn concat_ascii_capitalized(words: Seq<Seq<char>>) -> Seq<char>
    decreases words.len(),
{
    if words.len() == 0 {
        Seq::empty()
    } else {
        let w = words.last();
        concat_ascii_capitalized(words.drop_last()) + (if w.len() == 0 {
            w
        } else {
            seq![ascii_upper_char(w[0])] + w.drop_first()
        })
    }
}

/// `class_name_of` for an ASCII name ("my-app" → "MyApp").
pub open spec fn class_name_ascii(name: Seq<char>) -> Seq<char> {
    concat_ascii_capitalized(non_empty(ascii_pieces(name)))
}

/// Where the two letter-or-digit tests agree on every character, the pieces
/// agree too.
proof fn lemma_pieces_agree(s: Seq<char>)
    requires
        forall|i: int| 0 <= i < s.len() ==> alphanumeric(#[trigger] s[i]) == is_ascii_alnum(s[i]),
    ensures
        alnum_pieces(s) == ascii_pieces(s),
    decreases s.len(),
{
    if s.len() > 0 {
        let t = s.drop_last();
        assert forall|i: int| 0 <= i < t.len() implies alphanumeric(#[trigger] t[i]) == is_ascii_alnum(t[i]) by {
            assert(t[i] == s[i]);
        }
        lemma_pieces_agree(t);
        assert(alphanumeric(s[s.len() - 1]) == is_ascii_alnum(s[s.len() - 1]));
    }
}

/// The pieces of ASCII text are ASCII.
proof fn lemma_pieces_ascii(s: Seq<char>)
    requires
        is_ascii_text(s),
    ensures
        forall|k: int| 0 <= k < alnum_pieces(s).len() ==> is_ascii_text(#[trigger] alnum_pieces(s)[k]),
    decreases s.len(),
{
    if s.len() > 0 {
        let t = s.drop_last();
        assert forall|i: int| 0 <= i < t.len() implies (#[trigger] t[i] as u32) < 128 by {
            assert(t[i] == s[i]);
        }
        lemma_pieces_ascii(t);
        lemma_alnum_pieces_nonempty(t);
        let r = alnum_pieces(t);
        let q = alnum_pieces(s);
        assert((s[s.len() - 1] as u32) < 128);
        assert forall|k: int| 0 <= k < q.len() implies is_ascii_text(#[trigger] q[k]) by {
            if alphanumeric(s.last()) && k == r.len() - 1 {
                assert(is_ascii_text(r[k]));
                assert forall|i: int| 0 <= i < q[k].len() implies (#[trigger] q[k][i] as u32) < 128 by {
                    if i < r[k].len() {
                        assert(q[k][i] == r[k][i]);
                    }
                }
            } else if k < r.len() {
                assert(q[k] == r[k]);
            }
        }
    }
}

proof fn lemma_alnum_pieces_nonempty(s: Seq<char>)
    ensures
        alnum_pieces(s).len() >= 1,
    decreases s.len(),
{
    if s.len() > 0 {
        lemma_alnum_pieces_nonempty(s.drop_last());
    }
}

fn alnum_pieces_exec(s: &Vec<char>) -> (r: Vec<Vec<char>>)
    ensures
        r@.map_values(|p: Vec<char>| p@) == alnum_pieces(s@),
        is_ascii_text(s@) ==> alnum_pieces(s@) == ascii_pieces(s@),
{
    let mut done: Vec<Vec<char>> = Vec::new();
    let mut cur: Vec<char> = Vec::new();
    let mut i: usize = 0;
    assert(s@.take(0) =~= Seq::<char>::empty());
    while i < s.len()
        invariant
            i <= s.len(),
            done@.len() + 1 == alnum_pieces(s@.take(i as int)).len(),
            forall|k: int|
                0 <= k < done@.len() ==> #[trigger] done@[k]@ == alnum_pieces(s@.take(i as int))[k],
            cur@ == alnum_pieces(s@.take(i as int)).last(),
            is_ascii_text(s@) ==> forall|k: int|
                0 <= k < i ==> alphanumeric(#[trigger] s@[k]) == is_ascii_alnum(s@[k]),
        decreases s.len() - i,
    {
        let c = s[i];
        proof {
            lemma_alnum_pieces_nonempty(s@.take(i as int));
        }
        assert(s@.take(i + 1).drop_last() =~= s@.take(i as int));
        assert(s@.take(i + 1).last() == c);
        if !is_alphanumeric(c) {
            done.push(cur);
            cur = Vec::new();
        } else {
            cur.push(c);
        }
        i = i + 1;
    }
    assert(s@.take(s.len() as int) =~= s@);
    done.push(cur);
    assert(done@.map_values(|p: Vec<char>| p@) =~= alnum_pieces(s@));
    proof {
        if is_ascii_text(s@) {
            lemma_pieces_agree(s@);
        }
    }
    done
}

/// The Java class name of a project name.
pub fn to_class_name(name: &str) -> (r: String)
    ensures
        r@ == class_name_of(name@),
        is_ascii_text(name@) ==> r@ == class_name_ascii(name@),
{
    let s = chars_of(name);
    let pieces = alnum_pieces_exec(&s);
    let words = non_empty_parts(&pieces);
    let ghost ws = non_empty(alnum_pieces(s@));
    assert(words@.map_values(|p: Vec<char>| p@) =~= ws);
    proof {
        if is_ascii_text(name@) {
            lemma_pieces_ascii(s@);
            crate::text::lemma_non_empty_from(alnum_pieces(s@));
            assert forall|k: int| 0 <= k < ws.len() implies is_ascii_text(#[trigger] ws[k]) by {
                let j = choose|j: int| 0 <= j < alnum_pieces(s@).len() && alnum_pieces(s@)[j] == ws[k];
                assert(is_ascii_text(alnum_pieces(s@)[j]));
            }
        }
    }
    let mut out: Vec<char> = Vec::new();
    let mut i: usize = 0;
    assert(ws.take(0) =~= Seq::<Seq<char>>::empty());
    while i < words.len()
        invariant
            i <= words.len(),
            words@.len() == ws.len(),
            forall|k: int| 0 <= k < words@.len() ==> #[trigger] words@[k]@ == ws[k],
            out@ == concat_capitalized(ws.take(i as int)),
            is_ascii_text(name@) ==> out@ == concat_ascii_capitalized(ws.take(i as int)),
            is_ascii_text(name@) ==> forall|k: int| 0 <= k < ws.len() ==> is_ascii_text(#[trigger] ws[k]),
        decreases words.len() - i,
    {
        assert(ws.take(i + 1).drop_last() =~= ws.take(i as int));
        assert(ws.take(i + 1).last() == words@[i as int]@);
        let w = &words[i];
        if w.len() > 0 {
            let up = to_uppercase(w[0]);
            proof {
                if is_ascii_text(name@) {
                    assert(is_ascii_text(ws[i as int]));
                    assert((w@[0] as u32) < 128);
                }
            }
            push_chars(&mut out, &up);
            let mut j: usize = 1;
            let ghost before = out@;
            while j < w.len()
                invariant
                    1 <= j <= w.len(),
                    out@ == before + w@.subrange(1, j as int),
                decreases w.len() - j,
            {
                out.push(w[j]);
                j = j + 1;
                assert(out@ =~= before + w@.subrange(1, j as int));
            }
            assert(w@.subrange(1, w.len() as int) =~= w@.drop_first());
        }
        i = i + 1;
    }
    assert(ws.take(words.len() as int) =~= ws);
    string_of(&out)
}

// ── file templates ──────────────────────────────────────────────────────────

/// The `main.go` of a Go project.
pub open spec fn go_main_text(name: Seq<char>) -> Seq<char> {
    "package main\n\nimport \"fmt\"\n\nfunc main() {\n\tfmt.Println(\"Hello from "@ + name + "!\")\n}\n"@
}

/// The `main.go` of a Go project.
pub fn go_main(name: &str) -> (r: String)
    ensures
        r@ == go_main_text(name@),
{
    let mut v: Vec<char> = Vec::new();
    push_str(&mut v, "package main\n\nimport \"fmt\"\n\nfunc main() {\n\tfmt.Println(\"Hello from ");
    push_str(&mut v, name);
    push_str(&mut v, "!\")\n}\n");
    string_of(&v)
}

/// The `Main.java` of a Java project in package `pkg` with class `class`.
pub open spec fn java_main_text(pkg: Seq<char>, class_: Seq<char>) -> Seq<char> {
    "package "@ + pkg + ";\n\npublic class "@ + class_ + " {\n    public static void main(String[] args) {\n        System.out.println(\"Hello, World!\");\n    }\n}\n"@
}

/// The `Main.java` of a Java project in package `pkg` with class `class`.
pub fn java_main(pkg: &str, class_: &str) -> (r: String)
    ensures
        r@ == java_main_text(pkg@, class_@),
{
    let mut v: Vec<char> = Vec::new();
    push_str(&mut v, "package ");
    push_str(&mut v, pkg);
    push_str(&mut v, ";\n\npublic class ");
    push_str(&mut v, class_);
    push_str(&mut v, " {\n    public static void main(String[] args) {\n        System.out.println(\"Hello, World!\");\n    }\n}\n");
    string_of(&v)
}

/// The `pom.xml` of a Java project.
pub open spec fn pom_xml_text(name: Seq<char>) -> Seq<char> {
    "<?xml version=\"1.0\" encoding=\"UTF-8\"?>\n<project xmlns=\"http://maven.apache.org/POM/4.0.0\"\n         xmlns:xsi=\"http://www.w3.org/2001/XMLSchema-instance\"\n         xsi:schemaLocation=\"http://maven.apache.org/POM/4.0.0 http://maven.apache.org/xsd/maven-4.0.0.xsd\">\n    <modelVersion>4.0.0</modelVersion>\n    <groupId>com.example</groupId>\n    <artifactId>"@ + name + "</artifactId>\n    <version>1.0-SNAPSHOT</version>\n    <properties>\n        <maven.compiler.source>17</maven.compiler.source>\n        <maven.compiler.target>17</maven.compiler.target>\n        <project.build.sourceEncoding>UTF-8</project.build.sourceEncoding>\n    </properties>\n</project>\n"@
}

/// The `pom.xml` of a Java project.
pub fn pom_xml(name: &str) -> (r: String)
    ensures
        r@ == pom_xml_text(name@),
{
    let mut v: Vec<char> = Vec::new();
    push_str(&mut v, "<?xml version=\"1.0\" encoding=\"UTF-8\"?>\n<project xmlns=\"http://maven.apache.org/POM/4.0.0\"\n         xmlns:xsi=\"http://www.w3.org/2001/XMLSchema-instance\"\n         xsi:schemaLocation=\"http://maven.apache.org/POM/4.0.0 http://maven.apache.org/xsd/maven-4.0.0.xsd\">\n    <modelVersion>4.0.0</modelVersion>\n    <groupId>com.example</groupId>\n    <artifactId>");
    push_str(&mut v, name);
    push_str(&mut v, "</artifactId>\n    <version>1.0-SNAPSHOT</version>\n    <properties>\n        <maven.compiler.source>17</maven.compiler.source>\n        <maven.compiler.target>17</maven.compiler.target>\n        <project.build.sourceEncoding>UTF-8</project.build.sourceEncoding>\n    </properties>\n</project>\n");
    string_of(&v)
}

/// The `Makefile` of a C project.
pub open spec fn c_makefile_text(name: Seq<char>) -> Seq<char> {
    "CC      = gcc\nCFLAGS  = -Wall -Wextra -Iinclude\nSRC     = $(wildcard src/*.c)\nOBJ     = $(SRC:.c=.o)\nTARGET  = "@ + name + "\n\nall: $(TARGET)\n\n$(TARGET): $(OBJ)\n\t$(CC) -o $@ $^\n\n%.o: %.c\n\t$(CC) $(CFLAGS) -c -o $@ $<\n\nclean:\n\trm -f $(OBJ) $(TARGET)\n\n.PHONY: all clean\n"@
}

/// The `Makefile` of a C project.
pub fn c_makefile(name: &str) -> (r: String)
    ensures
        r@ == c_makefile_text(name@),
{
    let mut v: Vec<char> = Vec::new();
    push_str(&mut v, "CC      = gcc\nCFLAGS  = -Wall -Wextra -Iinclude\nSRC     = $(wildcard src/*.c)\nOBJ     = $(SRC:.c=.o)\nTARGET  = ");
    push_str(&mut v, name);
    push_str(&mut v, "\n\nall: $(TARGET)\n\n$(TARGET): $(OBJ)\n\t$(CC) -o $@ $^\n\n%.o: %.c\n\t$(CC) $(CFLAGS) -c -o $@ $<\n\nclean:\n\trm -f $(OBJ) $(TARGET)\n\n.PHONY: all clean\n");
    string_of(&v)
}

/// The `CMakeLists.txt` of a C++ project.
pub open spec fn cmake_lists_text(name: Seq<char>) -> Seq<char> {
    "cmake_minimum_required(VERSION 3.14)\nproject("@ + name + ")\n\nset(CMAKE_CXX_STANDARD 17)\n\nadd_executable("@ + name + " src/main.cpp)\ntarget_include_directories("@ + name + " PRIVATE include)\n"@
}

/// The `CMakeLists.txt` of a C++ project.
pub fn cmake_lists(name: &str) -> (r: String)
    ensures
        r@ == cmake_lists_text(name@),
{
    let mut v: Vec<char> = Vec::new();
    push_str(&mut v, "cmake_minimum_required(VERSION 3.14)\nproject(");
    push_str(&mut v, name);
    push_str(&mut v, ")\n\nset(CMAKE_CXX_STANDARD 17)\n\nadd_executable(");
    push_str(&mut v, name);
    push_str(&mut v, " src/main.cpp)\ntarget_include_directories(");
    push_str(&mut v, name);
    push_str(&mut v, " PRIVATE include)\n");
    string_of(&v)
}

/// The `package.json` of a JavaScript or TypeScript project whose entry point is `main`.
pub open spec fn npm_package_json_text(name: Seq<char>, main: Seq<char>) -> Seq<char> {
    "{\n  \"name\": \""@ + name + "\",\n  \"version\": \"0.1.0\",\n  \"main\": \""@ + main + "\",\n  \"scripts\": {\n    \"start\": \"node "@ + main + "\"\n  }\n}\n"@
}

/// The `package.json` of a JavaScript or TypeScript project whose entry point is `main`.
pub fn npm_package_json(name: &str, main: &str) -> (r: String)
    ensures
        r@ == npm_package_json_text(name@, main@),
{
    let mut v: Vec<char> = Vec::new();
    push_str(&mut v, "{\n  \"name\": \"");
    push_str(&mut v, name);
    push_str(&mut v, "\",\n  \"version\": \"0.1.0\",\n  \"main\": \"");
    push_str(&mut v, main);
    push_str(&mut v, "\",\n  \"scripts\": {\n    \"start\": \"node ");
    push_str(&mut v, main);
    push_str(&mut v, "\"\n  }\n}\n");
    string_of(&v)
}

/// The `README.md` of a project in a language without a template.
pub open spec fn readme_md_text(name: Seq<char>, language: Seq<char>) -> Seq<char> {
    "# "@ + name + "\n\nLanguage: "@ + language + "\n"@
}

/// The `README.md` of a project in a language without a template.
pub fn readme_md(name: &str, language: &str) -> (r: String)
    ensures
        r@ == readme_md_text(name@, language@),
{
    let mut v: Vec<char> = Vec::new();
    push_str(&mut v, "# ");
    push_str(&mut v, name);
    push_str(&mut v, "\n\nLanguage: ");
    push_str(&mut v, language);
    push_str(&mut v, "\n");
    string_of(&v)
}

// ── fixed stubs ─────────────────────────────────────────────────────────────

/// The `main.py` of a Python project.
pub open spec fn python_main_text() -> Seq<char> {
    "def main():\n    print(\"Hello, World!\")\n\nif __name__ == \"__main__\":\n    main()\n"@
}

/// The `src/main.c` of a C project.
pub open spec fn c_main_text() -> Seq<char> {
    "#include <stdio.h>\n\nint main(int argc, char *argv[]) {\n    printf(\"Hello, World!\\n\");\n    return 0;\n}\n"@
}

/// The `src/main.cpp` of a C++ project.
pub open spec fn cpp_main_text() -> Seq<char> {
    "#include <iostream>\n\nint main(int argc, char *argv[]) {\n    std::cout << \"Hello, World!\" << std::endl;\n    return 0;\n}\n"@
}

/// The `src/index.js` of a JavaScript project.
pub open spec fn js_main_text() -> Seq<char> {
    "'use strict';\n\nfunction main() {\n    console.log('Hello, World!');\n}\n\nmain();\n"@
}

/// The `src/index.ts` of a TypeScript project.
pub open spec fn ts_main_text() -> Seq<char> {
    "function main(): void {\n    console.log('Hello, World!');\n}\n\nmain();\n"@
}

/// The `tsconfig.json` of a TypeScript project.
pub open spec fn tsconfig_text() -> Seq<char> {
    "{\n  \"compilerOptions\": {\n    \"target\": \"ES2020\",\n    \"module\": \"commonjs\",\n    \"outDir\": \"./dist\",\n    \"rootDir\": \"./src\",\n    \"strict\": true,\n    \"esModuleInterop\": true\n  },\n  \"include\": [\"src/**/*\"],\n  \"exclude\": [\"node_modules\", \"dist\"]\n}\n"@
}

// ── .gitignore ──────────────────────────────────────────────────────────────

/// The `.gitignore` for a language (given in lower case); empty when none.
/// Godot projects get none: the Godot templates, with their `.gitignore`,
/// are not part of this code base, so no Godot-specific file is planned.
pub open spec fn gitignore_text(l: Seq<char>) -> Seq<char> {
    if l == "rust"@ {
        "/target\n"@
    } else if l == "go"@ {
        "*.exe\n*.test\n*.out\nvendor/\n"@
    } else if l == "java"@ {
        "*.class\n*.jar\ntarget/\n.idea/\n*.iml\n"@
    } else if l == "python"@ {
        "__pycache__/\n*.pyc\n*.pyo\n.venv/\nvenv/\ndist/\nbuild/\n*.egg-info/\n"@
    } else if l == "c"@ || l == "c++"@ || l == "cpp"@ {
        "*.o\n*.a\n*.so\nbuild/\n"@
    } else if l == "javascript"@ || l == "js"@ || l == "node"@ || l == "typescript"@ || l == "ts"@ {
        "node_modules/\ndist/\nbuild/\n*.log\n"@
    } else {
        Seq::empty()
    }
}

/// Returns the language-appropriate `.gitignore` (language matched
/// case-insensitively); empty for languages without one.
pub fn gitignore_for(lang: &str) -> (r: &'static str)
    ensures
        r@ == gitignore_text(lowercase_of(lang@)),
        is_ascii_text(lang@) ==> r@ == gitignore_text(ascii_lower(lang@)),
{
    let lower = lowercase(lang);
    let l = lower.as_str();
    proof {
        reveal_strlit("");
    }
    if str_eq(l, "rust") {
        "/target\n"
    } else if str_eq(l, "go") {
        "*.exe\n*.test\n*.out\nvendor/\n"
    } else if str_eq(l, "java") {
        "*.class\n*.jar\ntarget/\n.idea/\n*.iml\n"
    } else if str_eq(l, "python") {
        "__pycache__/\n*.pyc\n*.pyo\n.venv/\nvenv/\ndist/\nbuild/\n*.egg-info/\n"
    } else if str_eq(l, "c") || str_eq(l, "c++") || str_eq(l, "cpp") {
        "*.o\n*.a\n*.so\nbuild/\n"
    } else if str_eq(l, "javascript") || str_eq(l, "js") || str_eq(l, "node") || str_eq(l, "typescript") || str_eq(l, "ts") {
        "node_modules/\ndist/\nbuild/\n*.log\n"
    } else {
        ""
    }
}

// ── build.sh / run.sh ───────────────────────────────────────────────────────

/// The shell every generated script runs under: each `build.sh` and
/// `run.sh` starts with a bash shebang and `set -euo pipefail`.
pub open spec fn script_head() -> Seq<char> {
    "#!/usr/bin/env bash\nset -euo pipefail\n"@
}

/// Every generated script starts with `script_head`, and a language without
/// a toolchain of its own gets scripts that only say so.
pub proof fn law_scripts_run_under_strict_bash(l: Seq<char>, name: Seq<char>)
    ensures
        scripts_text(l, name).0.take(script_head().len() as int) == script_head(),
        scripts_text(l, name).1.take(script_head().len() as int) == script_head(),
        lang_of(l) == Lang::Other ==> scripts_text(l, name)
            == (
            "#!/usr/bin/env bash\nset -euo pipefail\necho \"No build step configured for this project type.\"\n"@,
            "#!/usr/bin/env bash\nset -euo pipefail\necho \"No run step configured for this project type.\"\n"@,
        ),
{
    reveal_strlit("#!/usr/bin/env bash\nset -euo pipefail\n");
    reveal_strlit("#!/usr/bin/env bash\nset -euo pipefail\ncargo build --release\necho \"Binary: target/release/");
    reveal_strlit("#!/usr/bin/env bash\nset -euo pipefail\ncargo run\n");
    reveal_strlit("#!/usr/bin/env bash\nset -euo pipefail\ngo build -o ");
    reveal_strlit("#!/usr/bin/env bash\nset -euo pipefail\ngo run .\n");
    reveal_strlit("#!/usr/bin/env bash\nset -euo pipefail\nmvn package -q\necho \"JAR ready in target/\"\n");
    reveal_strlit("#!/usr/bin/env bash\nset -euo pipefail\nmvn -q compile\nmvn -q exec:java -Dexec.mainClass=\"com.example.");
    reveal_strlit("#!/usr/bin/env bash\nset -euo pipefail\nif [ ! -d \".venv\" ]; then\n    python3 -m venv .venv\nfi\n.venv/bin/pip install -q -r requirements.txt\necho \"Virtual environment ready.\"\n");
    reveal_strlit("#!/usr/bin/env bash\nset -euo pipefail\nif [ -x \".venv/bin/python\" ]; then\n    exec .venv/bin/python main.py\nelse\n    exec python3 main.py\nfi\n");
    reveal_strlit("#!/usr/bin/env bash\nset -euo pipefail\nmake\necho \"Binary: ./");
    reveal_strlit("#!/usr/bin/env bash\nset -euo pipefail\n[ -f \"");
    reveal_strlit("#!/usr/bin/env bash\nset -euo pipefail\ncmake -B build -DCMAKE_BUILD_TYPE=Release -S . -Wno-dev -G Ninja 2>/dev/null \\\n    || cmake -B build -DCMAKE_BUILD_TYPE=Release -S . -Wno-dev\ncmake --build build --parallel\necho \"Binary: build/");
    reveal_strlit("#!/usr/bin/env bash\nset -euo pipefail\n[ -f \"build/");
    reveal_strlit("#!/usr/bin/env bash\nset -euo pipefail\nnpm install\n");
    reveal_strlit("#!/usr/bin/env bash\nset -euo pipefail\nnpm start\n");
    reveal_strlit("#!/usr/bin/env bash\nset -euo pipefail\nnpm install\nnpx tsc\necho \"Compiled to dist/\"\n");
    reveal_strlit("#!/usr/bin/env bash\nset -euo pipefail\n[ -d \"dist\" ] || bash build.sh\nexec node dist/index.js\n");
    reveal_strlit("#!/usr/bin/env bash\nset -euo pipefail\nGODOT=\"${GODOT:-godot}\"\necho \"==> Importing project assets (headless)...\"\n\"$GODOT\" --headless --path . --import 2>/dev/null || true\necho \"==> Done. Use the Godot editor (Editor > Export) to create a distributable build.\"\n");
    reveal_strlit("#!/usr/bin/env bash\nset -euo pipefail\nGODOT=\"${GODOT:-godot}\"\necho \"==> Opening project in Godot editor...\"\nexec \"$GODOT\" --path .\n");
    reveal_strlit("#!/usr/bin/env bash\nset -euo pipefail\necho \"No build step configured for this project type.\"\n");
    reveal_strlit("#!/usr/bin/env bash\nset -euo pipefail\necho \"No run step configured for this project type.\"\n");

    let (b, r) = scripts_text(l, name);
    assert(b.take(script_head().len() as int) =~= script_head());
    assert(r.take(script_head().len() as int) =~= script_head());
}

/// The `build.sh` and `run.sh` of a project, for its language (given in
/// lower case) and name.
pub open spec fn scripts_text(l: Seq<char>, name: Seq<char>) -> (Seq<char>, Seq<char>) {
    if l == "rust"@ {
        ("#!/usr/bin/env bash\nset -euo pipefail\ncargo build --release\necho \"Binary: target/release/"@ + name + "\"\n"@, "#!/usr/bin/env bash\nset -euo pipefail\ncargo run\n"@)
    } else if l == "go"@ {
        ("#!/usr/bin/env bash\nset -euo pipefail\ngo build -o "@ + name + " .\necho \"Binary: ./"@ + name + "\"\n"@, "#!/usr/bin/env bash\nset -euo pipefail\ngo run .\n"@)
    } else if l == "java"@ {
        ("#!/usr/bin/env bash\nset -euo pipefail\nmvn package -q\necho \"JAR ready in target/\"\n"@, "#!/usr/bin/env bash\nset -euo pipefail\nmvn -q compile\nmvn -q exec:java -Dexec.mainClass=\"com.example."@ + pkg_id_of(name) + "."@ + class_name_of(name) + "\"\n"@)
    } else if l == "python"@ {
        ("#!/usr/bin/env bash\nset -euo pipefail\nif [ ! -d \".venv\" ]; then\n    python3 -m venv .venv\nfi\n.venv/bin/pip install -q -r requirements.txt\necho \"Virtual environment ready.\"\n"@, "#!/usr/bin/env bash\nset -euo pipefail\nif [ -x \".venv/bin/python\" ]; then\n    exec .venv/bin/python main.py\nelse\n    exec python3 main.py\nfi\n"@)
    } else if l == "c"@ {
        ("#!/usr/bin/env bash\nset -euo pipefail\nmake\necho \"Binary: ./"@ + name + "\"\n"@, "#!/usr/bin/env bash\nset -euo pipefail\n[ -f \""@ + name + "\" ] || bash build.sh\nexec ./"@ + name + "\n"@)
    } else if l == "c++"@ || l == "cpp"@ {
        ("#!/usr/bin/env bash\nset -euo pipefail\ncmake -B build -DCMAKE_BUILD_TYPE=Release -S . -Wno-dev -G Ninja 2>/dev/null \\\n    || cmake -B build -DCMAKE_BUILD_TYPE=Release -S . -Wno-dev\ncmake --build build --parallel\necho \"Binary: build/"@ + name + "\"\n"@, "#!/usr/bin/env bash\nset -euo pipefail\n[ -f \"build/"@ + name + "\" ] || bash build.sh\nexec ./build/"@ + name + "\n"@)
    } else if l == "javascript"@ || l == "js"@ || l == "node"@ {
        ("#!/usr/bin/env bash\nset -euo pipefail\nnpm install\n"@, "#!/usr/bin/env bash\nset -euo pipefail\nnpm start\n"@)
    } else if l == "typescript"@ || l == "ts"@ {
        ("#!/usr/bin/env bash\nset -euo pipefail\nnpm install\nnpx tsc\necho \"Compiled to dist/\"\n"@, "#!/usr/bin/env bash\nset -euo pipefail\n[ -d \"dist\" ] || bash build.sh\nexec node dist/index.js\n"@)
    } else if l == "godot"@ || l == "godot3d"@ || l == "godot-3d"@ || l == "godot2d"@ || l == "godot-2d"@ {
        ("#!/usr/bin/env bash\nset -euo pipefail\nGODOT=\"${GODOT:-godot}\"\necho \"==> Importing project assets (headless)...\"\n\"$GODOT\" --headless --path . --import 2>/dev/null || true\necho \"==> Done. Use the Godot editor (Editor > Export) to create a distributable build.\"\n"@, "#!/usr/bin/env bash\nset -euo pipefail\nGODOT=\"${GODOT:-godot}\"\necho \"==> Opening project in Godot editor...\"\nexec \"$GODOT\" --path .\n"@)
    } else {
        ("#!/usr/bin/env bash\nset -euo pipefail\necho \"No build step configured for this project type.\"\n"@, "#!/usr/bin/env bash\nset -euo pipefail\necho \"No run step configured for this project type.\"\n"@)
    }
}

/// The `build.sh` and `run.sh` of a project (language matched
/// case-insensitively).
pub fn scripts_for(language: &str, name: &str) -> (r: (String, String))
    ensures
        (r.0@, r.1@) == scripts_text(lowercase_of(language@), name@),
        is_ascii_text(language@) ==> (r.0@, r.1@) == scripts_text(ascii_lower(language@), name@),
{
    let lower = lowercase(language);
    let l = lower.as_str();
    let mut b: Vec<char> = Vec::new();
    let mut r: Vec<char> = Vec::new();
    if str_eq(l, "rust") {
        push_str(&mut b, "#!/usr/bin/env bash\nset -euo pipefail\ncargo build --release\necho \"Binary: target/release/");
        push_str(&mut b, name);
        push_str(&mut b, "\"\n");
        push_str(&mut r, "#!/usr/bin/env bash\nset -euo pipefail\ncargo run\n");
    } else if str_eq(l, "go") {
        push_str(&mut b, "#!/usr/bin/env bash\nset -euo pipefail\ngo build -o ");
        push_str(&mut b, name);
        push_str(&mut b, " .\necho \"Binary: ./");
        push_str(&mut b, name);
        push_str(&mut b, "\"\n");
        push_str(&mut r, "#!/usr/bin/env bash\nset -euo pipefail\ngo run .\n");
    } else if str_eq(l, "java") {
        let pkg_id = java_pkg_id(name);
        let class = to_class_name(name);
        push_str(&mut b, "#!/usr/bin/env bash\nset -euo pipefail\nmvn package -q\necho \"JAR ready in target/\"\n");
        push_str(&mut r, "#!/usr/bin/env bash\nset -euo pipefail\nmvn -q compile\nmvn -q exec:java -Dexec.mainClass=\"com.example.");
        push_str(&mut r, pkg_id.as_str());
        push_str(&mut r, ".");
        push_str(&mut r, class.as_str());
        push_str(&mut r, "\"\n");
    } else if str_eq(l, "python") {
        push_str(&mut b, "#!/usr/bin/env bash\nset -euo pipefail\nif [ ! -d \".venv\" ]; then\n    python3 -m venv .venv\nfi\n.venv/bin/pip install -q -r requirements.txt\necho \"Virtual environment ready.\"\n");
        push_str(&mut r, "#!/usr/bin/env bash\nset -euo pipefail\nif [ -x \".venv/bin/python\" ]; then\n    exec .venv/bin/python main.py\nelse\n    exec python3 main.py\nfi\n");
    } else if str_eq(l, "c") {
        push_str(&mut b, "#!/usr/bin/env bash\nset -euo pipefail\nmake\necho \"Binary: ./");
        push_str(&mut b, name);
        push_str(&mut b, "\"\n");
        push_str(&mut r, "#!/usr/bin/env bash\nset -euo pipefail\n[ -f \"");
        push_str(&mut r, name);
        push_str(&mut r, "\" ] || bash build.sh\nexec ./");
        push_str(&mut r, name);
        push_str(&mut r, "\n");
    } else if str_eq(l, "c++") || str_eq(l, "cpp") {
        push_str(&mut b, "#!/usr/bin/env bash\nset -euo pipefail\ncmake -B build -DCMAKE_BUILD_TYPE=Release -S . -Wno-dev -G Ninja 2>/dev/null \\\n    || cmake -B build -DCMAKE_BUILD_TYPE=Release -S . -Wno-dev\ncmake --build build --parallel\necho \"Binary: build/");
        push_str(&mut b, name);
        push_str(&mut b, "\"\n");
        push_str(&mut r, "#!/usr/bin/env bash\nset -euo pipefail\n[ -f \"build/");
        push_str(&mut r, name);
        push_str(&mut r, "\" ] || bash build.sh\nexec ./build/");
        push_str(&mut r, name);
        push_str(&mut r, "\n");
    } else if str_eq(l, "javascript") || str_eq(l, "js") || str_eq(l, "node") {
        push_str(&mut b, "#!/usr/bin/env bash\nset -euo pipefail\nnpm install\n");
        push_str(&mut r, "#!/usr/bin/env bash\nset -euo pipefail\nnpm start\n");
    } else if str_eq(l, "typescript") || str_eq(l, "ts") {
        push_str(&mut b, "#!/usr/bin/env bash\nset -euo pipefail\nnpm install\nnpx tsc\necho \"Compiled to dist/\"\n");
        push_str(&mut r, "#!/usr/bin/env bash\nset -euo pipefail\n[ -d \"dist\" ] || bash build.sh\nexec node dist/index.js\n");
    } else if str_eq(l, "godot") || str_eq(l, "godot3d") || str_eq(l, "godot-3d") || str_eq(l, "godot2d") || str_eq(l, "godot-2d") {
        push_str(&mut b, "#!/usr/bin/env bash\nset -euo pipefail\nGODOT=\"${GODOT:-godot}\"\necho \"==> Importing project assets (headless)...\"\n\"$GODOT\" --headless --path . --import 2>/dev/null || true\necho \"==> Done. Use the Godot editor (Editor > Export) to create a distributable build.\"\n");
        push_str(&mut r, "#!/usr/bin/env bash\nset -euo pipefail\nGODOT=\"${GODOT:-godot}\"\necho \"==> Opening project in Godot editor...\"\nexec \"$GODOT\" --path .\n");
    } else {
        push_str(&mut b, "#!/usr/bin/env bash\nset -euo pipefail\necho \"No build step configured for this project type.\"\n");
        push_str(&mut r, "#!/usr/bin/env bash\nset -euo pipefail\necho \"No run step configured for this project type.\"\n");
    }
    (string_of(&b), string_of(&r))
}

// ── the plan ────────────────────────────────────────────────────────────────

/// A command that creates the project skeleton before the files are written.
#[derive(Clone, Copy, Debug, PartialEq, Eq)]
pub enum ScaffoldCommand {
    /// `cargo new --vcs none <name>`, run in the base directory.
    CargoNew,
    /// `go mod init <name>`, run in the project directory.
    GoModInit,
}

/// What `create_project` writes into a new project directory, besides
/// git's own files and `.meta/project.json`.
pub struct ScaffoldPlan {
    pub command: Option<ScaffoldCommand>,
    /// Directories to create, relative to the project directory, in order.
    pub dirs: Vec<String>,
    /// Files to write (relative path, content), in order.
    pub files: Vec<(String, String)>,
    pub build_script: String,
    pub run_script: String,
    /// The `.gitignore`; not written when empty.
    pub gitignore: String,
}

/// The texts of a list of strings.
pub open spec fn strings_view(v: Seq<String>) -> Seq<Seq<char>> {
    v.map_values(|s: String| s@)
}

/// The texts of a list of (path, content) pairs.
pub open spec fn pairs_view(v: Seq<(String, String)>) -> Seq<(Seq<char>, Seq<char>)> {
    v.map_values(|p: (String, String)| (p.0@, p.1@))
}

/// The Python package directory of a project: its lower-cased name with
/// `-` turned into `_`.
pub open spec fn python_pkg_of(name: Seq<char>) -> Seq<char> {
    replace_all(lowercase_of(name), seq!['-'], seq!['_'])
}

/// The Java source directory of a project.
pub open spec fn java_src_dir(name: Seq<char>) -> Seq<char> {
    push_path("src/main/java/com/example"@, pkg_id_of(name))
}

pub open spec fn is_cpp(l: Seq<char>) -> bool {
    l == "c++"@ || l == "cpp"@
}

pub open spec fn is_js(l: Seq<char>) -> bool {
    l == "javascript"@ || l == "js"@ || l == "node"@
}

pub open spec fn is_ts(l: Seq<char>) -> bool {
    l == "typescript"@ || l == "ts"@
}

pub open spec fn is_godot(l: Seq<char>) -> bool {
    l == "godot"@ || l == "godot3d"@ || l == "godot-3d"@ || l == "godot2d"@ || l == "godot-2d"@
}

/// The languages with a skeleton of their own; a lower-case language name
/// is matched against them in this order.
#[derive(Clone, Copy, Debug, PartialEq, Eq)]
pub enum Lang {
    Rust,
    Go,
    Java,
    Python,
    C,
    Cpp,
    Js,
    Ts,
    Godot,
    Other,
}

/// The skeleton a lower-case language name selects.
pub open spec fn lang_of(l: Seq<char>) -> Lang {
    if l == "rust"@ {
        Lang::Rust
    } else if l == "go"@ {
        Lang::Go
    } else if l == "java"@ {
        Lang::Java
    } else if l == "python"@ {
        Lang::Python
    } else if l == "c"@ {
        Lang::C
    } else if is_cpp(l) {
        Lang::Cpp
    } else if is_js(l) {
        Lang::Js
    } else if is_ts(l) {
        Lang::Ts
    } else if is_godot(l) {
        Lang::Godot
    } else {
        Lang::Other
    }
}

/// The build-artifact directories of a language follow the skeleton the
/// language gets: every spelling `create_project` treats alike has the same
/// directories, which are those the language's toolchain writes.
pub proof fn law_artifact_dirs_follow_language(l: Seq<char>)
    ensures
        excluded_dirs(l) == match lang_of(l) {
            Lang::Rust => seq!["target"@],
            Lang::Go => seq!["vendor"@],
            Lang::Java => seq!["target"@, "build"@, ".gradle"@],
            Lang::Python => seq![".venv"@, "venv"@, "__pycache__"@, "dist"@, "build"@],
            Lang::C | Lang::Cpp => seq!["build"@],
            Lang::Js | Lang::Ts => seq!["node_modules"@, "dist"@, "build"@],
            Lang::Godot => seq![".godot"@],
            Lang::Other => Seq::<Seq<char>>::empty(),
        },
{
    reveal_strlit("rust");
    reveal_strlit("go");
    reveal_strlit("java");
    reveal_strlit("python");
    reveal_strlit("c");
    reveal_strlit("c++");
    reveal_strlit("cpp");
    reveal_strlit("javascript");
    reveal_strlit("js");
    reveal_strlit("node");
    reveal_strlit("typescript");
    reveal_strlit("ts");
    reveal_strlit("godot");
    reveal_strlit("godot3d");
    reveal_strlit("godot-3d");
    reveal_strlit("godot2d");
    reveal_strlit("godot-2d");
    assert("go"@[0] != "js"@[0] && "go"@[0] != "ts"@[0] && "js"@[0] != "ts"@[0]);
    assert("c++"@[1] != "cpp"@[1]);
    assert("rust"@[0] != "java"@[0] && "rust"@[0] != "node"@[0] && "java"@[0] != "node"@[0]);
    assert("godot3d"@[5] != "godot2d"@[5]);
    assert("godot-3d"@[6] != "godot-2d"@[6]);
    assert("javascript"@[0] != "typescript"@[0]);
}

/// The command run for a language (given in lower case).
pub open spec fn plan_command(l: Seq<char>) -> Option<ScaffoldCommand> {
    match lang_of(l) {
        Lang::Rust => Some(ScaffoldCommand::CargoNew),
        Lang::Go => Some(ScaffoldCommand::GoModInit),
        _ => None,
    }
}

/// The directories created for a language (given in lower case).
pub open spec fn plan_dirs(l: Seq<char>, name: Seq<char>) -> Seq<Seq<char>> {
    match lang_of(l) {
        Lang::Java => seq![
            java_src_dir(name),
            "src/main/resources"@,
            push_path("src/test/java/com/example"@, pkg_id_of(name)),
        ],
        Lang::Python => seq![python_pkg_of(name)],
        Lang::C | Lang::Cpp => seq!["src"@, "include"@],
        Lang::Js | Lang::Ts => seq!["src"@],
        _ => Seq::empty(),
    }
}

/// The files written for a language (`l` in lower case, `language` as
/// given). A Godot project gets only its directory, scripts and metadata:
/// the 3D and 2D Godot templates are not part of this code base.
pub open spec fn plan_files(l: Seq<char>, name: Seq<char>, language: Seq<char>) -> Seq<
    (Seq<char>, Seq<char>),
> {
    match lang_of(l) {
        Lang::Rust => Seq::empty(),
        Lang::Go => seq![("main.go"@, go_main_text(name))],
        Lang::Java => seq![
            (push_path(java_src_dir(name), "Main.java"@), java_main_text(
                "com.example."@ + pkg_id_of(name),
                class_name_of(name),
            )),
            ("pom.xml"@, pom_xml_text(name)),
        ],
        Lang::Python => seq![
            (push_path(python_pkg_of(name), "__init__.py"@), ""@),
            ("main.py"@, python_main_text()),
            ("requirements.txt"@, ""@),
        ],
        Lang::C => seq![("src/main.c"@, c_main_text()), ("Makefile"@, c_makefile_text(name))],
        Lang::Cpp => seq![
            ("src/main.cpp"@, cpp_main_text()),
            ("CMakeLists.txt"@, cmake_lists_text(name)),
        ],
        Lang::Js => seq![
            ("src/index.js"@, js_main_text()),
            ("package.json"@, npm_package_json_text(name, "src/index.js"@)),
        ],
        Lang::Ts => seq![
            ("src/index.ts"@, ts_main_text()),
            ("package.json"@, npm_package_json_text(name, "dist/index.js"@)),
            ("tsconfig.json"@, tsconfig_text()),
        ],
        Lang::Godot => Seq::empty(),
        Lang::Other => seq![("README.md"@, readme_md_text(name, language))],
    }
}

/// The entry point a planned `package.json` names is a file of the same
/// plan: for JavaScript it is the planned source file itself; for
/// TypeScript it is the `dist/` output of a planned `src/` source file.
pub proof fn law_package_entry_is_planned(l: Seq<char>, name: Seq<char>, language: Seq<char>)
    ensures
        lang_of(l) == Lang::Js ==> exists|k: int, j: int|
            0 <= k < plan_files(l, name, language).len() && 0 <= j < plan_files(
                l,
                name,
                language,
            ).len() && plan_files(l, name, language)[j] == ("package.json"@, npm_package_json_text(
                name,
                plan_files(l, name, language)[k].0,
            )) && plan_files(l, name, language)[k].0 != "package.json"@ && exists|i: int, rest: Seq<
                char,
            >|
                0 <= i < plan_dirs(l, name).len() && plan_files(l, name, language)[k].0 == plan_dirs(
                    l,
                    name,
                )[i] + "/"@ + rest,
        lang_of(l) == Lang::Ts ==> exists|stem: Seq<char>, k: int, j: int|
            0 <= k < plan_files(l, name, language).len() && 0 <= j < plan_files(
                l,
                name,
                language,
            ).len() && plan_files(l, name, language)[k].0 == "src/"@ + stem + ".ts"@ && plan_files(
                l,
                name,
                language,
            )[j] == ("package.json"@, npm_package_json_text(name, "dist/"@ + stem + ".js"@))
                && plan_dirs(l, name).contains("src"@),
{
    reveal_strlit("package.json");
    reveal_strlit("src/index.js");
    reveal_strlit("src/index.ts");
    reveal_strlit("dist/index.js");
    reveal_strlit("src/");
    reveal_strlit(".ts");
    reveal_strlit("dist/");
    reveal_strlit(".js");
    let files = plan_files(l, name, language);
    if lang_of(l) == Lang::Js {
        assert(files[0].0 != "package.json"@) by {
            assert(files[0].0[0] != "package.json"@[0]);
        }
        assert(files[1] == ("package.json"@, npm_package_json_text(name, files[0].0)));
        reveal_strlit("src");
        reveal_strlit("/");
        reveal_strlit("index.js");
        assert(files[0].0 =~= plan_dirs(l, name)[0] + "/"@ + "index.js"@);
    }
    if lang_of(l) == Lang::Ts {
        let stem = "index"@;
        reveal_strlit("index");
        assert("src/"@ + stem + ".ts"@ =~= "src/index.ts"@);
        assert("dist/"@ + stem + ".js"@ =~= "dist/index.js"@);
        assert(files[0].0 == "src/"@ + stem + ".ts"@);
        assert(files[1] == ("package.json"@, npm_package_json_text(name, "dist/"@ + stem + ".js"@)));
        assert(plan_dirs(l, name)[0] == "src"@);
    }
}

fn text_of(s: &str) -> (r: String)
    ensures
        r@ == s@,
{
    s.to_owned()
}

/// Plans the skeleton of a new project named `name` in `language` (matched
/// case-insensitively).
pub fn scaffold_plan(name: &str, language: &str) -> (r: ScaffoldPlan)
    ensures
        r.command == plan_command(lowercase_of(language@)),
        strings_view(r.dirs@) == plan_dirs(lowercase_of(language@), name@),
        pairs_view(r.files@) == plan_files(lowercase_of(language@), name@, language@),
        (r.build_script@, r.run_script@) == scripts_text(lowercase_of(language@), name@),
        r.gitignore@ == gitignore_text(lowercase_of(language@)),
        is_ascii_text(language@) ==> {
            &&& r.command == plan_command(ascii_lower(language@))
            &&& strings_view(r.dirs@) == plan_dirs(ascii_lower(language@), name@)
            &&& pairs_view(r.files@) == plan_files(ascii_lower(language@), name@, language@)
            &&& (r.build_script@, r.run_script@) == scripts_text(ascii_lower(language@), name@)
            &&& r.gitignore@ == gitignore_text(ascii_lower(language@))
        },
{
    let lower = lowercase(language);
    let l = lower.as_str();
    let mut command: Option<ScaffoldCommand> = None;
    let mut dirs: Vec<String> = Vec::new();
    let mut files: Vec<(String, String)> = Vec::new();
    let ghost ll = lowercase_of(language@);
    proof {
        reveal_strlit("");
    }
    if str_eq(l, "rust") {
        command = Some(ScaffoldCommand::CargoNew);
        assert(strings_view(dirs@) =~= plan_dirs(ll, name@));
        assert(pairs_view(files@) =~= plan_files(ll, name@, language@));
    } else if str_eq(l, "go") {
        command = Some(ScaffoldCommand::GoModInit);
        files.push((text_of("main.go"), go_main(name)));
        assert(strings_view(dirs@) =~= plan_dirs(ll, name@));
        assert(pairs_view(files@) =~= plan_files(ll, name@, language@));
    } else if str_eq(l, "java") {
        let pkg_id = java_pkg_id(name);
        let src = join_path("src/main/java/com/example", pkg_id.as_str());
        let mut pkg: Vec<char> = Vec::new();
        push_str(&mut pkg, "com.example.");
        push_str(&mut pkg, pkg_id.as_str());
        let pkg = string_of(&pkg);
        let class = to_class_name(name);
        dirs.push(src.clone());
        dirs.push(text_of("src/main/resources"));
        dirs.push(join_path("src/test/java/com/example", pkg_id.as_str()));
        files.push((join_path(src.as_str(), "Main.java"), java_main(pkg.as_str(), class.as_str())));
        files.push((text_of("pom.xml"), pom_xml(name)));
        assert(strings_view(dirs@) =~= plan_dirs(ll, name@));
        assert(pairs_view(files@) =~= plan_files(ll, name@, language@));
    } else if str_eq(l, "python") {
        let lname = chars_of(lowercase(name).as_str());
        let dash = vec!['-'];
        let underscore = vec!['_'];
        assert(dash@ =~= seq!['-']);
        assert(underscore@ =~= seq!['_']);
        let pkg = string_of(&replace_chars(&lname, &dash, &underscore));
        dirs.push(pkg.clone());
        files.push((join_path(pkg.as_str(), "__init__.py"), text_of("")));
        files.push((text_of("main.py"), text_of("def main():\n    print(\"Hello, World!\")\n\nif __name__ == \"__main__\":\n    main()\n")));
        files.push((text_of("requirements.txt"), text_of("")));
        assert(strings_view(dirs@) =~= plan_dirs(ll, name@));
        assert(pairs_view(files@) =~= plan_files(ll, name@, language@));
    } else if str_eq(l, "c") {
        dirs.push(text_of("src"));
        dirs.push(text_of("include"));
        files.push((text_of("src/main.c"), text_of("#include <stdio.h>\n\nint main(int argc, char *argv[]) {\n    printf(\"Hello, World!\\n\");\n    return 0;\n}\n")));
        files.push((text_of("Makefile"), c_makefile(name)));
        assert(strings_view(dirs@) =~= plan_dirs(ll, name@));
        assert(pairs_view(files@) =~= plan_files(ll, name@, language@));
    } else if str_eq(l, "c++") || str_eq(l, "cpp") {
        dirs.push(text_of("src"));
        dirs.push(text_of("include"));
        files.push((text_of("src/main.cpp"), text_of("#include <iostream>\n\nint main(int argc, char *argv[]) {\n    std::cout << \"Hello, World!\" << std::endl;\n    return 0;\n}\n")));
        files.push((text_of("CMakeLists.txt"), cmake_lists(name)));
        assert(strings_view(dirs@) =~= plan_dirs(ll, name@));
        assert(pairs_view(files@) =~= plan_files(ll, name@, language@));
    } else if str_eq(l, "javascript") || str_eq(l, "js") || str_eq(l, "node") {
        dirs.push(text_of("src"));
        files.push((text_of("src/index.js"), text_of("'use strict';\n\nfunction main() {\n    console.log('Hello, World!');\n}\n\nmain();\n")));
        files.push((text_of("package.json"), npm_package_json(name, "src/index.js")));
        assert(strings_view(dirs@) =~= plan_dirs(ll, name@));
        assert(pairs_view(files@) =~= plan_files(ll, name@, language@));
    } else if str_eq(l, "typescript") || str_eq(l, "ts") {
        dirs.push(text_of("src"));
        files.push((text_of("src/index.ts"), text_of("function main(): void {\n    console.log('Hello, World!');\n}\n\nmain();\n")));
        files.push((text_of("package.json"), npm_package_json(name, "dist/index.js")));
        files.push((text_of("tsconfig.json"), text_of("{\n  \"compilerOptions\": {\n    \"target\": \"ES2020\",\n    \"module\": \"commonjs\",\n    \"outDir\": \"./dist\",\n    \"rootDir\": \"./src\",\n    \"strict\": true,\n    \"esModuleInterop\": true\n  },\n  \"include\": [\"src/**/*\"],\n  \"exclude\": [\"node_modules\", \"dist\"]\n}\n")));
        assert(strings_view(dirs@) =~= plan_dirs(ll, name@));
        assert(pairs_view(files@) =~= plan_files(ll, name@, language@));
    } else if str_eq(l, "godot") || str_eq(l, "godot3d") || str_eq(l, "godot-3d") || str_eq(
        l,
        "godot2d",
    ) || str_eq(l, "godot-2d") {
        assert(strings_view(dirs@) =~= plan_dirs(ll, name@));
        assert(pairs_view(files@) =~= plan_files(ll, name@, language@));
    } else {
        files.push((text_of("README.md"), readme_md(name, language)));
        assert(strings_view(dirs@) =~= plan_dirs(ll, name@));
        assert(pairs_view(files@) =~= plan_files(ll, name@, language@));
    }
    let (build_script, run_script) = scripts_for(language, name);
    let gitignore = text_of(gitignore_for(language));
    ScaffoldPlan { command, dirs, files, build_script, run_script, gitignore }
}

} // verus!
