use file_mcp::scaffold::{
    c_makefile, cmake_lists, gitignore_for, go_main, java_main, java_pkg_id, npm_package_json,
    pom_xml, scaffold_plan, scripts_for, to_class_name, ScaffoldCommand,
};

#[test]
fn java_names() {
    assert_eq!(java_pkg_id("My-App_2"), "myapp2");
    assert_eq!(to_class_name("my-app"), "MyApp");
    assert_eq!(to_class_name("hello_big-world2"), "HelloBigWorld2");
    assert_eq!(to_class_name("--x--"), "X");
    assert_eq!(to_class_name(""), "");
}

#[test]
fn templates() {
    assert_eq!(
        go_main("demo"),
        "package main\n\nimport \"fmt\"\n\nfunc main() {\n\tfmt.Println(\"Hello from demo!\")\n}\n"
    );
    assert_eq!(
        java_main("com.example.demo", "Demo"),
        "package com.example.demo;\n\npublic class Demo {\n    public static void main(String[] args) {\n        System.out.println(\"Hello, World!\");\n    }\n}\n"
    );
    assert!(pom_xml("demo").contains("    <artifactId>demo</artifactId>\n"));
    assert!(c_makefile("demo").contains("TARGET  = demo\n"));
    assert_eq!(
        cmake_lists("demo"),
        "cmake_minimum_required(VERSION 3.14)\nproject(demo)\n\nset(CMAKE_CXX_STANDARD 17)\n\nadd_executable(demo src/main.cpp)\ntarget_include_directories(demo PRIVATE include)\n"
    );
    assert_eq!(
        npm_package_json("demo", "src/index.js"),
        "{\n  \"name\": \"demo\",\n  \"version\": \"0.1.0\",\n  \"main\": \"src/index.js\",\n  \"scripts\": {\n    \"start\": \"node src/index.js\"\n  }\n}\n"
    );
}

#[test]
fn gitignores() {
    assert_eq!(gitignore_for("Rust"), "/target\n");
    assert_eq!(gitignore_for("cpp"), "*.o\n*.a\n*.so\nbuild/\n");
    assert_eq!(gitignore_for("ts"), "node_modules/\ndist/\nbuild/\n*.log\n");
    assert_eq!(gitignore_for("brainfuck"), "");
}

#[test]
fn scripts() {
    let (b, r) = scripts_for("rust", "demo");
    assert_eq!(b, "#!/usr/bin/env bash\nset -euo pipefail\ncargo build --release\necho \"Binary: target/release/demo\"\n");
    assert_eq!(r, "#!/usr/bin/env bash\nset -euo pipefail\ncargo run\n");
    let (_, r) = scripts_for("JAVA", "my-app");
    assert!(r.ends_with("mvn -q exec:java -Dexec.mainClass=\"com.example.myapp.MyApp\"\n"));
    let (b, _) = scripts_for("godot2d", "g");
    assert!(b.contains("GODOT=\"${GODOT:-godot}\""));
    let (b, r) = scripts_for("zig", "z");
    assert!(b.ends_with("echo \"No build step configured for this project type.\"\n"));
    assert!(r.ends_with("echo \"No run step configured for this project type.\"\n"));
}

#[test]
fn plans() {
    let p = scaffold_plan("demo", "Rust");
    assert_eq!(p.command, Some(ScaffoldCommand::CargoNew));
    assert!(p.dirs.is_empty() && p.files.is_empty());

    let p = scaffold_plan("My-Pkg", "python");
    assert_eq!(p.command, None);
    assert_eq!(p.dirs, vec!["my_pkg".to_string()]);
    let names: Vec<&str> = p.files.iter().map(|f| f.0.as_str()).collect();
    assert_eq!(names, vec!["my_pkg/__init__.py", "main.py", "requirements.txt"]);

    let p = scaffold_plan("app", "java");
    assert_eq!(
        p.dirs,
        vec!["src/main/java/com/example/app", "src/main/resources", "src/test/java/com/example/app"]
    );
    assert_eq!(p.files[0].0, "src/main/java/com/example/app/Main.java");
    assert!(p.files[0].1.starts_with("package com.example.app;\n\npublic class App {"));

    let p = scaffold_plan("w", "Whitespace");
    assert_eq!(p.files, vec![("README.md".to_string(), "# w\n\nLanguage: Whitespace\n".to_string())]);
    assert_eq!(p.gitignore, "");

    let p = scaffold_plan("g", "go");
    assert_eq!(p.command, Some(ScaffoldCommand::GoModInit));
    assert_eq!(p.files[0].0, "main.go");
}

#[test]
fn scripts_run_under_strict_bash_and_ignore_case() {
    for lang in ["rust", "go", "java", "python", "c", "cpp", "js", "ts", "godot", "cobol"] {
        let (b, r) = scripts_for(lang, "demo");
        assert!(b.starts_with("#!/usr/bin/env bash\nset -euo pipefail\n"));
        assert!(r.starts_with("#!/usr/bin/env bash\nset -euo pipefail\n"));
        assert_eq!(scripts_for(&lang.to_uppercase(), "demo"), (b, r));
    }
    assert_eq!(
        scripts_for("cobol", "x"),
        (
            "#!/usr/bin/env bash\nset -euo pipefail\necho \"No build step configured for this project type.\"\n".to_string(),
            "#!/usr/bin/env bash\nset -euo pipefail\necho \"No run step configured for this project type.\"\n".to_string()
        )
    );
}

#[test]
fn ascii_names_and_languages() {
    assert_eq!(to_class_name("hello"), "Hello");
    assert_eq!(to_class_name("my-cool_app2"), "MyCoolApp2");
    assert_eq!(java_pkg_id("My-App_2"), "myapp2");
    assert_eq!(gitignore_for("RUST"), gitignore_for("rust"));
    let plan = scaffold_plan("demo", "Go");
    assert_eq!(plan.command, Some(ScaffoldCommand::GoModInit));
    assert!(gitignore_for("godot3d").is_empty());
}
