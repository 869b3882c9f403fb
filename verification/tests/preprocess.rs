use shader_lab::preprocess::{LoadError, LoadStep, ShaderCompiler};
use shader_lab::sources::SourceTable;
use shader_lab::validate::{check_diagnostic, CompileStep, ShaderError};

fn table(entries: &[(&str, Result<&str, &str>)]) -> SourceTable {
    let mut t = SourceTable::new();
    for (path, content) in entries {
        t.insert(
            path.to_string(),
            content.map(|s| s.to_string()).map_err(|e| e.to_string()),
        );
    }
    t
}

fn loaded(step: LoadStep) -> String {
    match step {
        LoadStep::Done(Ok(text)) => text,
        LoadStep::Done(Err(_)) => panic!("load failed"),
        LoadStep::NeedSource(p) => panic!("needs {p}"),
    }
}

#[test]
fn plain_source_is_loaded_verbatim() {
    let compiler = ShaderCompiler::new("shaders".to_string());
    let src = "fn main() {}\n\nlet x = 1;\n";
    let t = table(&[("shaders/plain.wgsl", Ok(src))]);
    assert_eq!(loaded(compiler.load("plain.wgsl", &t)), src);
}

#[test]
fn missing_final_newline_is_added() {
    let compiler = ShaderCompiler::new("shaders".to_string());
    let t = table(&[("shaders/a.wgsl", Ok("a\nb"))]);
    assert_eq!(loaded(compiler.load("a.wgsl", &t)), "a\nb\n");
}

#[test]
fn crlf_line_endings_become_newlines() {
    let compiler = ShaderCompiler::new("shaders".to_string());
    let t = table(&[("shaders/a.wgsl", Ok("a\r\nb\r\n"))]);
    assert_eq!(loaded(compiler.load("a.wgsl", &t)), "a\nb\n");
}

#[test]
fn empty_source_expands_to_nothing() {
    let compiler = ShaderCompiler::new("shaders".to_string());
    let t = table(&[("shaders/a.wgsl", Ok(""))]);
    assert_eq!(loaded(compiler.load("a.wgsl", &t)), "");
}

#[test]
fn directive_line_is_replaced_by_the_file() {
    let compiler = ShaderCompiler::new("shaders".to_string());
    let t = table(&[
        ("shaders/main.wgsl", Ok("// @include common.wgsl\nfn main() {}\n")),
        ("shaders/common.wgsl", Ok("fn helper() {}\n")),
    ]);
    assert_eq!(
        loaded(compiler.load("main.wgsl", &t)),
        "fn helper() {}\n\nfn main() {}\n"
    );
}

#[test]
fn directive_is_recognised_after_trimming() {
    let compiler = ShaderCompiler::new("shaders".to_string());
    let t = table(&[
        ("shaders/main.wgsl", Ok("x\n \t// @include common.wgsl  \ny\n")),
        ("shaders/common.wgsl", Ok("c")),
    ]);
    assert_eq!(loaded(compiler.load("main.wgsl", &t)), "x\nc\n\ny\n");
}

#[test]
fn directive_needs_its_exact_marker() {
    let compiler = ShaderCompiler::new("shaders".to_string());
    let src = "//@include common.wgsl\n// @Include common.wgsl\n";
    let t = table(&[("shaders/main.wgsl", Ok(src))]);
    assert_eq!(loaded(compiler.load("main.wgsl", &t)), src);
}

#[test]
fn paths_resolve_against_the_including_directory() {
    let compiler = ShaderCompiler::new("shaders".to_string());
    let t = table(&[(
        "shaders/noise_blur/noise.wgsl",
        Ok("// @include ../common/hash.wgsl\n"),
    )]);
    match compiler.load("noise_blur/noise.wgsl", &t) {
        LoadStep::NeedSource(p) => assert_eq!(p, "shaders/noise_blur/../common/hash.wgsl"),
        _ => panic!("expected a request for the included file"),
    }
}

#[test]
fn sources_are_requested_one_at_a_time() {
    let compiler = ShaderCompiler::new("shaders".to_string());
    let mut t = SourceTable::new();
    let mut requests = Vec::new();
    loop {
        match compiler.load("main.wgsl", &t) {
            LoadStep::NeedSource(p) => {
                requests.push(p.clone());
                let text = match p.as_str() {
                    "shaders/main.wgsl" => "// @include lib/a.wgsl\nmain\n",
                    "shaders/lib/a.wgsl" => "// @include b.wgsl\na\n",
                    "shaders/lib/b.wgsl" => "b\n",
                    _ => panic!("unexpected request {p}"),
                };
                t.insert(p, Ok(text.to_string()));
            }
            LoadStep::Done(r) => {
                assert_eq!(r.ok().unwrap(), "b\n\na\n\nmain\n");
                break;
            }
        }
    }
    assert_eq!(
        requests,
        vec!["shaders/main.wgsl", "shaders/lib/a.wgsl", "shaders/lib/b.wgsl"]
    );
}

#[test]
fn a_file_included_twice_is_expanded_twice() {
    let compiler = ShaderCompiler::new("s".to_string());
    let t = table(&[
        ("s/a.wgsl", Ok("// @include b.wgsl\n// @include c.wgsl\n")),
        ("s/b.wgsl", Ok("// @include d.wgsl\n")),
        ("s/c.wgsl", Ok("// @include d.wgsl\n")),
        ("s/d.wgsl", Ok("d\n")),
    ]);
    assert_eq!(loaded(compiler.load("a.wgsl", &t)), "d\n\n\nd\n\n\n");
}

#[test]
fn a_file_including_itself_is_a_cycle() {
    let compiler = ShaderCompiler::new("s".to_string());
    let t = table(&[("s/a.wgsl", Ok("x\n// @include a.wgsl\n"))]);
    match compiler.load("a.wgsl", &t) {
        LoadStep::Done(Err(LoadError::Cycle { path })) => assert_eq!(path, "a.wgsl"),
        _ => panic!("expected a cycle"),
    }
}

#[test]
fn an_indirect_cycle_is_reported_where_it_closes() {
    let compiler = ShaderCompiler::new("s".to_string());
    let t = table(&[
        ("s/a.wgsl", Ok("// @include b.wgsl\n")),
        ("s/b.wgsl", Ok("b\n// @include a.wgsl\n")),
    ]);
    match compiler.load("a.wgsl", &t) {
        LoadStep::Done(Err(LoadError::Cycle { path })) => assert_eq!(path, "a.wgsl"),
        _ => panic!("expected a cycle"),
    }
}

#[test]
fn a_dot_prefixed_path_is_another_file() {
    let compiler = ShaderCompiler::new("s".to_string());
    let t = table(&[
        ("s/a.wgsl", Ok("// @include ./a.wgsl\n")),
        ("s/./a.wgsl", Ok("inner\n")),
    ]);
    assert_eq!(loaded(compiler.load("a.wgsl", &t)), "inner\n\n");
}

#[test]
fn paths_with_redundant_separators_are_the_same_file() {
    let compiler = ShaderCompiler::new("s".to_string());
    let t = table(&[("s/dir//a.wgsl", Ok("// @include a.wgsl\n"))]);
    match compiler.load("dir//a.wgsl", &t) {
        LoadStep::Done(Err(LoadError::Cycle { path })) => assert_eq!(path, "dir/a.wgsl"),
        _ => panic!("expected a cycle"),
    }
}

#[test]
fn an_unreadable_file_is_a_read_error() {
    let compiler = ShaderCompiler::new("s".to_string());
    let t = table(&[
        ("s/a.wgsl", Ok("// @include gone.wgsl\n")),
        ("s/gone.wgsl", Err("No such file or directory")),
    ]);
    match compiler.load("a.wgsl", &t) {
        LoadStep::Done(Err(LoadError::Read { path, reason })) => {
            assert_eq!(path, "s/gone.wgsl");
            assert_eq!(reason, "No such file or directory");
        }
        _ => panic!("expected a read error"),
    }
}

#[test]
fn valid_wgsl_compiles_to_its_source() {
    let compiler = ShaderCompiler::new("s".to_string());
    let src = "@fragment\nfn fs_main() -> @location(0) vec4<f32> {\n    return vec4<f32>(1.0, 0.0, 0.0, 1.0);\n}\n";
    let t = table(&[("s/red.wgsl", Ok(src))]);
    match compiler.compile("red.wgsl", &t) {
        CompileStep::Done(Ok(out)) => assert_eq!(out, src),
        _ => panic!("expected the source back"),
    }
}

#[test]
fn invalid_wgsl_is_rejected_with_a_diagnostic() {
    let compiler = ShaderCompiler::new("s".to_string());
    let t = table(&[("s/bad.wgsl", Ok("fn broken( {\n"))]);
    match compiler.compile("bad.wgsl", &t) {
        CompileStep::Done(Err(ShaderError::Invalid { path, diagnostic })) => {
            assert_eq!(path, "bad.wgsl");
            assert!(diagnostic.contains("error"));
        }
        _ => panic!("expected a validation error"),
    }
}

#[test]
fn compile_passes_load_errors_on() {
    let compiler = ShaderCompiler::new("s".to_string());
    let t = table(&[("s/a.wgsl", Ok("// @include a.wgsl\n"))]);
    match compiler.compile("a.wgsl", &t) {
        CompileStep::Done(Err(ShaderError::Load(LoadError::Cycle { path }))) => {
            assert_eq!(path, "a.wgsl")
        }
        _ => panic!("expected the cycle"),
    }
}

#[test]
fn compile_asks_for_missing_sources() {
    let compiler = ShaderCompiler::new("s".to_string());
    let t = SourceTable::new();
    match compiler.compile("a.wgsl", &t) {
        CompileStep::NeedSource(p) => assert_eq!(p, "s/a.wgsl"),
        _ => panic!("expected a request"),
    }
}

#[test]
fn diagnostic_decides_the_verdict() {
    match check_diagnostic("x.wgsl", "src".to_string(), None) {
        Ok(s) => assert_eq!(s, "src"),
        Err(_) => panic!("expected success"),
    }
    match check_diagnostic("x.wgsl", "src".to_string(), Some("bad token".to_string())) {
        Err(ShaderError::Invalid { path, diagnostic }) => {
            assert_eq!(path, "x.wgsl");
            assert_eq!(diagnostic, "bad token");
        }
        _ => panic!("expected a failure"),
    }
}

#[test]
fn later_sources_do_not_change_a_finished_load() {
    let compiler = ShaderCompiler::new("s".to_string());
    let mut t = table(&[("s/a.wgsl", Ok("a\n"))]);
    let before = loaded(compiler.load("a.wgsl", &t));
    t.insert("s/other.wgsl".to_string(), Ok("other\n".to_string()));
    assert_eq!(loaded(compiler.load("a.wgsl", &t)), before);
}
