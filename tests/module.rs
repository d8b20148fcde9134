use wiredforge::module::Module;

#[test]
fn module_with_one_export() {
    let m = Module {
        name: String::from("wasm"),
        path: String::from("'./app_bg.wasm'"),
        exports: vec![String::from("greet")],
        body: String::from("line one\nline two"),
    };
    let want = String::from("let wasm;\n")
        + "let import_obj = {\n"
        + "    './wasm':     {\n"
        + "        greet: greet,\n"
        + "            },\n"
        + "    __wbindgen_placeholder__:     {\n"
        + "        greet: function() { },\n"
        + "    },\n"
        + "};\n"
        + "export const booted = fetch('./app_bg.wasm')\n"
        + "    .then(res => arrayBuffer())\n"
        + "    .then(bytes => {\n"
        + "        return WebAssembly.instantiate(bytes, import_obj)\n"
        + "            .then(obj => {\n"
        + "            wasm = obj.instance.exports;\n"
        + "        });\n"
        + "    });\n"
        + "line one\nline two";
    assert_eq!(m.to_string(), want);
}

#[test]
fn module_without_exports() {
    let m = Module {
        name: String::from("w"),
        path: String::from("p"),
        exports: Vec::new(),
        body: String::new(),
    };
    let text = m.to_string();
    assert!(text.starts_with("let w;\nlet import_obj = {\n    './wasm':     {\n    },\n"));
    assert!(text.contains("__wbindgen_placeholder__:     {\n    },\n};"));
    assert!(text.ends_with("w = obj.instance.exports;\n        });\n    });\n"));
}

#[test]
fn module_with_two_exports_keeps_their_order() {
    let m = Module {
        name: String::from("w"),
        path: String::from("p"),
        exports: vec![String::from("a"), String::from("b")],
        body: String::new(),
    };
    let text = m.to_string();
    assert!(text.contains("        a: a,\n                b: b,\n            }"));
    assert!(text.contains("        a: function() { },\n        b: function() { },\n    },"));
}
