use cppgen::accessors;
use cppgen::aliases::build_nested_aliases;
use cppgen::config::GenerationConfig;
use cppgen::context::CppContext;
use cppgen::cpp_type::CppType;
use cppgen::errors::CodegenError;
use cppgen::instantiate::fill_generic_class_instantiations;
use cppgen::members::{
    CppFieldDecl, CppFieldImpl, CppForwardDeclare, CppInclude, CppParam, CppTemplate,
};
use cppgen::metadata::{
    check_wf, Blacklist, FieldMeta, GenericInstRow, Metadata, MethodMeta, TypeDefMeta,
    DECLARING_NONE,
};
use cppgen::registry::{attach_nested, make_nested_types, make_top_level_types, InstEntry};
use cppgen::resolve::resolve_dependencies;
use cppgen::strutil::{str_contains_sub, str_eq, str_vec_eq, u32_to_hex};

fn config() -> GenerationConfig {
    GenerationConfig {
        header_path: String::from("./codegen/include"),
        source_path: String::from("./codegen/src"),
        dst_internals_path: String::from("./codegen/include/cordl_internals"),
        dst_header_internals_file: String::from(
            "./codegen/include/cordl_internals/cordl_internals.hpp",
        ),
        use_anonymous_namespace: false,
    }
}

fn field_meta(name: &str, ty: &str, offset: u32, is_value_type: bool) -> FieldMeta {
    FieldMeta {
        name: name.to_string(),
        ty_name: ty.to_string(),
        offset,
        instance: true,
        readonly: false,
        is_value_type,
        literal_value: None,
    }
}

fn type_def(ns: &str, name: &str, full: &str, value_type: bool) -> TypeDefMeta {
    TypeDefMeta {
        namespace: ns.to_string(),
        name: name.to_string(),
        full_name: full.to_string(),
        declaring_index: DECLARING_NONE,
        is_value_type: value_type,
        is_enum: false,
        is_interface: false,
        generic_params: Vec::new(),
        fields: Vec::new(),
    }
}

fn vector3_field(name: &str, offset: u32) -> CppFieldDecl {
    CppFieldDecl {
        name: name.to_string(),
        ty: "float".to_string(),
        offset,
        instance: true,
        readonly: false,
        classof_call: "Vector3".to_string(),
        literal_value: None,
        is_value_type: true,
        declaring_is_reference: false,
    }
}

#[test]
fn hex_rendering_exact() {
    assert_eq!(u32_to_hex(0), "0");
    assert_eq!(u32_to_hex(4), "4");
    assert_eq!(u32_to_hex(8), "8");
    assert_eq!(u32_to_hex(255), "ff");
    assert_eq!(u32_to_hex(0x2a), "2a");
    assert_eq!(u32_to_hex(0xdeadbeef), "deadbeef");
}

#[test]
fn string_helpers() {
    assert!(str_eq("abc", "abc"));
    assert!(!str_eq("abc", "abd"));
    assert!(str_contains_sub("NetworkPacketSerializer`2::<>c__DisplayClass4_0`1", "<>c__DisplayClass"));
    assert!(!str_contains_sub("PlainType", "<>c__DisplayClass"));
    assert!(str_contains_sub("anything", ""));
    assert!(str_vec_eq(
        &vec!["a".to_string(), "b".to_string()],
        &vec!["a".to_string(), "b".to_string()]
    ));
    assert!(!str_vec_eq(&vec!["a".to_string()], &vec!["b".to_string()]));
}

#[test]
fn params_render_with_defaults() {
    let params = vec![
        CppParam {
            name: "count".to_string(),
            ty: "int".to_string(),
            modifiers: String::new(),
            def_value: Some("0".to_string()),
        },
        CppParam {
            name: "obj".to_string(),
            ty: "Il2CppObject*".to_string(),
            modifiers: " const".to_string(),
            def_value: None,
        },
    ];
    let args = CppParam::params_as_args(&params);
    assert_eq!(args, vec!["int count = 0".to_string(), "Il2CppObject* const obj".to_string()]);
    let no_def = CppParam::params_as_args_no_default(&params);
    assert_eq!(no_def, vec!["int count".to_string(), "Il2CppObject* const obj".to_string()]);
    assert_eq!(CppParam::params_names(&params), vec!["count".to_string(), "obj".to_string()]);
    assert_eq!(
        CppParam::params_types(&params),
        vec!["int".to_string(), "Il2CppObject*".to_string()]
    );
    assert_eq!(
        CppParam::params_il2cpp_types(&params),
        vec![
            "::il2cpp_utils::ExtractType(count)".to_string(),
            "::il2cpp_utils::ExtractType(obj)".to_string()
        ]
    );
}

#[test]
fn forward_declare_from_type() {
    let t = CppType {
        namespace: "UnityEngine".to_string(),
        name: "Color".to_string(),
        is_value_type: true,
        is_enum_type: false,
        is_interface: false,
        nested: false,
        cpp_template: None,
        generic_instantiation_args: None,
        fields: Vec::new(),
        declarations: Vec::new(),
        implementations: Vec::new(),
    };
    let fd = CppForwardDeclare::from_cpp_type(&t);
    assert!(fd.is_struct);
    assert_eq!(fd.namespace, Some("UnityEngine".to_string()));
    assert_eq!(fd.name, "Color");
    assert_eq!(fd.templates, None);
    assert_eq!(fd.literals, None);
}

#[test]
fn header_references() {
    let sys = CppInclude::new_system("cstdint");
    assert!(sys.system);
    assert_eq!(sys.path, "cstdint");
    let local = CppInclude::new("beatsaber-hook/shared/utils/il2cpp-utils.hpp");
    assert!(!local.system);

    let ctx = CppContext {
        typedef_path: "./codegen/include/UnityEngine/Color.hpp".to_string(),
        headers: Vec::new(),
        forward_groups: Vec::new(),
    };
    let inc = CppInclude::new_context(&ctx, &config()).expect("relative path must exist");
    assert!(!inc.system);
    // the relative path differs from the raw input: the header root is stripped
    assert_eq!(inc.path, "UnityEngine/Color.hpp");
}

#[test]
fn vector3_accessors_use_exact_offsets() {
    // a non-generic value type with three instance float fields, accessed by value
    let fields = vec![vector3_field("x", 0x0), vector3_field("y", 0x4), vector3_field("z", 0x8)];
    let offsets = ["0x0", "0x4", "0x8"];
    for (i, f) in fields.iter().enumerate() {
        let decl_getter = f.write_field_getter();
        assert_eq!(decl_getter.len(), 3);
        assert_eq!(decl_getter[0], format!("/// @brief Field getter for {}", f.name));
        assert_eq!(decl_getter[1], format!("/// @return value at offset {}", offsets[i]));
        // accessed by value: no reference-returning variant
        assert_eq!(decl_getter[2], format!("float __get_{}();", f.name));

        let putter = f.write_field_putter().expect("not readonly");
        assert_eq!(putter[2], format!("void __put_{}(float value);", f.name));

        let imp = CppFieldImpl { klass_name: "Vector3".to_string(), field: f.clone() };
        let getter = imp.write_field_getter();
        assert_eq!(getter[0], format!("float Vector3::__get_{}() {{", f.name));
        assert_eq!(
            getter[1],
            format!("return getValueTypeInstance<float, {}>(this);", offsets[i])
        );
        assert_eq!(getter[2], "}");
        let putter_impl = imp.write_field_putter().expect("not readonly");
        assert_eq!(
            putter_impl[1],
            format!("setValueTypeInstance<float, {}>(this, value);", offsets[i])
        );
    }
}

#[test]
fn reference_held_value_field_returns_reference() {
    let mut f = vector3_field("m_value", 0x10);
    f.declaring_is_reference = true;
    let lines = f.write_field_getter();
    assert_eq!(lines[2], "float& __get_m_value();");
    let imp = CppFieldImpl { klass_name: "Holder".to_string(), field: f };
    let getter = imp.write_field_getter();
    assert_eq!(getter[0], "float& Holder::__get_m_value() {");
    assert_eq!(getter[1], "return getValueTypeInstance<float, 0x10>(instance);");
}

#[test]
fn static_field_accessor_uses_type_lookup() {
    let mut f = vector3_field("one", 0x0);
    f.instance = false;
    let decl = f.write_field_getter();
    assert_eq!(decl.len(), 2);
    assert_eq!(decl[1], "static float __get_one();");
    // an offset is meaningful only for instance fields: the static
    // putter carries no offset doc line
    let putter = f.write_field_putter().expect("not readonly");
    assert_eq!(putter.len(), 2);
    assert_eq!(putter[0], "/// @brief Field putter for one");
    assert_eq!(putter[1], "static void __put_one(float value);");
    let imp = CppFieldImpl { klass_name: "Vector3".to_string(), field: f };
    let getter = imp.write_field_getter();
    assert_eq!(getter[1], "return getValueTypeStatic<float, \"one\", Vector3>();");
}

#[test]
fn readonly_putter_rejected() {
    let mut f = vector3_field("len", 0xc);
    f.readonly = true;
    assert_eq!(f.write_field_putter(), Err(CodegenError::ReadonlyField));
    let imp = CppFieldImpl { klass_name: "Vector3".to_string(), field: f.clone() };
    assert_eq!(imp.write_field_putter(), Err(CodegenError::ReadonlyField));
    // the getter of a readonly reference-held value field is const
    let mut g = f;
    g.declaring_is_reference = true;
    let lines = g.write_field_getter();
    assert_eq!(lines[2], "const float& __get_len();");
}

#[test]
fn blacklist_exact_and_pattern() {
    let md = Metadata {
        type_defs: vec![
            type_def("", "NetworkPacketSerializer`2::<>c__DisplayClass4_0`1", "NetworkPacketSerializer`2::<>c__DisplayClass4_0`1", false),
            type_def("UnityEngine", "Color", "UnityEngine.Color", true),
            type_def("", "Foo<>c__DisplayClass8_0", "Foo<>c__DisplayClass8_0", false),
        ],
        methods: Vec::new(),
        generic_insts: Vec::new(),
    };
    let mut bl = Blacklist::new(&md);
    assert!(bl.exclude_exact(&md, "NetworkPacketSerializer`2::<>c__DisplayClass4_0`1"));
    assert!(!bl.exclude_exact(&md, "DoesNotExist"));
    assert!(bl.exclude_matching(&md, "<>c__DisplayClass"));
    assert!(bl.is_excluded(0));
    assert!(!bl.is_excluded(1));
    assert!(bl.is_excluded(2));
    // an excluded type never gets a declaration
    let reg = make_top_level_types(&md, &bl, &config());
    assert!(reg.defs[0].is_none());
    assert!(reg.defs[1].is_some());
    assert!(reg.defs[2].is_none());
}

#[test]
fn nested_types_inherit_root_namespace() {
    let mut outer = type_def("Game", "Outer", "Game.Outer", false);
    outer.generic_params = Vec::new();
    let mut inner = type_def("", "Inner", "Game.Outer::Inner", false);
    inner.declaring_index = 0;
    let mut deepest = type_def("", "Deepest", "Game.Outer::Inner::Deepest", false);
    deepest.declaring_index = 1;
    let md = Metadata {
        type_defs: vec![outer, inner, deepest],
        methods: Vec::new(),
        generic_insts: Vec::new(),
    };
    let bl = Blacklist::new(&md);
    let mut reg = make_top_level_types(&md, &bl, &config());
    make_nested_types(&mut reg, &md, &bl).expect("chains are whole");
    attach_nested(&mut reg, &md).expect("enclosing types exist");

    let inner_entry = reg.defs[1].as_ref().expect("created");
    assert!(inner_entry.decl.nested);
    assert_eq!(inner_entry.decl.namespace, "Game");
    assert_eq!(inner_entry.root, 0);
    let deepest_entry = reg.defs[2].as_ref().expect("created");
    assert_eq!(deepest_entry.decl.namespace, "Game");
    assert_eq!(deepest_entry.root, 0);
    // each nested type is recorded under exactly its declaring type
    assert_eq!(reg.defs[0].as_ref().unwrap().children, vec![1]);
    assert_eq!(reg.defs[1].as_ref().unwrap().children, vec![2]);
    assert_eq!(reg.defs[2].as_ref().unwrap().children, Vec::<u32>::new());

    let aliases = build_nested_aliases(&reg, 0);
    assert_eq!(aliases.len(), 1);
    assert_eq!(aliases[0].alias, "Inner");
    assert_eq!(aliases[0].result, "Outer::Inner");
    assert_eq!(aliases[0].namespaze, Some("Game".to_string()));
}

#[test]
fn malformed_declaring_chain_is_fatal() {
    let mut bad = type_def("", "Bad", "Bad", false);
    bad.declaring_index = 7;  // out of range
    let md = Metadata {
        type_defs: vec![type_def("", "Top", "Top", false), bad],
        methods: Vec::new(),
        generic_insts: Vec::new(),
    };
    let bl = Blacklist::new(&md);
    let mut reg = make_top_level_types(&md, &bl, &config());
    assert_eq!(
        make_nested_types(&mut reg, &md, &bl),
        Err(CodegenError::MalformedTypeIndex { tdi: 1 })
    );
}

#[test]
fn declaring_cycle_is_fatal() {
    let mut a = type_def("", "A", "A", false);
    a.declaring_index = 1;
    let mut b = type_def("", "B", "B", false);
    b.declaring_index = 0;
    let md = Metadata { type_defs: vec![a, b], methods: Vec::new(), generic_insts: Vec::new() };
    let bl = Blacklist::new(&md);
    let mut reg = make_top_level_types(&md, &bl, &config());
    assert!(matches!(
        make_nested_types(&mut reg, &md, &bl),
        Err(CodegenError::MalformedTypeIndex { .. })
    ));
}

fn generic_metadata(rows: Vec<GenericInstRow>) -> Metadata {
    let mut list = type_def("System.Collections.Generic", "List`1", "System.Collections.Generic.List`1", false);
    list.generic_params = vec!["T".to_string()];
    list.fields = vec![FieldMeta {
        name: "_items".to_string(),
        ty_name: "T".to_string(),
        offset: 0x10,
        instance: true,
        readonly: false,
        is_value_type: false,
        literal_value: None,
    }];
    Metadata {
        type_defs: vec![list],
        methods: vec![MethodMeta { owner: 0, name: "Add".to_string() }],
        generic_insts: rows,
    }
}

fn row(args: &[&str]) -> GenericInstRow {
    GenericInstRow {
        method_index: 0,
        type_args: args.iter().map(|s| s.to_string()).collect(),
    }
}

#[test]
fn duplicate_instantiation_is_skipped() {
    // the same type arguments twice: one declaration, the second is a no-op
    let md = generic_metadata(vec![row(&["int"]), row(&["int"])]);
    let bl = Blacklist::new(&md);
    let mut reg = make_top_level_types(&md, &bl, &config());
    let stats = fill_generic_class_instantiations(&mut reg, &md).expect("no mismatch");
    assert_eq!(stats.created, 1);
    assert_eq!(stats.duplicates, 1);
    assert_eq!(reg.insts.len(), 1);
    assert_eq!(reg.insts[0].decl.name, "List`1<int>");
    assert_eq!(reg.insts[0].decl.namespace, "System.Collections.Generic");
    // the template parameter was substituted in the member shape
    assert_eq!(reg.insts[0].decl.fields[0].ty, "int");
    assert_eq!(reg.insts[0].decl.fields[0].offset, 0x10);
}

#[test]
fn distinct_instantiations_both_registered() {
    let md = generic_metadata(vec![row(&["int"]), row(&["float"])]);
    let bl = Blacklist::new(&md);
    let mut reg = make_top_level_types(&md, &bl, &config());
    let stats = fill_generic_class_instantiations(&mut reg, &md).expect("no mismatch");
    assert_eq!(stats.created, 2);
    assert_eq!(reg.insts[0].decl.name, "List`1<int>");
    assert_eq!(reg.insts[1].decl.name, "List`1<float>");
}

#[test]
fn instantiation_is_deterministic() {
    // the same ordered table twice: identical declarations in identical order
    let md = generic_metadata(vec![row(&["int"]), row(&["string, object"]), row(&["int"])]);
    let bl = Blacklist::new(&md);
    let mut reg1 = make_top_level_types(&md, &bl, &config());
    let mut reg2 = make_top_level_types(&md, &bl, &config());
    fill_generic_class_instantiations(&mut reg1, &md).expect("no mismatch");
    fill_generic_class_instantiations(&mut reg2, &md).expect("no mismatch");
    assert_eq!(reg1.insts.len(), reg2.insts.len());
    for (a, b) in reg1.insts.iter().zip(reg2.insts.iter()) {
        assert_eq!(a.tdi, b.tdi);
        assert_eq!(a.args, b.args);
        assert_eq!(a.decl.name, b.decl.name);
        assert_eq!(a.decl.namespace, b.decl.namespace);
    }
}

#[test]
fn argument_count_mismatch_is_fatal() {
    let md = generic_metadata(vec![row(&["int", "float"])]);
    let bl = Blacklist::new(&md);
    let mut reg = make_top_level_types(&md, &bl, &config());
    assert_eq!(
        fill_generic_class_instantiations(&mut reg, &md),
        Err(CodegenError::TemplateArgMismatch { expected: 1, got: 2 })
    );
}

#[test]
fn unresolved_instantiation_is_skipped_not_fatal() {
    let mut r = row(&["int"]);
    r.method_index = 99;  // no such method
    let md = generic_metadata(vec![r]);
    let bl = Blacklist::new(&md);
    let mut reg = make_top_level_types(&md, &bl, &config());
    let stats = fill_generic_class_instantiations(&mut reg, &md).expect("skipped, not fatal");
    assert_eq!(stats.created, 0);
    assert_eq!(stats.skipped, 1);
}

#[test]
fn duplicate_insert_is_noop() {
    let decl = CppType {
        namespace: "NS".to_string(),
        name: "T<int>".to_string(),
        is_value_type: false,
        is_enum_type: false,
        is_interface: false,
        nested: false,
        cpp_template: None,
        generic_instantiation_args: Some(vec!["int".to_string()]),
        fields: Vec::new(),
        declarations: Vec::new(),
        implementations: Vec::new(),
    };
    let md = Metadata { type_defs: Vec::new(), methods: Vec::new(), generic_insts: Vec::new() };
    let bl = Blacklist::new(&md);
    let mut reg = make_top_level_types(&md, &bl, &config());
    let entry = InstEntry { tdi: 0, args: vec!["int".to_string()], decl: decl.clone() };
    assert!(reg.insert_instantiation(entry));
    let entry2 = InstEntry { tdi: 0, args: vec!["int".to_string()], decl };
    assert!(!reg.insert_instantiation(entry2));
    assert_eq!(reg.insts.len(), 1);
}

fn two_classes(a_holds_b_inline: bool) -> Metadata {
    let mut a = type_def("Game", "A", "Game.A", false);
    a.fields = vec![FieldMeta {
        name: "other".to_string(),
        ty_name: "Game.B".to_string(),
        offset: 0x10,
        instance: true,
        readonly: false,
        is_value_type: a_holds_b_inline,
        literal_value: None,
    }];
    let mut b = type_def("Game", "B", "Game.B", false);
    b.fields = vec![FieldMeta {
        name: "other".to_string(),
        ty_name: "Game.A".to_string(),
        offset: 0x10,
        instance: true,
        readonly: false,
        is_value_type: false,
        literal_value: None,
    }];
    Metadata { type_defs: vec![a, b], methods: Vec::new(), generic_insts: Vec::new() }
}

#[test]
fn mutual_handles_forward_declare_without_cycle() {
    // two classes each holding a handle to the other: both forward
    // declare, neither unit depends on the other's definition
    let md = two_classes(false);
    let bl = Blacklist::new(&md);
    let reg = make_top_level_types(&md, &bl, &config());
    for (root, other) in [(0usize, "B"), (1usize, "A")] {
        let deps = resolve_dependencies(&reg, &md, root);
        assert!(deps.unit_deps.is_empty());
        assert_eq!(deps.forward_decls.len(), 1);
        assert_eq!(deps.forward_decls[0].name, other);
        assert_eq!(deps.forward_decls[0].namespace, Some("Game".to_string()));
        assert!(!deps.forward_decls[0].is_struct);
        assert_eq!(deps.unresolved, 0);
    }
}

#[test]
fn inline_field_requires_full_unit() {
    let md = two_classes(true);
    let bl = Blacklist::new(&md);
    let reg = make_top_level_types(&md, &bl, &config());
    let deps = resolve_dependencies(&reg, &md, 0);
    // A holds B inline: B's unit is a full dependency of A's unit
    assert_eq!(deps.unit_deps, vec![1]);
    let headers = cppgen::resolve::unit_headers(&reg, &deps.unit_deps, &config());
    assert_eq!(headers.len(), 1);
    assert!(!headers[0].system);
    // the reference between two units is the relative path between their
    // declared output locations
    assert_eq!(headers[0].path, "Game/B.hpp");
}

#[test]
fn unresolved_reference_degrades() {
    let mut a = type_def("Game", "A", "Game.A", false);
    a.fields = vec![FieldMeta {
        name: "mystery".to_string(),
        ty_name: "Not.In.Table".to_string(),
        offset: 0x10,
        instance: true,
        readonly: false,
        is_value_type: true,
        literal_value: None,
    }];
    let md = Metadata { type_defs: vec![a], methods: Vec::new(), generic_insts: Vec::new() };
    let bl = Blacklist::new(&md);
    let reg = make_top_level_types(&md, &bl, &config());
    let deps = resolve_dependencies(&reg, &md, 0);
    assert_eq!(deps.unresolved, 1);
    assert!(deps.unit_deps.is_empty());
    assert!(deps.forward_decls.is_empty());
}

#[test]
fn missing_enclosing_is_fatal() {
    let mut outer = type_def("Game", "Outer", "Game.Outer", false);
    outer.generic_params = Vec::new();
    let mut inner = type_def("", "Inner", "Game.Outer::Inner", false);
    inner.declaring_index = 0;
    let md = Metadata {
        type_defs: vec![outer, inner],
        methods: Vec::new(),
        generic_insts: Vec::new(),
    };
    let bl = Blacklist::new(&md);
    let mut reg = make_top_level_types(&md, &bl, &config());
    make_nested_types(&mut reg, &md, &bl).expect("chains are whole");
    // an inconsistent registry: the nested entry survives, its enclosing slot is emptied
    reg.defs[0] = None;
    assert_eq!(
        attach_nested(&mut reg, &md),
        Err(CodegenError::MissingEnclosing { tdi: 1 })
    );
}

#[test]
fn accessor_spec_table_is_exhaustive() {
    // every cell of the shape table emits through exactly one primitive
    let mut cases: Vec<(bool, bool, bool, &str)> = Vec::new();
    cases.push((true, true, true, "return getValueTypeInstance<float, 0x4>(instance);"));
    cases.push((true, true, false, "return getValueTypeInstance<float, 0x4>(this);"));
    cases.push((true, false, false, "return getReferenceTypeInstance<float, 0x4>(this);"));
    cases.push((false, true, false, "return getValueTypeStatic<float, \"f\", K>();"));
    cases.push((false, false, false, "return getReferenceTypeStatic<float, \"f\", K>();"));
    for (instance, is_value_type, declaring_is_reference, expected) in cases {
        let f = CppFieldDecl {
            name: "f".to_string(),
            ty: "float".to_string(),
            offset: 0x4,
            instance,
            readonly: false,
            classof_call: "K".to_string(),
            literal_value: None,
            is_value_type,
            declaring_is_reference,
        };
        let imp = CppFieldImpl { klass_name: "K".to_string(), field: f };
        assert_eq!(imp.write_field_getter()[1], expected);
    }
}

#[test]
fn template_shapes_carry_over() {
    let t = CppType {
        namespace: "NS".to_string(),
        name: "Wrapper`1".to_string(),
        is_value_type: false,
        is_enum_type: false,
        is_interface: false,
        nested: false,
        cpp_template: Some(CppTemplate { names: vec!["T".to_string()] }),
        generic_instantiation_args: None,
        fields: Vec::new(),
        declarations: Vec::new(),
        implementations: Vec::new(),
    };
    let fd = CppForwardDeclare::from_cpp_type(&t);
    assert_eq!(fd.templates, Some(CppTemplate { names: vec!["T".to_string()] }));
}

#[test]
fn metadata_validation_decides_wf() {
    let good = two_classes(false);
    assert!(check_wf(&good));

    // repeated raw (namespace, simple name) pairs are fine as long as
    // the full qualified names differ, as with nested synthesized types
    let shared_simple = Metadata {
        type_defs: vec![
            type_def("", "Inner", "Game.Outer::Inner", false),
            type_def("", "Inner", "Game.Other::Inner", false),
        ],
        methods: Vec::new(),
        generic_insts: Vec::new(),
    };
    assert!(check_wf(&shared_simple));

    // duplicate full names are rejected
    let dup = Metadata {
        type_defs: vec![type_def("Game", "A", "Game.A", false), type_def("Game2", "A2", "Game.A", false)],
        methods: Vec::new(),
        generic_insts: Vec::new(),
    };
    assert!(!check_wf(&dup));

    // a method owner outside the table is rejected
    let bad_owner = Metadata {
        type_defs: vec![type_def("Game", "A", "Game.A", false)],
        methods: vec![MethodMeta { owner: 9, name: "M".to_string() }],
        generic_insts: Vec::new(),
    };
    assert!(!check_wf(&bad_owner));
}

#[test]
fn run_summary_counts_are_exact() {
    // one skipped row (missing method), one duplicate, one created
    let mut missing = row(&["int"]);
    missing.method_index = 42;
    let md = generic_metadata(vec![missing, row(&["int"]), row(&["int"])]);
    let bl = Blacklist::new(&md);
    let mut reg = make_top_level_types(&md, &bl, &config());
    let stats = fill_generic_class_instantiations(&mut reg, &md).expect("no mismatch");
    assert_eq!(stats.created, 1);
    assert_eq!(stats.skipped, 1);
    assert_eq!(stats.duplicates, 1);
}

#[test]
fn unresolved_count_is_exact() {
    let mut a = type_def("Game", "A", "Game.A", false);
    a.fields = vec![
        FieldMeta {
            name: "known".to_string(),
            ty_name: "Game.B".to_string(),
            offset: 0x10,
            instance: true,
            readonly: false,
            is_value_type: false,
            literal_value: None,
        },
        FieldMeta {
            name: "mystery1".to_string(),
            ty_name: "Not.In.Table".to_string(),
            offset: 0x18,
            instance: true,
            readonly: false,
            is_value_type: true,
            literal_value: None,
        },
        FieldMeta {
            name: "mystery2".to_string(),
            ty_name: "Also.Missing".to_string(),
            offset: 0x20,
            instance: true,
            readonly: false,
            is_value_type: false,
            literal_value: None,
        },
    ];
    let b = type_def("Game", "B", "Game.B", false);
    let md = Metadata { type_defs: vec![a, b], methods: Vec::new(), generic_insts: Vec::new() };
    let bl = Blacklist::new(&md);
    let reg = make_top_level_types(&md, &bl, &config());
    let deps = resolve_dependencies(&reg, &md, 0);
    assert_eq!(deps.unresolved, 2);
    assert_eq!(deps.forward_decls.len(), 1);
}

#[test]
fn forward_declares_group_by_namespace() {
    let fd = |ns: Option<&str>, name: &str| CppForwardDeclare {
        is_struct: false,
        namespace: ns.map(|s| s.to_string()),
        name: name.to_string(),
        templates: None,
        literals: None,
    };
    let fwds = vec![
        fd(Some("Game"), "A"),
        fd(Some("UnityEngine"), "Color"),
        fd(Some("Game"), "B"),
        fd(None, "Inner"),
    ];
    let groups = cppgen::resolve::group_forward_declares(&fwds);
    assert_eq!(groups.len(), 3);
    assert_eq!(groups[0].namespace, Some("Game".to_string()));
    assert_eq!(groups[0].items.len(), 2);
    assert_eq!(groups[0].items[0].name, "A");
    assert_eq!(groups[0].items[1].name, "B");
    assert_eq!(groups[1].namespace, Some("UnityEngine".to_string()));
    assert_eq!(groups[1].items.len(), 1);
    assert_eq!(groups[2].namespace, None);
    assert_eq!(groups[2].items[0].name, "Inner");
}

#[test]
fn nested_member_references_contribute() {
    let outer = type_def("Game", "Outer", "Game.Outer", false);
    let mut inner = type_def("", "Inner", "Game.Outer::Inner", false);
    inner.declaring_index = 0;
    inner.fields = vec![FieldMeta {
        name: "other".to_string(),
        ty_name: "Game.Other".to_string(),
        offset: 0x10,
        instance: true,
        readonly: false,
        is_value_type: false,
        literal_value: None,
    }];
    let other = type_def("Game", "Other", "Game.Other", false);
    let md = Metadata {
        type_defs: vec![outer, inner, other],
        methods: Vec::new(),
        generic_insts: Vec::new(),
    };
    let bl = Blacklist::new(&md);
    let mut reg = make_top_level_types(&md, &bl, &config());
    make_nested_types(&mut reg, &md, &bl).expect("chains are whole");
    // the nested member's handle reference forward-declares Other
    let deps = cppgen::resolve::resolve_member_dependencies(&reg, &md, 0, 1);
    assert!(deps.unit_deps.is_empty());
    assert_eq!(deps.forward_decls.len(), 1);
    assert_eq!(deps.forward_decls[0].name, "Other");
}

#[test]
fn substitution_reaches_nested_occurrences() {
    // the parameter is rewritten inside a compound type string, but a
    // longer identifier that merely contains it is left alone
    let mut list = type_def("System", "Wrapper`1", "System.Wrapper`1", false);
    list.generic_params = vec!["T".to_string()];
    list.fields = vec![
        field_meta("items", "List`1<T>", 0x10, false),
        field_meta("transform", "Transform", 0x18, false),
        field_meta("bare", "T", 0x20, false),
    ];
    let md = Metadata {
        type_defs: vec![list],
        methods: vec![MethodMeta { owner: 0, name: "Get".to_string() }],
        generic_insts: vec![row(&["int"])],
    };
    let bl = Blacklist::new(&md);
    let mut reg = make_top_level_types(&md, &bl, &config());
    fill_generic_class_instantiations(&mut reg, &md).expect("no mismatch");
    assert_eq!(reg.insts.len(), 1);
    assert_eq!(reg.insts[0].decl.fields[0].ty, "List`1<int>");
    assert_eq!(reg.insts[0].decl.fields[1].ty, "Transform");
    assert_eq!(reg.insts[0].decl.fields[2].ty, "int");
    // the blacklisted-types count is part of the auditable run summary
    assert_eq!(bl.excluded_count(), 0);
}
