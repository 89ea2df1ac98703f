use wayland_client::catalog::Catalog;
use wayland_client::compiler::{
    classify_arg_type, compile_entry, compile_interface, compile_protocol, entry_type_name,
    CompileError, RawArg, RawDescription, RawElement, RawEntry, RawEnum, RawInterface, RawMessage,
    RawProtocol,
};
use wayland_client::schema::{ArgType, EventType, RequestType};
use wayland_client::text::{parse_literal, pascal_case, trim_text};

fn s(x: &str) -> String {
    x.to_string()
}

fn arg(name: &str, ty: &str, iface: Option<&str>, en: Option<&str>) -> RawArg {
    RawArg {
        name: s(name),
        arg_type: s(ty),
        summary: None,
        interface: iface.map(s),
        allow_null: None,
        enum_ref: en.map(s),
        description: None,
    }
}

fn msg(name: &str, args: Vec<RawArg>) -> RawMessage {
    RawMessage {
        name: s(name),
        kind: None,
        since: None,
        deprecated_since: None,
        description: None,
        args,
    }
}

fn entry(name: &str, value: &str) -> RawEntry {
    RawEntry {
        name: s(name),
        value: s(value),
        summary: None,
        since: None,
        deprecated_since: None,
        description: None,
    }
}

fn interface(name: &str, version: &str, elements: Vec<RawElement>) -> RawInterface {
    RawInterface { name: s(name), version: s(version), description: None, elements }
}

fn protocol(name: &str, interfaces: Vec<RawInterface>) -> RawProtocol {
    RawProtocol { name: s(name), copyright: None, description: None, interfaces }
}

fn sample_protocol() -> RawProtocol {
    let mut destroy = msg("destroy", vec![]);
    destroy.kind = Some(s("destructor"));
    let mut frame = msg("frame", vec![arg("callback", "new_id", Some("wl_callback"), None)]);
    frame.since = Some(s("3"));
    frame.deprecated_since = Some(s("0x5"));
    let transform = RawEnum {
        name: s("output_transform"),
        since: Some(s("2")),
        bitfield: Some(s("true")),
        description: Some(RawDescription { summary: s("transform"), content: Some(s("  padded text \n")) }),
        entries: vec![entry("normal", "0"), entry("90", "0x10"), entry("flipped_180", "16")],
    };
    let surface = interface(
        "wl_surface",
        "6",
        vec![
            RawElement::Request(destroy),
            RawElement::Enum(transform),
            RawElement::Request(frame),
            RawElement::Event(msg("enter_output", vec![arg("output", "object", Some("wl_surface"), None)])),
            RawElement::Request(msg("attach", vec![
                arg("buffer", "object", None, None),
                arg("x", "int", None, None),
                arg("t", "int", None, Some("output_transform")),
            ])),
        ],
    );
    let callback = interface("wl_callback", "1", vec![RawElement::Event(msg("done", vec![arg("data", "uint", None, None)]))]);
    let mut p = protocol("wayland", vec![surface, callback]);
    p.copyright = Some(s("\n   Copyright notice  \n"));
    p
}

#[test]
fn does_it_work() {
    let catalog = Catalog::compile(&vec![sample_protocol()]);
    assert!(catalog.is_ok());
}

#[test]
fn protocol_normalization() {
    let p = compile_protocol(&sample_protocol()).unwrap();
    assert_eq!(p.get_name(), "wl");
    assert_eq!(p.get_copyright().unwrap().get_content(), "Copyright notice");
    let ifs = p.get_interfaces();
    assert_eq!(ifs.len(), 2);
    assert_eq!(ifs[0].get_name(), "Surface");
    assert_eq!(ifs[0].get_wire_name(), "wl_surface");
    assert_eq!(ifs[0].get_max_version(), 6);
    assert_eq!(ifs[1].get_name(), "Callback");
}

#[test]
fn prefix_kept_outside_core_protocol() {
    let p = compile_protocol(&protocol("xdg_shell", vec![interface("wl_thing", "1", vec![])])).unwrap();
    assert_eq!(p.get_name(), "xdg_shell");
    assert_eq!(p.get_interfaces()[0].get_name(), "WlThing");
}

#[test]
fn opcodes_follow_declaration_order() {
    let p = compile_protocol(&sample_protocol()).unwrap();
    let reqs = p.get_interfaces()[0].get_requests();
    let names: Vec<&str> = reqs.iter().map(|r| r.get_name()).collect();
    assert_eq!(names, vec!["destroy", "frame", "attach"]);
    assert_eq!(*reqs[0].get_type(), RequestType::Destructor);
    assert_eq!(*reqs[1].get_type(), RequestType::Default);
    assert_eq!(reqs[1].get_since(), 3);
    assert_eq!(reqs[1].get_deprecated_since(), Some(5));
    assert_eq!(reqs[0].get_since(), 1);
    let evs = p.get_interfaces()[0].get_events();
    assert_eq!(evs.len(), 1);
    assert_eq!(evs[0].get_name(), "EnterOutput");
    assert_eq!(*evs[0].get_type(), EventType::Default);
}

#[test]
fn request_opcodes_ignore_alphabetic_order() {
    let raw = interface(
        "zeta",
        "1",
        vec![
            RawElement::Request(msg("c", vec![])),
            RawElement::Event(msg("z", vec![])),
            RawElement::Request(msg("a", vec![])),
            RawElement::Request(msg("b", vec![])),
        ],
    );
    let i = compile_interface(&raw, false).unwrap();
    let names: Vec<&str> = i.get_requests().iter().map(|r| r.get_name()).collect();
    assert_eq!(names, vec!["c", "a", "b"]);
    let raw2 = interface(
        "zeta",
        "1",
        vec![
            RawElement::Request(msg("a", vec![])),
            RawElement::Request(msg("b", vec![])),
            RawElement::Request(msg("c", vec![])),
        ],
    );
    let i2 = compile_interface(&raw2, false).unwrap();
    let names2: Vec<&str> = i2.get_requests().iter().map(|r| r.get_name()).collect();
    assert_eq!(names2, vec!["a", "b", "c"]);
}

#[test]
fn enum_values_and_names() {
    let p = compile_protocol(&sample_protocol()).unwrap();
    let en = &p.get_interfaces()[0].get_enums()[0];
    assert_eq!(en.get_name(), "OutputTransform");
    assert_eq!(en.get_since(), 2);
    assert!(en.get_is_bitfield());
    assert_eq!(en.get_description().unwrap().get_summary(), "transform");
    assert_eq!(en.get_description().unwrap().get_content(), Some("padded text"));
    let entries = en.get_entries();
    assert_eq!(entries[0].get_name(), "Normal");
    assert_eq!(entries[0].get_value(), 0);
    assert_eq!(entries[1].get_name(), "_90");
    assert_eq!(entries[1].get_value(), 16);
    assert_eq!(entries[2].get_name(), "Flipped180");
    assert_eq!(entries[2].get_value(), 16);
}

#[test]
fn numeric_literals() {
    assert_eq!(parse_literal("0x10"), Some(16));
    assert_eq!(parse_literal("16"), Some(16));
    assert_eq!(parse_literal("0xFFFFFFFF"), Some(u32::MAX));
    assert_eq!(parse_literal("4294967295"), Some(u32::MAX));
    assert_eq!(parse_literal("4294967296"), None);
    assert_eq!(parse_literal("0x"), None);
    assert_eq!(parse_literal(""), None);
    assert_eq!(parse_literal("12a"), None);
    assert_eq!(parse_literal("0xag"), None);
    assert_eq!(parse_literal("0"), Some(0));
}

#[test]
fn digit_entry_names_get_a_prefix() {
    let e = compile_entry(&entry("0", "0")).unwrap();
    assert_eq!(e.get_name(), "_0");
    let e = compile_entry(&entry("270", "3")).unwrap();
    assert_eq!(e.get_name(), "_270");
    let e = compile_entry(&entry("flipped_90", "5")).unwrap();
    assert_eq!(e.get_name(), "Flipped90");
    let e = compile_entry(&entry("type", "5")).unwrap();
    assert_eq!(e.get_name(), "Type");
    let e = compile_entry(&entry("move", "5")).unwrap();
    assert_eq!(e.get_name(), "Move");
    let e = compile_entry(&entry("self", "5")).unwrap();
    assert_eq!(e.get_name(), "_Self");
    assert_eq!(entry_type_name("abc", true), "Abc");
    assert_eq!(entry_type_name("abc", false), "_Abc");
}

#[test]
fn pascal_case_examples() {
    assert_eq!(pascal_case("global_remove"), "GlobalRemove");
    assert_eq!(pascal_case("__a__b_"), "AB");
    assert_eq!(pascal_case(""), "");
    assert_eq!(pascal_case("x11_format"), "X11Format");
}

#[test]
fn arg_types_are_classified() {
    let none: Option<String> = None;
    assert_eq!(classify_arg_type("int", &none, &none), Ok(ArgType::Int));
    assert_eq!(classify_arg_type("uint", &none, &none), Ok(ArgType::UInt));
    assert_eq!(classify_arg_type("uint", &none, &Some(s("wl_output.transform"))), Ok(ArgType::Enum(s("wl_output.transform"))));
    assert_eq!(classify_arg_type("int", &none, &Some(s("e"))), Ok(ArgType::Enum(s("e"))));
    assert_eq!(classify_arg_type("fixed", &none, &none), Ok(ArgType::Fixed));
    assert_eq!(classify_arg_type("string", &none, &none), Ok(ArgType::String));
    assert_eq!(classify_arg_type("object", &Some(s("wl_surface")), &none), Ok(ArgType::Object(s("wl_surface"))));
    assert_eq!(classify_arg_type("object", &none, &none), Ok(ArgType::UInt));
    assert_eq!(classify_arg_type("new_id", &Some(s("wl_callback")), &none), Ok(ArgType::NewId(s("wl_callback"))));
    assert_eq!(classify_arg_type("new_id", &none, &none), Ok(ArgType::UnspecifiedNewId));
    assert_eq!(classify_arg_type("array", &none, &none), Ok(ArgType::Array));
    assert_eq!(classify_arg_type("fd", &none, &none), Ok(ArgType::Fd));
    assert_eq!(classify_arg_type("float", &none, &none), Err(CompileError::UnknownArgType(s("float"))));
}

#[test]
fn arguments_keep_their_attributes() {
    let mut a = arg("buffer", "object", Some("wl_buffer"), None);
    a.allow_null = Some(s("TRUE"));
    a.summary = Some(s("the buffer"));
    let raw = interface("wl_surface", "1", vec![RawElement::Request(msg("attach", vec![a]))]);
    let i = compile_interface(&raw, true).unwrap();
    let compiled = &i.get_requests()[0].get_args()[0];
    assert_eq!(compiled.get_name(), "buffer");
    assert!(compiled.get_nullable());
    assert_eq!(compiled.get_summary(), Some("the buffer"));
    assert_eq!(*compiled.get_type(), ArgType::Object(s("wl_buffer")));
    assert!(compiled.get_description().is_none());
}

#[test]
fn compiling_twice_gives_the_same_schema() {
    let a = compile_protocol(&sample_protocol()).unwrap();
    let b = compile_protocol(&sample_protocol()).unwrap();
    assert_eq!(a, b);
}

#[test]
fn bad_documents_are_refused() {
    let p = protocol("x", vec![interface("a", "one", vec![])]);
    assert_eq!(compile_protocol(&p), Err(CompileError::BadNumber(s("one"))));
    let p = protocol("x", vec![interface("a", "0", vec![])]);
    assert_eq!(compile_protocol(&p), Err(CompileError::BadNumber(s("0"))));
    let p = protocol("x", vec![interface("a", "1", vec![RawElement::Request(msg("r", vec![arg("v", "double", None, None)]))])]);
    assert_eq!(compile_protocol(&p), Err(CompileError::UnknownArgType(s("double"))));
    let p = protocol("x", vec![interface("a", "1", vec![RawElement::Enum(RawEnum {
        name: s("e"),
        since: None,
        bitfield: None,
        description: None,
        entries: vec![entry("x", "0x1g")],
    })])]);
    assert_eq!(compile_protocol(&p), Err(CompileError::BadNumber(s("0x1g"))));
}

#[test]
fn catalog_resolves_across_documents() {
    let first = protocol(
        "first",
        vec![interface(
            "user",
            "1",
            vec![RawElement::Request(msg("take", vec![
                arg("o", "object", Some("provider"), None),
                arg("m", "uint", None, Some("provider.mode")),
            ]))],
        )],
    );
    let second = protocol(
        "second",
        vec![interface(
            "provider",
            "2",
            vec![RawElement::Enum(RawEnum { name: s("mode"), since: None, bitfield: None, description: None, entries: vec![entry("a", "1")] })],
        )],
    );
    let catalog = Catalog::compile(&vec![first, second]).unwrap();
    assert_eq!(catalog.interfaces.len(), 2);
    assert_eq!(catalog.find_interface("provider"), Some(1));
    assert_eq!(catalog.find_interface("missing"), None);
}

#[test]
fn catalog_refuses_unresolved_and_duplicate_names() {
    let dangling = protocol(
        "p",
        vec![interface("user", "1", vec![RawElement::Request(msg("take", vec![arg("o", "object", Some("nowhere"), None)]))])],
    );
    assert_eq!(Catalog::compile(&vec![dangling]).err(), Some(CompileError::UnresolvedInterface(s("nowhere"))));
    let bad_enum = protocol(
        "p",
        vec![interface("user", "1", vec![RawElement::Request(msg("take", vec![arg("m", "uint", None, Some("user.nope"))]))])],
    );
    assert_eq!(Catalog::compile(&vec![bad_enum]).err(), Some(CompileError::UnresolvedEnum(s("user.nope"))));
    let local_enum = protocol(
        "p",
        vec![interface(
            "user",
            "1",
            vec![
                RawElement::Request(msg("take", vec![arg("m", "uint", None, Some("the_mode"))])),
                RawElement::Enum(RawEnum { name: s("the_mode"), since: None, bitfield: None, description: None, entries: vec![] }),
            ],
        )],
    );
    assert!(Catalog::compile(&vec![local_enum]).is_ok());
    let twice = vec![protocol("a", vec![interface("same", "1", vec![])]), protocol("b", vec![interface("same", "1", vec![])])];
    assert_eq!(Catalog::compile(&twice).err(), Some(CompileError::DuplicateInterface(s("same"))));
}

#[test]
fn trimming_removes_unicode_white_space_only_at_the_ends() {
    assert_eq!(trim_text("\u{3000}\t a b \u{2028}\n"), "a b");
    assert_eq!(trim_text(" \u{85} "), "");
    assert_eq!(trim_text("x"), "x");
    assert_eq!(trim_text(""), "");
    for t in ["  lead", "trail\r\n", "\u{a0}both\u{202f}", "mid dle"] {
        assert_eq!(trim_text(t), t.trim());
    }
}
