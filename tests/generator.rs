use helper_enum_from_ffi_macro_derive::annotation::{
    parse_prefix, parse_tag, variant_tags, Attribute, EnumDef, NestedItem, VariantDef,
};
use helper_enum_from_ffi_macro_derive::synth::{classifier_name, generate, marker_name};
use helper_enum_from_ffi_macro_derive::table::{
    build_arms, classify, lookup_value, resolve_symbol, Arm, Binding, Outcome,
};
use helper_enum_from_ffi_macro_derive::{ffi, match_device_error, DeviceError};

fn s(x: &str) -> String {
    x.to_string()
}

fn word(w: &str) -> NestedItem {
    NestedItem::Word(s(w))
}

fn assign(k: &str, v: &str) -> NestedItem {
    NestedItem::Assign(s(k), Some(s(v)))
}

fn meta(items: Vec<NestedItem>) -> Attribute {
    Attribute { text: s("#[ffi_enum(...)]"), name: Some(s("ffi_enum")), items: Some(items) }
}

fn suffixed(ident: &str, suffix: &str) -> VariantDef {
    VariantDef { ident: s(ident), fields: s(""), attrs: vec![meta(vec![assign("suffix", suffix)])] }
}

fn fallback(ident: &str) -> VariantDef {
    VariantDef { ident: s(ident), fields: s("(i32)"), attrs: vec![meta(vec![word("undefined")])] }
}

fn prefix_args(p: &str) -> Vec<NestedItem> {
    vec![assign("prefix", p)]
}

fn device_variants() -> Vec<VariantDef> {
    vec![
        fallback("Undefined"),
        VariantDef {
            ident: s("Success"),
            fields: s(""),
            attrs: vec![meta(vec![assign("suffix", "SUCCESS"), word("success")])],
        },
        suffixed("InvalidArg", "INVALID_ARG"),
        suffixed("UnknownError", "UNKNOWN_ERROR"),
        suffixed("NoDevice", "NO_DEVICE"),
        suffixed("NotEnoughData", "NOT_ENOUGH_DATA"),
        suffixed("SslError", "SSL_ERROR"),
        suffixed("Timeout", "TIMEOUT"),
    ]
}

fn device_def() -> EnumDef {
    EnumDef {
        attrs: vec![s("#[derive(Debug, PartialEq)]")],
        vis: s("pub "),
        name: s("DeviceError"),
        generics: s(""),
        variants: device_variants(),
    }
}

fn device_namespace() -> Vec<Binding> {
    let p = "ffi::idevice_error_t_IDEVICE_E_";
    vec![
        Binding { name: format!("{}SUCCESS", p), value: ffi::idevice_error_t_IDEVICE_E_SUCCESS },
        Binding { name: format!("{}INVALID_ARG", p), value: ffi::idevice_error_t_IDEVICE_E_INVALID_ARG },
        Binding { name: format!("{}UNKNOWN_ERROR", p), value: ffi::idevice_error_t_IDEVICE_E_UNKNOWN_ERROR },
        Binding { name: format!("{}NO_DEVICE", p), value: ffi::idevice_error_t_IDEVICE_E_NO_DEVICE },
        Binding { name: format!("{}NOT_ENOUGH_DATA", p), value: ffi::idevice_error_t_IDEVICE_E_NOT_ENOUGH_DATA },
        Binding { name: format!("{}SSL_ERROR", p), value: ffi::idevice_error_t_IDEVICE_E_SSL_ERROR },
        Binding { name: format!("{}TIMEOUT", p), value: ffi::idevice_error_t_IDEVICE_E_TIMEOUT },
    ]
}

fn ns_prefix_namespace() -> Vec<Binding> {
    vec![
        Binding { name: s("NS_SUCCESS"), value: 0 },
        Binding { name: s("NS_INVALID_ARG"), value: -1 },
    ]
}

fn selected(o: &Outcome) -> Option<String> {
    match o {
        Outcome::Selected(v) => Some(v.clone()),
        _ => None,
    }
}

fn same_outcome(a: &Outcome, b: &Outcome) -> bool {
    match (a, b) {
        (Outcome::Selected(x), Outcome::Selected(y)) => x == y,
        (Outcome::Fallback(x, v), Outcome::Fallback(y, w)) => x == y && v == w,
        (Outcome::Unmatched, Outcome::Unmatched) => true,
        _ => false,
    }
}

fn as_device_error(o: &Outcome) -> Option<DeviceError> {
    match o {
        Outcome::Selected(v) => match v.as_str() {
            "Success" => Some(DeviceError::Success),
            "InvalidArg" => Some(DeviceError::InvalidArg),
            "UnknownError" => Some(DeviceError::UnknownError),
            "NoDevice" => Some(DeviceError::NoDevice),
            "NotEnoughData" => Some(DeviceError::NotEnoughData),
            "SslError" => Some(DeviceError::SslError),
            "Timeout" => Some(DeviceError::Timeout),
            _ => None,
        },
        Outcome::Fallback(v, n) if v == "Undefined" => Some(DeviceError::Undefined(*n)),
        _ => None,
    }
}

#[test]
fn prefix_is_read_from_the_arguments() {
    assert_eq!(parse_prefix(&prefix_args("ffi::x_")), "ffi::x_");
}

#[test]
fn missing_prefix_is_empty() {
    assert_eq!(parse_prefix(&vec![]), "");
    assert_eq!(parse_prefix(&vec![assign("other", "A_"), word("prefix")]), "");
    assert_eq!(parse_prefix(&vec![NestedItem::Assign(s("prefix"), None)]), "");
}

#[test]
fn last_prefix_wins() {
    let args = vec![assign("prefix", "A_"), NestedItem::Other, assign("prefix", "B_")];
    assert_eq!(parse_prefix(&args), "B_");
}

#[test]
fn tag_reads_suffix_and_flags() {
    let t = parse_tag(&vec![assign("suffix", "SUCCESS"), word("success"), word("extra")]);
    assert_eq!(t.suffix, Some(s("SUCCESS")));
    assert!(t.success);
    assert!(!t.undefined);
    let u = parse_tag(&vec![word("undefined"), assign("undefined", "x")]);
    assert_eq!(u.suffix, None);
    assert!(!u.success);
    assert!(u.undefined);
}

#[test]
fn only_generator_attributes_give_tags() {
    let attrs = vec![
        Attribute { text: s("#[doc = \"x\"]"), name: Some(s("doc")), items: None },
        Attribute { text: s("#[other(suffix = \"A\")]"), name: Some(s("other")), items: Some(vec![assign("suffix", "A")]) },
        meta(vec![assign("suffix", "B")]),
        Attribute { text: s("#[ffi_enum]"), name: Some(s("ffi_enum")), items: None },
        meta(vec![word("undefined")]),
    ];
    let tags = variant_tags(&attrs);
    assert_eq!(tags.len(), 2);
    assert_eq!(tags[0].suffix, Some(s("B")));
    assert!(tags[1].undefined);
}

#[test]
fn symbol_is_prefix_then_suffix() {
    assert_eq!(resolve_symbol(&s("NS_"), &s("INVALID_ARG")), "NS_INVALID_ARG");
    assert_eq!(resolve_symbol(&s(""), &s("RAW")), "RAW");
}

#[test]
fn classifier_name_is_snake_case_with_marker() {
    assert_eq!(classifier_name(&s("DeviceError")), "match_device_error");
    assert_eq!(classifier_name(&s("Timeout")), "match_timeout");
    assert_eq!(marker_name("abc"), "match_abc");
}

#[test]
fn fallback_arm_is_last() {
    let arms = build_arms(&s("ffi::idevice_error_t_IDEVICE_E_"), &device_variants());
    assert_eq!(arms.len(), 8);
    match &arms[0] {
        Arm::Concrete { path, variant } => {
            assert_eq!(path, "ffi::idevice_error_t_IDEVICE_E_SUCCESS");
            assert_eq!(variant, "Success");
        }
        _ => panic!("first arm should be concrete"),
    }
    match &arms[7] {
        Arm::Wildcard { variant } => assert_eq!(variant, "Undefined"),
        _ => panic!("last arm should be the wildcard"),
    }
}

#[test]
fn first_fallback_claim_wins() {
    let vs = vec![suffixed("A", "A"), fallback("First"), fallback("Second"), suffixed("B", "B")];
    let arms = build_arms(&s("p::"), &vs);
    assert_eq!(arms.len(), 3);
    match &arms[2] {
        Arm::Wildcard { variant } => assert_eq!(variant, "First"),
        _ => panic!("last arm should be the wildcard"),
    }
}

#[test]
fn variant_without_metadata_has_no_arm() {
    let vs = vec![
        VariantDef { ident: s("Plain"), fields: s(""), attrs: vec![] },
        suffixed("A", "A"),
    ];
    let arms = build_arms(&s("p::"), &vs);
    assert_eq!(arms.len(), 1);
}

#[test]
fn unresolvable_suffix_is_dropped() {
    let vs = vec![suffixed("Bad", "NOT A PATH"), suffixed("Good", "GOOD")];
    let arms = build_arms(&s("p::"), &vs);
    assert_eq!(arms.len(), 1);
    match &arms[0] {
        Arm::Concrete { path, .. } => assert_eq!(path, "p::GOOD"),
        _ => panic!("expected a concrete arm"),
    }
}

#[test]
fn lookup_takes_the_first_binding() {
    let ns = vec![
        Binding { name: s("A"), value: 1 },
        Binding { name: s("A"), value: 2 },
    ];
    assert_eq!(lookup_value(&ns, &s("A")), Some(1));
    assert_eq!(lookup_value(&ns, &s("B")), None);
}

#[test]
fn bound_values_select_their_variant() {
    let arms = build_arms(&s("ffi::idevice_error_t_IDEVICE_E_"), &device_variants());
    let ns = device_namespace();
    for b in ns.iter() {
        let o = classify(&arms, &ns, b.value);
        assert_eq!(as_device_error(&o), Some(match_device_error(b.value)));
    }
}

#[test]
fn generated_classifier_agrees_with_device_classifier() {
    let arms = build_arms(&s("ffi::idevice_error_t_IDEVICE_E_"), &device_variants());
    let ns = device_namespace();
    for v in -10..10 {
        let o = classify(&arms, &ns, v);
        assert_eq!(as_device_error(&o), Some(match_device_error(v)));
    }
}

#[test]
fn unbound_value_keeps_its_value_in_the_fallback() {
    let arms = build_arms(&s("ffi::idevice_error_t_IDEVICE_E_"), &device_variants());
    match classify(&arms, &device_namespace(), 199) {
        Outcome::Fallback(v, n) => {
            assert_eq!(v, "Undefined");
            assert_eq!(n, 199);
        }
        _ => panic!("expected the fallback"),
    }
}

#[test]
fn unbound_value_without_fallback_is_unmatched() {
    let arms = build_arms(&s("NS_"), &vec![suffixed("Success", "SUCCESS")]);
    assert!(matches!(classify(&arms, &ns_prefix_namespace(), 5), Outcome::Unmatched));
}

#[test]
fn scenario_with_ns_prefix() {
    let vs = vec![
        fallback("Undefined"),
        suffixed("Success", "SUCCESS"),
        suffixed("InvalidArg", "INVALID_ARG"),
    ];
    let arms = build_arms(&parse_prefix(&prefix_args("NS_")), &vs);
    let ns = ns_prefix_namespace();
    assert_eq!(selected(&classify(&arms, &ns, -1)), Some(s("InvalidArg")));
    assert_eq!(selected(&classify(&arms, &ns, 0)), Some(s("Success")));
    match classify(&arms, &ns, 199) {
        Outcome::Fallback(v, n) => {
            assert_eq!(v, "Undefined");
            assert_eq!(n, 199);
        }
        _ => panic!("expected the fallback"),
    }
}

#[test]
fn unresolved_suffix_falls_through_to_fallback() {
    let vs = vec![
        fallback("Undefined"),
        suffixed("Success", "SUCCESS"),
        suffixed("InvalidArg", "INVALID ARG"),
    ];
    let arms = build_arms(&s("NS_"), &vs);
    let ns = vec![
        Binding { name: s("NS_SUCCESS"), value: 0 },
        Binding { name: s("NS_INVALID ARG"), value: -1 },
    ];
    match classify(&arms, &ns, -1) {
        Outcome::Fallback(v, n) => {
            assert_eq!(v, "Undefined");
            assert_eq!(n, -1);
        }
        _ => panic!("expected the fallback"),
    }
}

#[test]
fn declaration_order_does_not_change_selection() {
    let forward = device_variants();
    let mut backward = device_variants();
    backward.reverse();
    let p = s("ffi::idevice_error_t_IDEVICE_E_");
    let a1 = build_arms(&p, &forward);
    let a2 = build_arms(&p, &backward);
    let ns = device_namespace();
    for v in -10..10 {
        assert!(same_outcome(&classify(&a1, &ns, v), &classify(&a2, &ns, v)));
    }
    assert!(same_outcome(&classify(&a1, &ns, 199), &classify(&a2, &ns, 199)));
}

#[test]
fn generation_is_repeatable() {
    let args = prefix_args("ffi::idevice_error_t_IDEVICE_E_");
    let g1 = generate(&args, &device_def());
    let g2 = generate(&args, &device_def());
    assert_eq!(g1.definition, g2.definition);
    assert_eq!(g1.classifier, g2.classifier);
    assert_eq!(g1.classifier_name, g2.classifier_name);
}

#[test]
fn cleaned_definition_strips_generator_attributes() {
    let mut def = device_def();
    def.variants.truncate(2);
    def.variants[1].attrs.push(Attribute { text: s("#[doc = \"ok\"]"), name: Some(s("doc")), items: None });
    let g = generate(&prefix_args("ffi::E_"), &def);
    assert_eq!(
        g.definition,
        "#[derive(Debug, PartialEq)]\npub enum DeviceError {\n    Undefined(i32),\n    #[doc = \"ok\"]\n    Success,\n}\n"
    );
}

#[test]
fn classifier_text_lists_arms_in_order() {
    let mut def = device_def();
    def.variants.truncate(3);
    let g = generate(&prefix_args("ffi::E_"), &def);
    assert_eq!(g.classifier_name, "match_device_error");
    assert_eq!(
        g.classifier,
        "#[macro_export]\nmacro_rules! match_device_error {\n    ($e:expr) => {\n        match $e {\n            ffi::E_SUCCESS => DeviceError::Success,\n            ffi::E_INVALID_ARG => DeviceError::InvalidArg,\n            other => DeviceError::Undefined(other),\n        }\n    };\n}\n"
    );
}
