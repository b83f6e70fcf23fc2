use tiny_spice::bracket_expression::{
    extract_expression, extract_identifier, extract_value, is_ascii_alphanumeric, is_whitespace,
    Expression, Number, Scale,
};
use tiny_spice::circuit::{Circuit, Instance};
use tiny_spice::expander::{find_subckt_index, is_device, primitive, Primitive};
use tiny_spice::parameter::{copy_expression, find_value, Parameter};
use tiny_spice::scalar::Scalar;
use tiny_spice::spice::{
    begins_with, bits, card, command, contains, definition_index, is_node_name, same, setting,
    sides, words, Card, Command, Setting,
};

fn number(text: &str, scale: Scale) -> Option<Number> {
    Some(Number { text: text.to_string(), scale })
}

/// The quantity that a number stands for.
fn quantity(n: &Number) -> f64 {
    let mult = match n.scale {
        Scale::Unity => 1.0,
        Scale::Kilo => 1e3,
        Scale::Milli => 1e-3,
        Scale::Micro => 1e-6,
        Scale::Nano => 1e-9,
        Scale::Pico => 1e-12,
    };
    n.text.parse::<f64>().unwrap() * mult
}

#[test]
fn plain_numbers() {
    assert_eq!(extract_value("10"), number("10", Scale::Unity));
    assert_eq!(extract_value("10.0"), number("10.0", Scale::Unity));
    assert_eq!(extract_value("-3.5"), number("-3.5", Scale::Unity));
    assert_eq!(extract_value("+7"), number("+7", Scale::Unity));
    assert_eq!(extract_value("1e-6"), number("1e-6", Scale::Unity));
    assert_eq!(extract_value("2.5e+3"), number("2.5e+3", Scale::Unity));
    assert_eq!(extract_value("1e6V"), number("1e6", Scale::Unity));
    assert_eq!(extract_value("42 ohms"), number("42", Scale::Unity));
    assert_eq!(extract_value("1.5.2"), number("1.5", Scale::Unity));
    assert_eq!(extract_value("+.5"), number("+.5", Scale::Unity));
    assert_eq!(extract_value("-.25e1"), number("-.25e1", Scale::Unity));
    assert_eq!(extract_value("7."), number("7.", Scale::Unity));
    assert_eq!(extract_value("-2.k"), number("-2.", Scale::Kilo));
}

#[test]
fn numbers_with_a_suffix() {
    assert_eq!(extract_value("10k"), number("10", Scale::Kilo));
    assert_eq!(extract_value("10.0m"), number("10.0", Scale::Milli));
    assert_eq!(extract_value("10mA"), number("10", Scale::Milli));
    assert_eq!(extract_value("4.7u"), number("4.7", Scale::Micro));
    assert_eq!(extract_value("33n"), number("33", Scale::Nano));
    assert_eq!(extract_value("0.5p"), number("0.5", Scale::Pico));
    assert_eq!(extract_value("10meg"), number("10", Scale::Milli));
    // A suffix does not follow an exponent.
    assert_eq!(extract_value("1e3k"), number("1e3", Scale::Unity));
}

#[test]
fn texts_without_a_value() {
    assert_eq!(extract_value(""), None);
    assert_eq!(extract_value("k"), None);
    assert_eq!(extract_value(".5"), None);
    assert_eq!(extract_value("abc"), None);
    assert_eq!(extract_value("{x}"), None);
    assert_eq!(extract_value("1e"), None);
    assert_eq!(extract_value("1.5e"), None);
    assert_eq!(extract_value("1ex"), None);
    // A sign without a digit behind it is no value.
    assert_eq!(extract_value("+"), None);
    assert_eq!(extract_value("-"), None);
    assert_eq!(extract_value("1e-"), None);
    assert_eq!(extract_value("2e+"), None);
    assert_eq!(extract_value("+."), None);
    assert_eq!(extract_value("-.e5"), None);
    assert_eq!(extract_value("+k"), None);
    assert_eq!(extract_value("-e5"), None);
    assert_eq!(extract_value("+-1"), None);
    assert_eq!(extract_value("1e+-2"), None);
}

#[test]
fn every_value_found_is_a_number() {
    // All texts of up to six characters over the characters that matter.
    let alphabet = ['+', '-', '.', 'e', '1', '0', 'k', 'x'];
    let mut texts = vec![String::new()];
    let mut from = 0;
    for _ in 0..6 {
        let upto = texts.len();
        for i in from..upto {
            for c in alphabet.iter() {
                let mut t = texts[i].clone();
                t.push(*c);
                texts.push(t);
            }
        }
        from = upto;
    }
    let mut found = 0;
    for t in texts.iter() {
        if let Some(n) = extract_value(t) {
            assert!(n.text.parse::<f64>().is_ok(), "{:?} gave {:?}", t, n);
            assert!(t.starts_with(n.text.as_str()));
            found += 1;
        }
        assert_eq!(extract_value(t), extract_value(t));
    }
    assert!(found > 1000);
}

#[test]
fn quantities() {
    assert_eq!(quantity(&extract_value("10").unwrap()), 10.0);
    assert_eq!(quantity(&extract_value("10.0m").unwrap()), 10.0 * 1e-3);
    assert_eq!(quantity(&extract_value("10mA").unwrap()), 10.0 * 1e-3);
    assert_eq!(quantity(&extract_value("4.7k").unwrap()), 4.7 * 1e3);
    assert_eq!(quantity(&extract_value("1u").unwrap()), 1e-6);
    assert_eq!(quantity(&extract_value("2n").unwrap()), 2.0 * 1e-9);
    assert_eq!(quantity(&extract_value("3p").unwrap()), 3.0 * 1e-12);
    assert_eq!(quantity(&extract_value("1e-6").unwrap()), 1e-6);
    assert_eq!(quantity(&extract_value("-1.").unwrap()), -1.0);
}

#[test]
fn expressions() {
    assert_eq!(
        extract_expression("4.7k"),
        Some(Expression::Literal(Number { text: "4.7".to_string(), scale: Scale::Kilo }))
    );
    assert_eq!(extract_expression("{cval}"), Some(Expression::Identifier("cval".to_string())));
    assert_eq!(extract_expression("{ cval }"), Some(Expression::Identifier("cval".to_string())));
    assert_eq!(extract_expression("{\tr2  }x"), Some(Expression::Identifier("r2".to_string())));
    assert_eq!(extract_expression("{}"), Some(Expression::Identifier("".to_string())));
    assert_eq!(extract_expression("{a b}"), None);
    assert_eq!(extract_expression("{a_b}"), None);
    assert_eq!(extract_expression("{2*cval}"), None);
    assert_eq!(extract_expression("{cval"), None);
    assert_eq!(extract_expression("{"), None);
    assert_eq!(extract_expression("{  "), None);
    assert_eq!(extract_expression("cval"), None);
    assert_eq!(extract_expression(""), None);
}

#[test]
fn character_classes() {
    for c in ['\t', '\n', '\u{b}', '\u{c}', '\r', ' ', '\u{85}', '\u{a0}', '\u{2003}', '\u{3000}', 'a', '_', '0', '\u{200b}', '\u{feff}', '\u{1680}', '\u{2028}', '\u{2029}', '\u{202f}', '\u{205f}', '\u{180e}'] {
        assert_eq!(is_whitespace(c), c.is_whitespace());
    }
    for code in 0u32..0x3100 {
        if let Some(c) = char::from_u32(code) {
            assert_eq!(is_whitespace(c), c.is_whitespace());
            assert_eq!(is_ascii_alphanumeric(c), c.is_ascii_alphanumeric());
        }
    }
}

#[test]
fn identifiers() {
    assert_eq!(extract_identifier("Rload"), "Rload");
}

#[test]
fn node_names() {
    assert!(is_node_name("69"));
    assert!(is_node_name("bridge_output_234234"));
    assert!(is_node_name("N1"));
    assert!(is_node_name(""));
    assert!(!is_node_name("out+"));
    assert!(!is_node_name("X1.out"));
    assert!(!is_node_name("a b"));
    assert!(!is_node_name("é"));
}

#[test]
fn parameters() {
    let literal = extract_expression("10k").unwrap();
    let ident = extract_expression("{cval}").unwrap();
    assert_eq!(copy_expression(&literal), literal);
    assert_eq!(copy_expression(&ident), ident);
    let p = Parameter::override_from_expression("cval0", &ident);
    assert_eq!(
        p,
        Parameter { name: "cval0".to_string(), defval: None, expr: Some(ident.clone()), value: None }
    );
    let d = Parameter::default_from_expression("cval", &literal);
    assert_eq!(
        d,
        Parameter { name: "cval".to_string(), defval: Some(literal.clone()), expr: None, value: None }
    );
    assert_eq!(d.duplicate(), d);
    let r = Parameter::resolved("X1.cval", Scalar::from_bits(1.0f64.to_bits()));
    assert_eq!(r.value, Some(Scalar::from_bits(1.0f64.to_bits())));
    assert_eq!(r.name, "X1.cval");
}

#[test]
fn parameter_values() {
    let one = Scalar::from_bits(1.0f64.to_bits());
    let two = Scalar::from_bits(2.0f64.to_bits());
    let mut ckt = Circuit::new();
    assert_eq!(ckt.get_param_value("a"), None);
    ckt.params.push(Parameter::resolved("a", one));
    ckt.params.push(Parameter::default_from_expression("b", &extract_expression("5").unwrap()));
    ckt.params.push(Parameter::resolved("b", two));
    ckt.params.push(Parameter::resolved("a", two));
    assert_eq!(ckt.get_param_value("a"), Some(one));
    // The first parameter of that name decides, resolved or not.
    assert_eq!(ckt.get_param_value("b"), None);
    assert_eq!(ckt.get_param_value("c"), None);
    assert_eq!(find_value(&ckt.params, "a"), Some(one));
}

#[test]
fn instances() {
    let mut inst = Instance::new("X1", "filter");
    assert_eq!((inst.name.as_str(), inst.subckt.as_str()), ("X1", "filter"));
    assert!(inst.conns.is_empty() && inst.params.is_empty());
    inst.add_connection(3);
    inst.add_connection(0);
    let p = Parameter::override_from_expression("cval", &extract_expression("1n").unwrap());
    inst.add_parameter(&p);
    assert_eq!(inst.conns, vec![3, 0]);
    assert_eq!(inst.params, vec![p]);
    let mut ckt = Circuit::new();
    ckt.add_instance(inst.clone());
    assert_eq!(ckt.instances.len(), 1);
    assert_eq!(ckt.instances[0].name, "X1");
    assert_eq!(ckt.num_ports, 0);
}

#[test]
fn subcircuit_definitions_are_found_by_name() {
    let mut ckts = vec![Circuit::new(), Circuit::new(), Circuit::new(), Circuit::new()];
    ckts[1].name = "filter".to_string();
    ckts[2].name = "bridge".to_string();
    ckts[3].name = "filter".to_string();
    assert_eq!(find_subckt_index(&ckts, "<toplevel>"), Some(0));
    assert_eq!(find_subckt_index(&ckts, "filter"), Some(1));
    assert_eq!(find_subckt_index(&ckts, "bridge"), Some(2));
    assert_eq!(find_subckt_index(&ckts, "opamp"), None);
    assert_eq!(find_subckt_index(&Vec::new(), "filter"), None);
}

fn strings(v: &[&str]) -> Vec<String> {
    v.iter().map(|s| s.to_string()).collect()
}

#[test]
fn words_of_a_line() {
    assert_eq!(words("R1 in out 10k"), strings(&["R1", "in", "out", "10k"]));
    assert_eq!(words("  R1\tin   out\u{a0}10k \n"), strings(&["R1", "in", "out", "10k"]));
    assert_eq!(words(""), strings(&[]));
    assert_eq!(words(" \t "), strings(&[]));
    assert_eq!(words("x"), strings(&["x"]));
    for line in ["a b  c", " lead", "trail ", "\u{2003}wide\u{3000}spaces ", "V1 1 0 SIN(0 1 1k)", ""] {
        let expected: Vec<String> = line.split_whitespace().map(|s| s.to_string()).collect();
        assert_eq!(words(line), expected);
    }
}

#[test]
fn comments_are_left_out() {
    assert_eq!(bits("R1 in out 10k ; the load"), strings(&["R1", "in", "out", "10k"]));
    assert_eq!(bits("* a comment line"), strings(&[]));
    assert_eq!(bits("  *another one"), strings(&[]));
    assert_eq!(bits("; nothing here"), strings(&[]));
    assert_eq!(bits("R1 in out 10k;glued"), strings(&["R1", "in", "out", "10k;glued"]));
    assert_eq!(bits("I1 0 1 3 ; a ; b"), strings(&["I1", "0", "1", "3"]));
    assert_eq!(bits("X1 a b * c"), strings(&["X1", "a", "b", "*", "c"]));
    assert_eq!(bits(""), strings(&[]));
}

#[test]
fn cards() {
    assert_eq!(card(".ends"), Card::EndSubckt);
    assert_eq!(card("I1"), Card::CurrentSource);
    assert_eq!(card("Vin"), Card::VoltageSource);
    assert_eq!(card("R"), Card::Resistor);
    assert_eq!(card("Cload"), Card::Capacitor);
    assert_eq!(card("D4"), Card::Diode);
    assert_eq!(card("E1"), Card::Vcvs);
    assert_eq!(card("G1"), Card::Vccs);
    assert_eq!(card("Xamp"), Card::Instance);
    assert_eq!(card(".control"), Card::Control);
    assert_eq!(card(".subckt"), Card::Subckt);
    assert_eq!(card(".end"), Card::Unsupported);
    assert_eq!(card(".endsx"), Card::Unsupported);
    assert_eq!(card(".model"), Card::Unsupported);
    assert_eq!(card("r1"), Card::Unrecognised);
    assert_eq!(card("L1"), Card::Unrecognised);
    assert_eq!(card(""), Card::Unrecognised);
}

#[test]
fn commands() {
    assert_eq!(command("op"), Command::Op);
    assert_eq!(command("tran"), Command::Tran);
    assert_eq!(command("option"), Command::Option);
    assert_eq!(command(".endc"), Command::EndControl);
    assert_eq!(command("run"), Command::Unknown);
    assert_eq!(command("OP"), Command::Unknown);
    assert_eq!(command(""), Command::Unknown);
}

#[test]
fn small_text_tests() {
    assert!(same("abc", "abc"));
    assert!(!same("abc", "abd"));
    assert!(!same("abc", "ab"));
    assert!(same("", ""));
    assert!(begins_with("Xq", 'X'));
    assert!(!begins_with("xq", 'X'));
    assert!(!begins_with("", 'X'));
    assert!(contains("cval=1n", '='));
    assert!(contains("=", '='));
    assert!(!contains("cval", '='));
    assert!(!contains("", '='));
}

#[test]
fn name_of_the_subcircuit_on_an_instance_line() {
    assert_eq!(definition_index(&strings(&["X1", "in", "out", "filter"])), 3);
    assert_eq!(definition_index(&strings(&["X1", "in", "out", "filter", "cval=1n", "r=2"])), 3);
    assert_eq!(definition_index(&strings(&["X1"])), 0);
    assert_eq!(definition_index(&strings(&["a=1", "b=2"])), 0);
    assert_eq!(definition_index(&strings(&[])), 0);
    assert_eq!(definition_index(&strings(&["X1", "a=1", "filter", "b=2"])), 2);
}

#[test]
fn primitives() {
    assert_eq!(primitive("R100"), Some(Primitive::Resistor));
    assert_eq!(primitive("C1"), Some(Primitive::Capacitor));
    assert_eq!(primitive("D1"), Some(Primitive::Diode));
    assert_eq!(primitive("E1"), Some(Primitive::Vcvs));
    assert_eq!(primitive("G1"), Some(Primitive::Vccs));
    assert_eq!(primitive("X1"), None);
    assert_eq!(primitive("r1"), None);
    assert_eq!(primitive(""), None);
    assert!(is_device("/device"));
    assert!(!is_device("device"));
    assert!(!is_device("filter"));
}

#[test]
fn assignments() {
    assert_eq!(sides("cval=1n"), Some(("cval".to_string(), "1n".to_string())));
    assert_eq!(sides("r={rload}"), Some(("r".to_string(), "{rload}".to_string())));
    assert_eq!(sides("=1"), Some(("".to_string(), "1".to_string())));
    assert_eq!(sides("x="), Some(("x".to_string(), "".to_string())));
    assert_eq!(sides("="), Some(("".to_string(), "".to_string())));
    assert_eq!(sides("cval"), None);
    assert_eq!(sides(""), None);
    assert_eq!(sides("a=b=c"), None);
    assert_eq!(sides("a=="), None);
}

#[test]
fn settings() {
    assert_eq!(setting("ABSTOL"), Some(Setting::Abstol));
    assert_eq!(setting("RELTOL"), Some(Setting::Reltol));
    assert_eq!(setting("RMAX"), Some(Setting::Rmax));
    assert_eq!(setting("abstol"), None);
    assert_eq!(setting("RMIN"), None);
    assert_eq!(setting(""), None);
}

#[test]
fn lines_of_the_devices() {
    for (device, ports, values) in [
        (Primitive::Resistor, 2, 1),
        (Primitive::Capacitor, 2, 1),
        (Primitive::Diode, 2, 0),
        (Primitive::Vcvs, 4, 1),
        (Primitive::Vccs, 4, 1),
    ] {
        assert_eq!(device.ports(), ports);
        assert_eq!(device.min_values(), values);
        assert!(device.has_enough(1 + ports + values));
        assert!(device.has_enough(9));
        assert!(!device.has_enough(ports + values));
        assert!(!device.has_enough(0));
    }
}
