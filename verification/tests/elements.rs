use rspice::elements::{parse_capacitor, parse_element, parse_inductor, parse_resistor,
    parse_voltage_source, Element};
use rspice::inputsource::{parse_input_source, InputSource};
use rspice::num::Num;
use rspice::SpiceError;

fn num_f64(n: &Num) -> f64 {
    let mut s = String::new();
    if n.neg {
        s.push('-');
    }
    if n.digits.is_empty() {
        s.push('0');
    } else {
        for d in n.digits.iter() {
            s.push((b'0' + *d) as char);
        }
    }
    s.push('e');
    s += &n.exp.to_string();
    s.parse::<f64>().unwrap()
}

#[test]
fn test_parse_resistor_pass_normal() {
    let actual: Element = parse_resistor("R1 N1 N2 1K").unwrap();
    match actual {
        Element::Resistor { name, node1, node2, model, resistance } => {
            assert_eq!(name, "R1");
            assert_eq!(node1, "N1");
            assert_eq!(node2, "N2");
            assert!(model.is_none());
            assert_eq!(num_f64(&resistance), 1e3);
        }
        _ => {
            panic!();
        }
    }
}

#[test]
fn test_parse_capacitor_pass_normal() {
    let actual: Element = parse_capacitor("CLOAD N1 N2 20pF").unwrap();
    match actual {
        Element::Capacitor { name, node1, node2, model, capacitance, initial } => {
            assert_eq!(name, "CLOAD");
            assert_eq!(node1, "N1");
            assert_eq!(node2, "N2");
            assert!(model.is_none());
            assert_eq!(num_f64(&capacitance), 20e-12);
            assert!(initial.is_none());
        }
        _ => {
            panic!();
        }
    }
}

#[test]
fn test_parse_inductor_pass_normal() {
    let actual: Element = parse_inductor("L1 N1 N2 20nH").unwrap();
    match actual {
        Element::Inductor { name, node1, node2, model, inductance, initial } => {
            assert_eq!(name, "L1");
            assert_eq!(node1, "N1");
            assert_eq!(node2, "N2");
            assert!(model.is_none());
            assert_eq!(num_f64(&inductance), 20e-9);
            assert!(initial.is_none());
        }
        _ => {
            panic!();
        }
    }
}

#[test]
fn test_missing_value_is_syntax_error() {
    // "R1 N1 N2" has only three tokens.
    assert!(matches!(parse_element("R1 N1 N2"), Err(SpiceError::SyntaxError { .. })));
    assert!(matches!(parse_resistor("R1 N1 N2"), Err(SpiceError::SyntaxError { .. })));
}

#[test]
fn test_unknown_element_type() {
    assert!(matches!(parse_element("X1 N1 N2 5"), Err(SpiceError::UnknownElementType { .. })));
}

#[test]
fn test_resistor_model_and_value() {
    let actual: Element = parse_resistor("R2 A B RMOD 4.7k").unwrap();
    match actual {
        Element::Resistor { name, model, resistance, .. } => {
            assert_eq!(name, "R2");
            assert_eq!(model.unwrap(), "RMOD");
            assert_eq!(num_f64(&resistance), 4.7e3);
        }
        _ => panic!(),
    }
}

#[test]
fn test_resistor_model_without_value_defaults_to_zero() {
    let actual: Element = parse_resistor("R3 A B RMOD").unwrap();
    match actual {
        Element::Resistor { model, resistance, .. } => {
            assert_eq!(model.unwrap(), "RMOD");
            assert_eq!(num_f64(&resistance), 0.0);
        }
        _ => panic!(),
    }
}

#[test]
fn test_capacitor_initial_condition() {
    let actual: Element = parse_capacitor("C1 A B 4uF IC=2.0V").unwrap();
    match actual {
        Element::Capacitor { capacitance, initial, .. } => {
            assert_eq!(num_f64(&capacitance), 4e-6);
            assert_eq!(num_f64(&initial.unwrap()), 2.0);
        }
        _ => panic!(),
    }
}

#[test]
fn test_capacitor_must_start_with_c() {
    assert!(matches!(parse_capacitor("K1 A B 4uF"), Err(SpiceError::SyntaxError { .. })));
}

#[test]
fn test_inductor_initial_condition() {
    let actual: Element = parse_inductor("L1 A B 2mH IC=.5A").unwrap();
    match actual {
        Element::Inductor { inductance, initial, .. } => {
            assert_eq!(num_f64(&inductance), 2e-3);
            assert_eq!(num_f64(&initial.unwrap()), 0.5);
        }
        _ => panic!(),
    }
}

#[test]
fn test_voltage_source_dc() {
    let actual: Element = parse_voltage_source("V1 A 0 DC 5").unwrap();
    match actual {
        Element::VoltageSource { name, node1, node2, vtype } => {
            assert_eq!(name, "V1");
            assert_eq!(node1, "A");
            assert_eq!(node2, "0");
            match vtype {
                InputSource::DC { voltage } => assert_eq!(num_f64(&voltage), 5.0),
                _ => panic!(),
            }
        }
        _ => panic!(),
    }
}

#[test]
fn test_voltage_source_bare_number_is_implicit_dc() {
    let actual: Element = parse_voltage_source("V1 A 0 12").unwrap();
    match actual {
        Element::VoltageSource { vtype, .. } => match vtype {
            InputSource::DC { voltage } => assert_eq!(num_f64(&voltage), 12.0),
            _ => panic!(),
        },
        _ => panic!(),
    }
}

#[test]
fn test_ac_phase_mirrors_magnitude() {
    // The AC grammar re-reads the magnitude's token slot for the phase,
    // so the phase always equals the magnitude when it succeeds.
    let ws = parse_input_source("AC 3", true).unwrap();
    match ws {
        InputSource::AC { mag, phase } => {
            assert_eq!(num_f64(&mag), 3.0);
            assert_eq!(num_f64(&phase.unwrap()), 3.0);
        }
        _ => panic!(),
    }
}

#[test]
fn test_pulse_waveform() {
    let ws = parse_input_source("PULSE(0 5 1u 2u 2u 10u 20u)", true).unwrap();
    match ws {
        InputSource::Pulse { v1, v2, tdelay, trise, tfall, width, period } => {
            assert_eq!(num_f64(&v1), 0.0);
            assert_eq!(num_f64(&v2), 5.0);
            assert_eq!(num_f64(&tdelay), 1e-6);
            assert_eq!(num_f64(&trise), 2e-6);
            assert_eq!(num_f64(&tfall), 2e-6);
            assert_eq!(num_f64(&width), 10e-6);
            assert_eq!(num_f64(&period), 20e-6);
        }
        _ => panic!(),
    }
}

#[test]
fn test_pulse_missing_parens_is_malformed() {
    assert!(matches!(parse_input_source("PULSE 0 5", true),
        Err(SpiceError::MalformedWaveform)));
}

#[test]
fn test_pulse_missing_parameter_is_malformed() {
    assert!(matches!(parse_input_source("PULSE(0 5 1u)", true),
        Err(SpiceError::MalformedWaveform)));
}

#[test]
fn test_sin_phase_reads_its_own_slot() {
    // Delay, damping and phase are positional and independently
    // optional: slots 3, 4 and 5.
    let ws = parse_input_source("SIN(0 1 50Hz 1m 2m 30)", true).unwrap();
    match ws {
        InputSource::Sin { tdelay, damp_factor, phase, .. } => {
            assert_eq!(num_f64(&tdelay.unwrap()), 1e-3);
            assert_eq!(num_f64(&damp_factor.unwrap()), 2e-3);
            assert_eq!(num_f64(&phase.unwrap()), 30.0);
        }
        _ => panic!(),
    }
}

#[test]
fn test_sin_damping_without_phase() {
    // A five-parameter descriptor leaves only the phase missing.
    let ws = parse_input_source("SIN(0 1 50Hz 1m 2m)", true).unwrap();
    match ws {
        InputSource::Sin { tdelay, damp_factor, phase, .. } => {
            assert_eq!(num_f64(&tdelay.unwrap()), 1e-3);
            assert_eq!(num_f64(&damp_factor.unwrap()), 2e-3);
            assert!(phase.is_none());
        }
        _ => panic!(),
    }
}

#[test]
fn test_sffm_carrier_frequency_in_hz() {
    let ws = parse_input_source("SFFM(1 2 5Hz 0.5 100)", true).unwrap();
    match ws {
        InputSource::SFFM { voffset, vpeak, fcarrier, mod_index, fsignal } => {
            assert_eq!(num_f64(&voffset), 1.0);
            assert_eq!(num_f64(&vpeak), 2.0);
            assert_eq!(num_f64(&fcarrier), 5.0);
            assert_eq!(num_f64(&mod_index), 0.5);
            assert_eq!(num_f64(&fsignal), 100.0);
        }
        _ => panic!(),
    }
}

#[test]
fn test_sin_optional_parameters() {
    let ws = parse_input_source("SIN(0 1 50Hz)", true).unwrap();
    match ws {
        InputSource::Sin { voffset, vpeak, freq, tdelay, damp_factor, phase } => {
            assert_eq!(num_f64(&voffset), 0.0);
            assert_eq!(num_f64(&vpeak), 1.0);
            assert_eq!(num_f64(&freq), 50.0);
            assert!(tdelay.is_none());
            assert!(damp_factor.is_none());
            assert!(phase.is_none());
        }
        _ => panic!(),
    }
}

#[test]
fn test_pwl_pairs_and_odd_trailing_value_dropped() {
    let ws = parse_input_source("PWL(0 0 1m 5 2m)", true).unwrap();
    match ws {
        InputSource::PWL { points } => {
            assert_eq!(points.len(), 2);
            assert_eq!(num_f64(&points[0].0), 0.0);
            assert_eq!(num_f64(&points[0].1), 0.0);
            assert_eq!(num_f64(&points[1].0), 1e-3);
            assert_eq!(num_f64(&points[1].1), 5.0);
        }
        _ => panic!(),
    }
}

#[test]
fn test_malformed_waveform_in_source_line() {
    assert!(matches!(parse_voltage_source("V1 A 0 DC"), Err(SpiceError::MalformedWaveform)));
}

#[test]
fn test_round_trip_element_line() {
    // Re-serialize a parsed resistor's fields into a line and parse it
    // again: the numeric value survives the round trip.
    let first: Element = parse_resistor("R1 N1 N2 4.7k").unwrap();
    let (name, node1, node2, r1) = match first {
        Element::Resistor { name, node1, node2, resistance, .. } =>
            (name, node1, node2, num_f64(&resistance)),
        _ => panic!(),
    };
    let line = format!("{} {} {} {}", name, node1, node2, r1);
    let second: Element = parse_resistor(&line).unwrap();
    match second {
        Element::Resistor { resistance, .. } => {
            let r2 = num_f64(&resistance);
            assert!((r1 - r2).abs() <= 1e-9 * r1.abs());
        }
        _ => panic!(),
    }
}
