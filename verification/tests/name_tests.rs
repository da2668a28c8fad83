use font_select::name::{fmt_u64, synth_entry_name};

#[test]
fn decimal_rendering_is_exact() {
    assert_eq!(fmt_u64(0), "0");
    assert_eq!(fmt_u64(7), "7");
    assert_eq!(fmt_u64(10), "10");
    assert_eq!(fmt_u64(90210), "90210");
    assert_eq!(fmt_u64(u64::MAX), "18446744073709551615");
}

#[test]
fn synthesized_names_carry_family_and_index() {
    assert_eq!(synth_entry_name(&"X".to_string(), 0), "X.0");
    assert_eq!(synth_entry_name(&"X".to_string(), 1), "X.1");
    assert_eq!(synth_entry_name(&"Noto Sans".to_string(), 12), "Noto Sans.12");
}

#[test]
fn synthesized_names_do_not_collide() {
    let a = synth_entry_name(&"X".to_string(), 0);
    let b = synth_entry_name(&"X".to_string(), 1);
    assert_ne!(a, b);
}
