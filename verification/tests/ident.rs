use svd2pac::ident::{to_lowered, ToSanitizedSymbol};

#[test]
fn internal_ident_strips_array_placeholders() {
    assert_eq!("REG[%s]".to_internal_ident(), "REG");
    assert_eq!("REG%s".to_internal_ident(), "REG");
    assert_eq!("CH%s_CTRL".to_internal_ident(), "CH_CTRL");
    assert_eq!("PLAIN".to_internal_ident(), "PLAIN");
    assert_eq!("A[%s]B[%s]".to_internal_ident(), "AB");
}

#[test]
fn invalid_characters_become_underscores() {
    assert_eq!("a-b.c d".remove_invalid_char(), "a_b_c_d");
    assert_eq!("Az09_".remove_invalid_char(), "Az09_");
    assert_eq!("é[x]".remove_invalid_char(), "__x_");
    assert_eq!("".remove_invalid_char(), "");
}

#[test]
fn lowering_touches_ascii_capitals_only() {
    assert_eq!(to_lowered("AbC_09Z"), "abc_09z");
    assert_eq!(to_lowered("É"), "É");
}

#[test]
fn plain_identifier_is_kept() {
    assert_eq!("timer".to_sanitized_ident(), "timer");
    assert_eq!("_x".to_sanitized_ident(), "_x");
}

#[test]
fn keyword_becomes_raw_identifier() {
    assert_eq!("match".to_sanitized_ident(), "r#match");
    assert_eq!("type".to_sanitized_ident(), "r#type");
}

#[test]
fn keyword_without_raw_form_gets_underscore() {
    assert_eq!("self".to_sanitized_ident(), "_self");
    assert_eq!("crate".to_sanitized_ident(), "_crate");
}

#[test]
fn leading_digit_gets_underscore() {
    assert_eq!("8bit".to_sanitized_ident(), "_8bit");
}

#[test]
fn empty_name_becomes_underscore() {
    assert_eq!("".to_sanitized_ident(), "_");
    assert_eq!("".to_sanitized_mod_ident(), "_");
}

#[test]
fn module_identifier_is_lower_case() {
    assert_eq!("UART0".to_sanitized_mod_ident(), "uart0");
    assert_eq!("Match".to_sanitized_mod_ident(), "r#match");
    assert_eq!("REG[%s]".to_sanitized_mod_ident(), "reg");
    assert_eq!("my-timer".to_sanitized_mod_ident(), "my_timer");
}

#[test]
fn function_identifier_is_lower_case() {
    assert_eq!("BitField_Reg".to_sanitized_func_ident(), "bitfield_reg");
    assert_eq!("INT".to_sanitized_func_ident(), "int");
    assert_eq!("MATCH".to_sanitized_func_ident(), "r#match");
}

#[test]
fn struct_identifier_is_pascal_case() {
    assert_eq!("my_timer".to_sanitized_struct_ident(), "MyTimer");
    assert_eq!("UART".to_sanitized_struct_ident(), "Uart");
    assert_eq!("timer_ctrl%s".to_sanitized_struct_ident(), "TimerCtrl");
}

#[test]
fn enum_identifier_is_pascal_case() {
    assert_eq!("clock_source".to_sanitized_enum_ident(), "ClockSource");
}

#[test]
fn constant_identifier_is_screaming_snake_case() {
    assert_eq!("myTimer".to_sanitized_const_ident(), "MY_TIMER");
    assert_eq!("uart".to_sanitized_const_ident(), "UART");
    assert_eq!("Gpio[%s]".to_sanitized_const_ident(), "GPIO");
}

#[test]
fn a_changed_identifier_differs_from_its_source() {
    let source = "match";
    let sanitized = source.to_sanitized_ident();
    assert_ne!(sanitized, source);
}
